//! The admin hierarchy: ownership-chain-based removal rights.
//!
//! An admin may remove exactly the admins it transitively created: starting
//! at the target, the chain of `added_by` links is followed upward, and the
//! walk grants removal as soon as it meets a link that names the requester.
//! A root (`added_by == None`) ends the walk with a denial, as does a link to
//! an admin that no longer exists (a broken chain).  The walk is bounded by
//! the number of admins, so a corrupted, cyclic chain in the store ends in a
//! denial rather than unbounded work.

use vstd::prelude::*;

use crate::model::{admin_of, has_admin, spec_remove_admin};
use crate::records::Admin;
use crate::store::DB;

verus! {

/// The bounded ownership-chain walk: does removing `target` get granted to
/// `remover` within `fuel` lookups?  Each step follows one `added_by` link;
/// a missing admin, a root, or exhausted fuel denies.
pub open spec fn removal_granted(s: Seq<Admin>, target: i64, remover: i64, fuel: nat) -> bool
    decreases fuel,
{
    if fuel == 0 {
        false
    } else if !has_admin(s, target) {
        false
    } else {
        match admin_of(s, target).added_by {
            None => false,
            Some(p) => p == remover || removal_granted(s, p, remover, (fuel - 1) as nat),
        }
    }
}

/// The fuel the store's traversal runs with: enough to examine every admin
/// once, so only a cyclic (hence corrupted) chain is ever cut short.
pub open spec fn traversal_fuel(s: Seq<Admin>) -> nat {
    s.len() + 1
}

impl DB {
    /// `remove_admin_with_traversal(user_id, remover_id)`: walks the
    /// ownership chain upward from `user_id`; when a link naming
    /// `remover_id` is met the target is removed and `true` returned, else
    /// nothing changes and `false` is returned.
    pub fn remove_admin_with_traversal(&mut self, user_id: i64, remover_id: i64) -> (r: bool)
        requires
            old(self).wf(),
        ensures
            final(self).wf(),
            r == removal_granted(
                old(self).admins@,
                user_id,
                remover_id,
                traversal_fuel(old(self).admins@),
            ),
            r ==> final(self).admins@ =~= spec_remove_admin(old(self).admins@, user_id),
            !r ==> final(self).admins@ == old(self).admins@,
            final(self).groups@ == old(self).groups@,
            final(self).threads@ == old(self).threads@,
            final(self).requests@ == old(self).requests@,
    {
        let ghost s = self.admins@;
        let n = self.admins.len();
        let mut cur = match self.get_admin(user_id) {
            None => {
                return false;
            },
            Some(a) => a,
        };
        let ghost mut cur_id = user_id;
        let mut steps: usize = 0;
        loop
            invariant
                self == old(self),
                self.wf(),
                s == self.admins@,
                n == s.len(),
                steps <= n,
                has_admin(s, cur_id),
                cur == admin_of(s, cur_id),
                removal_granted(s, user_id, remover_id, traversal_fuel(s)) == removal_granted(
                    s,
                    cur_id,
                    remover_id,
                    (traversal_fuel(s) - steps) as nat,
                ),
            decreases n - steps,
        {
            match cur.added_by {
                None => {
                    return false;
                },
                Some(adder) => {
                    if adder == remover_id {
                        self.remove_admin(user_id);
                        return true;
                    }
                    if steps >= n {
                        // fuel exhausted: the chain is longer than the admin
                        // table, so it must revisit an admin; deny
                        proof {
                            assert((traversal_fuel(s) - steps) as nat == 1);
                            assert(!removal_granted(s, adder, remover_id, 0));
                        }
                        return false;
                    }
                    steps += 1;
                    proof {
                        cur_id = adder;
                    }
                    cur = match self.get_admin(adder) {
                        None => {
                            // broken chain: the link names no existing admin
                            proof {
                                assert(!has_admin(s, adder));
                                let f = (traversal_fuel(s) - steps) as nat;
                                assert(!removal_granted(s, adder, remover_id, f));
                            }
                            return false;
                        },
                        Some(a) => a,
                    };
                },
            }
        }
    }
}

/// `ids` lists an ownership chain of the store `s`: each entry is an
/// existing admin, each `added_by` link names the next entry, and the last
/// entry is a root.
pub open spec fn is_chain(s: Seq<Admin>, ids: Seq<i64>) -> bool {
    &&& ids.len() >= 1
    &&& forall|i: int| 0 <= i < ids.len() ==> has_admin(s, #[trigger] ids[i])
    &&& forall|i: int|
        0 <= i < ids.len() - 1 ==> admin_of(s, #[trigger] ids[i]).added_by == Some(ids[i + 1])
    &&& admin_of(s, ids.last()).added_by is None
}

/// On a chain, the walk grants removal of the chain's first admin exactly to
/// the ids that appear above it on the chain.
pub proof fn lemma_removal_on_chain_fueled(s: Seq<Admin>, ids: Seq<i64>, remover: i64, fuel: nat)
    requires
        is_chain(s, ids),
        fuel >= ids.len(),
    ensures
        removal_granted(s, ids[0], remover, fuel) == exists|k: int|
            1 <= k < ids.len() && ids[k] == remover,
    decreases ids.len(),
{
    if ids.len() == 1 {
        assert(ids.last() == ids[0]);
        assert(!removal_granted(s, ids[0], remover, fuel));
        assert(!(exists|k: int| 1 <= k < ids.len() && ids[k] == remover));
    } else {
        assert(admin_of(s, ids[0]).added_by == Some(ids[1]));
        let tail = ids.subrange(1, ids.len() as int);
        assert(is_chain(s, tail)) by {
            assert(forall|i: int| 0 <= i < tail.len() ==> tail[i] == ids[i + 1]);
            assert(tail.last() == ids.last());
            assert forall|i: int| 0 <= i < tail.len() - 1 implies admin_of(
                s,
                #[trigger] tail[i],
            ).added_by == Some(tail[i + 1]) by {
                assert(tail[i] == ids[i + 1]);
                assert(tail[i + 1] == ids[i + 2]);
                assert(admin_of(s, ids[i + 1]).added_by == Some(ids[i + 2]));
            }
        }
        lemma_removal_on_chain_fueled(s, tail, remover, (fuel - 1) as nat);
        assert(tail[0] == ids[1]);
        if removal_granted(s, ids[0], remover, fuel) {
            if ids[1] == remover {
                assert(ids[1] == remover && 1 < ids.len());
                assert(exists|k: int| 1 <= k < ids.len() && ids[k] == remover);
            } else {
                assert(removal_granted(s, ids[1], remover, (fuel - 1) as nat));
                let k = choose|k: int| 1 <= k < tail.len() && tail[k] == remover;
                assert(tail[k] == ids[k + 1]);
                assert(ids[k + 1] == remover && 1 <= k + 1 < ids.len());
                assert(exists|k: int| 1 <= k < ids.len() && ids[k] == remover);
            }
        }
        if exists|k: int| 1 <= k < ids.len() && ids[k] == remover {
            let k = choose|k: int| 1 <= k < ids.len() && ids[k] == remover;
            if k == 1 {
                assert(removal_granted(s, ids[0], remover, fuel));
            } else {
                assert(tail[k - 1] == ids[k]);
                assert(1 <= k - 1 < tail.len() && tail[k - 1] == remover);
                assert(exists|j: int| 1 <= j < tail.len() && tail[j] == remover);
                assert(removal_granted(s, ids[1], remover, (fuel - 1) as nat));
                assert(removal_granted(s, ids[0], remover, fuel));
            }
        }
    }
}

/// A chain without repeated ids cannot be longer than the admin table: its
/// ids are distinct keys of the table.
pub proof fn lemma_chain_fits(s: Seq<Admin>, ids: Seq<i64>)
    requires
        is_chain(s, ids),
        ids.no_duplicates(),
    ensures
        ids.len() <= s.len(),
{
    let keys = Seq::new(s.len(), |i: int| s[i].user_id);
    assert forall|x: i64| #[trigger] ids.to_set().contains(x) implies keys.to_set().contains(
        x,
    ) by {
        assert(ids.contains(x));
        assert(has_admin(s, x));
        let i = choose|i: int| 0 <= i < s.len() && (#[trigger] s[i]).user_id == x;
        assert(keys[i] == x);
        assert(keys.contains(x));
    }
    ids.unique_seq_to_set();
    keys.lemma_cardinality_of_set();
    vstd::set_lib::lemma_len_subset(ids.to_set(), keys.to_set());
}

} // verus!
