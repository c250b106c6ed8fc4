//! The library's laws: properties that relate several operations, stated
//! over the same spec functions the operations' contracts use and proved
//! once for all stores.

use vstd::prelude::*;

use crate::engine::{spec_check_access, ChatKind};
use crate::hierarchy::{
    is_chain, lemma_chain_fits, lemma_removal_on_chain_fueled, removal_granted, traversal_fuel,
};
use crate::model::{
    admin_of, admins_unique, groups_unique, has_admin, has_group, has_live_request, has_request,
    lemma_has_group_push, lemma_promote_admin_props, lemma_remove_group_props,
    lemma_request_at, lemma_request_push_facts, request_idx, request_of, requests_unique,
    spec_promote_admin, spec_remove_group, spec_remove_request, spec_resolved,
};
use crate::records::{Admin, BecomeAdminRequest, WhitelistedGroup};
use crate::store::DB;

verus! {

/// Removal rights follow the ownership chain exactly: for a chain
/// `ids[0] = target, ids[1], ..., root` of `added_by` links, the walk that
/// `remove_admin_with_traversal` performs grants removal of the target to a
/// requester precisely when the requester's id appears on the chain above
/// the target.  (A superadmin requester bypasses the walk altogether, per
/// the contract of `AdminHandler::remove_admin`.)
pub proof fn lemma_removal_rights_on_chain(s: Seq<Admin>, ids: Seq<i64>, remover: i64)
    requires
        admins_unique(s),
        is_chain(s, ids),
        ids.no_duplicates(),
    ensures
        removal_granted(s, ids[0], remover, traversal_fuel(s)) == exists|k: int|
            1 <= k < ids.len() && ids[k] == remover,
{
    lemma_chain_fits(s, ids);
    lemma_removal_on_chain_fueled(s, ids, remover, traversal_fuel(s));
}

/// Promotion makes a root and protects it: after `make_superadmin(x)` the
/// stored record for `x` has `added_by == None`, and no ownership-chain walk
/// grants its removal to anyone, at any fuel.
pub proof fn lemma_promoted_admin_protected(s: Seq<Admin>, x: i64, remover: i64, fuel: nat)
    requires
        admins_unique(s),
        has_admin(s, x),
    ensures
        admin_of(spec_promote_admin(s, x), x).added_by is None,
        !removal_granted(spec_promote_admin(s, x), x, remover, fuel),
{
    lemma_promote_admin_props(s, x);
    let s2 = spec_promote_admin(s, x);
    assert(admin_of(s2, x).added_by is None);
    if fuel > 0 {
        assert(!removal_granted(s2, x, remover, fuel));
    }
}

/// The group whitelist answers its own updates: a group just whitelisted is
/// whitelisted, and a group just removed is not.
pub proof fn lemma_group_whitelist_round_trip(
    s: Seq<WhitelistedGroup>,
    rec: WhitelistedGroup,
    g: i64,
)
    requires
        groups_unique(s),
    ensures
        has_group(s.push(rec), rec.group_id),
        !has_group(spec_remove_group(s, g), g),
{
    lemma_has_group_push(s, rec, rec.group_id);
    lemma_remove_group_props(s, g);
}

/// A direct-chat scope passes the access check whatever the whitelists
/// hold.
pub proof fn lemma_direct_chat_allowed(db: DB, chat_id: i64, thread_id: Option<i32>)
    ensures
        spec_check_access(db, ChatKind::Private, chat_id, thread_id),
{
}

/// A freshly filed request is live, so a second `create_request` for the
/// same user reports a duplicate instead of inserting.
pub proof fn lemma_created_request_is_live(s: Seq<BecomeAdminRequest>, rec: BecomeAdminRequest)
    requires
        rec.pending,
    ensures
        has_live_request(s.push(rec), rec.user_id),
{
    lemma_request_push_facts(s, rec, rec.request_id@, rec.user_id);
}

/// Rejection frees the user: deleting the user's only live request leaves
/// the user with no live request, so a fresh `create_request` is accepted
/// again.
pub proof fn lemma_rejection_frees_user(s: Seq<BecomeAdminRequest>, rid: Seq<char>, uid: i64)
    requires
        forall|i: int|
            0 <= i < s.len() && (#[trigger] s[i]).user_id == uid && s[i].pending ==> s[i].request_id@
                == rid,
    ensures
        !has_live_request(spec_remove_request(s, rid), uid),
    decreases s.len(),
{
    if s.len() > 0 {
        let t = s.drop_last();
        let a = s.last();
        assert(forall|i: int|
            0 <= i < t.len() && (#[trigger] t[i]).user_id == uid && t[i].pending ==> t[i].request_id@
                == rid) by {
            assert(forall|i: int| 0 <= i < t.len() ==> t[i] == s[i]);
        }
        lemma_rejection_frees_user(t, rid, uid);
        let rt = spec_remove_request(t, rid);
        if a.request_id@ == rid {
            assert(spec_remove_request(s, rid) == rt);
        } else {
            assert(spec_remove_request(s, rid) == rt.push(a));
            assert(!(a.user_id == uid && a.pending)) by {
                assert(s[s.len() - 1] == a);
            }
            lemma_request_push_facts(rt, a, rid, uid);
        }
    }
}

/// Approval frees the user too: resolving the user's only live request
/// leaves the user with no live request, so a fresh `create_request` is
/// accepted again.
pub proof fn lemma_approval_frees_user(s: Seq<BecomeAdminRequest>, rid: Seq<char>, uid: i64)
    requires
        requests_unique(s),
        has_request(s, rid),
        forall|i: int|
            0 <= i < s.len() && (#[trigger] s[i]).user_id == uid && s[i].pending ==> s[i].request_id@
                == rid,
    ensures
        !has_live_request(
            s.update(request_idx(s, rid), spec_resolved(request_of(s, rid), true)),
            uid,
        ),
{
    let i0 = request_idx(s, rid);
    assert(0 <= i0 < s.len() && s[i0].request_id@ == rid);
    let s2 = s.update(i0, spec_resolved(request_of(s, rid), true));
    if has_live_request(s2, uid) {
        let j = choose|j: int| 0 <= j < s2.len() && (#[trigger] s2[j]).user_id == uid && s2[j].pending;
        if j == i0 {
            assert(!s2[j].pending);
        } else {
            assert(s2[j] == s[j]);
            assert(s[j].request_id@ == rid);
            assert(false);
        }
    }
}

/// A resolved request stays resolved: after an approval the id still names a
/// row, but one that is no longer pending, so a second approval (or a
/// rejection) of the same id reports `NotFound` and changes nothing.
pub proof fn lemma_approval_resolves_request(s: Seq<BecomeAdminRequest>, rid: Seq<char>)
    requires
        requests_unique(s),
        has_request(s, rid),
    ensures
        ({
            let s2 = s.update(request_idx(s, rid), spec_resolved(request_of(s, rid), true));
            &&& has_request(s2, rid)
            &&& !request_of(s2, rid).pending
            &&& request_of(s2, rid).accepted
        }),
{
    let i0 = request_idx(s, rid);
    assert(0 <= i0 < s.len() && s[i0].request_id@ == rid);
    let s2 = s.update(i0, spec_resolved(request_of(s, rid), true));
    assert(requests_unique(s2)) by {
        assert forall|p: int, q: int| 0 <= p < q < s2.len() implies (
        #[trigger] s2[p]).request_id@ != (#[trigger] s2[q]).request_id@ by {
            assert(s2[p].request_id@ == s[p].request_id@);
            assert(s2[q].request_id@ == s[q].request_id@);
        }
    }
    assert(s2[i0].request_id@ == rid);
    lemma_request_at(s2, i0);
}

} // verus!
