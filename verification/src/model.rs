//! The mathematical model of the store.
//!
//! Each table is modelled as a sequence of records with a uniqueness
//! invariant on its key.  Lookups are described by `has_*` / `*_of` spec
//! functions and mutations by pure transformers (`spec_remove_admin`,
//! `spec_promote_admin`, ...); the executable store operations promise in
//! their contracts to realise exactly these transformers.

use vstd::prelude::*;

use crate::records::Admin;
use crate::records::BecomeAdminRequest;
use crate::records::WhitelistedGroup;
use crate::records::WhitelistedThread;

verus! {

// ---------------------------------------------------------------------------
// Admins: a sequence of records keyed by `user_id`.
// ---------------------------------------------------------------------------

/// No two admin records share a `user_id`.
pub open spec fn admins_unique(s: Seq<Admin>) -> bool {
    forall|i: int, j: int|
        0 <= i < j < s.len() ==> (#[trigger] s[i]).user_id != (#[trigger] s[j]).user_id
}

/// Some record with `user_id == id` is present.
pub open spec fn has_admin(s: Seq<Admin>, id: i64) -> bool {
    exists|i: int| 0 <= i < s.len() && (#[trigger] s[i]).user_id == id
}

/// The index of the record with `user_id == id` (meaningful when
/// `has_admin(s, id)` and `admins_unique(s)` hold).
pub open spec fn admin_idx(s: Seq<Admin>, id: i64) -> int {
    choose|i: int| 0 <= i < s.len() && (#[trigger] s[i]).user_id == id
}

/// The record with `user_id == id`.
pub open spec fn admin_of(s: Seq<Admin>, id: i64) -> Admin {
    s[admin_idx(s, id)]
}

/// In a table with unique keys, the record at any index is the one that
/// lookup by its key returns.
pub proof fn lemma_admin_at(s: Seq<Admin>, i: int)
    requires
        admins_unique(s),
        0 <= i < s.len(),
    ensures
        has_admin(s, s[i].user_id),
        admin_idx(s, s[i].user_id) == i,
        admin_of(s, s[i].user_id) == s[i],
{
    let id = s[i].user_id;
    assert(has_admin(s, id));
    let j = admin_idx(s, id);
    assert(0 <= j < s.len() && s[j].user_id == id);
}

/// Appending a record adds exactly its key to the lookup relation.
pub proof fn lemma_has_admin_push(s: Seq<Admin>, a: Admin, x: i64)
    ensures
        has_admin(s.push(a), x) == (has_admin(s, x) || a.user_id == x),
{
    if has_admin(s, x) {
        let i = choose|i: int| 0 <= i < s.len() && (#[trigger] s[i]).user_id == x;
        assert(s.push(a)[i] == s[i]);
        assert(has_admin(s.push(a), x));
    }
    if a.user_id == x {
        assert(s.push(a)[s.len() as int] == a);
        assert(has_admin(s.push(a), x));
    }
    if has_admin(s.push(a), x) && a.user_id != x {
        let i = choose|i: int|
            0 <= i < s.push(a).len() && (#[trigger] s.push(a)[i]).user_id == x;
        assert(s.push(a)[i].user_id == x);
        assert(i < s.len());
        assert(s[i] == s.push(a)[i]);
        assert(has_admin(s, x));
    }
}

/// Appending a record with a fresh key keeps the keys unique and leaves every
/// other lookup unchanged.
pub proof fn lemma_admin_push(s: Seq<Admin>, a: Admin)
    requires
        admins_unique(s),
        !has_admin(s, a.user_id),
    ensures
        admins_unique(s.push(a)),
        forall|x: i64| #[trigger]
            has_admin(s.push(a), x) == (has_admin(s, x) || a.user_id == x),
        admin_of(s.push(a), a.user_id) == a,
        forall|x: i64|
            x != a.user_id && #[trigger] has_admin(s, x) ==> admin_of(s.push(a), x) == admin_of(
                s,
                x,
            ),
{
    let t = s.push(a);
    assert forall|i: int, j: int| 0 <= i < j < t.len() implies (#[trigger] t[i]).user_id != (
    #[trigger] t[j]).user_id by {
        if j < s.len() {
            assert(t[i] == s[i] && t[j] == s[j]);
        } else {
            assert(t[j] == a);
            assert(t[i] == s[i]);
            lemma_admin_at(s, i);
        }
    }
    assert forall|x: i64| #[trigger] has_admin(t, x) == (has_admin(s, x) || a.user_id == x) by {
        lemma_has_admin_push(s, a, x);
    }
    assert(t[s.len() as int] == a);
    lemma_admin_at(t, s.len() as int);
    assert forall|x: i64| x != a.user_id && #[trigger] has_admin(s, x) implies admin_of(t, x)
        == admin_of(s, x) by {
        let i = admin_idx(s, x);
        assert(0 <= i < s.len() && s[i].user_id == x);
        assert(t[i] == s[i]);
        lemma_admin_at(t, i);
    }
}

/// Removes every record whose key is `id` (at most one, when keys are
/// unique).
pub open spec fn spec_remove_admin(s: Seq<Admin>, id: i64) -> Seq<Admin>
    decreases s.len(),
{
    if s.len() == 0 {
        s
    } else {
        let rest = spec_remove_admin(s.drop_last(), id);
        if s.last().user_id == id {
            rest
        } else {
            rest.push(s.last())
        }
    }
}

/// What removal does to the lookup relation: the key is gone, every other
/// record is untouched.
pub proof fn lemma_remove_admin_props(s: Seq<Admin>, id: i64)
    requires
        admins_unique(s),
    ensures
        admins_unique(spec_remove_admin(s, id)),
        forall|x: i64| #[trigger]
            has_admin(spec_remove_admin(s, id), x) == (has_admin(s, x) && x != id),
        forall|x: i64|
            x != id && #[trigger] has_admin(s, x) ==> admin_of(spec_remove_admin(s, id), x)
                == admin_of(s, x),
        spec_remove_admin(s, id).len() <= s.len(),
    decreases s.len(),
{
    let r = spec_remove_admin(s, id);
    if s.len() == 0 {
        assert forall|x: i64| #[trigger] has_admin(r, x) == (has_admin(s, x) && x != id) by {
            assert(!has_admin(r, x));
        }
    } else {
        let t = s.drop_last();
        let a = s.last();
        assert(admins_unique(t)) by {
            assert forall|i: int, j: int| 0 <= i < j < t.len() implies (#[trigger] t[i]).user_id
                != (#[trigger] t[j]).user_id by {
                assert(t[i] == s[i] && t[j] == s[j]);
            }
        }
        lemma_remove_admin_props(t, id);
        let rt = spec_remove_admin(t, id);
        // lookups in `t` are lookups in `s` minus the last record
        assert forall|x: i64| #[trigger] has_admin(t, x) || a.user_id == x implies has_admin(s, x) by {
            if has_admin(t, x) {
                let i = choose|i: int| 0 <= i < t.len() && (#[trigger] t[i]).user_id == x;
                assert(s[i] == t[i]);
                assert(has_admin(s, x));
            } else {
                assert(s[s.len() - 1] == a);
                assert(has_admin(s, x));
            }
        }
        assert forall|x: i64| #[trigger] has_admin(s, x) implies has_admin(t, x) || a.user_id == x by {
            let i = choose|i: int| 0 <= i < s.len() && (#[trigger] s[i]).user_id == x;
            if i < s.len() - 1 {
                assert(t[i] == s[i]);
                assert(has_admin(t, x));
            } else {
                assert(s[i] == a);
            }
        }
        if a.user_id == id {
            // r == rt; the last record carried the removed key
            assert(r == rt);
            assert forall|x: i64| #[trigger] has_admin(r, x) == (has_admin(s, x) && x != id) by {
                if x != id {
                    assert(has_admin(t, x) == has_admin(s, x)) by {
                        if a.user_id == x {
                            assert(false);
                        }
                    }
                }
            }
            assert forall|x: i64| x != id && #[trigger] has_admin(s, x) implies admin_of(r, x)
                == admin_of(s, x) by {
                assert(has_admin(t, x));
                assert(admin_of(r, x) == admin_of(t, x));
                let i = admin_idx(t, x);
                assert(0 <= i < t.len() && t[i].user_id == x);
                assert(s[i] == t[i]);
                lemma_admin_at(s, i);
            }
        } else {
            assert(r == rt.push(a));
            assert(!has_admin(rt, a.user_id)) by {
                if has_admin(rt, a.user_id) {
                    assert(has_admin(t, a.user_id));
                    let i = admin_idx(t, a.user_id);
                    assert(0 <= i < t.len() && t[i].user_id == a.user_id);
                    assert(s[i] == t[i]);
                    assert(s[s.len() - 1] == a);
                }
            }
            lemma_admin_push(rt, a);
            assert forall|x: i64| #[trigger] has_admin(r, x) == (has_admin(s, x) && x != id) by {
                lemma_has_admin_push(rt, a, x);
            }
            assert forall|x: i64| x != id && #[trigger] has_admin(s, x) implies admin_of(r, x)
                == admin_of(s, x) by {
                if x == a.user_id {
                    assert(admin_of(r, x) == a);
                    assert(s[s.len() - 1] == a);
                    lemma_admin_at(s, s.len() - 1);
                } else {
                    assert(has_admin(t, x));
                    assert(has_admin(rt, x));
                    assert(admin_of(r, x) == admin_of(rt, x));
                    assert(admin_of(rt, x) == admin_of(t, x));
                    let i = admin_idx(t, x);
                    assert(0 <= i < t.len() && t[i].user_id == x);
                    assert(s[i] == t[i]);
                    lemma_admin_at(s, i);
                }
            }
        }
    }
}

/// When the key is absent, removal is the identity.
pub proof fn lemma_remove_admin_absent(s: Seq<Admin>, id: i64)
    requires
        !has_admin(s, id),
    ensures
        spec_remove_admin(s, id) =~= s,
    decreases s.len(),
{
    if s.len() > 0 {
        let t = s.drop_last();
        assert(!has_admin(t, id)) by {
            if has_admin(t, id) {
                let i = choose|i: int| 0 <= i < t.len() && (#[trigger] t[i]).user_id == id;
                assert(s[i] == t[i]);
                assert(has_admin(s, id));
            }
        }
        lemma_remove_admin_absent(t, id);
        assert(s.last().user_id != id) by {
            if s.last().user_id == id {
                assert(s[s.len() - 1] == s.last());
                assert(has_admin(s, id));
            }
        }
        assert(spec_remove_admin(s, id) =~= t.push(s.last()));
        assert(t.push(s.last()) =~= s);
    }
}

/// When the key sits at index `i` of a table with unique keys, removal is
/// removal of that index.
pub proof fn lemma_remove_admin_at(s: Seq<Admin>, i: int)
    requires
        admins_unique(s),
        0 <= i < s.len(),
    ensures
        spec_remove_admin(s, s[i].user_id) =~= s.remove(i),
    decreases s.len(),
{
    let id = s[i].user_id;
    let t = s.drop_last();
    assert(admins_unique(t)) by {
        assert forall|p: int, q: int| 0 <= p < q < t.len() implies (#[trigger] t[p]).user_id != (
        #[trigger] t[q]).user_id by {
            assert(t[p] == s[p] && t[q] == s[q]);
        }
    }
    if i == s.len() - 1 {
        assert(s.last() == s[i]);
        assert(!has_admin(t, id)) by {
            if has_admin(t, id) {
                let j = choose|j: int| 0 <= j < t.len() && (#[trigger] t[j]).user_id == id;
                assert(s[j] == t[j]);
            }
        }
        lemma_remove_admin_absent(t, id);
        assert(spec_remove_admin(s, id) =~= t);
        assert(s.remove(i) =~= t);
    } else {
        assert(s.last().user_id != id) by {
            assert(s[s.len() - 1] == s.last());
        }
        assert(t[i] == s[i]);
        lemma_remove_admin_at(t, i);
        assert(spec_remove_admin(s, id) =~= t.remove(i).push(s.last()));
        assert(t.remove(i).push(s.last()) =~= s.remove(i));
    }
}

/// Clears `added_by` on every record whose key is `id` (at most one, when
/// keys are unique), leaving the other fields and all other records as they
/// were.
pub open spec fn spec_promote_admin(s: Seq<Admin>, id: i64) -> Seq<Admin>
    decreases s.len(),
{
    if s.len() == 0 {
        s
    } else {
        let rest = spec_promote_admin(s.drop_last(), id);
        let a = s.last();
        if a.user_id == id {
            rest.push(
                Admin { user_id: a.user_id, name: a.name, added_by: None, added_at: a.added_at },
            )
        } else {
            rest.push(a)
        }
    }
}

/// When the key is absent, promotion is the identity.
pub proof fn lemma_promote_admin_absent(s: Seq<Admin>, id: i64)
    requires
        !has_admin(s, id),
    ensures
        spec_promote_admin(s, id) =~= s,
    decreases s.len(),
{
    if s.len() > 0 {
        let t = s.drop_last();
        assert(!has_admin(t, id)) by {
            if has_admin(t, id) {
                let i = choose|i: int| 0 <= i < t.len() && (#[trigger] t[i]).user_id == id;
                assert(s[i] == t[i]);
            }
        }
        lemma_promote_admin_absent(t, id);
        assert(s.last().user_id != id) by {
            assert(s[s.len() - 1] == s.last());
        }
        assert(spec_promote_admin(s, id) =~= t.push(s.last()));
        assert(t.push(s.last()) =~= s);
    }
}

/// When the key sits at index `i` of a table with unique keys, promotion is
/// an update of that index.
pub proof fn lemma_promote_admin_at(s: Seq<Admin>, i: int)
    requires
        admins_unique(s),
        0 <= i < s.len(),
    ensures
        spec_promote_admin(s, s[i].user_id) =~= s.update(
            i,
            Admin {
                user_id: s[i].user_id,
                name: s[i].name,
                added_by: None,
                added_at: s[i].added_at,
            },
        ),
    decreases s.len(),
{
    let id = s[i].user_id;
    let t = s.drop_last();
    assert(admins_unique(t)) by {
        assert forall|p: int, q: int| 0 <= p < q < t.len() implies (#[trigger] t[p]).user_id != (
        #[trigger] t[q]).user_id by {
            assert(t[p] == s[p] && t[q] == s[q]);
        }
    }
    if i == s.len() - 1 {
        assert(s.last() == s[i]);
        assert(!has_admin(t, id)) by {
            if has_admin(t, id) {
                let j = choose|j: int| 0 <= j < t.len() && (#[trigger] t[j]).user_id == id;
                assert(s[j] == t[j]);
            }
        }
        lemma_promote_admin_absent(t, id);
        assert(spec_promote_admin(s, id) =~= s.update(
            i,
            Admin {
                user_id: s[i].user_id,
                name: s[i].name,
                added_by: None,
                added_at: s[i].added_at,
            },
        ));
    } else {
        assert(s.last().user_id != id) by {
            assert(s[s.len() - 1] == s.last());
        }
        assert(t[i] == s[i]);
        lemma_promote_admin_at(t, i);
        assert(spec_promote_admin(s, id) =~= t.update(
            i,
            Admin {
                user_id: s[i].user_id,
                name: s[i].name,
                added_by: None,
                added_at: s[i].added_at,
            },
        ).push(s.last()));
        assert(t.update(
            i,
            Admin {
                user_id: s[i].user_id,
                name: s[i].name,
                added_by: None,
                added_at: s[i].added_at,
            },
        ).push(s.last()) =~= s.update(
            i,
            Admin {
                user_id: s[i].user_id,
                name: s[i].name,
                added_by: None,
                added_at: s[i].added_at,
            },
        ));
    }
}

/// Promotion keeps the keys unique, keeps the lookup domain, clears
/// `added_by` on `id` and leaves every other record untouched.
pub proof fn lemma_promote_admin_props(s: Seq<Admin>, id: i64)
    requires
        admins_unique(s),
    ensures
        admins_unique(spec_promote_admin(s, id)),
        forall|x: i64| #[trigger] has_admin(spec_promote_admin(s, id), x) == has_admin(s, x),
        has_admin(s, id) ==> admin_of(spec_promote_admin(s, id), id) == (Admin {
            user_id: admin_of(s, id).user_id,
            name: admin_of(s, id).name,
            added_by: None,
            added_at: admin_of(s, id).added_at,
        }),
        forall|x: i64|
            x != id && #[trigger] has_admin(s, x) ==> admin_of(spec_promote_admin(s, id), x)
                == admin_of(s, x),
        spec_promote_admin(s, id).len() == s.len(),
{
    let r = spec_promote_admin(s, id);
    if has_admin(s, id) {
        let i = admin_idx(s, id);
        assert(0 <= i < s.len() && s[i].user_id == id);
        lemma_promote_admin_at(s, i);
        let p = Admin { user_id: id, name: s[i].name, added_by: None, added_at: s[i].added_at };
        assert(r =~= s.update(i, p));
        assert forall|pp: int, q: int| 0 <= pp < q < r.len() implies (#[trigger] r[pp]).user_id
            != (#[trigger] r[q]).user_id by {
            assert(r[pp].user_id == s[pp].user_id);
            assert(r[q].user_id == s[q].user_id);
        }
        assert forall|x: i64| #[trigger] has_admin(r, x) == has_admin(s, x) by {
            if has_admin(r, x) {
                let j = choose|j: int| 0 <= j < r.len() && (#[trigger] r[j]).user_id == x;
                assert(s[j].user_id == x);
                assert(has_admin(s, x));
            }
            if has_admin(s, x) {
                let j = admin_idx(s, x);
                assert(0 <= j < s.len() && s[j].user_id == x);
                assert(r[j].user_id == x);
                assert(has_admin(r, x));
            }
        }
        assert(r[i] == p);
        lemma_admin_at(r, i);
        assert(admin_of(s, id) == s[i]);
        assert forall|x: i64| x != id && #[trigger] has_admin(s, x) implies admin_of(r, x)
            == admin_of(s, x) by {
            let j = admin_idx(s, x);
            assert(0 <= j < s.len() && s[j].user_id == x);
            assert(j != i);
            assert(r[j] == s[j]);
            lemma_admin_at(r, j);
        }
    } else {
        lemma_promote_admin_absent(s, id);
        assert(r =~= s);
    }
}

// ---------------------------------------------------------------------------
// Whitelisted groups: a sequence of records keyed by `group_id`.
// ---------------------------------------------------------------------------

/// No two group records share a `group_id`.
pub open spec fn groups_unique(s: Seq<WhitelistedGroup>) -> bool {
    forall|i: int, j: int|
        0 <= i < j < s.len() ==> (#[trigger] s[i]).group_id != (#[trigger] s[j]).group_id
}

/// Some record with `group_id == id` is present: the group is whitelisted.
pub open spec fn has_group(s: Seq<WhitelistedGroup>, id: i64) -> bool {
    exists|i: int| 0 <= i < s.len() && (#[trigger] s[i]).group_id == id
}

/// Appending a record adds exactly its key to the whitelist relation.
pub proof fn lemma_has_group_push(s: Seq<WhitelistedGroup>, g: WhitelistedGroup, x: i64)
    ensures
        has_group(s.push(g), x) == (has_group(s, x) || g.group_id == x),
{
    if has_group(s, x) {
        let i = choose|i: int| 0 <= i < s.len() && (#[trigger] s[i]).group_id == x;
        assert(s.push(g)[i] == s[i]);
        assert(has_group(s.push(g), x));
    }
    if g.group_id == x {
        assert(s.push(g)[s.len() as int] == g);
        assert(has_group(s.push(g), x));
    }
    if has_group(s.push(g), x) && g.group_id != x {
        let i = choose|i: int|
            0 <= i < s.push(g).len() && (#[trigger] s.push(g)[i]).group_id == x;
        assert(s.push(g)[i].group_id == x);
        assert(i < s.len());
        assert(s[i] == s.push(g)[i]);
        assert(has_group(s, x));
    }
}

/// Appending a record with a fresh key keeps the keys unique.
pub proof fn lemma_group_push(s: Seq<WhitelistedGroup>, g: WhitelistedGroup)
    requires
        groups_unique(s),
        !has_group(s, g.group_id),
    ensures
        groups_unique(s.push(g)),
        forall|x: i64| #[trigger]
            has_group(s.push(g), x) == (has_group(s, x) || g.group_id == x),
{
    let t = s.push(g);
    assert forall|i: int, j: int| 0 <= i < j < t.len() implies (#[trigger] t[i]).group_id != (
    #[trigger] t[j]).group_id by {
        if j < s.len() {
            assert(t[i] == s[i] && t[j] == s[j]);
        } else {
            assert(t[j] == g);
            assert(t[i] == s[i]);
            assert(has_group(s, s[i].group_id));
        }
    }
    assert forall|x: i64| #[trigger] has_group(t, x) == (has_group(s, x) || g.group_id == x) by {
        lemma_has_group_push(s, g, x);
    }
}

/// Removes every record whose key is `id`.
pub open spec fn spec_remove_group(s: Seq<WhitelistedGroup>, id: i64) -> Seq<WhitelistedGroup>
    decreases s.len(),
{
    if s.len() == 0 {
        s
    } else {
        let rest = spec_remove_group(s.drop_last(), id);
        if s.last().group_id == id {
            rest
        } else {
            rest.push(s.last())
        }
    }
}

/// Removal takes exactly the removed key out of the whitelist relation.
pub proof fn lemma_remove_group_props(s: Seq<WhitelistedGroup>, id: i64)
    requires
        groups_unique(s),
    ensures
        groups_unique(spec_remove_group(s, id)),
        forall|x: i64| #[trigger]
            has_group(spec_remove_group(s, id), x) == (has_group(s, x) && x != id),
        spec_remove_group(s, id).len() <= s.len(),
    decreases s.len(),
{
    let r = spec_remove_group(s, id);
    if s.len() == 0 {
        assert forall|x: i64| #[trigger] has_group(r, x) == (has_group(s, x) && x != id) by {
            assert(!has_group(r, x));
        }
    } else {
        let t = s.drop_last();
        let g = s.last();
        assert(groups_unique(t)) by {
            assert forall|i: int, j: int| 0 <= i < j < t.len() implies (#[trigger] t[i]).group_id
                != (#[trigger] t[j]).group_id by {
                assert(t[i] == s[i] && t[j] == s[j]);
            }
        }
        lemma_remove_group_props(t, id);
        let rt = spec_remove_group(t, id);
        assert forall|x: i64| #[trigger] has_group(t, x) || g.group_id == x implies has_group(
            s,
            x,
        ) by {
            if has_group(t, x) {
                let i = choose|i: int| 0 <= i < t.len() && (#[trigger] t[i]).group_id == x;
                assert(s[i] == t[i]);
            } else {
                assert(s[s.len() - 1] == g);
            }
        }
        assert forall|x: i64| #[trigger] has_group(s, x) implies has_group(t, x) || g.group_id
            == x by {
            let i = choose|i: int| 0 <= i < s.len() && (#[trigger] s[i]).group_id == x;
            if i < s.len() - 1 {
                assert(t[i] == s[i]);
            } else {
                assert(s[i] == g);
            }
        }
        if g.group_id == id {
            assert(r == rt);
            assert forall|x: i64| #[trigger] has_group(r, x) == (has_group(s, x) && x != id) by {
                if x != id && g.group_id == x {
                    assert(false);
                }
            }
        } else {
            assert(r == rt.push(g));
            assert(!has_group(rt, g.group_id)) by {
                if has_group(rt, g.group_id) {
                    assert(has_group(t, g.group_id));
                    let i = choose|i: int|
                        0 <= i < t.len() && (#[trigger] t[i]).group_id == g.group_id;
                    assert(s[i] == t[i]);
                    assert(s[s.len() - 1] == g);
                }
            }
            lemma_group_push(rt, g);
            assert forall|x: i64| #[trigger] has_group(r, x) == (has_group(s, x) && x != id) by {
                lemma_has_group_push(rt, g, x);
            }
        }
    }
}

/// When the key is absent, removal is the identity.
pub proof fn lemma_remove_group_absent(s: Seq<WhitelistedGroup>, id: i64)
    requires
        !has_group(s, id),
    ensures
        spec_remove_group(s, id) =~= s,
    decreases s.len(),
{
    if s.len() > 0 {
        let t = s.drop_last();
        assert(!has_group(t, id)) by {
            if has_group(t, id) {
                let i = choose|i: int| 0 <= i < t.len() && (#[trigger] t[i]).group_id == id;
                assert(s[i] == t[i]);
            }
        }
        lemma_remove_group_absent(t, id);
        assert(s.last().group_id != id) by {
            assert(s[s.len() - 1] == s.last());
        }
        assert(spec_remove_group(s, id) =~= t.push(s.last()));
        assert(t.push(s.last()) =~= s);
    }
}

/// When the key sits at index `i`, removal is removal of that index.
pub proof fn lemma_remove_group_at(s: Seq<WhitelistedGroup>, i: int)
    requires
        groups_unique(s),
        0 <= i < s.len(),
    ensures
        spec_remove_group(s, s[i].group_id) =~= s.remove(i),
    decreases s.len(),
{
    let id = s[i].group_id;
    let t = s.drop_last();
    assert(groups_unique(t)) by {
        assert forall|p: int, q: int| 0 <= p < q < t.len() implies (#[trigger] t[p]).group_id != (
        #[trigger] t[q]).group_id by {
            assert(t[p] == s[p] && t[q] == s[q]);
        }
    }
    if i == s.len() - 1 {
        assert(s.last() == s[i]);
        assert(!has_group(t, id)) by {
            if has_group(t, id) {
                let j = choose|j: int| 0 <= j < t.len() && (#[trigger] t[j]).group_id == id;
                assert(s[j] == t[j]);
            }
        }
        lemma_remove_group_absent(t, id);
        assert(spec_remove_group(s, id) =~= t);
        assert(s.remove(i) =~= t);
    } else {
        assert(s.last().group_id != id) by {
            assert(s[s.len() - 1] == s.last());
        }
        assert(t[i] == s[i]);
        lemma_remove_group_at(t, i);
        assert(spec_remove_group(s, id) =~= t.remove(i).push(s.last()));
        assert(t.remove(i).push(s.last()) =~= s.remove(i));
    }
}

// ---------------------------------------------------------------------------
// Whitelisted threads: a sequence of records keyed by `(thread_id, group_id)`.
// ---------------------------------------------------------------------------

/// No two thread records share a `(thread_id, group_id)` pair.
pub open spec fn threads_unique(s: Seq<WhitelistedThread>) -> bool {
    forall|i: int, j: int|
        0 <= i < j < s.len() ==> !((#[trigger] s[i]).thread_id == (#[trigger] s[j]).thread_id
            && s[i].group_id == s[j].group_id)
}

/// Some record with this `(thread_id, group_id)` pair is present.
pub open spec fn has_thread(s: Seq<WhitelistedThread>, tid: i32, gid: i64) -> bool {
    exists|i: int|
        0 <= i < s.len() && (#[trigger] s[i]).thread_id == tid && s[i].group_id == gid
}

/// Appending a record adds exactly its key pair to the whitelist relation.
pub proof fn lemma_has_thread_push(
    s: Seq<WhitelistedThread>,
    t: WhitelistedThread,
    tid: i32,
    gid: i64,
)
    ensures
        has_thread(s.push(t), tid, gid) == (has_thread(s, tid, gid) || (t.thread_id == tid
            && t.group_id == gid)),
{
    if has_thread(s, tid, gid) {
        let i = choose|i: int|
            0 <= i < s.len() && (#[trigger] s[i]).thread_id == tid && s[i].group_id == gid;
        assert(s.push(t)[i] == s[i]);
        assert(has_thread(s.push(t), tid, gid));
    }
    if t.thread_id == tid && t.group_id == gid {
        assert(s.push(t)[s.len() as int] == t);
        assert(has_thread(s.push(t), tid, gid));
    }
    if has_thread(s.push(t), tid, gid) && !(t.thread_id == tid && t.group_id == gid) {
        let i = choose|i: int|
            0 <= i < s.push(t).len() && (#[trigger] s.push(t)[i]).thread_id == tid && s.push(
                t,
            )[i].group_id == gid;
        assert(i < s.len());
        assert(s[i] == s.push(t)[i]);
        assert(has_thread(s, tid, gid));
    }
}

/// Appending a record with a fresh key pair keeps the keys unique.
pub proof fn lemma_thread_push(s: Seq<WhitelistedThread>, t: WhitelistedThread)
    requires
        threads_unique(s),
        !has_thread(s, t.thread_id, t.group_id),
    ensures
        threads_unique(s.push(t)),
        forall|tid: i32, gid: i64| #[trigger]
            has_thread(s.push(t), tid, gid) == (has_thread(s, tid, gid) || (t.thread_id == tid
                && t.group_id == gid)),
{
    let u = s.push(t);
    assert forall|i: int, j: int| 0 <= i < j < u.len() implies !((#[trigger] u[i]).thread_id == (
    #[trigger] u[j]).thread_id && u[i].group_id == u[j].group_id) by {
        if j < s.len() {
            assert(u[i] == s[i] && u[j] == s[j]);
        } else {
            assert(u[j] == t);
            assert(u[i] == s[i]);
            assert(has_thread(s, s[i].thread_id, s[i].group_id));
        }
    }
    assert forall|tid: i32, gid: i64| #[trigger] has_thread(u, tid, gid) == (has_thread(
        s,
        tid,
        gid,
    ) || (t.thread_id == tid && t.group_id == gid)) by {
        lemma_has_thread_push(s, t, tid, gid);
    }
}

/// Removes every record whose key pair is `(tid, gid)`.
pub open spec fn spec_remove_thread(s: Seq<WhitelistedThread>, tid: i32, gid: i64) -> Seq<
    WhitelistedThread,
>
    decreases s.len(),
{
    if s.len() == 0 {
        s
    } else {
        let rest = spec_remove_thread(s.drop_last(), tid, gid);
        if s.last().thread_id == tid && s.last().group_id == gid {
            rest
        } else {
            rest.push(s.last())
        }
    }
}

/// Removal takes exactly the removed key pair out of the whitelist relation.
pub proof fn lemma_remove_thread_props(s: Seq<WhitelistedThread>, tid: i32, gid: i64)
    requires
        threads_unique(s),
    ensures
        threads_unique(spec_remove_thread(s, tid, gid)),
        forall|x: i32, y: i64| #[trigger]
            has_thread(spec_remove_thread(s, tid, gid), x, y) == (has_thread(s, x, y) && !(x == tid
                && y == gid)),
        spec_remove_thread(s, tid, gid).len() <= s.len(),
    decreases s.len(),
{
    let r = spec_remove_thread(s, tid, gid);
    if s.len() == 0 {
        assert forall|x: i32, y: i64| #[trigger] has_thread(r, x, y) == (has_thread(s, x, y) && !(
        x == tid && y == gid)) by {
            assert(!has_thread(r, x, y));
        }
    } else {
        let t = s.drop_last();
        let g = s.last();
        assert(threads_unique(t)) by {
            assert forall|i: int, j: int| 0 <= i < j < t.len() implies !((
            #[trigger] t[i]).thread_id == (#[trigger] t[j]).thread_id && t[i].group_id
                == t[j].group_id) by {
                assert(t[i] == s[i] && t[j] == s[j]);
            }
        }
        lemma_remove_thread_props(t, tid, gid);
        let rt = spec_remove_thread(t, tid, gid);
        assert forall|x: i32, y: i64| #[trigger]
            has_thread(t, x, y) || (g.thread_id == x && g.group_id == y) implies has_thread(
            s,
            x,
            y,
        ) by {
            if has_thread(t, x, y) {
                let i = choose|i: int|
                    0 <= i < t.len() && (#[trigger] t[i]).thread_id == x && t[i].group_id == y;
                assert(s[i] == t[i]);
            } else {
                assert(s[s.len() - 1] == g);
            }
        }
        assert forall|x: i32, y: i64| #[trigger] has_thread(s, x, y) implies has_thread(t, x, y)
            || (g.thread_id == x && g.group_id == y) by {
            let i = choose|i: int|
                0 <= i < s.len() && (#[trigger] s[i]).thread_id == x && s[i].group_id == y;
            if i < s.len() - 1 {
                assert(t[i] == s[i]);
            } else {
                assert(s[i] == g);
            }
        }
        if g.thread_id == tid && g.group_id == gid {
            assert(r == rt);
            assert forall|x: i32, y: i64| #[trigger] has_thread(r, x, y) == (has_thread(s, x, y)
                && !(x == tid && y == gid)) by {}
        } else {
            assert(r == rt.push(g));
            assert(!has_thread(rt, g.thread_id, g.group_id)) by {
                if has_thread(rt, g.thread_id, g.group_id) {
                    assert(has_thread(t, g.thread_id, g.group_id));
                    let i = choose|i: int|
                        0 <= i < t.len() && (#[trigger] t[i]).thread_id == g.thread_id
                            && t[i].group_id == g.group_id;
                    assert(s[i] == t[i]);
                    assert(s[s.len() - 1] == g);
                }
            }
            lemma_thread_push(rt, g);
            assert forall|x: i32, y: i64| #[trigger] has_thread(r, x, y) == (has_thread(s, x, y)
                && !(x == tid && y == gid)) by {
                lemma_has_thread_push(rt, g, x, y);
            }
        }
    }
}

/// When the key pair is absent, removal is the identity.
pub proof fn lemma_remove_thread_absent(s: Seq<WhitelistedThread>, tid: i32, gid: i64)
    requires
        !has_thread(s, tid, gid),
    ensures
        spec_remove_thread(s, tid, gid) =~= s,
    decreases s.len(),
{
    if s.len() > 0 {
        let t = s.drop_last();
        assert(!has_thread(t, tid, gid)) by {
            if has_thread(t, tid, gid) {
                let i = choose|i: int|
                    0 <= i < t.len() && (#[trigger] t[i]).thread_id == tid && t[i].group_id == gid;
                assert(s[i] == t[i]);
            }
        }
        lemma_remove_thread_absent(t, tid, gid);
        assert(!(s.last().thread_id == tid && s.last().group_id == gid)) by {
            assert(s[s.len() - 1] == s.last());
        }
        assert(spec_remove_thread(s, tid, gid) =~= t.push(s.last()));
        assert(t.push(s.last()) =~= s);
    }
}

/// When the key pair sits at index `i`, removal is removal of that index.
pub proof fn lemma_remove_thread_at(s: Seq<WhitelistedThread>, i: int)
    requires
        threads_unique(s),
        0 <= i < s.len(),
    ensures
        spec_remove_thread(s, s[i].thread_id, s[i].group_id) =~= s.remove(i),
    decreases s.len(),
{
    let tid = s[i].thread_id;
    let gid = s[i].group_id;
    let t = s.drop_last();
    assert(threads_unique(t)) by {
        assert forall|p: int, q: int| 0 <= p < q < t.len() implies !((#[trigger] t[p]).thread_id
            == (#[trigger] t[q]).thread_id && t[p].group_id == t[q].group_id) by {
            assert(t[p] == s[p] && t[q] == s[q]);
        }
    }
    if i == s.len() - 1 {
        assert(s.last() == s[i]);
        assert(!has_thread(t, tid, gid)) by {
            if has_thread(t, tid, gid) {
                let j = choose|j: int|
                    0 <= j < t.len() && (#[trigger] t[j]).thread_id == tid && t[j].group_id == gid;
                assert(s[j] == t[j]);
            }
        }
        lemma_remove_thread_absent(t, tid, gid);
        assert(spec_remove_thread(s, tid, gid) =~= t);
        assert(s.remove(i) =~= t);
    } else {
        assert(!(s.last().thread_id == tid && s.last().group_id == gid)) by {
            assert(s[s.len() - 1] == s.last());
        }
        assert(t[i] == s[i]);
        lemma_remove_thread_at(t, i);
        assert(spec_remove_thread(s, tid, gid) =~= t.remove(i).push(s.last()));
        assert(t.remove(i).push(s.last()) =~= s.remove(i));
    }
}

/// The thread records that belong to one group, in store order.
pub open spec fn spec_threads_of_group(s: Seq<WhitelistedThread>, gid: i64) -> Seq<
    WhitelistedThread,
>
    decreases s.len(),
{
    if s.len() == 0 {
        s
    } else {
        let rest = spec_threads_of_group(s.drop_last(), gid);
        if s.last().group_id == gid {
            rest.push(s.last())
        } else {
            rest
        }
    }
}

// ---------------------------------------------------------------------------
// Become-admin requests: a sequence of records keyed by `request_id`.
// ---------------------------------------------------------------------------

/// No two request records share a `request_id`.
pub open spec fn requests_unique(s: Seq<BecomeAdminRequest>) -> bool {
    forall|i: int, j: int|
        0 <= i < j < s.len() ==> (#[trigger] s[i]).request_id@ != (#[trigger] s[j]).request_id@
}

/// Some record with `request_id == rid` is present.
pub open spec fn has_request(s: Seq<BecomeAdminRequest>, rid: Seq<char>) -> bool {
    exists|i: int| 0 <= i < s.len() && (#[trigger] s[i]).request_id@ == rid
}

/// The index of the record with `request_id == rid` (meaningful when
/// `has_request(s, rid)` and `requests_unique(s)` hold).
pub open spec fn request_idx(s: Seq<BecomeAdminRequest>, rid: Seq<char>) -> int {
    choose|i: int| 0 <= i < s.len() && (#[trigger] s[i]).request_id@ == rid
}

/// The record with `request_id == rid`.
pub open spec fn request_of(s: Seq<BecomeAdminRequest>, rid: Seq<char>) -> BecomeAdminRequest {
    s[request_idx(s, rid)]
}

/// The user `uid` has a *live* (still pending) request.
pub open spec fn has_live_request(s: Seq<BecomeAdminRequest>, uid: i64) -> bool {
    exists|i: int| 0 <= i < s.len() && (#[trigger] s[i]).user_id == uid && s[i].pending
}

/// In a table with unique keys, the record at any index is the one that
/// lookup by its key returns.
pub proof fn lemma_request_at(s: Seq<BecomeAdminRequest>, i: int)
    requires
        requests_unique(s),
        0 <= i < s.len(),
    ensures
        has_request(s, s[i].request_id@),
        request_idx(s, s[i].request_id@) == i,
        request_of(s, s[i].request_id@) == s[i],
{
    let rid = s[i].request_id@;
    assert(has_request(s, rid));
    let j = request_idx(s, rid);
    assert(0 <= j < s.len() && s[j].request_id@ == rid);
}

/// Appending a record adds exactly its key to the lookup relation, and its
/// liveness to the live-request relation.
pub proof fn lemma_request_push_facts(
    s: Seq<BecomeAdminRequest>,
    r: BecomeAdminRequest,
    rid: Seq<char>,
    uid: i64,
)
    ensures
        has_request(s.push(r), rid) == (has_request(s, rid) || r.request_id@ == rid),
        has_live_request(s.push(r), uid) == (has_live_request(s, uid) || (r.user_id == uid
            && r.pending)),
{
    let u = s.push(r);
    if has_request(s, rid) {
        let i = choose|i: int| 0 <= i < s.len() && (#[trigger] s[i]).request_id@ == rid;
        assert(u[i] == s[i]);
        assert(has_request(u, rid));
    }
    if r.request_id@ == rid {
        assert(u[s.len() as int] == r);
        assert(has_request(u, rid));
    }
    if has_request(u, rid) && r.request_id@ != rid {
        let i = choose|i: int| 0 <= i < u.len() && (#[trigger] u[i]).request_id@ == rid;
        assert(i < s.len());
        assert(s[i] == u[i]);
        assert(has_request(s, rid));
    }
    if has_live_request(s, uid) {
        let i = choose|i: int| 0 <= i < s.len() && (#[trigger] s[i]).user_id == uid && s[i].pending;
        assert(u[i] == s[i]);
        assert(has_live_request(u, uid));
    }
    if r.user_id == uid && r.pending {
        assert(u[s.len() as int] == r);
        assert(has_live_request(u, uid));
    }
    if has_live_request(u, uid) && !(r.user_id == uid && r.pending) {
        let i = choose|i: int| 0 <= i < u.len() && (#[trigger] u[i]).user_id == uid && u[i].pending;
        assert(i < s.len());
        assert(s[i] == u[i]);
        assert(has_live_request(s, uid));
    }
}

/// Appending a record with a fresh key keeps the keys unique and leaves every
/// other lookup unchanged.
pub proof fn lemma_request_push(s: Seq<BecomeAdminRequest>, r: BecomeAdminRequest)
    requires
        requests_unique(s),
        !has_request(s, r.request_id@),
    ensures
        requests_unique(s.push(r)),
        request_of(s.push(r), r.request_id@) == r,
        forall|rid: Seq<char>|
            rid != r.request_id@ && #[trigger] has_request(s, rid) ==> request_of(s.push(r), rid)
                == request_of(s, rid),
{
    let u = s.push(r);
    assert forall|i: int, j: int| 0 <= i < j < u.len() implies (#[trigger] u[i]).request_id@ != (
    #[trigger] u[j]).request_id@ by {
        if j < s.len() {
            assert(u[i] == s[i] && u[j] == s[j]);
        } else {
            assert(u[j] == r);
            assert(u[i] == s[i]);
            lemma_request_at(s, i);
        }
    }
    assert(u[s.len() as int] == r);
    lemma_request_at(u, s.len() as int);
    assert forall|rid: Seq<char>| rid != r.request_id@ && #[trigger] has_request(s, rid) implies
        request_of(u, rid) == request_of(s, rid) by {
        let i = request_idx(s, rid);
        assert(0 <= i < s.len() && s[i].request_id@ == rid);
        assert(u[i] == s[i]);
        lemma_request_at(u, i);
    }
}

/// Removes every record whose key is `rid`.
pub open spec fn spec_remove_request(s: Seq<BecomeAdminRequest>, rid: Seq<char>) -> Seq<
    BecomeAdminRequest,
>
    decreases s.len(),
{
    if s.len() == 0 {
        s
    } else {
        let rest = spec_remove_request(s.drop_last(), rid);
        if s.last().request_id@ == rid {
            rest
        } else {
            rest.push(s.last())
        }
    }
}

/// When the key is absent, removal is the identity.
pub proof fn lemma_remove_request_absent(s: Seq<BecomeAdminRequest>, rid: Seq<char>)
    requires
        !has_request(s, rid),
    ensures
        spec_remove_request(s, rid) =~= s,
    decreases s.len(),
{
    if s.len() > 0 {
        let t = s.drop_last();
        assert(!has_request(t, rid)) by {
            if has_request(t, rid) {
                let i = choose|i: int| 0 <= i < t.len() && (#[trigger] t[i]).request_id@ == rid;
                assert(s[i] == t[i]);
            }
        }
        lemma_remove_request_absent(t, rid);
        assert(s.last().request_id@ != rid) by {
            assert(s[s.len() - 1] == s.last());
        }
        assert(spec_remove_request(s, rid) =~= t.push(s.last()));
        assert(t.push(s.last()) =~= s);
    }
}

/// When the key sits at index `i` of a table with unique keys, removal is
/// removal of that index.
pub proof fn lemma_remove_request_at(s: Seq<BecomeAdminRequest>, i: int)
    requires
        requests_unique(s),
        0 <= i < s.len(),
    ensures
        spec_remove_request(s, s[i].request_id@) =~= s.remove(i),
    decreases s.len(),
{
    let rid = s[i].request_id@;
    let t = s.drop_last();
    assert(requests_unique(t)) by {
        assert forall|p: int, q: int| 0 <= p < q < t.len() implies (#[trigger] t[p]).request_id@
            != (#[trigger] t[q]).request_id@ by {
            assert(t[p] == s[p] && t[q] == s[q]);
        }
    }
    if i == s.len() - 1 {
        assert(s.last() == s[i]);
        assert(!has_request(t, rid)) by {
            if has_request(t, rid) {
                let j = choose|j: int| 0 <= j < t.len() && (#[trigger] t[j]).request_id@ == rid;
                assert(s[j] == t[j]);
            }
        }
        lemma_remove_request_absent(t, rid);
        assert(spec_remove_request(s, rid) =~= t);
        assert(s.remove(i) =~= t);
    } else {
        assert(s.last().request_id@ != rid) by {
            assert(s[s.len() - 1] == s.last());
        }
        assert(t[i] == s[i]);
        lemma_remove_request_at(t, i);
        assert(spec_remove_request(s, rid) =~= t.remove(i).push(s.last()));
        assert(t.remove(i).push(s.last()) =~= s.remove(i));
    }
}

/// Uniqueness and the lookup relation survive removal of a record; the
/// removed key is gone, every other record is untouched.
pub proof fn lemma_remove_request_props(s: Seq<BecomeAdminRequest>, rid: Seq<char>)
    requires
        requests_unique(s),
    ensures
        requests_unique(spec_remove_request(s, rid)),
        forall|x: Seq<char>| #[trigger]
            has_request(spec_remove_request(s, rid), x) == (has_request(s, x) && x != rid),
        spec_remove_request(s, rid).len() <= s.len(),
    decreases s.len(),
{
    let r = spec_remove_request(s, rid);
    if s.len() == 0 {
        assert forall|x: Seq<char>| #[trigger] has_request(r, x) == (has_request(s, x) && x != rid)
            by {
            assert(!has_request(r, x));
        }
    } else {
        let t = s.drop_last();
        let a = s.last();
        assert(requests_unique(t)) by {
            assert forall|p: int, q: int| 0 <= p < q < t.len() implies (
            #[trigger] t[p]).request_id@ != (#[trigger] t[q]).request_id@ by {
                assert(t[p] == s[p] && t[q] == s[q]);
            }
        }
        lemma_remove_request_props(t, rid);
        let rt = spec_remove_request(t, rid);
        assert forall|x: Seq<char>| #[trigger] has_request(t, x) || a.request_id@ == x implies
            has_request(s, x) by {
            if has_request(t, x) {
                let i = choose|i: int| 0 <= i < t.len() && (#[trigger] t[i]).request_id@ == x;
                assert(s[i] == t[i]);
            } else {
                assert(s[s.len() - 1] == a);
            }
        }
        assert forall|x: Seq<char>| #[trigger] has_request(s, x) implies has_request(t, x)
            || a.request_id@ == x by {
            let i = choose|i: int| 0 <= i < s.len() && (#[trigger] s[i]).request_id@ == x;
            if i < s.len() - 1 {
                assert(t[i] == s[i]);
            } else {
                assert(s[i] == a);
            }
        }
        if a.request_id@ == rid {
            assert(r == rt);
            assert forall|x: Seq<char>| #[trigger] has_request(r, x) == (has_request(s, x) && x
                != rid) by {}
        } else {
            assert(r == rt.push(a));
            assert(!has_request(rt, a.request_id@)) by {
                if has_request(rt, a.request_id@) {
                    assert(has_request(t, a.request_id@));
                    let i = choose|i: int|
                        0 <= i < t.len() && (#[trigger] t[i]).request_id@ == a.request_id@;
                    assert(s[i] == t[i]);
                    assert(s[s.len() - 1] == a);
                }
            }
            lemma_request_push(rt, a);
            assert forall|x: Seq<char>| #[trigger] has_request(r, x) == (has_request(s, x) && x
                != rid) by {
                lemma_request_push_facts(rt, a, x, 0);
            }
        }
    }
}

/// The record `r` resolved: no longer pending, `accepted` as given.
pub open spec fn spec_resolved(r: BecomeAdminRequest, accepted: bool) -> BecomeAdminRequest {
    BecomeAdminRequest {
        request_id: r.request_id,
        user_id: r.user_id,
        user_name: r.user_name,
        created_at: r.created_at,
        pending: false,
        accepted,
    }
}

} // verus!
