//! The persistent store: four tables with atomic read-modify-write per
//! operation.
//!
//! Uniqueness of each table's key is the store's invariant ([`DB::wf`]);
//! every operation requires and preserves it, and each contract states the
//! operation's exact effect in terms of the spec functions of [`crate::model`].
//!
//! The read-then-write sequences of the request workflow (`create` checks for
//! a live request before inserting; `approve` and `reject` read the request
//! before writing) are each one atomic operation of this store, which closes
//! the check-then-act races a multi-statement backend would exhibit.

use vstd::prelude::*;

use crate::model::{
    admin_of, admins_unique, has_admin, has_group, has_live_request, has_request, has_thread,
    lemma_admin_at, lemma_admin_push, lemma_group_push, lemma_promote_admin_absent,
    lemma_promote_admin_at, lemma_promote_admin_props, lemma_remove_admin_absent,
    lemma_remove_admin_at, lemma_remove_admin_props, lemma_remove_group_absent,
    lemma_remove_group_at, lemma_remove_group_props,
    lemma_remove_request_at, lemma_remove_request_props, lemma_remove_thread_absent,
    lemma_remove_thread_at, lemma_remove_thread_props, lemma_request_at, lemma_request_push,
    lemma_thread_push, groups_unique, request_idx, request_of, requests_unique,
    spec_promote_admin, spec_remove_admin, spec_remove_group, spec_remove_request,
    spec_remove_thread, spec_resolved, spec_threads_of_group, threads_unique,
};
use crate::records::Admin;
use crate::records::BecomeAdminRequest;
use crate::records::WhitelistedGroup;
use crate::records::WhitelistedThread;

verus! {

/// A storage failure.  In this store the only failure an operation can hit
/// is a violation of a table's uniqueness constraint.
#[derive(Clone, Copy, PartialEq, Eq, Structural, Debug)]
pub enum StoreError {
    UniqueViolation,
}

/// Failure of a request-workflow operation: the request does not exist or is
/// no longer pending, or the store refused a write.
#[derive(Clone, Copy, PartialEq, Eq, Structural, Debug)]
pub enum AuthError {
    NotFound,
    Store(StoreError),
}

/// Outcome of inserting a become-admin request under a chosen id.
#[derive(Clone, Copy, PartialEq, Eq, Structural, Debug)]
pub enum CreateRequestOutcome {
    /// The request was inserted and is now live.
    Created,
    /// The user already has a live request; nothing was inserted.
    Duplicate,
}

/// The store: admins, whitelisted groups, whitelisted threads and
/// become-admin requests.
pub struct DB {
    pub admins: Vec<Admin>,
    pub groups: Vec<WhitelistedGroup>,
    pub threads: Vec<WhitelistedThread>,
    pub requests: Vec<BecomeAdminRequest>,
}

/// Relies on `uuid::Uuid::now_v7` and its `Display` implementation: a fresh
/// time-ordered v7 UUID, rendered in the hyphenated form, which is exactly 36
/// characters.  The value depends on the clock and on random bytes, so
/// nothing but its length is promised.
#[verifier::external_body]
fn fresh_request_id() -> (r: String)
    ensures
        r@.len() == 36,
{
    uuid::Uuid::now_v7().to_string()
}

impl DB {
    /// The store's invariant: each table's key is unique.  `admins` is keyed
    /// by `user_id`, `groups` by `group_id`, `threads` by
    /// `(thread_id, group_id)` and `requests` by `request_id`.
    pub open spec fn wf(&self) -> bool {
        &&& admins_unique(self.admins@)
        &&& groups_unique(self.groups@)
        &&& threads_unique(self.threads@)
        &&& requests_unique(self.requests@)
    }

    /// An empty store.
    pub fn new() -> (db: DB)
        ensures
            db.wf(),
            db.admins@ =~= Seq::<Admin>::empty(),
            db.groups@ =~= Seq::<WhitelistedGroup>::empty(),
            db.threads@ =~= Seq::<WhitelistedThread>::empty(),
            db.requests@ =~= Seq::<BecomeAdminRequest>::empty(),
    {
        DB { admins: Vec::new(), groups: Vec::new(), threads: Vec::new(), requests: Vec::new() }
    }

    // -----------------------------------------------------------------------
    // Admins
    // -----------------------------------------------------------------------

    /// The index of the admin record for `user_id`, if one exists.
    fn find_admin_index(&self, user_id: i64) -> (r: Option<usize>)
        ensures
            match r {
                Some(i) => i < self.admins@.len() && self.admins@[i as int].user_id == user_id,
                None => !has_admin(self.admins@, user_id),
            },
    {
        let n = self.admins.len();
        let mut i: usize = 0;
        while i < n
            invariant
                i <= n,
                n == self.admins@.len(),
                forall|k: int| 0 <= k < i ==> (#[trigger] self.admins@[k]).user_id != user_id,
            decreases n - i,
        {
            if self.admins[i].user_id == user_id {
                return Some(i);
            }
            i += 1;
        }
        None
    }

    /// `get_admin(user_id)`: the admin record for `user_id`, or `None`.
    pub fn get_admin(&self, user_id: i64) -> (r: Option<Admin>)
        requires
            self.wf(),
        ensures
            r == if has_admin(self.admins@, user_id) {
                Some(admin_of(self.admins@, user_id))
            } else {
                None::<Admin>
            },
    {
        match self.find_admin_index(user_id) {
            None => None,
            Some(i) => {
                proof {
                    lemma_admin_at(self.admins@, i as int);
                }
                Some(self.admins[i].clone())
            },
        }
    }

    /// All admin records, in store order.
    pub fn get_admins(&self) -> (r: Vec<Admin>)
        ensures
            r@ =~= self.admins@,
    {
        let n = self.admins.len();
        let mut out: Vec<Admin> = Vec::new();
        let mut i: usize = 0;
        while i < n
            invariant
                i <= n,
                n == self.admins@.len(),
                out@ =~= self.admins@.subrange(0, i as int),
            decreases n - i,
        {
            out.push(self.admins[i].clone());
            proof {
                assert(out@ =~= self.admins@.subrange(0, i as int + 1));
            }
            i += 1;
        }
        out
    }

    /// `add_admin(user_id, added_by, name)`: unconditional insert; fails on a
    /// `user_id` that is already an admin (unique primary key).  Callers must
    /// already have authorized the action.
    pub fn add_admin(
        &mut self,
        user_id: i64,
        added_by: i64,
        name: Option<String>,
        now: i64,
    ) -> (r: Result<(), StoreError>)
        requires
            old(self).wf(),
        ensures
            final(self).wf(),
            final(self).groups@ == old(self).groups@,
            final(self).threads@ == old(self).threads@,
            final(self).requests@ == old(self).requests@,
            match r {
                Ok(()) => !has_admin(old(self).admins@, user_id)
                    && final(self).admins@ =~= old(self).admins@.push(
                    Admin { user_id, name, added_by: Some(added_by), added_at: now },
                ),
                Err(StoreError::UniqueViolation) => has_admin(old(self).admins@, user_id)
                    && final(self).admins@ == old(self).admins@,
            },
    {
        match self.find_admin_index(user_id) {
            Some(_) => Err(StoreError::UniqueViolation),
            None => {
                let a = Admin { user_id, name, added_by: Some(added_by), added_at: now };
                proof {
                    lemma_admin_push(self.admins@, a);
                }
                self.admins.push(a);
                Ok(())
            },
        }
    }

    /// `remove_admin(user_id)`: unconditional delete; removing an absent
    /// admin is a no-op success.
    pub fn remove_admin(&mut self, user_id: i64)
        requires
            old(self).wf(),
        ensures
            final(self).wf(),
            final(self).admins@ =~= spec_remove_admin(old(self).admins@, user_id),
            final(self).groups@ == old(self).groups@,
            final(self).threads@ == old(self).threads@,
            final(self).requests@ == old(self).requests@,
    {
        proof {
            lemma_remove_admin_props(self.admins@, user_id);
        }
        match self.find_admin_index(user_id) {
            None => {
                proof {
                    lemma_remove_admin_absent(self.admins@, user_id);
                }
            },
            Some(i) => {
                proof {
                    lemma_remove_admin_at(self.admins@, i as int);
                }
                self.admins.remove(i);
            },
        }
    }

    /// `make_superadmin(user_id)`: clears `added_by`, promoting the admin to
    /// a root of the hierarchy forest.  Promoting an absent admin is a no-op
    /// success.  Callers must check that the requester is a superadmin.
    pub fn make_superadmin(&mut self, user_id: i64)
        requires
            old(self).wf(),
        ensures
            final(self).wf(),
            final(self).admins@ =~= spec_promote_admin(old(self).admins@, user_id),
            final(self).groups@ == old(self).groups@,
            final(self).threads@ == old(self).threads@,
            final(self).requests@ == old(self).requests@,
    {
        proof {
            lemma_promote_admin_props(self.admins@, user_id);
        }
        match self.find_admin_index(user_id) {
            None => {
                proof {
                    lemma_promote_admin_absent(self.admins@, user_id);
                }
            },
            Some(i) => {
                proof {
                    lemma_promote_admin_at(self.admins@, i as int);
                }
                let ghost s0 = self.admins@;
                let ghost ii = i as int;
                let a = self.admins.remove(i);
                let b = Admin {
                    user_id: a.user_id,
                    name: a.name,
                    added_by: None,
                    added_at: a.added_at,
                };
                let ghost bg = b;
                self.admins.insert(i, b);
                proof {
                    assert(self.admins@ =~= s0.update(ii, bg));
                    assert(self.admins@ =~= spec_promote_admin(s0, user_id));
                }
            },
        }
    }

    // -----------------------------------------------------------------------
    // Whitelisted groups
    // -----------------------------------------------------------------------

    /// The index of the group record for `group_id`, if one exists.
    fn find_group_index(&self, group_id: i64) -> (r: Option<usize>)
        ensures
            match r {
                Some(i) => i < self.groups@.len() && self.groups@[i as int].group_id == group_id,
                None => !has_group(self.groups@, group_id),
            },
    {
        let n = self.groups.len();
        let mut i: usize = 0;
        while i < n
            invariant
                i <= n,
                n == self.groups@.len(),
                forall|k: int| 0 <= k < i ==> (#[trigger] self.groups@[k]).group_id != group_id,
            decreases n - i,
        {
            if self.groups[i].group_id == group_id {
                return Some(i);
            }
            i += 1;
        }
        None
    }

    /// `is_group_whitelisted(group_id)`: is the group on the allow-list?
    pub fn is_group_whitelisted(&self, group_id: i64) -> (r: bool)
        ensures
            r == has_group(self.groups@, group_id),
    {
        match self.find_group_index(group_id) {
            Some(i) => {
                proof {
                    assert(has_group(self.groups@, group_id)) by {
                        assert(self.groups@[i as int].group_id == group_id);
                    }
                }
                true
            },
            None => false,
        }
    }

    /// `add_whitelisted_group(group_id, added_by, group_name)`: insert; fails
    /// on a `group_id` that is already whitelisted (unique key).
    pub fn add_whitelisted_group(
        &mut self,
        group_id: i64,
        added_by: i64,
        group_name: Option<String>,
        now: i64,
    ) -> (r: Result<(), StoreError>)
        requires
            old(self).wf(),
        ensures
            final(self).wf(),
            final(self).admins@ == old(self).admins@,
            final(self).threads@ == old(self).threads@,
            final(self).requests@ == old(self).requests@,
            match r {
                Ok(()) => !has_group(old(self).groups@, group_id)
                    && final(self).groups@ =~= old(self).groups@.push(
                    WhitelistedGroup { group_id, group_name, added_by, created_at: now },
                ),
                Err(StoreError::UniqueViolation) => has_group(old(self).groups@, group_id)
                    && final(self).groups@ == old(self).groups@,
            },
    {
        match self.find_group_index(group_id) {
            Some(i) => {
                proof {
                    assert(self.groups@[i as int].group_id == group_id);
                }
                Err(StoreError::UniqueViolation)
            },
            None => {
                let g = WhitelistedGroup { group_id, group_name, added_by, created_at: now };
                proof {
                    lemma_group_push(self.groups@, g);
                }
                self.groups.push(g);
                Ok(())
            },
        }
    }

    /// `remove_whitelisted_group(group_id)`: unconditional delete; removing
    /// an absent group is a no-op success.
    pub fn remove_whitelisted_group(&mut self, group_id: i64)
        requires
            old(self).wf(),
        ensures
            final(self).wf(),
            final(self).groups@ =~= spec_remove_group(old(self).groups@, group_id),
            final(self).admins@ == old(self).admins@,
            final(self).threads@ == old(self).threads@,
            final(self).requests@ == old(self).requests@,
    {
        proof {
            lemma_remove_group_props(self.groups@, group_id);
        }
        match self.find_group_index(group_id) {
            None => {
                proof {
                    lemma_remove_group_absent(self.groups@, group_id);
                }
            },
            Some(i) => {
                proof {
                    lemma_remove_group_at(self.groups@, i as int);
                }
                self.groups.remove(i);
            },
        }
    }

    /// All whitelisted-group records, in store order.
    pub fn get_whitelisted_groups(&self) -> (r: Vec<WhitelistedGroup>)
        ensures
            r@ =~= self.groups@,
    {
        let n = self.groups.len();
        let mut out: Vec<WhitelistedGroup> = Vec::new();
        let mut i: usize = 0;
        while i < n
            invariant
                i <= n,
                n == self.groups@.len(),
                out@ =~= self.groups@.subrange(0, i as int),
            decreases n - i,
        {
            out.push(self.groups[i].clone());
            proof {
                assert(out@ =~= self.groups@.subrange(0, i as int + 1));
            }
            i += 1;
        }
        out
    }

    // -----------------------------------------------------------------------
    // Whitelisted threads
    // -----------------------------------------------------------------------

    /// The index of the thread record for `(thread_id, group_id)`, if one
    /// exists.
    fn find_thread_index(&self, thread_id: i32, group_id: i64) -> (r: Option<usize>)
        ensures
            match r {
                Some(i) => i < self.threads@.len() && self.threads@[i as int].thread_id
                    == thread_id && self.threads@[i as int].group_id == group_id,
                None => !has_thread(self.threads@, thread_id, group_id),
            },
    {
        let n = self.threads.len();
        let mut i: usize = 0;
        while i < n
            invariant
                i <= n,
                n == self.threads@.len(),
                forall|k: int|
                    0 <= k < i ==> !((#[trigger] self.threads@[k]).thread_id == thread_id
                        && self.threads@[k].group_id == group_id),
            decreases n - i,
        {
            if self.threads[i].thread_id == thread_id && self.threads[i].group_id == group_id {
                return Some(i);
            }
            i += 1;
        }
        None
    }

    /// `is_thread_whitelisted(thread_id, group_id)`: is the thread on the
    /// allow-list of its group?
    pub fn is_thread_whitelisted(&self, thread_id: i32, group_id: i64) -> (r: bool)
        ensures
            r == has_thread(self.threads@, thread_id, group_id),
    {
        match self.find_thread_index(thread_id, group_id) {
            Some(i) => {
                proof {
                    assert(has_thread(self.threads@, thread_id, group_id)) by {
                        assert(self.threads@[i as int].thread_id == thread_id
                            && self.threads@[i as int].group_id == group_id);
                    }
                }
                true
            },
            None => false,
        }
    }

    /// `add_whitelisted_thread(thread_id, group_id, added_by, group_name,
    /// thread_name)`: insert; fails on a pair that is already whitelisted.
    pub fn add_whitelisted_thread(
        &mut self,
        thread_id: i32,
        group_id: i64,
        added_by: i64,
        group_name: Option<String>,
        thread_name: Option<String>,
        now: i64,
    ) -> (r: Result<(), StoreError>)
        requires
            old(self).wf(),
        ensures
            final(self).wf(),
            final(self).admins@ == old(self).admins@,
            final(self).groups@ == old(self).groups@,
            final(self).requests@ == old(self).requests@,
            match r {
                Ok(()) => !has_thread(old(self).threads@, thread_id, group_id)
                    && final(self).threads@ =~= old(self).threads@.push(
                    WhitelistedThread {
                        thread_id,
                        group_id,
                        group_name,
                        thread_name,
                        added_by,
                        created_at: now,
                    },
                ),
                Err(StoreError::UniqueViolation) => has_thread(
                    old(self).threads@,
                    thread_id,
                    group_id,
                ) && final(self).threads@ == old(self).threads@,
            },
    {
        match self.find_thread_index(thread_id, group_id) {
            Some(i) => {
                proof {
                    assert(self.threads@[i as int].thread_id == thread_id
                        && self.threads@[i as int].group_id == group_id);
                }
                Err(StoreError::UniqueViolation)
            },
            None => {
                let t = WhitelistedThread {
                    thread_id,
                    group_id,
                    group_name,
                    thread_name,
                    added_by,
                    created_at: now,
                };
                proof {
                    lemma_thread_push(self.threads@, t);
                }
                self.threads.push(t);
                Ok(())
            },
        }
    }

    /// `remove_whitelisted_thread(thread_id, group_id)`: unconditional
    /// delete; removing an absent thread is a no-op success.
    pub fn remove_whitelisted_thread(&mut self, thread_id: i32, group_id: i64)
        requires
            old(self).wf(),
        ensures
            final(self).wf(),
            final(self).threads@ =~= spec_remove_thread(old(self).threads@, thread_id, group_id),
            final(self).admins@ == old(self).admins@,
            final(self).groups@ == old(self).groups@,
            final(self).requests@ == old(self).requests@,
    {
        proof {
            lemma_remove_thread_props(self.threads@, thread_id, group_id);
        }
        match self.find_thread_index(thread_id, group_id) {
            None => {
                proof {
                    lemma_remove_thread_absent(self.threads@, thread_id, group_id);
                }
            },
            Some(i) => {
                proof {
                    lemma_remove_thread_at(self.threads@, i as int);
                }
                self.threads.remove(i);
            },
        }
    }

    /// `get_whitelisted_threads(group_id)`: the thread records of one group,
    /// in store order.
    pub fn get_whitelisted_threads(&self, group_id: i64) -> (r: Vec<WhitelistedThread>)
        ensures
            r@ =~= spec_threads_of_group(self.threads@, group_id),
    {
        let n = self.threads.len();
        let mut out: Vec<WhitelistedThread> = Vec::new();
        let mut i: usize = 0;
        while i < n
            invariant
                i <= n,
                n == self.threads@.len(),
                out@ =~= spec_threads_of_group(self.threads@.subrange(0, i as int), group_id),
            decreases n - i,
        {
            proof {
                assert(self.threads@.subrange(0, i as int + 1).drop_last() =~= self.threads@
                    .subrange(0, i as int));
                assert(self.threads@.subrange(0, i as int + 1).last() == self.threads@[i as int]);
            }
            if self.threads[i].group_id == group_id {
                out.push(self.threads[i].clone());
            }
            i += 1;
        }
        proof {
            assert(self.threads@.subrange(0, n as int) =~= self.threads@);
        }
        out
    }

    // -----------------------------------------------------------------------
    // Become-admin requests
    // -----------------------------------------------------------------------

    /// The index of the request record for `request_id`, if one exists.
    fn find_request_index(&self, request_id: &String) -> (r: Option<usize>)
        ensures
            match r {
                Some(i) => i < self.requests@.len() && self.requests@[i as int].request_id@
                    == request_id@,
                None => !has_request(self.requests@, request_id@),
            },
    {
        let n = self.requests.len();
        let mut i: usize = 0;
        while i < n
            invariant
                i <= n,
                n == self.requests@.len(),
                forall|k: int|
                    0 <= k < i ==> (#[trigger] self.requests@[k]).request_id@ != request_id@,
            decreases n - i,
        {
            if self.requests[i].request_id == *request_id {
                return Some(i);
            }
            i += 1;
        }
        None
    }

    /// The index of some live (pending) request of `user_id`, if one exists.
    fn find_live_request_index(&self, user_id: i64) -> (r: Option<usize>)
        ensures
            match r {
                Some(i) => i < self.requests@.len() && self.requests@[i as int].user_id == user_id
                    && self.requests@[i as int].pending,
                None => !has_live_request(self.requests@, user_id),
            },
    {
        let n = self.requests.len();
        let mut i: usize = 0;
        while i < n
            invariant
                i <= n,
                n == self.requests@.len(),
                forall|k: int|
                    0 <= k < i ==> !((#[trigger] self.requests@[k]).user_id == user_id
                        && self.requests@[k].pending),
            decreases n - i,
        {
            if self.requests[i].user_id == user_id && self.requests[i].pending {
                return Some(i);
            }
            i += 1;
        }
        None
    }

    /// All become-admin request records, in store order.
    pub fn get_become_admin_requests(&self) -> (r: Vec<BecomeAdminRequest>)
        ensures
            r@ =~= self.requests@,
    {
        let n = self.requests.len();
        let mut out: Vec<BecomeAdminRequest> = Vec::new();
        let mut i: usize = 0;
        while i < n
            invariant
                i <= n,
                n == self.requests@.len(),
                out@ =~= self.requests@.subrange(0, i as int),
            decreases n - i,
        {
            out.push(self.requests[i].clone());
            proof {
                assert(out@ =~= self.requests@.subrange(0, i as int + 1));
            }
            i += 1;
        }
        out
    }

    /// Inserts a become-admin request under a caller-chosen id.  Returns
    /// `Duplicate` without inserting when the user already has a live
    /// request, and fails when the id itself is already taken (unique
    /// primary key).  The existence check and the insert are one atomic
    /// operation of this store.
    pub fn create_become_admin_request_with_id(
        &mut self,
        request_id: String,
        user_id: i64,
        user_name: Option<String>,
        now: i64,
    ) -> (r: Result<CreateRequestOutcome, StoreError>)
        requires
            old(self).wf(),
        ensures
            final(self).wf(),
            final(self).admins@ == old(self).admins@,
            final(self).groups@ == old(self).groups@,
            final(self).threads@ == old(self).threads@,
            match r {
                Ok(CreateRequestOutcome::Duplicate) => has_live_request(
                    old(self).requests@,
                    user_id,
                ) && final(self).requests@ == old(self).requests@,
                Ok(CreateRequestOutcome::Created) => !has_live_request(
                    old(self).requests@,
                    user_id,
                ) && !has_request(old(self).requests@, request_id@)
                    && final(self).requests@ =~= old(self).requests@.push(
                    BecomeAdminRequest {
                        request_id,
                        user_id,
                        user_name,
                        created_at: now,
                        pending: true,
                        accepted: false,
                    },
                ),
                Err(StoreError::UniqueViolation) => !has_live_request(
                    old(self).requests@,
                    user_id,
                ) && has_request(old(self).requests@, request_id@)
                    && final(self).requests@ == old(self).requests@,
            },
    {
        match self.find_live_request_index(user_id) {
            Some(i) => {
                proof {
                    assert(self.requests@[i as int].user_id == user_id
                        && self.requests@[i as int].pending);
                }
                Ok(CreateRequestOutcome::Duplicate)
            },
            None => {
                match self.find_request_index(&request_id) {
                    Some(i) => {
                        proof {
                            assert(self.requests@[i as int].request_id@ == request_id@);
                        }
                        Err(StoreError::UniqueViolation)
                    },
                    None => {
                        let rec = BecomeAdminRequest {
                            request_id,
                            user_id,
                            user_name,
                            created_at: now,
                            pending: true,
                            accepted: false,
                        };
                        proof {
                            lemma_request_push(self.requests@, rec);
                        }
                        self.requests.push(rec);
                        Ok(CreateRequestOutcome::Created)
                    },
                }
            },
        }
    }

    /// `create_become_admin_request(user_id, user_name)`: generates a fresh
    /// time-ordered request id and inserts a live request under it.  Returns
    /// `Ok(None)` (a duplicate, not an error) when the user already has a
    /// live request.  The id comes from the clock, so this contract promises
    /// of it only what holds of every outcome: 36 characters, not previously
    /// in the table.
    pub fn create_become_admin_request(
        &mut self,
        user_id: i64,
        user_name: Option<String>,
        now: i64,
    ) -> (r: Result<Option<String>, StoreError>)
        requires
            old(self).wf(),
        ensures
            final(self).wf(),
            final(self).admins@ == old(self).admins@,
            final(self).groups@ == old(self).groups@,
            final(self).threads@ == old(self).threads@,
            match r {
                Ok(None) => has_live_request(old(self).requests@, user_id)
                    && final(self).requests@ == old(self).requests@,
                Ok(Some(id)) => !has_live_request(old(self).requests@, user_id)
                    && id@.len() == 36
                    && !has_request(old(self).requests@, id@)
                    && final(self).requests@ =~= old(self).requests@.push(
                    BecomeAdminRequest {
                        request_id: id,
                        user_id,
                        user_name,
                        created_at: now,
                        pending: true,
                        accepted: false,
                    },
                ),
                Err(StoreError::UniqueViolation) => !has_live_request(
                    old(self).requests@,
                    user_id,
                ) && final(self).requests@ == old(self).requests@,
            },
    {
        match self.find_live_request_index(user_id) {
            Some(i) => {
                proof {
                    assert(self.requests@[i as int].user_id == user_id
                        && self.requests@[i as int].pending);
                }
                Ok(None)
            },
            None => {
                let id = fresh_request_id();
                let returned = id.clone();
                match self.create_become_admin_request_with_id(id, user_id, user_name, now) {
                    Ok(CreateRequestOutcome::Created) => Ok(Some(returned)),
                    Ok(CreateRequestOutcome::Duplicate) => {
                        // refuted by the liveness check above
                        proof {
                            assert(false);
                        }
                        Ok(None)
                    },
                    Err(e) => Err(e),
                }
            },
        }
    }

    /// `approve_become_admin_request(request_id, admin_id)`: fails `NotFound`
    /// when the request does not exist or is no longer pending.  On success
    /// the request is marked `accepted` and resolved (its `pending` flag is
    /// cleared, so a resolved request cannot be approved twice and its user
    /// may apply again), and an admin record for the request's user is
    /// created with `added_by = admin_id`.  The reads and both writes are one
    /// atomic operation of this store: when the request's user is already an
    /// admin the operation fails without touching either table.
    pub fn approve_become_admin_request(
        &mut self,
        request_id: &String,
        admin_id: i64,
        now: i64,
    ) -> (r: Result<(), AuthError>)
        requires
            old(self).wf(),
        ensures
            final(self).wf(),
            final(self).groups@ == old(self).groups@,
            final(self).threads@ == old(self).threads@,
            ({
                let reqs = old(self).requests@;
                let rid = request_id@;
                if !has_request(reqs, rid) || !request_of(reqs, rid).pending {
                    &&& r == Err::<(), AuthError>(AuthError::NotFound)
                    &&& final(self).requests@ == reqs
                    &&& final(self).admins@ == old(self).admins@
                } else if has_admin(old(self).admins@, request_of(reqs, rid).user_id) {
                    &&& r == Err::<(), AuthError>(AuthError::Store(StoreError::UniqueViolation))
                    &&& final(self).requests@ == reqs
                    &&& final(self).admins@ == old(self).admins@
                } else {
                    &&& r == Ok::<(), AuthError>(())
                    &&& final(self).requests@ =~= reqs.update(
                        request_idx(reqs, rid),
                        spec_resolved(request_of(reqs, rid), true),
                    )
                    &&& final(self).admins@ =~= old(self).admins@.push(
                        Admin {
                            user_id: request_of(reqs, rid).user_id,
                            name: request_of(reqs, rid).user_name,
                            added_by: Some(admin_id),
                            added_at: now,
                        },
                    )
                }
            }),
    {
        let i = match self.find_request_index(request_id) {
            None => {
                return Err(AuthError::NotFound);
            },
            Some(i) => i,
        };
        proof {
            lemma_request_at(self.requests@, i as int);
        }
        if !self.requests[i].pending {
            return Err(AuthError::NotFound);
        }
        let target_user = self.requests[i].user_id;
        let target_name = crate::records::clone_opt_string(&self.requests[i].user_name);
        match self.find_admin_index(target_user) {
            Some(_) => {
                return Err(AuthError::Store(StoreError::UniqueViolation));
            },
            None => {},
        }
        let ghost reqs0 = self.requests@;
        let ghost ii = i as int;
        let old_rec = self.requests.remove(i);
        let resolved = BecomeAdminRequest {
            request_id: old_rec.request_id,
            user_id: old_rec.user_id,
            user_name: old_rec.user_name,
            created_at: old_rec.created_at,
            pending: false,
            accepted: true,
        };
        let ghost rg = resolved;
        self.requests.insert(i, resolved);
        proof {
            assert(self.requests@ =~= reqs0.update(ii, rg));
            assert(requests_unique(self.requests@)) by {
                assert forall|p: int, q: int| 0 <= p < q < self.requests@.len() implies (
                #[trigger] self.requests@[p]).request_id@ != (
                #[trigger] self.requests@[q]).request_id@ by {
                    assert(self.requests@[p].request_id@ == reqs0[p].request_id@);
                    assert(self.requests@[q].request_id@ == reqs0[q].request_id@);
                }
            }
        }
        let res = self.add_admin(target_user, admin_id, target_name, now);
        match res {
            Ok(()) => Ok(()),
            Err(_) => {
                // refuted by the admin-existence check above
                proof {
                    assert(false);
                }
                Err(AuthError::Store(StoreError::UniqueViolation))
            },
        }
    }

    /// `reject_become_admin_request(request_id)`: fails `NotFound` when the
    /// request does not exist or is no longer pending.  On success the
    /// request is resolved and its row deleted; the admins table is
    /// untouched.
    pub fn reject_become_admin_request(&mut self, request_id: &String) -> (r: Result<
        (),
        AuthError,
    >)
        requires
            old(self).wf(),
        ensures
            final(self).wf(),
            final(self).admins@ == old(self).admins@,
            final(self).groups@ == old(self).groups@,
            final(self).threads@ == old(self).threads@,
            ({
                let reqs = old(self).requests@;
                let rid = request_id@;
                if !has_request(reqs, rid) || !request_of(reqs, rid).pending {
                    &&& r == Err::<(), AuthError>(AuthError::NotFound)
                    &&& final(self).requests@ == reqs
                } else {
                    &&& r == Ok::<(), AuthError>(())
                    &&& final(self).requests@ =~= spec_remove_request(reqs, rid)
                }
            }),
    {
        let i = match self.find_request_index(request_id) {
            None => {
                return Err(AuthError::NotFound);
            },
            Some(i) => i,
        };
        proof {
            lemma_request_at(self.requests@, i as int);
        }
        if !self.requests[i].pending {
            return Err(AuthError::NotFound);
        }
        proof {
            lemma_remove_request_props(self.requests@, request_id@);
            lemma_remove_request_at(self.requests@, i as int);
        }
        self.requests.remove(i);
        Ok(())
    }
}

} // verus!
