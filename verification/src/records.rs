//! The four record types held by the store.
//!
//! Timestamps are plain integers (seconds, as delivered by the transport);
//! identities are the integer ids the transport reports.

use vstd::prelude::*;

verus! {

/// An administrator.  `added_by == None` marks a superadmin: the root of an
/// ownership tree.  Every other admin records the admin that created it.
#[derive(PartialEq, Debug)]
pub struct Admin {
    pub user_id: i64,
    pub name: Option<String>,
    pub added_by: Option<i64>,
    pub added_at: i64,
}

/// A group the bot is allowed to act in.  `group_id` is unique in the store.
#[derive(PartialEq, Debug)]
pub struct WhitelistedGroup {
    pub group_id: i64,
    pub group_name: Option<String>,
    pub added_by: i64,
    pub created_at: i64,
}

/// A thread the bot is allowed to act in, one level finer than a group.
/// The pair `(thread_id, group_id)` is unique in the store.
#[derive(PartialEq, Debug)]
pub struct WhitelistedThread {
    pub thread_id: i32,
    pub group_id: i64,
    pub group_name: Option<String>,
    pub thread_name: Option<String>,
    pub added_by: i64,
    pub created_at: i64,
}

/// A pending or resolved request to become an admin.  `request_id` is unique
/// in the store.  A request is *live* while `pending` is true; approval and
/// rejection both clear `pending`, so at most one live request exists per
/// user at a time.
#[derive(PartialEq, Debug)]
pub struct BecomeAdminRequest {
    pub request_id: String,
    pub user_id: i64,
    pub user_name: Option<String>,
    pub created_at: i64,
    pub pending: bool,
    pub accepted: bool,
}

impl Admin {
    /// A superadmin is an admin with no creator.
    pub fn is_superadmin(&self) -> (r: bool)
        ensures
            r == (self.added_by is None),
    {
        self.added_by.is_none()
    }
}

impl Clone for Admin {
    fn clone(&self) -> (res: Self)
        ensures
            res == *self,
    {
        Admin {
            user_id: self.user_id,
            name: clone_opt_string(&self.name),
            added_by: self.added_by,
            added_at: self.added_at,
        }
    }
}

impl Clone for WhitelistedGroup {
    fn clone(&self) -> (res: Self)
        ensures
            res == *self,
    {
        WhitelistedGroup {
            group_id: self.group_id,
            group_name: clone_opt_string(&self.group_name),
            added_by: self.added_by,
            created_at: self.created_at,
        }
    }
}

impl Clone for WhitelistedThread {
    fn clone(&self) -> (res: Self)
        ensures
            res == *self,
    {
        WhitelistedThread {
            thread_id: self.thread_id,
            group_id: self.group_id,
            group_name: clone_opt_string(&self.group_name),
            thread_name: clone_opt_string(&self.thread_name),
            added_by: self.added_by,
            created_at: self.created_at,
        }
    }
}

impl Clone for BecomeAdminRequest {
    fn clone(&self) -> (res: Self)
        ensures
            res == *self,
    {
        BecomeAdminRequest {
            request_id: self.request_id.clone(),
            user_id: self.user_id,
            user_name: clone_opt_string(&self.user_name),
            created_at: self.created_at,
            pending: self.pending,
            accepted: self.accepted,
        }
    }
}

/// Copies an optional string, field for field.
pub fn clone_opt_string(s: &Option<String>) -> (res: Option<String>)
    ensures
        res == *s,
{
    match s {
        None => None,
        Some(x) => Some(x.clone()),
    }
}

} // verus!
