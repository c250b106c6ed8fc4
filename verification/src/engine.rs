//! The authorization engine and its command router.
//!
//! [`AdminHandler::handle`] maps one inbound command to one operation on the
//! store and a structured reply; formatting the reply into text and sending
//! it belong to the transport layer outside this crate.  The engine receives
//! a message's metadata and its whitespace-separated, lower-cased tokens as
//! plain values.

use vstd::prelude::*;
use vstd::string::StringExecFns;

use crate::hierarchy::{removal_granted, traversal_fuel};
use crate::model::{
    admin_of, has_admin, has_group, has_live_request, has_request, has_thread, request_idx,
    request_of, spec_promote_admin, spec_remove_admin, spec_remove_group, spec_remove_request,
    spec_remove_thread, spec_resolved, spec_threads_of_group,
};
use crate::parse::{parse_i32, parse_i64, parse_u64, spec_parse_i32, spec_parse_i64,
    spec_parse_u64};
use crate::records::{clone_opt_string, Admin, BecomeAdminRequest, WhitelistedGroup,
    WhitelistedThread};
use crate::store::DB;
use crate::store::StoreError;

verus! {

/// The kind of chat a message arrived in.
#[derive(Clone, Copy, PartialEq, Eq, Structural, Debug)]
pub enum ChatKind {
    Private,
    Group,
    Supergroup,
    Channel,
}

/// The metadata of one inbound message, as plain values: who sent it, where,
/// and when.
#[derive(Debug)]
pub struct MessageMeta {
    pub sender_id: i64,
    pub sender_name: Option<String>,
    pub chat_id: i64,
    pub chat_kind: ChatKind,
    pub chat_title: Option<String>,
    pub thread_id: Option<i32>,
    pub date: i64,
}

/// A privileged command, one per slash-command token.
#[derive(Clone, Copy, PartialEq, Eq, Structural, Debug)]
pub enum Command {
    WhitelistGroup,
    WhitelistThread,
    UnwhitelistGroup,
    UnwhitelistThread,
    RemoveAdmin,
    MakeSuperadmin,
    ListAdmins,
    ListWhitelistedGroups,
    ListWhitelistedThreads,
    BecomeAdmin,
    ApproveBecomeAdmin,
    RejectBecomeAdmin,
    ListBecomeAdminRequests,
    Help,
}

/// The structured reply of one handled command; the transport layer turns it
/// into text.  A command that is answered silently (an unknown token, a
/// scope it does not apply to) produces no reply at all (`None` from the
/// handler).
#[derive(PartialEq, Debug)]
pub enum Reply {
    GroupWhitelisted,
    ErrorWhitelistingGroup,
    ThreadWhitelisted,
    ErrorWhitelistingThread,
    ThreadsOnly,
    GroupUnwhitelisted,
    InvalidGroupId,
    UsageUnwhitelistGroup,
    ThreadUnwhitelisted,
    InvalidThreadIdFormat,
    InvalidGroupIdFormat,
    UsageUnwhitelistThread,
    UsageUnwhitelistThreadInThread,
    UsageUnwhitelistThreadFull,
    AdminRemoved,
    NotYourAdmin,
    InvalidUserId,
    UsageRemoveAdmin,
    SuperadminMade,
    NotSuperadmin,
    UsageMakeSuperadmin,
    Admins(Vec<Admin>),
    Groups(Vec<WhitelistedGroup>),
    Threads(Vec<WhitelistedThread>),
    RequestCreated(String),
    RequestDuplicate,
    ErrorCreatingRequest,
    RequestApproved,
    ErrorApprovingRequest,
    UsageApproveRequest,
    RequestRejected,
    ErrorRejectingRequest,
    UsageRejectRequest,
    Requests(Vec<BecomeAdminRequest>),
    Help,
}

/// Which command a (lower-cased) token names, if any.
pub open spec fn spec_parse_command(s: Seq<char>) -> Option<Command> {
    if s == "/whitelist_group"@ {
        Some(Command::WhitelistGroup)
    } else if s == "/whitelist_thread"@ {
        Some(Command::WhitelistThread)
    } else if s == "/unwhitelist_group"@ {
        Some(Command::UnwhitelistGroup)
    } else if s == "/unwhitelist_thread"@ {
        Some(Command::UnwhitelistThread)
    } else if s == "/remove_admin"@ {
        Some(Command::RemoveAdmin)
    } else if s == "/make_superadmin"@ {
        Some(Command::MakeSuperadmin)
    } else if s == "/list_admins"@ {
        Some(Command::ListAdmins)
    } else if s == "/list_whitelisted_groups"@ {
        Some(Command::ListWhitelistedGroups)
    } else if s == "/list_whitelisted_threads"@ {
        Some(Command::ListWhitelistedThreads)
    } else if s == "/become_admin"@ {
        Some(Command::BecomeAdmin)
    } else if s == "/approve_become_admin"@ {
        Some(Command::ApproveBecomeAdmin)
    } else if s == "/reject_become_admin"@ {
        Some(Command::RejectBecomeAdmin)
    } else if s == "/list_become_admin_requests"@ {
        Some(Command::ListBecomeAdminRequests)
    } else if s == "/help"@ {
        Some(Command::Help)
    } else {
        None
    }
}

/// The command table: maps a token to the command it names.
pub fn parse_command(s: &str) -> (r: Option<Command>)
    ensures
        r == spec_parse_command(s@),
{
    let t = s.to_owned();
    if t == String::from_str("/whitelist_group") {
        Some(Command::WhitelistGroup)
    } else if t == String::from_str("/whitelist_thread") {
        Some(Command::WhitelistThread)
    } else if t == String::from_str("/unwhitelist_group") {
        Some(Command::UnwhitelistGroup)
    } else if t == String::from_str("/unwhitelist_thread") {
        Some(Command::UnwhitelistThread)
    } else if t == String::from_str("/remove_admin") {
        Some(Command::RemoveAdmin)
    } else if t == String::from_str("/make_superadmin") {
        Some(Command::MakeSuperadmin)
    } else if t == String::from_str("/list_admins") {
        Some(Command::ListAdmins)
    } else if t == String::from_str("/list_whitelisted_groups") {
        Some(Command::ListWhitelistedGroups)
    } else if t == String::from_str("/list_whitelisted_threads") {
        Some(Command::ListWhitelistedThreads)
    } else if t == String::from_str("/become_admin") {
        Some(Command::BecomeAdmin)
    } else if t == String::from_str("/approve_become_admin") {
        Some(Command::ApproveBecomeAdmin)
    } else if t == String::from_str("/reject_become_admin") {
        Some(Command::RejectBecomeAdmin)
    } else if t == String::from_str("/list_become_admin_requests") {
        Some(Command::ListBecomeAdminRequests)
    } else if t == String::from_str("/help") {
        Some(Command::Help)
    } else {
        None
    }
}

/// The message arrived in a group or supergroup scope.
pub open spec fn is_group_scope(kind: ChatKind) -> bool {
    kind == ChatKind::Group || kind == ChatKind::Supergroup
}

/// No table of the store changed.
pub open spec fn db_unchanged(pre: DB, post: DB) -> bool {
    &&& post.admins@ == pre.admins@
    &&& post.groups@ == pre.groups@
    &&& post.threads@ == pre.threads@
    &&& post.requests@ == pre.requests@
}

/// Only the group whitelist may have changed.
pub open spec fn only_groups_changed(pre: DB, post: DB) -> bool {
    &&& post.admins@ == pre.admins@
    &&& post.threads@ == pre.threads@
    &&& post.requests@ == pre.requests@
}

/// Only the thread whitelist may have changed.
pub open spec fn only_threads_changed(pre: DB, post: DB) -> bool {
    &&& post.admins@ == pre.admins@
    &&& post.groups@ == pre.groups@
    &&& post.requests@ == pre.requests@
}

/// Only the admins table may have changed.
pub open spec fn only_admins_changed(pre: DB, post: DB) -> bool {
    &&& post.groups@ == pre.groups@
    &&& post.threads@ == pre.threads@
    &&& post.requests@ == pre.requests@
}

/// Neither whitelist changed (admins and requests may have).
pub open spec fn whitelists_unchanged(pre: DB, post: DB) -> bool {
    &&& post.groups@ == pre.groups@
    &&& post.threads@ == pre.threads@
}

/// May the bot act on a message with this scope?  Direct (non-group) chats
/// are always allowed, whatever the whitelists hold; a group scope requires
/// the group on the allow-list, and a message that carries a thread id
/// additionally requires that thread on the allow-list.
pub open spec fn spec_check_access(
    db: DB,
    kind: ChatKind,
    chat_id: i64,
    thread_id: Option<i32>,
) -> bool {
    if is_group_scope(kind) {
        &&& has_group(db.groups@, chat_id)
        &&& match thread_id {
            Some(t) => has_thread(db.threads@, t, chat_id),
            None => true,
        }
    } else {
        true
    }
}

/// The authorization engine: owns the store and handles commands against it.
pub struct AdminHandler {
    pub db: DB,
}

impl AdminHandler {
    /// The engine is well-formed when its store is.
    pub open spec fn wf(&self) -> bool {
        self.db.wf()
    }

    /// Wraps a store into an engine.
    pub fn new(db: DB) -> (r: Option<AdminHandler>)
        ensures
            (r matches Some(h) && h.db == db),
    {
        Some(AdminHandler { db })
    }

    /// `is_group_allowed(group_id)`: is the group whitelisted?
    pub fn is_group_allowed(&self, group_id: i64) -> (r: bool)
        ensures
            r == has_group(self.db.groups@, group_id),
    {
        self.db.is_group_whitelisted(group_id)
    }

    /// `is_thread_allowed(thread_id, group_id)`: is the thread whitelisted?
    pub fn is_thread_allowed(&self, thread_id: i32, group_id: i64) -> (r: bool)
        ensures
            r == has_thread(self.db.threads@, thread_id, group_id),
    {
        self.db.is_thread_whitelisted(thread_id, group_id)
    }

    /// `check_whitelist(msg)`: may the bot act on this message's scope?
    /// Fails closed: only an explicit pair of allow-list hits (or a direct
    /// chat) lets a message through.
    pub fn check_whitelist(&self, msg: &MessageMeta) -> (r: bool)
        ensures
            r == spec_check_access(self.db, msg.chat_kind, msg.chat_id, msg.thread_id),
    {
        match msg.chat_kind {
            ChatKind::Group | ChatKind::Supergroup => {
                if !self.db.is_group_whitelisted(msg.chat_id) {
                    return false;
                }
                match msg.thread_id {
                    Some(t) => self.db.is_thread_whitelisted(t, msg.chat_id),
                    None => true,
                }
            },
            _ => true,
        }
    }
}

// ---------------------------------------------------------------------------
// Per-command semantics: one post-state predicate per command.
// ---------------------------------------------------------------------------

/// `/whitelist_group`: valid only inside a group scope (silent elsewhere);
/// whitelists the chat the command was issued in.
pub open spec fn whitelist_group_post(pre: DB, post: DB, msg: MessageMeta, r: Option<
    Reply,
>) -> bool {
    if is_group_scope(msg.chat_kind) {
        &&& only_groups_changed(pre, post)
        &&& if has_group(pre.groups@, msg.chat_id) {
            r == Some(Reply::ErrorWhitelistingGroup) && post.groups@ == pre.groups@
        } else {
            r == Some(Reply::GroupWhitelisted) && post.groups@ == pre.groups@.push(
                (WhitelistedGroup {
                    group_id: msg.chat_id,
                    group_name: msg.chat_title,
                    added_by: msg.sender_id,
                    created_at: msg.date,
                }),
            )
        }
    } else {
        r == None::<Reply> && db_unchanged(pre, post)
    }
}

/// `/whitelist_thread`: valid only inside a supergroup (silent elsewhere)
/// and only in a thread; whitelists the thread the command was issued in.
pub open spec fn whitelist_thread_post(pre: DB, post: DB, msg: MessageMeta, r: Option<
    Reply,
>) -> bool {
    if msg.chat_kind != ChatKind::Supergroup {
        r == None::<Reply> && db_unchanged(pre, post)
    } else {
        match msg.thread_id {
            None => r == Some(Reply::ThreadsOnly) && db_unchanged(pre, post),
            Some(tid) => {
                &&& only_threads_changed(pre, post)
                &&& if has_thread(pre.threads@, tid, msg.chat_id) {
                    r == Some(Reply::ErrorWhitelistingThread) && post.threads@ == pre.threads@
                } else {
                    r == Some(Reply::ThreadWhitelisted) && post.threads@ == pre.threads@.push(
                        (WhitelistedThread {
                            thread_id: tid,
                            group_id: msg.chat_id,
                            group_name: msg.chat_title,
                            thread_name: None,
                            added_by: msg.sender_id,
                            created_at: msg.date,
                        }),
                    )
                }
            },
        }
    }
}

/// `/unwhitelist_group [group_id]`: inside a group scope the current chat is
/// removed from the whitelist; outside, the id argument is required.
/// Removing an absent group is a no-op success.
pub open spec fn unwhitelist_group_post(
    pre: DB,
    post: DB,
    msg: MessageMeta,
    toks: Seq<String>,
    r: Option<Reply>,
) -> bool {
    if is_group_scope(msg.chat_kind) {
        &&& only_groups_changed(pre, post)
        &&& post.groups@ == spec_remove_group(pre.groups@, msg.chat_id)
        &&& r == Some(Reply::GroupUnwhitelisted)
    } else if toks.len() < 2 {
        r == Some(Reply::UsageUnwhitelistGroup) && db_unchanged(pre, post)
    } else {
        match spec_parse_i64(toks[1]@) {
            None => r == Some(Reply::InvalidGroupId) && db_unchanged(pre, post),
            Some(gid) => {
                &&& only_groups_changed(pre, post)
                &&& post.groups@ == spec_remove_group(pre.groups@, gid)
                &&& r == Some(Reply::GroupUnwhitelisted)
            },
        }
    }
}

/// One thread removed from the whitelist.
pub open spec fn thread_removed(pre: DB, post: DB, gid: i64, tid: i32, r: Option<Reply>) -> bool {
    &&& only_threads_changed(pre, post)
    &&& post.threads@ == spec_remove_thread(pre.threads@, tid, gid)
    &&& r == Some(Reply::ThreadUnwhitelisted)
}

/// `/unwhitelist_thread [group_id] [thread_id]`: with no argument the
/// current thread of the current group scope; with one argument that thread
/// of the current group scope; with two arguments an explicit pair, usable
/// from anywhere.  Removing an absent thread is a no-op success.
pub open spec fn unwhitelist_thread_post(
    pre: DB,
    post: DB,
    msg: MessageMeta,
    toks: Seq<String>,
    r: Option<Reply>,
) -> bool {
    if toks.len() == 1 {
        if !is_group_scope(msg.chat_kind) {
            r == Some(Reply::UsageUnwhitelistThread) && db_unchanged(pre, post)
        } else {
            match msg.thread_id {
                Some(tid) => thread_removed(pre, post, msg.chat_id, tid, r),
                None => r == Some(Reply::UsageUnwhitelistThreadInThread) && db_unchanged(
                    pre,
                    post,
                ),
            }
        }
    } else if toks.len() == 2 {
        if !is_group_scope(msg.chat_kind) {
            r == Some(Reply::UsageUnwhitelistThread) && db_unchanged(pre, post)
        } else {
            match spec_parse_i32(toks[1]@) {
                None => r == Some(Reply::InvalidThreadIdFormat) && db_unchanged(pre, post),
                Some(tid) => thread_removed(pre, post, msg.chat_id, tid, r),
            }
        }
    } else if toks.len() == 3 {
        match spec_parse_i64(toks[1]@) {
            None => r == Some(Reply::InvalidGroupIdFormat) && db_unchanged(pre, post),
            Some(gid) => match spec_parse_i32(toks[2]@) {
                None => r == Some(Reply::InvalidThreadIdFormat) && db_unchanged(pre, post),
                Some(tid) => thread_removed(pre, post, gid, tid, r),
            },
        }
    } else {
        r == Some(Reply::UsageUnwhitelistThreadFull) && db_unchanged(pre, post)
    }
}

impl AdminHandler {
    /// Handles `/whitelist_group`.
    pub fn whitelist_group(&mut self, msg: &MessageMeta) -> (r: Option<Reply>)
        requires
            old(self).wf(),
        ensures
            final(self).wf(),
            whitelist_group_post(old(self).db, final(self).db, *msg, r),
    {
        match msg.chat_kind {
            ChatKind::Group | ChatKind::Supergroup => {
                let title = clone_opt_string(&msg.chat_title);
                match self.db.add_whitelisted_group(msg.chat_id, msg.sender_id, title, msg.date) {
                    Ok(()) => Some(Reply::GroupWhitelisted),
                    Err(StoreError::UniqueViolation) => Some(Reply::ErrorWhitelistingGroup),
                }
            },
            _ => None,
        }
    }

    /// Handles `/whitelist_thread`.
    pub fn whitelist_thread(&mut self, msg: &MessageMeta) -> (r: Option<Reply>)
        requires
            old(self).wf(),
        ensures
            final(self).wf(),
            whitelist_thread_post(old(self).db, final(self).db, *msg, r),
    {
        match msg.chat_kind {
            ChatKind::Supergroup => {
                match msg.thread_id {
                    None => Some(Reply::ThreadsOnly),
                    Some(tid) => {
                        let title = clone_opt_string(&msg.chat_title);
                        match self.db.add_whitelisted_thread(
                            tid,
                            msg.chat_id,
                            msg.sender_id,
                            title,
                            None,
                            msg.date,
                        ) {
                            Ok(()) => Some(Reply::ThreadWhitelisted),
                            Err(StoreError::UniqueViolation) => Some(
                                Reply::ErrorWhitelistingThread,
                            ),
                        }
                    },
                }
            },
            _ => None,
        }
    }

    /// Handles `/unwhitelist_group`.
    pub fn unwhitelist_group(&mut self, msg: &MessageMeta, tokens: &Vec<String>) -> (r: Option<
        Reply,
    >)
        requires
            old(self).wf(),
        ensures
            final(self).wf(),
            unwhitelist_group_post(old(self).db, final(self).db, *msg, tokens@, r),
    {
        match msg.chat_kind {
            ChatKind::Group | ChatKind::Supergroup => {
                self.db.remove_whitelisted_group(msg.chat_id);
                Some(Reply::GroupUnwhitelisted)
            },
            _ => {
                if tokens.len() < 2 {
                    return Some(Reply::UsageUnwhitelistGroup);
                }
                match parse_i64(tokens[1].as_str()) {
                    None => Some(Reply::InvalidGroupId),
                    Some(gid) => {
                        self.db.remove_whitelisted_group(gid);
                        Some(Reply::GroupUnwhitelisted)
                    },
                }
            },
        }
    }

    /// Handles `/unwhitelist_thread`.
    pub fn unwhitelist_thread(&mut self, msg: &MessageMeta, tokens: &Vec<String>) -> (r: Option<
        Reply,
    >)
        requires
            old(self).wf(),
        ensures
            final(self).wf(),
            unwhitelist_thread_post(old(self).db, final(self).db, *msg, tokens@, r),
    {
        let group_scope = match msg.chat_kind {
            ChatKind::Group | ChatKind::Supergroup => true,
            _ => false,
        };
        if tokens.len() == 1 {
            if !group_scope {
                return Some(Reply::UsageUnwhitelistThread);
            }
            match msg.thread_id {
                Some(tid) => {
                    self.db.remove_whitelisted_thread(tid, msg.chat_id);
                    Some(Reply::ThreadUnwhitelisted)
                },
                None => Some(Reply::UsageUnwhitelistThreadInThread),
            }
        } else if tokens.len() == 2 {
            if !group_scope {
                return Some(Reply::UsageUnwhitelistThread);
            }
            match parse_i32(tokens[1].as_str()) {
                None => Some(Reply::InvalidThreadIdFormat),
                Some(tid) => {
                    self.db.remove_whitelisted_thread(tid, msg.chat_id);
                    Some(Reply::ThreadUnwhitelisted)
                },
            }
        } else if tokens.len() == 3 {
            match parse_i64(tokens[1].as_str()) {
                None => Some(Reply::InvalidGroupIdFormat),
                Some(gid) => {
                    match parse_i32(tokens[2].as_str()) {
                        None => Some(Reply::InvalidThreadIdFormat),
                        Some(tid) => {
                            self.db.remove_whitelisted_thread(tid, gid);
                            Some(Reply::ThreadUnwhitelisted)
                        },
                    }
                },
            }
        } else {
            Some(Reply::UsageUnwhitelistThreadFull)
        }
    }
}

/// `/remove_admin <user_id>`: a superadmin requester removes the target
/// unconditionally; any other requester succeeds exactly when the ownership
/// chain from the target upward names it.
pub open spec fn remove_admin_post(
    pre: DB,
    post: DB,
    requester: Admin,
    toks: Seq<String>,
    r: Option<Reply>,
) -> bool {
    if toks.len() < 2 {
        r == Some(Reply::UsageRemoveAdmin) && db_unchanged(pre, post)
    } else {
        match spec_parse_u64(toks[1]@) {
            None => r == Some(Reply::InvalidUserId) && db_unchanged(pre, post),
            Some(uid) => {
                let target = uid as i64;
                if requester.added_by is None {
                    &&& only_admins_changed(pre, post)
                    &&& post.admins@ == spec_remove_admin(pre.admins@, target)
                    &&& r == Some(Reply::AdminRemoved)
                } else if removal_granted(
                    pre.admins@,
                    target,
                    requester.user_id,
                    traversal_fuel(pre.admins@),
                ) {
                    &&& only_admins_changed(pre, post)
                    &&& post.admins@ == spec_remove_admin(pre.admins@, target)
                    &&& r == Some(Reply::AdminRemoved)
                } else {
                    r == Some(Reply::NotYourAdmin) && db_unchanged(pre, post)
                }
            },
        }
    }
}

/// `/make_superadmin <user_id>`: only a superadmin requester may promote;
/// promotion clears the target's `added_by`.  Promoting an absent target is
/// a no-op success.
pub open spec fn make_superadmin_post(
    pre: DB,
    post: DB,
    requester: Admin,
    toks: Seq<String>,
    r: Option<Reply>,
) -> bool {
    if !(requester.added_by is None) {
        r == Some(Reply::NotSuperadmin) && db_unchanged(pre, post)
    } else if toks.len() < 2 {
        r == Some(Reply::UsageMakeSuperadmin) && db_unchanged(pre, post)
    } else {
        match spec_parse_u64(toks[1]@) {
            None => r == Some(Reply::InvalidUserId) && db_unchanged(pre, post),
            Some(uid) => {
                &&& only_admins_changed(pre, post)
                &&& post.admins@ == spec_promote_admin(pre.admins@, uid as i64)
                &&& r == Some(Reply::SuperadminMade)
            },
        }
    }
}

/// `/become_admin`: files a live request for the sender, unless one already
/// exists.
pub open spec fn become_admin_post(pre: DB, post: DB, msg: MessageMeta, r: Option<Reply>) -> bool {
    &&& post.admins@ == pre.admins@
    &&& whitelists_unchanged(pre, post)
    &&& if has_live_request(pre.requests@, msg.sender_id) {
        r == Some(Reply::RequestDuplicate) && post.requests@ == pre.requests@
    } else {
        match r {
            Some(Reply::RequestCreated(id)) => id@.len() == 36 && !has_request(pre.requests@, id@)
                && post.requests@ == pre.requests@.push(
                (BecomeAdminRequest {
                    request_id: id,
                    user_id: msg.sender_id,
                    user_name: msg.sender_name,
                    created_at: msg.date,
                    pending: true,
                    accepted: false,
                }),
            ),
            Some(Reply::ErrorCreatingRequest) => post.requests@ == pre.requests@,
            _ => false,
        }
    }
}

/// `/approve_become_admin <request_id>`: on a live request whose user is not
/// yet an admin, resolves it as accepted and creates the admin, owned by the
/// approving sender; in every other case nothing changes.
pub open spec fn approve_become_admin_post(
    pre: DB,
    post: DB,
    msg: MessageMeta,
    toks: Seq<String>,
    r: Option<Reply>,
) -> bool {
    if toks.len() < 2 {
        r == Some(Reply::UsageApproveRequest) && db_unchanged(pre, post)
    } else {
        let rid = toks[1]@;
        let reqs = pre.requests@;
        &&& whitelists_unchanged(pre, post)
        &&& if !has_request(reqs, rid) || !request_of(reqs, rid).pending || has_admin(
            pre.admins@,
            request_of(reqs, rid).user_id,
        ) {
            &&& r == Some(Reply::ErrorApprovingRequest)
            &&& post.requests@ == reqs
            &&& post.admins@ == pre.admins@
        } else {
            &&& r == Some(Reply::RequestApproved)
            &&& post.requests@ == reqs.update(
                request_idx(reqs, rid),
                spec_resolved(request_of(reqs, rid), true),
            )
            &&& post.admins@ == pre.admins@.push(
                (Admin {
                    user_id: request_of(reqs, rid).user_id,
                    name: request_of(reqs, rid).user_name,
                    added_by: Some(msg.sender_id),
                    added_at: msg.date,
                }),
            )
        }
    }
}

/// `/reject_become_admin <request_id>`: on a live request, resolves it and
/// deletes its row; in every other case nothing changes.
pub open spec fn reject_become_admin_post(
    pre: DB,
    post: DB,
    toks: Seq<String>,
    r: Option<Reply>,
) -> bool {
    if toks.len() < 2 {
        r == Some(Reply::UsageRejectRequest) && db_unchanged(pre, post)
    } else {
        let rid = toks[1]@;
        let reqs = pre.requests@;
        &&& post.admins@ == pre.admins@
        &&& whitelists_unchanged(pre, post)
        &&& if !has_request(reqs, rid) || !request_of(reqs, rid).pending {
            r == Some(Reply::ErrorRejectingRequest) && post.requests@ == reqs
        } else {
            r == Some(Reply::RequestRejected) && post.requests@ == spec_remove_request(reqs, rid)
        }
    }
}

impl AdminHandler {
    /// Handles `/remove_admin`.
    pub fn remove_admin(&mut self, requester: &Admin, tokens: &Vec<String>) -> (r: Option<Reply>)
        requires
            old(self).wf(),
        ensures
            final(self).wf(),
            remove_admin_post(old(self).db, final(self).db, *requester, tokens@, r),
    {
        if tokens.len() < 2 {
            return Some(Reply::UsageRemoveAdmin);
        }
        let uid = match parse_u64(tokens[1].as_str()) {
            None => {
                return Some(Reply::InvalidUserId);
            },
            Some(uid) => uid,
        };
        let target = #[verifier::truncate] (uid as i64);
        if requester.is_superadmin() {
            self.db.remove_admin(target);
            Some(Reply::AdminRemoved)
        } else {
            if self.db.remove_admin_with_traversal(target, requester.user_id) {
                Some(Reply::AdminRemoved)
            } else {
                Some(Reply::NotYourAdmin)
            }
        }
    }

    /// Handles `/make_superadmin`.
    pub fn make_superadmin(&mut self, requester: &Admin, tokens: &Vec<String>) -> (r: Option<
        Reply,
    >)
        requires
            old(self).wf(),
        ensures
            final(self).wf(),
            make_superadmin_post(old(self).db, final(self).db, *requester, tokens@, r),
    {
        if !requester.is_superadmin() {
            return Some(Reply::NotSuperadmin);
        }
        if tokens.len() < 2 {
            return Some(Reply::UsageMakeSuperadmin);
        }
        match parse_u64(tokens[1].as_str()) {
            None => Some(Reply::InvalidUserId),
            Some(uid) => {
                let target = #[verifier::truncate] (uid as i64);
                self.db.make_superadmin(target);
                Some(Reply::SuperadminMade)
            },
        }
    }

    /// Handles `/become_admin`.
    pub fn become_admin(&mut self, msg: &MessageMeta) -> (r: Option<Reply>)
        requires
            old(self).wf(),
        ensures
            final(self).wf(),
            become_admin_post(old(self).db, final(self).db, *msg, r),
    {
        let name = clone_opt_string(&msg.sender_name);
        match self.db.create_become_admin_request(msg.sender_id, name, msg.date) {
            Ok(Some(id)) => Some(Reply::RequestCreated(id)),
            Ok(None) => Some(Reply::RequestDuplicate),
            Err(StoreError::UniqueViolation) => Some(Reply::ErrorCreatingRequest),
        }
    }

    /// Handles `/approve_become_admin`.
    pub fn approve_become_admin(&mut self, msg: &MessageMeta, tokens: &Vec<String>) -> (r: Option<
        Reply,
    >)
        requires
            old(self).wf(),
        ensures
            final(self).wf(),
            approve_become_admin_post(old(self).db, final(self).db, *msg, tokens@, r),
    {
        if tokens.len() < 2 {
            return Some(Reply::UsageApproveRequest);
        }
        match self.db.approve_become_admin_request(&tokens[1], msg.sender_id, msg.date) {
            Ok(()) => Some(Reply::RequestApproved),
            Err(_) => Some(Reply::ErrorApprovingRequest),
        }
    }

    /// Handles `/reject_become_admin`.
    pub fn reject_become_admin(&mut self, tokens: &Vec<String>) -> (r: Option<Reply>)
        requires
            old(self).wf(),
        ensures
            final(self).wf(),
            reject_become_admin_post(old(self).db, final(self).db, tokens@, r),
    {
        if tokens.len() < 2 {
            return Some(Reply::UsageRejectRequest);
        }
        match self.db.reject_become_admin_request(&tokens[1]) {
            Ok(()) => Some(Reply::RequestRejected),
            Err(_) => Some(Reply::ErrorRejectingRequest),
        }
    }

    /// Handles `/list_admins`.
    pub fn list_admins(&self) -> (r: Option<Reply>)
        ensures
            (r matches Some(Reply::Admins(v)) && v@ == self.db.admins@),
    {
        let v = self.db.get_admins();
        proof {
            assert(v@ =~= self.db.admins@);
        }
        Some(Reply::Admins(v))
    }

    /// Handles `/list_whitelisted_groups`.
    pub fn list_whitelisted_groups(&self) -> (r: Option<Reply>)
        ensures
            (r matches Some(Reply::Groups(v)) && v@ == self.db.groups@),
    {
        let v = self.db.get_whitelisted_groups();
        proof {
            assert(v@ =~= self.db.groups@);
        }
        Some(Reply::Groups(v))
    }

    /// Handles `/list_whitelisted_threads`: only the current chat's threads.
    pub fn list_whitelisted_threads(&self, msg: &MessageMeta) -> (r: Option<Reply>)
        ensures
            (r matches Some(Reply::Threads(v)) && v@ == spec_threads_of_group(
                self.db.threads@,
                msg.chat_id,
            )),
    {
        let v = self.db.get_whitelisted_threads(msg.chat_id);
        proof {
            assert(v@ =~= spec_threads_of_group(self.db.threads@, msg.chat_id));
        }
        Some(Reply::Threads(v))
    }

    /// Handles `/list_become_admin_requests`.
    pub fn list_become_admin_requests(&self) -> (r: Option<Reply>)
        ensures
            (r matches Some(Reply::Requests(v)) && v@ == self.db.requests@),
    {
        let v = self.db.get_become_admin_requests();
        proof {
            assert(v@ =~= self.db.requests@);
        }
        Some(Reply::Requests(v))
    }

    /// Handles `/help`.
    pub fn help(&self) -> (r: Option<Reply>)
        ensures
            r == Some(Reply::Help),
    {
        Some(Reply::Help)
    }
}

/// The whole step of one inbound command: an unknown sender may only file a
/// become-admin request; a known admin's token is dispatched through the
/// command table; anything else is answered silently and changes nothing.
pub open spec fn handle_post(
    pre: DB,
    post: DB,
    msg: MessageMeta,
    toks: Seq<String>,
    r: Option<Reply>,
) -> bool {
    if toks.len() == 0 {
        r == None::<Reply> && db_unchanged(pre, post)
    } else {
        let cmd = spec_parse_command(toks[0]@);
        if !has_admin(pre.admins@, msg.sender_id) {
            if cmd == Some(Command::BecomeAdmin) {
                become_admin_post(pre, post, msg, r)
            } else {
                r == None::<Reply> && db_unchanged(pre, post)
            }
        } else {
            let requester = admin_of(pre.admins@, msg.sender_id);
            match cmd {
                Some(Command::WhitelistGroup) => whitelist_group_post(pre, post, msg, r),
                Some(Command::WhitelistThread) => whitelist_thread_post(pre, post, msg, r),
                Some(Command::UnwhitelistGroup) => unwhitelist_group_post(pre, post, msg, toks, r),
                Some(Command::UnwhitelistThread) => unwhitelist_thread_post(
                    pre,
                    post,
                    msg,
                    toks,
                    r,
                ),
                Some(Command::RemoveAdmin) => remove_admin_post(pre, post, requester, toks, r),
                Some(Command::MakeSuperadmin) => make_superadmin_post(
                    pre,
                    post,
                    requester,
                    toks,
                    r,
                ),
                Some(Command::ListAdmins) => db_unchanged(pre, post) && (r matches Some(
                    Reply::Admins(v),
                ) && v@ == pre.admins@),
                Some(Command::ListWhitelistedGroups) => db_unchanged(pre, post) && (r matches Some(
                    Reply::Groups(v),
                ) && v@ == pre.groups@),
                Some(Command::ListWhitelistedThreads) => db_unchanged(pre, post) && (r matches Some(
                    Reply::Threads(v),
                ) && v@ == spec_threads_of_group(pre.threads@, msg.chat_id)),
                Some(Command::BecomeAdmin) => r == None::<Reply> && db_unchanged(pre, post),
                Some(Command::ApproveBecomeAdmin) => approve_become_admin_post(
                    pre,
                    post,
                    msg,
                    toks,
                    r,
                ),
                Some(Command::RejectBecomeAdmin) => reject_become_admin_post(pre, post, toks, r),
                Some(Command::ListBecomeAdminRequests) => db_unchanged(pre, post) && (r matches
                Some(Reply::Requests(v)) && v@ == pre.requests@),
                Some(Command::Help) => r == Some(Reply::Help) && db_unchanged(pre, post),
                None => r == None::<Reply> && db_unchanged(pre, post),
            }
        }
    }
}

impl AdminHandler {
    /// `handle(msg, tokens)`: the command router.  `tokens` are the
    /// message's whitespace-separated, lower-cased tokens; the first one
    /// names the command.
    pub fn handle(&mut self, msg: &MessageMeta, tokens: &Vec<String>) -> (r: Option<Reply>)
        requires
            old(self).wf(),
        ensures
            final(self).wf(),
            handle_post(old(self).db, final(self).db, *msg, tokens@, r),
    {
        if tokens.len() == 0 {
            return None;
        }
        let cmd = parse_command(tokens[0].as_str());
        let requester = match self.db.get_admin(msg.sender_id) {
            Some(a) => a,
            None => {
                return match cmd {
                    Some(Command::BecomeAdmin) => self.become_admin(msg),
                    _ => None,
                };
            },
        };
        match cmd {
            Some(Command::WhitelistGroup) => self.whitelist_group(msg),
            Some(Command::WhitelistThread) => self.whitelist_thread(msg),
            Some(Command::UnwhitelistGroup) => self.unwhitelist_group(msg, tokens),
            Some(Command::UnwhitelistThread) => self.unwhitelist_thread(msg, tokens),
            Some(Command::RemoveAdmin) => self.remove_admin(&requester, tokens),
            Some(Command::MakeSuperadmin) => self.make_superadmin(&requester, tokens),
            Some(Command::ListAdmins) => self.list_admins(),
            Some(Command::ListWhitelistedGroups) => self.list_whitelisted_groups(),
            Some(Command::ListWhitelistedThreads) => self.list_whitelisted_threads(msg),
            Some(Command::BecomeAdmin) => None,
            Some(Command::ApproveBecomeAdmin) => self.approve_become_admin(msg, tokens),
            Some(Command::RejectBecomeAdmin) => self.reject_become_admin(tokens),
            Some(Command::ListBecomeAdminRequests) => self.list_become_admin_requests(),
            Some(Command::Help) => self.help(),
            None => None,
        }
    }

    /// One whole inbound message: the command (admin commands are immune to
    /// whitelisting), then the whitelist check on the resulting store, whose
    /// verdict gates every non-admin feature of the application.
    pub fn handle_message(&mut self, msg: &MessageMeta, tokens: &Vec<String>) -> (r: (
        Option<Reply>,
        bool,
    ))
        requires
            old(self).wf(),
        ensures
            final(self).wf(),
            handle_post(old(self).db, final(self).db, *msg, tokens@, r.0),
            r.1 == spec_check_access(final(self).db, msg.chat_kind, msg.chat_id, msg.thread_id),
    {
        let reply = self.handle(msg, tokens);
        let allowed = self.check_whitelist(msg);
        (reply, allowed)
    }
}

} // verus!
