use adminbot::engine::{AdminHandler, ChatKind, MessageMeta, Reply};
use adminbot::store::DB;

fn msg_in(sender: i64, chat_id: i64, kind: ChatKind, thread: Option<i32>) -> MessageMeta {
    MessageMeta {
        sender_id: sender,
        sender_name: Some(format!("user{}", sender)),
        chat_id,
        chat_kind: kind,
        chat_title: Some("a chat".to_string()),
        thread_id: thread,
        date: 1000,
    }
}

fn toks(text: &str) -> Vec<String> {
    text.split_whitespace().map(|t| t.to_lowercase()).collect()
}

/// An engine with one superadmin, id 1.
fn engine_with_root() -> AdminHandler {
    let mut db = DB::new();
    db.add_admin(1, 0, Some("root".to_string()), 1).unwrap();
    db.make_superadmin(1);
    AdminHandler::new(db).unwrap()
}

#[test]
fn unknown_sender_is_ignored() {
    let mut h = engine_with_root();
    let m = msg_in(99, 100, ChatKind::Group, None);
    assert_eq!(h.handle(&m, &toks("/whitelist_group")), None);
    assert!(!h.is_group_allowed(100));
}

#[test]
fn unknown_command_is_ignored() {
    let mut h = engine_with_root();
    let m = msg_in(1, 100, ChatKind::Group, None);
    assert_eq!(h.handle(&m, &toks("/frobnicate now")), None);
    assert_eq!(h.handle(&m, &toks("hello")), None);
    assert_eq!(h.handle(&m, &Vec::new()), None);
}

#[test]
fn whitelist_group_from_inside_group() {
    let mut h = engine_with_root();
    let m = msg_in(1, 100, ChatKind::Group, None);
    assert_eq!(h.handle(&m, &toks("/whitelist_group")), Some(Reply::GroupWhitelisted));
    assert!(h.is_group_allowed(100));
    let groups = h.db.get_whitelisted_groups();
    assert_eq!(groups.len(), 1);
    assert_eq!(groups[0].group_id, 100);
    assert_eq!(groups[0].added_by, 1);
    assert_eq!(groups[0].group_name, Some("a chat".to_string()));
    // a second time: the unique key refuses
    assert_eq!(h.handle(&m, &toks("/whitelist_group")), Some(Reply::ErrorWhitelistingGroup));
}

#[test]
fn whitelist_group_outside_group_is_silent() {
    let mut h = engine_with_root();
    let m = msg_in(1, 100, ChatKind::Private, None);
    assert_eq!(h.handle(&m, &toks("/whitelist_group")), None);
    assert!(!h.is_group_allowed(100));
}

#[test]
fn whitelist_thread_needs_supergroup_and_thread() {
    let mut h = engine_with_root();
    // plain group: silent
    let m1 = msg_in(1, 100, ChatKind::Group, Some(5));
    assert_eq!(h.handle(&m1, &toks("/whitelist_thread")), None);
    // supergroup without thread: pointed reply
    let m2 = msg_in(1, 100, ChatKind::Supergroup, None);
    assert_eq!(h.handle(&m2, &toks("/whitelist_thread")), Some(Reply::ThreadsOnly));
    // supergroup in a thread: whitelisted
    let m3 = msg_in(1, 100, ChatKind::Supergroup, Some(5));
    assert_eq!(h.handle(&m3, &toks("/whitelist_thread")), Some(Reply::ThreadWhitelisted));
    assert!(h.is_thread_allowed(5, 100));
    assert_eq!(h.handle(&m3, &toks("/whitelist_thread")), Some(Reply::ErrorWhitelistingThread));
}

#[test]
fn unwhitelist_group_inside_and_outside() {
    let mut h = engine_with_root();
    let inside = msg_in(1, 100, ChatKind::Group, None);
    assert_eq!(h.handle(&inside, &toks("/whitelist_group")), Some(Reply::GroupWhitelisted));
    // outside a group, the id argument is required
    let private = msg_in(1, 7, ChatKind::Private, None);
    assert_eq!(
        h.handle(&private, &toks("/unwhitelist_group")),
        Some(Reply::UsageUnwhitelistGroup)
    );
    assert_eq!(
        h.handle(&private, &toks("/unwhitelist_group abc")),
        Some(Reply::InvalidGroupId)
    );
    assert!(h.is_group_allowed(100));
    assert_eq!(
        h.handle(&private, &toks("/unwhitelist_group 100")),
        Some(Reply::GroupUnwhitelisted)
    );
    assert!(!h.is_group_allowed(100));
    // inside a group, the current chat is the target
    assert_eq!(h.handle(&inside, &toks("/whitelist_group")), Some(Reply::GroupWhitelisted));
    assert_eq!(h.handle(&inside, &toks("/unwhitelist_group")), Some(Reply::GroupUnwhitelisted));
    assert!(!h.is_group_allowed(100));
}

#[test]
fn unwhitelist_thread_argument_shapes() {
    let mut h = engine_with_root();
    let sg = msg_in(1, 100, ChatKind::Supergroup, Some(5));
    assert_eq!(h.handle(&sg, &toks("/whitelist_thread")), Some(Reply::ThreadWhitelisted));

    let private = msg_in(1, 7, ChatKind::Private, None);
    assert_eq!(
        h.handle(&private, &toks("/unwhitelist_thread")),
        Some(Reply::UsageUnwhitelistThread)
    );
    assert_eq!(
        h.handle(&private, &toks("/unwhitelist_thread 5")),
        Some(Reply::UsageUnwhitelistThread)
    );
    let sg_no_thread = msg_in(1, 100, ChatKind::Supergroup, None);
    assert_eq!(
        h.handle(&sg_no_thread, &toks("/unwhitelist_thread")),
        Some(Reply::UsageUnwhitelistThreadInThread)
    );
    assert_eq!(
        h.handle(&sg_no_thread, &toks("/unwhitelist_thread x")),
        Some(Reply::InvalidThreadIdFormat)
    );
    assert_eq!(
        h.handle(&private, &toks("/unwhitelist_thread abc 5")),
        Some(Reply::InvalidGroupIdFormat)
    );
    assert_eq!(
        h.handle(&private, &toks("/unwhitelist_thread 100 x")),
        Some(Reply::InvalidThreadIdFormat)
    );
    assert_eq!(
        h.handle(&private, &toks("/unwhitelist_thread 1 2 3 4")),
        Some(Reply::UsageUnwhitelistThreadFull)
    );
    assert!(h.is_thread_allowed(5, 100));
    // the two-argument form works from anywhere
    assert_eq!(
        h.handle(&private, &toks("/unwhitelist_thread 100 5")),
        Some(Reply::ThreadUnwhitelisted)
    );
    assert!(!h.is_thread_allowed(5, 100));
    // inside the thread itself, no argument is needed
    assert_eq!(h.handle(&sg, &toks("/whitelist_thread")), Some(Reply::ThreadWhitelisted));
    assert_eq!(h.handle(&sg, &toks("/unwhitelist_thread")), Some(Reply::ThreadUnwhitelisted));
    assert!(!h.is_thread_allowed(5, 100));
}

#[test]
fn remove_admin_hierarchy_scenario() {
    // superadmin A creates B; B creates C; unrelated D exists
    let mut h2 = engine_with_root();
    h2.db.add_admin(2, 1, None, 2).unwrap();
    h2.db.add_admin(3, 2, None, 3).unwrap();
    h2.db.add_admin(4, 1, None, 4).unwrap();
    let a = h2.db.get_admin(1).unwrap();
    let b = h2.db.get_admin(2).unwrap();
    let d = h2.db.get_admin(4).unwrap();

    // D (not a superadmin, unrelated to C) is denied
    assert_eq!(h2.remove_admin(&d, &toks("/remove_admin 3")), Some(Reply::NotYourAdmin));
    assert!(h2.db.get_admin(3).is_some());

    // A is a superadmin: removal is unconditional
    assert_eq!(h2.remove_admin(&a, &toks("/remove_admin 3")), Some(Reply::AdminRemoved));
    assert!(h2.db.get_admin(3).is_none());

    // restore C under B; B removes its direct child
    h2.db.add_admin(3, 2, None, 5).unwrap();
    assert_eq!(h2.remove_admin(&b, &toks("/remove_admin 3")), Some(Reply::AdminRemoved));
    assert!(h2.db.get_admin(3).is_none());
}

#[test]
fn remove_admin_argument_errors() {
    let mut h = engine_with_root();
    let a = h.db.get_admin(1).unwrap();
    assert_eq!(h.remove_admin(&a, &toks("/remove_admin")), Some(Reply::UsageRemoveAdmin));
    assert_eq!(h.remove_admin(&a, &toks("/remove_admin bob")), Some(Reply::InvalidUserId));
}

#[test]
fn make_superadmin_requires_superadmin() {
    let mut h = engine_with_root();
    h.db.add_admin(2, 1, None, 2).unwrap();
    let b = h.db.get_admin(2).unwrap();
    assert_eq!(h.make_superadmin(&b, &toks("/make_superadmin 2")), Some(Reply::NotSuperadmin));
    let a = h.db.get_admin(1).unwrap();
    assert_eq!(h.make_superadmin(&a, &toks("/make_superadmin")), Some(Reply::UsageMakeSuperadmin));
    assert_eq!(h.make_superadmin(&a, &toks("/make_superadmin x")), Some(Reply::InvalidUserId));
    assert_eq!(h.make_superadmin(&a, &toks("/make_superadmin 2")), Some(Reply::SuperadminMade));
    assert!(h.db.get_admin(2).unwrap().is_superadmin());
    // promoted roots are beyond every ownership-chain removal
    assert!(!h.db.remove_admin_with_traversal(2, 1));
}

#[test]
fn become_admin_request_flow_through_commands() {
    let mut h = engine_with_root();
    let stranger = msg_in(42, 7, ChatKind::Private, None);
    // a stranger may file a request
    let r = h.handle(&stranger, &toks("/become_admin"));
    let id = match r {
        Some(Reply::RequestCreated(id)) => id,
        other => panic!("expected RequestCreated, got {:?}", other),
    };
    assert_eq!(id.len(), 36);
    // a second request while the first is live is a duplicate
    assert_eq!(h.handle(&stranger, &toks("/become_admin")), Some(Reply::RequestDuplicate));
    // a stranger may do nothing else
    assert_eq!(h.handle(&stranger, &toks("/list_admins")), None);

    // the admin approves it by id
    let admin_msg = msg_in(1, 7, ChatKind::Private, None);
    assert_eq!(
        h.handle(&admin_msg, &toks("/approve_become_admin")),
        Some(Reply::UsageApproveRequest)
    );
    let cmd = format!("/approve_become_admin {}", id);
    assert_eq!(h.handle(&admin_msg, &toks(&cmd)), Some(Reply::RequestApproved));
    let new_admin = h.db.get_admin(42).expect("approved user is an admin");
    assert_eq!(new_admin.added_by, Some(1));
    // approving again: the request is resolved
    assert_eq!(h.handle(&admin_msg, &toks(&cmd)), Some(Reply::ErrorApprovingRequest));
}

#[test]
fn reject_become_admin_through_commands() {
    let mut h = engine_with_root();
    let stranger = msg_in(42, 7, ChatKind::Private, None);
    let id = match h.handle(&stranger, &toks("/become_admin")) {
        Some(Reply::RequestCreated(id)) => id,
        other => panic!("expected RequestCreated, got {:?}", other),
    };
    let admin_msg = msg_in(1, 7, ChatKind::Private, None);
    assert_eq!(
        h.handle(&admin_msg, &toks("/reject_become_admin")),
        Some(Reply::UsageRejectRequest)
    );
    let cmd = format!("/reject_become_admin {}", id);
    assert_eq!(h.handle(&admin_msg, &toks(&cmd)), Some(Reply::RequestRejected));
    assert!(h.db.get_admin(42).is_none());
    assert!(h.db.get_become_admin_requests().is_empty());
    assert_eq!(h.handle(&admin_msg, &toks(&cmd)), Some(Reply::ErrorRejectingRequest));
    // the user may apply again
    assert!(matches!(
        h.handle(&stranger, &toks("/become_admin")),
        Some(Reply::RequestCreated(_))
    ));
}

#[test]
fn listings_reflect_the_store() {
    let mut h = engine_with_root();
    let admin_msg = msg_in(1, 100, ChatKind::Supergroup, Some(5));
    assert_eq!(h.handle(&admin_msg, &toks("/whitelist_group")), Some(Reply::GroupWhitelisted));
    assert_eq!(h.handle(&admin_msg, &toks("/whitelist_thread")), Some(Reply::ThreadWhitelisted));
    match h.handle(&admin_msg, &toks("/list_admins")) {
        Some(Reply::Admins(v)) => {
            assert_eq!(v.len(), 1);
            assert_eq!(v[0].user_id, 1);
        },
        other => panic!("expected Admins, got {:?}", other),
    }
    match h.handle(&admin_msg, &toks("/list_whitelisted_groups")) {
        Some(Reply::Groups(v)) => assert_eq!(v.len(), 1),
        other => panic!("expected Groups, got {:?}", other),
    }
    match h.handle(&admin_msg, &toks("/list_whitelisted_threads")) {
        Some(Reply::Threads(v)) => {
            assert_eq!(v.len(), 1);
            assert_eq!(v[0].thread_id, 5);
        },
        other => panic!("expected Threads, got {:?}", other),
    }
    match h.handle(&admin_msg, &toks("/list_become_admin_requests")) {
        Some(Reply::Requests(v)) => assert!(v.is_empty()),
        other => panic!("expected Requests, got {:?}", other),
    }
    assert_eq!(h.handle(&admin_msg, &toks("/help")), Some(Reply::Help));
}

#[test]
fn access_check_direct_chat_always_allowed() {
    let h = engine_with_root();
    // empty whitelists: a private chat passes, a group does not
    let private = msg_in(9, 7, ChatKind::Private, None);
    assert!(h.check_whitelist(&private));
    let private_thread = msg_in(9, 7, ChatKind::Private, Some(3));
    assert!(h.check_whitelist(&private_thread));
    let channel = msg_in(9, 7, ChatKind::Channel, None);
    assert!(h.check_whitelist(&channel));
    let group = msg_in(9, 100, ChatKind::Group, None);
    assert!(!h.check_whitelist(&group));
}

#[test]
fn access_check_group_and_thread_scenario() {
    // group 100 whitelisted by admin A from inside group 100
    let mut h = engine_with_root();
    let inside = msg_in(1, 100, ChatKind::Group, None);
    assert_eq!(h.handle(&inside, &toks("/whitelist_group")), Some(Reply::GroupWhitelisted));
    // a message from group 100 with no thread id is allowed
    let plain = msg_in(9, 100, ChatKind::Group, None);
    assert!(h.check_whitelist(&plain));
    // the same group with a thread id that is not itself whitelisted is denied
    let threaded = msg_in(9, 100, ChatKind::Group, Some(5));
    assert!(!h.check_whitelist(&threaded));
    // other groups stay denied
    let other = msg_in(9, 101, ChatKind::Group, None);
    assert!(!h.check_whitelist(&other));
}

#[test]
fn handle_message_gates_features() {
    let mut h = engine_with_root();
    let inside = msg_in(1, 100, ChatKind::Group, None);
    // the admin command itself runs even though the group is not whitelisted,
    // and the verdict reflects the store the command produced
    let (reply, allowed) = h.handle_message(&inside, &toks("/whitelist_group"));
    assert_eq!(reply, Some(Reply::GroupWhitelisted));
    assert!(allowed);
    let (reply2, allowed2) = h.handle_message(&inside, &toks("/unwhitelist_group"));
    assert_eq!(reply2, Some(Reply::GroupUnwhitelisted));
    assert!(!allowed2);
}
