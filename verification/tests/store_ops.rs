use adminbot::records::Admin;
use adminbot::store::{AuthError, CreateRequestOutcome, StoreError, DB};

fn admin_ids(db: &DB) -> Vec<i64> {
    db.get_admins().iter().map(|a| a.user_id).collect()
}

#[test]
fn add_and_get_admin() {
    let mut db = DB::new();
    assert_eq!(db.add_admin(1, 0, Some("alice".to_string()), 10), Ok(()));
    let a = db.get_admin(1).expect("admin 1 exists");
    assert_eq!(a.user_id, 1);
    assert_eq!(a.name, Some("alice".to_string()));
    assert_eq!(a.added_by, Some(0));
    assert_eq!(a.added_at, 10);
    assert!(db.get_admin(2).is_none());
}

#[test]
fn add_admin_twice_is_unique_violation() {
    let mut db = DB::new();
    assert_eq!(db.add_admin(1, 0, None, 1), Ok(()));
    assert_eq!(db.add_admin(1, 7, None, 2), Err(StoreError::UniqueViolation));
    assert_eq!(db.get_admins().len(), 1);
}

#[test]
fn remove_admin_is_noop_on_absent() {
    let mut db = DB::new();
    assert_eq!(db.add_admin(1, 0, None, 1), Ok(()));
    db.remove_admin(99);
    assert_eq!(admin_ids(&db), vec![1]);
    db.remove_admin(1);
    assert!(db.get_admins().is_empty());
}

#[test]
fn make_superadmin_clears_added_by() {
    let mut db = DB::new();
    assert_eq!(db.add_admin(5, 1, Some("s".to_string()), 3), Ok(()));
    db.make_superadmin(5);
    let a = db.get_admin(5).expect("admin 5 exists");
    assert_eq!(a.added_by, None);
    assert!(a.is_superadmin());
    assert_eq!(a.name, Some("s".to_string()));
    assert_eq!(a.added_at, 3);
}

#[test]
fn group_whitelist_round_trip() {
    let mut db = DB::new();
    assert!(!db.is_group_whitelisted(100));
    assert_eq!(db.add_whitelisted_group(100, 1, Some("g".to_string()), 4), Ok(()));
    assert!(db.is_group_whitelisted(100));
    assert!(!db.is_group_whitelisted(101));
    db.remove_whitelisted_group(100);
    assert!(!db.is_group_whitelisted(100));
}

#[test]
fn group_whitelist_duplicate_fails() {
    let mut db = DB::new();
    assert_eq!(db.add_whitelisted_group(100, 1, None, 4), Ok(()));
    assert_eq!(db.add_whitelisted_group(100, 2, None, 5), Err(StoreError::UniqueViolation));
    assert_eq!(db.get_whitelisted_groups().len(), 1);
}

#[test]
fn thread_whitelist_round_trip() {
    let mut db = DB::new();
    assert_eq!(db.add_whitelisted_thread(5, 100, 1, None, None, 4), Ok(()));
    assert!(db.is_thread_whitelisted(5, 100));
    assert!(!db.is_thread_whitelisted(5, 101));
    assert!(!db.is_thread_whitelisted(6, 100));
    assert_eq!(
        db.add_whitelisted_thread(5, 100, 1, None, None, 9),
        Err(StoreError::UniqueViolation)
    );
    db.remove_whitelisted_thread(5, 100);
    assert!(!db.is_thread_whitelisted(5, 100));
}

#[test]
fn threads_listing_is_per_group() {
    let mut db = DB::new();
    assert_eq!(db.add_whitelisted_thread(1, 100, 1, None, None, 1), Ok(()));
    assert_eq!(db.add_whitelisted_thread(2, 100, 1, None, None, 2), Ok(()));
    assert_eq!(db.add_whitelisted_thread(1, 200, 1, None, None, 3), Ok(()));
    let threads = db.get_whitelisted_threads(100);
    assert_eq!(threads.len(), 2);
    assert!(threads.iter().all(|t| t.group_id == 100));
    assert_eq!(db.get_whitelisted_threads(300).len(), 0);
}

#[test]
fn create_request_generates_fresh_36_char_id() {
    let mut db = DB::new();
    let id = db
        .create_become_admin_request(42, Some("bob".to_string()), 7)
        .expect("no store error")
        .expect("request created");
    assert_eq!(id.len(), 36);
    let reqs = db.get_become_admin_requests();
    assert_eq!(reqs.len(), 1);
    assert_eq!(reqs[0].request_id, id);
    assert_eq!(reqs[0].user_id, 42);
    assert_eq!(reqs[0].user_name, Some("bob".to_string()));
    assert_eq!(reqs[0].created_at, 7);
    assert!(reqs[0].pending);
    assert!(!reqs[0].accepted);
}

#[test]
fn second_live_request_is_duplicate() {
    let mut db = DB::new();
    assert!(db.create_become_admin_request(42, None, 1).unwrap().is_some());
    assert_eq!(db.create_become_admin_request(42, None, 2), Ok(None));
    assert_eq!(db.get_become_admin_requests().len(), 1);
}

#[test]
fn create_request_with_id_respects_both_keys() {
    let mut db = DB::new();
    assert_eq!(
        db.create_become_admin_request_with_id("r-1".to_string(), 42, None, 1),
        Ok(CreateRequestOutcome::Created)
    );
    // same user, different id: the user's live request wins
    assert_eq!(
        db.create_become_admin_request_with_id("r-2".to_string(), 42, None, 2),
        Ok(CreateRequestOutcome::Duplicate)
    );
    // different user, same id: the unique primary key refuses
    assert_eq!(
        db.create_become_admin_request_with_id("r-1".to_string(), 43, None, 3),
        Err(StoreError::UniqueViolation)
    );
}

#[test]
fn approve_creates_admin_and_resolves_request() {
    let mut db = DB::new();
    let id = db
        .create_become_admin_request(42, Some("bob".to_string()), 7)
        .unwrap()
        .unwrap();
    assert_eq!(db.approve_become_admin_request(&id, 1, 8), Ok(()));
    let a = db.get_admin(42).expect("approved user is admin");
    assert_eq!(a.added_by, Some(1));
    assert_eq!(a.name, Some("bob".to_string()));
    assert_eq!(a.added_at, 8);
    let reqs = db.get_become_admin_requests();
    assert_eq!(reqs.len(), 1);
    assert!(!reqs[0].pending);
    assert!(reqs[0].accepted);
}

#[test]
fn approve_nonexistent_or_resolved_is_not_found() {
    let mut db = DB::new();
    assert_eq!(
        db.approve_become_admin_request(&"nope".to_string(), 1, 8),
        Err(AuthError::NotFound)
    );
    let id = db.create_become_admin_request(42, None, 7).unwrap().unwrap();
    assert_eq!(db.approve_become_admin_request(&id, 1, 8), Ok(()));
    // already resolved: NotFound, and no admin row is inserted
    assert_eq!(db.approve_become_admin_request(&id, 9, 10), Err(AuthError::NotFound));
    let a = db.get_admin(42).expect("still the first approval");
    assert_eq!(a.added_by, Some(1));
    assert_eq!(db.get_admins().len(), 1);
}

#[test]
fn approve_when_user_already_admin_fails_atomically() {
    let mut db = DB::new();
    let id = db.create_become_admin_request(42, None, 7).unwrap().unwrap();
    assert_eq!(db.add_admin(42, 1, None, 7), Ok(()));
    assert_eq!(
        db.approve_become_admin_request(&id, 1, 8),
        Err(AuthError::Store(StoreError::UniqueViolation))
    );
    // nothing changed: the request is still live
    let reqs = db.get_become_admin_requests();
    assert!(reqs[0].pending);
    assert!(!reqs[0].accepted);
}

#[test]
fn reject_deletes_request() {
    let mut db = DB::new();
    let id = db.create_become_admin_request(42, None, 7).unwrap().unwrap();
    assert_eq!(db.reject_become_admin_request(&id), Ok(()));
    assert!(db.get_become_admin_requests().is_empty());
    assert!(db.get_admin(42).is_none());
    assert_eq!(db.reject_become_admin_request(&id), Err(AuthError::NotFound));
}

#[test]
fn resolution_frees_user_for_new_request() {
    let mut db = DB::new();
    // via rejection
    let id = db.create_become_admin_request(42, None, 1).unwrap().unwrap();
    assert_eq!(db.reject_become_admin_request(&id), Ok(()));
    let id2 = db.create_become_admin_request(42, None, 2).unwrap();
    assert!(id2.is_some());
    // via approval
    let mut db2 = DB::new();
    let id3 = db2.create_become_admin_request(7, None, 1).unwrap().unwrap();
    assert_eq!(db2.approve_become_admin_request(&id3, 1, 2), Ok(()));
    let id4 = db2.create_become_admin_request(7, None, 3).unwrap();
    assert!(id4.is_some());
}

#[test]
fn traversal_grants_subtree_and_nothing_else() {
    let mut db = DB::new();
    // A(1) root; B(2) by A; C(3) by B; D(4) an unrelated admin
    assert_eq!(db.add_admin(1, 0, None, 1), Ok(()));
    db.make_superadmin(1);
    assert_eq!(db.add_admin(2, 1, None, 2), Ok(()));
    assert_eq!(db.add_admin(3, 2, None, 3), Ok(()));
    assert_eq!(db.add_admin(4, 0, None, 4), Ok(()));
    // D may not remove C
    assert!(!db.remove_admin_with_traversal(3, 4));
    assert!(db.get_admin(3).is_some());
    // A transitively created C
    assert!(db.remove_admin_with_traversal(3, 1));
    assert!(db.get_admin(3).is_none());
    // rebuild C under B; B removes its direct child
    assert_eq!(db.add_admin(3, 2, None, 5), Ok(()));
    assert!(db.remove_admin_with_traversal(3, 2));
    assert!(db.get_admin(3).is_none());
}

#[test]
fn traversal_denies_root_and_missing_targets() {
    let mut db = DB::new();
    assert_eq!(db.add_admin(1, 0, None, 1), Ok(()));
    db.make_superadmin(1);
    assert_eq!(db.add_admin(2, 1, None, 2), Ok(()));
    // the root cannot be removed by the walk
    assert!(!db.remove_admin_with_traversal(1, 2));
    // a missing target is a denial, not an error
    assert!(!db.remove_admin_with_traversal(99, 1));
}

#[test]
fn traversal_denies_broken_chain() {
    let mut db = DB::new();
    // C(3) created by B(2), but B was removed: the chain is broken
    assert_eq!(db.add_admin(3, 2, None, 1), Ok(()));
    assert_eq!(db.add_admin(5, 3, None, 2), Ok(()));
    assert!(!db.remove_admin_with_traversal(5, 1));
    assert!(db.get_admin(5).is_some());
}

#[test]
fn traversal_terminates_on_cyclic_chain() {
    let mut db = DB::new();
    // a corrupted self-referential chain: denied, not an endless walk
    assert_eq!(db.add_admin(1, 1, None, 1), Ok(()));
    assert!(!db.remove_admin_with_traversal(1, 2));
    assert_eq!(db.add_admin(2, 3, None, 2), Ok(()));
    assert_eq!(db.add_admin(3, 2, None, 3), Ok(()));
    assert!(!db.remove_admin_with_traversal(2, 9));
}

#[test]
fn promoted_admin_denied_to_non_superadmins() {
    let mut db = DB::new();
    assert_eq!(db.add_admin(1, 9, None, 1), Ok(()));
    assert_eq!(db.add_admin(2, 1, None, 2), Ok(()));
    db.make_superadmin(2);
    // 2 is now a root: the walk from 2 hits a root at once
    assert!(!db.remove_admin_with_traversal(2, 1));
    assert!(db.get_admin(2).is_some());
}
