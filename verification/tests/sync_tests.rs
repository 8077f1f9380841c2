use role_sync::{BotState, Member, RoleSyncError, StoreError, SyncOutcome, complete_sync};

fn service() -> BotState {
    BotState::new("http://example.test".to_string(), "secret".to_string(), 1)
}

fn member(id: u64, roles: Vec<u64>) -> Member {
    Member { id, roles }
}

#[test]
fn new_strips_one_trailing_slash() {
    let s = BotState::new("http://example.test/".to_string(), "pw".to_string(), 9);
    assert_eq!(s.base_url, "http://example.test");
    assert_eq!(s.server_password, "pw");
    assert_eq!(s.guild_id, 9);
}

#[test]
fn new_keeps_url_without_slash() {
    let s = BotState::new("http://example.test".to_string(), "pw".to_string(), 9);
    assert_eq!(s.base_url, "http://example.test");
}

#[test]
fn sync_url_appends_endpoint() {
    let s = service();
    assert_eq!(s.sync_url(), "http://example.test/gsp/sync_roles");
}

#[test]
fn sync_roles_fails_not_linked() {
    let mut s = service();
    s.add_role(100, "A").unwrap();
    let m = member(7, vec![100]);
    let r = s.sync_roles(&m);
    assert!(matches!(r, Err(RoleSyncError::NotLinked)));
}

#[test]
fn handle_unlink_fails_not_linked() {
    let mut s = service();
    s.add_role(100, "A").unwrap();
    let m = member(7, vec![100]);
    let r = s.handle_unlink(&m);
    assert!(matches!(r, Err(RoleSyncError::NotLinked)));
    assert_eq!(s.store.links.len(), 0);
    assert_eq!(s.store.mappings.len(), 1);
}

#[test]
fn sync_roles_partitions_by_held_roles() {
    let mut s = service();
    s.add_role(100, "A").unwrap();
    s.add_role(200, "B").unwrap();
    s.add_role(300, "C").unwrap();
    s.link_account(555, 42).unwrap();
    let m = member(555, vec![100, 300]);
    let req = s.sync_roles(&m).unwrap();
    assert_eq!(req.account_id, 42);
    assert_eq!(req.keep, vec!["A".to_string(), "C".to_string()]);
    assert_eq!(req.remove, vec!["B".to_string()]);
}

#[test]
fn sync_roles_end_to_end_body() {
    let mut s = service();
    s.add_role(100, "A").unwrap();
    s.add_role(200, "B").unwrap();
    s.add_role(300, "C").unwrap();
    s.link_account(555, 42).unwrap();
    let m = member(555, vec![100, 300]);
    let req = s.sync_roles(&m).unwrap();
    let body = role_sync::encode_sync_request(&req);
    assert_eq!(
        String::from_utf8(body).unwrap(),
        "{\"account_id\":42,\"keep\":[\"A\",\"C\"],\"remove\":[\"B\"]}"
    );
}

#[test]
fn sync_roles_with_no_held_roles_removes_all() {
    let mut s = service();
    s.add_role(100, "A").unwrap();
    s.add_role(200, "B").unwrap();
    s.link_account(5, 8).unwrap();
    let m = member(5, vec![999]);
    let req = s.sync_roles(&m).unwrap();
    assert!(req.keep.is_empty());
    assert_eq!(req.remove, vec!["A".to_string(), "B".to_string()]);
}

#[test]
fn unlink_totality() {
    let mut s = service();
    s.add_role(100, "A").unwrap();
    s.add_role(200, "B").unwrap();
    s.add_role(300, "C").unwrap();
    s.link_account(555, 42).unwrap();
    let m = member(555, vec![100, 300]);
    let req = s.handle_unlink(&m).unwrap();
    assert_eq!(req.account_id, 42);
    assert!(req.keep.is_empty());
    assert_eq!(
        req.remove,
        vec!["A".to_string(), "B".to_string(), "C".to_string()]
    );
    assert_eq!(s.store.links.len(), 0);
    assert_eq!(s.store.mappings.len(), 3);
}

#[test]
fn unlink_commits_locally_even_on_remote_failure() {
    let mut s = service();
    s.add_role(100, "A").unwrap();
    s.link_account(555, 42).unwrap();
    let m = member(555, vec![100]);
    let req = s.handle_unlink(&m).unwrap();
    assert_eq!(req.account_id, 42);
    let outcome = SyncOutcome::Transport("connection refused".to_string());
    let r = complete_sync(outcome);
    assert!(matches!(r, Err(RoleSyncError::TransportFailure(_))));
    assert_eq!(s.store.links.len(), 0);
    assert!(matches!(s.sync_roles(&m), Err(RoleSyncError::NotLinked)));
    assert!(matches!(s.handle_unlink(&m), Err(RoleSyncError::NotLinked)));
}

#[test]
fn status_classification_success() {
    let r = complete_sync(SyncOutcome::Response(200, String::new()));
    assert!(r.is_ok());
    let r = complete_sync(SyncOutcome::Response(204, "ignored".to_string()));
    assert!(r.is_ok());
}

#[test]
fn status_classification_rejection() {
    let r = complete_sync(SyncOutcome::Response(500, "boom".to_string()));
    match r {
        Err(RoleSyncError::RemoteRejection(status, body)) => {
            assert_eq!(status, 500);
            assert_eq!(body, "boom");
        }
        other => panic!("expected RemoteRejection, got {:?}", other),
    }
}

#[test]
fn status_classification_transport_failure() {
    let r = complete_sync(SyncOutcome::Transport("connection refused".to_string()));
    assert!(matches!(r, Err(RoleSyncError::TransportFailure(_))));
}

#[test]
fn remove_role_is_idempotent() {
    let mut s = service();
    assert!(s.remove_role(999).is_ok());
    s.add_role(100, "A").unwrap();
    assert!(s.remove_role(100).is_ok());
    assert!(s.remove_role(100).is_ok());
    assert_eq!(s.get_all_roles().unwrap().len(), 0);
}

#[test]
fn add_role_fails_on_duplicate_remote_id() {
    let mut s = service();
    s.add_role(100, "A").unwrap();
    let r = s.add_role(100, "B");
    assert!(matches!(r, Err(StoreError::UniqueViolation)));
    assert_eq!(s.get_all_roles().unwrap().len(), 1);
}

#[test]
fn add_role_fails_on_duplicate_local_id() {
    let mut s = service();
    s.add_role(100, "A").unwrap();
    let r = s.add_role(200, "A");
    assert!(matches!(r, Err(StoreError::UniqueViolation)));
    assert_eq!(s.get_all_roles().unwrap().len(), 1);
}

#[test]
fn remove_role_by_local_id_deletes_and_is_idempotent() {
    let mut s = service();
    s.add_role(100, "A").unwrap();
    s.add_role(200, "B").unwrap();
    assert!(s.remove_role_by_local_id("A").is_ok());
    assert!(s.remove_role_by_local_id("A").is_ok());
    let rows = s.get_all_roles().unwrap();
    assert_eq!(rows.len(), 1);
    assert_eq!(rows[0].local_id, "B");
    assert_eq!(rows[0].remote_id, 200);
}

#[test]
fn link_account_fails_on_duplicate_member() {
    let mut s = service();
    s.link_account(5, 8).unwrap();
    let r = s.link_account(5, 9);
    assert!(matches!(r, Err(StoreError::UniqueViolation)));
    assert_eq!(s.store.links.len(), 1);
}

#[test]
fn partition_roles_direct() {
    let mut s = service();
    s.add_role(10, "x").unwrap();
    s.add_role(20, "y").unwrap();
    let rows = s.get_all_roles().unwrap();
    let (keep, remove) = role_sync::partition_roles(&rows, &vec![20]);
    assert_eq!(keep, vec!["y".to_string()]);
    assert_eq!(remove, vec!["x".to_string()]);
}

#[test]
fn member_holds_role_by_widened_id() {
    assert!(role_sync::member_holds_role(&vec![7, 8], 8));
    assert!(!role_sync::member_holds_role(&vec![7, 8], 9));
}

#[test]
fn error_messages() {
    assert_eq!(RoleSyncError::NotLinked.message(), "User not linked");
    assert_eq!(
        RoleSyncError::RemoteRejection(500, "boom".to_string()).message(),
        "Server returned error (code 500): boom"
    );
    assert_eq!(
        RoleSyncError::TransportFailure("timed out".to_string()).message(),
        "Error making a request to the server: timed out"
    );
    assert_eq!(
        RoleSyncError::StoreFailure(StoreError::UniqueViolation).message(),
        "Database error: unique constraint violation"
    );
    assert_eq!(RoleSyncError::InternalError.message(), "Internal error");
}
