use colink::runtime::remote_fs::{
    filesystem_response_matches, RemoteFilesystemTransfer, RemoteFilesystemTransfers,
    REMOTE_FILESYSTEM_HISTORY_LIMIT,
};

fn request(id: &str, device: &str, at: i64) -> RemoteFilesystemTransfer {
    RemoteFilesystemTransfer {
        request_id: id.to_string(),
        device_id: device.to_string(),
        remote_path: format!("/files/{id}"),
        requested_at: at,
        session_id: None,
        error: None,
    }
}

fn ids(history: &RemoteFilesystemTransfers) -> Vec<String> {
    history.list().into_iter().map(|item| item.request_id).collect()
}

#[test]
fn requests_are_listed_newest_first() {
    let mut history = RemoteFilesystemTransfers::new();
    history.remember(request("a", "pc", 20));
    history.remember(request("b", "pc", 30));
    history.remember(request("c", "pc", 10));
    assert_eq!(ids(&history), vec!["b", "a", "c"]);
    history.remember(request("a", "phone", 40));
    assert_eq!(ids(&history), vec!["a", "b", "c"]);
    assert_eq!(history.list()[0].device_id, "phone");
}

#[test]
fn only_the_newest_requests_are_kept() {
    let mut history = RemoteFilesystemTransfers::new();
    for i in 0..(REMOTE_FILESYSTEM_HISTORY_LIMIT as i64 + 5) {
        history.remember(request(&format!("r{i}"), "pc", 1_000 - i));
    }
    let kept = history.list();
    assert_eq!(kept.len(), REMOTE_FILESYSTEM_HISTORY_LIMIT);
    assert_eq!(kept[0].request_id, "r0");
    assert_eq!(kept[REMOTE_FILESYSTEM_HISTORY_LIMIT - 1].request_id, "r99");
    history.remember(request("old", "pc", 0));
    assert_eq!(history.list().len(), REMOTE_FILESYSTEM_HISTORY_LIMIT);
    assert!(!ids(&history).contains(&"old".to_string()));
    history.remember(request("new", "pc", 5_000));
    assert_eq!(ids(&history)[0], "new");
    assert!(!ids(&history).contains(&"r99".to_string()));
}

#[test]
fn downloads_are_associated_once_with_their_device() {
    let mut history = RemoteFilesystemTransfers::new();
    history.remember(request("a", "pc", 1));
    assert!(history.is_waiting("a"));
    assert!(history.belongs_to("a", "pc"));
    assert!(!history.belongs_to("a", "phone"));
    assert!(!history.associate("phone", "a", "s1"));
    assert!(history.associate("pc", "a", "s1"));
    assert_eq!(history.list()[0].session_id.as_deref(), Some("s1"));
    assert!(!history.is_waiting("a"));
    assert!(!history.associate("pc", "a", "s2"));
    assert!(!history.associate("pc", "missing", "s2"));
}

#[test]
fn failures_are_recorded_once() {
    let mut history = RemoteFilesystemTransfers::new();
    history.remember(request("a", "pc", 1));
    assert!(history.fail("a", "denied".to_string()));
    assert!(!history.fail("a", "later".to_string()));
    assert_eq!(history.list()[0].error.as_deref(), Some("denied"));
    assert!(!history.is_waiting("a"));
    assert!(!history.associate("pc", "a", "s1"));
    assert!(!history.fail("missing", "x".to_string()));
}

#[test]
fn uploads_take_their_session_and_requests_can_be_removed() {
    let mut history = RemoteFilesystemTransfers::new();
    history.remember(request("u", "pc", 1));
    history.remember(request("v", "pc", 2));
    assert!(history.set_session("u", "s9"));
    assert!(!history.set_session("w", "s9"));
    assert_eq!(history.list()[1].session_id.as_deref(), Some("s9"));
    assert!(history.remove("v"));
    assert!(!history.remove("v"));
    assert_eq!(ids(&history), vec!["u"]);
}

#[test]
fn filesystem_answers_must_match_the_request() {
    assert!(filesystem_response_matches("pc", "fs.v1.list-result", "pc", "fs.v1.list-result"));
    assert!(filesystem_response_matches("pc", "fs.v1.list-result", "pc", "fs.v1.error"));
    assert!(!filesystem_response_matches("pc", "fs.v1.list-result", "phone", "fs.v1.list-result"));
    assert!(!filesystem_response_matches("pc", "fs.v1.list-result", "pc", "fs.v1.stat-result"));
}
