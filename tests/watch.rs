use notefs::error::ErrorKind;
use notefs::watch::{change_tag, notifications_of, ChangeKind, Delivery, RawChange, WatchSlot, DEBOUNCE_MILLIS};

fn change(path: &str, kind: ChangeKind) -> RawChange {
    RawChange { path: path.to_string(), kind }
}

#[test]
fn new_file_yields_one_change_notification() {
    let batch = vec![change("/notes/a.md", ChangeKind::Any)];
    let ns = notifications_of(&batch);
    assert_eq!(ns.len(), 1);
    assert_eq!(ns[0].path, "/notes/a.md");
    assert_eq!(ns[0].kind, "change");
}

#[test]
fn every_kind_is_a_change() {
    assert_eq!(change_tag(ChangeKind::Any), "change");
    assert_eq!(change_tag(ChangeKind::AnyContinuous), "change");
    let batch = vec![change("/w/x", ChangeKind::AnyContinuous), change("/w/y", ChangeKind::Any)];
    let ns = notifications_of(&batch);
    let paths: Vec<&str> = ns.iter().map(|n| n.path.as_str()).collect();
    assert_eq!(paths, vec!["/w/x", "/w/y"]);
    assert!(ns.iter().all(|n| n.kind == "change"));
}

#[test]
fn debounce_window_is_half_a_second() {
    assert_eq!(DEBOUNCE_MILLIS, 500);
}

#[test]
fn watcher_failure_is_reported_not_published() {
    let mut slot: WatchSlot<u32> = WatchSlot::new();
    let id = slot.watch("/n".to_string(), true, |_| Ok(1)).unwrap();
    match slot.route(id, Err("boom".to_string())) {
        Delivery::Report(m) => assert_eq!(m, "boom"),
        Delivery::Publish(_) => panic!("a failure must not be published"),
    }
    assert_eq!(slot.watched_path(), Some("/n".to_string()));
    match slot.route(id, Ok(vec![change("/n/a.md", ChangeKind::Any)])) {
        Delivery::Publish(ns) => {
            assert_eq!(ns.len(), 1);
            assert_eq!(ns[0].path, "/n/a.md");
            assert_eq!(ns[0].kind, "change");
        }
        Delivery::Report(_) => panic!("a batch must be published"),
    }
    match slot.route(id + 1, Ok(vec![change("/n/a.md", ChangeKind::Any)])) {
        Delivery::Publish(ns) => assert!(ns.is_empty()),
        Delivery::Report(_) => panic!("a batch must be published"),
    }
}

#[test]
fn watching_a_non_directory_is_refused_and_keeps_session() {
    let mut slot: WatchSlot<u32> = WatchSlot::new();
    assert_eq!(slot.watch("/notes".to_string(), true, |_| Ok(7)).unwrap(), 0);
    let err = slot.watch("/missing".to_string(), false, |_| Ok(8)).unwrap_err();
    assert_eq!(err.kind, ErrorKind::InvalidPath);
    assert_eq!(err.message, "Invalid directory path");
    assert_eq!(slot.watched_path(), Some("/notes".to_string()));
    assert_eq!(slot.forward(0, &vec![change("/notes/a.md", ChangeKind::Any)]).len(), 1);
}

#[test]
fn active_session_forwards_its_batches() {
    let mut slot: WatchSlot<u32> = WatchSlot::new();
    let id = slot.watch("/notes".to_string(), true, |_| Ok(1)).unwrap();
    let ns = slot.forward(id, &vec![change("/notes/a.md", ChangeKind::Any)]);
    assert_eq!(ns.len(), 1);
    assert_eq!(ns[0].path, "/notes/a.md");
    assert_eq!(ns[0].kind, "change");
}

#[test]
fn rewatch_silences_the_earlier_session() {
    let mut slot: WatchSlot<u32> = WatchSlot::new();
    let first = slot.watch("/d1".to_string(), true, |_| Ok(1)).unwrap();
    let second = slot.watch("/d2".to_string(), true, |_| Ok(2)).unwrap();
    assert_ne!(first, second);
    assert!(slot.forward(first, &vec![change("/d1/a.md", ChangeKind::Any)]).is_empty());
    assert_eq!(slot.forward(second, &vec![change("/d2/b.md", ChangeKind::Any)]).len(), 1);
    assert_eq!(slot.watched_path(), Some("/d2".to_string()));
}

#[test]
fn unwatch_silences_every_session() {
    let mut slot: WatchSlot<u32> = WatchSlot::new();
    let id = slot.watch("/notes".to_string(), true, |_| Ok(1)).unwrap();
    slot.unwatch();
    assert!(slot.forward(id, &vec![change("/notes/a.md", ChangeKind::Any)]).is_empty());
    assert_eq!(slot.watched_path(), None);
    slot.unwatch();
    assert_eq!(slot.watched_path(), None);
}

#[test]
fn failed_start_leaves_slot_idle() {
    let mut slot: WatchSlot<u32> = WatchSlot::new();
    let first = slot.watch("/d1".to_string(), true, |_| Ok(1)).unwrap();
    let err = slot
        .watch("/d2".to_string(), true, |_| Err("Failed to watch directory: denied".to_string()))
        .unwrap_err();
    assert_eq!(err.kind, ErrorKind::WatcherInitFailure);
    assert_eq!(err.message, "Failed to watch directory: denied");
    assert_eq!(slot.watched_path(), None);
    assert!(slot.forward(first, &vec![change("/d1/a.md", ChangeKind::Any)]).is_empty());
    assert!(slot.can_start());
}

#[test]
fn start_receives_the_new_session_number() {
    let mut slot: WatchSlot<u64> = WatchSlot::new();
    slot.watch("/a".to_string(), true, |n| Ok(n)).unwrap();
    let mut seen = 0;
    let id = slot
        .watch("/b".to_string(), true, |n| {
            seen = n;
            Ok(n)
        })
        .unwrap();
    assert_eq!(seen, 1);
    assert_eq!(id, 1);
}

#[test]
fn start_outcome_decides_the_result() {
    let mut slot: WatchSlot<u32> = WatchSlot::new();
    let id = slot.watch("/ok".to_string(), true, |_| Ok(9)).unwrap();
    assert_eq!(id, 0);
    assert_eq!(slot.watched_path(), Some("/ok".to_string()));
    let err = slot
        .watch("/bad".to_string(), true, |_| Err("Failed to create watcher: no inotify".to_string()))
        .unwrap_err();
    assert_eq!(err.kind, ErrorKind::WatcherInitFailure);
    assert_eq!(err.message, "Failed to create watcher: no inotify");
    assert_eq!(slot.watched_path(), None);
    assert!(slot.forward(id, &vec![change("/ok/a.md", ChangeKind::Any)]).is_empty());
}
