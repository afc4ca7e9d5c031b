use gamemode_tray::channel::SnapshotQueue;

#[test]
fn receive_on_empty_returns_nothing() {
    let mut q = SnapshotQueue::new();
    assert_eq!(q.len(), 0);
    assert_eq!(q.try_recv(), None);
    assert_eq!(q.len(), 0);
}

#[test]
fn snapshots_come_out_first_in_first_out() {
    let mut q = SnapshotQueue::new();
    q.send(vec!["A".to_string()]);
    q.send(vec!["A".to_string(), "B".to_string()]);
    q.send(Vec::new());
    assert_eq!(q.len(), 3);
    assert_eq!(q.try_recv(), Some(vec!["A".to_string()]));
    assert_eq!(
        q.try_recv(),
        Some(vec!["A".to_string(), "B".to_string()])
    );
    assert_eq!(q.try_recv(), Some(Vec::new()));
    assert_eq!(q.try_recv(), None);
}
