use gamemode_tray::channel::SnapshotQueue;
use gamemode_tray::controller::Controller;
use gamemode_tray::controller::render;

#[test]
fn initial_state_is_off() {
    let c = Controller::new();
    assert!(!c.state.game_mode_on);
    assert_eq!(c.state.tooltip, "Game Mode Off");
}

#[test]
fn renders_on_with_joined_names() {
    let st = render(&vec!["A".to_string(), "B".to_string()]);
    assert!(st.game_mode_on);
    assert_eq!(st.tooltip, "Game Mode On:\nA\nB");
}

#[test]
fn renders_single_name_without_trailing_newline() {
    let st = render(&vec!["Doom".to_string()]);
    assert!(st.game_mode_on);
    assert_eq!(st.tooltip, "Game Mode On:\nDoom");
}

#[test]
fn renders_off_for_empty_snapshot() {
    let st = render(&Vec::new());
    assert!(!st.game_mode_on);
    assert_eq!(st.tooltip, "Game Mode Off");
}

#[test]
fn apply_none_keeps_the_state() {
    let mut c = Controller::new();
    c.apply(Some(vec!["A".to_string()]));
    assert!(c.state.game_mode_on);
    c.apply(None);
    assert!(c.state.game_mode_on);
    assert_eq!(c.state.tooltip, "Game Mode On:\nA");
}

#[test]
fn tick_on_empty_queue_changes_nothing() {
    let mut c = Controller::new();
    let mut q = SnapshotQueue::new();
    c.tick(&mut q);
    assert!(!c.state.game_mode_on);
    assert_eq!(c.state.tooltip, "Game Mode Off");
    assert_eq!(q.len(), 0);
}

#[test]
fn tick_drains_at_most_one_snapshot() {
    let mut c = Controller::new();
    let mut q = SnapshotQueue::new();
    q.send(vec!["A".to_string()]);
    q.send(Vec::new());
    c.tick(&mut q);
    assert!(c.state.game_mode_on);
    assert_eq!(c.state.tooltip, "Game Mode On:\nA");
    assert_eq!(q.len(), 1);
    c.tick(&mut q);
    assert!(!c.state.game_mode_on);
    assert_eq!(c.state.tooltip, "Game Mode Off");
    assert_eq!(q.len(), 0);
}
