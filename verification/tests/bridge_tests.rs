use gamemode_tray::bridge::Bridge;
use gamemode_tray::controller::Controller;
use gamemode_tray::events::Event;

#[test]
fn one_snapshot_per_event_in_event_order() {
    // Three state-changing events produce exactly three snapshots, in the
    // order of their triggering events.
    let mut b = Bridge::new();
    let events = vec![
        Event::Registered {
            pid: 1,
            name: "A".to_string(),
        },
        Event::Registered {
            pid: 2,
            name: "B".to_string(),
        },
        Event::Unregistered { pid: 1 },
    ];
    b.process_events(&events);
    assert_eq!(b.queue.len(), 3);
    assert_eq!(b.queue.try_recv(), Some(vec!["A".to_string()]));
    assert_eq!(
        b.queue.try_recv(),
        Some(vec!["A".to_string(), "B".to_string()])
    );
    assert_eq!(b.queue.try_recv(), Some(vec!["B".to_string()]));
    assert_eq!(b.queue.try_recv(), None);
}

#[test]
fn unregistering_absent_still_publishes_a_snapshot() {
    let mut b = Bridge::new();
    b.on_game_unregistered(7);
    assert_eq!(b.queue.len(), 1);
    assert_eq!(b.queue.try_recv(), Some(Vec::new()));
}

#[test]
fn registration_with_resolution_publishes_one_snapshot() {
    // Process identifiers this large do not occur on the host, so name
    // resolution falls back to the placeholder; exactly one snapshot of the
    // updated names is queued either way.
    let mut b = Bridge::new();
    b.on_registered(3_999_999_999);
    assert_eq!(b.queue.len(), 1);
    assert_eq!(b.queue.try_recv(), Some(vec!["Unknown".to_string()]));
}

#[test]
fn scenario_register_register_unregister_unregister() {
    // register(100, "Doom") -> on "Game Mode On:\nDoom";
    // register(200, "Quake") -> on "Game Mode On:\nDoom\nQuake";
    // unregister(100) -> on "Game Mode On:\nQuake";
    // unregister(200) -> off "Game Mode Off".
    let mut b = Bridge::new();
    let mut c = Controller::new();
    assert!(!c.state.game_mode_on);
    assert_eq!(c.state.tooltip, "Game Mode Off");

    b.on_game_registered(100, "Doom".to_string());
    c.tick(&mut b.queue);
    assert!(c.state.game_mode_on);
    assert_eq!(c.state.tooltip, "Game Mode On:\nDoom");

    b.on_game_registered(200, "Quake".to_string());
    c.tick(&mut b.queue);
    assert!(c.state.game_mode_on);
    assert_eq!(c.state.tooltip, "Game Mode On:\nDoom\nQuake");

    b.on_game_unregistered(100);
    c.tick(&mut b.queue);
    assert!(c.state.game_mode_on);
    assert_eq!(c.state.tooltip, "Game Mode On:\nQuake");

    b.on_game_unregistered(200);
    c.tick(&mut b.queue);
    assert!(!c.state.game_mode_on);
    assert_eq!(c.state.tooltip, "Game Mode Off");
}
