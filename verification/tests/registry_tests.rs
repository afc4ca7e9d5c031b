use gamemode_tray::registry::Registry;

#[test]
fn empty_registry_has_no_names() {
    let r = Registry::new();
    assert_eq!(r.len(), 0);
    assert!(r.current_names().is_empty());
}

#[test]
fn register_records_the_name() {
    let mut r = Registry::new();
    r.insert_or_replace(100, "Doom".to_string());
    assert_eq!(r.len(), 1);
    assert_eq!(r.current_names(), vec!["Doom".to_string()]);
}

#[test]
fn reregister_replaces_only_the_name() {
    let mut r = Registry::new();
    r.insert_or_replace(100, "Doom".to_string());
    r.insert_or_replace(200, "Quake".to_string());
    r.insert_or_replace(100, "Doom Eternal".to_string());
    assert_eq!(r.len(), 2);
    assert_eq!(
        r.current_names(),
        vec!["Doom Eternal".to_string(), "Quake".to_string()]
    );
}

#[test]
fn unregister_absent_is_a_no_op() {
    let mut r = Registry::new();
    r.insert_or_replace(100, "Doom".to_string());
    r.remove(200);
    assert_eq!(r.len(), 1);
    assert_eq!(r.current_names(), vec!["Doom".to_string()]);
}

#[test]
fn unregister_on_empty_is_a_no_op() {
    let mut r = Registry::new();
    r.remove(5);
    assert_eq!(r.len(), 0);
    assert!(r.current_names().is_empty());
}

#[test]
fn unregister_drops_exactly_that_game() {
    let mut r = Registry::new();
    r.insert_or_replace(100, "Doom".to_string());
    r.insert_or_replace(200, "Quake".to_string());
    r.remove(100);
    assert_eq!(r.len(), 1);
    assert_eq!(r.current_names(), vec!["Quake".to_string()]);
}

#[test]
fn replay_keeps_unmatched_registers_with_last_name() {
    // Register/unregister replay: only identifiers whose last event is a
    // registration survive, and the last registration per id decides the
    // name.
    let mut r = Registry::new();
    r.insert_or_replace(1, "A".to_string());
    r.insert_or_replace(2, "B".to_string());
    r.remove(1);
    r.insert_or_replace(3, "C".to_string());
    r.remove(9);
    r.insert_or_replace(2, "B2".to_string());
    assert_eq!(
        r.current_names(),
        vec!["B2".to_string(), "C".to_string()]
    );
}
