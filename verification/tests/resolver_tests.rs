use gamemode_tray::resolver::display_name;
use gamemode_tray::resolver::resolve;

#[test]
fn found_name_passes_through() {
    assert_eq!(display_name(Some("Doom".to_string())), "Doom");
}

#[test]
fn miss_becomes_the_placeholder() {
    assert_eq!(display_name(None), "Unknown");
}

#[test]
fn resolving_a_nonexistent_pid_falls_back() {
    // Process identifiers this large do not occur on the host, so the
    // process-table lookup misses and the placeholder comes back.
    assert_eq!(resolve(3_999_999_999), "Unknown");
    assert_eq!(resolve(u64::MAX), "Unknown");
}
