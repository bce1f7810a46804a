use hibernation::narinfo::cache_lookup_name;
use hibernation::session::SessionTable;

const SEC: u128 = 1_000_000_000;

#[test]
fn session_is_used_once() {
    let mut t: SessionTable<&str> = SessionTable::new();
    t.open(1, "a", 0);
    assert_eq!(t.take(1), Some(("a", 0)));
    assert_eq!(t.take(1), None);
    assert_eq!(t.take(2), None);
}

#[test]
fn reopening_replaces_session() {
    let mut t: SessionTable<u32> = SessionTable::new();
    t.open(7, 1, 5);
    t.open(8, 2, 6);
    t.open(7, 3, 9);
    assert_eq!(t.take(7), Some((3, 9)));
    assert_eq!(t.take(7), None);
    assert_eq!(t.take(8), Some((2, 6)));
}

#[test]
fn sweep_drops_old_sessions_only() {
    let mut t: SessionTable<u32> = SessionTable::new();
    t.open(1, 10, 0);
    t.open(2, 20, 100 * SEC);
    t.open(3, 30, 301 * SEC);
    t.open(4, 40, 500 * SEC);
    // At 400 s with a 300 s lifetime: 1 (400 s old) and 2 (exactly 300 s)
    // are gone; 3 and 4 stay, 4 even though it lies in the future.
    t.sweep(400 * SEC, 300);
    assert_eq!(t.take(1), None);
    assert_eq!(t.take(2), None);
    assert_eq!(t.take(3), Some((30, 301 * SEC)));
    assert_eq!(t.take(4), Some((40, 500 * SEC)));
}

#[test]
fn cache_names_ignore_case() {
    assert_eq!(cache_lookup_name("MyCache"), "mycache");
    assert_eq!(cache_lookup_name("already-lower"), "already-lower");
    assert_eq!(cache_lookup_name("ÄB"), "äb");
}
