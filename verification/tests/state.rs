use tacoshell::state::{
    check_pin, hash_pin, hash_pin_with, hex, join, pin_ok, Saved, Store, WindowMemory, WindowSize, WINDOW_SETTLE_NANOS,
};

fn size(w: f32, h: f32) -> WindowSize {
    WindowSize { width_bits: w.to_bits(), height_bits: h.to_bits() }
}

fn ms(n: u64) -> u64 {
    n * 1_000_000
}

fn same(a: Option<WindowSize>, b: Option<WindowSize>) -> bool {
    match (a, b) {
        (Some(a), Some(b)) => a.width_bits == b.width_bits && a.height_bits == b.height_bits,
        (None, None) => true,
        _ => false,
    }
}

#[test]
fn pins() {
    assert!(pin_ok("1234") && pin_ok("1234567890123456"));
    assert!(!pin_ok("123") && !pin_ok("12345678901234567") && !pin_ok("12a4"));
    let stored = hash_pin("1234");
    assert!(check_pin(&stored, "1234"));
    assert!(!check_pin(&stored, "4321"));
    assert!(!stored.contains("1234$"), "salt missing");
    assert_ne!(hash_pin("1234"), stored, "same salt twice");
}

#[test]
fn pin_records() {
    let stored = hash_pin_with(&[0, 255, 16], "1234");
    assert!(stored.starts_with("00ff10$"));
    assert_eq!(stored.len(), 6 + 1 + 64);
    assert!(check_pin(&stored, "1234"));
    assert!(!check_pin("no dollar", "1234"));
    assert_eq!(hex(&[0xde, 0xad, 0x01]), "dead01");
    assert!(!pin_ok("١٢٣٤"));
}

#[test]
fn saved_for_disk() {
    let s = Saved {
        server: "host".to_string(),
        username: "taco".to_string(),
        login_shell: true,
        remember_server: false,
        remember_username: true,
        kiosk_pin: Some("ab$cd".to_string()),
    };
    let d = s.for_disk();
    assert_eq!(d.server, "");
    assert_eq!(d.username, "taco");
    assert!(d.login_shell && !d.remember_server && d.remember_username);
    assert_eq!(d.kiosk_pin.as_deref(), Some("ab$cd"));
    let again = d.for_disk();
    assert_eq!((again.server, again.username), (d.server.clone(), d.username.clone()));
    let fresh = Saved::default();
    assert!(fresh.remember_server && fresh.remember_username && !fresh.login_shell && fresh.kiosk_pin.is_none());
}

#[test]
fn store_paths() {
    assert_eq!(join("/home/t/.config", "x"), "/home/t/.config/x");
    assert_eq!(join("/home/t/.config/", "x"), "/home/t/.config/x");
    assert_eq!(join("", "x"), "x");
    let s = Store::new("ch.taco", Some("/cfg".to_string()), Some("/data".to_string()));
    assert_eq!(s.known_hosts().as_deref(), Some("/cfg/ch.taco/known_hosts"));
    assert_eq!(s.credentials().as_deref(), Some("/cfg/ch.taco/credentials"));
    assert_eq!(s.setup_file().as_deref(), Some("/cfg/ch.taco/setup.toml"));
    assert_eq!(s.window_file().as_deref(), Some("/cfg/ch.taco/window.toml"));
    let s = Store::new("ch.taco", None, Some("/data".to_string()));
    assert_eq!(s.known_hosts().as_deref(), Some("/data/ch.taco/known_hosts"));
    let s = Store::new("ch.taco", None, None);
    assert_eq!(s.known_hosts(), None);
}

#[test]
fn window_size_settles() {
    let mut memory = WindowMemory::new();
    let (start, dragged, done) = (size(800.0, 600.0), size(900.0, 650.0), size(1000.0, 700.0));
    let mut written: Option<WindowSize> = None;

    // the size it started at doesnt get written
    let r = memory.seen(Some(start), ms(0));
    assert!(r.wait.is_none() && r.write.is_none());
    let r = memory.seen(Some(start), ms(2000));
    assert!(r.wait.is_none() && r.write.is_none());

    // mid drag nothing is written, it waits for the window to sit still
    let r = memory.seen(Some(dragged), ms(2000));
    assert_eq!(r.wait, Some(WINDOW_SETTLE_NANOS));
    assert!(memory.seen(Some(done), ms(2100)).wait.is_some());
    let r = memory.seen(Some(done), ms(2400));
    assert!(r.wait.is_some() && r.write.is_none());
    let r = memory.seen(Some(done), ms(2600));
    assert!(r.wait.is_none());
    if r.write.is_some() {
        written = r.write;
    }
    assert!(same(written, Some(done)));

    // fullscreen and co dont count, and quitting keeps what hadnt settled yet
    assert!(memory.seen(None, ms(3000)).wait.is_none());
    assert!(memory.seen(Some(start), ms(3000)).wait.is_some());
    assert!(memory.seen(None, ms(4000)).wait.is_none());
    if let Some(w) = memory.flush() {
        written = Some(w);
    }
    assert!(same(written, Some(start)));

    // resized and put back before it settled: nothing to write
    assert!(memory.seen(Some(done), ms(5000)).wait.is_some());
    assert!(memory.seen(Some(start), ms(5100)).wait.is_none());
    assert!(memory.flush().is_none());
}

#[test]
fn window_sizes_compare_as_floats() {
    let mut memory = WindowMemory::new();
    memory.seen(Some(size(0.0, 1.0)), 0);
    // -0.0 == 0.0, so this is the same size
    assert!(memory.seen(Some(size(-0.0, 1.0)), 10).wait.is_none());
    // a NaN is never the same size
    assert!(memory.seen(Some(size(f32::NAN, 1.0)), 10).wait.is_some());
}
