use tacoshell::schema::{Credentials, DEFAULT_BINARY_WARNING, Config, App, Terminal, Login, Menu, MenuTrigger, Kiosk as KioskConfig, Text, Packaging, Ssh, ShellToggle, Local, LocalOnExit, SshOnExit, KeyboardMode, OskKey};
use tacoshell::session::{End, KeyChange};
use tacoshell::state::{hash_pin_with, Saved};
use tacoshell::ui::kiosk::{label, width_quarters, Kiosk, Press};
use tacoshell::ui::login::{Field, Form, Look};
use tacoshell::ui::{
    clip_pin, login_error, login_key, login_record, menu_items, paste_bytes, pin_accepted, pin_key, pin_pad_typed,
    remote_command, server_of, setup_complete, ssh_ended, local_ended, status_card, typed_bytes, CardAction, CardState,
    Edit, MenuItem, Next, ScreenKind, startup_banners, unsafe_store_warned,
};

fn config(ssh: Option<Ssh>) -> Config {
    Config {
        app: App {
            name: "x".to_string(),
            id: "ch.x".to_string(),
            binary: "x".to_string(),
            version: None,
            description: String::new(),
            icon: None,
        },
        terminal: Terminal::default(),
        local: None,
        ssh,
        login: Login::default(),
        menu: Menu { open_on: MenuTrigger::RightClick },
        kiosk: KioskConfig::default(),
        text: Text::default(),
        packaging: Packaging::default(),
    }
}

fn saved(server: &str, username: &str) -> Saved {
    Saved {
        server: server.to_string(),
        username: username.to_string(),
        login_shell: true,
        remember_server: true,
        remember_username: false,
        kiosk_pin: None,
    }
}

fn card_state<'a>(screen: ScreenKind) -> CardState<'a> {
    CardState {
        screen,
        trying: false,
        retry_button: true,
        logout_button: true,
        changed_key_accept: true,
        has_saved: true,
        server: "host",
        change: None,
        new_key: "SHA256:new",
        first: false,
        key_error: None,
        accept_pending: false,
        secs: "4",
        failed: "it broke",
    }
}

#[test]
fn menus() {
    assert_eq!(menu_items(true, true, ScreenKind::Running), vec![MenuItem::Restart]);
    assert_eq!(menu_items(false, true, ScreenKind::Running), vec![MenuItem::Reinitialize, MenuItem::Logout]);
    assert_eq!(menu_items(false, true, ScreenKind::Login), vec![MenuItem::Logout, MenuItem::Exit]);
    assert_eq!(menu_items(false, false, ScreenKind::LoggingIn), vec![MenuItem::Exit]);
    assert_eq!(menu_items(false, false, ScreenKind::Running), vec![]);
}

#[test]
fn status_cards() {
    let t = Text::default();
    assert!(status_card(&t, &card_state(ScreenKind::Running)).is_none());
    assert!(status_card(&t, &card_state(ScreenKind::Login)).is_none());

    let c = status_card(&t, &card_state(ScreenKind::Connecting)).unwrap();
    assert_eq!(c.title, t.connecting.replace("{server}", "host"));
    assert!(c.spinner && !c.danger);
    assert_eq!(c.buttons.iter().map(|b| b.0).collect::<Vec<_>>(), vec![CardAction::Logout]);

    let c = status_card(&t, &card_state(ScreenKind::Lost)).unwrap();
    assert_eq!(c.body, t.lost_body.replace("{secs}", "4"));
    assert!(!c.spinner);
    assert_eq!(c.buttons.iter().map(|b| b.0).collect::<Vec<_>>(), vec![CardAction::RetryNow, CardAction::Logout]);

    let trying = CardState { trying: true, ..card_state(ScreenKind::Interrupted) };
    let c = status_card(&t, &trying).unwrap();
    assert!(c.spinner);
    assert_eq!(c.buttons.iter().map(|b| b.0).collect::<Vec<_>>(), vec![CardAction::Logout]);

    let c = status_card(&t, &card_state(ScreenKind::Failed)).unwrap();
    assert_eq!(c.body, "it broke");
    assert_eq!(c.buttons.iter().map(|b| b.0).collect::<Vec<_>>(), vec![CardAction::RetryLocal, CardAction::Exit]);
}

#[test]
fn changed_key_cards() {
    let t = Text::default();
    let change = KeyChange {
        file: "/k".to_string(),
        line: 12,
        old: "SHA256:old".to_string(),
        new: "SHA256:new".to_string(),
        new_key: "ssh-ed25519 AAAA".to_string(),
    };
    let s = CardState { change: Some(&change), first: true, accept_pending: true, ..card_state(ScreenKind::KeyChanged) };
    let c = status_card(&t, &s).unwrap();
    assert!(c.danger && c.body_mono);
    let body = t
        .key_changed_body
        .replace("{server}", "host")
        .replace("{old}", "SHA256:old")
        .replace("{new}", "SHA256:new")
        .replace("{line}", "12")
        .replace("{file}", "/k");
    assert_eq!(c.body, body);
    assert_eq!(c.note, Some(t.accept_key_in.replace("{secs}", "4")));
    assert_eq!(
        c.buttons.iter().map(|b| b.0).collect::<Vec<_>>(),
        vec![CardAction::AcceptKey, CardAction::RetryNow, CardAction::Back]
    );
    let pinned = CardState { key_error: Some("cant write"), ..card_state(ScreenKind::KeyChanged) };
    let c = status_card(&t, &pinned).unwrap();
    assert_eq!(c.body, t.key_mismatch_body.replace("{server}", "host").replace("{new}", "SHA256:new"));
    assert_eq!(c.note.as_deref(), Some("cant write"));
    assert_eq!(c.buttons.iter().map(|b| b.0).collect::<Vec<_>>(), vec![CardAction::RetryNow, CardAction::Logout]);
}

fn view(n: &Next) -> String {
    match n {
        Next::Close => "close".into(),
        Next::StartLocal => "start".into(),
        Next::Failed(s) => format!("failed {s}"),
        Next::Reconnect => "reconnect".into(),
        Next::BackToLogin(e) => format!("login {e:?}"),
        Next::ForgetAndLogin(e) => format!("forget {e}"),
        Next::KeyChanged(c, n) => format!("key {} {n}", c.is_some()),
        Next::Interrupted => "interrupted".into(),
        Next::Lost => "lost".into(),
    }
}

#[test]
fn after_a_session() {
    let t = Text::default();
    let local = Local { program: "htop".into(), args: vec![], on_exit: LocalOnExit::Restart, depends: vec![] };
    assert_eq!(view(&local_ended(&t, &local, End::Exited)), "start");
    assert_eq!(view(&local_ended(&t, &local, End::NotFound)), format!("failed {}", t.program_missing.replace("{program}", "htop")));
    let e = local_ended(&t, &local, End::Failed("no pty".into()));
    assert_eq!(view(&e), format!("failed {}", t.start_failed.replace("{program}", "htop").replace("{error}", "no pty")));

    assert_eq!(view(&ssh_ended(&t, SshOnExit::Reinitialize, false, "h", End::Exited)), "reconnect");
    assert_eq!(view(&ssh_ended(&t, SshOnExit::Close, false, "h", End::Exited)), "close");
    assert_eq!(view(&ssh_ended(&t, SshOnExit::Login, false, "h", End::Exited)), "login None");
    assert_eq!(view(&ssh_ended(&t, SshOnExit::Close, false, "h", End::AuthFailed)), format!("forget {}", t.auth_failed));
    assert_eq!(view(&ssh_ended(&t, SshOnExit::Close, false, "h", End::Unreachable("x".into()))), "interrupted");
    assert_eq!(view(&ssh_ended(&t, SshOnExit::Close, false, "h", End::Lost)), "lost");
    assert_eq!(view(&ssh_ended(&t, SshOnExit::Close, false, "h", End::NotFound)), "lost");
    let first = ssh_ended(&t, SshOnExit::Close, true, "h", End::Unreachable("refused".into()));
    assert_eq!(view(&first), format!("login {:?}", Some(t.unreachable.replace("{server}", "h").replace("{error}", "refused"))));
    let first = ssh_ended(&t, SshOnExit::Close, true, "h", End::Exited);
    assert_eq!(view(&first), format!("login {:?}", Some(t.failed.replace("{error}", "the server closed the connection"))));
    let m = ssh_ended(&t, SshOnExit::Close, false, "h", End::HostKeyMismatch { new: "SHA256:x".into() });
    assert_eq!(view(&m), "key false SHA256:x");
}

#[test]
fn logins() {
    let t = Text::default();
    let preset = Some(Ssh { server: Some("fixed".into()), ..Ssh::default() });
    let open = Some(Ssh::default());
    assert_eq!(server_of(&preset, " typed "), "fixed");
    assert_eq!(server_of(&open, " typed "), "typed");
    assert!(setup_complete(&open, &Some(saved("host", "taco"))));
    assert!(!setup_complete(&open, &Some(saved("", "taco"))));
    assert!(setup_complete(&preset, &Some(saved("", "taco"))));
    assert!(!setup_complete(&open, &None));

    assert_eq!(login_error(&t, "", "taco", false, ""), Some(t.missing_server.clone()));
    assert_eq!(login_error(&t, "h", "  ", false, ""), Some(t.missing_username.clone()));
    assert_eq!(login_error(&t, "h", "taco", true, "12"), Some(t.bad_pin.clone()));
    assert_eq!(login_error(&t, "h", "taco", true, ""), None);
    assert_eq!(login_error(&t, "h", "taco", false, "12"), None);

    let toggled = Ssh {
        command: Some("app".into()),
        shell_toggle: Some(ShellToggle { label: "shell".into(), default: false }),
        ..Ssh::default()
    };
    assert_eq!(remote_command(&toggled, true), None);
    assert_eq!(remote_command(&toggled, false), Some("app".to_string()));

    let (s, keep) = login_record(true, "fixed", " taco ", false, false, true, None);
    assert_eq!((s.server.as_str(), s.username.as_str()), ("", "taco"));
    assert!(keep);
    let (s, keep) = login_record(false, "host", "taco", true, false, true, Some("p".into()));
    assert_eq!(s.server, "host");
    assert_eq!(s.kiosk_pin.as_deref(), Some("p"));
    assert!(!keep);
}

#[test]
fn login_forms() {
    let open = config(Some(Ssh::default()));
    let f = Form::new(&open, None);
    assert_eq!(f.focus, Field::Server);
    assert!(f.remember_server && f.remember_username && f.login_shell && f.refocus && f.error.is_none());
    let s = saved("host", "");
    let f = Form::new(&open, Some(&s));
    assert_eq!(f.focus, Field::Username);
    assert_eq!(f.server, "host");
    assert!(f.login_shell && !f.remember_username);
    let s = saved("host", "taco");
    assert_eq!(Form::new(&open, Some(&s)).focus, Field::Password);

    let look = Look { cfg: &open, busy: None, locked: false, show_pin: true, warning: None };
    assert!(look.show_server());
    assert_eq!(look.fields(), vec![Field::Server, Field::Username, Field::Password, Field::Pin]);
    let locked = Look { cfg: &open, busy: None, locked: true, show_pin: false, warning: None };
    assert_eq!(locked.fields(), vec![Field::Password]);
}

#[test]
fn keyboard_on_the_form() {
    let fields = vec![Field::Username, Field::Password];
    let (f, e) = login_key(&fields, Field::Server, &Press::Text("a".into()));
    assert_eq!(f, Field::Username);
    assert!(matches!(e, Edit::Append(s) if s == "a"));
    let (f, e) = login_key(&fields, Field::Password, &Press::Special("tab".into()));
    assert_eq!(f, Field::Username);
    assert!(matches!(e, Edit::Nothing));
    let (_, e) = login_key(&fields, Field::Password, &Press::Special("bksp".into()));
    assert!(matches!(e, Edit::Pop));
    let (_, e) = login_key(&fields, Field::Password, &Press::Special("enter".into()));
    assert!(matches!(e, Edit::Submit));
    let (_, e) = login_key(&fields, Field::Password, &Press::Special("space".into()));
    assert!(matches!(e, Edit::Append(s) if s == " "));
}

#[test]
fn pin_entry() {
    let mut pin = String::new();
    pin_key(&mut pin, &Press::Text("12".into()));
    pin_key(&mut pin, &Press::Text("a".into()));
    pin_key(&mut pin, &Press::Ctrl('c'));
    assert_eq!(pin, "12");
    pin_key(&mut pin, &Press::Special("bksp".into()));
    assert_eq!(pin, "1");
    pin_pad_typed(&mut pin, "2x34567890123456789");
    clip_pin(&mut pin);
    assert_eq!(pin, "1234567890123456");
    let stored = hash_pin_with(&[7; 16], "1234");
    assert!(pin_accepted(&Some(stored.clone()), "1234"));
    assert!(!pin_accepted(&Some(stored), "12345"));
    assert!(pin_accepted(&None, "anything"));
}

#[test]
fn typed_and_pasted() {
    assert_eq!(typed_bytes("a\u{7}b\u{85}ü"), "abü".as_bytes().to_vec());
    assert_eq!(paste_bytes("one\ntwo\r\n"), b"one\rtwo\r\r".to_vec());
}

#[test]
fn on_screen_keyboard() {
    let mut cfg = KioskConfig::default();
    cfg.keyboard = vec!["a {shift} {ctrl}".to_string(), "{nope}".to_string(), "{f5} {tab}".to_string()];
    cfg.keyboard_shift = vec!["A {shift} {ctrl}".to_string()];
    cfg.keyboard_mode = KeyboardMode::Overlay;
    let mut k = Kiosk::new(&cfg);
    assert_eq!(k.rows.len(), 2);
    assert_eq!(k.shifted.len(), 1);
    assert!(!k.keyboard_open);
    k.toggle_keyboard();
    assert!(k.keyboard_open);

    let shift = OskKey::Special("shift".into());
    let ctrl = OskKey::Special("ctrl".into());
    assert!(k.press(&shift).is_none());
    assert!(k.is_on(&shift));
    assert_eq!(k.current_rows().len(), 1);
    match k.press(&OskKey::Char("A".into())) {
        Some(Press::Text(s)) => assert_eq!(s, "A"),
        _ => panic!("typed nothing"),
    }
    assert!(!k.shift);
    k.press(&ctrl);
    match k.press(&OskKey::Char("c".into())) {
        Some(Press::Ctrl(c)) => assert_eq!(c, 'c'),
        _ => panic!("no ctrl"),
    }
    match k.press(&OskKey::Special("tab".into())) {
        Some(Press::Special(n)) => assert_eq!(n, "tab"),
        _ => panic!("no special"),
    }

    assert_eq!(width_quarters(&OskKey::Special("space".into())), 20);
    assert_eq!(width_quarters(&shift), 7);
    assert_eq!(width_quarters(&ctrl), 6);
    assert_eq!(width_quarters(&OskKey::Char("x".into())), 4);
    assert_eq!(label(&OskKey::Special("tab".into())), "Tab ⇥");
    assert_eq!(label(&OskKey::Special("f5".into())), "F5");
    assert_eq!(label(&OskKey::Char("ä".into())), "ä");
}

use tacoshell::ui::login::pad_logo;
use tacoshell::ui::press_bytes;
use tacoshell::ui::server_label;
use tacoshell::ui::{banner_shown, deadline, secondary_opens_menu, Deadline};

#[test]
fn logos_become_blocks() {
    assert_eq!(pad_logo("\n\n ab\nc\n\n"), " ab\nc  ");
    assert_eq!(pad_logo("x\r\nyz"), "x \nyz");
    assert_eq!(pad_logo("\n\n"), "");
}

#[test]
fn running_app_keys() {
    assert_eq!(press_bytes(&Press::Text("hé".into())), "hé".as_bytes().to_vec());
    assert_eq!(press_bytes(&Press::Ctrl('c')), vec![3]);
    assert_eq!(press_bytes(&Press::Ctrl('1')), Vec::<u8>::new());
    assert_eq!(press_bytes(&Press::Special("up".into())), b"\x1b[A".to_vec());
    assert_eq!(press_bytes(&Press::Special("nope".into())), Vec::<u8>::new());
}

#[test]
fn server_labels() {
    let open = Some(Ssh::default());
    assert_eq!(server_label(&open, &Some(saved("saved", "u")), " typed "), "saved");
    assert_eq!(server_label(&open, &Some(saved("", "u")), " typed "), "typed");
    assert_eq!(server_label(&open, &None, " typed "), "typed");
    let preset = Some(Ssh { server: Some("fixed".into()), ..Ssh::default() });
    assert_eq!(server_label(&preset, &None, "typed"), "fixed");
}

#[test]
fn small_window_rules() {
    assert!(secondary_opens_menu(MenuTrigger::RightClick, false));
    assert!(!secondary_opens_menu(MenuTrigger::ShiftRightClick, false));
    assert!(secondary_opens_menu(MenuTrigger::ShiftRightClick, true));
    assert!(banner_shown(true, ScreenKind::Login));
    assert!(!banner_shown(false, ScreenKind::LoggingIn));
    assert!(banner_shown(false, ScreenKind::Running));
    assert_eq!(deadline(ScreenKind::Lost, false, false, false), Deadline::Retry);
    assert_eq!(deadline(ScreenKind::Interrupted, true, false, false), Deadline::Nothing);
    assert_eq!(deadline(ScreenKind::KeyChanged, false, false, true), Deadline::Accept);
    assert_eq!(deadline(ScreenKind::KeyChanged, false, true, true), Deadline::Nothing);
    assert_eq!(deadline(ScreenKind::Running, false, false, true), Deadline::Nothing);
}

#[test]
fn startup_notices() {
    let shown = |c: &Config| startup_banners(c).into_iter().map(|b| (b.text, b.on_login)).collect::<Vec<_>>();
    let t = Text::default();
    assert_eq!(shown(&config(None)), vec![]);
    let mut default_name = config(None);
    default_name.app.binary = "tacoshell".to_string();
    assert_eq!(shown(&default_name), vec![(DEFAULT_BINARY_WARNING.to_string(), true)]);
    let unsafe_store = Ssh { credentials: Credentials::Unsafe, ..Ssh::default() };
    let mut both = config(Some(unsafe_store));
    both.app.binary = "tacoshell".to_string();
    assert_eq!(
        shown(&both),
        vec![(DEFAULT_BINARY_WARNING.to_string(), true), (t.unsafe_credentials.clone(), false)]
    );
    let quiet = Ssh { credentials: Credentials::Unsafe, unsafe_warning: false, ..Ssh::default() };
    assert!(!unsafe_store_warned(&config(Some(quiet))));
    assert!(unsafe_store_warned(&config(Some(Ssh { credentials: Credentials::Unsafe, ..Ssh::default() }))));
    let quiet = Ssh { credentials: Credentials::Unsafe, unsafe_warning: false, ..Ssh::default() };
    assert_eq!(shown(&config(Some(quiet))), vec![]);
    assert_eq!(shown(&config(Some(Ssh::default()))), vec![]);
}
