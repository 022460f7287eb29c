use tacoshell::schema::{
    parse_color, parse_osk_row, split_server, App, Config, Kiosk, Local, LocalOnExit, Login, Menu, MenuTrigger,
    OskKey, Packaging, ShellToggle, Ssh, Terminal, Text,
};

fn minimal() -> Config {
    Config {
        app: App {
            name: "x".to_string(),
            id: "ch.x".to_string(),
            binary: "tacoshell".to_string(),
            version: None,
            description: String::new(),
            icon: None,
        },
        terminal: Terminal::default(),
        local: None,
        ssh: None,
        login: Login::default(),
        menu: Menu { open_on: MenuTrigger::RightClick },
        kiosk: Kiosk::default(),
        text: Text::default(),
        packaging: Packaging::default(),
    }
}

fn local(program: &str) -> Local {
    Local { program: program.to_string(), args: Vec::new(), on_exit: LocalOnExit::Close, depends: Vec::new() }
}

#[test]
fn servers() {
    assert_eq!(split_server("host", 22), Ok(("host".into(), 22)));
    assert_eq!(split_server(" host:2222 ", 22), Ok(("host".into(), 2222)));
    assert_eq!(split_server("ssh://host:1", 22), Ok(("host".into(), 1)));
    assert_eq!(split_server("[::1]:2200", 22), Ok(("::1".into(), 2200)));
    assert_eq!(split_server("[::1]", 22), Ok(("::1".into(), 22)));
    assert_eq!(split_server("::1", 22), Ok(("::1".into(), 22)));
    assert!(split_server("host:nope", 22).is_err());
    assert!(split_server("", 22).is_err());
}

#[test]
fn server_errors_say_what_is_wrong() {
    assert_eq!(split_server("", 22), Err("server is empty".to_string()));
    assert_eq!(split_server("host:nope", 22), Err("\"nope\" isnt a port".to_string()));
    assert_eq!(split_server("[::1", 22), Err("missing ] in server".to_string()));
    assert_eq!(split_server("[::1]x", 22), Err("junk after ] in \"[::1]x\"".to_string()));
    assert_eq!(split_server("host:70000", 22), Err("\"70000\" isnt a port".to_string()));
    assert_eq!(split_server("host:65535", 22), Ok(("host".into(), 65535)));
}

#[test]
fn needs_exactly_one_mode() {
    let cfg = minimal();
    assert!(cfg.validate().is_err());

    let mut both = minimal();
    both.local = Some(local("sh"));
    both.ssh = Some(Ssh::default());
    assert!(both.validate().is_err());

    let mut only_local = minimal();
    only_local.local = Some(local("sh"));
    assert!(only_local.validate().is_ok());

    let mut only_ssh = minimal();
    only_ssh.ssh = Some(Ssh::default());
    assert!(only_ssh.validate().is_ok());
}

#[test]
fn mode_errors_are_exact() {
    assert_eq!(minimal().validate(), Err("needs either a [local] or an [ssh] section".to_string()));
    let mut both = minimal();
    both.local = Some(local("sh"));
    both.ssh = Some(Ssh::default());
    assert_eq!(both.validate(), Err("pick one of [local] or [ssh], not both".to_string()));
    let mut blank = minimal();
    blank.local = Some(local("  "));
    assert_eq!(blank.validate(), Err("local.program is empty".to_string()));
}

#[test]
fn shell_toggle_needs_command() {
    let mut cfg = minimal();
    cfg.ssh = Some(Ssh {
        shell_toggle: Some(ShellToggle { label: "x".to_string(), default: true }),
        ..Ssh::default()
    });
    assert!(cfg.validate().is_err());

    let mut cfg = minimal();
    cfg.ssh = Some(Ssh {
        command: Some("app".to_string()),
        shell_toggle: Some(ShellToggle { label: "x".to_string(), default: true }),
        ..Ssh::default()
    });
    assert!(cfg.validate().is_ok());
}

#[test]
fn bad_colors_and_keys() {
    let mut cfg = minimal();
    cfg.ssh = Some(Ssh::default());
    cfg.terminal.foreground = "red".to_string();
    assert!(cfg.validate().is_err());

    let mut cfg = minimal();
    cfg.ssh = Some(Ssh::default());
    cfg.kiosk.keyboard = vec!["{nope}".to_string()];
    cfg.kiosk.keyboard_shift = vec!["a".to_string()];
    assert!(cfg.validate().is_err());

    let mut cfg = minimal();
    cfg.ssh = Some(Ssh::default());
    cfg.kiosk.keyboard = vec!["a b".to_string()];
    cfg.kiosk.keyboard_shift = vec!["A".to_string()];
    assert!(cfg.validate().is_err());

    let mut cfg = minimal();
    cfg.ssh = Some(Ssh::default());
    cfg.kiosk.keyboard = vec!["a {".to_string()];
    cfg.kiosk.keyboard_shift = vec!["A }".to_string()];
    assert!(cfg.validate().is_ok());
}

#[test]
fn keyboard_row_counts_are_named() {
    let mut cfg = minimal();
    cfg.ssh = Some(Ssh::default());
    cfg.kiosk.keyboard = vec!["a".to_string(), "a b".to_string()];
    cfg.kiosk.keyboard_shift = vec!["A".to_string(), "A".to_string()];
    assert_eq!(cfg.validate(), Err("kiosk keyboard row 2 has a different number of keys with shift".to_string()));
    cfg.kiosk.keyboard_shift = vec!["A".to_string()];
    assert_eq!(cfg.validate(), Err("kiosk.keyboard and kiosk.keyboard_shift need the same rows".to_string()));
}

#[test]
fn app_checks() {
    let mut cfg = minimal();
    cfg.ssh = Some(Ssh::default());
    cfg.app.binary = "My App".to_string();
    assert_eq!(
        cfg.validate(),
        Err("app.binary: lowercase letters, digits, + - . only (it's the debian package name too)".to_string())
    );
    let mut cfg = minimal();
    cfg.ssh = Some(Ssh::default());
    cfg.app.version = Some("v1".to_string());
    assert_eq!(
        cfg.validate(),
        Err("app.version \"v1\" should look like \"1.2.3\" (starts with a digit, no spaces)".to_string())
    );
    let mut cfg = minimal();
    cfg.ssh = Some(Ssh::default());
    cfg.app.version = Some("1.2.3-beta+1~x".to_string());
    cfg.packaging.maintainer = Some("Taco <taco@example.com>  ".to_string());
    assert_eq!(cfg.validate(), Ok(()));
    cfg.packaging.maintainer = Some("<taco@example.com>".to_string());
    assert!(cfg.validate().is_err());
    let mut cfg = minimal();
    cfg.ssh = Some(Ssh::default());
    cfg.app.id = "ch/x".to_string();
    assert_eq!(cfg.validate(), Err("app.id has to be something like \"ch.example.app\"".to_string()));
}

#[test]
fn ssh_checks() {
    let mut cfg = minimal();
    cfg.ssh = Some(Ssh { host_keys: vec!["MD5:aa".to_string()], ..Ssh::default() });
    assert_eq!(cfg.validate(), Err("ssh.host_keys: \"MD5:aa\" should start with SHA256:".to_string()));
    let mut cfg = minimal();
    cfg.ssh = Some(Ssh { host_keys: vec!["SHA256:abc".to_string()], ..Ssh::default() });
    assert_eq!(cfg.validate(), Ok(()));
    let mut cfg = minimal();
    cfg.ssh = Some(Ssh { keepalive_secs: 0, ..Ssh::default() });
    assert_eq!(cfg.validate(), Err("ssh timeouts have to be at least 1 second".to_string()));
    let mut cfg = minimal();
    cfg.ssh = Some(Ssh { changed_key_accept_after_secs: 5, changed_key_accept: false, ..Ssh::default() });
    assert_eq!(cfg.validate(), Err("ssh.changed_key_accept_after_secs needs ssh.changed_key_accept".to_string()));
    let mut cfg = minimal();
    cfg.ssh = Some(Ssh { server: Some("host:nope".to_string()), ..Ssh::default() });
    assert_eq!(cfg.validate(), Err("\"nope\" isnt a port".to_string()));
}

#[test]
fn terminal_checks() {
    let mut cfg = minimal();
    cfg.ssh = Some(Ssh::default());
    cfg.terminal.font_size_bits = 5.5f32.to_bits();
    assert_eq!(cfg.validate(), Err("terminal.font_size should be between 6 and 72".to_string()));
    cfg.terminal.font_size_bits = 72.0f32.to_bits();
    assert_eq!(cfg.validate(), Ok(()));
    cfg.terminal.font_size_bits = f32::NAN.to_bits();
    assert!(cfg.validate().is_err());
    cfg.terminal.font_size_bits = 6.0f32.to_bits();
    cfg.terminal.cols = 19;
    assert_eq!(cfg.validate(), Err("terminal.cols/rows too small".to_string()));
}

#[test]
fn colors() {
    assert_eq!(parse_color("#ff8000"), Ok([255, 128, 0]));
    assert_eq!(parse_color("#FFffFF"), Ok([255, 255, 255]));
    assert_eq!(parse_color("red"), Err("color \"red\" should look like #rrggbb".to_string()));
    assert_eq!(parse_color("#gg0000"), Err("color \"#gg0000\" isnt hex".to_string()));
}

#[test]
fn keyboard_rows() {
    assert_eq!(
        parse_osk_row("a {tab} {"),
        Ok(vec![OskKey::Char("a".into()), OskKey::Special("tab".into()), OskKey::Char("{".into())])
    );
    assert!(parse_osk_row("{nope}").is_err());
    assert_eq!(parse_osk_row("   "), Ok(vec![]));
}

#[test]
fn default_keyboard_is_valid() {
    let k = Kiosk::default();
    for row in k.keyboard.iter().chain(&k.keyboard_shift) {
        parse_osk_row(row).unwrap();
    }
}

#[test]
fn colors_take_only_hex_digits() {
    assert_eq!(parse_color("#+f0000"), Err("color \"#+f0000\" isnt hex".to_string()));
    assert_eq!(parse_color("#00+f00"), Err("color \"#00+f00\" isnt hex".to_string()));
    assert_eq!(parse_color("#0a0B0c"), Ok([10, 11, 12]));
}
