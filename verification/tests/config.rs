use tacoshell::config::{color, fill, png_size};
use tacoshell::term::color::Rgba;

#[test]
fn fills() {
    assert_eq!(fill("cant reach {server}: {error}", &[("server", "host"), ("error", "timed out")]), "cant reach host: timed out");
    assert_eq!(fill("{a}{a}{b}", &[("a", "x"), ("b", "{a}")]), "xx{a}");
    assert_eq!(fill("no vars", &[]), "no vars");
    assert_eq!(fill("{missing}", &[("other", "x")]), "{missing}");
}

#[test]
fn colors_by_hex() {
    assert_eq!(color("#102030"), Rgba::from_rgb(16, 32, 48));
    assert_eq!(color("nope"), Rgba::from_rgb(255, 0, 255));
}

use tacoshell::config::{meta, one_line};
use tacoshell::schema::{App, Config, Kiosk, Local, LocalOnExit, Login, Menu, MenuTrigger, Packaging, Ssh, Terminal, Text};

fn config(local: Option<Local>) -> Config {
    Config {
        app: App {
            name: "Taco".to_string(),
            id: "ch.taco".to_string(),
            binary: "taco".to_string(),
            version: None,
            description: String::new(),
            icon: None,
        },
        terminal: Terminal::default(),
        ssh: if local.is_none() { Some(Ssh::default()) } else { None },
        local,
        login: Login::default(),
        menu: Menu { open_on: MenuTrigger::RightClick },
        kiosk: Kiosk::default(),
        text: Text::default(),
        packaging: Packaging::default(),
    }
}

#[test]
fn one_lines() {
    assert_eq!(one_line("  a\n b\t\tc  "), "a b c");
    assert_eq!(one_line(""), "");
}

#[test]
fn package_meta() {
    let local = Local {
        program: "htop".into(),
        args: vec![],
        on_exit: LocalOnExit::Close,
        depends: vec!["htop".into(), "ncurses-base".into()],
    };
    let m = meta(&config(Some(local)), "0.3.0", "");
    assert_eq!(
        m,
        "NAME=Taco\nID=ch.taco\nBINARY=taco\nVERSION=0.3.0\nDESCRIPTION=Taco\n\
         LONG_DESCRIPTION=Taco in a window of its own: it runs htop in a terminal built into the window.\n\
         MAINTAINER=\nLICENSE=\nHOMEPAGE=\nDEPENDS=htop, ncurses-base\nICON_SIZE=\n"
    );
    let mut ssh = config(None);
    ssh.app.version = Some("1.0".into());
    ssh.app.description = "the\ntaco app".into();
    ssh.packaging.long_description = Some(" long\n  one ".into());
    let m = meta(&ssh, "0.3.0", "64x64");
    assert!(m.contains("VERSION=1.0\n"));
    assert!(m.contains("DESCRIPTION=the taco app\n"));
    assert!(m.contains("LONG_DESCRIPTION=long one\n"));
    assert!(m.contains("DEPENDS=\n"));
    assert!(m.ends_with("ICON_SIZE=64x64\n"));
}

#[test]
fn png_sizes() {
    let mut png = vec![0x89, b'P', b'N', b'G', 0x0d, 0x0a, 0x1a, 0x0a, 0, 0, 0, 13, b'I', b'H', b'D', b'R'];
    png.extend_from_slice(&[0, 0, 1, 0, 0, 0, 0, 48]);
    assert_eq!(png_size(&png), Some("256x48".to_string()));
    let mut big = png.clone();
    big[16..24].copy_from_slice(&[0xff, 0xff, 0xff, 0xff, 0, 1, 0, 0]);
    assert_eq!(png_size(&big), Some("4294967295x65536".to_string()));
    assert_eq!(png_size(&png[..23]), None);
    let mut gif = png.clone();
    gif[1] = b'G';
    assert_eq!(png_size(&gif), None);
    assert_eq!(png_size(b""), None);
}
