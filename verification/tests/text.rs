use tacoshell::cli::{parse_args, version_line, Command};
use tacoshell::text::lines_of;

fn lines(s: &str) -> Vec<String> {
    lines_of(s).into_iter().map(|l| l.into_iter().collect()).collect()
}

#[test]
fn lines_like_std() {
    for s in ["", "a", "a\n", "a\r\nb", "a\n\nb\n", "\r", "x\r", "\n", "a\rb\n"] {
        let want: Vec<String> = s.lines().map(String::from).collect();
        assert_eq!(lines(s), want, "{s:?}");
    }
}

fn args(a: &[&str]) -> Vec<String> {
    a.iter().map(|s| s.to_string()).collect()
}

#[test]
fn command_lines() {
    assert!(matches!(parse_args(&args(&[]), false), Command::Run { kiosk: false }));
    assert!(matches!(parse_args(&args(&[]), true), Command::Run { kiosk: true }));
    assert!(matches!(parse_args(&args(&["--kiosk"]), false), Command::Run { kiosk: true }));
    assert!(matches!(parse_args(&args(&["--kiosk", "--meta"]), false), Command::Meta));
    match parse_args(&args(&["--write-icon", "i.png", "--help"]), false) {
        Command::WriteIcon(Some(f)) => assert_eq!(f, "i.png"),
        _ => panic!("no icon file"),
    }
    assert!(matches!(parse_args(&args(&["--write-icon"]), false), Command::WriteIcon(None)));
    assert!(matches!(parse_args(&args(&["-h"]), false), Command::Help));
    assert!(matches!(parse_args(&args(&["--print-config"]), false), Command::PrintConfig));
    assert!(matches!(parse_args(&args(&["--version"]), false), Command::Version));
    match parse_args(&args(&["--nope", "--kiosk"]), false) {
        Command::Unknown(o) => assert_eq!(o, "--nope"),
        _ => panic!("unknown option taken"),
    }
    assert_eq!(version_line("Taco", &Some("1.2".into()), "0.3.0"), "Taco 1.2 (tacoshell 0.3.0)");
    assert_eq!(version_line("Taco", &None, "0.3.0"), "Taco (tacoshell 0.3.0)");
}
