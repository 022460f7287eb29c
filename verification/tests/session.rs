use tacoshell::session::{channel_closed, pinned_trusts, probe_verdict, prompt_answers};

#[test]
fn closed_channels() {
    assert_eq!(channel_closed(Some(0), false), None);
    assert_eq!(channel_closed(Some(0), true), Some("exited with status 0".to_string()));
    assert_eq!(channel_closed(Some(127), false), Some("exited with status 127".to_string()));
    assert_eq!(channel_closed(None, false), Some("session closed".to_string()));
}

#[test]
fn prompts_and_pins() {
    assert_eq!(prompt_answers(&[true, false], "taco", "salsa"), vec!["taco".to_string(), "salsa".to_string()]);
    assert!(prompt_answers(&[], "taco", "salsa").is_empty());
    let pinned = vec!["SHA256:a".to_string(), "SHA256:b".to_string()];
    assert!(pinned_trusts(&pinned, "SHA256:b"));
    assert!(!pinned_trusts(&pinned, "SHA256:c"));
    assert!(!pinned_trusts(&vec![], "SHA256:a"));
}

use tacoshell::session::{file_verdict, first_verdict, without_lines, End, KnownHosts, Verdict};

#[test]
fn pinned_keys_decide_alone() {
    let pinned = vec!["SHA256:a".to_string()];
    assert!(matches!(first_verdict(&pinned, "SHA256:a", true), Verdict::Trust));
    match first_verdict(&pinned, "SHA256:b", false) {
        Verdict::Reject(End::HostKeyMismatch { new }) => assert_eq!(new, "SHA256:b"),
        _ => panic!("a key that is not pinned got in"),
    }
    assert!(matches!(first_verdict(&vec![], "SHA256:b", false), Verdict::Ask));
    assert!(matches!(first_verdict(&vec![], "SHA256:b", true), Verdict::CheckFile));
}

#[test]
fn known_hosts_outcomes() {
    assert!(matches!(file_verdict(KnownHosts::Matches, "f", "/k", "key", false), Verdict::Trust));
    assert!(matches!(file_verdict(KnownHosts::Unknown, "f", "/k", "key", true), Verdict::Learn));
    assert!(matches!(file_verdict(KnownHosts::Unknown, "f", "/k", "key", false), Verdict::AskThenLearn));
    match file_verdict(KnownHosts::Changed { line: 3, old: None }, "SHA256:n", "/k", "ssh-ed25519 X", false) {
        Verdict::Reject(End::HostKeyChanged(c)) => {
            assert_eq!((c.file.as_str(), c.line, c.old.as_str(), c.new.as_str()), ("/k", 3, "?", "SHA256:n"));
            assert_eq!(c.new_key, "ssh-ed25519 X");
        }
        _ => panic!("changed key not reported"),
    }
    match file_verdict(KnownHosts::Unreadable("denied".into()), "f", "/k", "key", false) {
        Verdict::Reject(End::Failed(m)) => assert_eq!(m, "cant read /k: denied"),
        _ => panic!("unreadable file not reported"),
    }
}

#[test]
fn stale_lines_go() {
    let text = "one\ntwo\r\nthree\nfour";
    assert_eq!(without_lines(text, &vec![2, 4]), "one\nthree\n");
    assert_eq!(without_lines(text, &vec![]), "one\ntwo\nthree\nfour\n");
    assert_eq!(without_lines("", &vec![1]), "");
}

#[test]
fn a_dead_session_is_lost_or_unreachable() {
    assert!(matches!(probe_verdict(true, "reset".to_string()), End::Lost));
    match probe_verdict(false, "reset".to_string()) {
        End::Unreachable(e) => assert_eq!(e, "reset"),
        _ => panic!("expected unreachable"),
    }
}
