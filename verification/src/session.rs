//! How a session ends, and the small decisions of an ssh login: whose key
//! is trusted, what keyboard-interactive prompts are answered with, and what
//! a closed channel means.
use vstd::prelude::*;
use crate::text::{decimal_chars, push_decimal_chars, str_eq, lines_of, lines_spec, view_lines, push_char};

verus! {

/// How a session ended.
pub enum End {
    /// The program quit on its own; ssh says this only for exit status 0.
    Exited,
    /// ssh: the session is gone (killed, crashed, dropped) but the server still answers.
    Lost,
    /// ssh: the server cannot be reached (any more).
    Unreachable(String),
    AuthFailed,
    HostKeyDeclined,
    /// The key in known_hosts (line, 1 based) is not what the server showed.
    HostKeyChanged(KeyChange),
    /// Not one of the keys pinned in the config.
    HostKeyMismatch { new: String },
    /// local: the program is neither next to us nor in PATH.
    NotFound,
    /// Anything else: the server said no, pty trouble, ...
    Failed(String),
}

/// A server key that is not the one known_hosts has for the server.
pub struct KeyChange {
    pub file: String,
    pub line: usize,
    /// Fingerprints, SHA256:...
    pub old: String,
    pub new: String,
    /// The new key in openssh format, for when the user accepts it.
    pub new_key: String,
}

impl Clone for KeyChange {
    fn clone(&self) -> (c: KeyChange)
        ensures
            c.file@ == self.file@,
            c.line == self.line,
            c.old@ == self.old@,
            c.new@ == self.new@,
            c.new_key@ == self.new_key@,
    {
        KeyChange {
            file: self.file.clone(),
            line: self.line,
            old: self.old.clone(),
            new: self.new.clone(),
            new_key: self.new_key.clone(),
        }
    }
}

/// Why a channel that closed was not a clean exit: `None` for exit status 0
/// without a signal, else what to say.
pub open spec fn close_reason(status: Option<u32>, signaled: bool) -> Option<Seq<char>> {
    if status == Some(0u32) && !signaled {
        None
    } else {
        match status {
            Some(s) => Some("exited with status "@ + decimal_chars(s as nat)),
            None => Some("session closed"@),
        }
    }
}

/// What the end of the remote channel means: a clean exit, or a reason to
/// find out whether the server is still there.
pub fn channel_closed(status: Option<u32>, signaled: bool) -> (why: Option<String>)
    ensures
        match (why, close_reason(status, signaled)) {
            (Some(w), Some(v)) => w@ == v,
            (None, None) => true,
            _ => false,
        },
{
    if status == Some(0u32) && !signaled {
        return None;
    }
    match status {
        Some(s) => {
            let mut w = String::from_str("exited with status ");
            push_decimal_chars(&mut w, s as u64);
            Some(w)
        },
        None => Some(String::from_str("session closed")),
    }
}

/// What a session that died without saying why ended as: [`End::Lost`]
/// when the server's port still takes a connection, else
/// [`End::Unreachable`] with the session's error.
pub fn probe_verdict(port_answers: bool, error: String) -> (e: End)
    ensures
        e == (if port_answers { End::Lost } else { End::Unreachable(error) }),
{
    if port_answers {
        End::Lost
    } else {
        End::Unreachable(error)
    }
}

/// The answers to keyboard-interactive prompts: the user name where the
/// prompt echoes, the password where it does not.
pub fn prompt_answers(echo: &[bool], username: &str, password: &str) -> (answers: Vec<String>)
    ensures
        answers@.len() == echo@.len(),
        forall|i: int| 0 <= i < echo@.len() ==> #[trigger] answers@[i]@ == (if echo@[i] { username@ } else { password@ }),
{
    let mut answers: Vec<String> = Vec::new();
    let mut i: usize = 0;
    while i < echo.len()
        invariant
            i <= echo@.len(),
            answers@.len() == i,
            forall|k: int| 0 <= k < i ==> #[trigger] answers@[k]@ == (if echo@[k] { username@ } else { password@ }),
        decreases echo@.len() - i,
    {
        if echo[i] {
            answers.push(String::from_str(username));
        } else {
            answers.push(String::from_str(password));
        }
        i = i + 1;
    }
    answers
}

/// With keys pinned in the config, the server's key is trusted exactly when
/// its fingerprint is one of them.
pub fn pinned_trusts(pinned: &Vec<String>, fingerprint: &str) -> (ok: bool)
    ensures
        ok == exists|i: int| 0 <= i < pinned@.len() && #[trigger] pinned@[i]@ == fingerprint@,
{
    let mut i: usize = 0;
    while i < pinned.len()
        invariant
            i <= pinned@.len(),
            forall|k: int| 0 <= k < i ==> #[trigger] pinned@[k]@ != fingerprint@,
        decreases pinned@.len() - i,
    {
        if str_eq(pinned[i].as_str(), fingerprint) {
            return true;
        }
        i = i + 1;
    }
    false
}


/// What is done about the key a server shows.
pub enum Verdict {
    Trust,
    /// Ask the user; no means [`End::HostKeyDeclined`].
    Ask,
    /// Look the server up in known_hosts.
    CheckFile,
    /// Trust it and write it into known_hosts.
    Learn,
    /// Ask the user, and on a yes write it into known_hosts.
    AskThenLearn,
    /// The session ends so.
    Reject(End),
}

pub open spec fn pinned_has(pinned: Seq<String>, fingerprint: Seq<char>) -> bool {
    exists|i: int| 0 <= i < pinned.len() && #[trigger] pinned[i]@ == fingerprint
}

/// Keys pinned in the config decide alone, and nobody is asked: one of them
/// is trusted, any other key ends the session. Without pins, a server is
/// looked up in known_hosts, or, with no known_hosts file, the user is asked.
pub fn first_verdict(pinned: &Vec<String>, fingerprint: &str, has_file: bool) -> (v: Verdict)
    ensures
        pinned@.len() > 0 && pinned_has(pinned@, fingerprint@) ==> v is Trust,
        pinned@.len() > 0 && !pinned_has(pinned@, fingerprint@) ==> (v matches Verdict::Reject(
            End::HostKeyMismatch { new },
        ) && new@ == fingerprint@),
        pinned@.len() == 0 && !has_file ==> v is Ask,
        pinned@.len() == 0 && has_file ==> v is CheckFile,
{
    if pinned.len() > 0 {
        if pinned_trusts(pinned, fingerprint) {
            Verdict::Trust
        } else {
            Verdict::Reject(End::HostKeyMismatch { new: String::from_str(fingerprint) })
        }
    } else if has_file {
        Verdict::CheckFile
    } else {
        Verdict::Ask
    }
}

/// What known_hosts says of the server's key.
pub enum KnownHosts {
    /// The key is the one it has.
    Matches,
    /// It has no key for the server.
    Unknown,
    /// It has another key for the server, on this line (1 based); the
    /// fingerprint of that key if it could be read.
    Changed { line: usize, old: Option<String> },
    /// The file could not be read.
    Unreadable(String),
}

/// After the known_hosts lookup: a match is trusted; an unknown server is
/// learned, after asking unless new servers are accepted as they come; a
/// changed key ends the session with the change; an unreadable file ends it
/// with why.
pub fn file_verdict(outcome: KnownHosts, fingerprint: &str, file: &str, new_key: &str, accept_new: bool) -> (v: Verdict)
    ensures
        match outcome {
            KnownHosts::Matches => v is Trust,
            KnownHosts::Unknown => if accept_new { v is Learn } else { v is AskThenLearn },
            KnownHosts::Changed { line, old } => v matches Verdict::Reject(End::HostKeyChanged(c)) && c.file@ == file@
                && c.line == line && c.new@ == fingerprint@ && c.new_key@ == new_key@ && c.old@ == (match old {
                Some(o) => o@,
                None => "?"@,
            }),
            KnownHosts::Unreadable(e) => v matches Verdict::Reject(End::Failed(m)) && m@ == "cant read "@ + file@
                + ": "@ + e@,
        },
{
    match outcome {
        KnownHosts::Matches => Verdict::Trust,
        KnownHosts::Unknown => if accept_new {
            Verdict::Learn
        } else {
            Verdict::AskThenLearn
        },
        KnownHosts::Changed { line, old } => {
            let old = match old {
                Some(o) => o,
                None => String::from_str("?"),
            };
            Verdict::Reject(
                End::HostKeyChanged(
                    KeyChange {
                        file: String::from_str(file),
                        line,
                        old,
                        new: String::from_str(fingerprint),
                        new_key: String::from_str(new_key),
                    },
                ),
            )
        },
        KnownHosts::Unreadable(e) => {
            let mut m = String::from_str("cant read ");
            m.append(file);
            m.append(": ");
            m.append(e.as_str());
            Verdict::Reject(End::Failed(m))
        },
    }
}

/// The known_hosts text without the stale lines (1 based), each kept line
/// with a line feed after it.
pub open spec fn kept_lines(lines: Seq<Seq<char>>, stale: Seq<usize>) -> Seq<char>
    decreases lines.len(),
{
    if lines.len() == 0 {
        Seq::empty()
    } else {
        kept_lines(lines.drop_last(), stale) + (if stale.contains(lines.len() as usize) {
            Seq::empty()
        } else {
            lines.last() + seq!['\n']
        })
    }
}

fn has_line(stale: &Vec<usize>, n: usize) -> (b: bool)
    ensures
        b == stale@.contains(n),
{
    let mut i: usize = 0;
    while i < stale.len()
        invariant
            i <= stale@.len(),
            forall|k: int| 0 <= k < i ==> stale@[k] != n,
        decreases stale@.len() - i,
    {
        if stale[i] == n {
            assert(stale@[i as int] == n);
            return true;
        }
        i = i + 1;
    }
    false
}

/// What is left of a known_hosts file when the stale lines go: the other
/// lines, each ending in a line feed.
pub fn without_lines(text: &str, stale: &Vec<usize>) -> (kept: String)
    ensures
        kept@ == kept_lines(lines_spec(text@), stale@),
{
    let lines = lines_of(text);
    let ghost lv = view_lines(lines@);
    let mut out = String::new();
    let mut i: usize = 0;
    while i < lines.len()
        invariant
            i <= lines@.len(),
            lv == view_lines(lines@),
            lv == lines_spec(text@),
            out@ == kept_lines(lv.take(i as int), stale@),
        decreases lines@.len() - i,
    {
        assert(lv.take(i + 1).drop_last() =~= lv.take(i as int));
        assert(lv.take(i + 1).last() == lines@[i as int]@);
        let ghost before = out@;
        if !has_line(stale, i + 1) {
            let line = &lines[i];
            let mut k: usize = 0;
            while k < line.len()
                invariant
                    k <= line@.len(),
                    out@ == before + line@.take(k as int),
                decreases line@.len() - k,
            {
                push_char(&mut out, line[k]);
                k = k + 1;
                assert(out@ =~= before + line@.take(k as int));
            }
            push_char(&mut out, '\n');
            assert(line@.take(line@.len() as int) =~= line@);
            assert(out@ =~= before + (line@ + seq!['\n']));
        } else {
            assert(out@ =~= before + Seq::<char>::empty());
        }
        i = i + 1;
    }
    assert(lv.take(lv.len() as int) =~= lv);
    out
}

} // verus!
