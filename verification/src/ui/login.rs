//! The setup and login form of the ssh mode: what it starts with, which
//! fields it shows, and the logo above it.
use vstd::prelude::*;
use crate::schema::Config;
use crate::state::Saved;
use crate::text::{chars_of, string_of, push_char, lines_of, lines_spec, view_lines, slice_range};

verus! {

/// The fields one can type in.
#[derive(Clone, Copy, PartialEq, Eq, Structural, Debug)]
pub enum Field {
    Server,
    Username,
    Password,
    Pin,
}

/// What the form holds besides the password and the pin, which the window
/// keeps in memory that is wiped when dropped.
pub struct Form {
    pub server: String,
    pub username: String,
    pub login_shell: bool,
    pub remember_server: bool,
    pub remember_username: bool,
    pub error: Option<String>,
    /// The last field that had focus; the on screen keyboard types into it.
    pub focus: Field,
    /// Give the focus back to `focus` next frame (tapping the keyboard steals it).
    pub refocus: bool,
}

/// Whether the shell box starts ticked: as the config's toggle says, ticked without one.
pub open spec fn toggle_default(cfg: Config) -> bool {
    match cfg.ssh {
        Some(s) => match s.shell_toggle {
            Some(t) => t.default,
            None => true,
        },
        None => true,
    }
}

/// The field the cursor starts in: the first empty one (what was remembered is skipped).
pub open spec fn first_focus(cfg: Config, server: Seq<char>, username: Seq<char>) -> Field {
    if server.len() == 0 && (cfg.ssh matches Some(s) && s.server is None) {
        Field::Server
    } else if username.len() == 0 {
        Field::Username
    } else {
        Field::Password
    }
}

impl Form {
    /// The form as a saved setup (or none) leaves it.
    pub fn new(cfg: &Config, saved: Option<&Saved>) -> (f: Form)
        ensures
            f.server@ == (match saved {
                Some(s) => s.server@,
                None => Seq::empty(),
            }),
            f.username@ == (match saved {
                Some(s) => s.username@,
                None => Seq::empty(),
            }),
            f.login_shell == (match saved {
                Some(s) => s.login_shell,
                None => toggle_default(*cfg),
            }),
            f.remember_server == (match saved {
                Some(s) => s.remember_server,
                None => true,
            }),
            f.remember_username == (match saved {
                Some(s) => s.remember_username,
                None => true,
            }),
            f.error is None,
            f.focus == first_focus(*cfg, f.server@, f.username@),
            f.refocus,
    {
        let toggle = match &cfg.ssh {
            Some(s) => match &s.shell_toggle {
                Some(t) => t.default,
                None => true,
            },
            None => true,
        };
        let server = match saved {
            Some(s) => s.server.clone(),
            None => String::new(),
        };
        let username = match saved {
            Some(s) => s.username.clone(),
            None => String::new(),
        };
        let no_preset = match &cfg.ssh {
            Some(s) => s.server.is_none(),
            None => false,
        };
        let focus = if server.as_str().is_empty() && no_preset {
            Field::Server
        } else if username.as_str().is_empty() {
            Field::Username
        } else {
            Field::Password
        };
        Form {
            server,
            username,
            login_shell: match saved {
                Some(s) => s.login_shell,
                None => toggle,
            },
            remember_server: match saved {
                Some(s) => s.remember_server,
                None => true,
            },
            remember_username: match saved {
                Some(s) => s.remember_username,
                None => true,
            },
            error: None,
            focus,
            refocus: true,
        }
    }
}

/// How the login screen looks this frame.
pub struct Look<'a> {
    pub cfg: &'a Config,
    /// Connecting right now: everything greyed out.
    pub busy: Option<String>,
    /// A kiosk with a saved setup: only the password can change, logout for the rest.
    pub locked: bool,
    pub show_pin: bool,
    /// Shown under everything, for the unsafe credential store.
    pub warning: Option<&'a str>,
}

pub open spec fn shows_server(cfg: Config) -> bool {
    cfg.ssh matches Some(s) && s.server is None
}

/// The fields in tab order, only those one can type in.
pub open spec fn fields_spec(cfg: Config, locked: bool, show_pin: bool) -> Seq<Field> {
    let head: Seq<Field> = if locked {
        seq![]
    } else if shows_server(cfg) {
        seq![Field::Server, Field::Username]
    } else {
        seq![Field::Username]
    };
    head + seq![Field::Password] + (if show_pin { seq![Field::Pin] } else { seq![] })
}

impl<'a> Look<'a> {
    /// The server field is there when the config does not fix the server.
    pub fn show_server(&self) -> (b: bool)
        ensures
            b == shows_server(*self.cfg),
    {
        match &self.cfg.ssh {
            Some(s) => s.server.is_none(),
            None => false,
        }
    }

    /// The fields in tab order, only those one can type in.
    pub fn fields(&self) -> (f: Vec<Field>)
        ensures
            f@ == fields_spec(*self.cfg, self.locked, self.show_pin),
    {
        let mut f: Vec<Field> = Vec::new();
        if !self.locked {
            if self.show_server() {
                f.push(Field::Server);
            }
            f.push(Field::Username);
        }
        f.push(Field::Password);
        if self.show_pin {
            f.push(Field::Pin);
        }
        assert(f@ =~= fields_spec(*self.cfg, self.locked, self.show_pin));
        f
    }
}


/// `s` without its leading line feeds.
pub open spec fn trim_nl_start(s: Seq<char>) -> Seq<char>
    decreases s.len(),
{
    if s.len() > 0 && s[0] == '\n' { trim_nl_start(s.drop_first()) } else { s }
}

/// `s` without its trailing line feeds.
pub open spec fn trim_nl_end(s: Seq<char>) -> Seq<char>
    decreases s.len(),
{
    if s.len() > 0 && s.last() == '\n' { trim_nl_end(s.drop_last()) } else { s }
}

/// The longest line's length.
pub open spec fn max_len(v: Seq<Seq<char>>) -> nat
    decreases v.len(),
{
    if v.len() == 0 {
        0
    } else {
        let m = max_len(v.drop_last());
        if v.last().len() > m { v.last().len() } else { m }
    }
}

/// `l` padded with spaces to `width` characters.
pub open spec fn pad_to(l: Seq<char>, width: nat) -> Seq<char> {
    if l.len() < width { l + Seq::new((width - l.len()) as nat, |i: int| ' ') } else { l }
}

/// The lines joined with line feeds between them.
pub open spec fn join_lines(v: Seq<Seq<char>>) -> Seq<char>
    decreases v.len(),
{
    if v.len() == 0 {
        Seq::empty()
    } else if v.len() == 1 {
        v[0]
    } else {
        join_lines(v.drop_last()) + seq!['\n'] + v.last()
    }
}

/// The ascii art logo as a block: line feeds at the ends dropped, and every
/// line padded with spaces to the longest one, so that centering the block
/// keeps the lines in place against each other.
pub open spec fn pad_logo_spec(logo: Seq<char>) -> Seq<char> {
    let lines = lines_spec(trim_nl_end(trim_nl_start(logo)));
    join_lines(lines.map_values(|l: Seq<char>| pad_to(l, max_len(lines))))
}

fn trim_newlines(s: &[char]) -> (t: Vec<char>)
    ensures
        t@ == trim_nl_end(trim_nl_start(s@)),
{
    let mut a: usize = 0;
    assert(s@.skip(0) =~= s@);
    while a < s.len() && s[a] == '\n'
        invariant
            a <= s@.len(),
            trim_nl_start(s@) == trim_nl_start(s@.skip(a as int)),
        decreases s@.len() - a,
    {
        assert(s@.skip(a as int).drop_first() =~= s@.skip(a + 1));
        a = a + 1;
    }
    assert(trim_nl_start(s@.skip(a as int)) == s@.skip(a as int));
    let mut b: usize = s.len();
    while b > a && s[b - 1] == '\n'
        invariant
            a <= b <= s@.len(),
            trim_nl_end(s@.skip(a as int)) == trim_nl_end(s@.subrange(a as int, b as int)),
        decreases b - a,
    {
        assert(s@.subrange(a as int, b as int).drop_last() =~= s@.subrange(a as int, b - 1));
        b = b - 1;
    }
    assert(s@.skip(a as int) =~= s@.subrange(a as int, s@.len() as int));
    slice_range(s, a, b)
}

/// The logo as a block of equally long lines.
pub fn pad_logo(logo: &str) -> (out: String)
    ensures
        out@ == pad_logo_spec(logo@),
{
    let t = trim_newlines(chars_of(logo).as_slice());
    let ts = string_of(t.as_slice());
    let lines = lines_of(ts.as_str());
    let ghost lv = view_lines(lines@);
    let mut width: usize = 0;
    let mut i: usize = 0;
    while i < lines.len()
        invariant
            i <= lines@.len(),
            lv == view_lines(lines@),
            width == max_len(lv.take(i as int)),
        decreases lines@.len() - i,
    {
        assert(lv.take(i + 1).drop_last() =~= lv.take(i as int));
        assert(lv[i as int] == lines@[i as int]@);
        if lines[i].len() > width {
            width = lines[i].len();
        }
        i = i + 1;
    }
    assert(lv.take(lv.len() as int) =~= lv);
    let ghost padded = lv.map_values(|l: Seq<char>| pad_to(l, max_len(lv)));
    let mut out = String::new();
    let mut j: usize = 0;
    while j < lines.len()
        invariant
            j <= lines@.len(),
            lv == view_lines(lines@),
            width == max_len(lv),
            padded == lv.map_values(|l: Seq<char>| pad_to(l, max_len(lv))),
            out@ == join_lines(padded.take(j as int)),
        decreases lines@.len() - j,
    {
        let ghost before = out@;
        if j > 0 {
            push_char(&mut out, '\n');
        }
        let line = &lines[j];
        assert(out@ =~= before + (if j > 0 { seq!['\n'] } else { Seq::empty() }) + line@.take(0));
        let mut k: usize = 0;
        while k < line.len()
            invariant
                k <= line@.len(),
                out@ == before + (if j > 0 { seq!['\n'] } else { Seq::empty() }) + line@.take(k as int),
            decreases line@.len() - k,
        {
            push_char(&mut out, line[k]);
            k = k + 1;
            assert(out@ =~= before + (if j > 0 { seq!['\n'] } else { Seq::empty() }) + line@.take(k as int));
        }
        let mut m: usize = line.len();
        while m < width
            invariant
                line@.len() <= m <= width || (m == line@.len() && width < line@.len()),
                out@ == before + (if j > 0 { seq!['\n'] } else { Seq::empty() }) + line@ + Seq::new(
                    (m - line@.len()) as nat,
                    |i: int| ' ',
                ),
            decreases width - m,
        {
            push_char(&mut out, ' ');
            m = m + 1;
            assert(out@ =~= before + (if j > 0 { seq!['\n'] } else { Seq::empty() }) + line@ + Seq::new(
                (m - line@.len()) as nat,
                |i: int| ' ',
            ));
        }
        proof {
            assert(line@.take(line@.len() as int) =~= line@);
            assert(lv[j as int] == line@);
            assert(padded[j as int] == pad_to(line@, width as nat));
            if line@.len() < width {
                assert(m == width);
            } else {
                assert(out@ =~= before + (if j > 0 { seq!['\n'] } else { Seq::empty() }) + line@);
            }
            assert(padded.take(j + 1).drop_last() =~= padded.take(j as int));
            if j > 0 {
                assert(join_lines(padded.take(j + 1)) == join_lines(padded.take(j as int)) + seq!['\n'] + padded[j as int]);
            } else {
                assert(padded.take(1) =~= seq![padded[0]]);
            }
            assert(out@ =~= join_lines(padded.take(j + 1)));
        }
        j = j + 1;
    }
    assert(padded.take(padded.len() as int) =~= padded);
    out
}

} // verus!
