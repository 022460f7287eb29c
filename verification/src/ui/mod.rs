//! The window's decisions: which screen follows how a session ended, what
//! the status card in the middle says and offers, which menu entries there
//! are, and what a login needs. The window itself holds the state and does
//! the drawing and the I/O; here it asks what to do.
pub mod kiosk;
pub mod login;

use vstd::prelude::*;
use crate::config::{fill, fill_spec, pairs_view};
use crate::schema::{Config, Credentials, Text, Local, LocalOnExit, SshOnExit, Ssh, MenuTrigger, DEFAULT_BINARY, DEFAULT_BINARY_WARNING};
use crate::session::{End, KeyChange};
use crate::state::{Saved, pin_ok, pin_ok_spec, hash_pin, pin_record, check_pin, check_pin_spec};
use crate::text::{decimal_chars, push_decimal_chars, push_char, chars_of, string_of, trimmed, trim, str_eq};
use vstd::utf8::encode_utf8;
use self::kiosk::{Press, PressView};
use self::login::Field;
use crate::term::input::{ctrl_char_byte, ctrl_char_spec, named_key_bytes, named_spec};

verus! {

/// `t` with the placeholder `{k}` replaced by `v`.
pub fn fill1(t: &str, k: &str, v: &str) -> (r: String)
    ensures
        r@ == fill_spec(t@, seq![(k@, v@)]),
{
    let vars = [(k, v)];
    assert(pairs_view(vars@) =~= seq![(k@, v@)]);
    fill(t, &vars)
}

/// `t` with two placeholders replaced, in order.
pub fn fill2(t: &str, k1: &str, v1: &str, k2: &str, v2: &str) -> (r: String)
    ensures
        r@ == fill_spec(t@, seq![(k1@, v1@), (k2@, v2@)]),
{
    let vars = [(k1, v1), (k2, v2)];
    assert(pairs_view(vars@) =~= seq![(k1@, v1@), (k2@, v2@)]);
    fill(t, &vars)
}

/// Where the window is.
#[derive(Clone, Copy, PartialEq, Eq, Structural, Debug)]
pub enum ScreenKind {
    /// The ssh setup and login form.
    Login,
    /// First connect from the form; the form stays up, greyed out.
    LoggingIn,
    /// Reinitialize picked from the menu, or a retry.
    Connecting,
    Running,
    /// The server cannot be reached; another try comes.
    Interrupted,
    /// The session was killed but the server is there; reinitialize comes.
    Lost,
    /// The server showed a key it is not known by.
    KeyChanged,
    /// The local program would not start.
    Failed,
}

#[derive(Clone, Copy, PartialEq, Eq, Structural, Debug)]
pub enum MenuItem {
    Restart,
    Reinitialize,
    Logout,
    Exit,
}

pub open spec fn is_login(s: ScreenKind) -> bool {
    s == ScreenKind::Login || s == ScreenKind::LoggingIn
}

/// The menu: restart for a local program; for ssh, reinitialize and logout
/// once there is a saved setup (reinitialize not on the login screen), and
/// exit on the login screen.
pub open spec fn menu_spec(local: bool, has_saved: bool, screen: ScreenKind) -> Seq<MenuItem> {
    if local {
        seq![MenuItem::Restart]
    } else {
        (if has_saved && !is_login(screen) { seq![MenuItem::Reinitialize] } else { seq![] })
            + (if has_saved { seq![MenuItem::Logout] } else { seq![] })
            + (if is_login(screen) { seq![MenuItem::Exit] } else { seq![] })
    }
}

/// The entries of the menu.
pub fn menu_items(local: bool, has_saved: bool, screen: ScreenKind) -> (items: Vec<MenuItem>)
    ensures
        items@ == menu_spec(local, has_saved, screen),
{
    let mut items: Vec<MenuItem> = Vec::new();
    if local {
        items.push(MenuItem::Restart);
        assert(items@ =~= menu_spec(local, has_saved, screen));
        return items;
    }
    let login = screen == ScreenKind::Login || screen == ScreenKind::LoggingIn;
    if has_saved && !login {
        items.push(MenuItem::Reinitialize);
    }
    if has_saved {
        items.push(MenuItem::Logout);
    }
    if login {
        items.push(MenuItem::Exit);
    }
    assert(items@ =~= menu_spec(local, has_saved, screen));
    items
}

/// The buttons of the status card.
#[derive(Clone, Copy, PartialEq, Eq, Structural, Debug)]
pub enum CardAction {
    RetryNow,
    RetryLocal,
    Logout,
    Back,
    AcceptKey,
    Exit,
}

/// What the status card is about, beyond the screen it is on.
pub struct CardState<'a> {
    pub screen: ScreenKind,
    /// A session is under way.
    pub trying: bool,
    /// The ssh settings of the card (all off without ssh).
    pub retry_button: bool,
    pub logout_button: bool,
    pub changed_key_accept: bool,
    /// There is a saved setup to log out of.
    pub has_saved: bool,
    /// The server, as the window shows it.
    pub server: &'a str,
    /// Of a changed key: the change (none when the config pins the keys),
    /// the fingerprint shown, and whether it came straight from the form.
    pub change: Option<&'a KeyChange>,
    pub new_key: &'a str,
    pub first: bool,
    /// Accepting the key went wrong.
    pub key_error: Option<&'a str>,
    /// The key is accepted on its own at a deadline.
    pub accept_pending: bool,
    /// Whole seconds until the screen's deadline.
    pub secs: &'a str,
    /// Why the local program did not start.
    pub failed: &'a str,
}

/// The card, as characters.
pub struct CardView {
    pub title: Seq<char>,
    pub body: Seq<char>,
    pub danger: bool,
    pub body_mono: bool,
    pub note: Option<Seq<char>>,
    pub buttons: Seq<(CardAction, Seq<char>)>,
    pub spinner: bool,
}

/// The box in the middle of the window.
pub struct Card {
    pub title: String,
    pub body: String,
    /// Red, for a changed server key.
    pub danger: bool,
    pub body_mono: bool,
    pub note: Option<String>,
    pub buttons: Vec<(CardAction, String)>,
    pub spinner: bool,
}

pub open spec fn buttons_view(b: Seq<(CardAction, String)>) -> Seq<(CardAction, Seq<char>)> {
    b.map_values(|p: (CardAction, String)| (p.0, p.1@))
}

pub open spec fn opt_str(o: Option<String>) -> Option<Seq<char>> {
    match o {
        Some(s) => Some(s@),
        None => None,
    }
}

impl Card {
    pub open spec fn view(&self) -> CardView {
        CardView {
            title: self.title@,
            body: self.body@,
            danger: self.danger,
            body_mono: self.body_mono,
            note: opt_str(self.note),
            buttons: buttons_view(self.buttons@),
            spinner: self.spinner,
        }
    }
}

/// The body of the changed key card: the details of the change, or the key
/// that is not among the pinned ones.
pub open spec fn key_body(t: Text, s: CardState) -> Seq<char> {
    match s.change {
        Some(c) => fill_spec(
            t.key_changed_body@,
            seq![
                ("server"@, s.server@),
                ("old"@, c.old@),
                ("new"@, c.new@),
                ("line"@, decimal_chars(c.line as nat)),
                ("file"@, c.file@),
            ],
        ),
        None => fill_spec(t.key_mismatch_body@, seq![("server"@, s.server@), ("new"@, s.new_key@)]),
    }
}

/// What the status card shows and offers on each screen; none on the others.
pub open spec fn card_spec(t: Text, s: CardState) -> Option<CardView> {
    let logout = if s.logout_button && s.has_saved { seq![(CardAction::Logout, t.menu_logout@)] } else { seq![] };
    let retry = if s.retry_button && !s.trying { seq![(CardAction::RetryNow, t.retry_now@)] } else { seq![] };
    let spinner = s.screen == ScreenKind::Connecting || s.screen == ScreenKind::Interrupted || s.trying;
    let plain = CardView {
        title: Seq::empty(),
        body: Seq::empty(),
        danger: false,
        body_mono: false,
        note: None,
        buttons: Seq::empty(),
        spinner,
    };
    match s.screen {
        ScreenKind::Connecting => Some(
            CardView { title: fill_spec(t.connecting@, seq![("server"@, s.server@)]), buttons: logout, ..plain },
        ),
        ScreenKind::Interrupted => Some(
            CardView { title: t.interrupted_title@, body: t.interrupted_body@, buttons: retry + logout, ..plain },
        ),
        ScreenKind::Lost => Some(
            CardView {
                title: t.lost_title@,
                body: fill_spec(t.lost_body@, seq![("secs"@, s.secs@)]),
                buttons: retry + logout,
                ..plain
            },
        ),
        ScreenKind::KeyChanged => Some(
            CardView {
                title: t.key_changed_title@,
                body: key_body(t, s),
                danger: true,
                body_mono: true,
                note: match s.key_error {
                    Some(e) => Some(e@),
                    None => if s.accept_pending {
                        Some(fill_spec(t.accept_key_in@, seq![("secs"@, s.secs@)]))
                    } else {
                        None
                    },
                },
                buttons: (if s.change is Some && s.changed_key_accept {
                    seq![(CardAction::AcceptKey, t.accept_key@)]
                } else {
                    seq![]
                }) + (if s.retry_button { seq![(CardAction::RetryNow, t.retry_now@)] } else { seq![] }) + (if s.first {
                    seq![(CardAction::Back, t.cancel@)]
                } else {
                    logout
                }),
                ..plain
            },
        ),
        ScreenKind::Failed => Some(
            CardView {
                body: s.failed@,
                buttons: seq![(CardAction::RetryLocal, t.retry@), (CardAction::Exit, t.exit@)],
                ..plain
            },
        ),
        _ => None,
    }
}

fn push_button(buttons: &mut Vec<(CardAction, String)>, a: CardAction, label: &String)
    ensures
        buttons_view(final(buttons)@) == buttons_view(old(buttons)@).push((a, label@)),
{
    buttons.push((a, label.clone()));
    assert(buttons_view(buttons@) =~= buttons_view(old(buttons)@).push((a, label@)));
}

fn key_body_of(t: &Text, s: &CardState) -> (b: String)
    ensures
        b@ == key_body(*t, *s),
{
    match s.change {
        Some(c) => {
            let mut line = String::new();
            push_decimal_chars(&mut line, c.line as u64);
            let vars = [
                ("server", s.server),
                ("old", c.old.as_str()),
                ("new", c.new.as_str()),
                ("line", line.as_str()),
                ("file", c.file.as_str()),
            ];
            proof {
                reveal_strlit("server");
                reveal_strlit("old");
                reveal_strlit("new");
                reveal_strlit("line");
                reveal_strlit("file");
            }
            assert(pairs_view(vars@) =~= seq![
                ("server"@, s.server@),
                ("old"@, c.old@),
                ("new"@, c.new@),
                ("line"@, decimal_chars(c.line as nat)),
                ("file"@, c.file@),
            ]);
            fill(t.key_changed_body.as_str(), &vars)
        },
        None => fill2(t.key_mismatch_body.as_str(), "server", s.server, "new", s.new_key),
    }
}

/// The status card of the screen, if it has one.
pub fn status_card(t: &Text, s: &CardState) -> (card: Option<Card>)
    ensures
        match (card, card_spec(*t, *s)) {
            (Some(c), Some(v)) => c.view() == v,
            (None, None) => true,
            _ => false,
        },
{
    let spinner = s.screen == ScreenKind::Connecting || s.screen == ScreenKind::Interrupted || s.trying;
    let can_logout = s.logout_button && s.has_saved;
    let mut buttons: Vec<(CardAction, String)> = Vec::new();
    let ghost logout = if can_logout { seq![(CardAction::Logout, t.menu_logout@)] } else { seq![] };
    let ghost retry = if s.retry_button && !s.trying { seq![(CardAction::RetryNow, t.retry_now@)] } else { seq![] };
    match s.screen {
        ScreenKind::Connecting => {
            if can_logout {
                push_button(&mut buttons, CardAction::Logout, &t.menu_logout);
            }
            assert(buttons_view(buttons@) =~= logout);
            Some(Card {
                title: fill1(t.connecting.as_str(), "server", s.server),
                body: String::new(),
                danger: false,
                body_mono: false,
                note: None,
                buttons,
                spinner,
            })
        },
        ScreenKind::Interrupted | ScreenKind::Lost => {
            if s.retry_button && !s.trying {
                push_button(&mut buttons, CardAction::RetryNow, &t.retry_now);
            }
            if can_logout {
                push_button(&mut buttons, CardAction::Logout, &t.menu_logout);
            }
            assert(buttons_view(buttons@) =~= retry + logout);
            if s.screen == ScreenKind::Interrupted {
                Some(Card {
                    title: t.interrupted_title.clone(),
                    body: t.interrupted_body.clone(),
                    danger: false,
                    body_mono: false,
                    note: None,
                    buttons,
                    spinner,
                })
            } else {
                Some(Card {
                    title: t.lost_title.clone(),
                    body: fill1(t.lost_body.as_str(), "secs", s.secs),
                    danger: false,
                    body_mono: false,
                    note: None,
                    buttons,
                    spinner,
                })
            }
        },
        ScreenKind::KeyChanged => {
            let body = key_body_of(t, s);
            if s.change.is_some() && s.changed_key_accept {
                push_button(&mut buttons, CardAction::AcceptKey, &t.accept_key);
            }
            if s.retry_button {
                push_button(&mut buttons, CardAction::RetryNow, &t.retry_now);
            }
            if s.first {
                push_button(&mut buttons, CardAction::Back, &t.cancel);
            } else if can_logout {
                push_button(&mut buttons, CardAction::Logout, &t.menu_logout);
            }
            let note = match s.key_error {
                Some(e) => Some(String::from_str(e)),
                None => if s.accept_pending {
                    Some(fill1(t.accept_key_in.as_str(), "secs", s.secs))
                } else {
                    None
                },
            };
            let ghost want = card_spec(*t, *s)->0;
            assert(buttons_view(buttons@) =~= want.buttons);
            Some(Card {
                title: t.key_changed_title.clone(),
                body,
                danger: true,
                body_mono: true,
                note,
                buttons,
                spinner,
            })
        },
        ScreenKind::Failed => {
            push_button(&mut buttons, CardAction::RetryLocal, &t.retry);
            push_button(&mut buttons, CardAction::Exit, &t.exit);
            assert(buttons_view(buttons@) =~= seq![(CardAction::RetryLocal, t.retry@), (CardAction::Exit, t.exit@)]);
            Some(Card {
                title: String::new(),
                body: String::from_str(s.failed),
                danger: false,
                body_mono: false,
                note: None,
                buttons,
                spinner,
            })
        },
        _ => None,
    }
}


/// What comes after a session ended, as the window does it.
pub enum Next {
    /// The window closes.
    Close,
    /// The local program starts again.
    StartLocal,
    /// The local program could not start; the card says why.
    Failed(String),
    /// A new session from the saved setup, with the connecting card meanwhile.
    Reconnect,
    /// Back to the login form, with this error.
    BackToLogin(Option<String>),
    /// The password is forgotten, then back to the login form with this error.
    ForgetAndLogin(String),
    /// The changed key screen: the change (none for a key that is not
    /// pinned) and the fingerprint the server showed.
    KeyChanged(Option<KeyChange>, String),
    /// The server cannot be reached: try again later.
    Interrupted,
    /// The session is gone: reinitialize later.
    Lost,
}

/// [`Next`] as characters.
pub enum NextView {
    Close,
    StartLocal,
    Failed(Seq<char>),
    Reconnect,
    BackToLogin(Option<Seq<char>>),
    ForgetAndLogin(Seq<char>),
    KeyChanged(Option<KeyChange>, Seq<char>),
    Interrupted,
    Lost,
}

impl Next {
    pub open spec fn view(&self) -> NextView {
        match self {
            Next::Close => NextView::Close,
            Next::StartLocal => NextView::StartLocal,
            Next::Failed(s) => NextView::Failed(s@),
            Next::Reconnect => NextView::Reconnect,
            Next::BackToLogin(e) => NextView::BackToLogin(opt_str(*e)),
            Next::ForgetAndLogin(e) => NextView::ForgetAndLogin(e@),
            Next::KeyChanged(c, n) => NextView::KeyChanged(*c, n@),
            Next::Interrupted => NextView::Interrupted,
            Next::Lost => NextView::Lost,
        }
    }
}

/// After the local program ended: a program that is missing or would not
/// start gets the failed card, else the config says close or restart.
pub open spec fn local_ended_spec(t: Text, local: Local, end: End) -> NextView {
    match end {
        End::NotFound => NextView::Failed(fill_spec(t.program_missing@, seq![("program"@, local.program@)])),
        End::Failed(e) => NextView::Failed(
            fill_spec(t.start_failed@, seq![("program"@, local.program@), ("error"@, e@)]),
        ),
        _ => match local.on_exit {
            LocalOnExit::Close => NextView::Close,
            LocalOnExit::Restart => NextView::StartLocal,
        },
    }
}

/// What follows the end of the local program.
pub fn local_ended(t: &Text, local: &Local, end: End) -> (next: Next)
    ensures
        next.view() == local_ended_spec(*t, *local, end),
{
    match end {
        End::NotFound => Next::Failed(fill1(t.program_missing.as_str(), "program", local.program.as_str())),
        End::Failed(e) => Next::Failed(
            fill2(t.start_failed.as_str(), "program", local.program.as_str(), "error", e.as_str()),
        ),
        _ => match local.on_exit {
            LocalOnExit::Close => Next::Close,
            LocalOnExit::Restart => Next::StartLocal,
        },
    }
}

/// After an ssh session ended. `first` is the first connect from the login
/// form: what goes wrong there goes back to the form with an error, where a
/// running session would be retried.
pub open spec fn ssh_ended_spec(t: Text, on_exit: SshOnExit, first: bool, server: Seq<char>, end: End) -> NextView {
    match end {
        End::Exited if !first => match on_exit {
            SshOnExit::Close => NextView::Close,
            SshOnExit::Reinitialize => NextView::Reconnect,
            SshOnExit::Login => NextView::BackToLogin(None),
        },
        End::AuthFailed => NextView::ForgetAndLogin(t.auth_failed@),
        End::HostKeyDeclined => NextView::BackToLogin(Some(t.host_key_declined@)),
        End::HostKeyChanged(c) => NextView::KeyChanged(Some(c), c.new@),
        End::HostKeyMismatch { new } => NextView::KeyChanged(None, new@),
        End::Failed(e) => NextView::BackToLogin(Some(fill_spec(t.failed@, seq![("error"@, e@)]))),
        End::Unreachable(e) => if first {
            NextView::BackToLogin(Some(fill_spec(t.unreachable@, seq![("server"@, server), ("error"@, e@)])))
        } else {
            NextView::Interrupted
        },
        _ => if first {
            NextView::BackToLogin(Some(fill_spec(t.failed@, seq![("error"@, "the server closed the connection"@)])))
        } else {
            NextView::Lost
        },
    }
}

/// What follows the end of an ssh session.
pub fn ssh_ended(t: &Text, on_exit: SshOnExit, first: bool, server: &str, end: End) -> (next: Next)
    ensures
        next.view() == ssh_ended_spec(*t, on_exit, first, server@, end),
{
    match end {
        End::Exited if !first => match on_exit {
            SshOnExit::Close => Next::Close,
            SshOnExit::Reinitialize => Next::Reconnect,
            SshOnExit::Login => Next::BackToLogin(None),
        },
        End::AuthFailed => Next::ForgetAndLogin(t.auth_failed.clone()),
        End::HostKeyDeclined => Next::BackToLogin(Some(t.host_key_declined.clone())),
        End::HostKeyChanged(c) => {
            let new = c.new.clone();
            Next::KeyChanged(Some(c), new)
        },
        End::HostKeyMismatch { new } => Next::KeyChanged(None, new),
        End::Failed(e) => Next::BackToLogin(Some(fill1(t.failed.as_str(), "error", e.as_str()))),
        End::Unreachable(e) => if first {
            Next::BackToLogin(Some(fill2(t.unreachable.as_str(), "server", server, "error", e.as_str())))
        } else {
            Next::Interrupted
        },
        _ => if first {
            Next::BackToLogin(Some(fill1(t.failed.as_str(), "error", "the server closed the connection")))
        } else {
            Next::Lost
        },
    }
}


/// The server a login goes to: the one the config fixes, else what was typed, trimmed.
pub open spec fn server_of_spec(ssh: Option<Ssh>, typed: Seq<char>) -> Seq<char> {
    match ssh {
        Some(s) => match s.server {
            Some(p) => p@,
            None => trim(typed),
        },
        None => trim(typed),
    }
}

/// The server a login goes to.
pub fn server_of(ssh: &Option<Ssh>, typed: &str) -> (server: String)
    ensures
        server@ == server_of_spec(*ssh, typed@),
{
    if let Some(s) = ssh {
        if let Some(p) = &s.server {
            return p.clone();
        }
    }
    let t = trimmed(chars_of(typed).as_slice());
    string_of(t.as_slice())
}

/// The server the window talks about: the saved setup's, else the form's.
pub open spec fn server_label_spec(ssh: Option<Ssh>, saved: Option<Saved>, typed: Seq<char>) -> Seq<char> {
    match saved {
        Some(s) if server_of_spec(ssh, s.server@).len() > 0 => server_of_spec(ssh, s.server@),
        _ => server_of_spec(ssh, typed),
    }
}

/// The server the window talks about.
pub fn server_label(ssh: &Option<Ssh>, saved: &Option<Saved>, typed: &str) -> (label: String)
    ensures
        label@ == server_label_spec(*ssh, *saved, typed@),
{
    if let Some(s) = saved {
        let from_saved = server_of(ssh, s.server.as_str());
        if !from_saved.as_str().is_empty() {
            return from_saved;
        }
    }
    server_of(ssh, typed)
}

/// A saved setup has all a login needs: a server and a user name.
pub open spec fn setup_complete_spec(ssh: Option<Ssh>, saved: Option<Saved>) -> bool {
    match saved {
        Some(s) => server_of_spec(ssh, s.server@).len() > 0 && s.username@.len() > 0,
        None => false,
    }
}

/// Whether the saved setup has all a login needs.
pub fn setup_complete(ssh: &Option<Ssh>, saved: &Option<Saved>) -> (b: bool)
    ensures
        b == setup_complete_spec(*ssh, *saved),
{
    match saved {
        Some(s) => {
            let server = server_of(ssh, s.server.as_str());
            !server.as_str().is_empty() && !s.username.as_str().is_empty()
        },
        None => false,
    }
}

/// What is wrong with a login before it is tried: no server, no user name,
/// or a kiosk pin that is not 4 to 16 digits.
pub open spec fn login_error_spec(t: Text, server: Seq<char>, username: Seq<char>, pin_shown: bool, pin: Seq<char>) -> Option<Seq<char>> {
    if server.len() == 0 {
        Some(t.missing_server@)
    } else if trim(username).len() == 0 {
        Some(t.missing_username@)
    } else if pin_shown && pin.len() > 0 && !pin_ok_spec(encode_utf8(pin)) {
        Some(t.bad_pin@)
    } else {
        None
    }
}

/// What is wrong with a login from the form, if anything.
pub fn login_error(t: &Text, server: &str, username: &str, pin_shown: bool, pin: &str) -> (e: Option<String>)
    ensures
        opt_str(e) == login_error_spec(*t, server@, username@, pin_shown, pin@),
{
    let user = trimmed(chars_of(username).as_slice());
    if server.is_empty() {
        Some(t.missing_server.clone())
    } else if user.len() == 0 {
        Some(t.missing_username.clone())
    } else if pin_shown && !pin.is_empty() && !pin_ok(pin) {
        Some(t.bad_pin.clone())
    } else {
        None
    }
}

/// The command a login runs: the user's login shell when the shell box is
/// there and ticked, else the configured command (none: the login shell too).
pub open spec fn remote_command_spec(ssh: Ssh, login_shell: bool) -> Option<Seq<char>> {
    if ssh.shell_toggle is Some && login_shell {
        None
    } else {
        opt_str(ssh.command)
    }
}

/// The command a login runs.
pub fn remote_command(ssh: &Ssh, login_shell: bool) -> (c: Option<String>)
    ensures
        opt_str(c) == remote_command_spec(*ssh, login_shell),
{
    if ssh.shell_toggle.is_some() && login_shell {
        None
    } else {
        match &ssh.command {
            Some(c) => Some(c.clone()),
            None => None,
        }
    }
}

/// The login form's checks. A server fixed in the config is where every
/// login goes, whatever was typed; without one it is what was typed, with
/// the surrounding whitespace gone. A login is refused for a missing server
/// first, then for a blank user name, then (where the pin field shows and
/// something was typed in it) for a pin that is not 4 to 16 digits; a login
/// that is not refused has a server, a user name that is not blank, and no
/// pin or a good one.
pub proof fn law_login_form(t: Text, ssh: Option<Ssh>, a: Seq<char>, b: Seq<char>, server: Seq<char>,
    username: Seq<char>, pin_shown: bool, pin: Seq<char>)
    ensures
        (ssh matches Some(s) && s.server is Some) ==> server_of_spec(ssh, a) == server_of_spec(ssh, b)
            && server_of_spec(ssh, a) == ssh->0.server->0@,
        !(ssh matches Some(s) && s.server is Some) ==> server_of_spec(ssh, a) == trim(a),
        server.len() == 0 ==> login_error_spec(t, server, username, pin_shown, pin) == Some(t.missing_server@),
        server.len() > 0 && trim(username).len() == 0 ==> login_error_spec(t, server, username, pin_shown, pin)
            == Some(t.missing_username@),
        login_error_spec(t, server, username, pin_shown, pin) is None ==> {
            &&& server.len() > 0
            &&& trim(username).len() > 0
            &&& pin_shown && pin.len() > 0 ==> 4 <= encode_utf8(pin).len() <= 16
                && forall|i: int| 0 <= i < encode_utf8(pin).len() ==> 0x30 <= #[trigger] encode_utf8(pin)[i] <= 0x39
        },
        server.len() > 0 && trim(username).len() > 0 && (!pin_shown || pin.len() == 0)
            ==> login_error_spec(t, server, username, pin_shown, pin) is None,
{
}

/// Which command a login runs. Without a shell box in the config the
/// configured `ssh.command` runs whatever `login_shell` says (so both values
/// give the same); with one, a ticked box runs the user's login shell (no
/// command) and an unticked one the configured command.
pub proof fn law_remote_command(ssh: Ssh, login_shell: bool)
    ensures
        ssh.shell_toggle is None ==> remote_command_spec(ssh, login_shell) == (match ssh.command {
            Some(c) => Some(c@),
            None => None::<Seq<char>>,
        }),
        ssh.shell_toggle is None ==> remote_command_spec(ssh, true) == remote_command_spec(ssh, false),
        ssh.shell_toggle is Some ==> remote_command_spec(ssh, true) is None,
        ssh.shell_toggle is Some ==> remote_command_spec(ssh, false) == (match ssh.command {
            Some(c) => Some(c@),
            None => None::<Seq<char>>,
        }),
{
}

/// Where the window's kiosk pin field shows: on a kiosk that has no saved setup yet.
pub fn pin_field_shown(kiosk: bool, has_saved: bool) -> (b: bool)
    ensures
        b == (kiosk && !has_saved),
{
    kiosk && !has_saved
}

/// The kiosk pin after a login: a new one typed in the pin field, stored
/// with a fresh salt; else the one saved before.
pub fn kiosk_pin_after_login(pin_shown: bool, pin: &str, saved: &Option<Saved>) -> (p: Option<String>)
    ensures
        pin_shown && pin@.len() > 0 ==> (p matches Some(r) && exists|salt: Seq<u8>| salt.len() == 16 && r@ == pin_record(salt, pin@)),
        !(pin_shown && pin@.len() > 0) ==> opt_str(p) == (match saved {
            Some(s) => opt_str(s.kiosk_pin),
            None => None,
        }),
{
    if pin_shown && !pin.is_empty() {
        Some(hash_pin(pin))
    } else {
        match saved {
            Some(s) => match &s.kiosk_pin {
                Some(k) => Some(k.clone()),
                None => None,
            },
            None => None,
        }
    }
}

/// The setup a first login leaves: the server (not a fixed one, which is not
/// ours to remember), the user name trimmed, the boxes, the kiosk pin.
pub open spec fn login_record_spec(preset: bool, server: Seq<char>, username: Seq<char>, login_shell: bool,
    remember_server: bool, remember_username: bool) -> (Seq<char>, Seq<char>, bool, bool, bool) {
    (if preset { Seq::empty() } else { server }, trim(username), login_shell, remember_server, remember_username)
}

/// The setup a first login leaves, and whether the password is kept for the
/// next launch (only where both server and user name are remembered, else
/// there is nothing to find it by).
pub fn login_record(preset: bool, server: &str, username: &str, login_shell: bool, remember_server: bool,
    remember_username: bool, kiosk_pin: Option<String>) -> (r: (Saved, bool))
    ensures
        (r.0.server@, r.0.username@, r.0.login_shell, r.0.remember_server, r.0.remember_username) == login_record_spec(
            preset, server@, username@, login_shell, remember_server, remember_username),
        r.0.kiosk_pin == kiosk_pin,
        r.1 == ((preset || remember_server) && remember_username),
{
    let user = trimmed(chars_of(username).as_slice());
    let saved = Saved {
        server: if preset { String::new() } else { String::from_str(server) },
        username: string_of(user.as_slice()),
        login_shell,
        remember_server,
        remember_username,
        kiosk_pin,
    };
    (saved, (preset || remember_server) && remember_username)
}

/// When a changed key is accepted on its own, in seconds from now: with a
/// change to accept, where the config allows that after a delay.
pub fn auto_accept_after(ssh: &Option<Ssh>, has_change: bool) -> (secs: Option<u64>)
    ensures
        secs == (match ssh {
            Some(s) => if has_change && s.changed_key_accept && s.changed_key_accept_after_secs > 0 {
                Some(s.changed_key_accept_after_secs)
            } else {
                None
            },
            None => None,
        }),
{
    match ssh {
        Some(s) => if has_change && s.changed_key_accept && s.changed_key_accept_after_secs > 0 {
            Some(s.changed_key_accept_after_secs)
        } else {
            None
        },
        None => None,
    }
}

/// A pin dialog's confirm goes through: there is no stored pin, or the pin matches it.
pub fn pin_accepted(stored: &Option<String>, pin: &str) -> (ok: bool)
    ensures
        ok == (match stored {
            Some(s) => check_pin_spec(s@, pin@),
            None => true,
        }),
{
    match stored {
        Some(s) => check_pin(s.as_str(), pin),
        None => true,
    }
}

pub open spec fn is_ascii_digit(c: char) -> bool {
    '0' <= c <= '9'
}

pub open spec fn all_ascii_digits(s: Seq<char>) -> bool {
    forall|i: int| 0 <= i < s.len() ==> is_ascii_digit(#[trigger] s[i])
}

/// What the on screen keyboard does to a pin being typed: digits are added,
/// backspace takes the last character, the rest does nothing.
pub open spec fn pin_key_spec(pin: Seq<char>, press: PressView) -> Seq<char> {
    match press {
        PressView::Text(s) => if all_ascii_digits(s) { pin + s } else { pin },
        PressView::Special(n) => if n == "bksp"@ {
            if pin.len() > 0 { pin.drop_last() } else { pin }
        } else {
            pin
        },
        PressView::Ctrl(_) => pin,
    }
}

/// `s` without its last character.
pub fn drop_last_char(s: &mut String)
    ensures
        final(s)@ == (if old(s)@.len() > 0 { old(s)@.drop_last() } else { old(s)@ }),
{
    let cs = chars_of(s.as_str());
    if cs.len() > 0 {
        let mut out = String::new();
        let mut i: usize = 0;
        let n = cs.len() - 1;
        while i < n
            invariant
                cs@ == old(s)@,
                n == cs@.len() - 1,
                i <= n,
                out@ == cs@.take(i as int),
            decreases cs@.len() - i,
        {
            push_char(&mut out, cs[i]);
            i = i + 1;
            assert(out@ =~= cs@.take(i as int));
        }
        assert(cs@.take(i as int) =~= cs@.drop_last());
        *s = out;
    }
}

/// A key of the on screen keyboard typed into a pin dialog.
pub fn pin_key(pin: &mut String, press: &Press)
    ensures
        final(pin)@ == pin_key_spec(old(pin)@, press@),
{
    match press {
        Press::Text(s) => {
            let cs = chars_of(s.as_str());
            let mut i: usize = 0;
            while i < cs.len()
                invariant
                    i <= cs@.len(),
                    cs@ == s@,
                    press@ == PressView::Text(s@),
                    pin@ == old(pin)@,
                    forall|k: int| 0 <= k < i ==> is_ascii_digit(#[trigger] cs@[k]),
                decreases cs@.len() - i,
            {
                if !('0' <= cs[i] && cs[i] <= '9') {
                    assert(!is_ascii_digit(s@[i as int]));
                    assert(!all_ascii_digits(s@));
                    return;
                }
                i = i + 1;
            }
            pin.append(s.as_str());
        },
        Press::Special(n) => {
            if str_eq(n.as_str(), "bksp") {
                drop_last_char(pin);
            }
        },
        Press::Ctrl(_) => {},
    }
}

/// The ASCII digits of `s`, in order.
pub open spec fn digits_of(s: Seq<char>) -> Seq<char>
    decreases s.len(),
{
    if s.len() == 0 {
        Seq::empty()
    } else if is_ascii_digit(s.last()) {
        digits_of(s.drop_last()).push(s.last())
    } else {
        digits_of(s.drop_last())
    }
}

/// Text typed on a real keyboard into the pin pad: its digits are added.
pub fn pin_pad_typed(pin: &mut String, typed: &str)
    ensures
        final(pin)@ == old(pin)@ + digits_of(typed@),
{
    let cs = chars_of(typed);
    let mut i: usize = 0;
    while i < cs.len()
        invariant
            i <= cs@.len(),
            cs@ == typed@,
            pin@ == old(pin)@ + digits_of(cs@.take(i as int)),
        decreases cs@.len() - i,
    {
        assert(cs@.take(i + 1).drop_last() =~= cs@.take(i as int));
        if '0' <= cs[i] && cs[i] <= '9' {
            push_char(pin, cs[i]);
        }
        i = i + 1;
        assert(pin@ =~= old(pin)@ + digits_of(cs@.take(i as int)));
    }
    assert(cs@.take(cs@.len() as int) =~= cs@);
}

/// A pin is at most 16 characters (it only ever holds digits): the rest is cut.
pub fn clip_pin(pin: &mut String)
    ensures
        final(pin)@ == (if old(pin)@.len() > 16 { old(pin)@.take(16) } else { old(pin)@ }),
{
    let cs = chars_of(pin.as_str());
    if cs.len() > 16 {
        let mut out = String::new();
        let mut i: usize = 0;
        while i < 16
            invariant
                cs@ == old(pin)@,
                cs@.len() > 16,
                i <= 16,
                out@ == cs@.take(i as int),
            decreases 16 - i,
        {
            push_char(&mut out, cs[i]);
            i = i + 1;
            assert(out@ =~= cs@.take(i as int));
        }
        *pin = out;
    }
}

/// What a key of the on screen keyboard does to the login form.
pub enum Edit {
    Nothing,
    /// Typed at the end of the focused field.
    Append(String),
    /// The focused field loses its last character.
    Pop,
    /// The connect button.
    Submit,
}

pub enum EditView {
    Nothing,
    Append(Seq<char>),
    Pop,
    Submit,
}

impl Edit {
    pub open spec fn view(&self) -> EditView {
        match self {
            Edit::Nothing => EditView::Nothing,
            Edit::Append(s) => EditView::Append(s@),
            Edit::Pop => EditView::Pop,
            Edit::Submit => EditView::Submit,
        }
    }
}

/// The focus the keyboard types into: the focused field if one can type in
/// it, else the first of the fields.
pub open spec fn osk_focus(fields: Seq<Field>, focus: Field) -> Field {
    if fields.contains(focus) { focus } else { fields[0] }
}

/// The field after `f` in tab order, round to the first after the last.
pub open spec fn next_field(fields: Seq<Field>, f: Field) -> Field {
    let at = choose|i: int| 0 <= i < fields.len() && fields[i] == f && forall|j: int| 0 <= j < i ==> fields[j] != f;
    fields[(at + 1) % (fields.len() as int)]
}

/// What an on screen keyboard key does on the login form: text goes into the
/// focused field, backspace takes from it, space types one, tab moves the
/// focus on, enter connects.
pub open spec fn login_key_spec(fields: Seq<Field>, focus: Field, press: PressView) -> (Field, EditView) {
    let f = osk_focus(fields, focus);
    match press {
        PressView::Text(s) => (f, EditView::Append(s)),
        PressView::Special(n) => if n == "bksp"@ {
            (f, EditView::Pop)
        } else if n == "space"@ {
            (f, EditView::Append(seq![' ']))
        } else if n == "tab"@ {
            (next_field(fields, f), EditView::Nothing)
        } else if n == "enter"@ {
            (f, EditView::Submit)
        } else {
            (f, EditView::Nothing)
        },
        PressView::Ctrl(_) => (f, EditView::Nothing),
    }
}

fn position(fields: &Vec<Field>, f: Field) -> (at: Option<usize>)
    ensures
        match at {
            Some(i) => i < fields@.len() && fields@[i as int] == f && forall|j: int| 0 <= j < i ==> fields@[j] != f,
            None => !fields@.contains(f),
        },
{
    let mut i: usize = 0;
    while i < fields.len()
        invariant
            i <= fields@.len(),
            forall|j: int| 0 <= j < i ==> fields@[j] != f,
        decreases fields@.len() - i,
    {
        if fields[i] == f {
            return Some(i);
        }
        i = i + 1;
    }
    None
}

/// An on screen keyboard key on the login form: the new focus and the edit.
pub fn login_key(fields: &Vec<Field>, focus: Field, press: &Press) -> (r: (Field, Edit))
    requires
        fields@.len() > 0,
    ensures
        (r.0, r.1.view()) == login_key_spec(fields@, focus, press@),
{
    let f = match position(fields, focus) {
        Some(_) => focus,
        None => fields[0],
    };
    match press {
        Press::Text(s) => (f, Edit::Append(s.clone())),
        Press::Special(n) => {
            let n = n.as_str();
            if str_eq(n, "bksp") {
                (f, Edit::Pop)
            } else if str_eq(n, "space") {
                let mut sp = String::new();
                push_char(&mut sp, ' ');
                (f, Edit::Append(sp))
            } else if str_eq(n, "tab") {
                let found = position(fields, f);
                let at: usize = match found {
                    Some(i) => i,
                    None => 0,
                };
                assert(at < fields@.len());
                assert(found is Some) by {
                    if fields@.contains(focus) {
                    } else {
                        assert(fields@[0] == f);
                    }
                }
                proof {
                    let w = choose|i: int| 0 <= i < fields@.len() && fields@[i] == f && forall|j: int| 0 <= j < i ==> fields@[j] != f;
                    assert(fields@[at as int] == f);
                    assert(w == at) by {
                        if w < at {
                        } else if w > at {
                        }
                    }
                }
                let len = fields.len();
                let next: usize = if at + 1 < len { at + 1 } else { 0 };
                assert(next as int == (at as int + 1) % (len as int)) by (nonlinear_arith)
                    requires
                        at < len,
                        next == (if at + 1 < len { at + 1 } else { 0 }),
                ;
                (fields[next], Edit::Nothing)
            } else if str_eq(n, "enter") {
                (f, Edit::Submit)
            } else {
                (f, Edit::Nothing)
            }
        },
        Press::Ctrl(_) => (f, Edit::Nothing),
    }
}

/// A control character (Unicode's Cc): C0, DEL and C1.
pub open spec fn is_control(c: char) -> bool {
    (c as u32) < 0x20 || (0x7f <= (c as u32) && (c as u32) < 0xa0)
}

/// `s` without its control characters.
pub open spec fn printable(s: Seq<char>) -> Seq<char>
    decreases s.len(),
{
    if s.len() == 0 {
        Seq::empty()
    } else if is_control(s.last()) {
        printable(s.drop_last())
    } else {
        printable(s.drop_last()).push(s.last())
    }
}

/// What typed text sends to the app: its UTF-8, control characters left out.
pub fn typed_bytes(text: &str) -> (b: Vec<u8>)
    ensures
        b@ == encode_utf8(printable(text@)),
{
    let cs = chars_of(text);
    let mut kept = String::new();
    let mut i: usize = 0;
    while i < cs.len()
        invariant
            i <= cs@.len(),
            cs@ == text@,
            kept@ == printable(cs@.take(i as int)),
        decreases cs@.len() - i,
    {
        assert(cs@.take(i + 1).drop_last() =~= cs@.take(i as int));
        let c = cs[i];
        let u = c as u32;
        if !(u < 0x20 || (0x7f <= u && u < 0xa0)) {
            push_char(&mut kept, c);
        }
        i = i + 1;
    }
    assert(cs@.take(cs@.len() as int) =~= cs@);
    vstd::slice::slice_to_vec(kept.as_str().as_bytes())
}

/// Pasted text: line feeds become carriage returns, as a terminal sends Enter.
pub open spec fn pasted(s: Seq<char>) -> Seq<char> {
    s.map_values(|c: char| if c == '\n' { '\r' } else { c })
}

/// What pasted text sends to the app: its UTF-8, line feeds as carriage returns.
pub fn paste_bytes(text: &str) -> (b: Vec<u8>)
    ensures
        b@ == encode_utf8(pasted(text@)),
{
    let cs = chars_of(text);
    let mut out = String::new();
    let mut i: usize = 0;
    while i < cs.len()
        invariant
            i <= cs@.len(),
            cs@ == text@,
            out@ == pasted(cs@.take(i as int)),
        decreases cs@.len() - i,
    {
        let c = cs[i];
        push_char(&mut out, if c == '\n' { '\r' } else { c });
        i = i + 1;
        assert(out@ =~= pasted(cs@.take(i as int)));
    }
    assert(cs@.take(cs@.len() as int) =~= cs@);
    vstd::slice::slice_to_vec(out.as_str().as_bytes())
}


/// What a key of the on screen keyboard sends to a running app: text as
/// UTF-8, ctrl with a character its control byte, a special key what the
/// real key sends; nothing where there is no such byte.
pub open spec fn press_bytes_spec(p: PressView) -> Seq<u8> {
    match p {
        PressView::Text(s) => encode_utf8(s),
        PressView::Ctrl(c) => match ctrl_char_spec(c) {
            Some(b) => seq![b],
            None => Seq::empty(),
        },
        PressView::Special(n) => match named_spec(n) {
            Some(v) => v,
            None => Seq::empty(),
        },
    }
}

/// The bytes an on screen keyboard key sends to a running app.
pub fn press_bytes(press: &Press) -> (b: Vec<u8>)
    ensures
        b@ == press_bytes_spec(press@),
{
    match press {
        Press::Text(s) => vstd::slice::slice_to_vec(s.as_str().as_bytes()),
        Press::Ctrl(c) => match ctrl_char_byte(*c) {
            Some(b) => {
                let mut v: Vec<u8> = Vec::new();
                v.push(b);
                assert(v@ =~= seq![b]);
                v
            },
            None => Vec::new(),
        },
        Press::Special(n) => match named_key_bytes(n.as_str()) {
            Some(v) => v,
            None => Vec::new(),
        },
    }
}


/// Whether a secondary click goes to the window's menu: always with a plain
/// right click trigger, with shift held for the shift trigger.
pub fn secondary_opens_menu(trigger: MenuTrigger, shift: bool) -> (b: bool)
    ensures
        b == (trigger == MenuTrigger::RightClick || shift),
{
    match trigger {
        MenuTrigger::RightClick => true,
        MenuTrigger::ShiftRightClick => shift,
    }
}

/// Whether a banner shows: the login screens show only those meant for them.
pub fn banner_shown(on_login: bool, screen: ScreenKind) -> (b: bool)
    ensures
        b == (on_login || !is_login(screen)),
{
    on_login || !(screen == ScreenKind::Login || screen == ScreenKind::LoggingIn)
}

/// A notice across the top of the window, until it is closed; one `on_login`
/// shows on the login screens too.
pub struct Banner {
    pub text: String,
    pub on_login: bool,
}

/// Whether ssh keeps passwords in the unsafe store and the config still
/// warns about it.
pub open spec fn warns_unsafe(cfg: Config) -> bool {
    cfg.ssh matches Some(s) && s.credentials == Credentials::Unsafe && s.unsafe_warning
}

/// Whether the app warns that passwords are kept unprotected.
pub fn unsafe_store_warned(cfg: &Config) -> (b: bool)
    ensures
        b == warns_unsafe(*cfg),
{
    match &cfg.ssh {
        Some(s) => match s.credentials {
            Credentials::Unsafe => s.unsafe_warning,
            Credentials::Memory => false,
        },
        None => false,
    }
}

/// The notices the app starts with, each as its text and whether it shows
/// on the login screens: the warning about the default binary name while
/// `app.binary` is still that name (on the login screens too), then the
/// warning about unprotected passwords where [`warns_unsafe`] holds.
pub open spec fn banners_spec(cfg: Config) -> Seq<(Seq<char>, bool)> {
    (if cfg.app.binary@ == DEFAULT_BINARY@ {
        seq![(DEFAULT_BINARY_WARNING@, true)]
    } else {
        Seq::empty()
    }) + (if warns_unsafe(cfg) {
        seq![(cfg.text.unsafe_credentials@, false)]
    } else {
        Seq::empty()
    })
}

/// The notices a configuration starts the app with.
pub fn startup_banners(cfg: &Config) -> (b: Vec<Banner>)
    ensures
        b@.len() == banners_spec(*cfg).len(),
        forall|i: int| 0 <= i < b@.len() ==> (#[trigger] b@[i]).text@ == banners_spec(*cfg)[i].0
            && b@[i].on_login == banners_spec(*cfg)[i].1,
{
    let mut b: Vec<Banner> = Vec::new();
    if str_eq(cfg.app.binary.as_str(), DEFAULT_BINARY) {
        b.push(Banner { text: String::from_str(DEFAULT_BINARY_WARNING), on_login: true });
    }
    if unsafe_store_warned(cfg) {
        b.push(Banner { text: cfg.text.unsafe_credentials.clone(), on_login: false });
    }
    b
}

/// What the window waits for on its own.
#[derive(Clone, Copy, PartialEq, Eq, Structural, Debug)]
pub enum Deadline {
    Nothing,
    /// The next try of an interrupted or lost session, while none runs.
    Retry,
    /// Accepting a changed key, while no dialog is open.
    Accept,
}

/// What the window waits for on the screen it is on.
pub fn deadline(screen: ScreenKind, session_running: bool, dialog_open: bool, accept_pending: bool) -> (d: Deadline)
    ensures
        d == (if (screen == ScreenKind::Interrupted || screen == ScreenKind::Lost) && !session_running {
            Deadline::Retry
        } else if screen == ScreenKind::KeyChanged && accept_pending && !dialog_open {
            Deadline::Accept
        } else {
            Deadline::Nothing
        }),
{
    if (screen == ScreenKind::Interrupted || screen == ScreenKind::Lost) && !session_running {
        Deadline::Retry
    } else if screen == ScreenKind::KeyChanged && accept_pending && !dialog_open {
        Deadline::Accept
    } else {
        Deadline::Nothing
    }
}

/// A session that ran and then dropped is tried again by itself: one whose
/// server cannot be reached any more interrupts, one that was lost is
/// reinitialized; neither goes back to the login form.
pub proof fn law_dropped_sessions_come_back(t: Text, on_exit: SshOnExit, server: Seq<char>, end: End)
    requires
        end is Lost || end is Unreachable || end is NotFound,
    ensures
        ssh_ended_spec(t, on_exit, false, server, end) is Interrupted || ssh_ended_spec(t, on_exit, false, server, end) is Lost,
        (end is Unreachable) ==> ssh_ended_spec(t, on_exit, false, server, end) is Interrupted,
{
}

/// A server key that changed gets the red card, whatever else is going on.
pub proof fn law_changed_key_card_is_red(t: Text, s: CardState)
    requires
        s.screen == ScreenKind::KeyChanged,
    ensures
        card_spec(t, s) matches Some(c) && c.danger && c.title == t.key_changed_title@,
{
}


/// The on screen keyboard never moves the login form's focus off the fields
/// one can type in.
pub proof fn law_focus_stays_on_a_field(fields: Seq<Field>, focus: Field, press: PressView)
    requires
        fields.len() > 0,
    ensures
        fields.contains(login_key_spec(fields, focus, press).0),
{
    let f = osk_focus(fields, focus);
    assert(fields.contains(f)) by {
        if !fields.contains(focus) {
            assert(fields[0] == f);
        }
    }
    lemma_next_field_in(fields, f);
    assert(login_key_spec(fields, focus, press).0 == f || login_key_spec(fields, focus, press).0 == next_field(fields, f));
}

proof fn lemma_next_field_in(fields: Seq<Field>, f: Field)
    requires
        fields.contains(f),
    ensures
        fields.contains(next_field(fields, f)),
{
    let i = choose|i: int| 0 <= i < fields.len() && fields[i] == f;
    lemma_first_index(fields, f, i);
    let at = choose|k: int| 0 <= k < fields.len() && fields[k] == f && forall|j: int| 0 <= j < k ==> fields[j] != f;
    let len = fields.len() as int;
    let n = (at + 1) % len;
    assert(0 <= n < len) by (nonlinear_arith)
        requires
            n == (at + 1) % len,
            len > 0,
    ;
    assert(fields[n] == next_field(fields, f));
}

proof fn lemma_first_index(fields: Seq<Field>, f: Field, i: int)
    requires
        0 <= i < fields.len(),
        fields[i] == f,
    ensures
        exists|k: int| 0 <= k < fields.len() && fields[k] == f && forall|j: int| 0 <= j < k ==> fields[j] != f,
    decreases i,
{
    if exists|j: int| 0 <= j < i && fields[j] == f {
        let j = choose|j: int| 0 <= j < i && fields[j] == f;
        lemma_first_index(fields, f, j);
    } else {
        assert(forall|j: int| 0 <= j < i ==> fields[j] != f);
    }
}

} // verus!
