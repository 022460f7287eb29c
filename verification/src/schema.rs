//! The configuration baked into the app: what it wraps, how it looks, what
//! it says, and the checks a configuration has to pass.
use vstd::prelude::*;

use crate::text::{
    all_digits, chars_of, concat, decimal_chars, index_of, last_index_of, push_decimal_chars, trim_end, debug_quoted, debug_str, digits_value, first_at, has_char, is_digit,
    last_at, parse_u16, parse_u16_spec, slice_from, slice_range, split_words, starts_with, string_of, trim,
    trimmed, view_words, words,
};

verus! {

/// The whole configuration.
pub struct Config {
    pub app: App,
    pub terminal: Terminal,
    /// wrap a program on this machine
    pub local: Option<Local>,
    /// or log into a server over ssh and run it there
    pub ssh: Option<Ssh>,
    pub login: Login,
    pub menu: Menu,
    pub kiosk: Kiosk,
    pub text: Text,
    pub packaging: Packaging,
}

pub struct App {
    /// window title and the name in app menus
    pub name: String,
    /// reverse dns id, names the settings folder and the macos bundle
    pub id: String,
    /// what the installed binary gets called
    pub binary: String,
    /// the app's version, for the package and --version
    pub version: Option<String>,
    pub description: String,
    /// png, relative to the config file
    pub icon: Option<String>,
}

/// What the packages get written into.
pub struct Packaging {
    /// "Name <mail@example.com>"
    pub maintainer: Option<String>,
    pub license: Option<String>,
    pub homepage: Option<String>,
    pub long_description: Option<String>,
}

impl Default for Packaging {
    fn default() -> (p: Packaging)
        ensures
            p.maintainer is None && p.license is None && p.homepage is None && p.long_description is None,
    {
        Packaging { maintainer: None, license: None, homepage: None, long_description: None }
    }
}

/// The bit pattern of the `f32` font size 14.0.
/// What `app.binary` is when nobody changed it; builds with it get warned
/// at, a shipped app should not be called tacoshell.
pub const DEFAULT_BINARY: &'static str = "tacoshell";

/// Shown in the app while `app.binary` is still [`DEFAULT_BINARY`]; not in
/// `[text]` on purpose, it is not meant to be switched off, only dismissed.
pub const DEFAULT_BINARY_WARNING: &'static str = "Please use a different binary name than tacoshell! If you don't know what this is about, contact the maintainer of your application.";

pub const DEFAULT_FONT_SIZE_BITS: u32 = 0x4160_0000u32;

pub struct Terminal {
    /// the font size in points, as the bits of its `f32`
    pub font_size_bits: u32,
    /// starting window size in cells
    pub cols: u16,
    pub rows: u16,
    pub foreground: String,
    pub background: String,
    pub term: String,
}

impl Default for Terminal {
    fn default() -> (t: Terminal)
        ensures
            t.font_size_bits == DEFAULT_FONT_SIZE_BITS,
            t.cols == 120,
            t.rows == 35,
            t.foreground@ == "#cccccc"@,
            t.background@ == "#181818"@,
            t.term@ == "xterm-256color"@,
    {
        Terminal {
            font_size_bits: DEFAULT_FONT_SIZE_BITS,
            cols: 120,
            rows: 35,
            foreground: String::from_str("#cccccc"),
            background: String::from_str("#181818"),
            term: String::from_str("xterm-256color"),
        }
    }
}

pub struct Local {
    pub program: String,
    pub args: Vec<String>,
    pub on_exit: LocalOnExit,
    /// debian packages `program` comes from
    pub depends: Vec<String>,
}

#[derive(Clone, Copy, PartialEq, Eq, Debug)]
pub enum LocalOnExit {
    Close,
    Restart,
}

pub struct Ssh {
    /// "host" or "host:port"
    pub server: Option<String>,
    /// used when the server has no port of its own
    pub port: u16,
    /// run this instead of the user's login shell
    pub command: Option<String>,
    /// checkbox on the setup screen: checked = login shell, unchecked = run `command`
    pub shell_toggle: Option<ShellToggle>,
    pub host_keys: Vec<String>,
    pub accept_new_host_keys: bool,
    pub changed_key_accept: bool,
    pub changed_key_accept_after_secs: u64,
    pub retry_button: bool,
    pub logout_button: bool,
    pub connect_timeout_secs: u64,
    /// after this many seconds of silence the server gets poked
    pub keepalive_secs: u64,
    /// and after this many unanswered pokes the connection counts as interrupted
    pub keepalive_max: usize,
    pub resume_every_secs: u64,
    /// countdown before reinitializing a session that got killed
    pub reinit_after_secs: u64,
    pub on_exit: SshOnExit,
    pub credentials: Credentials,
    pub unsafe_warning: bool,
}

impl Default for Ssh {
    fn default() -> (s: Ssh)
        ensures
            s.server is None,
            s.port == 22,
            s.command is None,
            s.shell_toggle is None,
            s.host_keys@.len() == 0,
            !s.accept_new_host_keys,
            s.changed_key_accept,
            s.changed_key_accept_after_secs == 0,
            s.retry_button,
            s.logout_button,
            s.connect_timeout_secs == 10,
            s.keepalive_secs == 5,
            s.keepalive_max == 3,
            s.resume_every_secs == 3,
            s.reinit_after_secs == 5,
            s.on_exit == SshOnExit::Close,
            s.credentials == Credentials::Memory,
            s.unsafe_warning,
    {
        Ssh {
            server: None,
            port: 22,
            command: None,
            shell_toggle: None,
            host_keys: Vec::new(),
            accept_new_host_keys: false,
            changed_key_accept: true,
            changed_key_accept_after_secs: 0,
            retry_button: true,
            logout_button: true,
            connect_timeout_secs: 10,
            keepalive_secs: 5,
            keepalive_max: 3,
            resume_every_secs: 3,
            reinit_after_secs: 5,
            on_exit: SshOnExit::Close,
            credentials: Credentials::Memory,
            unsafe_warning: true,
        }
    }
}

pub struct ShellToggle {
    pub label: String,
    pub default: bool,
}

#[derive(Clone, Copy, PartialEq, Eq, Debug)]
pub enum SshOnExit {
    Close,
    Reinitialize,
    Login,
}

/// Where the password lives.
#[derive(Clone, Copy, PartialEq, Eq, Debug)]
pub enum Credentials {
    /// only while the app runs, relaunching asks again
    Memory,
    /// base64 twice in a file, not protected at all
    Unsafe,
}

pub struct Login {
    /// ascii art above the login form
    pub logo: String,
    /// read from file instead
    pub logo_file: Option<String>,
    /// logo color, defaults to the terminal foreground
    pub logo_color: Option<String>,
    pub title: String,
    /// "remember server" checkbox; without it the server is always remembered
    pub remember_server_checkbox: bool,
    /// "remember username" checkbox; same deal
    pub remember_username_checkbox: bool,
}

impl Default for Login {
    fn default() -> (l: Login)
        ensures
            l.logo@.len() == 0,
            l.logo_file is None,
            l.logo_color is None,
            l.title@.len() == 0,
            l.remember_server_checkbox,
            l.remember_username_checkbox,
    {
        Login {
            logo: String::new(),
            logo_file: None,
            logo_color: None,
            title: String::new(),
            remember_server_checkbox: true,
            remember_username_checkbox: true,
        }
    }
}

pub struct Menu {
    pub open_on: MenuTrigger,
}

#[derive(Clone, Copy, PartialEq, Eq, Debug)]
pub enum MenuTrigger {
    /// right click opens the menu, the app never sees right clicks
    RightClick,
    /// right click goes to the app, shift + right click opens the menu
    ShiftRightClick,
}

pub struct Kiosk {
    /// always kiosk, otherwise only with --kiosk
    pub enabled: bool,
    pub fullscreen: bool,
    /// shrink the terminal to make room for the keyboard, or put it over the terminal
    pub keyboard_mode: KeyboardMode,
    /// keyboard rows, keys split by spaces; {name} is a special key, see KEY_NAMES
    pub keyboard: Vec<String>,
    /// same rows with shift held, must line up key for key with `keyboard`
    pub keyboard_shift: Vec<String>,
}

#[derive(Clone, Copy, PartialEq, Eq, Debug)]
pub enum KeyboardMode {
    /// the terminal gets smaller while the keyboard is up
    Shrink,
    /// the keyboard floats over the bottom of the terminal
    Overlay,
}

/// Every string the app shows; {placeholders} get filled in where it says so.
pub struct Text {
    pub server: String,
    pub username: String,
    pub password: String,
    pub kiosk_pin: String,
    pub connect: String,
    pub connecting: String,
    pub missing_server: String,
    pub missing_username: String,
    pub bad_pin: String,
    pub unreachable: String,
    pub auth_failed: String,
    pub failed: String,
    pub host_key_title: String,
    pub host_key_body: String,
    pub trust: String,
    pub cancel: String,
    pub host_key_declined: String,
    pub key_changed_title: String,
    pub key_changed_body: String,
    pub key_mismatch_body: String,
    pub accept_key: String,
    pub accept_key_in: String,
    pub pin_to_accept: String,
    pub interrupted_title: String,
    pub interrupted_body: String,
    pub lost_title: String,
    pub lost_body: String,
    pub retry_now: String,
    pub start_failed: String,
    pub program_missing: String,
    pub retry: String,
    pub exit: String,
    pub menu_restart: String,
    pub menu_reinitialize: String,
    pub menu_logout: String,
    pub menu_exit: String,
    pub logout_title: String,
    pub logout_body: String,
    pub logout_confirm: String,
    pub pin_title: String,
    pub pin_wrong: String,
    pub ok: String,
    pub kiosk_menu: String,
    pub kiosk_keyboard: String,
    pub unsafe_credentials: String,
    pub remember_server: String,
    pub remember_username: String,
}

impl Default for Text {
    fn default() -> (t: Text)
        ensures
            t.server@ == "Server"@,
            t.username@ == "Username"@,
            t.password@ == "Password"@,
            t.kiosk_pin@ == "Kiosk PIN (optional)"@,
            t.connect@ == "Connect"@,
            t.connecting@ == "Connecting to {server}..."@,
            t.missing_server@ == "Enter a server"@,
            t.missing_username@ == "Enter a username"@,
            t.bad_pin@ == "The PIN has to be 4 to 16 digits"@,
            t.unreachable@ == "Can't reach {server}: {error}"@,
            t.auth_failed@ == "Wrong username or password"@,
            t.failed@ == "Connection failed: {error}"@,
            t.host_key_title@ == "New server"@,
            t.host_key_body@ == "This is the first time connecting to {server}.\nMake sure its key fingerprint is:\n\n{fingerprint}"@,
            t.trust@ == "Trust"@,
            t.cancel@ == "Cancel"@,
            t.host_key_declined@ == "Server not trusted"@,
            t.key_changed_title@ == "WARNING: THE SERVER'S IDENTITY HAS CHANGED"@,
            t.key_changed_body@ == "{server} identified itself with a different key than last time.\n\
                Someone could be listening in on this connection (a man in the middle attack),\n\
                or the server was reinstalled. Don't continue unless you know which one it is.\n\n\
                Known key: {old}\n\
                New key:   {new}"@,
            t.key_mismatch_body@ == "{server} identified itself with a key this app doesn't trust.\n\
                Someone could be listening in on this connection (a man in the middle attack).\n\n\
                Key: {new}"@,
            t.accept_key@ == "Accept new key"@,
            t.accept_key_in@ == "Accepting the new key in {secs}s"@,
            t.pin_to_accept@ == "Enter PIN to accept the new key"@,
            t.interrupted_title@ == "Connection Interrupted..."@,
            t.interrupted_body@ == "Trying to resume connection"@,
            t.lost_title@ == "Connection Lost..."@,
            t.lost_body@ == "Reinitializing in {secs}s"@,
            t.retry_now@ == "Retry now"@,
            t.start_failed@ == "Couldn't start {program}: {error}"@,
            t.program_missing@ == "Couldn't find {program}.\nIt has to be installed for this app to work."@,
            t.retry@ == "Retry"@,
            t.exit@ == "Exit"@,
            t.menu_restart@ == "Restart"@,
            t.menu_reinitialize@ == "Reinitialize"@,
            t.menu_logout@ == "Logout"@,
            t.menu_exit@ == "Exit"@,
            t.logout_title@ == "Logout?"@,
            t.logout_body@ == "This forgets the server and login, you'll have to set it up again."@,
            t.logout_confirm@ == "Logout"@,
            t.pin_title@ == "Enter PIN"@,
            t.pin_wrong@ == "Wrong PIN"@,
            t.ok@ == "OK"@,
            t.kiosk_menu@ == "Menu"@,
            t.kiosk_keyboard@ == "Keyboard"@,
            t.unsafe_credentials@ == "Passwords are saved unprotected on this device (development build)"@,
            t.remember_server@ == "Remember server"@,
            t.remember_username@ == "Remember username"@,
    {
        Text {
            server: String::from_str("Server"),
            username: String::from_str("Username"),
            password: String::from_str("Password"),
            kiosk_pin: String::from_str("Kiosk PIN (optional)"),
            connect: String::from_str("Connect"),
            connecting: String::from_str("Connecting to {server}..."),
            missing_server: String::from_str("Enter a server"),
            missing_username: String::from_str("Enter a username"),
            bad_pin: String::from_str("The PIN has to be 4 to 16 digits"),
            unreachable: String::from_str("Can't reach {server}: {error}"),
            auth_failed: String::from_str("Wrong username or password"),
            failed: String::from_str("Connection failed: {error}"),
            host_key_title: String::from_str("New server"),
            host_key_body: String::from_str("This is the first time connecting to {server}.\nMake sure its key fingerprint is:\n\n{fingerprint}"),
            trust: String::from_str("Trust"),
            cancel: String::from_str("Cancel"),
            host_key_declined: String::from_str("Server not trusted"),
            key_changed_title: String::from_str("WARNING: THE SERVER'S IDENTITY HAS CHANGED"),
            key_changed_body: String::from_str("{server} identified itself with a different key than last time.\n\
                Someone could be listening in on this connection (a man in the middle attack),\n\
                or the server was reinstalled. Don't continue unless you know which one it is.\n\n\
                Known key: {old}\n\
                New key:   {new}"),
            key_mismatch_body: String::from_str("{server} identified itself with a key this app doesn't trust.\n\
                Someone could be listening in on this connection (a man in the middle attack).\n\n\
                Key: {new}"),
            accept_key: String::from_str("Accept new key"),
            accept_key_in: String::from_str("Accepting the new key in {secs}s"),
            pin_to_accept: String::from_str("Enter PIN to accept the new key"),
            interrupted_title: String::from_str("Connection Interrupted..."),
            interrupted_body: String::from_str("Trying to resume connection"),
            lost_title: String::from_str("Connection Lost..."),
            lost_body: String::from_str("Reinitializing in {secs}s"),
            retry_now: String::from_str("Retry now"),
            start_failed: String::from_str("Couldn't start {program}: {error}"),
            program_missing: String::from_str("Couldn't find {program}.\nIt has to be installed for this app to work."),
            retry: String::from_str("Retry"),
            exit: String::from_str("Exit"),
            menu_restart: String::from_str("Restart"),
            menu_reinitialize: String::from_str("Reinitialize"),
            menu_logout: String::from_str("Logout"),
            menu_exit: String::from_str("Exit"),
            logout_title: String::from_str("Logout?"),
            logout_body: String::from_str("This forgets the server and login, you'll have to set it up again."),
            logout_confirm: String::from_str("Logout"),
            pin_title: String::from_str("Enter PIN"),
            pin_wrong: String::from_str("Wrong PIN"),
            ok: String::from_str("OK"),
            kiosk_menu: String::from_str("Menu"),
            kiosk_keyboard: String::from_str("Keyboard"),
            unsafe_credentials: String::from_str("Passwords are saved unprotected on this device (development build)"),
            remember_server: String::from_str("Remember server"),
            remember_username: String::from_str("Remember username"),
        }
    }
}

impl Default for Kiosk {
    fn default() -> (k: Kiosk)
        ensures
            !k.enabled,
            k.fullscreen,
            k.keyboard_mode == KeyboardMode::Shrink,
            k.keyboard@.len() == 5,
            k.keyboard_shift@.len() == 5,
            k.keyboard@[0]@ == "{esc} 1 2 3 4 5 6 7 8 9 0 - = {bksp}"@,
            k.keyboard@[1]@ == "{tab} q w e r t y u i o p [ ] \\"@,
            k.keyboard@[2]@ == "{ctrl} a s d f g h j k l ; ' {enter}"@,
            k.keyboard@[3]@ == "{shift} z x c v b n m , . / {up} {del}"@,
            k.keyboard@[4]@ == "` {space} {left} {down} {right}"@,
            k.keyboard_shift@[0]@ == "{esc} ! @ # $ % ^ & * ( ) _ + {bksp}"@,
            k.keyboard_shift@[1]@ == "{tab} Q W E R T Y U I O P { } |"@,
            k.keyboard_shift@[2]@ == "{ctrl} A S D F G H J K L : \" {enter}"@,
            k.keyboard_shift@[3]@ == "{shift} Z X C V B N M < > ? {pgup} {del}"@,
            k.keyboard_shift@[4]@ == "~ {space} {home} {pgdn} {end}"@,
    {
        let mut keyboard: Vec<String> = Vec::new();
        keyboard.push(String::from_str("{esc} 1 2 3 4 5 6 7 8 9 0 - = {bksp}"));
        keyboard.push(String::from_str("{tab} q w e r t y u i o p [ ] \\"));
        keyboard.push(String::from_str("{ctrl} a s d f g h j k l ; ' {enter}"));
        keyboard.push(String::from_str("{shift} z x c v b n m , . / {up} {del}"));
        keyboard.push(String::from_str("` {space} {left} {down} {right}"));
        let mut keyboard_shift: Vec<String> = Vec::new();
        keyboard_shift.push(String::from_str("{esc} ! @ # $ % ^ & * ( ) _ + {bksp}"));
        keyboard_shift.push(String::from_str("{tab} Q W E R T Y U I O P { } |"));
        keyboard_shift.push(String::from_str("{ctrl} A S D F G H J K L : \" {enter}"));
        keyboard_shift.push(String::from_str("{shift} Z X C V B N M < > ? {pgup} {del}"));
        keyboard_shift.push(String::from_str("~ {space} {home} {pgdn} {end}"));
        Kiosk { enabled: false, fullscreen: true, keyboard_mode: KeyboardMode::Shrink, keyboard, keyboard_shift }
    }
}

/// The special keys the on screen keyboard knows, written as {name}.
pub open spec fn key_names() -> Seq<Seq<char>> {
    seq!["esc"@, "tab"@, "bksp"@, "enter"@, "shift"@, "ctrl"@, "space"@, "up"@, "down"@, "left"@, "right"@, "home"@, "end"@, "pgup"@, "pgdn"@, "del"@, "ins"@, "f1"@, "f2"@, "f3"@, "f4"@, "f5"@, "f6"@, "f7"@, "f8"@, "f9"@, "f10"@, "f11"@, "f12"@]
}

/// The names of [`key_names`] as the error message lists them.
pub open spec fn key_list() -> Seq<char> {
    "esc, tab, bksp, enter, shift, ctrl, space, up, down, left, right, home, end, pgup, pgdn, del, ins, f1, f2, f3, f4, f5, f6, f7, f8, f9, f10, f11, f12"@
}

/// Whether `name` is one of [`key_names`].
pub fn is_key_name(name: &[char]) -> (b: bool)
    ensures
        b == key_names().contains(name@),
{
    let b =     if chars_eq(name, "esc") {
        true
    } else if chars_eq(name, "tab") {
        true
    } else if chars_eq(name, "bksp") {
        true
    } else if chars_eq(name, "enter") {
        true
    } else if chars_eq(name, "shift") {
        true
    } else if chars_eq(name, "ctrl") {
        true
    } else if chars_eq(name, "space") {
        true
    } else if chars_eq(name, "up") {
        true
    } else if chars_eq(name, "down") {
        true
    } else if chars_eq(name, "left") {
        true
    } else if chars_eq(name, "right") {
        true
    } else if chars_eq(name, "home") {
        true
    } else if chars_eq(name, "end") {
        true
    } else if chars_eq(name, "pgup") {
        true
    } else if chars_eq(name, "pgdn") {
        true
    } else if chars_eq(name, "del") {
        true
    } else if chars_eq(name, "ins") {
        true
    } else if chars_eq(name, "f1") {
        true
    } else if chars_eq(name, "f2") {
        true
    } else if chars_eq(name, "f3") {
        true
    } else if chars_eq(name, "f4") {
        true
    } else if chars_eq(name, "f5") {
        true
    } else if chars_eq(name, "f6") {
        true
    } else if chars_eq(name, "f7") {
        true
    } else if chars_eq(name, "f8") {
        true
    } else if chars_eq(name, "f9") {
        true
    } else if chars_eq(name, "f10") {
        true
    } else if chars_eq(name, "f11") {
        true
    } else if chars_eq(name, "f12") {
        true
    } else {
        false
    };
    b
}

/// Whether `a` holds the characters of `b`.
pub fn chars_eq(a: &[char], b: &str) -> (r: bool)
    ensures
        r == (a@ == b@),
{
    let bs = chars_of(b);
    if a.len() != bs.len() {
        return false;
    }
    let mut i: usize = 0;
    while i < a.len()
        invariant
            i <= a@.len(),
            a@.len() == bs@.len(),
            bs@ == b@,
            forall|k: int| 0 <= k < i ==> a@[k] == bs@[k],
        decreases a@.len() - i,
    {
        if a[i] != bs[i] {
            return false;
        }
        i = i + 1;
    }
    assert(a@ =~= bs@);
    true
}

/// One key of the on screen keyboard: text it types, or a special key.
#[derive(Debug, PartialEq, Eq)]
pub enum OskKey {
    Char(String),
    Special(String),
}

/// An [`OskKey`] as characters.
pub enum OskKeyView {
    Char(Seq<char>),
    Special(Seq<char>),
}

impl View for OskKey {
    type V = OskKeyView;

    open spec fn view(&self) -> OskKeyView {
        match self {
            OskKey::Char(s) => OskKeyView::Char(s@),
            OskKey::Special(s) => OskKeyView::Special(s@),
        }
    }
}

/// One word of a keyboard row: `{name}` is a special key when the name is
/// one of [`key_names`] and an error otherwise; everything else (a lone `{`
/// too) types itself.
pub open spec fn osk_token(tok: Seq<char>) -> Result<OskKeyView, Seq<char>> {
    if tok.len() > 2 && tok[0] == '{' && tok.last() == '}' {
        let name = tok.subrange(1, tok.len() - 1);
        if key_names().contains(name) {
            Ok(OskKeyView::Special(name))
        } else {
            Err("unknown key "@ + tok + ", known ones: "@ + key_list())
        }
    } else {
        Ok(OskKeyView::Char(tok))
    }
}

/// The keys of the words `toks` from `i` on, or the first word's error.
pub open spec fn osk_tokens(toks: Seq<Seq<char>>, i: int) -> Result<Seq<OskKeyView>, Seq<char>>
    decreases toks.len() - i,
{
    if i < 0 || i >= toks.len() {
        Ok(seq![])
    } else {
        match osk_token(toks[i]) {
            Err(e) => Err(e),
            Ok(k) => match osk_tokens(toks, i + 1) {
                Err(e) => Err(e),
                Ok(rest) => Ok(seq![k] + rest),
            },
        }
    }
}

/// A keyboard row: its whitespace separated words as keys.
pub open spec fn osk_row_spec(row: Seq<char>) -> Result<Seq<OskKeyView>, Seq<char>> {
    osk_tokens(words(row), 0)
}

pub open spec fn keys_view(v: Seq<OskKey>) -> Seq<OskKeyView> {
    v.map_values(|k: OskKey| k@)
}

fn osk_key(tok: &[char]) -> (r: Result<OskKey, String>)
    ensures
        match (r, osk_token(tok@)) {
            (Ok(k), Ok(v)) => k@ == v,
            (Err(e), Err(v)) => e@ == v,
            _ => false,
        },
{
    if tok.len() > 2 && tok[0] == '{' && tok[tok.len() - 1] == '}' {
        let name = slice_range(tok, 1, tok.len() - 1);
        if is_key_name(name.as_slice()) {
            Ok(OskKey::Special(string_of(name.as_slice())))
        } else {
            let mut e = String::from_str("unknown key ");
            let t = string_of(tok);
            e.append(t.as_str());
            e.append(", known ones: ");
            e.append("esc, tab, bksp, enter, shift, ctrl, space, up, down, left, right, home, end, pgup, pgdn, del, ins, f1, f2, f3, f4, f5, f6, f7, f8, f9, f10, f11, f12");
            Err(e)
        }
    } else {
        Ok(OskKey::Char(string_of(tok)))
    }
}

/// One keyboard row into its keys: `{name}` is a special key if the name is
/// known, everything else is typed as it is (so a lone `{` still types a brace).
pub fn parse_osk_row(row: &str) -> (r: Result<Vec<OskKey>, String>)
    ensures
        match (r, osk_row_spec(row@)) {
            (Ok(keys), Ok(v)) => keys_view(keys@) == v,
            (Err(e), Err(v)) => e@ == v,
            _ => false,
        },
{
    let cs = chars_of(row);
    let toks = split_words(cs.as_slice());
    let ghost w = words(row@);
    assert(view_words(toks@) == w);
    let mut keys: Vec<OskKey> = Vec::new();
    let mut i: usize = 0;
    while i < toks.len()
        invariant
            i <= toks@.len(),
            view_words(toks@) == w,
            w == words(row@),
            w.len() == toks@.len(),
            osk_tokens(w, 0) == (match osk_tokens(w, i as int) {
                Ok(rest) => Ok(keys_view(keys@) + rest),
                Err(e) => Err(e),
            }),
        decreases toks@.len() - i,
    {
        assert(toks@[i as int]@ == w[i as int]);
        match osk_key(toks[i].as_slice()) {
            Ok(k) => {
                let ghost before = keys@;
                keys.push(k);
                assert(keys_view(keys@) =~= keys_view(before) + seq![k@]);
                proof {
                    match osk_tokens(w, i + 1) {
                        Ok(rest) => {
                            assert(keys_view(before) + (seq![k@] + rest) =~= keys_view(keys@) + rest);
                        },
                        Err(e) => {},
                    }
                }
            },
            Err(e) => {
                assert(osk_tokens(w, i as int) == Err::<Seq<OskKeyView>, Seq<char>>(e@));
                return Err(e);
            },
        }
        i = i + 1;
    }
    assert(keys_view(keys@) + seq![] =~= keys_view(keys@));
    Ok(keys)
}

impl Clone for OskKey {
    fn clone(&self) -> (k: OskKey)
        ensures
            k@ == self@,
    {
        match self {
            OskKey::Char(s) => OskKey::Char(s.clone()),
            OskKey::Special(s) => OskKey::Special(s.clone()),
        }
    }
}

/// The value of a hex digit.
pub open spec fn hex_val(c: char) -> Option<int> {
    if '0' <= c <= '9' {
        Some(c as int - '0' as int)
    } else if 'a' <= c <= 'f' {
        Some(c as int - 'a' as int + 10)
    } else if 'A' <= c <= 'F' {
        Some(c as int - 'A' as int + 10)
    } else {
        None
    }
}

/// Two hex digits (`0-9`, `a-f`, `A-F`, nothing else) as the byte they spell.
pub open spec fn hex_pair(a: char, b: char) -> Option<u8> {
    match (hex_val(a), hex_val(b)) {
        (Some(x), Some(y)) => Some((x * 16 + y) as u8),
        _ => None,
    }
}

pub open spec fn is_ascii_seq(s: Seq<char>) -> bool {
    forall|i: int| 0 <= i < s.len() ==> (#[trigger] s[i] as u32) < 128
}

/// "#rrggbb" to its three bytes: a `#` and six hex digits, nothing else.
pub open spec fn color_spec(s: Seq<char>) -> Result<(u8, u8, u8), Seq<char>> {
    if !(s.len() == 7 && s[0] == '#' && is_ascii_seq(s.skip(1))) {
        Err("color "@ + debug_quoted(s) + " should look like #rrggbb"@)
    } else {
        match (hex_pair(s[1], s[2]), hex_pair(s[3], s[4]), hex_pair(s[5], s[6])) {
            (Some(r), Some(g), Some(b)) => Ok((r, g, b)),
            _ => Err("color "@ + debug_quoted(s) + " isnt hex"@),
        }
    }
}

fn hex_digit(c: char) -> (v: Option<u8>)
    ensures
        match v {
            Some(x) => hex_val(c) == Some(x as int),
            None => hex_val(c) is None,
        },
{
    if '0' <= c && c <= '9' {
        Some((c as u32 - '0' as u32) as u8)
    } else if 'a' <= c && c <= 'f' {
        Some((c as u32 - 'a' as u32 + 10) as u8)
    } else if 'A' <= c && c <= 'F' {
        Some((c as u32 - 'A' as u32 + 10) as u8)
    } else {
        None
    }
}

fn hex_byte(a: char, b: char) -> (v: Option<u8>)
    ensures
        v == hex_pair(a, b),
{
    match (hex_digit(a), hex_digit(b)) {
        (Some(x), Some(y)) => Some(x * 16 + y),
        _ => None,
    }
}

/// Whether every character of `s` from `from` on is ASCII.
fn ascii_from(s: &[char], from: usize) -> (b: bool)
    requires
        from <= s@.len(),
    ensures
        b == is_ascii_seq(s@.skip(from as int)),
{
    let mut i = from;
    while i < s.len()
        invariant
            from <= i <= s@.len(),
            forall|k: int| from <= k < i ==> (#[trigger] s@[k] as u32) < 128,
        decreases s@.len() - i,
    {
        if s[i] as u32 >= 128 {
            assert(s@.skip(from as int)[i - from] == s@[i as int]);
            return false;
        }
        i = i + 1;
    }
    assert forall|k: int| 0 <= k < s@.skip(from as int).len() implies (#[trigger] s@.skip(from as int)[k] as u32)
        < 128 by {
        assert(s@.skip(from as int)[k] == s@[k + from]);
    }
    true
}

fn color_error(s: &str, tail: &str) -> (e: String)
    ensures
        e@ == "color "@ + debug_quoted(s@) + tail@,
{
    let mut e = String::from_str("color ");
    let q = debug_str(s);
    e.append(q.as_str());
    e.append(tail);
    e
}

/// "#rrggbb" to [r, g, b].
pub fn parse_color(s: &str) -> (r: Result<[u8; 3], String>)
    ensures
        match (r, color_spec(s@)) {
            (Ok(a), Ok((x, y, z))) => a@ == seq![x, y, z],
            (Err(e), Err(v)) => e@ == v,
            _ => false,
        },
{
    let cs = chars_of(s);
    let ok = cs.len() == 7 && cs[0] == '#' && ascii_from(cs.as_slice(), 1);
    if !ok {
        return Err(color_error(s, " should look like #rrggbb"));
    }
    match (hex_byte(cs[1], cs[2]), hex_byte(cs[3], cs[4]), hex_byte(cs[5], cs[6])) {
        (Some(r), Some(g), Some(b)) => {
            let a = [r, g, b];
            assert(a@ =~= seq![r, g, b]);
            Ok(a)
        },
        _ => Err(color_error(s, " isnt hex")),
    }
}

/// The server name without surrounding whitespace and without an `ssh://` in front.
pub open spec fn bare_server(server: Seq<char>) -> Seq<char> {
    let t = trim(server);
    if t.len() >= 6 && t.take(6) == "ssh://"@ { t.skip(6) } else { t }
}

/// A port, or the error for a string that is not one.
pub open spec fn port_spec(p: Seq<char>) -> Result<u16, Seq<char>> {
    match parse_u16_spec(p) {
        Some(v) => Ok(v),
        None => Err(debug_quoted(p) + " isnt a port"@),
    }
}

/// "host", "host:port", "[v6]" and "[v6]:port" into host and port; the
/// default port when none is given; more than one colon without brackets is
/// a bare IPv6 address.
pub open spec fn split_server_spec(server: Seq<char>, default_port: u16) -> Result<(Seq<char>, u16), Seq<char>> {
    let s = bare_server(server);
    if s.len() == 0 {
        Err("server is empty"@)
    } else if s[0] == '[' {
        let rest = s.skip(1);
        if !rest.contains(']') {
            Err("missing ] in server"@)
        } else {
            let i = index_of(rest, ']');
            let host = rest.take(i);
            let after = rest.skip(i + 1);
            if after.len() > 0 && after[0] == ':' {
                match port_spec(after.skip(1)) {
                    Ok(port) => Ok((host, port)),
                    Err(e) => Err(e),
                }
            } else if after.len() == 0 {
                Ok((host, default_port))
            } else {
                Err("junk after ] in "@ + debug_quoted(s))
            }
        }
    } else {
        let i = last_index_of(s, ':');
        if i >= 0 && !s.take(i).contains(':') {
            match port_spec(s.skip(i + 1)) {
                Ok(port) => Ok((s.take(i), port)),
                Err(e) => Err(e),
            }
        } else {
            Ok((s, default_port))
        }
    }
}

fn port_of(p: &[char]) -> (r: Result<u16, String>)
    ensures
        match (r, port_spec(p@)) {
            (Ok(a), Ok(b)) => a == b,
            (Err(a), Err(b)) => a@ == b,
            _ => false,
        },
{
    match parse_u16(p) {
        Some(v) => Ok(v),
        None => {
            let ps = string_of(p);
            let mut e = debug_str(ps.as_str());
            e.append(" isnt a port");
            Err(e)
        },
    }
}

/// "host", "host:port", "[v6]:port" to host and port.
pub fn split_server(server: &str, default_port: u16) -> (r: Result<(String, u16), String>)
    ensures
        match (r, split_server_spec(server@, default_port)) {
            (Ok((h, p)), Ok((sh, sp))) => h@ == sh && p == sp,
            (Err(e), Err(se)) => e@ == se,
            _ => false,
        },
{
    let all = chars_of(server);
    let t = trimmed(all.as_slice());
    let prefix = chars_of("ssh://");
    let s = if starts_with(t.as_slice(), prefix.as_slice()) {
        proof {
            reveal_strlit("ssh://");
        }
        slice_from(t.as_slice(), 6)
    } else {
        proof {
            reveal_strlit("ssh://");
        }
        t
    };
    assert(s@ == bare_server(server@));
    if s.len() == 0 {
        return Err(String::from_str("server is empty"));
    }
    if s[0] == '[' {
        let rest = slice_from(s.as_slice(), 1);
        match crate::text::find_char(rest.as_slice(), ']') {
            None => {
                return Err(String::from_str("missing ] in server"));
            },
            Some(i) => {
                proof {
                    crate::text::lemma_index_of(rest@, ']', i as int);
                }
                let host = slice_range(rest.as_slice(), 0, i);
                let after = slice_from(rest.as_slice(), i + 1);
                if after.len() > 0 && after[0] == ':' {
                    let p = slice_from(after.as_slice(), 1);
                    match port_of(p.as_slice()) {
                        Ok(port) => Ok((string_of(host.as_slice()), port)),
                        Err(e) => Err(e),
                    }
                } else if after.len() == 0 {
                    Ok((string_of(host.as_slice()), default_port))
                } else {
                    let st = string_of(s.as_slice());
                    let q = debug_str(st.as_str());
                    Err(concat("junk after ] in ", q.as_str()))
                }
            },
        }
    } else {
        match crate::text::rfind_char(s.as_slice(), ':') {
            Some(i) => {
                proof {
                    crate::text::lemma_last_index_of(s@, ':', i as int);
                }
                let host = slice_range(s.as_slice(), 0, i);
                if !has_char(host.as_slice(), ':') {
                    let p = slice_from(s.as_slice(), i + 1);
                    match port_of(p.as_slice()) {
                        Ok(port) => Ok((string_of(host.as_slice()), port)),
                        Err(e) => Err(e),
                    }
                } else {
                    Ok((string_of(s.as_slice()), default_port))
                }
            },
            None => {
                proof {
                    crate::text::lemma_no_last_index(s@, ':');
                }
                Ok((string_of(s.as_slice()), default_port))
            },
        }
    }
}

pub open spec fn is_lower_or_digit(c: char) -> bool {
    ('a' <= c <= 'z') || is_digit(c)
}

pub open spec fn is_alnum(c: char) -> bool {
    ('a' <= c <= 'z') || ('A' <= c <= 'Z') || is_digit(c)
}

/// A debian package name and a file name: lowercase letters, digits and
/// `+ - .`, starting with a letter or digit, at least two long.
pub open spec fn binary_ok(b: Seq<char>) -> bool {
    &&& b.len() >= 2
    &&& is_lower_or_digit(b[0])
    &&& forall|i: int| 0 <= i < b.len() ==> is_lower_or_digit(#[trigger] b[i]) || b[i] == '+' || b[i] == '-' || b[i] == '.'
}

/// What both debian and macos take: starts with a digit, then letters,
/// digits and `. + ~ -`.
pub open spec fn version_ok(v: Seq<char>) -> bool {
    &&& v.len() > 0
    &&& is_digit(v[0])
    &&& forall|i: int| 0 <= i < v.len() ==> is_alnum(#[trigger] v[i]) || v[i] == '.' || v[i] == '+' || v[i] == '~' || v[i] == '-'
}

/// "Name <mail@example.com>": a `<` that is not the first character, ends in
/// `>` (trailing whitespace aside) and has an `@`.
pub open spec fn maintainer_ok(m: Seq<char>) -> bool {
    &&& m.contains('<')
    &&& index_of(m, '<') > 0
    &&& trim_end(m).len() > 0
    &&& trim_end(m).last() == '>'
    &&& m.contains('@')
}

/// The checks on [app] and [packaging].
pub open spec fn app_check(cfg: Config) -> Result<(), Seq<char>> {
    let app = cfg.app;
    if trim(app.name@).len() == 0 {
        Err("app.name is empty"@)
    } else if trim(app.id@).len() == 0 || app.id@.contains('/') || app.id@.contains('\\') {
        Err("app.id has to be something like \"ch.example.app\""@)
    } else if !binary_ok(app.binary@) {
        Err("app.binary: lowercase letters, digits, + - . only (it's the debian package name too)"@)
    } else if app.version is Some && !version_ok(app.version->0@) {
        Err("app.version "@ + debug_quoted(app.version->0@) + " should look like \"1.2.3\" (starts with a digit, no spaces)"@)
    } else if app.description@.contains('\n') {
        Err("app.description is one line, packaging.long_description takes more"@)
    } else if cfg.packaging.maintainer is Some && !maintainer_ok(cfg.packaging.maintainer->0@) {
        Err("packaging.maintainer "@ + debug_quoted(cfg.packaging.maintainer->0@) + " should look like \"Name <mail@example.com>\""@)
    } else {
        Ok(())
    }
}

/// Exactly one of [local] and [ssh], and what each needs.
pub open spec fn mode_check(cfg: Config) -> Result<(), Seq<char>> {
    if cfg.local is Some && cfg.ssh is Some {
        Err("pick one of [local] or [ssh], not both"@)
    } else if cfg.local is None && cfg.ssh is None {
        Err("needs either a [local] or an [ssh] section"@)
    } else if cfg.local is Some && trim(cfg.local->0.program@).len() == 0 {
        Err("local.program is empty"@)
    } else if cfg.ssh is Some {
        ssh_check(cfg.ssh->0)
    } else {
        Ok(())
    }
}

/// The first host key that does not start with "SHA256:", from `i` on.
pub open spec fn host_keys_check(keys: Seq<String>, i: int) -> Result<(), Seq<char>>
    decreases keys.len() - i,
{
    if i < 0 || i >= keys.len() {
        Ok(())
    } else if !(keys[i]@.len() >= 7 && keys[i]@.take(7) == "SHA256:"@) {
        Err("ssh.host_keys: "@ + debug_quoted(keys[i]@) + " should start with SHA256:"@)
    } else {
        host_keys_check(keys, i + 1)
    }
}

pub open spec fn ssh_check(ssh: Ssh) -> Result<(), Seq<char>> {
    if ssh.shell_toggle is Some && ssh.command is None {
        Err("ssh.shell_toggle needs ssh.command, thats what runs when its unchecked"@)
    } else if ssh.server is Some && split_server_spec(ssh.server->0@, ssh.port) is Err {
        Err(split_server_spec(ssh.server->0@, ssh.port)->Err_0)
    } else if host_keys_check(ssh.host_keys@, 0) is Err {
        host_keys_check(ssh.host_keys@, 0)
    } else if ssh.changed_key_accept_after_secs > 0 && !ssh.changed_key_accept {
        Err("ssh.changed_key_accept_after_secs needs ssh.changed_key_accept"@)
    } else if ssh.keepalive_secs == 0 || ssh.connect_timeout_secs == 0 {
        Err("ssh timeouts have to be at least 1 second"@)
    } else {
        Ok(())
    }
}

/// The `f32` with these bits is a number from 6 to 72. Positive floats order
/// as their bits do, and negative ones and NaNs lie outside these bits.
pub open spec fn font_size_ok(bits: u32) -> bool {
    0x40C0_0000 <= bits <= 0x4290_0000
}

pub open spec fn color_error_of(s: Seq<char>) -> Option<Seq<char>> {
    match color_spec(s) {
        Ok(_) => None,
        Err(e) => Some(e),
    }
}

/// Font size, size in cells, and the colors.
pub open spec fn terminal_check(cfg: Config) -> Result<(), Seq<char>> {
    let t = cfg.terminal;
    if !font_size_ok(t.font_size_bits) {
        Err("terminal.font_size should be between 6 and 72"@)
    } else if t.cols < 20 || t.rows < 5 {
        Err("terminal.cols/rows too small"@)
    } else if color_error_of(t.foreground@) is Some {
        Err(color_error_of(t.foreground@)->0)
    } else if color_error_of(t.background@) is Some {
        Err(color_error_of(t.background@)->0)
    } else if cfg.login.logo_color is Some && color_error_of(cfg.login.logo_color->0@) is Some {
        Err(color_error_of(cfg.login.logo_color->0@)->0)
    } else {
        Ok(())
    }
}

/// The keyboard rows from `i` on: both parse, and with the same number of keys.
pub open spec fn rows_check(plain: Seq<String>, shifted: Seq<String>, i: int) -> Result<(), Seq<char>>
    decreases plain.len() - i,
{
    if i < 0 || i >= plain.len() || i >= shifted.len() {
        Ok(())
    } else {
        match (osk_row_spec(plain[i]@), osk_row_spec(shifted[i]@)) {
            (Err(e), _) => Err(e),
            (Ok(_), Err(e)) => Err(e),
            (Ok(a), Ok(b)) => if a.len() != b.len() {
                Err("kiosk keyboard row "@ + decimal_chars((i + 1) as nat) + " has a different number of keys with shift"@)
            } else {
                rows_check(plain, shifted, i + 1)
            },
        }
    }
}

pub open spec fn keyboard_check(k: Kiosk) -> Result<(), Seq<char>> {
    if k.keyboard@.len() != k.keyboard_shift@.len() {
        Err("kiosk.keyboard and kiosk.keyboard_shift need the same rows"@)
    } else {
        rows_check(k.keyboard@, k.keyboard_shift@, 0)
    }
}

/// All the checks, in order; the first that fails says why.
pub open spec fn validate_spec(cfg: Config) -> Result<(), Seq<char>> {
    if app_check(cfg) is Err {
        app_check(cfg)
    } else if mode_check(cfg) is Err {
        mode_check(cfg)
    } else if terminal_check(cfg) is Err {
        terminal_check(cfg)
    } else {
        keyboard_check(cfg.kiosk)
    }
}

/// A configuration that passes has exactly one of `[local]` and `[ssh]`,
/// a program to run in the one, and an app name and id.
pub proof fn law_passing_config_has_one_mode(cfg: Config)
    requires
        validate_spec(cfg) is Ok,
    ensures
        cfg.local is Some <==> cfg.ssh is None,
        cfg.local matches Some(l) ==> trim(l.program@).len() > 0,
        trim(cfg.app.name@).len() > 0,
        trim(cfg.app.id@).len() > 0,
{
}

/// What a passing configuration guarantees beyond its mode: a binary name
/// of lowercase letters, digits and `+ - .` starting with a letter or digit,
/// a version (if any) starting with a digit and holding no spaces, a one
/// line description, a maintainer (if any) with a `<` after some name and an
/// `@`; over ssh a command wherever the shell box is, the changed key
/// accepted automatically only where accepting is allowed, timeouts of at
/// least a second; a font between 6 and 72 (by its bits), at least 20
/// columns and 5 rows, colors that parse, and as many shifted keyboard rows
/// as plain ones.
pub proof fn law_passing_config_is_sound(cfg: Config)
    requires
        validate_spec(cfg) is Ok,
    ensures
        cfg.app.binary@.len() >= 2,
        forall|i: int| 0 <= i < cfg.app.binary@.len() ==> {
            let ch = #[trigger] cfg.app.binary@[i];
            ('a' <= ch && ch <= 'z') || ('0' <= ch && ch <= '9') || ch == '+' || ch == '-' || ch == '.'
        },
        cfg.app.binary@[0] != '+' && cfg.app.binary@[0] != '-' && cfg.app.binary@[0] != '.',
        cfg.app.version matches Some(v) ==> v@.len() > 0 && '0' <= v@[0] && v@[0] <= '9' && !v@.contains(' '),
        !cfg.app.description@.contains('\n'),
        cfg.packaging.maintainer matches Some(m) ==> m@.contains('<') && m@.contains('@') && m@[0] != '<',
        cfg.ssh matches Some(h) ==> (h.shell_toggle is Some ==> h.command is Some),
        cfg.ssh matches Some(h) ==> (h.changed_key_accept_after_secs > 0 ==> h.changed_key_accept),
        cfg.ssh matches Some(h) ==> h.keepalive_secs >= 1 && h.connect_timeout_secs >= 1,
        0x40C0_0000 <= cfg.terminal.font_size_bits <= 0x4290_0000,
        cfg.terminal.cols >= 20 && cfg.terminal.rows >= 5,
        color_spec(cfg.terminal.foreground@) is Ok,
        color_spec(cfg.terminal.background@) is Ok,
        cfg.login.logo_color matches Some(c) ==> color_spec(c@) is Ok,
        cfg.kiosk.keyboard@.len() == cfg.kiosk.keyboard_shift@.len(),
{
    let b = cfg.app.binary@;
    assert(binary_ok(b));
    assert(is_lower_or_digit(b[0]));
    if let Some(v) = cfg.app.version {
        assert(version_ok(v@));
        if v@.contains(' ') {
            let k = choose|k: int| 0 <= k < v@.len() && v@[k] == ' ';
            assert(is_alnum(v@[k]) || v@[k] == '.' || v@[k] == '+' || v@[k] == '~' || v@[k] == '-');
        }
    }
    if let Some(m) = cfg.packaging.maintainer {
        assert(maintainer_ok(m@));
        assert(m@[0] != '<') by {
            if m@[0] == '<' {
                assert(index_of(m@, '<') == 0);
            }
        }
    }
}

/// Which `app.version`s pass: a digit first, then letters, digits and
/// `. + ~ -` (so "1.2.3", "2.0~rc1" and "1.0+git-3" pass, "v1" and "1 2"
/// do not).
pub proof fn law_version_names(v: Seq<char>)
    ensures
        version_ok(v) == (v.len() > 0 && '0' <= v[0] && v[0] <= '9'
            && forall|i: int| 0 <= i < v.len() ==> {
                let ch = #[trigger] v[i];
                ('a' <= ch && ch <= 'z') || ('A' <= ch && ch <= 'Z') || ('0' <= ch && ch <= '9')
                    || ch == '.' || ch == '+' || ch == '~' || ch == '-'
            }),
{
}

/// Which `app.binary` names pass: at least two characters, the first a
/// lowercase letter or a digit, every one a lowercase letter, a digit, `+`,
/// `-` or `.` (so "my-app" and "x.y+2" pass, "My" and "-x" do not). With a
/// usable name and id, a config whose binary is not such a name is refused
/// for it, and one whose binary is (and whose other [app] entries are
/// unset) passes the [app] checks.
pub proof fn law_binary_names(cfg: Config)
    requires
        trim(cfg.app.name@).len() > 0,
        trim(cfg.app.id@).len() > 0,
        !cfg.app.id@.contains('/'),
        !cfg.app.id@.contains('\\'),
    ensures
        ({
            let b = cfg.app.binary@;
            let shaped = b.len() >= 2 && (('a' <= b[0] && b[0] <= 'z') || ('0' <= b[0] && b[0] <= '9'))
                && forall|i: int| 0 <= i < b.len() ==> (('a' <= #[trigger] b[i] && b[i] <= 'z')
                    || ('0' <= b[i] && b[i] <= '9') || b[i] == '+' || b[i] == '-' || b[i] == '.');
            &&& binary_ok(b) == shaped
            &&& !shaped ==> validate_spec(cfg)
                == Err::<(), Seq<char>>("app.binary: lowercase letters, digits, + - . only (it's the debian package name too)"@)
            &&& shaped && cfg.app.version is None && !cfg.app.description@.contains('\n')
                && cfg.packaging.maintainer is None ==> app_check(cfg) is Ok
        }),
{
}

/// Whether `s` is nothing but whitespace.
fn blank_str(s: &str) -> (b: bool)
    ensures
        b == (trim(s@).len() == 0),
{
    let cs = chars_of(s);
    let t = trimmed(cs.as_slice());
    t.len() == 0
}

fn str_has(s: &str, c: char) -> (b: bool)
    ensures
        b == s@.contains(c),
{
    let cs = chars_of(s);
    has_char(cs.as_slice(), c)
}

fn binary_ok_exec(b: &str) -> (ok: bool)
    ensures
        ok == binary_ok(b@),
{
    let cs = chars_of(b);
    if cs.len() < 2 {
        return false;
    }
    let first = cs[0];
    if !(('a' <= first && first <= 'z') || ('0' <= first && first <= '9')) {
        return false;
    }
    let mut i: usize = 0;
    while i < cs.len()
        invariant
            i <= cs@.len(),
            cs@ == b@,
            forall|k: int| 0 <= k < i ==> is_lower_or_digit(#[trigger] cs@[k]) || cs@[k] == '+' || cs@[k] == '-'
                || cs@[k] == '.',
        decreases cs@.len() - i,
    {
        let c = cs[i];
        if !(('a' <= c && c <= 'z') || ('0' <= c && c <= '9') || c == '+' || c == '-' || c == '.') {
            return false;
        }
        i = i + 1;
    }
    true
}

fn version_ok_exec(v: &str) -> (ok: bool)
    ensures
        ok == version_ok(v@),
{
    let cs = chars_of(v);
    if cs.len() == 0 || !('0' <= cs[0] && cs[0] <= '9') {
        return false;
    }
    let mut i: usize = 0;
    while i < cs.len()
        invariant
            i <= cs@.len(),
            cs@ == v@,
            forall|k: int| 0 <= k < i ==> is_alnum(#[trigger] cs@[k]) || cs@[k] == '.' || cs@[k] == '+' || cs@[k]
                == '~' || cs@[k] == '-',
        decreases cs@.len() - i,
    {
        let c = cs[i];
        if !(('a' <= c && c <= 'z') || ('A' <= c && c <= 'Z') || ('0' <= c && c <= '9') || c == '.' || c == '+'
            || c == '~' || c == '-') {
            return false;
        }
        i = i + 1;
    }
    true
}

fn maintainer_ok_exec(m: &str) -> (ok: bool)
    ensures
        ok == maintainer_ok(m@),
{
    let cs = chars_of(m);
    match crate::text::find_char(cs.as_slice(), '<') {
        None => false,
        Some(i) => {
            proof {
                crate::text::lemma_index_of(cs@, '<', i as int);
            }
            let trail = crate::text::count_trail_ws(cs.as_slice());
            proof {
                crate::text::lemma_trail_ws(cs@);
            }
            let end = cs.len() - trail;
            i > 0 && end > 0 && cs[end - 1] == '>' && has_char(cs.as_slice(), '@')
        },
    }
}

fn app_check_exec(cfg: &Config) -> (r: Result<(), String>)
    ensures
        match (r, app_check(*cfg)) {
            (Ok(_), Ok(_)) => true,
            (Err(e), Err(v)) => e@ == v,
            _ => false,
        },
{
    let app = &cfg.app;
    if blank_str(app.name.as_str()) {
        return Err(String::from_str("app.name is empty"));
    }
    if blank_str(app.id.as_str()) || str_has(app.id.as_str(), '/') || str_has(app.id.as_str(), '\\') {
        return Err(String::from_str("app.id has to be something like \"ch.example.app\""));
    }
    if !binary_ok_exec(app.binary.as_str()) {
        return Err(String::from_str("app.binary: lowercase letters, digits, + - . only (it's the debian package name too)"));
    }
    if let Some(v) = &app.version {
        if !version_ok_exec(v.as_str()) {
            let mut e = String::from_str("app.version ");
            let q = debug_str(v.as_str());
            e.append(q.as_str());
            e.append(" should look like \"1.2.3\" (starts with a digit, no spaces)");
            return Err(e);
        }
    }
    if str_has(app.description.as_str(), '\n') {
        return Err(String::from_str("app.description is one line, packaging.long_description takes more"));
    }
    if let Some(m) = &cfg.packaging.maintainer {
        if !maintainer_ok_exec(m.as_str()) {
            let mut e = String::from_str("packaging.maintainer ");
            let q = debug_str(m.as_str());
            e.append(q.as_str());
            e.append(" should look like \"Name <mail@example.com>\"");
            return Err(e);
        }
    }
    Ok(())
}

fn host_keys_check_exec(keys: &Vec<String>) -> (r: Result<(), String>)
    ensures
        match (r, host_keys_check(keys@, 0)) {
            (Ok(_), Ok(_)) => true,
            (Err(e), Err(v)) => e@ == v,
            _ => false,
        },
{
    let prefix = chars_of("SHA256:");
    proof {
        reveal_strlit("SHA256:");
    }
    let mut i: usize = 0;
    while i < keys.len()
        invariant
            i <= keys@.len(),
            prefix@ == "SHA256:"@,
            host_keys_check(keys@, 0) == host_keys_check(keys@, i as int),
        decreases keys@.len() - i,
    {
        let k = chars_of(keys[i].as_str());
        proof {
            reveal_strlit("SHA256:");
            assert(k@ == keys@[i as int]@);
        }
        if !starts_with(k.as_slice(), prefix.as_slice()) {
            let mut e = String::from_str("ssh.host_keys: ");
            let q = debug_str(keys[i].as_str());
            e.append(q.as_str());
            e.append(" should start with SHA256:");
            return Err(e);
        }
        assert(host_keys_check(keys@, i as int) == host_keys_check(keys@, i as int + 1));
        i = i + 1;
    }
    Ok(())
}

fn ssh_check_exec(ssh: &Ssh) -> (r: Result<(), String>)
    ensures
        match (r, ssh_check(*ssh)) {
            (Ok(_), Ok(_)) => true,
            (Err(e), Err(v)) => e@ == v,
            _ => false,
        },
{
    if ssh.shell_toggle.is_some() && ssh.command.is_none() {
        return Err(String::from_str("ssh.shell_toggle needs ssh.command, thats what runs when its unchecked"));
    }
    if let Some(server) = &ssh.server {
        match split_server(server.as_str(), ssh.port) {
            Ok(_) => {},
            Err(e) => {
                return Err(e);
            },
        }
    }
    match host_keys_check_exec(&ssh.host_keys) {
        Ok(_) => {},
        Err(e) => {
            return Err(e);
        },
    }
    if ssh.changed_key_accept_after_secs > 0 && !ssh.changed_key_accept {
        return Err(String::from_str("ssh.changed_key_accept_after_secs needs ssh.changed_key_accept"));
    }
    if ssh.keepalive_secs == 0 || ssh.connect_timeout_secs == 0 {
        return Err(String::from_str("ssh timeouts have to be at least 1 second"));
    }
    Ok(())
}

fn mode_check_exec(cfg: &Config) -> (r: Result<(), String>)
    ensures
        match (r, mode_check(*cfg)) {
            (Ok(_), Ok(_)) => true,
            (Err(e), Err(v)) => e@ == v,
            _ => false,
        },
{
    if cfg.local.is_some() && cfg.ssh.is_some() {
        return Err(String::from_str("pick one of [local] or [ssh], not both"));
    }
    if cfg.local.is_none() && cfg.ssh.is_none() {
        return Err(String::from_str("needs either a [local] or an [ssh] section"));
    }
    if let Some(local) = &cfg.local {
        if blank_str(local.program.as_str()) {
            return Err(String::from_str("local.program is empty"));
        }
    }
    if let Some(ssh) = &cfg.ssh {
        return ssh_check_exec(ssh);
    }
    Ok(())
}

fn color_check(s: &str) -> (r: Result<(), String>)
    ensures
        match (r, color_error_of(s@)) {
            (Ok(_), None) => true,
            (Err(e), Some(v)) => e@ == v,
            _ => false,
        },
{
    match parse_color(s) {
        Ok(_) => Ok(()),
        Err(e) => Err(e),
    }
}

fn terminal_check_exec(cfg: &Config) -> (r: Result<(), String>)
    ensures
        match (r, terminal_check(*cfg)) {
            (Ok(_), Ok(_)) => true,
            (Err(e), Err(v)) => e@ == v,
            _ => false,
        },
{
    let t = &cfg.terminal;
    if !(0x40C0_0000u32 <= t.font_size_bits && t.font_size_bits <= 0x4290_0000u32) {
        return Err(String::from_str("terminal.font_size should be between 6 and 72"));
    }
    if t.cols < 20 || t.rows < 5 {
        return Err(String::from_str("terminal.cols/rows too small"));
    }
    match color_check(t.foreground.as_str()) {
        Ok(_) => {},
        Err(e) => {
            return Err(e);
        },
    }
    match color_check(t.background.as_str()) {
        Ok(_) => {},
        Err(e) => {
            return Err(e);
        },
    }
    if let Some(c) = &cfg.login.logo_color {
        match color_check(c.as_str()) {
            Ok(_) => {},
            Err(e) => {
                return Err(e);
            },
        }
    }
    Ok(())
}

fn keyboard_check_exec(k: &Kiosk) -> (r: Result<(), String>)
    ensures
        match (r, keyboard_check(*k)) {
            (Ok(_), Ok(_)) => true,
            (Err(e), Err(v)) => e@ == v,
            _ => false,
        },
{
    if k.keyboard.len() != k.keyboard_shift.len() {
        return Err(String::from_str("kiosk.keyboard and kiosk.keyboard_shift need the same rows"));
    }
    let mut i: usize = 0;
    while i < k.keyboard.len()
        invariant
            i <= k.keyboard@.len(),
            k.keyboard@.len() == k.keyboard_shift@.len(),
            rows_check(k.keyboard@, k.keyboard_shift@, 0) == rows_check(k.keyboard@, k.keyboard_shift@, i as int),
        decreases k.keyboard@.len() - i,
    {
        let plain = match parse_osk_row(k.keyboard[i].as_str()) {
            Ok(p) => p,
            Err(e) => {
                return Err(e);
            },
        };
        let shifted = match parse_osk_row(k.keyboard_shift[i].as_str()) {
            Ok(p) => p,
            Err(e) => {
                return Err(e);
            },
        };
        if plain.len() != shifted.len() {
            let mut e = String::from_str("kiosk keyboard row ");
            push_decimal_chars(&mut e, i as u64 + 1);
            e.append(" has a different number of keys with shift");
            return Err(e);
        }
        i = i + 1;
    }
    Ok(())
}

impl Config {
    /// The checks a configuration has to pass; the error says what is wrong
    /// with the first one that fails.
    pub fn validate(&self) -> (r: Result<(), String>)
        ensures
            match (r, validate_spec(*self)) {
                (Ok(_), Ok(_)) => true,
                (Err(e), Err(v)) => e@ == v,
                _ => false,
            },
    {
        match app_check_exec(self) {
            Ok(_) => {},
            Err(e) => {
                return Err(e);
            },
        }
        match mode_check_exec(self) {
            Ok(_) => {},
            Err(e) => {
                return Err(e);
            },
        }
        match terminal_check_exec(self) {
            Ok(_) => {},
            Err(e) => {
                return Err(e);
            },
        }
        keyboard_check_exec(&self.kiosk)
    }
}

} // verus!
