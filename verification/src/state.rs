//! What the setup screen remembers between launches (until logout), where
//! those files live, the kiosk pin, and when a new window size is worth
//! writing down.
use vstd::prelude::*;
use vstd::utf8::{encode_scalar, encode_utf8, has_width_1_encoding, has_width_2_encoding, has_width_3_encoding};
use sha2::Digest;
use crate::text::{chars_of, string_of, push_char, str_eq, slice_range, slice_from, find_char, first_at, index_of};

verus! {

/// The setup screen's choices.
pub struct Saved {
    pub server: String,
    pub username: String,
    pub login_shell: bool,
    /// The remember boxes on the login screen, so that they stick too.
    pub remember_server: bool,
    pub remember_username: bool,
    /// "salt$sha256", guards logout on a kiosk.
    pub kiosk_pin: Option<String>,
}

pub struct SavedView {
    pub server: Seq<char>,
    pub username: Seq<char>,
    pub login_shell: bool,
    pub remember_server: bool,
    pub remember_username: bool,
    pub kiosk_pin: Option<Seq<char>>,
}

impl View for Saved {
    type V = SavedView;

    open spec fn view(&self) -> SavedView {
        SavedView {
            server: self.server@,
            username: self.username@,
            login_shell: self.login_shell,
            remember_server: self.remember_server,
            remember_username: self.remember_username,
            kiosk_pin: match self.kiosk_pin {
                Some(p) => Some(p@),
                None => None,
            },
        }
    }
}

impl Default for Saved {
    fn default() -> (s: Self)
        ensures
            s@ == (SavedView {
                server: Seq::empty(),
                username: Seq::empty(),
                login_shell: false,
                remember_server: true,
                remember_username: true,
                kiosk_pin: None,
            }),
    {
        Saved {
            server: String::new(),
            username: String::new(),
            login_shell: false,
            remember_server: true,
            remember_username: true,
            kiosk_pin: None,
        }
    }
}

/// What goes to disk: the server and the user name only where their
/// remember box is ticked, all else as it is.
pub open spec fn for_disk_spec(s: SavedView) -> SavedView {
    SavedView {
        server: if s.remember_server { s.server } else { Seq::empty() },
        username: if s.remember_username { s.username } else { Seq::empty() },
        ..s
    }
}

impl Saved {
    /// What goes to disk, minus what the user did not want remembered.
    pub fn for_disk(&self) -> (out: Saved)
        ensures
            out@ == for_disk_spec(self@),
    {
        Saved {
            server: if self.remember_server { self.server.clone() } else { String::new() },
            username: if self.remember_username { self.username.clone() } else { String::new() },
            login_shell: self.login_shell,
            remember_server: self.remember_server,
            remember_username: self.remember_username,
            kiosk_pin: match &self.kiosk_pin {
                Some(p) => Some(p.clone()),
                None => None,
            },
        }
    }
}

/// Writing down what was already written down changes nothing more.
pub proof fn law_for_disk_twice(s: SavedView)
    ensures
        for_disk_spec(for_disk_spec(s)) == for_disk_spec(s),
{
}

/// What goes to disk keeps the server and the user name only where their
/// remember box is ticked: an unticked one is written as empty text, a
/// ticked one as it was typed, and the other entries as they are.
pub proof fn law_for_disk_keeps_only_ticked(s: SavedView)
    ensures
        !s.remember_username ==> for_disk_spec(s).username.len() == 0,
        s.remember_username ==> for_disk_spec(s).username == s.username,
        !s.remember_server ==> for_disk_spec(s).server.len() == 0,
        s.remember_server ==> for_disk_spec(s).server == s.server,
        for_disk_spec(s).login_shell == s.login_shell,
        for_disk_spec(s).remember_server == s.remember_server,
        for_disk_spec(s).remember_username == s.remember_username,
        for_disk_spec(s).kiosk_pin == s.kiosk_pin,
{
}

/// The file `name` inside the directory `dir`, with one `/` between them.
pub open spec fn in_dir(dir: Seq<char>, name: Seq<char>) -> Seq<char> {
    if dir.len() == 0 {
        name
    } else if dir.last() == '/' {
        dir + name
    } else {
        dir + seq!['/'] + name
    }
}

/// The file `name` inside the directory `dir`.
pub fn join(dir: &str, name: &str) -> (path: String)
    ensures
        path@ == in_dir(dir@, name@),
{
    let d = chars_of(dir);
    let n = chars_of(name);
    let mut out = string_of(d.as_slice());
    if d.len() > 0 && d[d.len() - 1] != '/' {
        push_char(&mut out, '/');
    }
    let mut i: usize = 0;
    while i < n.len()
        invariant
            i <= n@.len(),
            n@ == name@,
            d@ == dir@,
            out@ == (if d@.len() > 0 && d@.last() != '/' { d@ + seq!['/'] } else { d@ }) + n@.take(i as int),
        decreases n@.len() - i,
    {
        push_char(&mut out, n[i]);
        i = i + 1;
        assert(n@.take(i as int) =~= n@.take(i - 1) + seq![n@[i - 1]]);
    }
    assert(n@.take(n@.len() as int) =~= n@);
    proof {
        if d@.len() > 0 {
            assert(d@.last() == d@[d@.len() - 1]);
        }
    }
    out
}

/// Where the files of the app live: `None` when there is neither a config
/// directory nor a data directory, and then nothing sticks.
pub struct Store {
    pub dir: Option<String>,
}

pub open spec fn opt_view(o: Option<String>) -> Option<Seq<char>> {
    match o {
        Some(s) => Some(s@),
        None => None,
    }
}

/// The directory of the app: the config directory, else the data directory
/// (what android hands the app at startup), with the app's id below it.
pub open spec fn store_dir(app_id: Seq<char>, config_dir: Option<Seq<char>>, data_dir: Option<Seq<char>>) -> Option<Seq<char>> {
    match config_dir {
        Some(c) => Some(in_dir(c, app_id)),
        None => match data_dir {
            Some(d) => Some(in_dir(d, app_id)),
            None => None,
        },
    }
}

pub open spec fn file_in(dir: Option<Seq<char>>, name: Seq<char>) -> Option<Seq<char>> {
    match dir {
        Some(d) => Some(in_dir(d, name)),
        None => None,
    }
}

impl Store {
    /// The store of the app `app_id`, below the config directory of the
    /// machine or, without one, below the app's data directory.
    pub fn new(app_id: &str, config_dir: Option<String>, data_dir: Option<String>) -> (s: Store)
        ensures
            opt_view(s.dir) == store_dir(app_id@, opt_view(config_dir), opt_view(data_dir)),
    {
        let base = match config_dir {
            Some(c) => Some(c),
            None => data_dir,
        };
        match base {
            Some(d) => Store { dir: Some(join(d.as_str(), app_id)) },
            None => Store { dir: None },
        }
    }

    fn file(&self, name: &str) -> (f: Option<String>)
        ensures
            opt_view(f) == file_in(opt_view(self.dir), name@),
    {
        match &self.dir {
            Some(d) => Some(join(d.as_str(), name)),
            None => None,
        }
    }

    /// The setup screen's choices, until logout.
    pub fn setup_file(&self) -> (f: Option<String>)
        ensures
            opt_view(f) == file_in(opt_view(self.dir), "setup.toml"@),
    {
        self.file("setup.toml")
    }

    /// Trusted server keys, in openssh's known_hosts format; survives logout.
    pub fn known_hosts(&self) -> (f: Option<String>)
        ensures
            opt_view(f) == file_in(opt_view(self.dir), "known_hosts"@),
    {
        self.file("known_hosts")
    }

    /// Passwords, only with `credentials = "unsafe"`.
    pub fn credentials(&self) -> (f: Option<String>)
        ensures
            opt_view(f) == file_in(opt_view(self.dir), "credentials"@),
    {
        self.file("credentials")
    }

    /// The window size from last time; survives logout.
    pub fn window_file(&self) -> (f: Option<String>)
        ensures
            opt_view(f) == file_in(opt_view(self.dir), "window.toml"@),
    {
        self.file("window.toml")
    }
}

/// A path inside a directory starts with the directory and ends with the
/// name, with exactly one `/` between them (the directory's own trailing
/// `/` where it has one); the app's directory is under the machine's config
/// directory where there is one, else under the data directory, and there is
/// none only without either.
pub proof fn law_paths(dir: Seq<char>, name: Seq<char>, app_id: Seq<char>, config_dir: Option<Seq<char>>,
    data_dir: Option<Seq<char>>)
    ensures
        ({
            let p = in_dir(dir, name);
            &&& p.subrange(0, dir.len() as int) == dir
            &&& p.subrange(p.len() - name.len(), p.len() as int) == name
            &&& dir.len() == 0 ==> p == name
            &&& dir.len() > 0 ==> p[p.len() - name.len() - 1] == '/'
            &&& dir.len() > 0 && dir.last() == '/' ==> p.len() == dir.len() + name.len()
            &&& dir.len() > 0 && dir.last() != '/' ==> p.len() == dir.len() + 1 + name.len()
        }),
        config_dir matches Some(c) ==> store_dir(app_id, config_dir, data_dir) == Some(in_dir(c, app_id)),
        config_dir is None ==> (data_dir matches Some(d) ==> store_dir(app_id, config_dir, data_dir) == Some(in_dir(d, app_id))),
        store_dir(app_id, config_dir, data_dir) is None <==> config_dir is None && data_dir is None,
{
    let p = in_dir(dir, name);
    if dir.len() == 0 {
        assert(p.subrange(0, 0) =~= dir);
        assert(p.subrange(p.len() - name.len(), p.len() as int) =~= name);
    } else if dir.last() == '/' {
        assert(p.subrange(0, dir.len() as int) =~= dir);
        assert(p.subrange(p.len() - name.len(), p.len() as int) =~= name);
    } else {
        assert(p.subrange(0, dir.len() as int) =~= dir);
        assert(p.subrange(p.len() - name.len(), p.len() as int) =~= name);
    }
}

/// The rule of the screensaver pin: 4 to 16 bytes, each an ASCII digit.
pub open spec fn pin_ok_spec(bytes: Seq<u8>) -> bool {
    &&& 4 <= bytes.len() <= 16
    &&& forall|i: int| 0 <= i < bytes.len() ==> 48 <= #[trigger] bytes[i] <= 57
}

proof fn lemma_scalar_digit(c: char)
    ensures
        encode_scalar(c as u32).len() >= 1,
        (48 <= encode_scalar(c as u32)[0] <= 57) <==> ('0' <= c && c <= '9'),
        ('0' <= c && c <= '9') ==> encode_scalar(c as u32) == seq![c as u8],
{
    let v = c as u32;
    if has_width_1_encoding(v) {
        assert((v & 0x7F) == v) by (bit_vector)
            requires
                v <= 0x7F,
        ;
    } else if has_width_2_encoding(v) {
        assert(0xC0 | ((v >> 6) & 0x1F) as u8 >= 0xC0) by (bit_vector);
    } else if has_width_3_encoding(v) {
        assert(0xE0 | ((v >> 12) & 0x0F) as u8 >= 0xC0) by (bit_vector);
    } else {
        assert(0xF0 | ((v >> 18) & 0x7) as u8 >= 0xC0) by (bit_vector);
    }
}

proof fn lemma_digits_encode(p: Seq<char>)
    ensures
        (forall|j: int| 0 <= j < encode_utf8(p).len() ==> 48 <= #[trigger] encode_utf8(p)[j] <= 57)
            <==> (forall|i: int| 0 <= i < p.len() ==> '0' <= #[trigger] p[i] && p[i] <= '9'),
        (forall|i: int| 0 <= i < p.len() ==> '0' <= #[trigger] p[i] && p[i] <= '9') ==> encode_utf8(p).len() == p.len(),
    decreases p.len(),
{
    if p.len() > 0 {
        let rest = p.drop_first();
        lemma_digits_encode(rest);
        lemma_scalar_digit(p[0]);
        let e = encode_utf8(p);
        let head = encode_scalar(p[0] as u32);
        let tail = encode_utf8(rest);
        assert(e == head + tail);
        if forall|j: int| 0 <= j < e.len() ==> 48 <= #[trigger] e[j] <= 57 {
            assert(48 <= e[0] <= 57);
            assert(head == seq![p[0] as u8]);
            assert forall|j: int| 0 <= j < tail.len() implies 48 <= #[trigger] tail[j] <= 57 by {
                assert(e[j + 1] == tail[j]);
            }
            assert forall|i: int| 0 <= i < p.len() implies '0' <= #[trigger] p[i] && p[i] <= '9' by {
                if i > 0 {
                    assert(rest[i - 1] == p[i]);
                }
            }
        }
        if forall|i: int| 0 <= i < p.len() ==> '0' <= #[trigger] p[i] && p[i] <= '9' {
            assert('0' <= p[0] && p[0] <= '9');
            assert forall|i: int| 0 <= i < rest.len() implies '0' <= #[trigger] rest[i] && rest[i] <= '9' by {
                assert(rest[i] == p[i + 1]);
            }
            assert forall|j: int| 0 <= j < e.len() implies 48 <= #[trigger] e[j] <= 57 by {
                if j > 0 {
                    assert(e[j] == tail[j - 1]);
                }
            }
        }
    }
}

/// A kiosk takes exactly the pins of 4 to 16 characters that are all the
/// digits `0` to `9`: a letter, a space or any other character anywhere
/// makes a pin refused.
pub proof fn law_pin_rule(pin: Seq<char>)
    ensures
        pin_ok_spec(encode_utf8(pin)) == (4 <= pin.len() <= 16
            && forall|i: int| 0 <= i < pin.len() ==> '0' <= #[trigger] pin[i] && pin[i] <= '9'),
{
    lemma_digits_encode(pin);
}

/// Whether `pin` is a pin a kiosk takes.
pub fn pin_ok(pin: &str) -> (ok: bool)
    ensures
        ok == pin_ok_spec(encode_utf8(pin@)),
{
    let b = pin.as_bytes();
    if b.len() < 4 || b.len() > 16 {
        return false;
    }
    let mut i: usize = 0;
    while i < b.len()
        invariant
            i <= b@.len(),
            4 <= b@.len() <= 16,
            b@ == encode_utf8(pin@),
            forall|k: int| 0 <= k < i ==> 48 <= #[trigger] b@[k] <= 57,
        decreases b@.len() - i,
    {
        if b[i] < 48 || b[i] > 57 {
            return false;
        }
        i = i + 1;
    }
    true
}

/// A lowercase hex digit.
pub open spec fn hex_digit(n: int) -> char {
    if n < 10 {
        ((48 + n) as u32) as char
    } else {
        ((87 + n) as u32) as char
    }
}

/// Two lowercase hex digits per byte.
pub open spec fn hex_spec(b: Seq<u8>) -> Seq<char>
    decreases b.len(),
{
    if b.len() == 0 {
        Seq::empty()
    } else {
        hex_spec(b.drop_last()) + seq![hex_digit(b.last() as int / 16), hex_digit(b.last() as int % 16)]
    }
}

fn hex_char(n: u8) -> (c: char)
    requires
        n < 16,
    ensures
        c == hex_digit(n as int),
{
    if n < 10 {
        (48 + n) as char
    } else {
        (87 + n) as char
    }
}

/// `bytes` as lowercase hex.
pub fn hex(bytes: &[u8]) -> (s: String)
    ensures
        s@ == hex_spec(bytes@),
{
    let mut s = String::new();
    let mut i: usize = 0;
    while i < bytes.len()
        invariant
            i <= bytes@.len(),
            s@ == hex_spec(bytes@.take(i as int)),
        decreases bytes@.len() - i,
    {
        let b = bytes[i];
        push_char(&mut s, hex_char(b / 16));
        push_char(&mut s, hex_char(b % 16));
        assert(bytes@.take(i + 1).drop_last() =~= bytes@.take(i as int));
        i = i + 1;
    }
    assert(bytes@.take(bytes@.len() as int) =~= bytes@);
    s
}

/// The SHA-256 digest of `data`, as `sha2` computes it.
pub uninterp spec fn sha256_of(data: Seq<u8>) -> Seq<u8>;

/// `sha2::Sha256::digest`: the 32 byte SHA-256 digest of `data`, the same
/// for the same data.
#[verifier::external_body]
fn sha256(data: &[u8]) -> (d: Vec<u8>)
    ensures
        d@ == sha256_of(data@),
        d@.len() == 32,
{
    sha2::Sha256::digest(data).to_vec()
}

/// `getrandom::fill` on 16 bytes: random bytes from the system, and zeros
/// where it has none to give (the error is dropped: no randomness is bad,
/// but locking oneself out of the kiosk is worse). Nothing is promised of
/// the bytes.
#[verifier::external_body]
fn random_salt() -> (salt: [u8; 16]) {
    let mut salt = [0u8; 16];
    let _ = getrandom::fill(&mut salt);
    salt
}

/// The digest a pin is kept as: SHA-256 of the salt's bytes followed by the
/// pin's, in hex.
pub open spec fn digest_spec(salt: Seq<char>, pin: Seq<char>) -> Seq<char> {
    hex_spec(sha256_of(encode_utf8(salt) + encode_utf8(pin)))
}

/// How a pin with the salt `salt` is stored: "salt$digest", the salt in hex.
pub open spec fn pin_record(salt: Seq<u8>, pin: Seq<char>) -> Seq<char> {
    hex_spec(salt) + seq!['$'] + digest_spec(hex_spec(salt), pin)
}

/// A stored pin matches `pin`: its part after the first `$` is the digest
/// of `pin` with the part before it as the salt.
pub open spec fn check_pin_spec(stored: Seq<char>, pin: Seq<char>) -> bool {
    let at = index_of(stored, '$');
    &&& stored.contains('$')
    &&& digest_spec(stored.take(at), pin) == stored.skip(at + 1)
}

fn digest(salt: &str, pin: &str) -> (d: String)
    ensures
        d@ == digest_spec(salt@, pin@),
{
    let a = salt.as_bytes();
    let b = pin.as_bytes();
    let mut data: Vec<u8> = Vec::new();
    let mut i: usize = 0;
    while i < a.len()
        invariant
            i <= a@.len(),
            data@ == a@.take(i as int),
        decreases a@.len() - i,
    {
        data.push(a[i]);
        i = i + 1;
        assert(data@ =~= a@.take(i as int));
    }
    let mut j: usize = 0;
    while j < b.len()
        invariant
            j <= b@.len(),
            i == a@.len(),
            data@ == a@.take(i as int) + b@.take(j as int),
        decreases b@.len() - j,
    {
        data.push(b[j]);
        j = j + 1;
        assert(data@ =~= a@.take(i as int) + b@.take(j as int));
    }
    assert(a@.take(a@.len() as int) =~= a@);
    assert(b@.take(b@.len() as int) =~= b@);
    let h = sha256(data.as_slice());
    hex(h.as_slice())
}

/// `pin` stored with the salt `salt`.
pub fn hash_pin_with(salt: &[u8], pin: &str) -> (stored: String)
    ensures
        stored@ == pin_record(salt@, pin@),
{
    let mut out = hex(salt);
    let s = out.clone();
    push_char(&mut out, '$');
    let d = digest(s.as_str(), pin);
    out.append(d.as_str());
    out
}

/// `pin` stored with a fresh random salt of 16 bytes.
pub fn hash_pin(pin: &str) -> (stored: String)
    ensures
        exists|salt: Seq<u8>| salt.len() == 16 && stored@ == pin_record(salt, pin@),
{
    let salt = random_salt();
    let stored = hash_pin_with(&salt, pin);
    assert(salt@.len() == 16);
    stored
}

/// Whether `pin` is the pin that `stored` was made from.
pub fn check_pin(stored: &str, pin: &str) -> (ok: bool)
    ensures
        ok == check_pin_spec(stored@, pin@),
{
    let cs = chars_of(stored);
    match find_char(cs.as_slice(), '$') {
        None => false,
        Some(at) => {
            proof {
                crate::text::lemma_index_of(cs@, '$', at as int);
            }
            let salt = string_of(slice_range(cs.as_slice(), 0, at).as_slice());
            let hash = string_of(slice_from(cs.as_slice(), at + 1).as_slice());
            let d = digest(salt.as_str(), pin);
            str_eq(d.as_str(), hash.as_str())
        },
    }
}

proof fn lemma_hex_digits(b: Seq<u8>)
    ensures
        hex_spec(b).len() == 2 * b.len(),
        forall|i: int| 0 <= i < hex_spec(b).len() ==> #[trigger] hex_spec(b)[i] != '$',
    decreases b.len(),
{
    if b.len() > 0 {
        lemma_hex_digits(b.drop_last());
        let x = b.last() as int;
        assert(hex_digit(x / 16) != '$');
        assert(hex_digit(x % 16) != '$');
    }
}

/// A pin matches what it was stored as, whatever the salt.
pub proof fn law_pin_matches_its_record(salt: Seq<u8>, pin: Seq<char>)
    ensures
        check_pin_spec(pin_record(salt, pin), pin),
{
    let h = hex_spec(salt);
    let rec = pin_record(salt, pin);
    lemma_hex_digits(salt);
    assert(first_at(rec, '$', h.len() as int));
    crate::text::lemma_index_of(rec, '$', h.len() as int);
    assert(rec[h.len() as int] == '$');
    assert(rec.take(h.len() as int) =~= h);
    assert(rec.skip(h.len() as int + 1) =~= digest_spec(h, pin));
}

/// The width and height of the window, each an `f32` by its bits.
#[derive(Clone, Copy)]
pub struct WindowSize {
    pub width_bits: u32,
    pub height_bits: u32,
}

/// `==` on two `f32` given by their bits: a NaN equals nothing, the two
/// zeros equal each other, all else is equal when the bits are.
pub open spec fn f32_eq(a: u32, b: u32) -> bool {
    let nan_a = a & 0x7fff_ffff > 0x7f80_0000;
    let nan_b = b & 0x7fff_ffff > 0x7f80_0000;
    if nan_a || nan_b {
        false
    } else if a & 0x7fff_ffff == 0 && b & 0x7fff_ffff == 0 {
        true
    } else {
        a == b
    }
}

pub open spec fn same_size(a: WindowSize, b: WindowSize) -> bool {
    f32_eq(a.width_bits, b.width_bits) && f32_eq(a.height_bits, b.height_bits)
}

fn f32_bits_eq(a: u32, b: u32) -> (r: bool)
    ensures
        r == f32_eq(a, b),
{
    let nan_a = a & 0x7fff_ffff > 0x7f80_0000;
    let nan_b = b & 0x7fff_ffff > 0x7f80_0000;
    if nan_a || nan_b {
        false
    } else if a & 0x7fff_ffff == 0 && b & 0x7fff_ffff == 0 {
        true
    } else {
        a == b
    }
}

fn size_eq(a: WindowSize, b: WindowSize) -> (r: bool)
    ensures
        r == same_size(a, b),
{
    f32_bits_eq(a.width_bits, b.width_bits) && f32_bits_eq(a.height_bits, b.height_bits)
}

/// How long, in nanoseconds, the window has to keep one size before that
/// goes to disk: dragging a corner is a lot of sizes.
pub const WINDOW_SETTLE_NANOS: u64 = 500_000_000;

/// Writes the window size down for the next launch, once it stops changing.
/// Times are nanoseconds on a clock that does not go back.
pub struct WindowMemory {
    /// On disk already, or the size the window started at; `None` until the first look.
    pub kept: Option<WindowSize>,
    /// A size that is not kept yet, and since when the window has it.
    pub latest: Option<(WindowSize, u64)>,
}

/// What a look at the window asks for: another look after `wait`
/// nanoseconds, and a size to write down now.
pub struct Seen {
    pub wait: Option<u64>,
    pub write: Option<WindowSize>,
}

/// The memory after a look at the window at `now`, and what the look asks for.
pub open spec fn seen_spec(m: WindowMemory, size: Option<WindowSize>, now: u64) -> (WindowMemory, Seen) {
    match size {
        None => (m, Seen { wait: None, write: None }),
        Some(size) => match m.kept {
            None => (WindowMemory { kept: Some(size), ..m }, Seen { wait: None, write: None }),
            Some(kept) => if same_size(size, kept) {
                (WindowMemory { latest: None, ..m }, Seen { wait: None, write: None })
            } else {
                let since = match m.latest {
                    Some((latest, since)) if same_size(latest, size) => since,
                    _ => now,
                };
                let latest = Some((size, since));
                let waited = if now >= since { now - since } else { 0 };
                let left = if WINDOW_SETTLE_NANOS >= waited { WINDOW_SETTLE_NANOS - waited } else { 0 };
                if left == 0 {
                    (WindowMemory { kept: Some(size), latest: None }, Seen { wait: None, write: Some(size) })
                } else {
                    (WindowMemory { kept: m.kept, latest }, Seen { wait: Some(left as u64), write: None })
                }
            },
        },
    }
}

impl WindowMemory {
    pub fn new() -> (m: WindowMemory)
        ensures
            m.kept is None,
            m.latest is None,
    {
        WindowMemory { kept: None, latest: None }
    }

    /// The window's size at `now`, `None` while it is fullscreen, maximized
    /// or minimized (that is not the size to come back to). Says how soon it
    /// wants another look, when a size is waiting to settle, and which size
    /// to write down now.
    pub fn seen(&mut self, size: Option<WindowSize>, now: u64) -> (r: Seen)
        ensures
            (*final(self), r) == seen_spec(*old(self), size, now),
    {
        let size = match size {
            None => {
                return Seen { wait: None, write: None };
            },
            Some(s) => s,
        };
        let kept = match self.kept {
            None => {
                self.kept = Some(size);
                return Seen { wait: None, write: None };
            },
            Some(k) => k,
        };
        if size_eq(size, kept) {
            self.latest = None;
            return Seen { wait: None, write: None };
        }
        let since = match self.latest {
            Some((latest, since)) => if size_eq(latest, size) {
                since
            } else {
                now
            },
            None => now,
        };
        self.latest = Some((size, since));
        let waited = if now >= since { now - since } else { 0 };
        let left = if WINDOW_SETTLE_NANOS >= waited { WINDOW_SETTLE_NANOS - waited } else { 0 };
        if left == 0 {
            let write = self.flush();
            Seen { wait: None, write }
        } else {
            Seen { wait: Some(left), write: None }
        }
    }

    /// What has not settled yet, to go onto disk now (when the app quits);
    /// it is then the kept size.
    pub fn flush(&mut self) -> (w: Option<WindowSize>)
        ensures
            match old(self).latest {
                Some((size, _)) => w == Some(size) && *final(self) == (WindowMemory { kept: Some(size), latest: None }),
                None => w is None && *final(self) == *old(self),
            },
    {
        match self.latest {
            None => None,
            Some((size, _)) => {
                self.latest = None;
                self.kept = Some(size);
                Some(size)
            },
        }
    }
}


/// The size a window starts at is never written down: the first look only
/// keeps it.
pub proof fn law_first_look_writes_nothing(m: WindowMemory, size: WindowSize, now: u64)
    requires
        m.kept is None,
    ensures
        seen_spec(m, Some(size), now).1.write is None,
        seen_spec(m, Some(size), now).0.kept == Some(size),
{
}

/// A size is written down only once the window has had it, as the size
/// waiting to settle, for the whole settle time; and then it is the kept one.
pub proof fn law_written_sizes_settled(m: WindowMemory, size: WindowSize, now: u64)
    ensures
        seen_spec(m, Some(size), now).1.write matches Some(w) ==> {
            &&& w == size
            &&& m.latest matches Some((latest, since))
            &&& same_size(latest, size)
            &&& now >= since + WINDOW_SETTLE_NANOS
            &&& seen_spec(m, Some(size), now).0.kept == Some(size)
        },
{
}

} // verus!
