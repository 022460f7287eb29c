//! Where a password lives between reconnects.
//!
//!   memory  only while the app runs: reconnects do not ask again, relaunching does
//!   unsafe  base64 of base64 in a file next to known_hosts; survives relaunches,
//!           and is no protection at all
use vstd::prelude::*;
use vstd::utf8::{decode_utf8, encode_utf8, valid_utf8};
use zeroize::Zeroize;
use crate::text::{decimal_chars, push_decimal_chars, concat, push_char};

verus! {

/// The key a password is stored under: "user@host:port".
pub open spec fn account_spec(username: Seq<char>, host: Seq<char>, port: u16) -> Seq<char> {
    username + seq!['@'] + host + seq![':'] + decimal_chars(port as nat)
}

/// The key a password is stored under.
pub fn account(username: &str, host: &str, port: u16) -> (a: String)
    ensures
        a@ == account_spec(username@, host@, port),
{
    let mut a = String::from_str(username);
    push_char(&mut a, '@');
    a.append(host);
    push_char(&mut a, ':');
    push_decimal_chars(&mut a, port as u64);
    a
}

/// No account appears twice.
pub open spec fn keys_unique(e: Seq<(String, String)>) -> bool {
    forall|i: int, j: int| 0 <= i < j < e.len() ==> #[trigger] e[i].0@ != #[trigger] e[j].0@
}

/// The passwords of a list of entries, by account.
pub open spec fn secrets_of(e: Seq<(String, String)>) -> Map<Seq<char>, Seq<char>>
    decreases e.len(),
{
    if e.len() == 0 {
        Map::empty()
    } else {
        secrets_of(e.drop_last()).insert(e.last().0@, e.last().1@)
    }
}

proof fn lemma_dom(e: Seq<(String, String)>, k: Seq<char>)
    ensures
        secrets_of(e).contains_key(k) <==> exists|j: int| 0 <= j < e.len() && #[trigger] e[j].0@ == k,
    decreases e.len(),
{
    if e.len() > 0 {
        lemma_dom(e.drop_last(), k);
        if secrets_of(e.drop_last()).contains_key(k) {
            let j = choose|j: int| 0 <= j < e.drop_last().len() && #[trigger] e.drop_last()[j].0@ == k;
            assert(e[j].0@ == k);
        }
        if exists|j: int| 0 <= j < e.len() && #[trigger] e[j].0@ == k {
            let j = choose|j: int| 0 <= j < e.len() && #[trigger] e[j].0@ == k;
            if j < e.len() - 1 {
                assert(e.drop_last()[j].0@ == k);
            }
        }
    }
}

proof fn lemma_value(e: Seq<(String, String)>, i: int)
    requires
        keys_unique(e),
        0 <= i < e.len(),
    ensures
        secrets_of(e).contains_key(e[i].0@),
        secrets_of(e)[e[i].0@] == e[i].1@,
    decreases e.len(),
{
    if i < e.len() - 1 {
        let d = e.drop_last();
        assert(keys_unique(d)) by {
            assert forall|a: int, b: int| 0 <= a < b < d.len() implies #[trigger] d[a].0@ != #[trigger] d[b].0@ by {
                assert(d[a] == e[a] && d[b] == e[b]);
            }
        }
        assert(d[i] == e[i]);
        lemma_value(d, i);
        assert(e[i].0@ != e[e.len() - 1].0@);
    }
}

proof fn lemma_remove(e: Seq<(String, String)>, i: int)
    requires
        keys_unique(e),
        0 <= i < e.len(),
    ensures
        secrets_of(e.remove(i)) == secrets_of(e).remove(e[i].0@),
    decreases e.len(),
{
    let k = e[i].0@;
    let d = e.drop_last();
    assert(keys_unique(d)) by {
        assert forall|a: int, b: int| 0 <= a < b < d.len() implies #[trigger] d[a].0@ != #[trigger] d[b].0@ by {
            assert(d[a] == e[a] && d[b] == e[b]);
        }
    }
    if i == e.len() - 1 {
        assert(e.remove(i) =~= d);
        lemma_dom(d, k);
        assert(!secrets_of(d).contains_key(k)) by {
            if exists|j: int| 0 <= j < d.len() && #[trigger] d[j].0@ == k {
                let j = choose|j: int| 0 <= j < d.len() && #[trigger] d[j].0@ == k;
                assert(e[j].0@ == k);
            }
        }
        assert(secrets_of(e).remove(k) =~= secrets_of(d));
    } else {
        assert(d[i] == e[i]);
        lemma_remove(d, i);
        let r = e.remove(i);
        assert(r.drop_last() =~= d.remove(i));
        assert(r.last() == e.last());
        assert(e.last().0@ != k);
        assert(secrets_of(r) =~= secrets_of(e).remove(k));
    }
}

/// The passwords of this run of the app, by account. A password that is
/// replaced or forgotten is wiped before it goes.
pub struct Memory {
    entries: Vec<(String, String)>,
}

impl Memory {
    #[verifier::type_invariant]
    spec fn entries_unique(&self) -> bool {
        keys_unique(self.entries@)
    }

    /// The passwords it holds, by account.
    pub closed spec fn secrets(&self) -> Map<Seq<char>, Seq<char>> {
        secrets_of(self.entries@)
    }

    /// No passwords yet.
    pub fn new() -> (m: Memory)
        ensures
            m.secrets() == Map::<Seq<char>, Seq<char>>::empty(),
    {
        Memory { entries: Vec::new() }
    }

    fn find(&self, account: &str) -> (at: Option<usize>)
        ensures
            match at {
                Some(i) => i < self.entries@.len() && self.entries@[i as int].0@ == account@,
                None => forall|j: int| 0 <= j < self.entries@.len() ==> #[trigger] self.entries@[j].0@ != account@,
            },
    {
        let mut i: usize = 0;
        while i < self.entries.len()
            invariant
                i <= self.entries@.len(),
                forall|j: int| 0 <= j < i ==> #[trigger] self.entries@[j].0@ != account@,
            decreases self.entries@.len() - i,
        {
            if crate::text::str_eq(self.entries[i].0.as_str(), account) {
                return Some(i);
            }
            i = i + 1;
        }
        None
    }

    /// The password of `account`, if one was given this run.
    pub fn get(&self, account: &str) -> (r: Option<String>)
        ensures
            match r {
                Some(s) => self.secrets().contains_key(account@) && s@ == self.secrets()[account@],
                None => !self.secrets().contains_key(account@),
            },
    {
        proof {
            use_type_invariant(self);
            lemma_dom(self.entries@, account@);
        }
        match self.find(account) {
            Some(i) => {
                proof {
                    lemma_value(self.entries@, i as int);
                }
                Some(self.entries[i].1.clone())
            },
            None => None,
        }
    }

    /// Remembers `secret` for `account`, in place of what was there (which is wiped).
    pub fn set(&mut self, account: &str, secret: String)
        ensures
            final(self).secrets() == old(self).secrets().insert(account@, secret@),
    {
        proof {
            use_type_invariant(&*self);
        }
        let found = self.find(account);
        let mut entries: Vec<(String, String)> = Vec::new();
        std::mem::swap(&mut entries, &mut self.entries);
        let ghost before = entries@;
        match found {
            Some(i) => {
                proof {
                    lemma_remove(before, i as int);
                }
                let (_, old_secret) = entries.remove(i);
                wipe(old_secret);
                assert(keys_unique(entries@)) by {
                    assert forall|a: int, b: int| 0 <= a < b < entries@.len() implies #[trigger] entries@[a].0@
                        != #[trigger] entries@[b].0@ by {
                        let (x, y) = (if a < i { a } else { a + 1 }, if b < i { b } else { b + 1 });
                        assert(entries@[a] == before[x] && entries@[b] == before[y]);
                    }
                }
            },
            None => {
                proof {
                    lemma_dom(before, account@);
                }
                assert(secrets_of(before).remove(account@) =~= secrets_of(before));
            },
        }
        let ghost mid = entries@;
        assert(secrets_of(mid) == secrets_of(before).remove(account@));
        assert(forall|j: int| 0 <= j < mid.len() ==> #[trigger] mid[j].0@ != account@) by {
            lemma_dom(mid, account@);
            assert(!secrets_of(mid).contains_key(account@));
        }
        let key = String::from_str(account);
        entries.push((key, secret));
        assert(entries@.drop_last() =~= mid);
        assert(secrets_of(entries@) =~= secrets_of(before).insert(account@, secret@));
        assert(keys_unique(entries@)) by {
            assert forall|a: int, b: int| 0 <= a < b < entries@.len() implies #[trigger] entries@[a].0@
                != #[trigger] entries@[b].0@ by {
                if b < entries@.len() - 1 {
                    assert(entries@[a] == mid[a] && entries@[b] == mid[b]);
                } else {
                    assert(entries@[a] == mid[a]);
                }
            }
        }
        self.entries = entries;
    }

    /// Forgets the password of `account`, wiping it.
    pub fn forget(&mut self, account: &str)
        ensures
            final(self).secrets() == old(self).secrets().remove(account@),
    {
        proof {
            use_type_invariant(&*self);
            lemma_dom(self.entries@, account@);
        }
        let found = self.find(account);
        let mut entries: Vec<(String, String)> = Vec::new();
        std::mem::swap(&mut entries, &mut self.entries);
        let ghost before = entries@;
        match found {
            Some(i) => {
                proof {
                    lemma_remove(before, i as int);
                }
                let (_, old_secret) = entries.remove(i);
                wipe(old_secret);
                assert(keys_unique(entries@)) by {
                    assert forall|a: int, b: int| 0 <= a < b < entries@.len() implies #[trigger] entries@[a].0@
                        != #[trigger] entries@[b].0@ by {
                        let (x, y) = (if a < i { a } else { a + 1 }, if b < i { b } else { b + 1 });
                        assert(entries@[a] == before[x] && entries@[b] == before[y]);
                    }
                }
            },
            None => {
                assert(secrets_of(before).remove(account@) =~= secrets_of(before));
            },
        }
        self.entries = entries;
    }
}

/// The character of a 6 bit value in the standard base64 alphabet.
pub open spec fn base64_digit(v: int) -> char {
    if v < 26 {
        ((65 + v) as u32) as char
    } else if v < 52 {
        ((71 + v) as u32) as char
    } else if v < 62 {
        ((v - 4) as u32) as char
    } else if v == 62 {
        '+'
    } else {
        '/'
    }
}

/// Standard base64 with padding (RFC 4648): each 3 bytes become 4
/// characters, and a last 1 or 2 bytes become 2 or 3 characters and `=`s.
pub open spec fn base64_of(b: Seq<u8>) -> Seq<char>
    decreases b.len(),
{
    if b.len() == 0 {
        Seq::empty()
    } else if b.len() == 1 {
        let x = b[0] as int;
        seq![base64_digit(x / 4), base64_digit((x % 4) * 16), '=', '=']
    } else if b.len() == 2 {
        let (x, y) = (b[0] as int, b[1] as int);
        seq![base64_digit(x / 4), base64_digit((x % 4) * 16 + y / 16), base64_digit((y % 16) * 4), '=']
    } else {
        let (x, y, z) = (b[0] as int, b[1] as int, b[2] as int);
        seq![base64_digit(x / 4), base64_digit((x % 4) * 16 + y / 16), base64_digit((y % 16) * 4 + z / 64), base64_digit(z % 64)]
            + base64_of(b.skip(3))
    }
}

/// `data_encoding::BASE64.encode`: standard base64 with padding.
#[verifier::external_body]
fn base64_encode(input: &[u8]) -> (s: String)
    ensures
        s@ == base64_of(input@),
{
    data_encoding::BASE64.encode(input)
}

/// What `data_encoding::BASE64.decode` gives for some bytes: the bytes they
/// decode to, or `None` where it refuses them.
pub uninterp spec fn base64_decoded(input: Seq<u8>) -> Option<Seq<u8>>;

/// `data_encoding::BASE64.decode`. Its result is named by
/// [`base64_decoded`], and its documentation promises ("encoding followed by
/// decoding gives the initial data") that the encoding of any bytes decodes
/// back to them. Nothing more is said of other input: this padded encoding
/// is not canonical, and it also decodes, for one, concatenated padded
/// pieces. Which error an input gives is dropped.
#[verifier::external_body]
fn base64_decode(input: &[u8]) -> (r: Option<Vec<u8>>)
    ensures
        (match r {
            Some(v) => base64_decoded(input@) == Some(v@),
            None => base64_decoded(input@) is None,
        }),
        forall|b: Seq<u8>| input@ == encode_utf8(#[trigger] base64_of(b)) ==> r is Some && r->0@ == b,
{
    data_encoding::BASE64.decode(input).ok()
}

/// `String::from_utf8`: a string exactly when the bytes are UTF-8, and then
/// one whose encoding they are.
#[verifier::external_body]
fn utf8_string(bytes: Vec<u8>) -> (r: Option<String>)
    ensures
        r is Some <==> valid_utf8(bytes@),
        r matches Some(s) ==> encode_utf8(s@) == bytes@,
{
    String::from_utf8(bytes).ok()
}

/// `zeroize`'s `Zeroize` for a string: its bytes are overwritten with zeros
/// before it is dropped.
#[verifier::external_body]
fn wipe(s: String) {
    let mut s = s;
    s.zeroize();
}

/// `zeroize`'s `Zeroize` for bytes: overwritten with zeros before they are dropped.
#[verifier::external_body]
fn wipe_bytes(b: Vec<u8>) {
    let mut b = b;
    b.zeroize();
}

/// How the unsafe store writes a password down: base64 of the base64 of its bytes.
pub open spec fn stash_spec(secret: Seq<char>) -> Seq<char> {
    base64_of(encode_utf8(base64_of(encode_utf8(secret))))
}

/// A password as the unsafe store writes it down.
pub fn stash(secret: &str) -> (text: String)
    ensures
        text@ == stash_spec(secret@),
{
    let once = base64_encode(secret.as_bytes());
    let twice = base64_encode(once.as_str().as_bytes());
    wipe(once);
    twice
}

proof fn lemma_utf8_injective(a: Seq<char>, b: Seq<char>)
    requires
        encode_utf8(a) == encode_utf8(b),
    ensures
        a == b,
{
    vstd::utf8::encode_utf8_decode_utf8(a);
    vstd::utf8::encode_utf8_decode_utf8(b);
}

/// What the unsafe store reads back from `text`: its bytes decoded from
/// base64 twice, when both decodes succeed and the result is UTF-8.
pub open spec fn unstash_spec(text: Seq<char>) -> Option<Seq<char>> {
    match base64_decoded(encode_utf8(text)) {
        None => None,
        Some(once) => match base64_decoded(once) {
            None => None,
            Some(twice) => if valid_utf8(twice) {
                Some(decode_utf8(twice))
            } else {
                None
            },
        },
    }
}

/// The password that `text` is the written down form of: the text that
/// [`stash`] wrote for a password gives that password back.
pub fn unstash(text: &str) -> (r: Option<String>)
    ensures
        (match r {
            Some(x) => unstash_spec(text@) == Some(x@),
            None => unstash_spec(text@) is None,
        }),
        forall|s: Seq<char>| text@ == #[trigger] stash_spec(s) ==> (r matches Some(x) && x@ == s),
{
    let once = match base64_decode(text.as_bytes()) {
        Some(o) => o,
        None => {
            return None;
        },
    };
    let twice = match base64_decode(once.as_slice()) {
        Some(t) => t,
        None => {
            wipe_bytes(once);
            return None;
        },
    };
    let ghost once_v = once@;
    let ghost twice_v = twice@;
    wipe_bytes(once);
    let r = utf8_string(twice);
    proof {
        if r is Some {
            vstd::utf8::encode_utf8_decode_utf8(r->0@);
        }
        assert forall|s: Seq<char>| text@ == #[trigger] stash_spec(s) implies (r matches Some(x) && x@ == s) by {
            let b1 = encode_utf8(base64_of(encode_utf8(s)));
            assert(encode_utf8(text@) == encode_utf8(base64_of(b1)));
            assert(once_v == b1);
            assert(twice_v == encode_utf8(s));
            vstd::utf8::encode_utf8_valid_utf8(s);
            let x = r->0;
            lemma_utf8_injective(x@, s);
        }
    }
    r
}


/// What the memory store gives back for an account is the last password it
/// got for it, and nothing once it is forgotten; other accounts are left as
/// they were.
pub proof fn law_memory_reads_back(m: Map<Seq<char>, Seq<char>>, account: Seq<char>, other: Seq<char>, secret: Seq<char>)
    requires
        other != account,
    ensures
        m.insert(account, secret).contains_key(account),
        m.insert(account, secret)[account] == secret,
        !m.remove(account).contains_key(account),
        m.insert(account, secret).contains_key(other) == m.contains_key(other),
        m.remove(account).contains_key(other) == m.contains_key(other),
        m.contains_key(other) ==> m.insert(account, secret)[other] == m[other] && m.remove(account)[other] == m[other],
{
}

} // verus!
