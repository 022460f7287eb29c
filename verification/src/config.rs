//! The baked in configuration's helpers: colors by name and templates with
//! `{name}` placeholders.
use vstd::prelude::*;
use crate::schema::{parse_color, color_spec, Config};
use crate::term::color::Rgba;
use crate::text::{chars_of, string_of, replace, replace_all, words, split_words, view_words, push_char, decimal_chars, push_decimal_chars};

verus! {

/// `hex` ("#rrggbb") as a color; magenta for anything else, loud enough to
/// be noticed.
pub fn color(hex: &str) -> (c: Rgba)
    ensures
        c == (match color_spec(hex@) {
            Ok((r, g, b)) => Rgba { r, g, b, a: 255 },
            Err(_) => Rgba { r: 255, g: 0, b: 255, a: 255 },
        }),
{
    match parse_color(hex) {
        Ok(a) => {
            proof {
                assert(a@[0] == a[0] && a@[1] == a[1] && a@[2] == a[2]);
            }
            Rgba::from_rgb(a[0], a[1], a[2])
        },
        Err(_) => Rgba::from_rgb(255, 0, 255),
    }
}

/// The eight bytes every PNG file begins with.
pub open spec fn png_signature() -> Seq<u8> {
    seq![0x89u8, 0x50u8, 0x4eu8, 0x47u8, 0x0du8, 0x0au8, 0x1au8, 0x0au8]
}

/// The big endian number in the four bytes of `b` from `at` on.
pub open spec fn be_u32(b: Seq<u8>, at: int) -> nat {
    (b[at] * 16777216 + b[at + 1] * 65536 + b[at + 2] * 256 + b[at + 3]) as nat
}

/// "WIDTHxHEIGHT" of a PNG, read from its IHDR chunk (bytes 16 to 24); `None`
/// for bytes that do not begin with the PNG signature or are too short to
/// hold that chunk.
pub open spec fn png_size_spec(b: Seq<u8>) -> Option<Seq<char>> {
    if b.len() >= 24 && b.subrange(0, 8) == png_signature() {
        Some(decimal_chars(be_u32(b, 16)).push('x') + decimal_chars(be_u32(b, 20)))
    } else {
        None
    }
}

fn be_u32_at(b: &[u8], at: usize) -> (n: u64)
    requires
        at + 4 <= b@.len(),
    ensures
        n == be_u32(b@, at as int),
{
    (b[at] as u64) * 16777216 + (b[at + 1] as u64) * 65536 + (b[at + 2] as u64) * 256 + (b[at + 3] as u64)
}

/// The size of an app icon, "WIDTHxHEIGHT", as packaging names the icon
/// folder after it; `None` where the bytes are not a PNG.
pub fn png_size(png: &[u8]) -> (s: Option<String>)
    ensures
        match (s, png_size_spec(png@)) {
            (Some(t), Some(v)) => t@ == v,
            (None, None) => true,
            _ => false,
        },
{
    if png.len() < 24 {
        return None;
    }
    let sig: [u8; 8] = [0x89, 0x50, 0x4e, 0x47, 0x0d, 0x0a, 0x1a, 0x0a];
    let mut i: usize = 0;
    while i < 8
        invariant
            i <= 8,
            png@.len() >= 24,
            sig@ == png_signature(),
            forall|k: int| 0 <= k < i ==> png@[k] == png_signature()[k],
        decreases 8 - i,
    {
        if png[i] != sig[i] {
            assert(png@.subrange(0, 8)[i as int] != png_signature()[i as int]);
            return None;
        }
        i = i + 1;
    }
    assert(png@.subrange(0, 8) =~= png_signature());
    let mut t = String::new();
    push_decimal_chars(&mut t, be_u32_at(png, 16));
    push_char(&mut t, 'x');
    push_decimal_chars(&mut t, be_u32_at(png, 20));
    Some(t)
}

/// The placeholder for the variable `name`: `{name}`.
pub open spec fn placeholder(name: Seq<char>) -> Seq<char> {
    seq!['{'] + name + seq!['}']
}

/// Each pair's placeholder replaced by its value, one pair after the other.
pub open spec fn fill_spec(template: Seq<char>, vars: Seq<(Seq<char>, Seq<char>)>) -> Seq<char>
    decreases vars.len(),
{
    if vars.len() == 0 {
        template
    } else {
        fill_spec(replace_all(template, placeholder(vars[0].0), vars[0].1), vars.drop_first())
    }
}

proof fn lemma_replace_past(x: Seq<char>, z: Seq<char>, pat: Seq<char>, rep: Seq<char>)
    requires
        pat.len() > 0,
        pat[0] == '{',
        !x.contains('{'),
    ensures
        replace_all(x + z, pat, rep) == x + replace_all(z, pat, rep),
    decreases x.len(),
{
    if x.len() > 0 {
        let s = x + z;
        assert(s[0] == x[0]);
        if pat.len() <= s.len() && s.take(pat.len() as int) == pat {
            assert(s.take(pat.len() as int)[0] == s[0]);
            assert(x.contains(x[0]));
        }
        assert(!x.skip(1).contains('{')) by {
            if x.skip(1).contains('{') {
                let k = choose|k: int| 0 <= k < x.skip(1).len() && x.skip(1)[k] == '{';
                assert(x[k + 1] == '{');
            }
        }
        assert(s.skip(1) =~= x.skip(1) + z);
        lemma_replace_past(x.skip(1), z, pat, rep);
        assert(x =~= seq![x[0]] + x.skip(1));
    } else {
        assert(x + z =~= z);
    }
}

/// Filling a template changes only its placeholders: text without a `{`
/// comes back as it was whatever the values, and a placeholder `{name}`
/// between plain text becomes the value given for `name`, the text around
/// it kept.
pub proof fn law_fill(template: Seq<char>, vars: Seq<(Seq<char>, Seq<char>)>, x: Seq<char>, y: Seq<char>,
    name: Seq<char>, value: Seq<char>)
    ensures
        !template.contains('{') ==> fill_spec(template, vars) == template,
        !x.contains('{') && !y.contains('{') ==> fill_spec(x + placeholder(name) + y, seq![(name, value)]) == x + value + y,
    decreases vars.len(),
{
    if !template.contains('{') && vars.len() > 0 {
        let pat = placeholder(vars[0].0);
        assert(pat[0] == '{');
        lemma_replace_past(template, Seq::empty(), pat, vars[0].1);
        assert(template + Seq::<char>::empty() =~= template);
        assert(replace_all(Seq::<char>::empty(), pat, vars[0].1) =~= Seq::<char>::empty());
        law_fill(template, vars.drop_first(), x, y, name, value);
    }
    if !x.contains('{') && !y.contains('{') {
        let pat = placeholder(name);
        assert(pat[0] == '{');
        let z = pat + y;
        assert(x + pat + y =~= x + z);
        lemma_replace_past(x, z, pat, value);
        assert(z.take(pat.len() as int) =~= pat);
        assert(z.skip(pat.len() as int) =~= y);
        lemma_replace_past(y, Seq::empty(), pat, value);
        assert(y + Seq::<char>::empty() =~= y);
        assert(replace_all(Seq::<char>::empty(), pat, value) =~= Seq::<char>::empty());
        let vs = seq![(name, value)];
        assert(vs[0] == (name, value));
        assert(vs.drop_first() =~= Seq::<(Seq<char>, Seq<char>)>::empty());
        assert(replace_all(z, pat, value) == value + replace_all(y, pat, value));
        assert(replace_all(x + pat + y, pat, value) == x + (value + y));
        assert(fill_spec(x + pat + y, vs) == fill_spec(replace_all(x + pat + y, pat, value), vs.drop_first()));
        assert(x + value + y =~= x + (value + y));
    }
}

pub open spec fn pairs_view(vars: Seq<(&str, &str)>) -> Seq<(Seq<char>, Seq<char>)> {
    vars.map_values(|p: (&str, &str)| (p.0@, p.1@))
}

/// "{name}" -> value, for every pair in turn.
pub fn fill(template: &str, vars: &[(&str, &str)]) -> (out: String)
    ensures
        out@ == fill_spec(template@, pairs_view(vars@)),
{
    let mut out = chars_of(template);
    let mut i: usize = 0;
    assert(pairs_view(vars@).skip(0) =~= pairs_view(vars@));
    while i < vars.len()
        invariant
            i <= vars@.len(),
            fill_spec(out@, pairs_view(vars@).skip(i as int)) == fill_spec(template@, pairs_view(vars@)),
        decreases vars@.len() - i,
    {
        let (name, value) = vars[i];
        let mut pat: Vec<char> = Vec::new();
        pat.push('{');
        let n = chars_of(name);
        let mut k: usize = 0;
        while k < n.len()
            invariant
                k <= n@.len(),
                pat@ == seq!['{'] + n@.take(k as int),
            decreases n@.len() - k,
        {
            pat.push(n[k]);
            k = k + 1;
            assert(pat@ =~= seq!['{'] + n@.take(k as int));
        }
        pat.push('}');
        assert(n@.take(n@.len() as int) =~= n@);
        let v = chars_of(value);
        let ghost rest = pairs_view(vars@).skip(i as int);
        assert(rest[0] == (name@, value@));
        assert(rest.drop_first() =~= pairs_view(vars@).skip(i + 1));
        assert(pat@ =~= placeholder(name@));
        let ghost before = out@;
        out = replace(out.as_slice(), pat.as_slice(), v.as_slice());
        assert(fill_spec(before, rest) == fill_spec(out@, rest.drop_first()));
        i = i + 1;
    }
    string_of(out.as_slice())
}


/// The pieces joined, with `sep` between each two.
pub open spec fn join_with(v: Seq<Seq<char>>, sep: Seq<char>) -> Seq<char>
    decreases v.len(),
{
    if v.len() == 0 {
        Seq::empty()
    } else if v.len() == 1 {
        v[0]
    } else {
        join_with(v.drop_last(), sep) + sep + v.last()
    }
}

/// `s` on one line: its words with one space between them.
pub open spec fn one_line_spec(s: Seq<char>) -> Seq<char> {
    join_with(words(s), seq![' '])
}

fn append_chars(out: &mut String, cs: &[char])
    ensures
        final(out)@ == old(out)@ + cs@,
{
    let mut i: usize = 0;
    while i < cs.len()
        invariant
            i <= cs@.len(),
            out@ == old(out)@ + cs@.take(i as int),
        decreases cs@.len() - i,
    {
        push_char(out, cs[i]);
        i = i + 1;
        assert(out@ =~= old(out)@ + cs@.take(i as int));
    }
    assert(cs@.take(cs@.len() as int) =~= cs@);
}

fn join_pieces(v: &Vec<Vec<char>>, sep: &str) -> (out: String)
    ensures
        out@ == join_with(view_words(v@), sep@),
{
    let ghost vv = view_words(v@);
    let sc = chars_of(sep);
    let mut out = String::new();
    let mut i: usize = 0;
    while i < v.len()
        invariant
            i <= v@.len(),
            vv == view_words(v@),
            sc@ == sep@,
            out@ == join_with(vv.take(i as int), sep@),
        decreases v@.len() - i,
    {
        let ghost before = out@;
        if i > 0 {
            append_chars(&mut out, sc.as_slice());
        }
        append_chars(&mut out, v[i].as_slice());
        assert(vv[i as int] == v@[i as int]@);
        assert(vv.take(i + 1).drop_last() =~= vv.take(i as int));
        if i == 0 {
            assert(vv.take(1) =~= seq![vv[0]]);
        }
        assert(out@ =~= join_with(vv.take(i + 1), sep@));
        i = i + 1;
    }
    assert(vv.take(vv.len() as int) =~= vv);
    out
}

/// `s` on one line.
pub fn one_line(s: &str) -> (out: String)
    ensures
        out@ == one_line_spec(s@),
{
    let cs = chars_of(s);
    let ws = split_words(cs.as_slice());
    proof {
        reveal_strlit(" ");
        assert(" "@ =~= seq![' ']);
    }
    join_pieces(&ws, " ")
}

pub open spec fn strings_view(v: Seq<String>) -> Seq<Seq<char>> {
    v.map_values(|s: String| s@)
}

fn join_strings(v: &Vec<String>, sep: &str) -> (out: String)
    ensures
        out@ == join_with(strings_view(v@), sep@),
{
    let mut cs: Vec<Vec<char>> = Vec::new();
    let mut i: usize = 0;
    while i < v.len()
        invariant
            i <= v@.len(),
            view_words(cs@) == strings_view(v@).take(i as int),
        decreases v@.len() - i,
    {
        let ghost before = view_words(cs@);
        cs.push(chars_of(v[i].as_str()));
        assert(view_words(cs@) =~= before.push(v@[i as int]@));
        assert(strings_view(v@).take(i + 1) =~= strings_view(v@).take(i as int).push(v@[i as int]@));
        i = i + 1;
    }
    assert(strings_view(v@).take(v@.len() as int) =~= strings_view(v@));
    join_pieces(&cs, sep)
}

/// What the package says about the app when the config has no long description.
pub open spec fn default_long_description(cfg: Config) -> Seq<char> {
    match cfg.local {
        Some(l) => cfg.app.name@ + " in a window of its own: it runs "@ + l.program@
            + " in a terminal built into the window."@,
        None => cfg.app.name@
            + " in a window of its own: it logs into a server over SSH and runs the app there, reconnecting by itself when the connection drops."@,
    }
}

pub open spec fn or_empty(o: Option<String>) -> Seq<char> {
    match o {
        Some(s) => s@,
        None => Seq::empty(),
    }
}

/// One `KEY=value` line.
pub open spec fn meta_line(key: Seq<char>, value: Seq<char>) -> Seq<char> {
    key + seq!['='] + value + seq!['\n']
}

/// What packaging needs to know of the app, as `KEY=value` lines: names,
/// version (tacoshell's own `own` without one of the app's), the one line
/// description (the name without one), the long description on one line,
/// maintainer, license, homepage, the local program's packages, and the
/// icon's size when there is an icon.
pub open spec fn meta_spec(cfg: Config, own: Seq<char>, icon_size: Seq<char>) -> Seq<char> {
    let description = if cfg.app.description@.len() == 0 { cfg.app.name@ } else { cfg.app.description@ };
    let long = match cfg.packaging.long_description {
        Some(l) => l@,
        None => default_long_description(cfg),
    };
    meta_line("NAME"@, cfg.app.name@) + meta_line("ID"@, cfg.app.id@) + meta_line("BINARY"@, cfg.app.binary@)
        + meta_line("VERSION"@, match cfg.app.version {
        Some(v) => v@,
        None => own,
    }) + meta_line("DESCRIPTION"@, one_line_spec(description)) + meta_line("LONG_DESCRIPTION"@, one_line_spec(long))
        + meta_line("MAINTAINER"@, or_empty(cfg.packaging.maintainer)) + meta_line("LICENSE"@, or_empty(cfg.packaging.license))
        + meta_line("HOMEPAGE"@, or_empty(cfg.packaging.homepage)) + meta_line("DEPENDS"@, match cfg.local {
        Some(l) => join_with(strings_view(l.depends@), ", "@),
        None => Seq::empty(),
    }) + meta_line("ICON_SIZE"@, icon_size)
}

fn push_line(out: &mut String, key: &str, value: &str)
    ensures
        final(out)@ == old(out)@ + meta_line(key@, value@),
{
    out.append(key);
    push_char(out, '=');
    out.append(value);
    push_char(out, '\n');
}

fn opt_or_empty(o: &Option<String>) -> (s: String)
    ensures
        s@ == or_empty(*o),
{
    match o {
        Some(s) => s.clone(),
        None => String::new(),
    }
}

/// The `KEY=value` lines packaging reads, so that it never has to run the
/// binary; `icon_size` is "WIDTHxHEIGHT" of the icon, empty without one.
pub fn meta(cfg: &Config, own: &str, icon_size: &str) -> (m: String)
    ensures
        m@ == meta_spec(*cfg, own@, icon_size@),
{
    let mut m = String::new();
    push_line(&mut m, "NAME", cfg.app.name.as_str());
    push_line(&mut m, "ID", cfg.app.id.as_str());
    push_line(&mut m, "BINARY", cfg.app.binary.as_str());
    let version = match &cfg.app.version {
        Some(v) => v.clone(),
        None => String::from_str(own),
    };
    push_line(&mut m, "VERSION", version.as_str());
    let description = if cfg.app.description.as_str().is_empty() {
        cfg.app.name.clone()
    } else {
        cfg.app.description.clone()
    };
    push_line(&mut m, "DESCRIPTION", one_line(description.as_str()).as_str());
    let long = match &cfg.packaging.long_description {
        Some(l) => l.clone(),
        None => {
            let mut d = cfg.app.name.clone();
            match &cfg.local {
                Some(l) => {
                    d.append(" in a window of its own: it runs ");
                    d.append(l.program.as_str());
                    d.append(" in a terminal built into the window.");
                },
                None => {
                    d.append(
                        " in a window of its own: it logs into a server over SSH and runs the app there, reconnecting by itself when the connection drops.",
                    );
                },
            }
            d
        },
    };
    push_line(&mut m, "LONG_DESCRIPTION", one_line(long.as_str()).as_str());
    push_line(&mut m, "MAINTAINER", opt_or_empty(&cfg.packaging.maintainer).as_str());
    push_line(&mut m, "LICENSE", opt_or_empty(&cfg.packaging.license).as_str());
    push_line(&mut m, "HOMEPAGE", opt_or_empty(&cfg.packaging.homepage).as_str());
    let depends = match &cfg.local {
        Some(l) => join_strings(&l.depends, ", "),
        None => String::new(),
    };
    push_line(&mut m, "DEPENDS", depends.as_str());
    push_line(&mut m, "ICON_SIZE", icon_size);
    m
}

} // verus!
