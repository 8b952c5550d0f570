//! The catalog's persistence format, and its proof of round-tripping.
//!
//! A catalog is stored as one JSON document, `{"songs":[...]}`, each song an
//! object with the fields `artist`, `location` and `name` in that order.
//! Inside a string the two characters `"` and `\` are escaped with a
//! backslash; every other character stands for itself. The parser reads
//! exactly this form and rejects anything else, so a corrupt file is refused
//! as a whole — the caller then starts from an empty catalog.

use vstd::prelude::*;
use vstd::string::StrSliceExecFns;
use vstd::string::StringExecFns;
use crate::library::Library;
use crate::library::Song;
use crate::library::SongV;
use crate::library::song_views;
use crate::text::push_char;

verus! {

/// The characters one character of a field is written as: `"` and `\` get a
/// leading backslash, the rest stand alone.
pub open spec fn esc_char(c: char) -> Seq<char> {
    if c == '"' || c == '\\' {
        seq!['\\', c]
    } else {
        seq![c]
    }
}

/// A whole field's characters, escaped.
pub open spec fn esc(s: Seq<char>) -> Seq<char>
    decreases s.len(),
{
    if s.len() == 0 {
        Seq::empty()
    } else {
        esc_char(s[0]) + esc(s.drop_first())
    }
}

/// A field as it stands in the document: escaped, between double quotes.
pub open spec fn render_string(s: Seq<char>) -> Seq<char> {
    seq!['"'] + esc(s) + seq!['"']
}

/// The opener of a song object, up to the artist value's opening quote.
pub open spec fn lit_artist_key() -> Seq<char> {
    seq!['{', '"', 'a', 'r', 't', 'i', 's', 't', '"', ':']
}

/// The separator between the artist value and the location value.
pub open spec fn lit_location_key() -> Seq<char> {
    seq![',', '"', 'l', 'o', 'c', 'a', 't', 'i', 'o', 'n', '"', ':']
}

/// The separator between the location value and the name value.
pub open spec fn lit_name_key() -> Seq<char> {
    seq![',', '"', 'n', 'a', 'm', 'e', '"', ':']
}

/// The opener of the whole document, up to the song list's bracket.
pub open spec fn lit_songs_key() -> Seq<char> {
    seq!['{', '"', 's', 'o', 'n', 'g', 's', '"', ':']
}

/// One song as an object of its three fields.
pub open spec fn render_song(v: SongV) -> Seq<char> {
    lit_artist_key() + render_string(v.artist) + lit_location_key() + render_string(v.location)
        + lit_name_key() + render_string(v.name) + seq!['}']
}

/// The rest of a song list after its first song: each further song behind a
/// comma, then the closing bracket.
pub open spec fn render_songs_tail(l: Seq<SongV>) -> Seq<char>
    decreases l.len(),
{
    if l.len() == 0 {
        seq![']']
    } else {
        seq![','] + render_song(l[0]) + render_songs_tail(l.drop_first())
    }
}

/// The whole song list, brackets included.
pub open spec fn render_songs(l: Seq<SongV>) -> Seq<char> {
    if l.len() == 0 {
        seq!['[', ']']
    } else {
        seq!['['] + render_song(l[0]) + render_songs_tail(l.drop_first())
    }
}

/// The whole document for a catalog.
pub open spec fn render_lib(l: Seq<SongV>) -> Seq<char> {
    lit_songs_key() + render_songs(l) + seq!['}']
}

/// Consumes an exact literal from the front, or refuses.
pub open spec fn expect(t: Seq<char>, l: Seq<char>) -> Option<Seq<char>> {
    if l.len() <= t.len() && t.take(l.len() as int) == l {
        Some(t.skip(l.len() as int))
    } else {
        None
    }
}

/// Reads a string body up to its closing quote, undoing the escapes; yields
/// the content and what follows the quote.
pub open spec fn parse_string_body(t: Seq<char>) -> Option<(Seq<char>, Seq<char>)>
    decreases t.len(),
{
    if t.len() == 0 {
        None
    } else if t[0] == '"' {
        Some((Seq::empty(), t.drop_first()))
    } else if t[0] == '\\' {
        if t.len() >= 2 && (t[1] == '"' || t[1] == '\\') {
            match parse_string_body(t.skip(2)) {
                Some((s, rest)) => Some((seq![t[1]] + s, rest)),
                None => None,
            }
        } else {
            None
        }
    } else {
        match parse_string_body(t.drop_first()) {
            Some((s, rest)) => Some((seq![t[0]] + s, rest)),
            None => None,
        }
    }
}

/// Reads a whole quoted field, opening quote included.
pub open spec fn parse_quoted(t: Seq<char>) -> Option<(Seq<char>, Seq<char>)> {
    if t.len() > 0 && t[0] == '"' {
        parse_string_body(t.drop_first())
    } else {
        None
    }
}

/// Reads one song object from the front.
pub open spec fn parse_song(t: Seq<char>) -> Option<(SongV, Seq<char>)> {
    match expect(t, lit_artist_key()) {
        Some(t1) => match parse_quoted(t1) {
            Some((artist, t2)) => match expect(t2, lit_location_key()) {
                Some(t3) => match parse_quoted(t3) {
                    Some((location, t4)) => match expect(t4, lit_name_key()) {
                        Some(t5) => match parse_quoted(t5) {
                            Some((name, t6)) => match expect(t6, seq!['}']) {
                                Some(t7) => Some((SongV { artist, name, location }, t7)),
                                None => None,
                            },
                            None => None,
                        },
                        None => None,
                    },
                    None => None,
                },
                None => None,
            },
            None => None,
        },
        None => None,
    }
}

/// Reads the rest of a song list after its first song: `,`-led songs until
/// the closing bracket.
pub open spec fn parse_songs_tail(t: Seq<char>) -> Option<(Seq<SongV>, Seq<char>)>
    decreases t.len(),
{
    if t.len() == 0 {
        None
    } else if t[0] == ']' {
        Some((Seq::empty(), t.drop_first()))
    } else if t[0] == ',' {
        match parse_song(t.drop_first()) {
            Some((v, rest)) => (
                if rest.len() < t.len() {
                    match parse_songs_tail(rest) {
                        Some((vs, r2)) => Some((seq![v] + vs, r2)),
                        None => None,
                    }
                } else {
                    None
                }
            ),
            None => None,
        }
    } else {
        None
    }
}

/// Reads a whole song list, brackets included.
pub open spec fn parse_songs(t: Seq<char>) -> Option<(Seq<SongV>, Seq<char>)>
    decreases t.len(),
{
    if t.len() == 0 || t[0] != '[' {
        None
    } else if t.len() >= 2 && t[1] == ']' {
        Some((Seq::empty(), t.skip(2)))
    } else {
        match parse_song(t.drop_first()) {
            Some((v, rest)) => (
                if rest.len() < t.len() {
                    match parse_songs_tail(rest) {
                        Some((vs, r2)) => Some((seq![v] + vs, r2)),
                        None => None,
                    }
                } else {
                    None
                }
            ),
            None => None,
        }
    }
}

/// Reads a whole document: the catalog it holds, or nothing when the text is
/// not exactly a catalog document.
pub open spec fn parse_lib(t: Seq<char>) -> Option<Seq<SongV>> {
    match expect(t, lit_songs_key()) {
        Some(t1) => match parse_songs(t1) {
            Some((vs, t2)) => (
                if t2 == seq!['}'] {
                    Some(vs)
                } else {
                    None
                }
            ),
            None => None,
        },
        None => None,
    }
}

/// A literal at the front of a text is consumed exactly.
proof fn lemma_expect(l: Seq<char>, rest: Seq<char>)
    ensures
        expect(l + rest, l) == Some(rest),
{
    assert((l + rest).take(l.len() as int) =~= l);
    assert((l + rest).skip(l.len() as int) =~= rest);
}

/// Escaping one more character appends its escape.
proof fn lemma_esc_push(a: Seq<char>, x: char)
    ensures
        esc(a.push(x)) == esc(a) + esc_char(x),
    decreases a.len(),
{
    if a.len() == 0 {
        assert(a.push(x)[0] == x);
        assert(a.push(x).drop_first() =~= Seq::<char>::empty());
        assert(esc(a.push(x).drop_first()) == Seq::<char>::empty());
        assert(esc(a.push(x)) =~= esc(a) + esc_char(x));
    } else {
        lemma_esc_push(a.drop_first(), x);
        assert(a.push(x)[0] == a[0]);
        assert(a.push(x).drop_first() =~= a.drop_first().push(x));
        assert(esc(a.push(x)) == esc_char(a[0]) + esc(a.drop_first().push(x)));
        assert(esc(a) == esc_char(a[0]) + esc(a.drop_first()));
        assert(esc(a.push(x)) =~= esc(a) + esc_char(x));
    }
}

/// Parsing a string body undoes the escaping: the content comes back as it
/// was, and the text after the closing quote is untouched.
proof fn lemma_parse_esc(s: Seq<char>, rest: Seq<char>)
    ensures
        parse_string_body(esc(s) + seq!['"'] + rest) == Some((s, rest)),
    decreases s.len(),
{
    let t = esc(s) + seq!['"'] + rest;
    if s.len() == 0 {
        assert(t =~= seq!['"'] + rest);
        assert(t[0] == '"');
        assert(t.drop_first() =~= rest);
    } else {
        let c = s[0];
        let s2 = s.drop_first();
        lemma_parse_esc(s2, rest);
        if c == '"' || c == '\\' {
            assert(t =~= seq!['\\', c] + (esc(s2) + seq!['"'] + rest));
            assert(t[0] == '\\');
            assert(t[1] == c);
            assert(t.skip(2) =~= esc(s2) + seq!['"'] + rest);
            assert(seq![c] + s2 =~= s);
        } else {
            assert(t =~= seq![c] + (esc(s2) + seq!['"'] + rest));
            assert(t[0] == c);
            assert(t.drop_first() =~= esc(s2) + seq!['"'] + rest);
            assert(seq![c] + s2 =~= s);
        }
    }
}

/// Parsing a rendered field gives the field back.
proof fn lemma_parse_quoted(s: Seq<char>, rest: Seq<char>)
    ensures
        parse_quoted(render_string(s) + rest) == Some((s, rest)),
{
    let t = render_string(s) + rest;
    assert(t[0] == '"');
    assert(t.drop_first() =~= esc(s) + seq!['"'] + rest);
    lemma_parse_esc(s, rest);
}

/// Parsing a rendered song gives the song back.
#[verifier::rlimit(50)]
proof fn lemma_parse_song(v: SongV, rest: Seq<char>)
    ensures
        parse_song(render_song(v) + rest) == Some((v, rest)),
{
    let t = render_song(v) + rest;
    let r1 = render_string(v.artist) + lit_location_key() + render_string(v.location)
        + lit_name_key() + render_string(v.name) + seq!['}'] + rest;
    assert(t =~= lit_artist_key() + r1);
    lemma_expect(lit_artist_key(), r1);
    let r2 = lit_location_key() + render_string(v.location) + lit_name_key() + render_string(
        v.name,
    ) + seq!['}'] + rest;
    assert(r1 =~= render_string(v.artist) + r2);
    lemma_parse_quoted(v.artist, r2);
    let r3 = render_string(v.location) + lit_name_key() + render_string(v.name) + seq!['}'] + rest;
    assert(r2 =~= lit_location_key() + r3);
    lemma_expect(lit_location_key(), r3);
    let r4 = lit_name_key() + render_string(v.name) + seq!['}'] + rest;
    assert(r3 =~= render_string(v.location) + r4);
    lemma_parse_quoted(v.location, r4);
    let r5 = render_string(v.name) + seq!['}'] + rest;
    assert(r4 =~= lit_name_key() + r5);
    lemma_expect(lit_name_key(), r5);
    let r6 = seq!['}'] + rest;
    assert(r5 =~= render_string(v.name) + r6);
    lemma_parse_quoted(v.name, r6);
    lemma_expect(seq!['}'], rest);
    assert(r6 =~= seq!['}'] + rest);
}

/// Parsing a rendered list tail gives the remaining songs back.
#[verifier::rlimit(50)]
proof fn lemma_parse_songs_tail(l: Seq<SongV>, rest: Seq<char>)
    ensures
        parse_songs_tail(render_songs_tail(l) + rest) == Some((l, rest)),
    decreases l.len(),
{
    let t = render_songs_tail(l) + rest;
    if l.len() == 0 {
        assert(t =~= seq![']'] + rest);
        assert(t[0] == ']');
        assert(t.drop_first() =~= rest);
    } else {
        let l2 = l.drop_first();
        let mid = render_songs_tail(l2) + rest;
        assert(t =~= seq![','] + (render_song(l[0]) + mid));
        assert(t[0] == ',');
        assert(t.drop_first() =~= render_song(l[0]) + mid);
        lemma_parse_song(l[0], mid);
        assert(mid.len() < t.len());
        lemma_parse_songs_tail(l2, rest);
        assert(seq![l[0]] + l2 =~= l);
    }
}

/// Parsing a rendered song list gives the catalog back.
#[verifier::rlimit(50)]
proof fn lemma_parse_songs(l: Seq<SongV>, rest: Seq<char>)
    ensures
        parse_songs(render_songs(l) + rest) == Some((l, rest)),
{
    let t = render_songs(l) + rest;
    if l.len() == 0 {
        assert(t =~= seq!['[', ']'] + rest);
        assert(t[0] == '[');
        assert(t[1] == ']');
        assert(t.skip(2) =~= rest);
    } else {
        let l2 = l.drop_first();
        let mid = render_songs_tail(l2) + rest;
        assert(t =~= seq!['['] + (render_song(l[0]) + mid));
        assert(t[0] == '[');
        assert(t.drop_first() =~= render_song(l[0]) + mid);
        lemma_parse_song(l[0], mid);
        assert(render_song(l[0])[0] == '{');
        assert(t[1] == '{');
        assert(mid.len() < t.len());
        lemma_parse_songs_tail(l2, rest);
        assert(seq![l[0]] + l2 =~= l);
    }
}

/// Persisting a catalog and reading it back yields the same ordered list of
/// songs, field for field.
pub proof fn lemma_round_trip(l: Seq<SongV>)
    ensures
        parse_lib(render_lib(l)) == Some(l),
{
    let t = render_lib(l);
    let r1 = render_songs(l) + seq!['}'];
    assert(t =~= lit_songs_key() + r1);
    lemma_expect(lit_songs_key(), r1);
    lemma_parse_songs(l, seq!['}']);
}

/// Appends one field in its document form: quoted, with its content escaped.
fn append_quoted(out: &mut String, s: &str)
    ensures
        final(out)@ == old(out)@ + render_string(s@),
{
    let ghost init = out@;
    push_char(out, '"');
    let n = s.unicode_len();
    let mut i: usize = 0;
    proof {
        assert(esc(s@.take(0)) == Seq::<char>::empty());
        assert(out@ =~= init + seq!['"'] + esc(s@.take(0)));
    }
    while i < n
        invariant
            i <= n,
            n == s@.len(),
            out@ == init + seq!['"'] + esc(s@.take(i as int)),
        decreases n - i,
    {
        let c = s.get_char(i);
        let ghost pre = out@;
        if c == '"' || c == '\\' {
            push_char(out, '\\');
        }
        push_char(out, c);
        proof {
            lemma_esc_push(s@.take(i as int), s@[i as int]);
            assert(s@.take(i + 1) =~= s@.take(i as int).push(s@[i as int]));
            if c == '"' || c == '\\' {
                assert(out@ =~= pre + seq!['\\', c]);
            } else {
                assert(out@ =~= pre + seq![c]);
            }
            assert(out@ =~= init + seq!['"'] + esc(s@.take(i + 1)));
        }
        i = i + 1;
    }
    proof {
        assert(s@.take(n as int) =~= s@);
    }
    push_char(out, '"');
    proof {
        assert(out@ =~= init + render_string(s@));
    }
}

/// Appends one song as its object of three fields.
fn append_song(out: &mut String, s: &Song)
    ensures
        final(out)@ == old(out)@ + render_song(s@),
{
    let ghost init = out@;
    proof {
        reveal_strlit("{\"artist\":");
        reveal_strlit(",\"location\":");
        reveal_strlit(",\"name\":");
        assert("{\"artist\":"@ =~= lit_artist_key());
        assert(",\"location\":"@ =~= lit_location_key());
        assert(",\"name\":"@ =~= lit_name_key());
    }
    out.append("{\"artist\":");
    append_quoted(out, s.artist.as_str());
    out.append(",\"location\":");
    append_quoted(out, s.location.as_str());
    out.append(",\"name\":");
    append_quoted(out, s.name.as_str());
    push_char(out, '}');
    proof {
        assert(out@ =~= init + render_song(s@));
    }
}

/// Writes the whole catalog as one document.
pub fn to_json(l: &Library) -> (r: String)
    ensures
        r@ == render_lib(l@),
{
    let mut out = String::new();
    proof {
        reveal_strlit("{\"songs\":");
        assert("{\"songs\":"@ =~= lit_songs_key());
    }
    out.append("{\"songs\":");
    push_char(&mut out, '[');
    let n = l.songs.len();
    if n == 0 {
        push_char(&mut out, ']');
        proof {
            assert(out@ =~= lit_songs_key() + render_songs(l@));
        }
    } else {
        append_song(&mut out, &l.songs[0]);
        proof {
            assert(l@[0] == l.songs@[0]@);
            assert(l@.drop_first() =~= l@.skip(1));
            assert(out@ + render_songs_tail(l@.skip(1)) =~= lit_songs_key() + render_songs(l@));
        }
        let mut i: usize = 1;
        while i < n
            invariant
                1 <= i <= n,
                n == l.songs.len(),
                l@.len() == n,
                out@ + render_songs_tail(l@.skip(i as int)) == lit_songs_key() + render_songs(l@),
            decreases n - i,
        {
            let ghost pre = out@;
            push_char(&mut out, ',');
            append_song(&mut out, &l.songs[i]);
            proof {
                assert(l@[i as int] == l.songs@[i as int]@);
                assert(l@.skip(i as int)[0] == l@[i as int]);
                assert(l@.skip(i as int).drop_first() =~= l@.skip(i + 1));
                assert(render_songs_tail(l@.skip(i as int)) == seq![','] + render_song(
                    l@[i as int],
                ) + render_songs_tail(l@.skip(i + 1)));
                assert(out@ =~= pre + seq![','] + render_song(l@[i as int]));
                assert(out@ + render_songs_tail(l@.skip(i + 1)) =~= pre + render_songs_tail(
                    l@.skip(i as int),
                ));
            }
            i = i + 1;
        }
        proof {
            assert(l@.skip(n as int) =~= Seq::<SongV>::empty());
            assert(render_songs_tail(l@.skip(n as int)) == seq![']']);
        }
        push_char(&mut out, ']');
        proof {
            assert(out@ =~= lit_songs_key() + render_songs(l@));
        }
    }
    push_char(&mut out, '}');
    proof {
        assert(out@ =~= render_lib(l@));
    }
    out
}

/// Consumes an exact literal at `pos`, or reports that the text differs.
fn expect_lit(s: &str, pos: usize, lit: &str) -> (r: Option<usize>)
    requires
        pos <= s@.len(),
    ensures
        match r {
            Some(p) => pos <= p <= s@.len() && p == pos + lit@.len() && expect(
                s@.skip(pos as int),
                lit@,
            ) == Some(s@.skip(p as int)),
            None => expect(s@.skip(pos as int), lit@) is None,
        },
{
    let n = s.unicode_len();
    let m = lit.unicode_len();
    if m > n - pos {
        return None;
    }
    let mut j: usize = 0;
    while j < m
        invariant
            j <= m,
            m == lit@.len(),
            n == s@.len(),
            pos + m <= n,
            forall|k: int| 0 <= k < j ==> s@[pos + k] == lit@[k],
        decreases m - j,
    {
        if s.get_char(pos + j) != lit.get_char(j) {
            proof {
                let t = s@.skip(pos as int);
                assert(t.take(m as int)[j as int] == s@[pos + j]);
                assert(t.take(m as int) != lit@);
            }
            return None;
        }
        j = j + 1;
    }
    proof {
        let t = s@.skip(pos as int);
        assert(t.take(m as int) =~= lit@);
        assert(t.skip(m as int) =~= s@.skip(pos + m));
    }
    Some(pos + m)
}

/// Glues a parsed prefix onto the outcome of parsing the rest of a string
/// body.
spec fn prepend_body(pre: Seq<char>, r: Option<(Seq<char>, Seq<char>)>) -> Option<
    (Seq<char>, Seq<char>),
> {
    match r {
        Some(sr) => Some((pre + sr.0, sr.1)),
        None => None,
    }
}

/// Reads one quoted field at `pos`, undoing the escapes.
fn parse_quoted_exec(s: &str, pos: usize) -> (r: Option<(String, usize)>)
    requires
        pos <= s@.len(),
    ensures
        match r {
            Some(v) => pos < v.1 <= s@.len() && parse_quoted(s@.skip(pos as int)) == Some(
                (v.0@, s@.skip(v.1 as int)),
            ),
            None => parse_quoted(s@.skip(pos as int)) is None,
        },
{
    let n = s.unicode_len();
    if pos == n {
        return None;
    }
    if s.get_char(pos) != '"' {
        return None;
    }
    let mut out = String::new();
    let mut p: usize = pos + 1;
    proof {
        assert(s@.skip(pos as int)[0] == '"');
        assert(s@.skip(pos as int).drop_first() =~= s@.skip(pos + 1));
        let x = parse_string_body(s@.skip(pos + 1));
        match x {
            Some(sr) => {
                assert(Seq::<char>::empty() + sr.0 =~= sr.0);
            },
            None => {},
        }
    }
    loop
        invariant
            pos + 1 <= p <= n,
            n == s@.len(),
            parse_quoted(s@.skip(pos as int)) == prepend_body(
                out@,
                parse_string_body(s@.skip(p as int)),
            ),
        decreases n - p,
    {
        if p == n {
            return None;
        }
        let c = s.get_char(p);
        let ghost t = s@.skip(p as int);
        if c == '"' {
            proof {
                assert(t[0] == '"');
                assert(t.drop_first() =~= s@.skip(p + 1));
                assert(out@ + Seq::<char>::empty() =~= out@);
            }
            return Some((out, p + 1));
        }
        if c == '\\' {
            if n - p == 1 {
                proof {
                    assert(t.len() == 1);
                }
                return None;
            }
            let c2 = s.get_char(p + 1);
            if c2 == '"' || c2 == '\\' {
                let ghost pre = out@;
                push_char(&mut out, c2);
                proof {
                    assert(t[0] == '\\');
                    assert(t[1] == c2);
                    assert(t.skip(2) =~= s@.skip(p + 2));
                    let x = parse_string_body(s@.skip(p + 2));
                    match x {
                        Some(sr) => {
                            assert(pre + (seq![c2] + sr.0) =~= (pre.push(c2)) + sr.0);
                            assert(out@ =~= pre.push(c2));
                        },
                        None => {},
                    }
                }
                p = p + 2;
            } else {
                proof {
                    assert(t[0] == '\\');
                    assert(t[1] == c2);
                }
                return None;
            }
        } else {
            let ghost pre = out@;
            push_char(&mut out, c);
            proof {
                assert(t[0] == c);
                assert(t.drop_first() =~= s@.skip(p + 1));
                let x = parse_string_body(s@.skip(p + 1));
                match x {
                    Some(sr) => {
                        assert(pre + (seq![c] + sr.0) =~= (pre.push(c)) + sr.0);
                        assert(out@ =~= pre.push(c));
                    },
                    None => {},
                }
            }
            p = p + 1;
        }
    }
}

/// Reads one song object at `pos`.
fn parse_song_exec(s: &str, pos: usize) -> (r: Option<(Song, usize)>)
    requires
        pos <= s@.len(),
    ensures
        match r {
            Some(v) => pos < v.1 <= s@.len() && parse_song(s@.skip(pos as int)) == Some(
                (v.0@, s@.skip(v.1 as int)),
            ),
            None => parse_song(s@.skip(pos as int)) is None,
        },
{
    proof {
        reveal_strlit("{\"artist\":");
        reveal_strlit(",\"location\":");
        reveal_strlit(",\"name\":");
        reveal_strlit("}");
        assert("{\"artist\":"@ =~= lit_artist_key());
        assert(",\"location\":"@ =~= lit_location_key());
        assert(",\"name\":"@ =~= lit_name_key());
        assert("}"@ =~= seq!['}']);
    }
    let p1 = match expect_lit(s, pos, "{\"artist\":") {
        Some(p) => p,
        None => {
            return None;
        },
    };
    let (artist, p2) = match parse_quoted_exec(s, p1) {
        Some(v) => v,
        None => {
            return None;
        },
    };
    let p3 = match expect_lit(s, p2, ",\"location\":") {
        Some(p) => p,
        None => {
            return None;
        },
    };
    let (location, p4) = match parse_quoted_exec(s, p3) {
        Some(v) => v,
        None => {
            return None;
        },
    };
    let p5 = match expect_lit(s, p4, ",\"name\":") {
        Some(p) => p,
        None => {
            return None;
        },
    };
    let (name, p6) = match parse_quoted_exec(s, p5) {
        Some(v) => v,
        None => {
            return None;
        },
    };
    let p7 = match expect_lit(s, p6, "}") {
        Some(p) => p,
        None => {
            return None;
        },
    };
    Some((Song { artist, name, location }, p7))
}

/// Reads the rest of a song list after its first song.
fn parse_tail_exec(s: &str, pos: usize) -> (r: Option<(Vec<Song>, usize)>)
    requires
        pos <= s@.len(),
    ensures
        match r {
            Some(v) => pos < v.1 <= s@.len() && parse_songs_tail(s@.skip(pos as int)) == Some(
                (song_views(v.0@), s@.skip(v.1 as int)),
            ),
            None => parse_songs_tail(s@.skip(pos as int)) is None,
        },
    decreases s@.len() - pos,
{
    let n = s.unicode_len();
    if pos == n {
        return None;
    }
    let c = s.get_char(pos);
    let ghost t = s@.skip(pos as int);
    if c == ']' {
        let out: Vec<Song> = Vec::new();
        proof {
            assert(t[0] == ']');
            assert(t.drop_first() =~= s@.skip(pos + 1));
            assert(song_views(out@) =~= Seq::<SongV>::empty());
        }
        return Some((out, pos + 1));
    }
    if c != ',' {
        return None;
    }
    let (song, p2) = match parse_song_exec(s, pos + 1) {
        Some(v) => v,
        None => {
            proof {
                assert(t[0] == ',');
                assert(t.drop_first() =~= s@.skip(pos + 1));
            }
            return None;
        },
    };
    proof {
        assert(t[0] == ',');
        assert(t.drop_first() =~= s@.skip(pos + 1));
        assert(s@.skip(p2 as int).len() < t.len());
    }
    let (mut songs, p3) = match parse_tail_exec(s, p2) {
        Some(v) => v,
        None => {
            return None;
        },
    };
    let ghost rest_views = song_views(songs@);
    songs.insert(0, song);
    proof {
        assert(song_views(songs@) =~= seq![song@] + rest_views);
    }
    Some((songs, p3))
}

/// Reads a whole document back into a catalog. The text must be exactly what
/// [`to_json`] writes for some catalog; anything else is refused.
pub fn from_json(s: &str) -> (r: Option<Library>)
    ensures
        match r {
            Some(l) => parse_lib(s@) == Some(l@),
            None => parse_lib(s@) is None,
        },
{
    let n = s.unicode_len();
    proof {
        reveal_strlit("{\"songs\":");
        assert("{\"songs\":"@ =~= lit_songs_key());
        assert(s@.skip(0) =~= s@);
    }
    let p1 = match expect_lit(s, 0, "{\"songs\":") {
        Some(p) => p,
        None => {
            return None;
        },
    };
    let ghost t1 = s@.skip(p1 as int);
    if p1 == n {
        return None;
    }
    if s.get_char(p1) != '[' {
        return None;
    }
    let songs: Vec<Song>;
    let p: usize;
    if p1 + 1 < n && s.get_char(p1 + 1) == ']' {
        songs = Vec::new();
        p = p1 + 2;
        proof {
            assert(t1[0] == '[');
            assert(t1[1] == ']');
            assert(t1.skip(2) =~= s@.skip(p as int));
            assert(song_views(songs@) =~= Seq::<SongV>::empty());
        }
    } else {
        proof {
            assert(t1[0] == '[');
            assert(t1.drop_first() =~= s@.skip(p1 + 1));
        }
        let (song, p2) = match parse_song_exec(s, p1 + 1) {
            Some(v) => v,
            None => {
                return None;
            },
        };
        proof {
            assert(s@.skip(p2 as int).len() < t1.len());
        }
        let (mut rest, p3) = match parse_tail_exec(s, p2) {
            Some(v) => v,
            None => {
                return None;
            },
        };
        let ghost rest_views = song_views(rest@);
        rest.insert(0, song);
        songs = rest;
        p = p3;
        proof {
            assert(song_views(songs@) =~= seq![song@] + rest_views);
        }
    }
    if p == n {
        return None;
    }
    if s.get_char(p) != '}' {
        proof {
            assert(s@.skip(p as int)[0] == s@[p as int]);
            assert(s@.skip(p as int) != seq!['}']);
        }
        return None;
    }
    if p + 1 != n {
        proof {
            assert(s@.skip(p as int).len() != 1);
            assert(s@.skip(p as int) != seq!['}']);
        }
        return None;
    }
    proof {
        assert(s@.skip(p as int) =~= seq!['}']);
    }
    let l = Library { songs };
    Some(l)
}

/// The catalog a session starts from: the stored document where one is there
/// and reads back, and the empty catalog otherwise.
pub fn load_or_new(data: Option<&str>) -> (l: Library)
    ensures
        match data {
            Some(d) => (match parse_lib(d@) {
                Some(vs) => l@ == vs,
                None => l@ == Seq::<SongV>::empty(),
            }),
            None => l@ == Seq::<SongV>::empty(),
        },
{
    match data {
        Some(d) => match from_json(d) {
            Some(l) => l,
            None => Library::new(),
        },
        None => Library::new(),
    }
}

} // verus!
