//! The decisions of serving a file from the output root over HTTP: which
//! file a path names, how a missing file is answered, the entity tag of a
//! file and whether a request's `If-None-Match` matches it.
use vstd::prelude::*;
use crate::paths::{equals_lit, is_static_exclusion_path, is_static_exclusion};
use crate::text::{chars_of, push_char, push_str};

verus! {

/// The file that a decoded request path serves: `index.html` for the root.
pub open spec fn served_path_of(path: Seq<char>) -> Seq<char> {
    if path.len() == 0 {
        "index.html"@
    } else {
        path
    }
}

pub fn served_path(path: &str) -> (p: String)
    ensures
        p@ == served_path_of(path@),
{
    let chars = chars_of(path);
    if chars.len() == 0 {
        String::from_str("index.html")
    } else {
        String::from_str(path)
    }
}

/// The status of a request for a file that does not exist: a missing tile
/// image is an empty success, so the map shows nothing there; anything else
/// is not found.
pub fn missing_status(tile: bool, png: bool) -> (status: u16)
    ensures
        status == (if tile && png { 200u16 } else { 404u16 }),
{
    if tile && png {
        200
    } else {
        404
    }
}

/// The status of a file that could not be opened: not found, or forbidden
/// for any other failure.
pub fn open_failure_status(not_found: bool) -> (status: u16)
    ensures
        status == (if not_found { 404u16 } else { 403u16 }),
{
    if not_found {
        404
    } else {
        403
    }
}

/// The cache directive of a response: tiles must be revalidated.
pub fn cache_control(tile: bool) -> (d: Option<&'static str>)
    ensures
        tile ==> (d matches Some(s) && s@ == "max-age=0, must-revalidate, no-cache"@),
        !tile ==> d is None,
{
    if tile {
        Some("max-age=0, must-revalidate, no-cache")
    } else {
        None
    }
}

/// Whether a request goes to the development frontend: one runs, and the
/// path is not one the output root always serves.
pub fn proxies_to_frontend(frontend_running: bool, path: &str) -> (b: bool)
    ensures
        b == (frontend_running && !is_static_exclusion_path(path@)),
{
    frontend_running && !is_static_exclusion(path)
}

/// The lower-case hexadecimal digit of `d`.
pub open spec fn hex_digit(d: nat) -> char {
    if d < 10 {
        ((d + 48) as u8) as char
    } else {
        ((d - 10 + 97) as u8) as char
    }
}

/// The lower-case hexadecimal text of `n`, without leading zeros.
pub open spec fn hex_text(n: nat) -> Seq<char>
    decreases n,
{
    if n < 16 {
        seq![hex_digit(n)]
    } else {
        hex_text(n / 16) + seq![hex_digit(n % 16)]
    }
}

fn push_hex(s: &mut String, n: u128)
    ensures
        final(s)@ == old(s)@ + hex_text(n as nat),
    decreases n,
{
    let ghost start = s@;
    if n >= 16 {
        push_hex(s, n / 16);
    }
    let d = (n % 16) as u8;
    let c = if d < 10 { (48u8 + d) as char } else { (97u8 + d - 10) as char };
    push_char(s, c);
    proof {
        assert(s@ =~= start + hex_text(n as nat));
    }
}

/// The entity tag of a file: its modification time in nanoseconds and its
/// length, in hexadecimal, joined by `-` and quoted.
pub open spec fn etag_of(nanos: u128, len: u64) -> Seq<char> {
    seq!['"'] + hex_text(nanos as nat) + seq!['-'] + hex_text(len as nat) + seq!['"']
}

pub fn etag_text(nanos: u128, len: u64) -> (t: String)
    ensures
        t@ == etag_of(nanos, len),
{
    let mut t = String::new();
    push_char(&mut t, '"');
    push_hex(&mut t, nanos);
    push_char(&mut t, '-');
    push_hex(&mut t, len as u128);
    push_char(&mut t, '"');
    proof {
        assert(t@ =~= etag_of(nanos, len));
    }
    t
}

/// The characters that `str::trim` removes: those with the Unicode
/// `White_Space` property.
pub open spec fn is_white_space(c: char) -> bool {
    ||| ('\u{9}' <= c <= '\u{d}')
    ||| c == ' '
    ||| c == '\u{85}'
    ||| c == '\u{a0}'
    ||| c == '\u{1680}'
    ||| ('\u{2000}' <= c <= '\u{200a}')
    ||| c == '\u{2028}'
    ||| c == '\u{2029}'
    ||| c == '\u{202f}'
    ||| c == '\u{205f}'
    ||| c == '\u{3000}'
}

pub(crate) fn white_space(c: char) -> (b: bool)
    ensures
        b == is_white_space(c),
{
    ('\u{9}' <= c && c <= '\u{d}') || c == ' ' || c == '\u{85}' || c == '\u{a0}' || c == '\u{1680}' || ('\u{2000}'
        <= c && c <= '\u{200a}') || c == '\u{2028}' || c == '\u{2029}' || c == '\u{202f}' || c == '\u{205f}' || c
        == '\u{3000}'
}

/// `s` without white space at either end.
pub open spec fn trimmed(s: Seq<char>) -> Seq<char>
    decreases s.len(),
{
    if s.len() > 0 && is_white_space(s[0]) {
        trimmed(s.subrange(1, s.len() as int))
    } else if s.len() > 0 && is_white_space(s.last()) {
        trimmed(s.drop_last())
    } else {
        s
    }
}

/// The pieces of `s` between its commas.
pub open spec fn comma_pieces(s: Seq<char>) -> Seq<Seq<char>>
    decreases s.len(),
{
    if s.len() == 0 {
        seq![Seq::empty()]
    } else {
        let p = comma_pieces(s.drop_last());
        if s.last() == ',' {
            p.push(Seq::empty())
        } else {
            p.update(p.len() - 1, p.last().push(s.last()))
        }
    }
}

proof fn lemma_comma_pieces_len(s: Seq<char>)
    ensures
        comma_pieces(s).len() >= 1,
    decreases s.len(),
{
    if s.len() > 0 {
        lemma_comma_pieces_len(s.drop_last());
    }
}

/// Whether an `If-None-Match` value matches the entity tag `etag`: it is
/// `*`, or one of its comma-separated tags, trimmed, is `etag` or its weak
/// form `W/` followed by `etag`.
pub open spec fn if_none_match_hits(header: Seq<char>, etag: Seq<char>) -> bool {
    trimmed(header) == "*"@ || exists|i: int|
        0 <= i < comma_pieces(header).len() && (trimmed(#[trigger] comma_pieces(header)[i]) == etag || trimmed(
            comma_pieces(header)[i],
        ) == "W/"@ + etag)
}

fn trim_chars(v: &Vec<char>) -> (r: Vec<char>)
    ensures
        r@ == trimmed(v@),
{
    let mut start: usize = 0;
    let mut end: usize = v.len();
    assert(v@.subrange(0, end as int) =~= v@);
    while start < end && white_space(v[start])
        invariant
            start <= end <= v@.len(),
            end == v@.len(),
            trimmed(v@) == trimmed(v@.subrange(start as int, end as int)),
        decreases end - start,
    {
        proof {
            let t = v@.subrange(start as int, end as int);
            assert(t.subrange(1, t.len() as int) =~= v@.subrange(start + 1, end as int));
        }
        start = start + 1;
    }
    while start < end && white_space(v[end - 1])
        invariant
            start <= end <= v@.len(),
            start < end ==> !is_white_space(v@[start as int]),
            trimmed(v@) == trimmed(v@.subrange(start as int, end as int)),
        decreases end - start,
    {
        proof {
            let t = v@.subrange(start as int, end as int);
            assert(t.drop_last() =~= v@.subrange(start as int, end - 1));
            if end - 1 > start {
                assert(t[0] == v@[start as int]);
            }
        }
        end = end - 1;
    }
    let mut r: Vec<char> = Vec::new();
    let mut i: usize = start;
    while i < end
        invariant
            start <= i <= end,
            end <= v@.len(),
            r@ == v@.subrange(start as int, i as int),
        decreases end - i,
    {
        r.push(v[i]);
        i = i + 1;
        assert(r@ =~= v@.subrange(start as int, i as int));
    }
    proof {
        let t = v@.subrange(start as int, end as int);
        if t.len() > 0 {
            assert(t[0] == v@[start as int]);
            assert(t.last() == v@[end - 1]);
        }
    }
    r
}

fn split_commas(chars: &Vec<char>) -> (pieces: Vec<Vec<char>>)
    ensures
        pieces@.len() == comma_pieces(chars@).len(),
        forall|j: int| 0 <= j < pieces@.len() ==> #[trigger] pieces@[j]@ == comma_pieces(chars@)[j],
{
    let mut pieces: Vec<Vec<char>> = Vec::new();
    let mut current: Vec<char> = Vec::new();
    let mut i: usize = 0;
    while i < chars.len()
        invariant
            i <= chars@.len(),
            pieces@.len() + 1 == comma_pieces(chars@.subrange(0, i as int)).len(),
            forall|j: int| 0 <= j < pieces@.len() ==> #[trigger] pieces@[j]@ == comma_pieces(chars@.subrange(0, i as int))[j],
            current@ == comma_pieces(chars@.subrange(0, i as int)).last(),
        decreases chars@.len() - i,
    {
        let ghost before = chars@.subrange(0, i as int);
        proof {
            assert(chars@.subrange(0, i + 1).drop_last() =~= before);
            lemma_comma_pieces_len(before);
        }
        let c = chars[i];
        if c == ',' {
            pieces.push(current);
            current = Vec::new();
        } else {
            current.push(c);
        }
        i = i + 1;
    }
    proof {
        assert(chars@.subrange(0, chars@.len() as int) =~= chars@);
        lemma_comma_pieces_len(chars@);
    }
    pieces.push(current);
    pieces
}

fn same_chars(a: &Vec<char>, b: &Vec<char>) -> (r: bool)
    ensures
        r == (a@ == b@),
{
    if a.len() != b.len() {
        return false;
    }
    let mut i: usize = 0;
    while i < a.len()
        invariant
            i <= a@.len(),
            a@.len() == b@.len(),
            forall|j: int| 0 <= j < i ==> a@[j] == b@[j],
        decreases a@.len() - i,
    {
        if a[i] != b[i] {
            return false;
        }
        i = i + 1;
    }
    assert(a@ =~= b@);
    true
}

/// Whether a request's `If-None-Match` value matches a file's entity tag.
pub fn etag_matches(header: &str, etag: &str) -> (b: bool)
    ensures
        b == if_none_match_hits(header@, etag@),
{
    let chars = chars_of(header);
    let whole = trim_chars(&chars);
    if equals_lit(&whole, "*") {
        return true;
    }
    let tag = chars_of(etag);
    let mut weak = chars_of("W/");
    let mut k: usize = 0;
    while k < tag.len()
        invariant
            k <= tag@.len(),
            weak@ == "W/"@ + tag@.subrange(0, k as int),
        decreases tag@.len() - k,
    {
        weak.push(tag[k]);
        k = k + 1;
        assert(weak@ =~= "W/"@ + tag@.subrange(0, k as int));
    }
    assert(tag@.subrange(0, tag@.len() as int) =~= tag@);
    let pieces = split_commas(&chars);
    let mut i: usize = 0;
    while i < pieces.len()
        invariant
            i <= pieces@.len(),
            pieces@.len() == comma_pieces(header@).len(),
            forall|j: int| 0 <= j < pieces@.len() ==> #[trigger] pieces@[j]@ == comma_pieces(header@)[j],
            tag@ == etag@,
            weak@ == "W/"@ + etag@,
            trimmed(header@) != "*"@,
            forall|j: int|
                0 <= j < i ==> !(trimmed(#[trigger] comma_pieces(header@)[j]) == etag@ || trimmed(
                    comma_pieces(header@)[j],
                ) == "W/"@ + etag@),
        decreases pieces@.len() - i,
    {
        let candidate = trim_chars(&pieces[i]);
        if same_chars(&candidate, &tag) || same_chars(&candidate, &weak) {
            proof {
                assert(pieces@[i as int]@ == comma_pieces(header@)[i as int]);
            }
            return true;
        }
        i = i + 1;
    }
    false
}

} // verus!
