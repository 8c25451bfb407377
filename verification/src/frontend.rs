//! Decisions of the development frontend proxy: which URL a console line of
//! the frontend's dev server announces, and how a websocket upgrade is
//! forwarded to it.
use vstd::prelude::*;
use crate::console::{strip_ansi, strip_ansi_spec};
use crate::paths::{equals_lit, is_hop_by_hop, is_hop_by_hop_name, push_chars, same_text};
use crate::text::{decimal, push_decimal, push_str};
use crate::serve::{is_white_space, white_space};
use crate::text::{chars_of, push_char};

verus! {

#[verifier::external_type_specification]
#[verifier::external_body]
pub struct ExPathBuf(std::path::PathBuf);

/// `Duration::clone`: a duration is `Copy`, so its clone is the same duration.
pub assume_specification [<std::time::Duration as Clone>::clone](value: &std::time::Duration) -> (r: std::time::Duration)
    ensures
        r == *value,
;

/// `PathBuf::clone`: a new buffer with the same path. Nothing is claimed of it,
/// since Verus sees no field of a `PathBuf`.
pub assume_specification [<std::path::PathBuf as Clone>::clone](value: &std::path::PathBuf) -> std::path::PathBuf;

/// Where the development frontend lives, which program serves it, and how long
/// its dev server may take to announce a URL.
#[derive(Clone, Debug)]
pub struct DevFrontendConfig {
    pub frontend_dir: std::path::PathBuf,
    pub executable: std::path::PathBuf,
    pub startup_timeout: std::time::Duration,
}

/// The whitespace-separated words of `s` after the word `cur` in progress.
pub open spec fn words_from(s: Seq<char>, cur: Seq<char>) -> Seq<Seq<char>>
    decreases s.len(),
{
    if s.len() == 0 {
        if cur.len() == 0 {
            Seq::empty()
        } else {
            seq![cur]
        }
    } else if is_white_space(s[0]) {
        if cur.len() == 0 {
            words_from(s.drop_first(), Seq::empty())
        } else {
            seq![cur] + words_from(s.drop_first(), Seq::empty())
        }
    } else {
        words_from(s.drop_first(), cur.push(s[0]))
    }
}

/// The maximal runs of characters that are not whitespace, in order.
pub open spec fn words(s: Seq<char>) -> Seq<Seq<char>> {
    words_from(s, Seq::empty())
}

/// The contents of a list of character vectors.
pub open spec fn word_views(v: Seq<Vec<char>>) -> Seq<Seq<char>> {
    v.map_values(|w: Vec<char>| w@)
}

/// Splits `chars` at whitespace, dropping empty words.
pub fn split_words(chars: &Vec<char>) -> (r: Vec<Vec<char>>)
    ensures
        word_views(r@) == words(chars@),
{
    let n = chars.len();
    let mut out: Vec<Vec<char>> = Vec::new();
    let mut cur: Vec<char> = Vec::new();
    let mut i: usize = 0;
    proof {
        assert(chars@.subrange(0, n as int) =~= chars@);
        assert(word_views(out@) + words(chars@) =~= words(chars@));
    }
    while i < n
        invariant
            n == chars@.len(),
            i <= n,
            word_views(out@) + words_from(chars@.subrange(i as int, n as int), cur@) == words(chars@),
        decreases n - i,
    {
        let c = chars[i];
        let ghost rest = chars@.subrange(i as int, n as int);
        let ghost next = chars@.subrange(i + 1, n as int);
        let ghost before = word_views(out@);
        let ghost word = cur@;
        proof {
            assert(rest.drop_first() =~= next);
            assert(rest[0] == c);
            assert(words_from(rest, word) == if is_white_space(c) {
                if word.len() == 0 {
                    words_from(next, Seq::empty())
                } else {
                    seq![word] + words_from(next, Seq::empty())
                }
            } else {
                words_from(next, word.push(c))
            });
        }
        if white_space(c) {
            if cur.len() == 0 {
                proof {
                    assert(word =~= Seq::<char>::empty());
                }
            } else {
                out.push(cur);
                cur = Vec::new();
                proof {
                    assert(word_views(out@) =~= before.push(word));
                    assert(before.push(word) + words_from(next, Seq::empty()) =~= before + (seq![word] + words_from(
                        next,
                        Seq::empty(),
                    )));
                }
            }
        } else {
            cur.push(c);
        }
        proof {
            assert(word_views(out@) + words_from(next, cur@) == words(chars@));
        }
        i = i + 1;
    }
    proof {
        assert(chars@.subrange(n as int, n as int) =~= Seq::<char>::empty());
    }
    if cur.len() > 0 {
        let ghost before = word_views(out@);
        let ghost word = cur@;
        out.push(cur);
        proof {
            assert(word_views(out@) =~= before.push(word));
            assert(before.push(word) =~= before + seq![word]);
        }
    } else {
        proof {
            assert(word_views(out@) + Seq::<Seq<char>>::empty() =~= word_views(out@));
        }
    }
    out
}

/// The punctuation that may wrap a URL in a console line.
pub open spec fn is_wrapper(c: char) -> bool {
    c == ',' || c == ';' || c == '(' || c == ')' || c == '[' || c == ']' || c == '{' || c == '}'
}

fn wrapper(c: char) -> (b: bool)
    ensures
        b == is_wrapper(c),
{
    c == ',' || c == ';' || c == '(' || c == ')' || c == '[' || c == ']' || c == '{' || c == '}'
}

/// `s` without its leading wrapping punctuation.
pub open spec fn trim_front_wrappers(s: Seq<char>) -> Seq<char>
    decreases s.len(),
{
    if s.len() > 0 && is_wrapper(s[0]) {
        trim_front_wrappers(s.drop_first())
    } else {
        s
    }
}

/// `s` without its trailing wrapping punctuation.
pub open spec fn trim_back_wrappers(s: Seq<char>) -> Seq<char>
    decreases s.len(),
{
    if s.len() > 0 && is_wrapper(s.last()) {
        trim_back_wrappers(s.drop_last())
    } else {
        s
    }
}

/// `s` without its trailing slashes.
pub open spec fn trim_back_slashes(s: Seq<char>) -> Seq<char>
    decreases s.len(),
{
    if s.len() > 0 && s.last() == '/' {
        trim_back_slashes(s.drop_last())
    } else {
        s
    }
}

/// The URL a console word may be: the word without wrapping punctuation on
/// either side, then without trailing slashes.
pub open spec fn url_candidate(word: Seq<char>) -> Seq<char> {
    trim_back_slashes(trim_back_wrappers(trim_front_wrappers(word)))
}

/// Cuts a word down to the URL it may be.
pub fn candidate_of(word: &Vec<char>) -> (r: Vec<char>)
    ensures
        r@ == url_candidate(word@),
{
    let n = word.len();
    let mut start: usize = 0;
    proof {
        assert(word@.subrange(0, n as int) =~= word@);
    }
    while start < n && wrapper(word[start])
        invariant
            n == word@.len(),
            start <= n,
            trim_front_wrappers(word@) == trim_front_wrappers(word@.subrange(start as int, n as int)),
        decreases n - start,
    {
        proof {
            assert(word@.subrange(start as int, n as int).drop_first() =~= word@.subrange(start + 1, n as int));
        }
        start = start + 1;
    }
    let ghost front = word@.subrange(start as int, n as int);
    assert(trim_front_wrappers(word@) == front) by {
        if start < n {
            assert(front[0] == word@[start as int]);
        }
    }
    let mut end: usize = n;
    while end > start && wrapper(word[end - 1])
        invariant
            n == word@.len(),
            start <= end <= n,
            front == word@.subrange(start as int, n as int),
            trim_back_wrappers(front) == trim_back_wrappers(word@.subrange(start as int, end as int)),
        decreases end - start,
    {
        proof {
            assert(word@.subrange(start as int, end as int).drop_last() =~= word@.subrange(start as int, end - 1));
        }
        end = end - 1;
    }
    proof {
        assert(word@.subrange(start as int, n as int) =~= front);
    }
    let ghost inner = word@.subrange(start as int, end as int);
    assert(trim_back_wrappers(front) == inner) by {
        if end > start {
            assert(inner.last() == word@[end - 1]);
        }
    }
    let mut last: usize = end;
    while last > start && word[last - 1] == '/'
        invariant
            n == word@.len(),
            start <= last <= end <= n,
            inner == word@.subrange(start as int, end as int),
            trim_back_slashes(inner) == trim_back_slashes(word@.subrange(start as int, last as int)),
        decreases last - start,
    {
        proof {
            assert(word@.subrange(start as int, last as int).drop_last() =~= word@.subrange(start as int, last - 1));
        }
        last = last - 1;
    }
    proof {
        assert(word@.subrange(start as int, end as int) =~= inner);
    }
    let ghost kept = word@.subrange(start as int, last as int);
    assert(trim_back_slashes(inner) == kept) by {
        if last > start {
            assert(kept.last() == word@[last - 1]);
        }
    }
    let mut r: Vec<char> = Vec::new();
    let mut i: usize = start;
    while i < last
        invariant
            start <= i <= last <= n,
            n == word@.len(),
            r@ == word@.subrange(start as int, i as int),
        decreases last - i,
    {
        r.push(word[i]);
        i = i + 1;
        proof {
            assert(r@ =~= word@.subrange(start as int, i as int));
        }
    }
    r
}

/// What a URL parser makes of `text`: its scheme, its explicit port (none
/// where it is the scheme's default) and its host text, or nothing where the
/// text is not a URL.
pub uninterp spec fn parsed_url(text: Seq<char>) -> Option<(Seq<char>, Option<u16>, Option<Seq<char>>)>;

/// The content of parsed URL parts.
pub open spec fn parts_view(p: Option<(String, Option<u16>, Option<String>)>) -> Option<
    (Seq<char>, Option<u16>, Option<Seq<char>>),
> {
    match p {
        Some((scheme, port, host)) => Some(
            (
                scheme@,
                port,
                match host {
                    Some(h) => Some(h@),
                    None => None,
                },
            ),
        ),
        None => None,
    }
}

/// `reqwest::Url::parse` (the `url` crate's parser), read down to the scheme,
/// the explicit port and the host text.
///
/// Claims only that the result is the parse named `parsed_url` of the text;
/// which texts the parser accepts and how it normalises them is left to that
/// name.
#[verifier::external_body]
fn parse_url(text: &str) -> (r: Option<(String, Option<u16>, Option<String>)>)
    ensures
        parts_view(r) == parsed_url(text@),
{
    match reqwest::Url::parse(text) {
        Ok(url) => {
            let host = match url.host_str() {
                Some(host) => Some(host.to_string()),
                None => None,
            };
            Some((url.scheme().to_string(), url.port(), host))
        },
        Err(_) => None,
    }
}

/// The host of a URL that announces a listener: an HTTP or HTTPS scheme, an
/// explicit port and a host.
pub open spec fn announced_host(parts: Option<(Seq<char>, Option<u16>, Option<Seq<char>>)>) -> Option<Seq<char>> {
    match parts {
        Some((scheme, port, host)) => if (scheme == "http"@ || scheme == "https"@) && port is Some {
            host
        } else {
            None
        },
        None => None,
    }
}

/// The host that parsed URL parts announce a listener on, if any.
pub fn announced_host_of(parts: &Option<(String, Option<u16>, Option<String>)>) -> (r: Option<String>)
    ensures
        match r {
            Some(h) => announced_host(parts_view(*parts)) == Some(h@),
            None => announced_host(parts_view(*parts)) is None,
        },
{
    match parts {
        Some((scheme, port, host)) => {
            let web = same_text(scheme.as_str(), "http") || same_text(scheme.as_str(), "https");
            if web && port.is_some() {
                match host {
                    Some(h) => Some(h.clone()),
                    None => None,
                }
            } else {
                None
            }
        },
        None => None,
    }
}

/// The URLs, with their hosts, that the words `ws` announce, in order.
pub open spec fn announcements(ws: Seq<Seq<char>>) -> Seq<(Seq<char>, Seq<char>)>
    decreases ws.len(),
{
    if ws.len() == 0 {
        Seq::empty()
    } else {
        let rest = announcements(ws.drop_last());
        let c = url_candidate(ws.last());
        match announced_host(parsed_url(c)) {
            Some(h) => rest.push((c, h)),
            None => rest,
        }
    }
}

/// The content of a list of text pairs.
pub open spec fn pair_views(v: Seq<(String, String)>) -> Seq<(Seq<char>, Seq<char>)> {
    v.map_values(|p: (String, String)| (p.0@, p.1@))
}

/// The URLs a console line of the dev server announces, each with its host,
/// in order: its words with terminal escapes removed, cut down to URLs, that
/// parse with an HTTP or HTTPS scheme, an explicit port and a host.
pub fn announced_urls(line: &str) -> (r: Vec<(String, String)>)
    ensures
        pair_views(r@) == announcements(words(strip_ansi_spec(line@))),
{
    let clean = strip_ansi(line);
    let chars = chars_of(clean.as_str());
    let ws = split_words(&chars);
    let ghost all = word_views(ws@);
    let mut out: Vec<(String, String)> = Vec::new();
    let mut i: usize = 0;
    while i < ws.len()
        invariant
            i <= ws@.len(),
            all == word_views(ws@),
            pair_views(out@) == announcements(all.subrange(0, i as int)),
        decreases ws@.len() - i,
    {
        let c = candidate_of(&ws[i]);
        let mut text = String::new();
        push_chars(&mut text, &c);
        let parts = parse_url(text.as_str());
        let ghost before = pair_views(out@);
        proof {
            assert(all.subrange(0, i + 1).drop_last() =~= all.subrange(0, i as int));
            assert(all.subrange(0, i + 1).last() == ws@[i as int]@);
            assert(text@ == url_candidate(ws@[i as int]@));
        }
        match announced_host_of(&parts) {
            Some(h) => {
                let ghost pair = (text@, h@);
                out.push((text, h));
                proof {
                    assert(pair_views(out@) =~= before.push(pair));
                }
            },
            None => {},
        }
        i = i + 1;
    }
    proof {
        assert(all.subrange(0, ws@.len() as int) =~= all);
    }
    out
}

/// `s` with every occurrence of `from`, scanned left to right without
/// overlap, replaced by `to`.
pub open spec fn replace_all(s: Seq<char>, from: Seq<char>, to: Seq<char>) -> Seq<char>
    decreases s.len(),
{
    if from.len() == 0 || s.len() < from.len() {
        s
    } else if s.subrange(0, from.len() as int) == from {
        to + replace_all(s.subrange(from.len() as int, s.len() as int), from, to)
    } else {
        seq![s[0]] + replace_all(s.drop_first(), from, to)
    }
}

/// Whether `v` holds `lit` from position `at`.
fn matches_at(v: &Vec<char>, at: usize, lit: &Vec<char>) -> (b: bool)
    requires
        at <= v@.len(),
    ensures
        b == (at + lit@.len() <= v@.len() && v@.subrange(at as int, at + lit@.len()) == lit@),
{
    let n = v.len();
    if lit.len() > n - at {
        return false;
    }
    let mut j: usize = 0;
    while j < lit.len()
        invariant
            n == v@.len(),
            at + lit@.len() <= n,
            j <= lit@.len(),
            forall|k: int| 0 <= k < j ==> v@[at + k] == lit@[k],
        decreases lit@.len() - j,
    {
        assert(at + j < v@.len());
        if v[at + j] != lit[j] {
            assert(v@.subrange(at as int, at + lit@.len())[j as int] != lit@[j as int]);
            return false;
        }
        j = j + 1;
    }
    assert(v@.subrange(at as int, at + lit@.len()) =~= lit@);
    true
}

/// Replaces every occurrence of `from` in `text` by `to`.
fn replace_text(text: &str, from: &str, to: &str) -> (r: String)
    requires
        from@.len() > 0,
    ensures
        r@ == replace_all(text@, from@, to@),
{
    let v = chars_of(text);
    let pattern = chars_of(from);
    let n = v.len();
    let mut out = String::new();
    let mut i: usize = 0;
    proof {
        assert(v@.subrange(0, n as int) =~= v@);
    }
    while i < n
        invariant
            n == v@.len(),
            i <= n,
            pattern@ == from@,
            pattern@.len() > 0,
            out@ + replace_all(v@.subrange(i as int, n as int), from@, to@) == replace_all(v@, from@, to@),
        decreases n - i,
    {
        let ghost rest = v@.subrange(i as int, n as int);
        let ghost before = out@;
        if matches_at(&v, i, &pattern) {
            let ghost k = pattern@.len();
            proof {
                assert(rest.subrange(0, k as int) =~= v@.subrange(i as int, i + k));
                assert(rest.subrange(k as int, rest.len() as int) =~= v@.subrange(i + k, n as int));
            }
            push_str(&mut out, to);
            i = i + pattern.len();
            proof {
                assert(before + (to@ + replace_all(v@.subrange(i as int, n as int), from@, to@)) =~= out@
                    + replace_all(v@.subrange(i as int, n as int), from@, to@));
            }
        } else {
            let c = v[i];
            proof {
                if rest.len() >= pattern@.len() {
                    assert(rest.subrange(0, pattern@.len() as int) =~= v@.subrange(i as int, i + pattern@.len()));
                }
                assert(rest.drop_first() =~= v@.subrange(i + 1, n as int));
            }
            push_char(&mut out, c);
            i = i + 1;
            proof {
                assert(before + (seq![c] + replace_all(v@.subrange(i as int, n as int), from@, to@)) =~= out@
                    + replace_all(v@.subrange(i as int, n as int), from@, to@));
            }
        }
    }
    proof {
        assert(out@ + replace_all(v@.subrange(n as int, n as int), from@, to@) =~= out@);
    }
    out
}

/// The websocket address of the dev server at `upstream`: its `http://` and
/// then its `https://` replaced by `ws://` and `wss://`.
pub open spec fn websocket_base(upstream: Seq<char>) -> Seq<char> {
    replace_all(replace_all(upstream, "http://"@, "ws://"@), "https://"@, "wss://"@)
}

/// The websocket address of the dev server at `upstream`.
pub fn websocket_upstream(upstream: &str) -> (r: String)
    ensures
        r@ == websocket_base(upstream@),
{
    proof {
        reveal_strlit("http://");
        reveal_strlit("https://");
    }
    let first = replace_text(upstream, "http://", "ws://");
    replace_text(first.as_str(), "https://", "wss://")
}

/// The `Host` header that reaches the dev server for `target`: the URL's host
/// and, where it names one, its port.
pub open spec fn websocket_host_of(parts: Option<(Seq<char>, Option<u16>, Option<Seq<char>>)>) -> Option<Seq<char>> {
    match parts {
        Some((_, port, Some(host))) => Some(
            match port {
                Some(p) => host + ":"@ + decimal(p as nat),
                None => host,
            },
        ),
        _ => None,
    }
}

/// The `Host` header for a websocket `target`, or nothing where the target
/// does not parse as a URL with a host.
pub fn websocket_host(target: &str) -> (r: Option<String>)
    ensures
        match r {
            Some(h) => websocket_host_of(parsed_url(target@)) == Some(h@),
            None => websocket_host_of(parsed_url(target@)) is None,
        },
{
    match parse_url(target) {
        Some((_, port, Some(host))) => {
            let mut h = host;
            match port {
                Some(p) => {
                    push_str(&mut h, ":");
                    push_decimal(&mut h, p as u64);
                },
                None => {},
            }
            Some(h)
        },
        _ => None,
    }
}

/// The request headers the websocket handshake itself sets.
pub open spec fn is_handshake_header(name: Seq<char>) -> bool {
    name == "sec-websocket-key"@ || name == "sec-websocket-version"@ || name == "connection"@ || name == "upgrade"@
        || name == "host"@
}

/// Whether a client's header is passed on to the dev server's websocket:
/// neither set by the handshake nor hop-by-hop.
pub fn forwards_websocket_header(name: &str) -> (b: bool)
    ensures
        b == (!is_handshake_header(name@) && !is_hop_by_hop_name(name@)),
{
    let chars = chars_of(name);
    let handshake = equals_lit(&chars, "sec-websocket-key") || equals_lit(&chars, "sec-websocket-version")
        || equals_lit(&chars, "connection") || equals_lit(&chars, "upgrade") || equals_lit(&chars, "host");
    !handshake && !is_hop_by_hop(name)
}

/// An ASCII letter in lower case; any other character as it is.
pub open spec fn ascii_lower(c: char) -> char {
    if 'A' <= c <= 'Z' {
        ((c as u32) + 32) as char
    } else {
        c
    }
}

/// Whether two texts are equal up to the case of ASCII letters.
pub open spec fn equal_ignoring_ascii_case(a: Seq<char>, b: Seq<char>) -> bool {
    a.len() == b.len() && forall|i: int| 0 <= i < a.len() ==> ascii_lower(#[trigger] a[i]) == ascii_lower(b[i])
}

fn lower(c: char) -> (r: char)
    ensures
        r == ascii_lower(c),
{
    if 'A' <= c && c <= 'Z' {
        let code = c as u32 + 32;
        assert(code <= 0x7a);
        char_from_ascii(code)
    } else {
        c
    }
}

fn char_from_ascii(code: u32) -> (c: char)
    requires
        code < 128,
    ensures
        c == code as char,
{
    (code as u8) as char
}

/// Whether an `Upgrade` header asks for a websocket, in any ASCII case.
pub fn is_websocket_upgrade(value: Option<&str>) -> (r: bool)
    ensures
        r == (value matches Some(v) && equal_ignoring_ascii_case(v@, "websocket"@)),
{
    match value {
        None => false,
        Some(v) => {
            let given = chars_of(v);
            let wanted = chars_of("websocket");
            if given.len() != wanted.len() {
                return false;
            }
            let mut i: usize = 0;
            while i < given.len()
                invariant
                    value == Some(v),
                    given@ == v@,
                    wanted@ == "websocket"@,
                    given@.len() == wanted@.len(),
                    i <= given@.len(),
                    forall|k: int| 0 <= k < i ==> ascii_lower(#[trigger] given@[k]) == ascii_lower(wanted@[k]),
                decreases given@.len() - i,
            {
                if lower(given[i]) != lower(wanted[i]) {
                    proof {
                        assert(ascii_lower(v@[i as int]) != ascii_lower("websocket"@[i as int]));
                        assert(!equal_ignoring_ascii_case(v@, "websocket"@));
                    }
                    return false;
                }
                i = i + 1;
            }
            true
        },
    }
}

} // verus!
