//! Request paths and output-relative paths: percent decoding, the rules that
//! keep a path inside the output root, and what a path says about the file it
//! names. Paths follow the Unix reading of `std::path::Path`: components are
//! separated by `/`, empty and `.` components after the first are dropped, a
//! leading `/` is the root and a leading `.` component is the current
//! directory.
use vstd::prelude::*;
use vstd::string::StrSliceExecFns;
use vstd::utf8::{decode_utf8, encode_utf8, valid_utf8};
use crate::text::{chars_of, push_char};

verus! {

/// Why a path was refused.
#[derive(Clone, Copy, Debug, PartialEq, Eq, Structural)]
pub enum PathError {
    /// The path holds a backslash.
    Backslash,
    /// The path is empty, holds NUL or names a reserved file.
    Invalid,
    /// The path is absolute or climbs out of the root.
    Escapes,
    /// Nothing is left of the path.
    Empty,
    /// A `%` is not followed by two hex digits.
    MalformedPercent,
    /// The decoded path holds a NUL byte.
    Nul,
    /// The decoded path is not UTF-8.
    NotUtf8,
    /// A separator was percent-encoded.
    EncodedSeparator,
}

/// The message of a [`PathError`].
pub open spec fn path_error_message(e: PathError) -> &'static str {
    match e {
        PathError::Backslash => "backslash path",
        PathError::Invalid => "invalid path",
        PathError::Escapes => "path escapes output root",
        PathError::Empty => "empty path",
        PathError::MalformedPercent => "malformed percent encoding",
        PathError::Nul => "NUL path",
        PathError::NotUtf8 => "path is not UTF-8",
        PathError::EncodedSeparator => "encoded separator",
    }
}

impl PathError {
    pub fn message(&self) -> (m: &'static str)
        ensures
            m == path_error_message(*self),
    {
        match self {
            PathError::Backslash => "backslash path",
            PathError::Invalid => "invalid path",
            PathError::Escapes => "path escapes output root",
            PathError::Empty => "empty path",
            PathError::MalformedPercent => "malformed percent encoding",
            PathError::Nul => "NUL path",
            PathError::NotUtf8 => "path is not UTF-8",
            PathError::EncodedSeparator => "encoded separator",
        }
    }
}

/// The pieces of `s` between its `/` separators, empty pieces included.
pub open spec fn segments(s: Seq<char>) -> Seq<Seq<char>>
    decreases s.len(),
{
    if s.len() == 0 {
        seq![Seq::empty()]
    } else {
        let p = segments(s.drop_last());
        if s.last() == '/' {
            p.push(Seq::empty())
        } else {
            p.update(p.len() - 1, p.last().push(s.last()))
        }
    }
}

pub proof fn lemma_segments_len(s: Seq<char>)
    ensures
        segments(s).len() >= 1,
    decreases s.len(),
{
    if s.len() > 0 {
        lemma_segments_len(s.drop_last());
    }
}

/// The prefix of the names that the output root keeps for itself.
pub open spec fn reserved_prefix() -> Seq<char> {
    seq!['.', 's', 'q', 'u', 'a', 'r', 'e', 'm', 'a', 'p', '-']
}

pub open spec fn has_prefix(s: Seq<char>, p: Seq<char>) -> bool {
    s.len() >= p.len() && s.subrange(0, p.len() as int) == p
}

/// How a path piece reads as a component.
#[derive(Clone, Copy, Debug, PartialEq, Eq, Structural)]
pub enum PieceKind {
    /// An empty or `.` piece after the first: dropped.
    Skip,
    /// The root, the current directory or `..`.
    Escape,
    /// A name the output root keeps for itself.
    Reserved,
    /// An ordinary name.
    Name,
}

pub open spec fn piece_kind(piece: Seq<char>, first: bool) -> PieceKind {
    if piece.len() == 0 || piece == seq!['.'] {
        if first {
            PieceKind::Escape
        } else {
            PieceKind::Skip
        }
    } else if piece == seq!['.', '.'] {
        PieceKind::Escape
    } else if has_prefix(piece, reserved_prefix()) {
        PieceKind::Reserved
    } else {
        PieceKind::Name
    }
}

/// The names of a list of pieces, or the first refusal among them.
pub open spec fn names_of(pieces: Seq<Seq<char>>) -> Result<Seq<Seq<char>>, PathError>
    decreases pieces.len(),
{
    if pieces.len() == 0 {
        Ok(Seq::empty())
    } else {
        match names_of(pieces.drop_last()) {
            Err(e) => Err(e),
            Ok(names) => match piece_kind(pieces.last(), pieces.len() == 1) {
                PieceKind::Skip => Ok(names),
                PieceKind::Escape => Err(PathError::Escapes),
                PieceKind::Reserved => Err(PathError::Invalid),
                PieceKind::Name => Ok(names.push(pieces.last())),
            },
        }
    }
}

/// A refusal among the first pieces is the refusal of the whole list.
proof fn lemma_names_of_err(pieces: Seq<Seq<char>>, k: int)
    requires
        0 <= k <= pieces.len(),
        names_of(pieces.subrange(0, k)) is Err,
    ensures
        names_of(pieces) == names_of(pieces.subrange(0, k)),
    decreases pieces.len() - k,
{
    if k < pieces.len() {
        assert(pieces.subrange(0, k + 1).drop_last() =~= pieces.subrange(0, k));
        lemma_names_of_err(pieces, k + 1);
    } else {
        assert(pieces.subrange(0, k) =~= pieces);
    }
}

/// Names joined by `/`.
pub open spec fn join(names: Seq<Seq<char>>) -> Seq<char>
    decreases names.len(),
{
    if names.len() == 0 {
        Seq::empty()
    } else if names.len() == 1 {
        names[0]
    } else {
        join(names.drop_last()) + seq!['/'] + names.last()
    }
}

/// A path relative to the output root, cleaned of empty and `.` pieces, or
/// why it was refused.
pub open spec fn relative_path(s: Seq<char>) -> Result<Seq<char>, PathError> {
    if s.contains('\\') {
        Err(PathError::Backslash)
    } else if s.len() == 0 || s.contains('\0') {
        Err(PathError::Invalid)
    } else {
        match names_of(segments(s)) {
            Err(e) => Err(e),
            Ok(names) => if names.len() == 0 {
                Err(PathError::Empty)
            } else {
                Ok(join(names))
            },
        }
    }
}

/// The pieces of a character sequence.
fn split_pieces(chars: &Vec<char>) -> (pieces: Vec<Vec<char>>)
    ensures
        pieces@.len() == segments(chars@).len(),
        forall|j: int| 0 <= j < pieces@.len() ==> #[trigger] pieces@[j]@ == segments(chars@)[j],
{
    let mut pieces: Vec<Vec<char>> = Vec::new();
    let mut current: Vec<char> = Vec::new();
    let mut i: usize = 0;
    while i < chars.len()
        invariant
            i <= chars@.len(),
            pieces@.len() + 1 == segments(chars@.subrange(0, i as int)).len(),
            forall|j: int| 0 <= j < pieces@.len() ==> #[trigger] pieces@[j]@ == segments(chars@.subrange(0, i as int))[j],
            current@ == segments(chars@.subrange(0, i as int)).last(),
        decreases chars@.len() - i,
    {
        let ghost before = chars@.subrange(0, i as int);
        proof {
            assert(chars@.subrange(0, i + 1).drop_last() =~= before);
            lemma_segments_len(before);
        }
        let c = chars[i];
        if c == '/' {
            pieces.push(current);
            current = Vec::new();
        } else {
            current.push(c);
        }
        i = i + 1;
    }
    proof {
        assert(chars@.subrange(0, chars@.len() as int) =~= chars@);
        lemma_segments_len(chars@);
    }
    pieces.push(current);
    pieces
}

fn has_reserved_prefix(piece: &Vec<char>) -> (b: bool)
    ensures
        b == has_prefix(piece@, reserved_prefix()),
{
    let prefix: [char; 11] = ['.', 's', 'q', 'u', 'a', 'r', 'e', 'm', 'a', 'p', '-'];
    if piece.len() < 11 {
        return false;
    }
    let mut i: usize = 0;
    while i < 11
        invariant
            i <= 11,
            piece@.len() >= 11,
            prefix@ == reserved_prefix(),
            forall|j: int| 0 <= j < i ==> piece@[j] == reserved_prefix()[j],
        decreases 11 - i,
    {
        if piece[i] != prefix[i] {
            assert(piece@.subrange(0, 11)[i as int] != reserved_prefix()[i as int]);
            return false;
        }
        i = i + 1;
    }
    assert(piece@.subrange(0, 11) =~= reserved_prefix());
    true
}

fn classify(piece: &Vec<char>, first: bool) -> (k: PieceKind)
    ensures
        k == piece_kind(piece@, first),
{
    let n = piece.len();
    if n == 0 || (n == 1 && piece[0] == '.') {
        proof {
            if n == 1 {
                assert(piece@ =~= seq!['.']);
            }
        }
        return if first { PieceKind::Escape } else { PieceKind::Skip };
    }
    assert(piece@ != seq!['.']) by {
        if n == 1 {
            assert(piece@[0] != '.');
        }
    }
    if n == 2 && piece[0] == '.' && piece[1] == '.' {
        assert(piece@ =~= seq!['.', '.']);
        return PieceKind::Escape;
    }
    assert(piece@ != seq!['.', '.']) by {
        if n == 2 {
            assert(piece@[0] != '.' || piece@[1] != '.');
        }
    }
    if has_reserved_prefix(piece) {
        PieceKind::Reserved
    } else {
        PieceKind::Name
    }
}

fn contains_char(chars: &Vec<char>, c: char) -> (b: bool)
    ensures
        b == chars@.contains(c),
{
    let mut i: usize = 0;
    while i < chars.len()
        invariant
            i <= chars@.len(),
            forall|j: int| 0 <= j < i ==> chars@[j] != c,
        decreases chars@.len() - i,
    {
        if chars[i] == c {
            return true;
        }
        i = i + 1;
    }
    false
}

pub(crate) fn push_chars(s: &mut String, chars: &Vec<char>)
    ensures
        final(s)@ == old(s)@ + chars@,
{
    let mut i: usize = 0;
    while i < chars.len()
        invariant
            i <= chars@.len(),
            s@ == old(s)@ + chars@.subrange(0, i as int),
        decreases chars@.len() - i,
    {
        push_char(s, chars[i]);
        i = i + 1;
        assert(s@ =~= old(s)@ + chars@.subrange(0, i as int));
    }
    assert(chars@.subrange(0, chars@.len() as int) =~= chars@);
}

/// Checks a path relative to the output root and returns it cleaned: no
/// backslash, no NUL, not empty, not absolute, no `.` at its start, no `..`
/// anywhere and no name that starts with `.squaremap-`.
pub fn validate_relative(path: &str) -> (r: Result<String, PathError>)
    ensures
        match r {
            Ok(s) => relative_path(path@) == Ok::<Seq<char>, PathError>(s@),
            Err(e) => relative_path(path@) == Err::<Seq<char>, PathError>(e),
        },
{
    let chars = chars_of(path);
    if contains_char(&chars, '\\') {
        return Err(PathError::Backslash);
    }
    if chars.len() == 0 || contains_char(&chars, '\0') {
        return Err(PathError::Invalid);
    }
    let pieces = split_pieces(&chars);
    let ghost segs = segments(path@);
    let mut clean = String::new();
    let mut named = false;
    let ghost mut names: Seq<Seq<char>> = Seq::empty();
    let mut i: usize = 0;
    while i < pieces.len()
        invariant
            i <= pieces@.len(),
            pieces@.len() == segs.len(),
            segs == segments(path@),
            !path@.contains('\\'),
            !path@.contains('\0'),
            path@.len() > 0,
            forall|j: int| 0 <= j < pieces@.len() ==> #[trigger] pieces@[j]@ == segs[j],
            names_of(segs.subrange(0, i as int)) == Ok::<Seq<Seq<char>>, PathError>(names),
            clean@ == join(names),
            named == (names.len() > 0),
        decreases pieces@.len() - i,
    {
        proof {
            assert(segs.subrange(0, i + 1).drop_last() =~= segs.subrange(0, i as int));
            assert(segs.subrange(0, i + 1).last() == pieces@[i as int]@);
        }
        let kind = classify(&pieces[i], i == 0);
        match kind {
            PieceKind::Skip => {},
            PieceKind::Escape => {
                proof {
                    lemma_names_of_err(segs, i + 1);
                }
                return Err(PathError::Escapes);
            },
            PieceKind::Reserved => {
                proof {
                    lemma_names_of_err(segs, i + 1);
                }
                return Err(PathError::Invalid);
            },
            PieceKind::Name => {
                let ghost old_names = names;
                if named {
                    push_char(&mut clean, '/');
                }
                push_chars(&mut clean, &pieces[i]);
                named = true;
                proof {
                    names = names.push(pieces@[i as int]@);
                    if old_names.len() == 0 {
                        assert(clean@ =~= join(names));
                    } else {
                        assert(names.drop_last() =~= old_names);
                        assert(clean@ =~= join(names));
                    }
                }
            },
        }
        i = i + 1;
    }
    assert(segs.subrange(0, segs.len() as int) =~= segs);
    if !named {
        return Err(PathError::Empty);
    }
    Ok(clean)
}


/// The value of a hex digit.
pub open spec fn hex_value(b: u8) -> Option<u8> {
    if 48 <= b <= 57 {
        Some((b - 48) as u8)
    } else if 97 <= b <= 102 {
        Some((b - 97 + 10) as u8)
    } else if 65 <= b <= 70 {
        Some((b - 65 + 10) as u8)
    } else {
        None
    }
}

/// The value of a hex digit, upper or lower case.
pub fn hex(byte: u8) -> (r: Result<u8, PathError>)
    ensures
        match hex_value(byte) {
            Some(v) => r == Ok::<u8, PathError>(v),
            None => r == Err::<u8, PathError>(PathError::MalformedPercent),
        },
{
    if 48 <= byte && byte <= 57 {
        Ok(byte - 48)
    } else if 97 <= byte && byte <= 102 {
        Ok(byte - 97 + 10)
    } else if 65 <= byte && byte <= 70 {
        Ok(byte - 65 + 10)
    } else {
        Err(PathError::MalformedPercent)
    }
}

/// `b` with each `%` and the two hex digits after it replaced by the byte they
/// spell, or nothing where a `%` is not followed by two hex digits.
pub open spec fn percent_decode(b: Seq<u8>) -> Option<Seq<u8>>
    decreases b.len(),
{
    if b.len() == 0 {
        Some(Seq::empty())
    } else if b[0] == 37 {
        if b.len() < 3 {
            None
        } else {
            match (hex_value(b[1]), hex_value(b[2])) {
                (Some(h), Some(l)) => match percent_decode(b.subrange(3, b.len() as int)) {
                    Some(rest) => Some(seq![(h * 16 + l) as u8] + rest),
                    None => None,
                },
                _ => None,
            }
        }
    } else {
        match percent_decode(b.subrange(1, b.len() as int)) {
            Some(rest) => Some(seq![b[0]] + rest),
            None => None,
        }
    }
}

pub open spec fn prefixed(p: Seq<u8>, o: Option<Seq<u8>>) -> Option<Seq<u8>> {
    match o {
        Some(rest) => Some(p + rest),
        None => None,
    }
}

fn percent_decode_bytes(bytes: &Vec<u8>) -> (r: Result<Vec<u8>, PathError>)
    ensures
        match percent_decode(bytes@) {
            Some(d) => r matches Ok(v) && v@ == d,
            None => r == Err::<Vec<u8>, PathError>(PathError::MalformedPercent),
        },
{
    let mut decoded: Vec<u8> = Vec::new();
    let mut index: usize = 0;
    proof {
        assert(bytes@.subrange(0, bytes@.len() as int) =~= bytes@);
        match percent_decode(bytes@) {
            Some(all) => assert(decoded@ + all =~= all),
            None => {},
        }
    }
    while index < bytes.len()
        invariant
            index <= bytes@.len(),
            percent_decode(bytes@) == prefixed(decoded@, percent_decode(bytes@.subrange(index as int, bytes@.len() as int))),
        decreases bytes@.len() - index,
    {
        let ghost rest = bytes@.subrange(index as int, bytes@.len() as int);
        if bytes[index] == 37 {
            if bytes.len() - index < 3 {
                return Err(PathError::MalformedPercent);
            }
            let high = match hex(bytes[index + 1]) {
                Ok(v) => v,
                Err(e) => {
                    return Err(e);
                },
            };
            let low = match hex(bytes[index + 2]) {
                Ok(v) => v,
                Err(e) => {
                    return Err(e);
                },
            };
            proof {
                assert(rest.subrange(3, rest.len() as int) =~= bytes@.subrange(index + 3, bytes@.len() as int));
                assert(rest[1] == bytes@[index + 1]);
                assert(rest[2] == bytes@[index + 2]);
            }
            let ghost before = decoded@;
            decoded.push(high * 16 + low);
            proof {
                match percent_decode(bytes@.subrange(index + 3, bytes@.len() as int)) {
                    Some(tail) => {
                        assert(before + (seq![(high * 16 + low) as u8] + tail) =~= decoded@ + tail);
                    },
                    None => {},
                }
            }
            index = index + 3;
        } else {
            proof {
                assert(rest.subrange(1, rest.len() as int) =~= bytes@.subrange(index + 1, bytes@.len() as int));
            }
            let ghost before = decoded@;
            decoded.push(bytes[index]);
            proof {
                match percent_decode(bytes@.subrange(index + 1, bytes@.len() as int)) {
                    Some(tail) => {
                        assert(before + (seq![bytes@[index as int]] + tail) =~= decoded@ + tail);
                    },
                    None => {},
                }
            }
            index = index + 1;
        }
    }
    proof {
        assert(decoded@ + Seq::<u8>::empty() =~= decoded@);
    }
    Ok(decoded)
}

/// `String::from_utf8`: the string whose UTF-8 encoding is `bytes`, or
/// nothing where `bytes` is not UTF-8.
#[verifier::external_body]
fn utf8_string(bytes: Vec<u8>) -> (r: Option<String>)
    ensures
        r is Some <==> valid_utf8(bytes@),
        r matches Some(s) ==> s@ == decode_utf8(bytes@),
{
    String::from_utf8(bytes).ok()
}

fn contains_byte(bytes: &Vec<u8>, b: u8) -> (r: bool)
    ensures
        r == bytes@.contains(b),
{
    let mut i: usize = 0;
    while i < bytes.len()
        invariant
            i <= bytes@.len(),
            forall|j: int| 0 <= j < i ==> bytes@[j] != b,
        decreases bytes@.len() - i,
    {
        if bytes[i] == b {
            return true;
        }
        i = i + 1;
    }
    false
}

/// A request path without its leading `/`.
pub open spec fn without_leading_slash(raw: Seq<char>) -> Seq<char> {
    if raw.len() > 0 && raw[0] == '/' {
        raw.subrange(1, raw.len() as int)
    } else {
        raw
    }
}

/// What a request path decodes to: the empty path for the root, else the
/// percent-decoded path checked as a relative path, refused where it holds NUL,
/// is not UTF-8, holds a backslash, or spells a `/` by a percent escape.
pub open spec fn decoded_path(raw: Seq<char>) -> Result<Seq<char>, PathError> {
    let path = without_leading_slash(raw);
    if path.len() == 0 {
        Ok(Seq::empty())
    } else {
        match percent_decode(encode_utf8(path)) {
            None => Err(PathError::MalformedPercent),
            Some(d) => if d.contains(0u8) {
                Err(PathError::Nul)
            } else if !valid_utf8(d) {
                Err(PathError::NotUtf8)
            } else {
                let s = decode_utf8(d);
                if s.contains('\\') || (path.contains('%') && s.contains('/')) {
                    Err(PathError::EncodedSeparator)
                } else {
                    relative_path(s)
                }
            },
        }
    }
}

/// Decodes the path of a request into a path relative to the output root.
pub fn decode_path(raw: &str) -> (r: Result<String, PathError>)
    ensures
        match r {
            Ok(s) => decoded_path(raw@) == Ok::<Seq<char>, PathError>(s@),
            Err(e) => decoded_path(raw@) == Err::<Seq<char>, PathError>(e),
        },
{
    let n = raw.unicode_len();
    let path: &str = if n > 0 && raw.get_char(0) == '/' {
        raw.substring_char(1, n)
    } else {
        raw
    };
    assert(path@ == without_leading_slash(raw@));
    let path_chars = chars_of(path);
    if path_chars.len() == 0 {
        return Ok(String::new());
    }
    let bytes = path.as_bytes_vec();
    let decoded = match percent_decode_bytes(&bytes) {
        Ok(d) => d,
        Err(e) => {
            return Err(e);
        },
    };
    if contains_byte(&decoded, 0) {
        return Err(PathError::Nul);
    }
    let text = match utf8_string(decoded) {
        Some(t) => t,
        None => {
            return Err(PathError::NotUtf8);
        },
    };
    let text_chars = chars_of(text.as_str());
    if contains_char(&text_chars, '\\') || (contains_char(&path_chars, '%') && contains_char(&text_chars, '/')) {
        return Err(PathError::EncodedSeparator);
    }
    validate_relative(text.as_str())
}


/// Whether a character sequence spells `lit`.
pub fn equals_lit(v: &Vec<char>, lit: &str) -> (b: bool)
    ensures
        b == (v@ == lit@),
{
    let n = lit.unicode_len();
    if v.len() != n {
        return false;
    }
    let mut i: usize = 0;
    while i < n
        invariant
            i <= n,
            n == lit@.len(),
            v@.len() == n,
            forall|j: int| 0 <= j < i ==> v@[j] == lit@[j],
        decreases n - i,
    {
        if v[i] != lit.get_char(i) {
            return false;
        }
        i = i + 1;
    }
    assert(v@ =~= lit@);
    true
}

/// The pieces that name something: those neither empty nor `.`.
pub open spec fn parts_of(pieces: Seq<Seq<char>>) -> Seq<Seq<char>>
    decreases pieces.len(),
{
    if pieces.len() == 0 {
        Seq::empty()
    } else {
        let p = parts_of(pieces.drop_last());
        if pieces.last().len() == 0 || pieces.last() == seq!['.'] {
            p
        } else {
            p.push(pieces.last())
        }
    }
}

fn parts(pieces: &Vec<Vec<char>>) -> (r: Vec<Vec<char>>)
    ensures
        r@.len() == parts_of(pieces@.map_values(|p: Vec<char>| p@)).len(),
        forall|j: int| 0 <= j < r@.len() ==> #[trigger] r@[j]@ == parts_of(pieces@.map_values(|p: Vec<char>| p@))[j],
{
    let ghost views = pieces@.map_values(|p: Vec<char>| p@);
    let mut r: Vec<Vec<char>> = Vec::new();
    let mut i: usize = 0;
    while i < pieces.len()
        invariant
            i <= pieces@.len(),
            views == pieces@.map_values(|p: Vec<char>| p@),
            r@.len() == parts_of(views.subrange(0, i as int)).len(),
            forall|j: int| 0 <= j < r@.len() ==> #[trigger] r@[j]@ == parts_of(views.subrange(0, i as int))[j],
        decreases pieces@.len() - i,
    {
        proof {
            assert(views.subrange(0, i + 1).drop_last() =~= views.subrange(0, i as int));
            assert(views.subrange(0, i + 1).last() == pieces@[i as int]@);
        }
        let piece = &pieces[i];
        let skip = piece.len() == 0 || (piece.len() == 1 && piece[0] == '.');
        proof {
            if piece@.len() == 1 {
                if piece@[0] == '.' {
                    assert(piece@ =~= seq!['.']);
                } else {
                    assert(piece@ != seq!['.']) by {
                        assert(piece@[0] != seq!['.'][0]);
                    }
                }
            }
        }
        if !skip {
            r.push(piece.clone());
        }
        i = i + 1;
    }
    assert(views.subrange(0, pieces@.len() as int) =~= views);
    r
}

/// The pieces of a path, as plain sequences.
proof fn lemma_piece_views(pieces: Seq<Vec<char>>, s: Seq<char>)
    requires
        pieces.len() == segments(s).len(),
        forall|j: int| 0 <= j < pieces.len() ==> #[trigger] pieces[j]@ == segments(s)[j],
    ensures
        pieces.map_values(|p: Vec<char>| p@) == segments(s),
{
    assert(pieces.map_values(|p: Vec<char>| p@) =~= segments(s));
}

/// Whether the first component of a path is `tiles`.
pub open spec fn is_tile_path(s: Seq<char>) -> bool {
    segments(s)[0] == "tiles"@
}

/// Whether a path names a tile.
pub fn is_tile(path: &str) -> (b: bool)
    ensures
        b == is_tile_path(path@),
{
    let chars = chars_of(path);
    let pieces = split_pieces(&chars);
    proof {
        lemma_segments_len(path@);
    }
    equals_lit(&pieces[0], "tiles")
}

/// Whether a path is served from the output root even when a development
/// frontend is running: tiles, and registered icons.
pub open spec fn is_static_exclusion_path(s: Seq<char>) -> bool {
    let segs = segments(s);
    let ps = parts_of(segs);
    segs[0] == "tiles"@ || (segs[0] == "images"@ && ps.len() >= 3 && ps[1] == "icon"@ && ps[2]
        == "registered"@)
}

proof fn lemma_first_part(pieces: Seq<Seq<char>>)
    requires
        pieces.len() >= 1,
        pieces[0].len() > 0,
        pieces[0] != seq!['.'],
    ensures
        parts_of(pieces).len() >= 1,
        parts_of(pieces)[0] == pieces[0],
    decreases pieces.len(),
{
    if pieces.len() > 1 {
        lemma_first_part(pieces.drop_last());
        let p = parts_of(pieces.drop_last());
        assert(pieces.drop_last()[0] == pieces[0]);
        assert(p.push(pieces.last())[0] == p[0]);
        assert(parts_of(pieces) == p || parts_of(pieces) == p.push(pieces.last()));
    } else {
        assert(pieces.drop_last() =~= Seq::<Seq<char>>::empty());
        assert(parts_of(pieces.drop_last()) =~= Seq::<Seq<char>>::empty());
        assert(pieces.last() == pieces[0]);
    }
}

/// Whether a path bypasses the development frontend.
pub fn is_static_exclusion(path: &str) -> (b: bool)
    ensures
        b == is_static_exclusion_path(path@),
{
    let chars = chars_of(path);
    let pieces = split_pieces(&chars);
    proof {
        lemma_segments_len(path@);
        lemma_piece_views(pieces@, path@);
    }
    if equals_lit(&pieces[0], "tiles") {
        return true;
    }
    if !equals_lit(&pieces[0], "images") {
        return false;
    }
    let named = parts(&pieces);
    proof {
        reveal_strlit("images");
        assert(pieces@[0]@.len() > 0);
        assert(pieces@[0]@ != seq!['.']) by {
            assert(pieces@[0]@.len() != 1);
        }
        lemma_first_part(segments(path@));
    }
    named.len() >= 3 && equals_lit(&named[1], "icon") && equals_lit(&named[2], "registered")
}

/// The index of the last `.` in `n`, or -1.
pub open spec fn last_dot(n: Seq<char>) -> int
    decreases n.len(),
{
    if n.len() == 0 {
        -1
    } else if n.last() == '.' {
        n.len() - 1
    } else {
        last_dot(n.drop_last())
    }
}

/// The extension of a file name: what follows its last `.`, where that dot
/// is not the name's first character.
pub open spec fn extension_of(name: Seq<char>) -> Option<Seq<char>> {
    let k = last_dot(name);
    if k <= 0 {
        None
    } else {
        Some(name.subrange(k + 1, name.len() as int))
    }
}

/// The file name of a path: its last component, unless that is `..`.
pub open spec fn file_name_of(s: Seq<char>) -> Option<Seq<char>> {
    let ps = parts_of(segments(s));
    if ps.len() > 0 && ps.last() != seq!['.', '.'] {
        Some(ps.last())
    } else {
        None
    }
}

/// The media type served for an extension.
pub open spec fn media_type(ext: Option<Seq<char>>) -> Seq<char> {
    match ext {
        None => "application/octet-stream"@,
        Some(e) => if e == "json"@ {
            "application/json"@
        } else if e == "png"@ {
            "image/png"@
        } else if e == "html"@ || e == "htm"@ {
            "text/html; charset=utf-8"@
        } else if e == "css"@ {
            "text/css; charset=utf-8"@
        } else if e == "js"@ || e == "mjs"@ {
            "application/javascript"@
        } else if e == "ico"@ {
            "image/x-icon"@
        } else if e == "svg"@ {
            "image/svg+xml"@
        } else if e == "webp"@ {
            "image/webp"@
        } else if e == "gif"@ {
            "image/gif"@
        } else if e == "jpg"@ || e == "jpeg"@ {
            "image/jpeg"@
        } else if e == "woff"@ {
            "font/woff"@
        } else if e == "woff2"@ {
            "font/woff2"@
        } else if e == "ttf"@ {
            "font/ttf"@
        } else if e == "otf"@ {
            "font/otf"@
        } else if e == "txt"@ {
            "text/plain; charset=utf-8"@
        } else if e == "xml"@ {
            "application/xml"@
        } else if e == "map"@ {
            "application/json"@
        } else if e == "webmanifest"@ {
            "application/manifest+json"@
        } else {
            "application/octet-stream"@
        },
    }
}

/// The media type of the file a path names, by its extension.
pub open spec fn content_type_of(s: Seq<char>) -> Seq<char> {
    match file_name_of(s) {
        None => media_type(None),
        Some(name) => media_type(extension_of(name)),
    }
}

fn media_type_for(ext: &Vec<char>) -> (m: &'static str)
    ensures
        m@ == media_type(Some(ext@)),
{
    if equals_lit(ext, "json") {
        "application/json"
    } else if equals_lit(ext, "png") {
        "image/png"
    } else if equals_lit(ext, "html") || equals_lit(ext, "htm") {
        "text/html; charset=utf-8"
    } else if equals_lit(ext, "css") {
        "text/css; charset=utf-8"
    } else if equals_lit(ext, "js") || equals_lit(ext, "mjs") {
        "application/javascript"
    } else if equals_lit(ext, "ico") {
        "image/x-icon"
    } else if equals_lit(ext, "svg") {
        "image/svg+xml"
    } else if equals_lit(ext, "webp") {
        "image/webp"
    } else if equals_lit(ext, "gif") {
        "image/gif"
    } else if equals_lit(ext, "jpg") || equals_lit(ext, "jpeg") {
        "image/jpeg"
    } else if equals_lit(ext, "woff") {
        "font/woff"
    } else if equals_lit(ext, "woff2") {
        "font/woff2"
    } else if equals_lit(ext, "ttf") {
        "font/ttf"
    } else if equals_lit(ext, "otf") {
        "font/otf"
    } else if equals_lit(ext, "txt") {
        "text/plain; charset=utf-8"
    } else if equals_lit(ext, "xml") {
        "application/xml"
    } else if equals_lit(ext, "map") {
        "application/json"
    } else if equals_lit(ext, "webmanifest") {
        "application/manifest+json"
    } else {
        "application/octet-stream"
    }
}

fn find_last_dot(name: &Vec<char>) -> (k: Option<usize>)
    ensures
        match k {
            Some(k) => last_dot(name@) == k && k < name@.len(),
            None => last_dot(name@) == -1,
        },
{
    let mut i: usize = name.len();
    assert(name@.subrange(0, i as int) =~= name@);
    while i > 0
        invariant
            i <= name@.len(),
            last_dot(name@) == last_dot(name@.subrange(0, i as int)),
        decreases i,
    {
        proof {
            assert(name@.subrange(0, i as int).drop_last() =~= name@.subrange(0, i - 1));
        }
        if name[i - 1] == '.' {
            return Some(i - 1);
        }
        i = i - 1;
    }
    None
}

/// The media type served for a path.
pub fn content_type(path: &str) -> (m: &'static str)
    ensures
        m@ == content_type_of(path@),
{
    let chars = chars_of(path);
    let pieces = split_pieces(&chars);
    proof {
        lemma_piece_views(pieces@, path@);
    }
    let named = parts(&pieces);
    if named.len() == 0 {
        return "application/octet-stream";
    }
    let name = &named[named.len() - 1];
    if name.len() == 2 && name[0] == '.' && name[1] == '.' {
        assert(name@ =~= seq!['.', '.']);
        return "application/octet-stream";
    }
    assert(name@ != seq!['.', '.']) by {
        if name@.len() == 2 {
            assert(name@[0] != '.' || name@[1] != '.');
        }
    }
    let start = match find_last_dot(name) {
        Some(k) if k > 0 => k + 1,
        _ => {
            return "application/octet-stream";
        },
    };
    let mut ext: Vec<char> = Vec::new();
    let mut i: usize = start;
    while i < name.len()
        invariant
            start <= i <= name@.len(),
            ext@ == name@.subrange(start as int, i as int),
        decreases name@.len() - i,
    {
        ext.push(name[i]);
        i = i + 1;
        assert(ext@ =~= name@.subrange(start as int, i as int));
    }
    media_type_for(&ext)
}


/// The prefix of the temporary files the output root writes.
pub open spec fn temp_prefix() -> Seq<char> {
    seq!['.', 's', 'q', 'u', 'a', 'r', 'e', 'm', 'a', 'p', '-', 't', 'm', 'p', '-']
}

pub open spec fn is_digit(c: char) -> bool {
    '0' <= c <= '9'
}

/// Whether a suffix is two non-empty runs of ASCII digits joined by one `-`.
pub open spec fn digits_dash_digits(suffix: Seq<char>) -> bool {
    exists|k: int|
        0 < k < suffix.len() - 1 && #[trigger] suffix[k] == '-' && forall|j: int|
            0 <= j < suffix.len() && j != k ==> is_digit(#[trigger] suffix[j])
}

/// Whether a file name is one of the output root's temporary files:
/// `.squaremap-tmp-` followed by a process id, a `-` and a stamp, both in
/// decimal digits.
pub open spec fn is_temp_name_spec(name: Seq<char>) -> bool {
    has_prefix(name, temp_prefix()) && digits_dash_digits(name.subrange(15, name.len() as int))
}

/// Whether a file name is one of the output root's temporary files.
pub fn is_temp_name(name: &str) -> (b: bool)
    ensures
        b == is_temp_name_spec(name@),
{
    let chars = chars_of(name);
    let prefix: [char; 15] = ['.', 's', 'q', 'u', 'a', 'r', 'e', 'm', 'a', 'p', '-', 't', 'm', 'p', '-'];
    if chars.len() < 15 {
        return false;
    }
    let mut i: usize = 0;
    while i < 15
        invariant
            i <= 15,
            chars@.len() >= 15,
            chars@ == name@,
            prefix@ == temp_prefix(),
            forall|j: int| 0 <= j < i ==> chars@[j] == temp_prefix()[j],
        decreases 15 - i,
    {
        if chars[i] != prefix[i] {
            assert(chars@.subrange(0, 15)[i as int] != temp_prefix()[i as int]);
            return false;
        }
        i = i + 1;
    }
    assert(chars@.subrange(0, 15) =~= temp_prefix());
    let ghost suffix = chars@.subrange(15, chars@.len() as int);
    let n = chars.len() - 15;
    let mut dash: Option<usize> = None;
    let mut j: usize = 0;
    while j < n
        invariant
            j <= n,
            n == suffix.len(),
            suffix == chars@.subrange(15, chars@.len() as int),
            chars@.len() == n + 15,
            chars.len() == n + 15,
            chars@ == name@,
            has_prefix(name@, temp_prefix()),
            match dash {
                Some(k) => k < j && suffix[k as int] == '-' && forall|m: int|
                    0 <= m < j && m != k ==> is_digit(#[trigger] suffix[m]),
                None => forall|m: int| 0 <= m < j ==> is_digit(#[trigger] suffix[m]),
            },
        decreases n - j,
    {
        let c = chars[15 + j];
        assert(c == suffix[j as int]);
        if c == '-' {
            if let Some(k) = dash {
                assert(!digits_dash_digits(suffix)) by {
                    if digits_dash_digits(suffix) {
                        let w = choose|w: int|
                            0 < w < suffix.len() - 1 && #[trigger] suffix[w] == '-' && forall|m: int|
                                0 <= m < suffix.len() && m != w ==> is_digit(#[trigger] suffix[m]);
                        if w == k {
                            assert(is_digit(suffix[j as int]));
                        } else {
                            assert(is_digit(suffix[k as int]));
                        }
                    }
                }
                return false;
            }
            dash = Some(j);
        } else if !('0' <= c && c <= '9') {
            assert(!digits_dash_digits(suffix)) by {
                if digits_dash_digits(suffix) {
                    let w = choose|w: int|
                        0 < w < suffix.len() - 1 && #[trigger] suffix[w] == '-' && forall|m: int|
                            0 <= m < suffix.len() && m != w ==> is_digit(#[trigger] suffix[m]);
                    if w != j {
                        assert(is_digit(suffix[j as int]));
                    }
                }
            }
            return false;
        }
        j = j + 1;
    }
    match dash {
        Some(k) => {
            let ok = 0 < k && k + 1 < n;
            proof {
                if ok {
                    assert(suffix[k as int] == '-');
                } else {
                    assert(!digits_dash_digits(suffix)) by {
                        if digits_dash_digits(suffix) {
                            let w = choose|w: int|
                                0 < w < suffix.len() - 1 && #[trigger] suffix[w] == '-' && forall|m: int|
                                    0 <= m < suffix.len() && m != w ==> is_digit(#[trigger] suffix[m]);
                            if w != k {
                                assert(is_digit(suffix[w]));
                            }
                        }
                    }
                }
            }
            ok
        },
        None => {
            assert(!digits_dash_digits(suffix)) by {
                if digits_dash_digits(suffix) {
                    let w = choose|w: int|
                        0 < w < suffix.len() - 1 && #[trigger] suffix[w] == '-' && forall|m: int|
                            0 <= m < suffix.len() && m != w ==> is_digit(#[trigger] suffix[m]);
                    assert(is_digit(suffix[w]));
                }
            }
            false
        },
    }
}

/// Whether a header name (in lower case) is hop-by-hop and so is not passed
/// on by a proxy.
pub open spec fn is_hop_by_hop_name(name: Seq<char>) -> bool {
    name == "connection"@ || name == "keep-alive"@ || name == "proxy-authenticate"@ || name
        == "proxy-authorization"@ || name == "te"@ || name == "trailer"@ || name == "transfer-encoding"@
        || name == "upgrade"@
}

/// Whether a header is hop-by-hop.
pub fn is_hop_by_hop(name: &str) -> (b: bool)
    ensures
        b == is_hop_by_hop_name(name@),
{
    let chars = chars_of(name);
    equals_lit(&chars, "connection") || equals_lit(&chars, "keep-alive") || equals_lit(&chars, "proxy-authenticate")
        || equals_lit(&chars, "proxy-authorization") || equals_lit(&chars, "te") || equals_lit(&chars, "trailer")
        || equals_lit(&chars, "transfer-encoding") || equals_lit(&chars, "upgrade")
}


/// Whether `v` begins with `lit`.
pub fn starts_with_lit(v: &Vec<char>, lit: &str) -> (b: bool)
    ensures
        b == has_prefix(v@, lit@),
{
    let n = lit.unicode_len();
    if v.len() < n {
        return false;
    }
    let mut i: usize = 0;
    while i < n
        invariant
            i <= n,
            n == lit@.len(),
            v@.len() >= n,
            forall|j: int| 0 <= j < i ==> v@[j] == lit@[j],
        decreases n - i,
    {
        if v[i] != lit.get_char(i) {
            assert(v@.subrange(0, n as int)[i as int] != lit@[i as int]);
            return false;
        }
        i = i + 1;
    }
    assert(v@.subrange(0, n as int) =~= lit@);
    true
}

/// Whether two strings hold the same characters.
pub fn same_text(a: &str, b: &str) -> (r: bool)
    ensures
        r == (a@ == b@),
{
    let x = chars_of(a);
    equals_lit(&x, b)
}

/// The characters of `v` from `start` on.
pub fn chars_from(v: &Vec<char>, start: usize) -> (r: Vec<char>)
    requires
        start <= v@.len(),
    ensures
        r@ == v@.subrange(start as int, v@.len() as int),
{
    let mut r: Vec<char> = Vec::new();
    let mut i: usize = start;
    while i < v.len()
        invariant
            start <= i <= v@.len(),
            r@ == v@.subrange(start as int, i as int),
        decreases v@.len() - i,
    {
        r.push(v[i]);
        i = i + 1;
        assert(r@ =~= v@.subrange(start as int, i as int));
    }
    r
}

/// The characters of `v` before `end`.
pub fn chars_before(v: &Vec<char>, end: usize) -> (r: Vec<char>)
    requires
        end <= v@.len(),
    ensures
        r@ == v@.subrange(0, end as int),
{
    let mut r: Vec<char> = Vec::new();
    let mut i: usize = 0;
    while i < end
        invariant
            i <= end,
            end <= v@.len(),
            r@ == v@.subrange(0, i as int),
        decreases end - i,
    {
        r.push(v[i]);
        i = i + 1;
        assert(r@ =~= v@.subrange(0, i as int));
    }
    r
}


/// Whether every component of a path is a name: not empty, not absolute, no
/// `.` at its start and no `..` anywhere.
pub open spec fn all_names(s: Seq<char>) -> bool {
    let segs = segments(s);
    &&& s.len() > 0
    &&& segs[0].len() > 0
    &&& segs[0] != seq!['.']
    &&& forall|j: int| 0 <= j < segs.len() ==> #[trigger] segs[j] != seq!['.', '.']
}

/// Checks the directory a world's tiles are published under.
pub fn validate_tile_prefix(prefix: &str) -> (r: Result<(), &'static str>)
    ensures
        all_names(prefix@) ==> r is Ok,
        !all_names(prefix@) ==> r == Err::<(), &'static str>("tile store prefix must be a non-empty relative path"),
{
    let chars = chars_of(prefix);
    if chars.len() == 0 {
        return Err("tile store prefix must be a non-empty relative path");
    }
    let pieces = split_pieces(&chars);
    proof {
        lemma_segments_len(prefix@);
    }
    let first = &pieces[0];
    if first.len() == 0 || (first.len() == 1 && first[0] == '.') {
        proof {
            if first@.len() == 1 {
                assert(first@ =~= seq!['.']);
            }
        }
        return Err("tile store prefix must be a non-empty relative path");
    }
    assert(first@ != seq!['.']) by {
        if first@.len() == 1 {
            assert(first@[0] != seq!['.'][0]);
        }
    }
    let mut i: usize = 0;
    while i < pieces.len()
        invariant
            i <= pieces@.len(),
            pieces@.len() == segments(prefix@).len(),
            forall|j: int| 0 <= j < pieces@.len() ==> #[trigger] pieces@[j]@ == segments(prefix@)[j],
            forall|j: int| 0 <= j < i ==> #[trigger] segments(prefix@)[j] != seq!['.', '.'],
        decreases pieces@.len() - i,
    {
        let piece = &pieces[i];
        if piece.len() == 2 && piece[0] == '.' && piece[1] == '.' {
            assert(piece@ =~= seq!['.', '.']);
            return Err("tile store prefix must be a non-empty relative path");
        }
        assert(piece@ != seq!['.', '.']) by {
            if piece@.len() == 2 {
                assert(piece@[0] != '.' || piece@[1] != '.');
            }
        }
        i = i + 1;
    }
    Ok(())
}

/// The last `.` of a name made of a stem, a `.` and an extension without a
/// dot is the one before the extension.
proof fn lemma_last_dot_before_extension(stem: Seq<char>, ext: Seq<char>)
    requires
        !ext.contains('.'),
    ensures
        last_dot(stem + seq!['.'] + ext) == stem.len(),
    decreases ext.len(),
{
    let name = stem + seq!['.'] + ext;
    if ext.len() == 0 {
        assert(name.last() == '.');
    } else {
        assert(name.drop_last() =~= stem + seq!['.'] + ext.drop_last());
        assert(name.last() == ext.last());
        assert(ext.contains(ext.last()) ) by {
            assert(ext[ext.len() - 1] == ext.last());
        }
        assert(!ext.drop_last().contains('.')) by {
            if ext.drop_last().contains('.') {
                let k = choose|k: int| 0 <= k < ext.drop_last().len() && ext.drop_last()[k] == '.';
                assert(ext[k] == '.');
            }
        }
        lemma_last_dot_before_extension(stem, ext.drop_last());
    }
}

/// A file `stem.ext` (with a non-empty stem and an extension without a dot)
/// is served with the media type of its extension: scripts (`js`, `mjs`) as
/// `application/javascript`, JSON and source maps as `application/json`,
/// pages as HTML, style sheets as CSS, and images by their own types, at any
/// path that names it.
pub proof fn lemma_served_by_extension(path: Seq<char>, stem: Seq<char>, ext: Seq<char>)
    requires
        file_name_of(path) == Some(stem + seq!['.'] + ext),
        stem.len() > 0,
        !ext.contains('.'),
    ensures
        ext == "js"@ || ext == "mjs"@ ==> content_type_of(path) == "application/javascript"@,
        ext == "json"@ || ext == "map"@ ==> content_type_of(path) == "application/json"@,
        ext == "html"@ || ext == "htm"@ ==> content_type_of(path) == "text/html; charset=utf-8"@,
        ext == "css"@ ==> content_type_of(path) == "text/css; charset=utf-8"@,
        ext == "png"@ ==> content_type_of(path) == "image/png"@,
        ext == "svg"@ ==> content_type_of(path) == "image/svg+xml"@,
        ext == "webp"@ ==> content_type_of(path) == "image/webp"@,
        ext == "ico"@ ==> content_type_of(path) == "image/x-icon"@,
{
    let name = stem + seq!['.'] + ext;
    lemma_last_dot_before_extension(stem, ext);
    assert(name.subrange(stem.len() as int + 1, name.len() as int) =~= ext);
    assert(extension_of(name) == Some(ext));
    reveal_strlit("json");
    reveal_strlit("png");
    reveal_strlit("html");
    reveal_strlit("htm");
    reveal_strlit("css");
    reveal_strlit("js");
    reveal_strlit("mjs");
    reveal_strlit("ico");
    reveal_strlit("svg");
    reveal_strlit("webp");
    reveal_strlit("gif");
    reveal_strlit("jpg");
    reveal_strlit("jpeg");
    reveal_strlit("woff");
    reveal_strlit("woff2");
    reveal_strlit("ttf");
    reveal_strlit("otf");
    reveal_strlit("txt");
    reveal_strlit("xml");
    reveal_strlit("map");
    reveal_strlit("webmanifest");
    if ext == "js"@ {
            assert(ext.len() != "json"@.len());
            assert(ext.len() != "png"@.len());
            assert(ext.len() != "html"@.len());
            assert(ext.len() != "htm"@.len());
            assert(ext.len() != "css"@.len());
    }
    if ext == "mjs"@ {
            assert(ext.len() != "json"@.len());
            assert(ext[0] != "png"@[0]);
            assert(ext.len() != "html"@.len());
            assert(ext[0] != "htm"@[0]);
            assert(ext[0] != "css"@[0]);
            assert(ext.len() != "js"@.len());
    }
    if ext == "json"@ {

    }
    if ext == "map"@ {
            assert(ext.len() != "json"@.len());
            assert(ext[0] != "png"@[0]);
            assert(ext.len() != "html"@.len());
            assert(ext[0] != "htm"@[0]);
            assert(ext[0] != "css"@[0]);
            assert(ext.len() != "js"@.len());
            assert(ext[1] != "mjs"@[1]);
            assert(ext[0] != "ico"@[0]);
            assert(ext[0] != "svg"@[0]);
            assert(ext.len() != "webp"@.len());
            assert(ext[0] != "gif"@[0]);
            assert(ext[0] != "jpg"@[0]);
            assert(ext.len() != "jpeg"@.len());
            assert(ext.len() != "woff"@.len());
            assert(ext.len() != "woff2"@.len());
            assert(ext[0] != "ttf"@[0]);
            assert(ext[0] != "otf"@[0]);
            assert(ext[0] != "txt"@[0]);
            assert(ext[0] != "xml"@[0]);
    }
    if ext == "html"@ {
            assert(ext[0] != "json"@[0]);
            assert(ext.len() != "png"@.len());
    }
    if ext == "htm"@ {
            assert(ext.len() != "json"@.len());
            assert(ext[0] != "png"@[0]);
            assert(ext.len() != "html"@.len());
    }
    if ext == "css"@ {
            assert(ext.len() != "json"@.len());
            assert(ext[0] != "png"@[0]);
            assert(ext.len() != "html"@.len());
            assert(ext[0] != "htm"@[0]);
    }
    if ext == "png"@ {
            assert(ext.len() != "json"@.len());
    }
    if ext == "svg"@ {
            assert(ext.len() != "json"@.len());
            assert(ext[0] != "png"@[0]);
            assert(ext.len() != "html"@.len());
            assert(ext[0] != "htm"@[0]);
            assert(ext[0] != "css"@[0]);
            assert(ext.len() != "js"@.len());
            assert(ext[0] != "mjs"@[0]);
            assert(ext[0] != "ico"@[0]);
    }
    if ext == "webp"@ {
            assert(ext[0] != "json"@[0]);
            assert(ext.len() != "png"@.len());
            assert(ext[0] != "html"@[0]);
            assert(ext.len() != "htm"@.len());
            assert(ext.len() != "css"@.len());
            assert(ext.len() != "js"@.len());
            assert(ext.len() != "mjs"@.len());
            assert(ext.len() != "ico"@.len());
            assert(ext.len() != "svg"@.len());
    }
    if ext == "ico"@ {
            assert(ext.len() != "json"@.len());
            assert(ext[0] != "png"@[0]);
            assert(ext.len() != "html"@.len());
            assert(ext[0] != "htm"@[0]);
            assert(ext[0] != "css"@[0]);
            assert(ext.len() != "js"@.len());
            assert(ext[0] != "mjs"@[0]);
    }
}

} // verus!
