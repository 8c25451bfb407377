//! Lines of the development frontend's console output: escape sequences
//! removed and lines cut to a bounded size.
use vstd::prelude::*;
use vstd::utf8::{encode_scalar, encode_utf8};
use crate::text::{chars_of, push_char};

verus! {

/// The longest line kept, in bytes.
pub const LINE_LIMIT: usize = 16384;

pub open spec fn escape() -> char {
    '\u{1b}'
}

/// Whether a character ends a control sequence.
pub open spec fn is_final_byte(c: char) -> bool {
    '@' <= c <= '~'
}

/// What follows a control sequence's introducer: everything after its final
/// character, or nothing where it has none.
pub open spec fn after_sequence(s: Seq<char>) -> Seq<char>
    decreases s.len(),
{
    if s.len() == 0 {
        s
    } else if is_final_byte(s[0]) {
        s.subrange(1, s.len() as int)
    } else {
        after_sequence(s.subrange(1, s.len() as int))
    }
}

pub proof fn lemma_after_sequence_shorter(s: Seq<char>)
    ensures
        after_sequence(s).len() <= s.len(),
    decreases s.len(),
{
    if s.len() > 0 && !is_final_byte(s[0]) {
        lemma_after_sequence_shorter(s.subrange(1, s.len() as int));
    }
}

/// `s` without its escape sequences: an escape and the character after it are
/// dropped, and where that character is `[`, everything up to and including
/// the sequence's final character is dropped too.
pub open spec fn strip_ansi_spec(s: Seq<char>) -> Seq<char>
    decreases s.len(),
{
    if s.len() == 0 {
        s
    } else if s[0] == escape() {
        if s.len() >= 2 && s[1] == '[' {
            let rest = after_sequence(s.subrange(2, s.len() as int));
            proof {
                lemma_after_sequence_shorter(s.subrange(2, s.len() as int));
            }
            strip_ansi_spec(rest)
        } else if s.len() >= 2 {
            strip_ansi_spec(s.subrange(2, s.len() as int))
        } else {
            Seq::empty()
        }
    } else {
        seq![s[0]] + strip_ansi_spec(s.subrange(1, s.len() as int))
    }
}

/// Removes escape sequences from a console line.
pub fn strip_ansi(value: &str) -> (r: String)
    ensures
        r@ == strip_ansi_spec(value@),
{
    let chars = chars_of(value);
    let n = chars.len();
    let mut result = String::new();
    let mut i: usize = 0;
    proof {
        assert(chars@.subrange(0, n as int) =~= value@);
        assert(result@ + strip_ansi_spec(value@) =~= strip_ansi_spec(value@));
    }
    while i < n
        invariant
            i <= n,
            n == chars@.len(),
            chars@ == value@,
            strip_ansi_spec(value@) == result@ + strip_ansi_spec(chars@.subrange(i as int, n as int)),
        decreases n - i,
    {
        let ghost rest = chars@.subrange(i as int, n as int);
        let c = chars[i];
        if c == '\u{1b}' {
            if i + 1 < n && chars[i + 1] == '[' {
                let mut k: usize = i + 2;
                proof {
                    assert(rest.subrange(2, rest.len() as int) =~= chars@.subrange(k as int, n as int));
                }
                while k < n && !('@' <= chars[k] && chars[k] <= '~')
                    invariant
                        i + 2 <= k <= n,
                        n == chars@.len(),
                        after_sequence(rest.subrange(2, rest.len() as int)) == after_sequence(
                            chars@.subrange(k as int, n as int),
                        ),
                        rest == chars@.subrange(i as int, n as int),
                    decreases n - k,
                {
                    proof {
                        assert(chars@.subrange(k as int, n as int).subrange(1, (n - k) as int) =~= chars@.subrange(
                            k + 1,
                            n as int,
                        ));
                    }
                    k = k + 1;
                }
                if k < n {
                    proof {
                        assert(chars@.subrange(k as int, n as int).subrange(1, (n - k) as int) =~= chars@.subrange(
                            k + 1,
                            n as int,
                        ));
                    }
                    i = k + 1;
                } else {
                    proof {
                        assert(chars@.subrange(k as int, n as int) =~= Seq::<char>::empty());
                    }
                    i = n;
                }
            } else if i + 1 < n {
                proof {
                    assert(rest.subrange(2, rest.len() as int) =~= chars@.subrange(i + 2, n as int));
                }
                i = i + 2;
            } else {
                proof {
                    assert(chars@.subrange(n as int, n as int) =~= Seq::<char>::empty());
                }
                i = n;
            }
        } else {
            let ghost before = result@;
            push_char(&mut result, c);
            proof {
                assert(rest.subrange(1, rest.len() as int) =~= chars@.subrange(i + 1, n as int));
                assert(before + (seq![c] + strip_ansi_spec(chars@.subrange(i + 1, n as int))) =~= result@
                    + strip_ansi_spec(chars@.subrange(i + 1, n as int)));
            }
            i = i + 1;
        }
    }
    proof {
        assert(result@ + Seq::<char>::empty() =~= result@);
    }
    result
}

/// The number of bytes of a character's UTF-8 encoding.
fn utf8_width(c: char) -> (w: usize)
    ensures
        w == encode_scalar(c as u32).len(),
        1 <= w <= 4,
{
    let v = c as u32;
    if v <= 0x7f {
        1
    } else if v <= 0x7ff {
        2
    } else if v <= 0xffff {
        proof {
            vstd::utf8::char_is_scalar(c);
        }
        3
    } else {
        4
    }
}

proof fn lemma_encode_push(s: Seq<char>, c: char)
    ensures
        encode_utf8(s.push(c)) == encode_utf8(s) + encode_scalar(c as u32),
    decreases s.len(),
{
    if s.len() == 0 {
        assert(s.push(c).drop_first() =~= Seq::<char>::empty());
        assert(s.push(c)[0] == c);
        assert(encode_utf8(Seq::<char>::empty()) =~= Seq::<u8>::empty());
        assert(encode_utf8(s.push(c)) =~= encode_scalar(c as u32));
        assert(encode_utf8(s) + encode_scalar(c as u32) =~= encode_scalar(c as u32));
    } else {
        lemma_encode_push(s.drop_first(), c);
        assert(s.push(c).drop_first() =~= s.drop_first().push(c));
        assert(s.push(c)[0] == s[0]);
        assert(encode_utf8(s.push(c)) =~= encode_utf8(s) + encode_scalar(c as u32));
    }
}

/// The line cut to at most [`LINE_LIMIT`] bytes at a character boundary: the
/// longest prefix of whole characters whose encoding fits.
pub open spec fn bounded_line(s: Seq<char>, r: Seq<char>) -> bool {
    &&& r.len() <= s.len()
    &&& r == s.subrange(0, r.len() as int)
    &&& encode_utf8(r).len() <= LINE_LIMIT
    &&& r.len() < s.len() ==> encode_utf8(s.subrange(0, r.len() + 1int)).len() > LINE_LIMIT
}

/// Cuts a console line to [`LINE_LIMIT`] bytes.
pub fn bound_line(line: String) -> (r: String)
    ensures
        bounded_line(line@, r@),
{
    let chars = chars_of(line.as_str());
    let n = chars.len();
    let mut result = String::new();
    let mut bytes: usize = 0;
    let mut i: usize = 0;
    proof {
        assert(chars@.subrange(0, 0) =~= Seq::<char>::empty());
    }
    while i < n
        invariant
            i <= n,
            n == chars@.len(),
            chars@ == line@,
            result@ == chars@.subrange(0, i as int),
            bytes == encode_utf8(result@).len(),
            bytes <= LINE_LIMIT,
        decreases n - i,
    {
        let w = utf8_width(chars[i]);
        proof {
            assert(chars@.subrange(0, i + 1) =~= result@.push(chars@[i as int]));
            lemma_encode_push(result@, chars@[i as int]);
        }
        if bytes + w > LINE_LIMIT {
            return result;
        }
        push_char(&mut result, chars[i]);
        bytes = bytes + w;
        i = i + 1;
    }
    result
}

} // verus!
