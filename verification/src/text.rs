//! Building message text: decimal numbers and the debug rendering of protocol errors.
use vstd::prelude::*;
use crate::dirty_resync::{DirtyResyncError, WorldEnumerationError};

verus! {

/// The ASCII digit for `d` (`d < 10`).
pub open spec fn digit_char(d: nat) -> char {
    (48 + d) as char
}

/// The decimal rendering of a natural number, without leading zeros.
pub open spec fn decimal(n: nat) -> Seq<char>
    decreases n,
{
    if n < 10 {
        seq![digit_char(n)]
    } else {
        decimal(n / 10).push(digit_char(n % 10))
    }
}

/// Appends one character (`String::push`).
#[verifier::external_body]
pub(crate) fn push_char(s: &mut String, c: char)
    ensures
        final(s)@ == old(s)@.push(c),
{
    s.push(c);
}

/// Appends the decimal rendering of `n`.
pub fn push_decimal(s: &mut String, n: u64)
    ensures
        final(s)@ == old(s)@ + decimal(n as nat),
    decreases n,
{
    let ghost start = s@;
    if n >= 10 {
        push_decimal(s, n / 10);
    }
    let d: u8 = (n % 10) as u8;
    let c = (48u8 + d) as char;
    push_char(s, c);
    proof {
        if n >= 10 {
            assert(s@ =~= start + decimal(n as nat));
        } else {
            assert(s@ =~= start + decimal(n as nat));
        }
    }
}

/// The characters of a string, in order.
pub fn chars_of(s: &str) -> (v: Vec<char>)
    ensures
        v@ == s@,
{
    broadcast use vstd::string::axiom_spec_iter;
    let mut v: Vec<char> = Vec::new();
    for c in it: s.chars()
        invariant
            v@ == it.seq().take(it.index() as int),
            it.seq() == s@,
    {
        v.push(c);
    }
    v
}

/// Appends a literal.
pub fn push_str(s: &mut String, t: &str)
    ensures
        final(s)@ == old(s)@ + t@,
{
    s.append(t);
}

/// The text that the derived `Debug` gives a [`WorldEnumerationError`].
pub open spec fn enumeration_error_text(e: WorldEnumerationError) -> Seq<char> {
    match e {
        WorldEnumerationError::InvalidSession => "InvalidSession"@,
        WorldEnumerationError::RevisionMismatch => "RevisionMismatch"@,
        WorldEnumerationError::WorldMismatch => "WorldMismatch"@,
        WorldEnumerationError::InvalidPageSize { max } => "InvalidPageSize { max: "@ + decimal(max as nat) + " }"@,
        WorldEnumerationError::InvalidIndex { expected, actual } =>
            "InvalidIndex { expected: "@ + decimal(expected as nat) + ", actual: "@ + decimal(actual as nat) + " }"@,
        WorldEnumerationError::DuplicateIndex(index) => "DuplicateIndex("@ + decimal(index as nat) + ")"@,
        WorldEnumerationError::EnumerationMismatch => "EnumerationMismatch"@,
        WorldEnumerationError::InvalidCompletion => "InvalidCompletion"@,
    }
}

/// The text that the derived `Debug` gives a [`DirtyResyncError`].
pub open spec fn replay_error_text(e: DirtyResyncError) -> Seq<char> {
    match e {
        DirtyResyncError::InvalidSession => "InvalidSession"@,
        DirtyResyncError::RevisionMismatch => "RevisionMismatch"@,
        DirtyResyncError::WorldMismatch => "WorldMismatch"@,
        DirtyResyncError::MissingCursor => "MissingCursor"@,
        DirtyResyncError::InvalidCursor => "InvalidCursor"@,
        DirtyResyncError::InvalidPageSize { max } => "InvalidPageSize { max: "@ + decimal(max as nat) + " }"@,
        DirtyResyncError::InvalidIndex { expected, actual } =>
            "InvalidIndex { expected: "@ + decimal(expected as nat) + ", actual: "@ + decimal(actual as nat) + " }"@,
        DirtyResyncError::DuplicateIndex(index) => "DuplicateIndex("@ + decimal(index as nat) + ")"@,
        DirtyResyncError::ReplayMismatch => "ReplayMismatch"@,
        DirtyResyncError::InvalidCompletion => "InvalidCompletion"@,
    }
}

fn text_of(t: &str) -> (s: String)
    ensures
        s@ == t@,
{
    String::from_str(t)
}

fn page_size_text(max: u32) -> (s: String)
    ensures
        s@ == "InvalidPageSize { max: "@ + decimal(max as nat) + " }"@,
{
    let mut s = text_of("InvalidPageSize { max: ");
    push_decimal(&mut s, max as u64);
    push_str(&mut s, " }");
    s
}

fn index_text(expected: u32, actual: u32) -> (s: String)
    ensures
        s@ == "InvalidIndex { expected: "@ + decimal(expected as nat) + ", actual: "@ + decimal(actual as nat) + " }"@,
{
    let mut s = text_of("InvalidIndex { expected: ");
    push_decimal(&mut s, expected as u64);
    push_str(&mut s, ", actual: ");
    push_decimal(&mut s, actual as u64);
    push_str(&mut s, " }");
    s
}

fn duplicate_text(index: u32) -> (s: String)
    ensures
        s@ == "DuplicateIndex("@ + decimal(index as nat) + ")"@,
{
    let mut s = text_of("DuplicateIndex(");
    push_decimal(&mut s, index as u64);
    push_str(&mut s, ")");
    s
}

impl WorldEnumerationError {
    /// The derived `Debug` text of the error.
    pub fn debug_text(&self) -> (s: String)
        ensures
            s@ == enumeration_error_text(*self),
    {
        match self {
            WorldEnumerationError::InvalidSession => text_of("InvalidSession"),
            WorldEnumerationError::RevisionMismatch => text_of("RevisionMismatch"),
            WorldEnumerationError::WorldMismatch => text_of("WorldMismatch"),
            WorldEnumerationError::InvalidPageSize { max } => page_size_text(*max),
            WorldEnumerationError::InvalidIndex { expected, actual } => index_text(*expected, *actual),
            WorldEnumerationError::DuplicateIndex(index) => duplicate_text(*index),
            WorldEnumerationError::EnumerationMismatch => text_of("EnumerationMismatch"),
            WorldEnumerationError::InvalidCompletion => text_of("InvalidCompletion"),
        }
    }
}

impl DirtyResyncError {
    /// The derived `Debug` text of the error.
    pub fn debug_text(&self) -> (s: String)
        ensures
            s@ == replay_error_text(*self),
    {
        match self {
            DirtyResyncError::InvalidSession => text_of("InvalidSession"),
            DirtyResyncError::RevisionMismatch => text_of("RevisionMismatch"),
            DirtyResyncError::WorldMismatch => text_of("WorldMismatch"),
            DirtyResyncError::MissingCursor => text_of("MissingCursor"),
            DirtyResyncError::InvalidCursor => text_of("InvalidCursor"),
            DirtyResyncError::InvalidPageSize { max } => page_size_text(*max),
            DirtyResyncError::InvalidIndex { expected, actual } => index_text(*expected, *actual),
            DirtyResyncError::DuplicateIndex(index) => duplicate_text(*index),
            DirtyResyncError::ReplayMismatch => text_of("ReplayMismatch"),
            DirtyResyncError::InvalidCompletion => text_of("InvalidCompletion"),
        }
    }
}

} // verus!
