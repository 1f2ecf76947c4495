//! Declarations of global symbols.

use vstd::prelude::*;
use crate::failure::{agrees, FailureKind, ParseResult, Parsed};
use crate::scan::{fail_at, literal_from, run_from, run_len, skip_front, CharClass};
use vstd::slice::slice_subrange;

verus! {

/// A declaration of a global symbol: the text between `.global` and the semicolon.
#[derive(Debug, Clone, Copy, PartialEq, Eq)]
pub struct Global<'a> {
    pub raw_string: &'a [char],
}

impl<'a> View for Global<'a> {
    type V = Seq<char>;

    open spec fn view(&self) -> Seq<char> {
        self.raw_string@
    }
}

/// `.global`, one or more blanks, one or more characters up to the first
/// semicolon, which are the value, and the semicolon.
pub open spec fn spec_global(s: Seq<char>) -> Parsed<Seq<char>> {
    let a = ".global"@.len() as int;
    let b = a + run_len(s.skip(a), CharClass::Blank);
    let c = b + run_len(s.skip(b), CharClass::Except(';'));
    if !".global"@.is_prefix_of(s) {
        Parsed::Fail { kind: FailureKind::StructuralMismatch, at: 0 }
    } else if b == a {
        Parsed::Fail { kind: FailureKind::EmptyRequiredSpan, at: a }
    } else if c == b {
        Parsed::Fail { kind: FailureKind::EmptyRequiredSpan, at: b }
    } else if c >= s.len() {
        Parsed::Fail { kind: FailureKind::UnterminatedDelimiter, at: c }
    } else {
        Parsed::Done { used: c + 1, value: s.subrange(b, c) }
    }
}

/// Recognizes a declaration of a global symbol.
pub fn parse_global<'a>(input: &'a [char]) -> (r: ParseResult<'a, Global<'a>>)
    ensures
        agrees(input@, r, spec_global(input@)),
{
    let a = match literal_from(input, 0, ".global") {
        Some(a) => a,
        None => {
            return fail_at(input, 0, FailureKind::StructuralMismatch);
        },
    };
    let b = run_from(input, a, CharClass::Blank);
    if b == a {
        return fail_at(input, a, FailureKind::EmptyRequiredSpan);
    }
    let c = run_from(input, b, CharClass::Except(';'));
    if c == b {
        return fail_at(input, b, FailureKind::EmptyRequiredSpan);
    }
    if c >= input.len() {
        return fail_at(input, c, FailureKind::UnterminatedDelimiter);
    }
    Ok((skip_front(input, c + 1), Global { raw_string: slice_subrange(input, b, c) }))
}

} // verus!
