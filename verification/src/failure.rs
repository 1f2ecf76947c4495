//! Failures of recognizers, and the relation between what a recognizer
//! returns and what the grammar denotes.

use vstd::prelude::*;

verus! {

/// Why a recognizer gave up.
#[derive(Debug, Clone, Copy, PartialEq, Eq, Structural)]
pub enum FailureKind {
    /// A literal, keyword or delimiter was expected at the cursor and not found.
    StructuralMismatch,
    /// A brace, parenthesis, comment or line was opened and the input ended
    /// before it was closed.
    UnterminatedDelimiter,
    /// A construct that needs one or more repetitions matched none.
    EmptyRequiredSpan,
}

/// A failure: its kind, and the input that was left unconsumed where it occurred.
#[derive(Debug, Clone, Copy, PartialEq, Eq)]
pub struct ParseFailure<'a> {
    pub kind: FailureKind,
    pub rest: &'a [char],
}

/// What the grammar says of an input: either a value and the number of
/// characters it takes up at the front of the input, or a failure and the
/// offset at which it occurs.
pub ghost enum Parsed<V> {
    Done { used: int, value: V },
    Fail { kind: FailureKind, at: int },
}

impl<V> Parsed<V> {
    /// The same outcome, seen from `k` characters further to the front.
    pub open spec fn shift(self, k: int) -> Parsed<V> {
        match self {
            Parsed::Done { used, value } => Parsed::Done { used: used + k, value },
            Parsed::Fail { kind, at } => Parsed::Fail { kind, at: at + k },
        }
    }
}

/// The result of an executable recognizer on an input.
pub type ParseResult<'a, T> = Result<(&'a [char], T), ParseFailure<'a>>;

/// `r` is what a recognizer returns on `input` exactly if the grammar says `p`:
/// on success the value's view is the grammar's value and the remainder is
/// the input without the characters used; on failure the kind is the
/// grammar's and the failure holds the input from the offset of the failure.
pub open spec fn agrees<'a, T: View>(input: Seq<char>, r: ParseResult<'a, T>, p: Parsed<T::V>) -> bool {
    match r {
        Ok((rest, value)) => p matches Parsed::Done { used, value: v } && 0 <= used <= input.len()
            && rest@ =~= input.skip(used) && value@ =~~= v,
        Err(e) => p matches Parsed::Fail { kind, at } && 0 <= at <= input.len() && e.kind == kind
            && e.rest@ =~= input.skip(at),
    }
}

/// Round trip: the characters that a recognizer used and the remainder that
/// it returned make up its input, with nothing dropped and nothing twice;
/// and so do the characters before a failure and the span that it holds.
/// This is stated of every result that agrees with a grammar, which is what
/// every recognizer of this library ensures.
pub proof fn lemma_round_trip<'a, T: View>(input: Seq<char>, r: ParseResult<'a, T>, p: Parsed<T::V>)
    requires
        agrees(input, r, p),
    ensures
        match r {
            Ok((rest, _)) => input.take(p->used) + rest@ == input,
            Err(e) => input.take(p->at) + e.rest@ == input,
        },
{
    match r {
        Ok((rest, _)) => {
            assert(input.take(p->used) + rest@ =~= input);
        },
        Err(e) => {
            assert(input.take(p->at) + e.rest@ =~= input);
        },
    }
}

} // verus!
