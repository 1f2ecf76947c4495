//! Lexical primitives: names, parenthesized and braced spans.

use vstd::prelude::*;
use crate::failure::{agrees, FailureKind, ParseFailure, ParseResult, Parsed};
use crate::scan::{
    lemma_run_len_is_run, run_len, scan_run, skip_front, spec_take_while1, take_while1, CharClass,
};
use vstd::slice::slice_subrange;

verus! {

/// A name: one or more characters that are neither white space nor special.
pub open spec fn spec_name(s: Seq<char>) -> Parsed<Seq<char>> {
    spec_take_while1(s, CharClass::Name)
}

/// The character `open`, one or more characters other than `close`, and
/// `close`; the value is what stands between the two. Nothing is balanced:
/// the first `close` ends the span.
pub open spec fn spec_delimited(s: Seq<char>, open: char, close: char) -> Parsed<Seq<char>> {
    let n = run_len(s.skip(1), CharClass::Except(close));
    if s.len() == 0 || s[0] != open {
        Parsed::Fail { kind: FailureKind::StructuralMismatch, at: 0 }
    } else if n == 0 {
        Parsed::Fail { kind: FailureKind::EmptyRequiredSpan, at: 1 }
    } else if 1 + n >= s.len() {
        Parsed::Fail { kind: FailureKind::UnterminatedDelimiter, at: 1 + n }
    } else {
        Parsed::Done { used: n + 2, value: s.subrange(1, 1 + n) }
    }
}

/// The offset of the closing brace that brings the nesting depth to zero,
/// for a reader that stands at offset `i` inside `depth` open braces.
pub open spec fn closing_brace(s: Seq<char>, i: int, depth: int) -> Option<int>
    decreases s.len() - i,
{
    if i < 0 || i >= s.len() {
        None
    } else if s[i] == '{' {
        closing_brace(s, i + 1, depth + 1)
    } else if s[i] == '}' {
        if depth <= 1 {
            Some(i)
        } else {
            closing_brace(s, i + 1, depth - 1)
        }
    } else {
        closing_brace(s, i + 1, depth)
    }
}

/// A block in balanced braces; the value is what stands strictly between
/// the opening brace and the brace that closes it.
pub open spec fn spec_braced_balanced(s: Seq<char>) -> Parsed<Seq<char>> {
    if s.len() == 0 || s[0] != '{' {
        Parsed::Fail { kind: FailureKind::StructuralMismatch, at: 0 }
    } else {
        match closing_brace(s, 1, 1) {
            Some(end) => Parsed::Done { used: end + 1, value: s.subrange(1, end) },
            None => Parsed::Fail { kind: FailureKind::UnterminatedDelimiter, at: 0 },
        }
    }
}

/// The closing brace, where there is one, lies at or after the reader.
pub proof fn lemma_closing_brace_bounds(s: Seq<char>, i: int, depth: int)
    requires
        0 <= i,
    ensures
        closing_brace(s, i, depth) matches Some(end) ==> i <= end < s.len() && s[end] == '}',
    decreases s.len() - i,
{
    if i < s.len() {
        if s[i] == '{' {
            lemma_closing_brace_bounds(s, i + 1, depth + 1);
        } else if s[i] == '}' {
            if depth > 1 {
                lemma_closing_brace_bounds(s, i + 1, depth - 1);
            }
        } else {
            lemma_closing_brace_bounds(s, i + 1, depth);
        }
    }
}

/// Recognizes a name.
pub fn parse_name<'a>(input: &'a [char]) -> (r: ParseResult<'a, &'a [char]>)
    ensures
        agrees(input@, r, spec_name(input@)),
{
    take_while1(input, CharClass::Name)
}

/// Recognizes `open`, a non-empty span without `close`, and `close`.
pub fn parse_delimited<'a>(input: &'a [char], open: char, close: char) -> (r: ParseResult<
    'a,
    &'a [char],
>)
    ensures
        agrees(input@, r, spec_delimited(input@, open, close)),
{
    if input.len() == 0 || input[0] != open {
        return Err(ParseFailure { kind: FailureKind::StructuralMismatch, rest: input });
    }
    let inner = skip_front(input, 1);
    let n = scan_run(inner, CharClass::Except(close));
    proof {
        lemma_run_len_is_run(inner@, CharClass::Except(close));
    }
    if n == 0 {
        return Err(ParseFailure { kind: FailureKind::EmptyRequiredSpan, rest: inner });
    }
    if n == inner.len() {
        return Err(
            ParseFailure { kind: FailureKind::UnterminatedDelimiter, rest: skip_front(inner, n) },
        );
    }
    Ok((skip_front(input, n + 2), slice_subrange(input, 1, n + 1)))
}

/// Recognizes a span in parentheses. Nested parentheses are not balanced.
pub fn parse_parenthesized_naive<'a>(input: &'a [char]) -> (r: ParseResult<'a, &'a [char]>)
    ensures
        agrees(input@, r, spec_delimited(input@, '(', ')')),
{
    parse_delimited(input, '(', ')')
}

/// Recognizes a span in braces. Nested braces are not balanced.
pub fn _parse_braced_naive<'a>(input: &'a [char]) -> (r: ParseResult<'a, &'a [char]>)
    ensures
        agrees(input@, r, spec_delimited(input@, '{', '}')),
{
    parse_delimited(input, '{', '}')
}

/// Recognizes a block in balanced braces.
pub fn parse_braced_balanced<'a>(input: &'a [char]) -> (r: ParseResult<'a, &'a [char]>)
    ensures
        agrees(input@, r, spec_braced_balanced(input@)),
{
    if input.len() == 0 || input[0] != '{' {
        return Err(ParseFailure { kind: FailureKind::StructuralMismatch, rest: input });
    }
    let mut depth: usize = 1;
    let mut i: usize = 1;
    while i < input.len()
        invariant
            1 <= i <= input.len(),
            1 <= depth <= i,
            input@[0] == '{',
            closing_brace(input@, 1, 1) == closing_brace(input@, i as int, depth as int),
        decreases input.len() - i,
    {
        let c = input[i];
        if c == '{' {
            depth += 1;
        } else if c == '}' {
            if depth == 1 {
                assert(closing_brace(input@, i as int, depth as int) == Some(i as int));
                return Ok((skip_front(input, i + 1), slice_subrange(input, 1, i)));
            }
            depth -= 1;
        }
        i += 1;
    }
    Err(ParseFailure { kind: FailureKind::UnterminatedDelimiter, rest: input })
}

} // verus!
