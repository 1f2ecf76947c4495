//! Call sequences: a block in braces that sets up and makes one call, with
//! the comment that numbers it.

use vstd::prelude::*;
use crate::comment::{
    find, find_literal, lemma_find_first, parse_line_comment, spec_line_comment, Comment,
    CommentView,
};
use crate::failure::{agrees, FailureKind, ParseResult, Parsed};
use crate::lexical::{lemma_closing_brace_bounds, parse_braced_balanced, spec_braced_balanced};
use crate::scan::{
    at_offset, fail_at, literal_from, run_from, run_len, skip_front, take_front, CharClass,
};
use vstd::slice::slice_subrange;

verus! {

/// A call sequence taken apart: what stands before `call.uni`, the name of
/// the function that is called, what follows the comma after the name, and
/// the comment behind the block.
#[derive(Debug, Clone, Copy, PartialEq, Eq)]
pub struct FunctionCall<'a> {
    pub setup: &'a [char],
    pub function: &'a [char],
    pub arguments: &'a [char],
    pub comment: Comment<'a>,
}

/// The mathematical value of a [`FunctionCall`].
pub ghost struct FunctionCallView {
    pub setup: Seq<char>,
    pub function: Seq<char>,
    pub arguments: Seq<char>,
    pub comment: CommentView,
}

impl<'a> View for FunctionCall<'a> {
    type V = FunctionCallView;

    open spec fn view(&self) -> FunctionCallView {
        FunctionCallView {
            setup: self.setup@,
            function: self.function@,
            arguments: self.arguments@,
            comment: self.comment@,
        }
    }
}

/// The content of a call sequence up to the arguments: text that is not
/// empty, the first `call.uni` after it, white space, the name of the
/// function, which runs up to a comma, and the comma. The value is the text
/// before `call.uni` and the name.
pub open spec fn spec_call_head(s: Seq<char>) -> Parsed<(Seq<char>, Seq<char>)> {
    match find(s, "call.uni"@, 0) {
        None => Parsed::Fail { kind: FailureKind::StructuralMismatch, at: 0 },
        Some(a) => {
            let b = a + "call.uni"@.len();
            let c = b + run_len(s.skip(b), CharClass::Space);
            let d = c + run_len(s.skip(c), CharClass::Except(','));
            if a == 0 {
                Parsed::Fail { kind: FailureKind::EmptyRequiredSpan, at: 0 }
            } else if c == b {
                Parsed::Fail { kind: FailureKind::EmptyRequiredSpan, at: b }
            } else if d == c {
                Parsed::Fail { kind: FailureKind::EmptyRequiredSpan, at: c }
            } else if d >= s.len() {
                Parsed::Fail { kind: FailureKind::UnterminatedDelimiter, at: d }
            } else {
                Parsed::Done { used: d + 1, value: (s.take(a), s.subrange(c, d)) }
            }
        },
    }
}

/// The comment is a line comment whose text begins, after optional blanks,
/// with `callseq`.
pub open spec fn numbers_a_call(comment: CommentView) -> bool {
    comment matches CommentView::Line(t) && "callseq"@.is_prefix_of(
        t.skip(run_len(t, CharClass::Blank)),
    )
}

/// A call sequence: a block in balanced braces, optional blanks, and a line
/// comment that begins with `callseq`; the content of the block is taken
/// apart at its `call.uni`.
pub open spec fn spec_function_call(s: Seq<char>) -> Parsed<FunctionCallView> {
    match spec_braced_balanced(s) {
        Parsed::Fail { kind, at } => Parsed::Fail { kind, at },
        Parsed::Done { used: a, value: content } => {
            let b = a + run_len(s.skip(a), CharClass::Blank);
            match spec_line_comment(s.skip(b)) {
                Parsed::Fail { kind, at } => Parsed::Fail { kind, at: b + at },
                Parsed::Done { used, value: comment } => if !numbers_a_call(comment) {
                    Parsed::Fail { kind: FailureKind::StructuralMismatch, at: b }
                } else {
                    match spec_call_head(content) {
                        Parsed::Fail { kind, at } => Parsed::Fail { kind, at: 1 + at },
                        Parsed::Done { used: head, value } => Parsed::Done {
                            used: b + used,
                            value: FunctionCallView {
                                setup: value.0,
                                function: value.1,
                                arguments: content.skip(head),
                                comment,
                            },
                        },
                    }
                },
            }
        },
    }
}

/// Recognizes the content of a call sequence up to its arguments, which
/// are what is left.
pub fn parse_call_head<'a>(input: &'a [char]) -> (r: ParseResult<'a, (&'a [char], &'a [char])>)
    ensures
        agrees(input@, r, spec_call_head(input@)),
{
    let a = match find_literal(input, "call.uni", 0) {
        Some(a) => a,
        None => {
            return fail_at(input, 0, FailureKind::StructuralMismatch);
        },
    };
    proof {
        lemma_find_first(input@, "call.uni"@, 0);
    }
    if a == 0 {
        return fail_at(input, 0, FailureKind::EmptyRequiredSpan);
    }
    let b = a + "call.uni".unicode_len();
    let c = run_from(input, b, CharClass::Space);
    if c == b {
        return fail_at(input, b, FailureKind::EmptyRequiredSpan);
    }
    let d = run_from(input, c, CharClass::Except(','));
    if d == c {
        return fail_at(input, c, FailureKind::EmptyRequiredSpan);
    }
    if d >= input.len() {
        return fail_at(input, d, FailureKind::UnterminatedDelimiter);
    }
    Ok((skip_front(input, d + 1), (take_front(input, a), slice_subrange(input, c, d))))
}

/// Whether the comment is a line comment that begins with `callseq`.
pub fn is_call_number(comment: &Comment) -> (r: bool)
    ensures
        r == numbers_a_call(comment@),
{
    match comment {
        Comment::Line(t) => {
            assert(t@.skip(0) =~= t@);
            let k = run_from(t, 0, CharClass::Blank);
            literal_from(t, k, "callseq").is_some()
        },
        Comment::Block(_) => false,
    }
}

/// Recognizes a call sequence and takes it apart.
pub fn parse_function_call<'a>(input: &'a [char]) -> (r: ParseResult<'a, FunctionCall<'a>>)
    ensures
        agrees(input@, r, spec_function_call(input@)),
{
    let (rest, content) = parse_braced_balanced(input)?;
    let a = input.len() - rest.len();
    let b = run_from(input, a, CharClass::Blank);
    let (end, comment) = at_offset(
        input,
        b,
        parse_line_comment(skip_front(input, b)),
        Ghost(spec_line_comment(input@.skip(b as int))),
    )?;
    if !is_call_number(&comment) {
        return fail_at(input, b, FailureKind::StructuralMismatch);
    }
    proof {
        lemma_closing_brace_bounds(input@, 1, 1);
    }
    match parse_call_head(content) {
        Ok((arguments, (setup, function))) => Ok(
            (skip_front(input, end), FunctionCall { setup, function, arguments, comment }),
        ),
        Err(e) => {
            let at = content.len() - e.rest.len();
            fail_at(input, 1 + at, e.kind)
        },
    }
}

} // verus!
