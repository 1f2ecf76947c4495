//! Comments, and the insignificant spans made of comments and white space.

use vstd::prelude::*;
use crate::failure::{agrees, FailureKind, ParseFailure, ParseResult, Parsed};
use crate::scan::{
    lemma_run_len_is_run, run_len, scan_run, skip_front, starts_with, take_front, CharClass,
};
use vstd::slice::slice_subrange;

verus! {

/// A comment, without its delimiters.
#[derive(Debug, Clone, Copy, PartialEq, Eq)]
pub enum Comment<'a> {
    /// `//` up to the end of the line.
    Line(&'a [char]),
    /// `/*` up to the next `*/`.
    Block(&'a [char]),
}

/// The mathematical value of a [`Comment`].
pub ghost enum CommentView {
    Line(Seq<char>),
    Block(Seq<char>),
}

impl CommentView {
    /// The text of the comment.
    pub open spec fn text(self) -> Seq<char> {
        match self {
            CommentView::Line(t) => t,
            CommentView::Block(t) => t,
        }
    }
}

impl<'a> View for Comment<'a> {
    type V = CommentView;

    open spec fn view(&self) -> CommentView {
        match self {
            Comment::Line(t) => CommentView::Line(t@),
            Comment::Block(t) => CommentView::Block(t@),
        }
    }
}

impl<'a> Comment<'a> {
    /// The text of the comment.
    pub fn text(&self) -> (t: &'a [char])
        ensures
            t@ == self@.text(),
    {
        match self {
            Comment::Line(t) => t,
            Comment::Block(t) => t,
        }
    }
}

/// The least offset from `i` on at which `lit` stands in `s`.
pub open spec fn find(s: Seq<char>, lit: Seq<char>, i: int) -> Option<int>
    decreases s.len() - i,
{
    if i < 0 || i + lit.len() > s.len() {
        None
    } else if lit.is_prefix_of(s.skip(i)) {
        Some(i)
    } else {
        find(s, lit, i + 1)
    }
}

/// Where `find` gives an offset, `lit` stands there and nowhere between `i` and it.
pub proof fn lemma_find_first(s: Seq<char>, lit: Seq<char>, i: int)
    requires
        0 <= i,
    ensures
        match find(s, lit, i) {
            Some(j) => i <= j && j + lit.len() <= s.len() && lit.is_prefix_of(s.skip(j))
                && forall|k: int| i <= k < j ==> !lit.is_prefix_of(#[trigger] s.skip(k)),
            None => forall|k: int| i <= k && k + lit.len() <= s.len() ==> !lit.is_prefix_of(#[trigger] s.skip(k)),
        },
    decreases s.len() - i,
{
    if i + lit.len() <= s.len() && !lit.is_prefix_of(s.skip(i)) {
        lemma_find_first(s, lit, i + 1);
    }
}

/// A comment at the front of the input: `//` and the rest of the line, or
/// `/*`, any text, and the first `*/` after it.
pub open spec fn spec_line_comment(s: Seq<char>) -> Parsed<CommentView> {
    if s.len() == 0 || s[0] != '/' {
        Parsed::Fail { kind: FailureKind::StructuralMismatch, at: 0 }
    } else if s.len() >= 2 && s[1] == '/' {
        let n = run_len(s.skip(2), CharClass::Except('\n'));
        Parsed::Done { used: 2 + n, value: CommentView::Line(s.subrange(2, 2 + n)) }
    } else if s.len() < 2 || s[1] != '*' {
        Parsed::Fail { kind: FailureKind::StructuralMismatch, at: 1 }
    } else {
        match find(s, seq!['*', '/'], 2) {
            Some(j) => Parsed::Done { used: j + 2, value: CommentView::Block(s.subrange(2, j)) },
            None => Parsed::Fail { kind: FailureKind::UnterminatedDelimiter, at: 2 },
        }
    }
}

/// One insignificant item: a run of spaces, tabs and line ends, or a comment.
/// The value is the run, or the text of the comment.
pub open spec fn spec_comment_or_whitespace(s: Seq<char>) -> Parsed<Seq<char>> {
    let n = run_len(s, CharClass::Space);
    if n > 0 {
        Parsed::Done { used: n, value: s.take(n) }
    } else {
        match spec_line_comment(s) {
            Parsed::Done { used, value } => Parsed::Done { used, value: value.text() },
            Parsed::Fail { kind, at } => Parsed::Fail { kind, at },
        }
    }
}

/// The number of insignificant items at the front of `s`.
pub open spec fn insignificant_count(s: Seq<char>) -> int
    decreases s.len(),
{
    match spec_comment_or_whitespace(s) {
        Parsed::Done { used, .. } => if 0 < used <= s.len() {
            1 + insignificant_count(s.skip(used))
        } else {
            0
        },
        Parsed::Fail { .. } => 0,
    }
}

/// The number of characters that the insignificant items at the front of `s` take up.
pub open spec fn insignificant_len(s: Seq<char>) -> int
    decreases s.len(),
{
    match spec_comment_or_whitespace(s) {
        Parsed::Done { used, .. } => if 0 < used <= s.len() {
            used + insignificant_len(s.skip(used))
        } else {
            0
        },
        Parsed::Fail { .. } => 0,
    }
}

/// Zero or more insignificant items; the value is their number.
pub open spec fn spec_many0_insignificant(s: Seq<char>) -> Parsed<usize> {
    Parsed::Done { used: insignificant_len(s), value: insignificant_count(s) as usize }
}

/// One or more insignificant items; the value is their number.
pub open spec fn spec_many1_insignificant(s: Seq<char>) -> Parsed<usize> {
    if insignificant_count(s) == 0 {
        Parsed::Fail { kind: FailureKind::EmptyRequiredSpan, at: 0 }
    } else {
        Parsed::Done { used: insignificant_len(s), value: insignificant_count(s) as usize }
    }
}

/// An insignificant item is never empty and never longer than the input.
pub proof fn lemma_item_bounds(s: Seq<char>)
    ensures
        spec_comment_or_whitespace(s) matches Parsed::Done { used, .. } ==> 0 < used <= s.len(),
{
    lemma_run_len_is_run(s, CharClass::Space);
    if s.len() >= 2 {
        lemma_run_len_is_run(s.skip(2), CharClass::Except('\n'));
        lemma_find_first(s, seq!['*', '/'], 2);
    }
}

/// The insignificant items take up no more than the input, and at least
/// one character each.
pub proof fn lemma_insignificant_bounds(s: Seq<char>)
    ensures
        0 <= insignificant_count(s) <= insignificant_len(s) <= s.len(),
    decreases s.len(),
{
    lemma_item_bounds(s);
    match spec_comment_or_whitespace(s) {
        Parsed::Done { used, .. } => {
            lemma_insignificant_bounds(s.skip(used));
        },
        Parsed::Fail { .. } => {},
    }
}

/// Finds the first place from `from` on at which `lit` stands in the input.
pub fn find_literal(input: &[char], lit: &str, from: usize) -> (r: Option<usize>)
    ensures
        match r {
            Some(j) => find(input@, lit@, from as int) == Some(j as int),
            None => find(input@, lit@, from as int) is None,
        },
{
    if from > input.len() {
        return None;
    }
    let mut i: usize = from;
    loop
        invariant
            from <= i <= input.len(),
            find(input@, lit@, from as int) == find(input@, lit@, i as int),
        decreases input.len() - i,
    {
        if starts_with(skip_front(input, i), lit) {
            return Some(i);
        }
        if i == input.len() {
            assert(find(input@, lit@, i as int + 1) is None);
            return None;
        }
        i += 1;
    }
}

/// Recognizes a line comment or a block comment.
pub fn parse_line_comment<'a>(input: &'a [char]) -> (r: ParseResult<'a, Comment<'a>>)
    ensures
        agrees(input@, r, spec_line_comment(input@)),
{
    if input.len() == 0 || input[0] != '/' {
        return Err(ParseFailure { kind: FailureKind::StructuralMismatch, rest: input });
    }
    if input.len() >= 2 && input[1] == '/' {
        let n = scan_run(skip_front(input, 2), CharClass::Except('\n'));
        proof {
            lemma_run_len_is_run(input@.skip(2), CharClass::Except('\n'));
        }
        return Ok((skip_front(input, n + 2), Comment::Line(slice_subrange(input, 2, n + 2))));
    }
    if input.len() < 2 || input[1] != '*' {
        return Err(
            ParseFailure { kind: FailureKind::StructuralMismatch, rest: skip_front(input, 1) },
        );
    }
    proof {
        reveal_strlit("*/");
        assert("*/"@ =~= seq!['*', '/']);
        lemma_find_first(input@, "*/"@, 2);
    }
    match find_literal(input, "*/", 2) {
        Some(j) => Ok((skip_front(input, j + 2), Comment::Block(slice_subrange(input, 2, j)))),
        None => Err(
            ParseFailure { kind: FailureKind::UnterminatedDelimiter, rest: skip_front(input, 2) },
        ),
    }
}

/// Recognizes one insignificant item.
pub fn comment_or_whitespace<'a>(input: &'a [char]) -> (r: ParseResult<'a, &'a [char]>)
    ensures
        agrees(input@, r, spec_comment_or_whitespace(input@)),
{
    let n = scan_run(input, CharClass::Space);
    proof {
        lemma_run_len_is_run(input@, CharClass::Space);
    }
    if n > 0 {
        return Ok((skip_front(input, n), take_front(input, n)));
    }
    match parse_line_comment(input) {
        Ok((rest, comment)) => Ok((rest, comment.text())),
        Err(e) => Err(e),
    }
}

/// Skips zero or more insignificant items and counts them.
pub fn empty_comments_and_whitespace<'a>(input: &'a [char]) -> (r: (&'a [char], usize))
    ensures
        agrees::<usize>(input@, Ok(r), spec_many0_insignificant(input@)),
{
    let total = input.len();
    let mut rest = input;
    let mut count: usize = 0;
    let ghost mut used: int = 0;
    proof {
        lemma_insignificant_bounds(input@);
    }
    loop
        invariant
            0 <= used <= input@.len(),
            rest@ == input@.skip(used),
            insignificant_count(input@) == count + insignificant_count(rest@),
            insignificant_len(input@) == used + insignificant_len(rest@),
            insignificant_count(input@) <= total,
        ensures
            0 <= used <= input@.len(),
            rest@ == input@.skip(used),
            insignificant_count(input@) == count,
            insignificant_len(input@) == used,
        decreases rest@.len(),
    {
        proof {
            lemma_item_bounds(rest@);
            lemma_insignificant_bounds(rest@);
        }
        match comment_or_whitespace(rest) {
            Ok((next, _)) => {
                proof {
                    let step = spec_comment_or_whitespace(rest@)->used;
                    lemma_insignificant_bounds(next@);
                    assert(next@ =~= input@.skip(used + step));
                    used = used + step;
                }
                rest = next;
                count += 1;
            },
            Err(_) => {
                break ;
            },
        }
    }
    (rest, count)
}

/// Skips one or more insignificant items and counts them.
pub fn many1_comments_or_whitespace<'a>(input: &'a [char]) -> (r: ParseResult<'a, usize>)
    ensures
        agrees(input@, r, spec_many1_insignificant(input@)),
{
    let total = input.len();
    let (rest, count) = empty_comments_and_whitespace(input);
    proof {
        lemma_insignificant_bounds(input@);
    }
    if count == 0 {
        Err(ParseFailure { kind: FailureKind::EmptyRequiredSpan, rest: input })
    } else {
        Ok((rest, count))
    }
}

/// The end of the insignificant span that starts at `pos`, and the number
/// of its items.
pub fn insignificant_from(input: &[char], pos: usize) -> (r: (usize, usize))
    requires
        pos <= input.len(),
    ensures
        r.0 == pos + insignificant_len(input@.skip(pos as int)),
        r.1 == insignificant_count(input@.skip(pos as int)),
        pos <= r.0 <= input.len(),
{
    let tail = skip_front(input, pos);
    let (rest, count) = empty_comments_and_whitespace(tail);
    proof {
        lemma_insignificant_bounds(tail@);
    }
    (input.len() - rest.len(), count)
}

} // verus!
