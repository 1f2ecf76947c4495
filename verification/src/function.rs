//! Functions: the signature, and the body as raw text that is read on demand.

use vstd::prelude::*;
use crate::body::{BodyLine, BodyLineView};
use crate::comment::{
    insignificant_count, insignificant_from, insignificant_len, lemma_insignificant_bounds,
};
use crate::cursor::{Cursor, CursorView};
use crate::failure::{agrees, FailureKind, ParseResult, Parsed};
use crate::lexical::{
    parse_braced_balanced, parse_delimited, spec_braced_balanced, spec_delimited,
};
use crate::line::{parse_body_line, spec_body_line};
use crate::scan::{
    fail_at, lemma_run_len_is_run, literal_from, run_from, run_len, skip_front, CharClass,
};
use vstd::slice::slice_subrange;

verus! {

/// The descriptor of the value that a function returns, as raw text.
#[derive(Debug, Clone, Copy, PartialEq, Eq)]
pub struct ReturnValue<'a> {
    pub raw_string: &'a [char],
}

/// The parameter list of a function, as raw text.
#[derive(Debug, Clone, Copy, PartialEq, Eq)]
pub struct Parameters<'a> {
    pub raw_string: &'a [char],
}

/// The signature of a function.
#[derive(Debug, Clone, Copy, PartialEq, Eq)]
pub struct FunctionSignature<'a> {
    pub visible: bool,
    pub entry: bool,
    pub return_value: Option<ReturnValue<'a>>,
    pub name: &'a [char],
    pub parameters: Option<Parameters<'a>>,
}

/// The body of a function: a cursor over the text between its braces,
/// which yields the lines of the body one by one.
#[derive(Debug, Clone, Copy, PartialEq, Eq)]
pub struct FunctionBody<'a> {
    pub cursor: Cursor<'a>,
}

/// A function: its signature, and its body where it is defined.
#[derive(Debug, Clone, Copy, PartialEq, Eq)]
pub struct Function<'a> {
    pub signature: FunctionSignature<'a>,
    pub body: Option<FunctionBody<'a>>,
}

/// The mathematical value of a [`FunctionSignature`].
pub ghost struct SignatureView {
    pub visible: bool,
    pub entry: bool,
    pub return_value: Option<Seq<char>>,
    pub name: Seq<char>,
    pub parameters: Option<Seq<char>>,
}

/// The mathematical value of a [`Function`].
pub ghost struct FunctionView {
    pub signature: SignatureView,
    pub body: Option<CursorView>,
}

impl<'a> View for ReturnValue<'a> {
    type V = Seq<char>;

    open spec fn view(&self) -> Seq<char> {
        self.raw_string@
    }
}

impl<'a> View for Parameters<'a> {
    type V = Seq<char>;

    open spec fn view(&self) -> Seq<char> {
        self.raw_string@
    }
}

impl<'a> View for FunctionSignature<'a> {
    type V = SignatureView;

    open spec fn view(&self) -> SignatureView {
        SignatureView {
            visible: self.visible,
            entry: self.entry,
            return_value: match self.return_value {
                Some(v) => Some(v@),
                None => None,
            },
            name: self.name@,
            parameters: match self.parameters {
                Some(p) => Some(p@),
                None => None,
            },
        }
    }
}

impl<'a> View for FunctionBody<'a> {
    type V = CursorView;

    open spec fn view(&self) -> CursorView {
        self.cursor@
    }
}

impl<'a> View for Function<'a> {
    type V = FunctionView;

    open spec fn view(&self) -> FunctionView {
        FunctionView {
            signature: self.signature@,
            body: match self.body {
                Some(b) => Some(b@),
                None => None,
            },
        }
    }
}

/// The flags of a signature: `.visible`, blanks and `.entry` set both;
/// `.func` sets neither.
pub open spec fn spec_flags(s: Seq<char>) -> Parsed<(bool, bool)> {
    let a = ".visible"@.len() as int;
    let b = a + run_len(s.skip(a), CharClass::Blank);
    if ".visible"@.is_prefix_of(s) && b > a && ".entry"@.is_prefix_of(s.skip(b)) {
        Parsed::Done { used: b + ".entry"@.len(), value: (true, true) }
    } else if ".func"@.is_prefix_of(s) {
        Parsed::Done { used: ".func"@.len() as int, value: (false, false) }
    } else {
        Parsed::Fail { kind: FailureKind::StructuralMismatch, at: 0 }
    }
}

/// The number of characters that a parenthesized span at the front of `s`
/// takes up, and zero where there is none.
pub open spec fn optional_parenthesized_len(s: Seq<char>) -> int {
    match spec_delimited(s, '(', ')') {
        Parsed::Done { used, .. } => used,
        Parsed::Fail { .. } => 0,
    }
}

/// What stands between the parentheses at the front of `s`, if a
/// parenthesized span stands there.
pub open spec fn optional_parenthesized(s: Seq<char>) -> Option<Seq<char>> {
    match spec_delimited(s, '(', ')') {
        Parsed::Done { value, .. } => Some(value),
        Parsed::Fail { .. } => None,
    }
}

/// A signature: the flags, an insignificant span that must not be empty,
/// optionally the parenthesized descriptor of the return value, optional
/// blanks, the name, an optional insignificant span, and optionally the
/// parenthesized parameter list. Where no parameter list follows, the
/// insignificant span behind the name still belongs to the signature.
pub open spec fn spec_function_signature(s: Seq<char>) -> Parsed<SignatureView> {
    match spec_flags(s) {
        Parsed::Fail { kind, at } => Parsed::Fail { kind, at },
        Parsed::Done { used: a, value: flags } => {
            let b = a + insignificant_len(s.skip(a));
            let c = b + optional_parenthesized_len(s.skip(b));
            let d = c + run_len(s.skip(c), CharClass::Blank);
            let e = d + run_len(s.skip(d), CharClass::Name);
            let f = e + insignificant_len(s.skip(e));
            let g = f + optional_parenthesized_len(s.skip(f));
            if insignificant_count(s.skip(a)) == 0 {
                Parsed::Fail { kind: FailureKind::EmptyRequiredSpan, at: a }
            } else if e == d {
                Parsed::Fail { kind: FailureKind::EmptyRequiredSpan, at: d }
            } else {
                Parsed::Done {
                    used: g,
                    value: SignatureView {
                        visible: flags.0,
                        entry: flags.1,
                        return_value: optional_parenthesized(s.skip(b)),
                        name: s.subrange(d, e),
                        parameters: optional_parenthesized(s.skip(f)),
                    },
                }
            }
        },
    }
}

/// A body: a block in balanced braces, as a cursor at the start of its text.
pub open spec fn spec_function_body(s: Seq<char>) -> Parsed<CursorView> {
    match spec_braced_balanced(s) {
        Parsed::Done { used, value } => Parsed::Done { used, value: CursorView::Active(value) },
        Parsed::Fail { kind, at } => Parsed::Fail { kind, at },
    }
}

/// A function: a signature and then either a semicolon at once, which
/// declares the function, or, after an optional insignificant span, a body,
/// which defines it.
pub open spec fn spec_function(s: Seq<char>) -> Parsed<FunctionView> {
    match spec_function_signature(s) {
        Parsed::Fail { kind, at } => Parsed::Fail { kind, at },
        Parsed::Done { used: a, value: signature } => {
            let b = a + insignificant_len(s.skip(a));
            if a < s.len() && s[a] == ';' {
                Parsed::Done { used: a + 1, value: FunctionView { signature, body: None } }
            } else {
                match spec_function_body(s.skip(b)) {
                    Parsed::Done { used, value } => Parsed::Done {
                        used: b + used,
                        value: FunctionView { signature, body: Some(value) },
                    },
                    Parsed::Fail { kind, at } => Parsed::Fail { kind, at: b + at },
                }
            }
        },
    }
}

/// A signature ends within the text and after its flags.
pub proof fn lemma_signature_bounds(s: Seq<char>)
    ensures
        spec_function_signature(s) matches Parsed::Done { used, .. } ==> spec_flags(s) is Done
            && 0 <= spec_flags(s)->used <= used <= s.len(),
{
    if let Parsed::Done { used: a, .. } = spec_flags(s) {
        let v = ".visible"@.len() as int;
        lemma_run_len_is_run(s.skip(v), CharClass::Blank);
        lemma_insignificant_bounds(s.skip(a));
        let b = a + insignificant_len(s.skip(a));
        lemma_optional_parenthesized_bounds(s.skip(b));
        let c = b + optional_parenthesized_len(s.skip(b));
        lemma_run_len_is_run(s.skip(c), CharClass::Blank);
        let d = c + run_len(s.skip(c), CharClass::Blank);
        lemma_run_len_is_run(s.skip(d), CharClass::Name);
        let e = d + run_len(s.skip(d), CharClass::Name);
        lemma_insignificant_bounds(s.skip(e));
        let f = e + insignificant_len(s.skip(e));
        lemma_optional_parenthesized_bounds(s.skip(f));
    }
}

/// A function ends within the text.
pub proof fn lemma_function_bounds(s: Seq<char>)
    ensures
        spec_function(s) matches Parsed::Done { used, .. } ==> 0 <= used <= s.len(),
{
    lemma_signature_bounds(s);
    if let Parsed::Done { used: a, .. } = spec_function_signature(s) {
        lemma_insignificant_bounds(s.skip(a));
        let b = a + insignificant_len(s.skip(a));
        crate::lexical::lemma_closing_brace_bounds(s.skip(b), 1, 1);
    }
}

/// An optional parenthesized span ends within the text.
pub proof fn lemma_optional_parenthesized_bounds(s: Seq<char>)
    ensures
        0 <= optional_parenthesized_len(s) <= s.len(),
{
    lemma_run_len_is_run(s.skip(1), CharClass::Except(')'));
}

/// The next line of a body whose unread text is `c`: an optional
/// insignificant span and one line.
pub open spec fn spec_next_line(c: Seq<char>) -> Parsed<BodyLineView> {
    spec_body_line(c.skip(insignificant_len(c))).shift(insignificant_len(c))
}

/// Where the cursor of a body stands after a step on the unread text `c`:
/// behind the line that was recognized, or at the failure.
pub open spec fn after_line(c: Seq<char>) -> CursorView {
    match spec_next_line(c) {
        Parsed::Done { used, .. } => CursorView::Active(c.skip(used)),
        Parsed::Fail { kind, at } => CursorView::Failed { kind, rest: c.skip(at) },
    }
}

/// The end of the parenthesized span that starts at `pos` and what stands
/// between its parentheses, where there is such a span.
pub fn parenthesized_from<'a>(input: &'a [char], pos: usize) -> (r: (usize, Option<&'a [char]>))
    requires
        pos <= input.len(),
    ensures
        r.0 == pos + optional_parenthesized_len(input@.skip(pos as int)),
        pos <= r.0 <= input.len(),
        match r.1 {
            Some(inner) => optional_parenthesized(input@.skip(pos as int)) == Some(inner@),
            None => optional_parenthesized(input@.skip(pos as int)) is None,
        },
{
    match parse_delimited(skip_front(input, pos), '(', ')') {
        Ok((rest, inner)) => (input.len() - rest.len(), Some(inner)),
        Err(_) => (pos, None),
    }
}

/// Recognizes the flags of a signature.
pub fn parse_flags<'a>(input: &'a [char]) -> (r: ParseResult<'a, (bool, bool)>)
    ensures
        agrees(input@, r, spec_flags(input@)),
{
    if let Some(a) = literal_from(input, 0, ".visible") {
        let b = run_from(input, a, CharClass::Blank);
        if b > a {
            if let Some(c) = literal_from(input, b, ".entry") {
                return Ok((skip_front(input, c), (true, true)));
            }
        }
    }
    match literal_from(input, 0, ".func") {
        Some(a) => Ok((skip_front(input, a), (false, false))),
        None => fail_at(input, 0, FailureKind::StructuralMismatch),
    }
}

/// Recognizes the signature of a function.
pub fn parse_function_signature<'a>(input: &'a [char]) -> (r: ParseResult<
    'a,
    FunctionSignature<'a>,
>)
    ensures
        agrees(input@, r, spec_function_signature(input@)),
{
    let (rest, flags) = parse_flags(input)?;
    let a = input.len() - rest.len();
    let (b, count) = insignificant_from(input, a);
    if count == 0 {
        return fail_at(input, a, FailureKind::EmptyRequiredSpan);
    }
    let (c, return_value) = parenthesized_from(input, b);
    let d = run_from(input, c, CharClass::Blank);
    let e = run_from(input, d, CharClass::Name);
    if e == d {
        return fail_at(input, d, FailureKind::EmptyRequiredSpan);
    }
    let (f, _) = insignificant_from(input, e);
    let (g, parameters) = parenthesized_from(input, f);
    let signature = FunctionSignature {
        visible: flags.0,
        entry: flags.1,
        return_value: match return_value {
            Some(raw_string) => Some(ReturnValue { raw_string }),
            None => None,
        },
        name: slice_subrange(input, d, e),
        parameters: match parameters {
            Some(raw_string) => Some(Parameters { raw_string }),
            None => None,
        },
    };
    Ok((skip_front(input, g), signature))
}

/// Recognizes the body of a function.
pub fn parse_function_body<'a>(input: &'a [char]) -> (r: ParseResult<'a, FunctionBody<'a>>)
    ensures
        agrees(input@, r, spec_function_body(input@)),
{
    let (rest, text) = parse_braced_balanced(input)?;
    Ok((rest, FunctionBody { cursor: Cursor::Active(text) }))
}

impl<'a> FunctionBody<'a> {
    /// Yields the next line of the body. A cursor on unread text skips an
    /// optional insignificant span and recognizes one line: on success it
    /// moves behind the line and yields it with the text that is left; on
    /// failure it yields the failure, keeps it, and from then on yields
    /// nothing. A body whose text is used up fails in this way at its end.
    pub fn next(&mut self) -> (r: Option<ParseResult<'a, BodyLine<'a>>>)
        ensures
            match old(self)@ {
                CursorView::Active(c) => r matches Some(step) && agrees(c, step, spec_next_line(c))
                    && final(self)@ == after_line(c),
                _ => r is None && final(self)@ == old(self)@,
            },
    {
        let text = match self.cursor {
            Cursor::Active(text) => text,
            _ => {
                return None;
            },
        };
        assert(text@.skip(0) =~= text@);
        let (start, _) = insignificant_from(text, 0);
        match parse_body_line(skip_front(text, start)) {
            Ok((rest, line)) => {
                let end = text.len() - rest.len();
                let rest = skip_front(text, end);
                self.cursor = Cursor::Active(rest);
                Some(Ok((rest, line)))
            },
            Err(e) => {
                proof {
                    let at = spec_body_line(text@.skip(start as int))->at;
                    vstd::seq_lib::lemma_seq_skip_of_skip(text@, start as int, at);
                }
                self.cursor = Cursor::Failed(e);
                Some(Err(e))
            },
        }
    }
}

/// Recognizes a function, declared or defined.
pub fn parse_function<'a>(input: &'a [char]) -> (r: ParseResult<'a, Function<'a>>)
    ensures
        agrees(input@, r, spec_function(input@)),
{
    let (rest, signature) = parse_function_signature(input)?;
    let a = input.len() - rest.len();
    if a < input.len() && input[a] == ';' {
        return Ok((skip_front(input, a + 1), Function { signature, body: None }));
    }
    let (b, _) = insignificant_from(input, a);
    match parse_function_body(skip_front(input, b)) {
        Ok((rest, body)) => {
            let end = input.len() - rest.len();
            Ok((skip_front(input, end), Function { signature, body: Some(body) }))
        },
        Err(e) => {
            proof {
                let at = spec_function_body(input@.skip(b as int))->at;
                vstd::seq_lib::lemma_seq_skip_of_skip(input@, b as int, at);
            }
            Err(e)
        },
    }
}

} // verus!
