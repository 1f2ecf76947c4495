//! The forms of a line in a function body.

use vstd::prelude::*;
use crate::body::{
    BodyLine, BodyLineView, Goto, GotoView, Operation, OperationView, Predicate, PredicateView,
    Register,
};
use crate::failure::{agrees, FailureKind, ParseFailure, ParseResult, Parsed};
use crate::mnemonic::{classify_mnemonic, kind_of, lemma_table_mnemonics, plain};
use crate::scan::{
    all_of, fail_at, lemma_run_len_whole, literal_from, run_from, run_len, skip_front,
    starts_with, take_front, CharClass,
};
use vstd::slice::slice_subrange;

verus! {

/// Everything that is left, where something is left.
pub open spec fn spec_unknown_line(s: Seq<char>) -> Parsed<Seq<char>> {
    if s.len() == 0 {
        Parsed::Fail { kind: FailureKind::EmptyRequiredSpan, at: 0 }
    } else {
        Parsed::Done { used: s.len() as int, value: s }
    }
}

/// `.reg`, one or more blanks, and everything after them, which is the value.
pub open spec fn spec_register(s: Seq<char>) -> Parsed<Seq<char>> {
    let a = ".reg"@.len() as int;
    let b = a + run_len(s.skip(a), CharClass::Blank);
    if !".reg"@.is_prefix_of(s) {
        Parsed::Fail { kind: FailureKind::StructuralMismatch, at: 0 }
    } else if b == a {
        Parsed::Fail { kind: FailureKind::EmptyRequiredSpan, at: a }
    } else if b >= s.len() {
        Parsed::Fail { kind: FailureKind::EmptyRequiredSpan, at: b }
    } else {
        Parsed::Done { used: s.len() as int, value: s.skip(b) }
    }
}

/// A mnemonic, one or more blanks, and the operands: everything after the
/// blanks. The mnemonic is looked up in the table.
pub open spec fn spec_operation(s: Seq<char>) -> Parsed<OperationView> {
    let m = run_len(s, CharClass::Mnemonic);
    let b = m + run_len(s.skip(m), CharClass::Blank);
    if m == 0 {
        Parsed::Fail { kind: FailureKind::EmptyRequiredSpan, at: 0 }
    } else if b == m {
        Parsed::Fail { kind: FailureKind::EmptyRequiredSpan, at: m }
    } else if b >= s.len() {
        Parsed::Fail { kind: FailureKind::EmptyRequiredSpan, at: b }
    } else {
        Parsed::Done {
            used: s.len() as int,
            value: OperationView { operation: kind_of(s.take(m)), arguments: s.skip(b) },
        }
    }
}

/// The guarded branch: `@`, an optional `!`, the guard register up to the
/// next white space, blanks, `bra`, blanks, `$`, and the label, which is
/// everything after the `$`. With `!` the guard is negated.
pub open spec fn spec_guarded_goto(s: Seq<char>) -> Parsed<GotoView> {
    let negated = s.len() > 1 && s[1] == '!';
    let a: int = if negated { 2 } else { 1 };
    let b = a + run_len(s.skip(a), CharClass::Visible);
    let c = b + run_len(s.skip(b), CharClass::Blank);
    let d = c + "bra"@.len();
    let e = d + run_len(s.skip(d), CharClass::Blank);
    if s.len() == 0 || s[0] != '@' {
        Parsed::Fail { kind: FailureKind::StructuralMismatch, at: 0 }
    } else if b == a {
        Parsed::Fail { kind: FailureKind::EmptyRequiredSpan, at: a }
    } else if c == b {
        Parsed::Fail { kind: FailureKind::EmptyRequiredSpan, at: b }
    } else if !"bra"@.is_prefix_of(s.skip(c)) {
        Parsed::Fail { kind: FailureKind::StructuralMismatch, at: c }
    } else if e == d {
        Parsed::Fail { kind: FailureKind::EmptyRequiredSpan, at: d }
    } else if e >= s.len() || s[e] != '$' {
        Parsed::Fail { kind: FailureKind::StructuralMismatch, at: e }
    } else {
        Parsed::Done {
            used: s.len() as int,
            value: GotoView {
                predicate: Some(
                    if negated {
                        PredicateView::False(s.subrange(a, b))
                    } else {
                        PredicateView::True(s.subrange(a, b))
                    },
                ),
                label: s.skip(e + 1),
            },
        }
    }
}

/// The unguarded branch: `bra.uni`, blanks, `$`, and the label, which is
/// everything after the `$`.
pub open spec fn spec_plain_goto(s: Seq<char>) -> Parsed<GotoView> {
    let a = "bra.uni"@.len() as int;
    let b = a + run_len(s.skip(a), CharClass::Blank);
    if !"bra.uni"@.is_prefix_of(s) {
        Parsed::Fail { kind: FailureKind::StructuralMismatch, at: 0 }
    } else if b == a {
        Parsed::Fail { kind: FailureKind::EmptyRequiredSpan, at: a }
    } else if b >= s.len() || s[b] != '$' {
        Parsed::Fail { kind: FailureKind::StructuralMismatch, at: b }
    } else {
        Parsed::Done {
            used: s.len() as int,
            value: GotoView { predicate: None, label: s.skip(b + 1) },
        }
    }
}

/// A branch: the guarded form, or else the unguarded one.
pub open spec fn spec_goto(s: Seq<char>) -> Parsed<GotoView> {
    if spec_guarded_goto(s) is Done {
        spec_guarded_goto(s)
    } else {
        spec_plain_goto(s)
    }
}

/// A marker of a call sequence: the brace, blanks, `//`, blanks, `callseq`,
/// blanks, and the rest of that text line, which must not be empty and is
/// the value.
pub open spec fn spec_call_marker(s: Seq<char>, brace: char) -> Parsed<Seq<char>> {
    let a = 1 + run_len(s.skip(1), CharClass::Blank);
    let b = a + "//"@.len();
    let c = b + run_len(s.skip(b), CharClass::Blank);
    let d = c + "callseq"@.len();
    let e = d + run_len(s.skip(d), CharClass::Blank);
    let f = e + run_len(s.skip(e), CharClass::Except('\n'));
    if s.len() == 0 || s[0] != brace {
        Parsed::Fail { kind: FailureKind::StructuralMismatch, at: 0 }
    } else if a == 1 {
        Parsed::Fail { kind: FailureKind::EmptyRequiredSpan, at: 1 }
    } else if !"//"@.is_prefix_of(s.skip(a)) {
        Parsed::Fail { kind: FailureKind::StructuralMismatch, at: a }
    } else if c == b {
        Parsed::Fail { kind: FailureKind::EmptyRequiredSpan, at: b }
    } else if !"callseq"@.is_prefix_of(s.skip(c)) {
        Parsed::Fail { kind: FailureKind::StructuralMismatch, at: c }
    } else if e == d {
        Parsed::Fail { kind: FailureKind::EmptyRequiredSpan, at: d }
    } else if f == e {
        Parsed::Fail { kind: FailureKind::EmptyRequiredSpan, at: e }
    } else {
        Parsed::Done { used: f, value: s.subrange(e, f) }
    }
}

/// What a statement is, by the first form that fits, in this order: the
/// marker that opens a call sequence, the marker that closes one, a return,
/// a branch, a declaration of registers, an instruction, and else a line of
/// no known form.
pub open spec fn classify(s: Seq<char>) -> BodyLineView {
    if spec_call_marker(s, '{') is Done {
        BodyLineView::FunctionCallEntry(spec_call_marker(s, '{')->value)
    } else if spec_call_marker(s, '}') is Done {
        BodyLineView::FunctionCallExit(spec_call_marker(s, '}')->value)
    } else if "ret"@.is_prefix_of(s) {
        BodyLineView::Return
    } else if spec_goto(s) is Done {
        BodyLineView::Goto(spec_goto(s)->value)
    } else if spec_register(s) is Done {
        BodyLineView::Register(spec_register(s)->value)
    } else if spec_operation(s) is Done {
        BodyLineView::Operation(spec_operation(s)->value)
    } else {
        BodyLineView::Unknown(s)
    }
}

/// A label: `$`, one or more characters that are neither white space nor a
/// colon, and a colon. The value is what stands between.
pub open spec fn spec_label(s: Seq<char>) -> Parsed<Seq<char>> {
    let a = 1 + run_len(s.skip(1), CharClass::LabelName);
    if s.len() == 0 || s[0] != '$' {
        Parsed::Fail { kind: FailureKind::StructuralMismatch, at: 0 }
    } else if a == 1 {
        Parsed::Fail { kind: FailureKind::EmptyRequiredSpan, at: 1 }
    } else if a >= s.len() || s[a] != ':' {
        Parsed::Fail { kind: FailureKind::StructuralMismatch, at: a }
    } else {
        Parsed::Done { used: a + 1, value: s.subrange(1, a) }
    }
}

/// A statement: one or more characters up to the first semicolon, and the
/// semicolon. The value is what stands before the semicolon.
pub open spec fn spec_statement(s: Seq<char>) -> Parsed<Seq<char>> {
    let a = run_len(s, CharClass::Except(';'));
    if a == 0 {
        Parsed::Fail { kind: FailureKind::EmptyRequiredSpan, at: 0 }
    } else if a >= s.len() {
        Parsed::Fail { kind: FailureKind::UnterminatedDelimiter, at: a }
    } else {
        Parsed::Done { used: a + 1, value: s.take(a) }
    }
}

/// One line of a body: a label, or else a statement, classified.
pub open spec fn spec_body_line(s: Seq<char>) -> Parsed<BodyLineView> {
    match spec_label(s) {
        Parsed::Done { used, value } => Parsed::Done { used, value: BodyLineView::Label(value) },
        Parsed::Fail { .. } => match spec_statement(s) {
            Parsed::Done { used, value } => Parsed::Done { used, value: classify(value) },
            Parsed::Fail { kind, at } => Parsed::Fail { kind, at },
        },
    }
}

/// Recognizes the rest of the input as a line of no known form.
pub fn parse_unknown_line<'a>(input: &'a [char]) -> (r: ParseResult<'a, &'a [char]>)
    ensures
        agrees(input@, r, spec_unknown_line(input@)),
{
    if input.len() == 0 {
        Err(ParseFailure { kind: FailureKind::EmptyRequiredSpan, rest: input })
    } else {
        Ok((skip_front(input, input.len()), input))
    }
}

/// Recognizes a declaration of registers.
pub fn parse_register<'a>(input: &'a [char]) -> (r: ParseResult<'a, Register<'a>>)
    ensures
        agrees(input@, r, spec_register(input@)),
{
    let len = input.len();
    let a = match literal_from(input, 0, ".reg") {
        Some(a) => a,
        None => {
            return fail_at(input, 0, FailureKind::StructuralMismatch);
        },
    };
    let b = run_from(input, a, CharClass::Blank);
    if b == a {
        return fail_at(input, a, FailureKind::EmptyRequiredSpan);
    }
    if b >= len {
        return fail_at(input, b, FailureKind::EmptyRequiredSpan);
    }
    Ok((skip_front(input, len), Register { raw_string: skip_front(input, b) }))
}

/// Recognizes an instruction.
pub fn parse_operation<'a>(input: &'a [char]) -> (r: ParseResult<'a, Operation<'a>>)
    ensures
        agrees(input@, r, spec_operation(input@)),
{
    assert(input@.skip(0) =~= input@);
    let len = input.len();
    let m = run_from(input, 0, CharClass::Mnemonic);
    if m == 0 {
        return fail_at(input, 0, FailureKind::EmptyRequiredSpan);
    }
    let b = run_from(input, m, CharClass::Blank);
    if b == m {
        return fail_at(input, m, FailureKind::EmptyRequiredSpan);
    }
    if b >= len {
        return fail_at(input, b, FailureKind::EmptyRequiredSpan);
    }
    let operation = classify_mnemonic(take_front(input, m));
    Ok((skip_front(input, len), Operation { operation, arguments: skip_front(input, b) }))
}

/// Recognizes a guarded branch.
pub fn parse_guarded_goto<'a>(input: &'a [char]) -> (r: ParseResult<'a, Goto<'a>>)
    ensures
        agrees(input@, r, spec_guarded_goto(input@)),
{
    let len = input.len();
    if len == 0 || input[0] != '@' {
        return fail_at(input, 0, FailureKind::StructuralMismatch);
    }
    let negated = len > 1 && input[1] == '!';
    let a: usize = if negated { 2 } else { 1 };
    let b = run_from(input, a, CharClass::Visible);
    if b == a {
        return fail_at(input, a, FailureKind::EmptyRequiredSpan);
    }
    let c = run_from(input, b, CharClass::Blank);
    if c == b {
        return fail_at(input, b, FailureKind::EmptyRequiredSpan);
    }
    let d = match literal_from(input, c, "bra") {
        Some(d) => d,
        None => {
            return fail_at(input, c, FailureKind::StructuralMismatch);
        },
    };
    let e = run_from(input, d, CharClass::Blank);
    if e == d {
        return fail_at(input, d, FailureKind::EmptyRequiredSpan);
    }
    if e >= len || input[e] != '$' {
        return fail_at(input, e, FailureKind::StructuralMismatch);
    }
    let register = slice_subrange(input, a, b);
    let predicate = if negated {
        Predicate::False(register)
    } else {
        Predicate::True(register)
    };
    Ok((skip_front(input, len), Goto { predicate: Some(predicate), label: skip_front(input, e + 1) }))
}

/// Recognizes an unguarded branch.
pub fn parse_plain_goto<'a>(input: &'a [char]) -> (r: ParseResult<'a, Goto<'a>>)
    ensures
        agrees(input@, r, spec_plain_goto(input@)),
{
    let len = input.len();
    let a = match literal_from(input, 0, "bra.uni") {
        Some(a) => a,
        None => {
            return fail_at(input, 0, FailureKind::StructuralMismatch);
        },
    };
    let b = run_from(input, a, CharClass::Blank);
    if b == a {
        return fail_at(input, a, FailureKind::EmptyRequiredSpan);
    }
    if b >= len || input[b] != '$' {
        return fail_at(input, b, FailureKind::StructuralMismatch);
    }
    Ok((skip_front(input, len), Goto { predicate: None, label: skip_front(input, b + 1) }))
}

/// Recognizes a branch.
pub fn parse_goto<'a>(input: &'a [char]) -> (r: ParseResult<'a, Goto<'a>>)
    ensures
        agrees(input@, r, spec_goto(input@)),
{
    match parse_guarded_goto(input) {
        Ok(found) => Ok(found),
        Err(_) => parse_plain_goto(input),
    }
}

/// Recognizes a marker of a call sequence that begins with `brace`.
pub fn parse_call_marker<'a>(input: &'a [char], brace: char) -> (r: ParseResult<'a, &'a [char]>)
    ensures
        agrees(input@, r, spec_call_marker(input@, brace)),
{
    if input.len() == 0 || input[0] != brace {
        return fail_at(input, 0, FailureKind::StructuralMismatch);
    }
    let a = run_from(input, 1, CharClass::Blank);
    if a == 1 {
        return fail_at(input, 1, FailureKind::EmptyRequiredSpan);
    }
    let b = match literal_from(input, a, "//") {
        Some(b) => b,
        None => {
            return fail_at(input, a, FailureKind::StructuralMismatch);
        },
    };
    let c = run_from(input, b, CharClass::Blank);
    if c == b {
        return fail_at(input, b, FailureKind::EmptyRequiredSpan);
    }
    let d = match literal_from(input, c, "callseq") {
        Some(d) => d,
        None => {
            return fail_at(input, c, FailureKind::StructuralMismatch);
        },
    };
    let e = run_from(input, d, CharClass::Blank);
    if e == d {
        return fail_at(input, d, FailureKind::EmptyRequiredSpan);
    }
    let f = run_from(input, e, CharClass::Except('\n'));
    if f == e {
        return fail_at(input, e, FailureKind::EmptyRequiredSpan);
    }
    Ok((skip_front(input, f), slice_subrange(input, e, f)))
}

/// Recognizes a label.
pub fn parse_label<'a>(input: &'a [char]) -> (r: ParseResult<'a, &'a [char]>)
    ensures
        agrees(input@, r, spec_label(input@)),
{
    if input.len() == 0 || input[0] != '$' {
        return fail_at(input, 0, FailureKind::StructuralMismatch);
    }
    let a = run_from(input, 1, CharClass::LabelName);
    if a == 1 {
        return fail_at(input, 1, FailureKind::EmptyRequiredSpan);
    }
    if a >= input.len() || input[a] != ':' {
        return fail_at(input, a, FailureKind::StructuralMismatch);
    }
    Ok((skip_front(input, a + 1), slice_subrange(input, 1, a)))
}

/// Recognizes a statement and its semicolon.
pub fn parse_statement<'a>(input: &'a [char]) -> (r: ParseResult<'a, &'a [char]>)
    ensures
        agrees(input@, r, spec_statement(input@)),
{
    assert(input@.skip(0) =~= input@);
    let a = run_from(input, 0, CharClass::Except(';'));
    if a == 0 {
        return fail_at(input, 0, FailureKind::EmptyRequiredSpan);
    }
    if a >= input.len() {
        return fail_at(input, a, FailureKind::UnterminatedDelimiter);
    }
    Ok((skip_front(input, a + 1), take_front(input, a)))
}

/// Classifies a statement.
pub fn classify_statement<'a>(text: &'a [char]) -> (line: BodyLine<'a>)
    ensures
        line@ == classify(text@),
{
    if let Ok((_, raw)) = parse_call_marker(text, '{') {
        return BodyLine::FunctionCallEntry(raw);
    }
    if let Ok((_, raw)) = parse_call_marker(text, '}') {
        return BodyLine::FunctionCallExit(raw);
    }
    if starts_with(text, "ret") {
        return BodyLine::Return;
    }
    if let Ok((_, goto)) = parse_goto(text) {
        return BodyLine::Goto(goto);
    }
    if let Ok((_, register)) = parse_register(text) {
        return BodyLine::Register(register);
    }
    if let Ok((_, operation)) = parse_operation(text) {
        return BodyLine::Operation(operation);
    }
    BodyLine::Unknown(text)
}

/// Recognizes one line of a function body.
pub fn parse_body_line<'a>(input: &'a [char]) -> (r: ParseResult<'a, BodyLine<'a>>)
    ensures
        agrees(input@, r, spec_body_line(input@)),
{
    if let Ok((rest, name)) = parse_label(input) {
        return Ok((rest, BodyLine::Label(name)));
    }
    let (rest, text) = parse_statement(input)?;
    Ok((rest, classify_statement(text)))
}

/// A mnemonic, blanks and operands, written out, are recognized as an
/// instruction whose arguments are the operands as they were written.
pub proof fn lemma_operation_text(m: Seq<char>, blanks: Seq<char>, operands: Seq<char>)
    requires
        m.len() > 0 && all_of(m, CharClass::Mnemonic),
        blanks.len() > 0 && all_of(blanks, CharClass::Blank),
        operands.len() > 0 && !CharClass::Blank.holds(operands[0]),
    ensures
        spec_operation(m + blanks + operands) == (Parsed::Done {
            used: (m + blanks + operands).len() as int,
            value: OperationView { operation: kind_of(m), arguments: operands },
        }),
{
    let s = m + blanks + operands;
    assert(s =~= m + (blanks + operands));
    assert((blanks + operands)[0] == blanks[0]);
    lemma_run_len_whole(m, blanks + operands, CharClass::Mnemonic);
    assert(s.skip(m.len() as int) =~= blanks + operands);
    lemma_run_len_whole(blanks, operands, CharClass::Blank);
    assert(s.take(m.len() as int) =~= m);
    assert(s.skip((m.len() + blanks.len()) as int) =~= operands);
}

/// A statement, written out with its semicolon, is recognized whole.
pub proof fn lemma_statement_text(text: Seq<char>, tail: Seq<char>)
    requires
        text.len() > 0 && all_of(text, CharClass::Except(';')),
    ensures
        spec_statement(text + seq![';'] + tail) == (Parsed::Done {
            used: text.len() as int + 1,
            value: text,
        }),
{
    let s = text + seq![';'] + tail;
    assert(s =~= text + (seq![';'] + tail));
    assert((seq![';'] + tail)[0] == ';');
    lemma_run_len_whole(text, seq![';'] + tail, CharClass::Except(';'));
    assert(s.take(text.len() as int) =~= text);
}

/// A line that begins with a mnemonic and a blank is no label.
pub proof fn lemma_mnemonic_is_no_label(m: Seq<char>, rest: Seq<char>)
    requires
        m.len() > 0 && all_of(m, CharClass::Mnemonic),
        rest.len() > 0 && CharClass::Blank.holds(rest[0]),
    ensures
        spec_label(m + rest) is Fail,
{
    let s = m + rest;
    if s[0] == '$' {
        let head = m.skip(1);
        assert(s.skip(1) =~= head + rest);
        assert forall|i: int| 0 <= i < head.len() implies CharClass::LabelName.holds(
            #[trigger] head[i],
        ) by {
            assert(head[i] == m[i + 1]);
            assert(CharClass::Mnemonic.holds(m[i + 1]));
        }
        lemma_run_len_whole(head, rest, CharClass::LabelName);
        assert(s[m.len() as int] == rest[0]);
    }
}

/// Classifying `<mnemonic> <operands>;` yields an instruction: its kind is
/// what the table gives to the mnemonic, which for a mnemonic that the table
/// lacks is the mnemonic itself, and its arguments are the operands as
/// written. This holds of every line of this shape that is no return, no
/// branch and no declaration of registers, the forms that come first.
pub proof fn lemma_operation_line(
    m: Seq<char>,
    blanks: Seq<char>,
    operands: Seq<char>,
    tail: Seq<char>,
)
    requires
        m.len() > 0 && all_of(m, CharClass::Mnemonic),
        blanks.len() > 0 && all_of(blanks, CharClass::Blank),
        operands.len() > 0 && all_of(operands, CharClass::Except(';')) && !CharClass::Blank.holds(
            operands[0],
        ),
        !"ret"@.is_prefix_of(m + blanks + operands),
        spec_goto(m + blanks + operands) is Fail,
        spec_register(m + blanks + operands) is Fail,
    ensures
        spec_body_line(m + blanks + operands + seq![';'] + tail) == (Parsed::Done {
            used: (m + blanks + operands).len() as int + 1,
            value: BodyLineView::Operation(
                OperationView { operation: kind_of(m), arguments: operands },
            ),
        }),
{
    let text = m + blanks + operands;
    let s = text + seq![';'] + tail;
    assert(spec_label(s) is Fail) by {
        let rest = blanks + operands + seq![';'] + tail;
        assert(s =~= m + rest);
        assert(rest[0] == blanks[0]);
        lemma_mnemonic_is_no_label(m, rest);
    }
    assert(all_of(text, CharClass::Except(';'))) by {
        assert forall|i: int| 0 <= i < text.len() implies CharClass::Except(';').holds(
            #[trigger] text[i],
        ) by {
            if i < m.len() {
                assert(text[i] == m[i]);
                assert(CharClass::Mnemonic.holds(m[i]));
            } else if i < m.len() + blanks.len() {
                assert(text[i] == blanks[i - m.len()]);
                assert(CharClass::Blank.holds(blanks[i - m.len()]));
            } else {
                assert(text[i] == operands[i - m.len() - blanks.len()]);
            }
        }
    }
    lemma_statement_text(text, tail);
    lemma_operation_text(m, blanks, operands);
    assert(text[0] == m[0]);
    assert(CharClass::Mnemonic.holds(m[0]));
}

/// For every mnemonic of the table, classifying `<mnemonic> <operands>;`
/// yields an instruction of the kind that the table gives to the mnemonic,
/// with the operands as written.
pub proof fn lemma_known_operation_line(
    m: Seq<char>,
    blanks: Seq<char>,
    operands: Seq<char>,
    tail: Seq<char>,
)
    requires
        !(kind_of(m) is Unknown),
        blanks.len() > 0 && all_of(blanks, CharClass::Blank),
        operands.len() > 0 && all_of(operands, CharClass::Except(';')) && !CharClass::Blank.holds(
            operands[0],
        ),
    ensures
        spec_body_line(m + blanks + operands + seq![';'] + tail) == (Parsed::Done {
            used: (m + blanks + operands).len() as int + 1,
            value: BodyLineView::Operation(
                OperationView { operation: kind_of(m), arguments: operands },
            ),
        }),
{
    let text = m + blanks + operands;
    lemma_table_mnemonics(m);
    assert(all_of(m, CharClass::Mnemonic)) by {
        assert forall|i: int| 0 <= i < m.len() implies CharClass::Mnemonic.holds(
            #[trigger] m[i],
        ) by {
            assert(plain(m[i]));
        }
    }
    assert(text[0] == m[0]);
    assert(!"ret"@.is_prefix_of(text)) by {
        reveal_strlit("ret");
        if "ret"@.is_prefix_of(text) {
            assert(text.subrange(0, 3)[0] == 'r');
        }
    }
    assert(spec_goto(text) is Fail) by {
        reveal_strlit("bra.uni");
        if "bra.uni"@.is_prefix_of(text) {
            assert(text.subrange(0, 7)[0] == 'b');
        }
    }
    assert(spec_register(text) is Fail) by {
        reveal_strlit(".reg");
        if ".reg"@.is_prefix_of(text) {
            assert(text.subrange(0, 4)[0] == '.');
        }
    }
    lemma_operation_line(m, blanks, operands, tail);
}

} // verus!
