//! A module: its preamble, and its top-level items as a lazy sequence.

use vstd::prelude::*;
use crate::chars::whitespace;
use crate::comment::{insignificant_from, insignificant_len};
use crate::cursor::{Cursor, CursorView};
use crate::failure::{FailureKind, ParseFailure, ParseResult, Parsed};
use crate::function::{parse_function, spec_function, Function, FunctionView};
use crate::global::{parse_global, spec_global, Global};
use crate::preamble::{parse_preamble, spec_preamble, Preamble, PreambleView};
use crate::scan::{lemma_run_len_is_run, run_from, skip_front, CharClass};

verus! {

/// A top-level item of a module.
#[derive(Debug, Clone, Copy, PartialEq, Eq)]
pub enum FunctionOrGlobal<'a> {
    Function(Function<'a>),
    Global(Global<'a>),
}

/// The mathematical value of a [`FunctionOrGlobal`].
pub ghost enum ItemView {
    Function(FunctionView),
    Global(Seq<char>),
}

impl<'a> View for FunctionOrGlobal<'a> {
    type V = ItemView;

    open spec fn view(&self) -> ItemView {
        match self {
            FunctionOrGlobal::Function(f) => ItemView::Function(f@),
            FunctionOrGlobal::Global(g) => ItemView::Global(g@),
        }
    }
}

impl<'a> FunctionOrGlobal<'a> {
    /// The function, where the item is one.
    pub fn function(self) -> (r: Option<Function<'a>>)
        ensures
            match self {
                FunctionOrGlobal::Function(f) => r == Some(f),
                FunctionOrGlobal::Global(_) => r is None,
            },
    {
        match self {
            FunctionOrGlobal::Function(function) => Some(function),
            FunctionOrGlobal::Global(_) => None,
        }
    }

    /// The global, where the item is one.
    pub fn global(self) -> (r: Option<Global<'a>>)
        ensures
            match self {
                FunctionOrGlobal::Global(g) => r == Some(g),
                FunctionOrGlobal::Function(_) => r is None,
            },
    {
        match self {
            FunctionOrGlobal::Global(global) => Some(global),
            FunctionOrGlobal::Function(_) => None,
        }
    }
}

/// A module that is being read: the preamble, and a cursor over the text
/// after it, which yields the top-level items one by one.
#[derive(Debug, Clone, Copy, PartialEq, Eq)]
pub struct PtxParser<'a> {
    pub preamble: Preamble<'a>,
    pub body: Cursor<'a>,
}

/// The mathematical value of a [`PtxParser`].
pub ghost struct ParserView {
    pub preamble: PreambleView,
    pub body: CursorView,
}

impl<'a> View for PtxParser<'a> {
    type V = ParserView;

    open spec fn view(&self) -> ParserView {
        ParserView { preamble: self.preamble@, body: self.body@ }
    }
}

/// A top-level item: a function, or else a global.
pub open spec fn spec_item(s: Seq<char>) -> Parsed<ItemView> {
    match spec_function(s) {
        Parsed::Done { used, value } => Parsed::Done { used, value: ItemView::Function(value) },
        Parsed::Fail { .. } => match spec_global(s) {
            Parsed::Done { used, value } => Parsed::Done { used, value: ItemView::Global(value) },
            Parsed::Fail { kind, at } => Parsed::Fail { kind, at },
        },
    }
}

/// The text holds nothing but white space.
pub open spec fn blank(s: Seq<char>) -> bool {
    forall|i: int| 0 <= i < s.len() ==> whitespace(#[trigger] s[i])
}

/// What a step on the unread text of a module finds.
pub ghost enum Step {
    /// An item, which ends `used` characters into the text.
    Item { used: int, value: ItemView },
    /// The clean end of the module.
    End,
    /// A failure at offset `at` of the text.
    Fail { kind: FailureKind, at: int },
}

/// One step on the unread text `c` of a module: after an optional
/// insignificant span, an item; where no item stands there, the clean end
/// if nothing but white space is left, and a failure otherwise.
pub open spec fn spec_next_item(c: Seq<char>) -> Step {
    let a = insignificant_len(c);
    match spec_item(c.skip(a)) {
        Parsed::Done { used, value } => Step::Item { used: a + used, value },
        Parsed::Fail { kind, at } => if blank(c.skip(a)) {
            Step::End
        } else {
            Step::Fail { kind, at: a + at }
        },
    }
}

/// Where the cursor of a module stands after a step on the unread text `c`.
pub open spec fn after_item(c: Seq<char>) -> CursorView {
    match spec_next_item(c) {
        Step::Item { used, .. } => CursorView::Active(c.skip(used)),
        Step::End => CursorView::Exhausted,
        Step::Fail { kind, at } => CursorView::Failed { kind, rest: c.skip(at) },
    }
}

/// What a step on the unread text `c` yields.
pub open spec fn yields<'a>(
    c: Seq<char>,
    r: Option<ParseResult<'a, FunctionOrGlobal<'a>>>,
) -> bool {
    match spec_next_item(c) {
        Step::Item { used, value } => r matches Some(Ok((rest, item))) && 0 <= used <= c.len()
            && rest@ =~= c.skip(used) && item@ == value,
        Step::End => r is None,
        Step::Fail { kind, at } => r matches Some(Err(e)) && 0 <= at <= c.len() && e.kind == kind
            && e.rest@ =~= c.skip(at),
    }
}

/// Recognizes a top-level item.
pub fn parse_item<'a>(input: &'a [char]) -> (r: ParseResult<'a, FunctionOrGlobal<'a>>)
    ensures
        crate::failure::agrees(input@, r, spec_item(input@)),
{
    if let Ok((rest, function)) = parse_function(input) {
        return Ok((rest, FunctionOrGlobal::Function(function)));
    }
    let (rest, global) = parse_global(input)?;
    Ok((rest, FunctionOrGlobal::Global(global)))
}

/// Whether the text holds nothing but white space.
pub fn is_blank(text: &[char]) -> (r: bool)
    ensures
        r == blank(text@),
{
    assert(text@.skip(0) =~= text@);
    let end = run_from(text, 0, CharClass::White);
    proof {
        lemma_run_len_is_run(text@, CharClass::White);
    }
    end == text.len()
}

impl<'a> PtxParser<'a> {
    /// Starts to read a module: recognizes the preamble and stands behind it.
    /// Without a whole preamble there is no parser.
    pub fn try_from(input: &'a [char]) -> (r: Result<PtxParser<'a>, ParseFailure<'a>>)
        ensures
            match spec_preamble(input@) {
                Parsed::Done { used, value } => r matches Ok(parser) && 0 <= used <= input@.len()
                    && parser@ == (ParserView {
                    preamble: value,
                    body: CursorView::Active(input@.skip(used)),
                }),
                Parsed::Fail { kind, at } => r matches Err(e) && 0 <= at <= input@.len() && e.kind
                    == kind && e.rest@ == input@.skip(at),
            },
    {
        match parse_preamble(input) {
            Ok((rest, preamble)) => Ok(PtxParser { preamble, body: Cursor::Active(rest) }),
            Err(e) => Err(e),
        }
    }

    /// Yields the next top-level item. A cursor on unread text skips an
    /// optional insignificant span and recognizes a function or else a
    /// global: on success it moves behind the item and yields it with the
    /// text that is left. Where neither stands there, the sequence ends
    /// cleanly if nothing but white space is left; otherwise it yields the
    /// failure, keeps it, and from then on yields nothing.
    pub fn next(&mut self) -> (r: Option<ParseResult<'a, FunctionOrGlobal<'a>>>)
        ensures
            final(self).preamble == old(self).preamble,
            match old(self).body@ {
                CursorView::Active(c) => yields(c, r) && final(self).body@ == after_item(c),
                _ => r is None && final(self).body@ == old(self).body@,
            },
    {
        let text = match self.body {
            Cursor::Active(text) => text,
            _ => {
                return None;
            },
        };
        assert(text@.skip(0) =~= text@);
        let (start, _) = insignificant_from(text, 0);
        let tail = skip_front(text, start);
        match parse_item(tail) {
            Ok((rest, item)) => {
                let end = text.len() - rest.len();
                let rest = skip_front(text, end);
                self.body = Cursor::Active(rest);
                Some(Ok((rest, item)))
            },
            Err(e) => {
                if is_blank(tail) {
                    self.body = Cursor::Exhausted;
                    None
                } else {
                    proof {
                        let at = spec_item(text@.skip(start as int))->at;
                        vstd::seq_lib::lemma_seq_skip_of_skip(text@, start as int, at);
                    }
                    self.body = Cursor::Failed(e);
                    Some(Err(e))
                }
            },
        }
    }
}

/// A top-level item takes up at least one character.
pub proof fn lemma_item_nonempty(s: Seq<char>)
    ensures
        spec_item(s) matches Parsed::Done { used, .. } ==> 0 < used,
{
    reveal_strlit(".visible");
    reveal_strlit(".func");
    reveal_strlit(".global");
    reveal_strlit(".entry");
    let a = ".visible"@.len() as int;
    lemma_run_len_is_run(s.skip(a), CharClass::Blank);
    crate::function::lemma_signature_bounds(s);
    let b = ".global"@.len() as int;
    lemma_run_len_is_run(s.skip(b), CharClass::Blank);
    let c = b + crate::scan::run_len(s.skip(b), CharClass::Blank);
    lemma_run_len_is_run(s.skip(c), CharClass::Except(';'));
    match spec_function(s) {
        Parsed::Done { .. } => {
            let sig = crate::function::spec_function_signature(s)->used;
            crate::comment::lemma_insignificant_bounds(s.skip(sig));
            let d = sig + insignificant_len(s.skip(sig));
            crate::lexical::lemma_closing_brace_bounds(s.skip(d), 1, 1);
        },
        Parsed::Fail { .. } => {},
    }
}

/// The functions among the items of a module whose unread text is `c`, up
/// to its clean end or its first failure, in the order of the text.
pub open spec fn module_functions(c: Seq<char>) -> Seq<FunctionView>
    decreases c.len(),
{
    match spec_next_item(c) {
        Step::Item { used, value } => if 0 < used <= c.len() {
            match value {
                ItemView::Function(f) => seq![f] + module_functions(c.skip(used)),
                ItemView::Global(_) => module_functions(c.skip(used)),
            }
        } else {
            Seq::empty()
        },
        _ => Seq::empty(),
    }
}

/// The globals among the items of a module whose unread text is `c`, up to
/// its clean end or its first failure, in the order of the text.
pub open spec fn module_globals(c: Seq<char>) -> Seq<Seq<char>>
    decreases c.len(),
{
    match spec_next_item(c) {
        Step::Item { used, value } => if 0 < used <= c.len() {
            match value {
                ItemView::Function(_) => module_globals(c.skip(used)),
                ItemView::Global(g) => seq![g] + module_globals(c.skip(used)),
            }
        } else {
            Seq::empty()
        },
        _ => Seq::empty(),
    }
}

/// The first failure among the steps on a module whose unread text is `c`:
/// its kind and its offset in `c`. There is none where the module ends cleanly.
pub open spec fn module_failure(c: Seq<char>) -> Option<(FailureKind, int)>
    decreases c.len(),
{
    match spec_next_item(c) {
        Step::Item { used, .. } => if 0 < used <= c.len() {
            match module_failure(c.skip(used)) {
                Some((kind, at)) => Some((kind, used + at)),
                None => None,
            }
        } else {
            None
        },
        Step::End => None,
        Step::Fail { kind, at } => Some((kind, at)),
    }
}

/// A module that was read to its end: the preamble, the functions and the
/// globals, each in the order of the text.
#[derive(Debug, PartialEq, Eq)]
pub struct PtxFile<'a> {
    pub preamble: Preamble<'a>,
    pub functions: Vec<Function<'a>>,
    pub globals: Vec<Global<'a>>,
}

/// The mathematical value of a [`PtxFile`].
pub ghost struct FileView {
    pub preamble: PreambleView,
    pub functions: Seq<FunctionView>,
    pub globals: Seq<Seq<char>>,
}

impl<'a> View for PtxFile<'a> {
    type V = FileView;

    open spec fn view(&self) -> FileView {
        FileView {
            preamble: self.preamble@,
            functions: self.functions@.map_values(|f: Function<'a>| f@),
            globals: self.globals@.map_values(|g: Global<'a>| g@),
        }
    }
}

/// What reading a whole module gives: the file, or the first failure.
pub open spec fn spec_file(s: Seq<char>) -> Parsed<FileView> {
    match spec_preamble(s) {
        Parsed::Fail { kind, at } => Parsed::Fail { kind, at },
        Parsed::Done { used, value: preamble } => match module_failure(s.skip(used)) {
            Some((kind, at)) => Parsed::Fail { kind, at: used + at },
            None => Parsed::Done {
                used: s.len() as int,
                value: FileView {
                    preamble,
                    functions: module_functions(s.skip(used)),
                    globals: module_globals(s.skip(used)),
                },
            },
        },
    }
}

/// The sequences `functions` and `globals` hold the items of the module
/// whose unread text is `body` that end within its first `at` characters,
/// and no step fails there.
pub open spec fn collected(
    body: Seq<char>,
    at: int,
    functions: Seq<FunctionView>,
    globals: Seq<Seq<char>>,
) -> bool {
    &&& 0 <= at <= body.len()
    &&& module_functions(body) == functions + module_functions(body.skip(at))
    &&& module_globals(body) == globals + module_globals(body.skip(at))
    &&& module_failure(body) == match module_failure(body.skip(at)) {
        Some((kind, k)) => Some((kind, at + k)),
        None => None,
    }
}

/// Nothing is collected at the start.
pub proof fn lemma_collected_start(body: Seq<char>)
    ensures
        collected(body, 0, Seq::empty(), Seq::empty()),
{
    assert(body.skip(0) =~= body);
    assert(Seq::<FunctionView>::empty() + module_functions(body) =~= module_functions(body));
    assert(Seq::<Seq<char>>::empty() + module_globals(body) =~= module_globals(body));
}

/// A step that finds an item adds it to what was collected.
pub proof fn lemma_collected_item(
    body: Seq<char>,
    at: int,
    functions: Seq<FunctionView>,
    globals: Seq<Seq<char>>,
)
    requires
        collected(body, at, functions, globals),
        spec_next_item(body.skip(at)) is Item,
    ensures
        ({
            let used = spec_next_item(body.skip(at))->used;
            &&& 0 < used
            &&& at + used <= body.len()
            &&& body.skip(at).skip(used) == body.skip(at + used)
            &&& match spec_next_item(body.skip(at))->value {
                ItemView::Function(f) => collected(body, at + used, functions.push(f), globals),
                ItemView::Global(g) => collected(body, at + used, functions, globals.push(g)),
            }
        }),
{
    let c = body.skip(at);
    let used = spec_next_item(c)->used;
    let a = insignificant_len(c);
    crate::comment::lemma_insignificant_bounds(c);
    lemma_item_nonempty(c.skip(a));
    lemma_item_bounds(c.skip(a));
    vstd::seq_lib::lemma_seq_skip_of_skip(body, at, used);
    let rest_f = module_functions(c.skip(used));
    let rest_g = module_globals(c.skip(used));
    match spec_next_item(c)->value {
        ItemView::Function(f) => {
            assert(functions + (seq![f] + rest_f) =~= functions.push(f) + rest_f);
        },
        ItemView::Global(g) => {
            assert(globals + (seq![g] + rest_g) =~= globals.push(g) + rest_g);
        },
    }
}

/// At the clean end everything was collected.
pub proof fn lemma_collected_end(
    body: Seq<char>,
    at: int,
    functions: Seq<FunctionView>,
    globals: Seq<Seq<char>>,
)
    requires
        collected(body, at, functions, globals),
        spec_next_item(body.skip(at)) is End,
    ensures
        module_failure(body) is None,
        module_functions(body) == functions,
        module_globals(body) == globals,
{
    assert(functions + Seq::empty() =~= functions);
    assert(globals + Seq::empty() =~= globals);
}

/// A step that fails is the first failure of the module.
pub proof fn lemma_collected_fail(
    body: Seq<char>,
    at: int,
    functions: Seq<FunctionView>,
    globals: Seq<Seq<char>>,
)
    requires
        collected(body, at, functions, globals),
        spec_next_item(body.skip(at)) is Fail,
    ensures
        module_failure(body) == Some(
            (spec_next_item(body.skip(at))->kind, at + spec_next_item(body.skip(at))->at),
        ),
{
}

/// An item ends within the text.
pub proof fn lemma_item_bounds(s: Seq<char>)
    ensures
        spec_item(s) matches Parsed::Done { used, .. } ==> used <= s.len(),
{
    crate::function::lemma_function_bounds(s);
    let b = ".global"@.len() as int;
    lemma_run_len_is_run(s.skip(b), CharClass::Blank);
    let c = b + crate::scan::run_len(s.skip(b), CharClass::Blank);
    lemma_run_len_is_run(s.skip(c), CharClass::Except(';'));
}

impl<'a> PtxFile<'a> {
    /// Reads a whole module: the preamble and every item up to the clean end
    /// of the text. The first failure, in the preamble or at an item, is
    /// the result, and nothing is kept of what was read before it.
    pub fn try_from(input: &'a [char]) -> (r: Result<PtxFile<'a>, ParseFailure<'a>>)
        ensures
            match spec_file(input@) {
                Parsed::Done { value, .. } => r matches Ok(file) && file@ == value,
                Parsed::Fail { kind, at } => r matches Err(e) && 0 <= at <= input@.len() && e.kind
                    == kind && e.rest@ == input@.skip(at),
            },
    {
        let mut parser = PtxParser::try_from(input)?;
        let ghost start = spec_preamble(input@)->used;
        let ghost body = input@.skip(start);
        let ghost mut at: int = 0;
        let mut functions: Vec<Function<'a>> = Vec::new();
        let mut globals: Vec<Global<'a>> = Vec::new();
        proof {
            lemma_collected_start(body);
            assert(body.skip(0) =~= body);
            assert(functions@.map_values(|f: Function<'a>| f@) =~= Seq::empty());
            assert(globals@.map_values(|g: Global<'a>| g@) =~= Seq::empty());
        }
        loop
            invariant
                0 <= start <= input@.len(),
                body == input@.skip(start),
                parser.body@ == CursorView::Active(body.skip(at)),
                parser.preamble@ == spec_preamble(input@)->value,
                spec_preamble(input@) is Done,
                start == spec_preamble(input@)->used,
                collected(
                    body,
                    at,
                    functions@.map_values(|f: Function<'a>| f@),
                    globals@.map_values(|g: Global<'a>| g@),
                ),
            decreases body.len() - at,
        {
            let ghost fs = functions@.map_values(|f: Function<'a>| f@);
            let ghost gs = globals@.map_values(|g: Global<'a>| g@);
            match parser.next() {
                None => {
                    proof {
                        lemma_collected_end(body, at, fs, gs);
                    }
                    return Ok(PtxFile { preamble: parser.preamble, functions, globals });
                },
                Some(Err(e)) => {
                    proof {
                        lemma_collected_fail(body, at, fs, gs);
                        let k = spec_next_item(body.skip(at))->at;
                        vstd::seq_lib::lemma_seq_skip_of_skip(body, at, k);
                        vstd::seq_lib::lemma_seq_skip_of_skip(input@, start, at + k);
                    }
                    return Err(e);
                },
                Some(Ok((_, item))) => {
                    proof {
                        lemma_collected_item(body, at, fs, gs);
                        at = at + spec_next_item(body.skip(at))->used;
                    }
                    match item {
                        FunctionOrGlobal::Function(function) => {
                            functions.push(function);
                            assert(functions@.map_values(|f: Function<'a>| f@) =~= fs.push(
                                function@,
                            ));
                        },
                        FunctionOrGlobal::Global(global) => {
                            globals.push(global);
                            assert(globals@.map_values(|g: Global<'a>| g@) =~= gs.push(global@));
                        },
                    }
                },
            }
        }
    }
}

/// No item begins with white space, and none stands in an empty text.
pub proof fn lemma_blank_is_no_item(s: Seq<char>)
    requires
        blank(s),
    ensures
        spec_item(s) is Fail,
{
    reveal_strlit(".visible");
    reveal_strlit(".func");
    reveal_strlit(".global");
    if s.len() > 0 {
        assert(whitespace(s[0]));
        if ".visible"@.is_prefix_of(s) {
            assert(s.subrange(0, 8)[0] == '.');
        }
        if ".func"@.is_prefix_of(s) {
            assert(s.subrange(0, 5)[0] == '.');
        }
        if ".global"@.is_prefix_of(s) {
            assert(s.subrange(0, 7)[0] == '.');
        }
    }
}

/// The end of a module. Where nothing but comments and white space is left,
/// a step finds the clean end, and reading on from there meets no failure.
/// Where something else is left that is no item, the step fails, and that
/// failure is the one that reading on from there meets.
pub proof fn lemma_end_of_module(c: Seq<char>)
    ensures
        blank(c.skip(insignificant_len(c))) ==> spec_next_item(c) is End && module_failure(c)
            is None,
        !blank(c.skip(insignificant_len(c))) && spec_item(c.skip(insignificant_len(c))) is Fail
            ==> spec_next_item(c) is Fail && module_failure(c) == Some(
            (spec_next_item(c)->kind, spec_next_item(c)->at),
        ),
{
    if blank(c.skip(insignificant_len(c))) {
        lemma_blank_is_no_item(c.skip(insignificant_len(c)));
    }
}

/// Round trip of a step: the characters that a step used and the remainder
/// that it yielded make up the unread text, and so do the characters before
/// a failure and the span that it holds.
pub proof fn lemma_step_round_trip<'a>(
    c: Seq<char>,
    r: Option<ParseResult<'a, FunctionOrGlobal<'a>>>,
)
    requires
        yields(c, r),
    ensures
        match r {
            Some(Ok((rest, _))) => c.take(spec_next_item(c)->used) + rest@ == c,
            Some(Err(e)) => c.take(spec_next_item(c)->at) + e.rest@ == c,
            None => true,
        },
{
    match r {
        Some(Ok((rest, _))) => {
            assert(c.take(spec_next_item(c)->used) + rest@ =~= c);
        },
        Some(Err(e)) => {
            assert(c.take(spec_next_item(c)->at) + e.rest@ =~= c);
        },
        None => {},
    }
}

} // verus!
