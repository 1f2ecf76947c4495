//! Runs of characters and literal text: the leaves of every recognizer.

use vstd::prelude::*;
use vstd::slice::slice_subrange;
use crate::chars::{is_numeric, is_special, is_whitespace, numeric, special, whitespace};
use crate::failure::{agrees, FailureKind, ParseFailure, ParseResult, Parsed};

verus! {

/// A class of characters that a run is made of.
#[derive(Debug, Clone, Copy, PartialEq, Eq)]
pub enum CharClass {
    /// Neither white space nor special punctuation.
    Name,
    /// Numerals.
    Numeral,
    /// The space and the tab.
    Blank,
    /// The space, the tab, the carriage return and the line feed.
    Space,
    /// Every character but the given one.
    Except(char),
    /// White space.
    White,
    /// Everything but white space.
    Visible,
    /// Everything but white space and special punctuation other than the period.
    Mnemonic,
    /// Everything but white space and the colon.
    LabelName,
}

impl CharClass {
    /// The character belongs to the class.
    pub open spec fn holds(self, c: char) -> bool {
        match self {
            CharClass::Name => !whitespace(c) && !special(c),
            CharClass::Numeral => numeric(c),
            CharClass::Blank => c == ' ' || c == '\t',
            CharClass::Space => c == ' ' || c == '\t' || c == '\r' || c == '\n',
            CharClass::Except(x) => c != x,
            CharClass::White => whitespace(c),
            CharClass::Visible => !whitespace(c),
            CharClass::Mnemonic => !whitespace(c) && (c == '.' || !special(c)),
            CharClass::LabelName => !whitespace(c) && c != ':',
        }
    }

    /// Whether the character belongs to the class.
    pub fn contains(self, c: char) -> (r: bool)
        ensures
            r == self.holds(c),
    {
        match self {
            CharClass::Name => !is_whitespace(c) && !is_special(c),
            CharClass::Numeral => is_numeric(c),
            CharClass::Blank => c == ' ' || c == '\t',
            CharClass::Space => c == ' ' || c == '\t' || c == '\r' || c == '\n',
            CharClass::Except(x) => c != x,
            CharClass::White => is_whitespace(c),
            CharClass::Visible => !is_whitespace(c),
            CharClass::Mnemonic => !is_whitespace(c) && (c == '.' || !is_special(c)),
            CharClass::LabelName => !is_whitespace(c) && c != ':',
        }
    }
}

/// The length of the longest prefix of `s` made of characters of `class`.
pub open spec fn run_len(s: Seq<char>, class: CharClass) -> int
    decreases s.len(),
{
    if s.len() > 0 && class.holds(s[0]) {
        1 + run_len(s.skip(1), class)
    } else {
        0
    }
}

/// Every character of `s` is of `class`.
pub open spec fn all_of(s: Seq<char>, class: CharClass) -> bool {
    forall|i: int| 0 <= i < s.len() ==> class.holds(#[trigger] s[i])
}

/// `n` characters of `class` stand at the front of `s`, and what follows
/// them, if anything, is not of `class`.
pub open spec fn is_run(s: Seq<char>, class: CharClass, n: int) -> bool {
    &&& 0 <= n <= s.len()
    &&& forall|i: int| 0 <= i < n ==> class.holds(#[trigger] s[i])
    &&& n < s.len() ==> !class.holds(s[n])
}

/// The longest prefix is a run.
pub proof fn lemma_run_len_is_run(s: Seq<char>, class: CharClass)
    ensures
        is_run(s, class, run_len(s, class)),
    decreases s.len(),
{
    if s.len() > 0 && class.holds(s[0]) {
        let t = s.skip(1);
        lemma_run_len_is_run(t, class);
        let n = run_len(t, class);
        assert forall|i: int| 0 <= i < n + 1 implies class.holds(#[trigger] s[i]) by {
            if i > 0 {
                assert(s[i] == t[i - 1]);
            }
        }
        if n + 1 < s.len() {
            assert(s[n + 1] == t[n]);
        }
    }
}

/// There is one run only at the front of a sequence.
pub proof fn lemma_run_unique(s: Seq<char>, class: CharClass, n: int)
    requires
        is_run(s, class, n),
    ensures
        run_len(s, class) == n,
    decreases s.len(),
{
    if n > 0 {
        let t = s.skip(1);
        assert forall|i: int| 0 <= i < n - 1 implies class.holds(#[trigger] t[i]) by {
            assert(t[i] == s[i + 1]);
        }
        if n - 1 < t.len() {
            assert(t[n - 1] == s[n]);
        }
        lemma_run_unique(t, class, n - 1);
    }
}

/// A run that ends before the end of a text is the same run whatever follows the text.
pub proof fn lemma_run_len_concat(a: Seq<char>, b: Seq<char>, class: CharClass)
    requires
        run_len(a, class) < a.len(),
    ensures
        run_len(a + b, class) == run_len(a, class),
{
    lemma_run_len_is_run(a, class);
    let n = run_len(a, class);
    assert forall|i: int| 0 <= i < n implies class.holds(#[trigger] (a + b)[i]) by {
        assert((a + b)[i] == a[i]);
    }
    assert((a + b)[n] == a[n]);
    lemma_run_unique(a + b, class, n);
}

/// A text made of characters of `class` alone is the run at the front of
/// itself and whatever follows it, where that does not go on with `class`.
pub proof fn lemma_run_len_whole(a: Seq<char>, b: Seq<char>, class: CharClass)
    requires
        forall|i: int| 0 <= i < a.len() ==> class.holds(#[trigger] a[i]),
        b.len() == 0 || !class.holds(b[0]),
    ensures
        run_len(a + b, class) == a.len(),
{
    assert forall|i: int| 0 <= i < a.len() implies class.holds(#[trigger] (a + b)[i]) by {
        assert((a + b)[i] == a[i]);
    }
    if b.len() > 0 {
        assert((a + b)[a.len() as int] == b[0]);
    }
    lemma_run_unique(a + b, class, a.len() as int);
}

/// Counts the characters of `class` at the front of the input.
pub fn scan_run(input: &[char], class: CharClass) -> (n: usize)
    ensures
        n == run_len(input@, class),
{
    let mut i: usize = 0;
    while i < input.len() && class.contains(input[i])
        invariant
            i <= input.len(),
            forall|j: int| 0 <= j < i ==> class.holds(#[trigger] input@[j]),
        decreases input.len() - i,
    {
        i += 1;
    }
    proof {
        lemma_run_unique(input@, class, i as int);
    }
    i
}

/// The input from `n` on.
pub fn skip_front<'a>(input: &'a [char], n: usize) -> (rest: &'a [char])
    requires
        n <= input.len(),
    ensures
        rest@ == input@.skip(n as int),
{
    slice_subrange(input, n, input.len())
}

/// The first `n` characters of the input.
pub fn take_front<'a>(input: &'a [char], n: usize) -> (front: &'a [char])
    requires
        n <= input.len(),
    ensures
        front@ == input@.take(n as int),
{
    slice_subrange(input, 0, n)
}

/// A run of one or more characters of `class`.
pub open spec fn spec_take_while1(s: Seq<char>, class: CharClass) -> Parsed<Seq<char>> {
    if run_len(s, class) == 0 {
        Parsed::Fail { kind: FailureKind::EmptyRequiredSpan, at: 0 }
    } else {
        Parsed::Done { used: run_len(s, class), value: s.take(run_len(s, class)) }
    }
}

/// The end of the longest run of `class` that starts at `pos`.
pub fn run_from(input: &[char], pos: usize, class: CharClass) -> (end: usize)
    requires
        pos <= input.len(),
    ensures
        end == pos + run_len(input@.skip(pos as int), class),
        pos <= end <= input.len(),
{
    let n = scan_run(skip_front(input, pos), class);
    proof {
        lemma_run_len_is_run(input@.skip(pos as int), class);
    }
    pos + n
}

/// The end of the literal `lit` where it stands at `pos`.
pub fn literal_from(input: &[char], pos: usize, lit: &str) -> (end: Option<usize>)
    requires
        pos <= input.len(),
    ensures
        end is Some == lit@.is_prefix_of(input@.skip(pos as int)),
        end matches Some(e) ==> e == pos + lit@.len() && e <= input.len(),
{
    if starts_with(skip_front(input, pos), lit) {
        Some(pos + lit.unicode_len())
    } else {
        None
    }
}

/// A failure of the given kind at `pos`.
pub fn fail_at<'a, T>(input: &'a [char], pos: usize, kind: FailureKind) -> (r: ParseResult<'a, T>)
    requires
        pos <= input.len(),
    ensures
        r matches Err(e) && e.kind == kind && e.rest@ == input@.skip(pos as int),
{
    Err(ParseFailure { kind, rest: skip_front(input, pos) })
}

/// Turns what a recognizer returned on the input from `pos` on into the
/// offset in the whole input at which the value ends, or into the failure,
/// which holds the input from its own offset on.
pub(crate) fn at_offset<'a, T: View>(
    input: &'a [char],
    pos: usize,
    r: ParseResult<'a, T>,
    Ghost(p): Ghost<Parsed<T::V>>,
) -> (out: Result<(usize, T), ParseFailure<'a>>)
    requires
        pos <= input.len(),
        agrees(input@.skip(pos as int), r, p),
    ensures
        match out {
            Ok((end, value)) => p matches Parsed::Done { used, value: v } && end == pos + used
                && pos <= end <= input.len() && value@ == v,
            Err(e) => p matches Parsed::Fail { kind, at } && e.kind == kind && 0 <= at && pos + at
                <= input.len() && e.rest@ == input@.skip(pos + at),
        },
{
    match r {
        Ok((rest, value)) => Ok((input.len() - rest.len(), value)),
        Err(e) => {
            proof {
                vstd::seq_lib::lemma_seq_skip_of_skip(input@, pos as int, p->at);
            }
            Err(e)
        },
    }
}

/// Splits the longest run of `class` off the front of the input, and fails
/// where the run is empty.
pub fn take_while1<'a>(input: &'a [char], class: CharClass) -> (r: ParseResult<'a, &'a [char]>)
    ensures
        agrees(input@, r, spec_take_while1(input@, class)),
{
    let n = scan_run(input, class);
    proof {
        lemma_run_len_is_run(input@, class);
    }
    if n == 0 {
        Err(ParseFailure { kind: FailureKind::EmptyRequiredSpan, rest: input })
    } else {
        Ok((skip_front(input, n), take_front(input, n)))
    }
}

/// Whether `lit` stands at the front of the input.
pub fn starts_with(input: &[char], lit: &str) -> (r: bool)
    ensures
        r == lit@.is_prefix_of(input@),
{
    let n = lit.unicode_len();
    if n > input.len() {
        return false;
    }
    let mut i: usize = 0;
    while i < n
        invariant
            i <= n,
            n == lit@.len(),
            n <= input.len(),
            forall|j: int| 0 <= j < i ==> lit@[j] == input@[j],
        decreases n - i,
    {
        if lit.get_char(i) != input[i] {
            return false;
        }
        i += 1;
    }
    assert(lit@ =~= input@.subrange(0, n as int));
    true
}

} // verus!
