//! What the scanner of balanced braces does on nested text.

use vstd::prelude::*;
use crate::failure::{FailureKind, Parsed};
use crate::lexical::{closing_brace, spec_braced_balanced};

verus! {

/// What a character adds to the nesting depth.
pub open spec fn brace_delta(c: char) -> int {
    if c == '{' {
        1
    } else if c == '}' {
        -1
    } else {
        0
    }
}

/// The nesting depth after the first `n` characters of `s`: the opening
/// braces among them less the closing ones.
pub open spec fn depth_after(s: Seq<char>, n: int) -> int
    decreases n,
{
    if n <= 0 {
        0
    } else {
        depth_after(s, n - 1) + brace_delta(s[n - 1])
    }
}

/// No closing brace in `s` lacks an opening one before it.
pub open spec fn never_closes(s: Seq<char>) -> bool {
    forall|n: int| 0 <= n <= s.len() ==> #[trigger] depth_after(s, n) >= 0
}

/// The braces in `s` are paired.
pub open spec fn balanced(s: Seq<char>) -> bool {
    never_closes(s) && depth_after(s, s.len() as int) == 0
}

/// `x` inside `k` pairs of braces.
pub open spec fn nest(k: nat) -> Seq<char>
    decreases k,
{
    if k == 0 {
        seq!['x']
    } else {
        seq!['{'] + nest((k - 1) as nat) + seq!['}']
    }
}

/// The depth after a prefix depends on the prefix alone.
pub proof fn lemma_depth_prefix(s: Seq<char>, t: Seq<char>, n: int)
    requires
        0 <= n <= s.len(),
        n <= t.len(),
        forall|i: int| 0 <= i < n ==> s[i] == t[i],
    ensures
        depth_after(s, n) == depth_after(t, n),
    decreases n,
{
    if n > 0 {
        lemma_depth_prefix(s, t, n - 1);
    }
}

/// The depth inside one more pair of braces is one more.
pub proof fn lemma_depth_wrapped(inner: Seq<char>, n: int)
    requires
        0 <= n <= inner.len(),
    ensures
        depth_after(seq!['{'] + inner + seq!['}'], n + 1) == 1 + depth_after(inner, n),
    decreases n,
{
    let s = seq!['{'] + inner + seq!['}'];
    if n > 0 {
        lemma_depth_wrapped(inner, n - 1);
        assert(s[n] == inner[n - 1]);
    } else {
        assert(depth_after(s, 0) == 0);
        assert(s[0] == '{');
    }
}

/// Paired braces stay paired inside one more pair.
pub proof fn lemma_wrap_balanced(inner: Seq<char>)
    requires
        balanced(inner),
    ensures
        balanced(seq!['{'] + inner + seq!['}']),
{
    let s = seq!['{'] + inner + seq!['}'];
    assert forall|n: int| 0 <= n <= s.len() implies #[trigger] depth_after(s, n) >= 0 by {
        if 1 <= n <= inner.len() + 1 {
            lemma_depth_wrapped(inner, n - 1);
        } else if n == s.len() {
            lemma_depth_wrapped(inner, inner.len() as int);
            assert(s[n - 1] == '}');
        }
    }
    lemma_depth_wrapped(inner, inner.len() as int);
    assert(s[s.len() - 1] == '}');
}

/// The braces of `nest(k)` are paired.
pub proof fn lemma_nest_balanced(k: nat)
    ensures
        balanced(nest(k)),
    decreases k,
{
    if k == 0 {
        let s = nest(0);
        assert(depth_after(s, 0) == 0);
        assert(depth_after(s, 1) == 0);
    } else {
        lemma_nest_balanced((k - 1) as nat);
        lemma_wrap_balanced(nest((k - 1) as nat));
    }
}

/// A reader that has read `j` characters of `inner` finds the brace that
/// closes the block right behind `inner`.
proof fn lemma_scan_closes(s: Seq<char>, inner: Seq<char>, j: int)
    requires
        balanced(inner),
        0 <= j <= inner.len(),
        s.len() >= inner.len() + 2,
        forall|i: int| 0 <= i < inner.len() ==> s[i + 1] == inner[i],
        s[inner.len() as int + 1] == '}',
    ensures
        closing_brace(s, 1 + j, 1 + depth_after(inner, j)) == Some(inner.len() as int + 1),
    decreases inner.len() - j,
{
    if j < inner.len() {
        assert(depth_after(inner, j) >= 0);
        assert(depth_after(inner, j + 1) >= 0);
        assert(depth_after(inner, j + 1) == depth_after(inner, j) + brace_delta(inner[j]));
        assert(s[1 + j] == inner[j]);
        lemma_scan_closes(s, inner, j + 1);
    }
}

/// A reader that has read `j` characters of `inner` finds no brace that
/// closes the block where the text ends with `inner`.
proof fn lemma_scan_runs_out(s: Seq<char>, inner: Seq<char>, j: int)
    requires
        never_closes(inner),
        0 <= j <= inner.len(),
        s.len() == inner.len() + 1,
        forall|i: int| 0 <= i < inner.len() ==> s[i + 1] == inner[i],
    ensures
        closing_brace(s, 1 + j, 1 + depth_after(inner, j)) is None,
    decreases inner.len() - j,
{
    if j < inner.len() {
        assert(depth_after(inner, j) >= 0);
        assert(depth_after(inner, j + 1) >= 0);
        assert(depth_after(inner, j + 1) == depth_after(inner, j) + brace_delta(inner[j]));
        assert(s[1 + j] == inner[j]);
        lemma_scan_runs_out(s, inner, j + 1);
    }
}

/// A block whose content has paired braces is recognized whole: the value
/// is the content, and what follows the closing brace is left.
pub proof fn lemma_balanced_block(inner: Seq<char>, tail: Seq<char>)
    requires
        balanced(inner),
    ensures
        spec_braced_balanced(seq!['{'] + inner + seq!['}'] + tail) == (Parsed::Done {
            used: inner.len() as int + 2,
            value: inner,
        }),
{
    let s = seq!['{'] + inner + seq!['}'] + tail;
    assert(depth_after(inner, 0) == 0);
    lemma_scan_closes(s, inner, 0);
    assert(s.subrange(1, inner.len() as int + 1) =~= inner);
}

/// A block that lacks its closing brace fails as unterminated, at its start.
pub proof fn lemma_open_block(inner: Seq<char>)
    requires
        never_closes(inner),
    ensures
        spec_braced_balanced(seq!['{'] + inner) == (Parsed::<Seq<char>>::Fail {
            kind: FailureKind::UnterminatedDelimiter,
            at: 0,
        }),
{
    let s = seq!['{'] + inner;
    assert(depth_after(inner, 0) == 0);
    lemma_scan_runs_out(s, inner, 0);
}

/// For every depth `k` of at least one, the scanner takes `x` inside `k`
/// pairs of braces apart into `x` inside `k - 1` pairs and nothing left, and
/// fails as unterminated on the same text without its last closing brace.
pub proof fn lemma_nested_depth(k: nat)
    requires
        k >= 1,
    ensures
        spec_braced_balanced(nest(k)) == (Parsed::Done {
            used: nest(k).len() as int,
            value: nest((k - 1) as nat),
        }),
        spec_braced_balanced(seq!['{'] + nest((k - 1) as nat)) == (Parsed::<Seq<char>>::Fail {
            kind: FailureKind::UnterminatedDelimiter,
            at: 0,
        }),
{
    let inner = nest((k - 1) as nat);
    lemma_nest_balanced((k - 1) as nat);
    lemma_balanced_block(inner, Seq::empty());
    assert(seq!['{'] + inner + seq!['}'] + Seq::<char>::empty() =~= nest(k));
    lemma_open_block(inner);
}

} // verus!
