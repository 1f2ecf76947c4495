//! Padding: insignificant text between the directives of a module.

use vstd::prelude::*;
use crate::comment::{
    find, insignificant_count, insignificant_len, lemma_find_first, lemma_insignificant_bounds,
    lemma_item_bounds, spec_comment_or_whitespace,
};
use crate::scan::{
    lemma_run_len_concat, lemma_run_len_is_run, lemma_run_unique, run_len, CharClass,
};

verus! {

/// Text that is skipped whole, and nothing after it, where a period follows
/// it: white space and comments, the last of which is closed.
pub open spec fn padding(p: Seq<char>) -> bool {
    insignificant_len(p + seq!['.']) == p.len()
}

/// Where `lit` stands first at `j`, it stands first at `j`.
pub proof fn lemma_find_unique(s: Seq<char>, lit: Seq<char>, i: int, j: int)
    requires
        0 <= i <= j,
        j + lit.len() <= s.len(),
        lit.is_prefix_of(s.skip(j)),
        forall|k: int| i <= k < j ==> !lit.is_prefix_of(#[trigger] s.skip(k)),
    ensures
        find(s, lit, i) == Some(j),
    decreases j - i,
{
    if i < j {
        lemma_find_unique(s, lit, i + 1, j);
    }
}

/// What is found in a text is found at the same place whatever follows the text.
pub proof fn lemma_find_concat(a: Seq<char>, b: Seq<char>, lit: Seq<char>, i: int)
    requires
        0 <= i,
        find(a, lit, i) is Some,
    ensures
        find(a + b, lit, i) == find(a, lit, i),
{
    lemma_find_first(a, lit, i);
    let j = find(a, lit, i)->0;
    let n = lit.len() as int;
    assert forall|k: int| i <= k <= j implies lit.is_prefix_of(#[trigger] (a + b).skip(k))
        == lit.is_prefix_of(a.skip(k)) by {
        assert((a + b).skip(k).subrange(0, n) =~= a.skip(k).subrange(0, n));
    }
    lemma_find_unique(a + b, lit, i, j);
}

/// The first item of padding that is not empty ends within the padding, and
/// is the same item whatever follows the period.
proof fn lemma_padding_item(p: Seq<char>, x: Seq<char>)
    requires
        padding(p),
        p.len() > 0,
    ensures
        spec_comment_or_whitespace(p + seq!['.']) is Done,
        0 < spec_comment_or_whitespace(p + seq!['.'])->used <= p.len(),
        spec_comment_or_whitespace(p + seq!['.'] + x) is Done,
        spec_comment_or_whitespace(p + seq!['.'] + x)->used == spec_comment_or_whitespace(
            p + seq!['.'],
        )->used,
        CharClass::Space.holds(p[0]) || p[0] == '/',
{
    let s1 = p + seq!['.'];
    let s2 = s1 + x;
    lemma_item_bounds(s1);
    let u = spec_comment_or_whitespace(s1)->used;
    lemma_insignificant_bounds(s1.skip(u));
    lemma_run_len_is_run(s1, CharClass::Space);
    assert(s2[0] == s1[0]);
    assert(s1[0] == p[0]);
    let n = run_len(s1, CharClass::Space);
    if n > 0 {
        lemma_run_len_concat(s1, x, CharClass::Space);
    } else {
        lemma_run_len_is_run(s2, CharClass::Space);
        assert(s2[1] == s1[1]);
        if s1[1] == '/' {
            assert(s2.skip(2) =~= s1.skip(2) + x);
            lemma_run_len_is_run(s1.skip(2), CharClass::Except('\n'));
            lemma_run_len_concat(s1.skip(2), x, CharClass::Except('\n'));
        } else {
            lemma_find_concat(s1, x, seq!['*', '/'], 2);
        }
    }
}

/// Padding is skipped whole, and nothing after it, whatever follows the
/// period; and it counts the same number of items.
pub proof fn lemma_padding(p: Seq<char>, x: Seq<char>)
    requires
        padding(p),
    ensures
        insignificant_len(p + seq!['.'] + x) == p.len(),
        insignificant_count(p + seq!['.'] + x) == insignificant_count(p + seq!['.']),
        p.len() > 0 ==> insignificant_count(p + seq!['.']) > 0,
        p.len() > 0 ==> CharClass::Space.holds(p[0]) || p[0] == '/',
    decreases p.len(),
{
    let s1 = p + seq!['.'];
    let s2 = s1 + x;
    if p.len() == 0 {
        assert(s2[0] == '.');
        assert(s1[0] == '.');
        lemma_run_len_is_run(s2, CharClass::Space);
        lemma_run_len_is_run(s1, CharClass::Space);
    } else {
        lemma_padding_item(p, x);
        let u = spec_comment_or_whitespace(s1)->used;
        let q = p.skip(u);
        assert(s1.skip(u) =~= q + seq!['.']);
        assert(s2.skip(u) =~= q + seq!['.'] + x);
        lemma_padding(q, x);
        lemma_insignificant_bounds(s1.skip(u));
    }
}

/// Skipping the first of two joined texts leaves the second.
pub proof fn lemma_skip_joined(x: Seq<char>, y: Seq<char>)
    ensures
        (x + y).skip(x.len() as int) == y,
{
    assert((x + y).skip(x.len() as int) =~= y);
}

/// Padding before text that starts with a period is skipped whole, and
/// nothing of that text.
pub proof fn lemma_padding_before(p: Seq<char>, next: Seq<char>)
    requires
        padding(p),
        next.len() > 0 && next[0] == '.',
    ensures
        insignificant_len(p + next) == p.len(),
        p.len() > 0 ==> insignificant_count(p + next) > 0,
        p.len() > 0 ==> (p + next)[0] == p[0] && (CharClass::Space.holds(p[0]) || p[0] == '/'),
        (p + next).skip(insignificant_len(p + next)) == next,
{
    assert(p + next =~= p + seq!['.'] + next.skip(1));
    lemma_padding(p, next.skip(1));
    lemma_skip_joined(p, next);
}

/// Two texts have the same first `n` characters.
pub open spec fn same_front(a: Seq<char>, b: Seq<char>, n: int) -> bool {
    &&& 0 <= n <= a.len()
    &&& n <= b.len()
    &&& forall|i: int| 0 <= i < n ==> a[i] == b[i]
}

/// A run that ends within the front that two texts share is the same in both.
pub proof fn lemma_run_len_shared(a: Seq<char>, b: Seq<char>, n: int, class: CharClass)
    requires
        same_front(a, b, n),
        run_len(a, class) < n,
    ensures
        run_len(b, class) == run_len(a, class),
{
    lemma_run_len_is_run(a, class);
    lemma_run_unique(b, class, run_len(a, class));
}

/// What is found within the front that two texts share is found at the
/// same place in both.
pub proof fn lemma_find_shared(a: Seq<char>, b: Seq<char>, n: int, lit: Seq<char>, i: int)
    requires
        same_front(a, b, n),
        0 <= i,
        find(a, lit, i) matches Some(j) && j + lit.len() <= n,
    ensures
        find(b, lit, i) == find(a, lit, i),
{
    lemma_find_first(a, lit, i);
    let j = find(a, lit, i)->0;
    let m = lit.len() as int;
    assert forall|k: int| i <= k <= j implies lit.is_prefix_of(#[trigger] b.skip(k))
        == lit.is_prefix_of(a.skip(k)) by {
        assert(b.skip(k).subrange(0, m) =~= a.skip(k).subrange(0, m));
    }
    lemma_find_unique(b, lit, i, j);
}

/// A text of `class` alone makes the run at the front of what follows it longer by its length.
pub proof fn lemma_run_len_extends(a: Seq<char>, b: Seq<char>, class: CharClass)
    requires
        forall|i: int| 0 <= i < a.len() ==> class.holds(#[trigger] a[i]),
    ensures
        run_len(a + b, class) == a.len() + run_len(b, class),
{
    lemma_run_len_is_run(b, class);
    let n = a.len() + run_len(b, class);
    assert forall|i: int| 0 <= i < n implies class.holds(#[trigger] (a + b)[i]) by {
        if i < a.len() {
            assert((a + b)[i] == a[i]);
        } else {
            assert((a + b)[i] == b[i - a.len()]);
        }
    }
    if n < (a + b).len() {
        assert((a + b)[n] == b[n - a.len()]);
    }
    lemma_run_unique(a + b, class, n);
}

/// The first item of padding that is not white space alone is the same
/// item whatever follows the padding.
proof fn lemma_first_item_stable(p: Seq<char>, y: Seq<char>)
    requires
        padding(p),
        p.len() > 0,
        run_len(p + seq!['.'], CharClass::Space) < p.len(),
    ensures
        spec_comment_or_whitespace(p + seq!['.']) is Done,
        0 < spec_comment_or_whitespace(p + seq!['.'])->used <= p.len(),
        spec_comment_or_whitespace(p + y) is Done,
        spec_comment_or_whitespace(p + y)->used == spec_comment_or_whitespace(
            p + seq!['.'],
        )->used,
{
    let s1 = p + seq!['.'];
    let s2 = p + y;
    let len = p.len() as int;
    lemma_padding_item(p, Seq::empty());
    let u = spec_comment_or_whitespace(s1)->used;
    assert(same_front(s1, s2, len)) by {
        assert forall|i: int| 0 <= i < len implies s1[i] == s2[i] by {
            assert(s1[i] == p[i] && s2[i] == p[i]);
        }
    }
    lemma_run_len_shared(s1, s2, len, CharClass::Space);
    if run_len(s1, CharClass::Space) == 0 {
        assert(s1[0] == '/');
        if s1.len() >= 2 && s1[1] == '/' {
            let t1 = s1.skip(2);
            let t2 = s2.skip(2);
            lemma_run_len_is_run(t1, CharClass::Except('\n'));
            assert(t1[len - 2] == '.');
            assert(same_front(t1, t2, len - 2));
            lemma_run_len_shared(t1, t2, len - 2, CharClass::Except('\n'));
        } else {
            lemma_find_shared(s1, s2, len, seq!['*', '/'], 2);
        }
    }
}

/// Padding is skipped whole whatever follows it, and the skipping goes on
/// in what follows as if it began there.
pub proof fn lemma_padding_append(p: Seq<char>, y: Seq<char>)
    requires
        padding(p),
    ensures
        insignificant_len(p + y) == p.len() + insignificant_len(y),
    decreases p.len(),
{
    let s1 = p + seq!['.'];
    let s2 = p + y;
    if p.len() == 0 {
        assert(s2 =~= y);
    } else if run_len(s1, CharClass::Space) < p.len() {
        lemma_first_item_stable(p, y);
        let u = spec_comment_or_whitespace(s1)->used;
        let q = p.skip(u);
        assert(s1.skip(u) =~= q + seq!['.']);
        assert(s2.skip(u) =~= q + y);
        lemma_padding_append(q, y);
    } else {
        lemma_run_len_is_run(s1, CharClass::Space);
        assert(s1[p.len() as int] == '.');
        assert forall|i: int| 0 <= i < p.len() implies CharClass::Space.holds(#[trigger] p[i]) by {
            assert(p[i] == s1[i]);
        }
        lemma_run_len_extends(p, y, CharClass::Space);
        lemma_run_len_is_run(y, CharClass::Space);
        let w = run_len(y, CharClass::Space);
        assert(s2.skip(p.len() + w) =~= y.skip(w));
        if w == 0 {
            assert(y.skip(0) =~= y);
        }
    }
}

/// Padding after padding is padding.
pub proof fn lemma_padding_joined(p: Seq<char>, q: Seq<char>)
    requires
        padding(p),
        padding(q),
    ensures
        padding(p + q),
{
    lemma_padding_append(p, q + seq!['.']);
    assert(p + q + seq!['.'] =~= p + (q + seq!['.']));
}

/// Nothing is skipped before a period.
pub proof fn lemma_period_stops()
    ensures
        insignificant_len(seq!['.']) == 0,
{
    lemma_run_len_is_run(seq!['.'], CharClass::Space);
    assert(seq!['.'][0] == '.');
}

/// Spaces, tabs and line ends are padding.
pub proof fn lemma_space_padding(p: Seq<char>)
    requires
        forall|i: int| 0 <= i < p.len() ==> CharClass::Space.holds(#[trigger] p[i]),
    ensures
        padding(p),
{
    let s = p + seq!['.'];
    lemma_period_stops();
    if p.len() == 0 {
        assert(s =~= seq!['.']);
    } else {
        assert(seq!['.'][0] == '.');
        lemma_run_len_extends(p, seq!['.'], CharClass::Space);
        lemma_run_len_is_run(seq!['.'], CharClass::Space);
        assert(s.skip(p.len() as int) =~= seq!['.']);
    }
}

/// A line comment with its line end is padding.
pub proof fn lemma_line_comment_padding(text: Seq<char>)
    requires
        forall|i: int| 0 <= i < text.len() ==> #[trigger] text[i] != '\n',
    ensures
        padding(seq!['/', '/'] + text + seq!['\n']),
{
    let p = seq!['/', '/'] + text + seq!['\n'];
    let s = p + seq!['.'];
    assert(s[0] == '/' && s[1] == '/');
    lemma_run_len_is_run(s, CharClass::Space);
    assert(s.skip(2) =~= text + (seq!['\n'] + seq!['.']));
    assert((seq!['\n'] + seq!['.'])[0] == '\n');
    assert forall|i: int| 0 <= i < text.len() implies CharClass::Except('\n').holds(
        #[trigger] text[i],
    ) by {}
    crate::scan::lemma_run_len_whole(text, seq!['\n'] + seq!['.'], CharClass::Except('\n'));
    let u = 2 + text.len() as int;
    assert(s.skip(u) =~= seq!['\n'] + seq!['.']);
    lemma_space_padding(seq!['\n']);
}

/// What is found in a text is found as far behind in a longer text as
/// that text has more at its front.
pub proof fn lemma_find_behind(front: Seq<char>, t: Seq<char>, lit: Seq<char>, i: int)
    requires
        0 <= i,
    ensures
        find(front + t, lit, front.len() + i) == match find(t, lit, i) {
            Some(j) => Some(front.len() + j),
            None => None,
        },
    decreases t.len() - i,
{
    if i + lit.len() <= t.len() {
        assert((front + t).skip(front.len() + i) =~= t.skip(i));
        if !lit.is_prefix_of(t.skip(i)) {
            lemma_find_behind(front, t, lit, i + 1);
        }
    }
}

/// A block comment is padding.
pub proof fn lemma_block_comment_padding(text: Seq<char>)
    requires
        find(text + seq!['*', '/'], seq!['*', '/'], 0) == Some(text.len() as int),
    ensures
        padding(seq!['/', '*'] + text + seq!['*', '/']),
{
    let lit = seq!['*', '/'];
    let front = seq!['/', '*'];
    let p = front + text + lit;
    let s = p + seq!['.'];
    assert(find(s, lit, 2) == Some(text.len() as int + 2)) by {
        assert(p =~= front + (text + lit));
        lemma_find_behind(front, text + lit, lit, 0);
        lemma_find_concat(p, seq!['.'], lit, 2);
    }
    assert(s[0] == '/' && s[1] == '*');
    lemma_run_len_is_run(s, CharClass::Space);
    assert(s.skip(text.len() as int + 4) =~= seq!['.']);
    lemma_period_stops();
}

} // verus!
