//! A plain tokenizer: punctuation and names, line by line.

use vstd::prelude::*;
use crate::chars::{is_special, special};
use crate::failure::{agrees, FailureKind, ParseFailure, ParseResult, Parsed};
use crate::scan::{fail_at, lemma_run_len_is_run, run_from, run_len, skip_front, CharClass};
use vstd::slice::slice_subrange;

verus! {

/// A token: one of the twelve special characters, or a name.
#[derive(Debug, Clone, Copy, PartialEq, Eq)]
pub enum Token<'a> {
    Period,
    ForwardSlash,
    LeftParenthesis,
    RightParenthesis,
    LeftBracket,
    RightBracket,
    LeftBrace,
    RightBrace,
    Comma,
    Semicolon,
    Colon,
    Percent,
    String(&'a [char]),
}

/// The mathematical value of a [`Token`].
pub ghost enum TokenView {
    Period,
    ForwardSlash,
    LeftParenthesis,
    RightParenthesis,
    LeftBracket,
    RightBracket,
    LeftBrace,
    RightBrace,
    Comma,
    Semicolon,
    Colon,
    Percent,
    String(Seq<char>),
}

impl<'a> View for Token<'a> {
    type V = TokenView;

    open spec fn view(&self) -> TokenView {
        match self {
            Token::Period => TokenView::Period,
            Token::ForwardSlash => TokenView::ForwardSlash,
            Token::LeftParenthesis => TokenView::LeftParenthesis,
            Token::RightParenthesis => TokenView::RightParenthesis,
            Token::LeftBracket => TokenView::LeftBracket,
            Token::RightBracket => TokenView::RightBracket,
            Token::LeftBrace => TokenView::LeftBrace,
            Token::RightBrace => TokenView::RightBrace,
            Token::Comma => TokenView::Comma,
            Token::Semicolon => TokenView::Semicolon,
            Token::Colon => TokenView::Colon,
            Token::Percent => TokenView::Percent,
            Token::String(name) => TokenView::String(name@),
        }
    }
}

/// The token that a special character is. Of the twelve, the percent sign
/// comes last, and stands for every other character too.
pub open spec fn punctuation(c: char) -> TokenView {
    if c == '.' {
        TokenView::Period
    } else if c == '/' {
        TokenView::ForwardSlash
    } else if c == '(' {
        TokenView::LeftParenthesis
    } else if c == ')' {
        TokenView::RightParenthesis
    } else if c == '[' {
        TokenView::LeftBracket
    } else if c == ']' {
        TokenView::RightBracket
    } else if c == '{' {
        TokenView::LeftBrace
    } else if c == '}' {
        TokenView::RightBrace
    } else if c == ',' {
        TokenView::Comma
    } else if c == ';' {
        TokenView::Semicolon
    } else if c == ':' {
        TokenView::Colon
    } else {
        TokenView::Percent
    }
}

/// A token: optional blanks, and then a special character or else a name.
pub open spec fn spec_token(s: Seq<char>) -> Parsed<TokenView> {
    let a = run_len(s, CharClass::Blank);
    let b = a + run_len(s.skip(a), CharClass::Name);
    if a < s.len() && special(s[a]) {
        Parsed::Done { used: a + 1, value: punctuation(s[a]) }
    } else if b == a {
        Parsed::Fail { kind: FailureKind::EmptyRequiredSpan, at: a }
    } else {
        Parsed::Done { used: b, value: TokenView::String(s.subrange(a, b)) }
    }
}

/// The tokens at the front of `s`, as far as they go.
pub open spec fn tokens(s: Seq<char>) -> Seq<TokenView>
    decreases s.len(),
{
    match spec_token(s) {
        Parsed::Done { used, value } => if 0 < used <= s.len() {
            seq![value] + tokens(s.skip(used))
        } else {
            Seq::empty()
        },
        Parsed::Fail { .. } => Seq::empty(),
    }
}

/// The number of characters that the tokens at the front of `s` take up.
pub open spec fn tokens_len(s: Seq<char>) -> int
    decreases s.len(),
{
    match spec_token(s) {
        Parsed::Done { used, .. } => if 0 < used <= s.len() {
            used + tokens_len(s.skip(used))
        } else {
            0
        },
        Parsed::Fail { .. } => 0,
    }
}

/// A line of tokens: white space, which is dropped, and one or more tokens.
pub open spec fn spec_line(s: Seq<char>) -> Parsed<Seq<TokenView>> {
    let a = run_len(s, CharClass::White);
    if tokens(s.skip(a)).len() == 0 {
        Parsed::Fail { kind: FailureKind::EmptyRequiredSpan, at: a }
    } else {
        Parsed::Done { used: a + tokens_len(s.skip(a)), value: tokens(s.skip(a)) }
    }
}

/// The lines of tokens at the front of `s`, as far as they go.
pub open spec fn lines(s: Seq<char>) -> Seq<Seq<TokenView>>
    decreases s.len(),
{
    match spec_line(s) {
        Parsed::Done { used, value } => if 0 < used <= s.len() {
            seq![value] + lines(s.skip(used))
        } else {
            Seq::empty()
        },
        Parsed::Fail { .. } => Seq::empty(),
    }
}

/// The number of characters that the lines of tokens at the front of `s` take up.
pub open spec fn lines_len(s: Seq<char>) -> int
    decreases s.len(),
{
    match spec_line(s) {
        Parsed::Done { used, .. } => if 0 < used <= s.len() {
            used + lines_len(s.skip(used))
        } else {
            0
        },
        Parsed::Fail { .. } => 0,
    }
}

/// The values of a sequence of tokens.
pub open spec fn token_views<'a>(v: Seq<Token<'a>>) -> Seq<TokenView> {
    v.map_values(|t: Token<'a>| t@)
}

/// The values of a sequence of lines of tokens.
pub open spec fn line_views<'a>(v: Seq<Vec<Token<'a>>>) -> Seq<Seq<TokenView>> {
    v.map_values(|l: Vec<Token<'a>>| token_views(l@))
}

/// A token is not empty and ends within the text.
pub proof fn lemma_token_bounds(s: Seq<char>)
    ensures
        spec_token(s) matches Parsed::Done { used, .. } ==> 0 < used <= s.len(),
{
    lemma_run_len_is_run(s, CharClass::Blank);
    lemma_run_len_is_run(s.skip(run_len(s, CharClass::Blank)), CharClass::Name);
}

/// The tokens at the front of a text end within the text, and each takes
/// up at least one character.
pub proof fn lemma_tokens_bounds(s: Seq<char>)
    ensures
        0 <= tokens(s).len() <= tokens_len(s) <= s.len(),
    decreases s.len(),
{
    lemma_token_bounds(s);
    if let Parsed::Done { used, .. } = spec_token(s) {
        lemma_tokens_bounds(s.skip(used));
    }
}

/// A line of tokens is not empty and ends within the text.
pub proof fn lemma_line_bounds(s: Seq<char>)
    ensures
        spec_line(s) matches Parsed::Done { used, .. } ==> 0 < used <= s.len(),
{
    lemma_run_len_is_run(s, CharClass::White);
    lemma_tokens_bounds(s.skip(run_len(s, CharClass::White)));
}

/// The token that a special character is.
pub fn punctuation_token<'a>(c: char) -> (t: Token<'a>)
    ensures
        t@ == punctuation(c),
{
    if c == '.' {
        Token::Period
    } else if c == '/' {
        Token::ForwardSlash
    } else if c == '(' {
        Token::LeftParenthesis
    } else if c == ')' {
        Token::RightParenthesis
    } else if c == '[' {
        Token::LeftBracket
    } else if c == ']' {
        Token::RightBracket
    } else if c == '{' {
        Token::LeftBrace
    } else if c == '}' {
        Token::RightBrace
    } else if c == ',' {
        Token::Comma
    } else if c == ';' {
        Token::Semicolon
    } else if c == ':' {
        Token::Colon
    } else {
        Token::Percent
    }
}

/// Recognizes one token.
pub fn parse_token<'a>(input: &'a [char]) -> (r: ParseResult<'a, Token<'a>>)
    ensures
        agrees(input@, r, spec_token(input@)),
{
    assert(input@.skip(0) =~= input@);
    let a = run_from(input, 0, CharClass::Blank);
    if a < input.len() && is_special(input[a]) {
        return Ok((skip_front(input, a + 1), punctuation_token(input[a])));
    }
    let b = run_from(input, a, CharClass::Name);
    if b == a {
        return fail_at(input, a, FailureKind::EmptyRequiredSpan);
    }
    Ok((skip_front(input, b), Token::String(slice_subrange(input, a, b))))
}

/// Recognizes a line of tokens: drops the white space at the front and
/// takes tokens as long as there are any. A line without a token is a failure.
pub fn parse_line<'a>(input: &'a [char]) -> (r: Result<(&'a [char], Vec<Token<'a>>), ParseFailure<'a>>)
    ensures
        match r {
            Ok((rest, found)) => spec_line(input@) matches Parsed::Done { used, value } && 0
                <= used <= input@.len() && rest@ == input@.skip(used) && token_views(found@)
                == value,
            Err(e) => spec_line(input@) matches Parsed::Fail { kind, at } && 0 <= at
                <= input@.len() && e.kind == kind && e.rest@ == input@.skip(at),
        },
{
    assert(input@.skip(0) =~= input@);
    let start = run_from(input, 0, CharClass::White);
    let text = skip_front(input, start);
    let mut found: Vec<Token<'a>> = Vec::new();
    let mut pos: usize = 0;
    proof {
        assert(text@.skip(0) =~= text@);
        assert(token_views(found@) =~= Seq::empty());
        assert(Seq::<TokenView>::empty() + tokens(text@) =~= tokens(text@));
    }
    loop
        invariant
            pos <= text.len(),
            tokens(text@) == token_views(found@) + tokens(text@.skip(pos as int)),
            tokens_len(text@) == pos + tokens_len(text@.skip(pos as int)),
        ensures
            pos <= text.len(),
            tokens(text@) == token_views(found@),
            tokens_len(text@) == pos,
        decreases text.len() - pos,
    {
        let ghost before = token_views(found@);
        let ghost unread = text@.skip(pos as int);
        proof {
            lemma_token_bounds(unread);
        }
        match parse_token(skip_front(text, pos)) {
            Ok((rest, token)) => {
                let ghost used = spec_token(unread)->used;
                proof {
                    vstd::seq_lib::lemma_seq_skip_of_skip(text@, pos as int, used);
                    assert(before + (seq![token@] + tokens(unread.skip(used))) =~= before.push(
                        token@,
                    ) + tokens(unread.skip(used)));
                }
                pos = text.len() - rest.len();
                found.push(token);
                assert(token_views(found@) =~= before.push(token@));
            },
            Err(_) => {
                assert(before + Seq::empty() =~= before);
                break ;
            },
        }
    }
    if found.len() == 0 {
        return fail_at(input, start, FailureKind::EmptyRequiredSpan);
    }
    proof {
        vstd::seq_lib::lemma_seq_skip_of_skip(input@, start as int, pos as int);
    }
    Ok((skip_front(input, start + pos), found))
}

/// Recognizes lines of tokens as long as there are any.
pub fn parse_file<'a>(input: &'a [char]) -> (r: (&'a [char], Vec<Vec<Token<'a>>>))
    ensures
        0 <= lines_len(input@) <= input@.len(),
        r.0@ == input@.skip(lines_len(input@)),
        line_views(r.1@) == lines(input@),
{
    let mut found: Vec<Vec<Token<'a>>> = Vec::new();
    let mut pos: usize = 0;
    proof {
        assert(input@.skip(0) =~= input@);
        assert(line_views(found@) =~= Seq::empty());
        assert(Seq::<Seq<TokenView>>::empty() + lines(input@) =~= lines(input@));
    }
    loop
        invariant
            pos <= input.len(),
            lines(input@) == line_views(found@) + lines(input@.skip(pos as int)),
            lines_len(input@) == pos + lines_len(input@.skip(pos as int)),
        ensures
            pos <= input.len(),
            lines(input@) == line_views(found@),
            lines_len(input@) == pos,
        decreases input.len() - pos,
    {
        let ghost before = line_views(found@);
        let ghost unread = input@.skip(pos as int);
        proof {
            lemma_line_bounds(unread);
        }
        match parse_line(skip_front(input, pos)) {
            Ok((rest, line)) => {
                let ghost used = spec_line(unread)->used;
                proof {
                    vstd::seq_lib::lemma_seq_skip_of_skip(input@, pos as int, used);
                    assert(before + (seq![token_views(line@)] + lines(unread.skip(used)))
                        =~= before.push(token_views(line@)) + lines(unread.skip(used)));
                }
                pos = input.len() - rest.len();
                found.push(line);
                assert(line_views(found@) =~= before.push(token_views(line@)));
            },
            Err(_) => {
                assert(before + Seq::empty() =~= before);
                break ;
            },
        }
    }
    (skip_front(input, pos), found)
}

} // verus!
