//! The recognizers of the library against the same grammar written with
//! the combinators of `nom`, on every suffix of a corpus of module texts.

use nom::branch::alt;
use nom::bytes::complete::{tag, take_until, take_until1, take_while, take_while1};
use nom::character::complete::{char, multispace1, space0, space1};
use nom::combinator::opt;
use nom::multi::{many0, many0_count, many1, many1_count};
use nom::sequence::{delimited, preceded, terminated};
use nom::{IResult, Parser};

use ptx_parser::body::{BodyLine, Goto, Operation, OperationKind, Predicate, Register};
use ptx_parser::call::parse_function_call;
use ptx_parser::chars::is_special;
use ptx_parser::comment::{
    comment_or_whitespace, empty_comments_and_whitespace, many1_comments_or_whitespace,
    parse_line_comment, Comment,
};
use ptx_parser::failure::ParseResult;
use ptx_parser::global::parse_global;
use ptx_parser::lexical::{_parse_braced_naive, parse_name, parse_parenthesized_naive};
use ptx_parser::line::{parse_body_line, parse_goto, parse_operation, parse_register};
use ptx_parser::preamble::{parse_address_size, parse_preamble, parse_target, parse_version};
use ptx_parser::token::{parse_file, parse_line, parse_token, Token};

const EXAMPLE_FILE: &str = ".version 7.5
.target sm_30
.address_size 64

.visible .entry _Z6kernelPiS_i
{
    .reg .f32   %f<4>;
    .reg .s32   %r<4>;
    .reg .pred  %p<3>;
    .reg .b32   %r4;
    .reg .b64   %rd<3>;

    ld.param.u64    %rd1, [__cudaparm__Z6kernelPiS_i_a];
    ld.param.u64    %rd2, [__cudaparm__Z6kernelPiS_i_b];
    ld.param.u64    %rd3, [__cudaparm__Z6kernelPiS_i_c];
    cvta.to.global.u64  %rd4, %rd1;
    cvta.to.global.u64  %rd5, %rd2;
    cvta.to.global.u64  %rd6, %rd3;
    ld.global.f32   %f1, [%rd4];
    ld.global.f32   %f2, [%rd5];
    ld.global.f32   %f3, [%rd6];
    add.f32     %f4, %f1, %f2;
    add.f32     %f4, %f4, %f3;
    st.global.f32   [%rd4], %f4;
    ret;
}
";

const KERNEL_PTX: &str = "//
// Generated by LLVM NVPTX Back-End
//

.version 6.0
.target sm_30
.address_size 64

	// .globl	square_kernel

.visible .entry square_kernel(
	.param .u64 square_kernel_param_0,
	.param .u64 square_kernel_param_1,
	.param .u32 square_kernel_param_2
)
{
	.reg .pred 	%p<2>;
	.reg .b32 	%r<6>;
	.reg .f32 	%f<3>;
	.reg .b64 	%rd<8>;

	ld.param.u32 	%r1, [square_kernel_param_2];
	mov.u32 	%r2, %tid.x;
	mov.u32 	%r3, %ctaid.x;
	mov.u32 	%r4, %ntid.x;
	mad.lo.s32 	%r5, %r3, %r4, %r2;
	setp.lt.s32 	%p1, %r5, %r1;
	@%p1 bra 	$L__BB0_2;
	bra.uni 	$L__BB0_1;
$L__BB0_2:
	ld.param.u64 	%rd3, [square_kernel_param_0];
	ld.param.u64 	%rd4, [square_kernel_param_1];
	cvta.to.global.u64 	%rd5, %rd4;
	cvta.to.global.u64 	%rd6, %rd3;
	mul.wide.s32 	%rd7, %r5, 4;
	add.s64 	%rd1, %rd5, %rd7;
	add.s64 	%rd2, %rd6, %rd7;
	ld.global.f32 	%f1, [%rd2];
	mul.rn.f32 	%f2, %f1, %f1;
	st.global.f32 	[%rd1], %f2;
$L__BB0_1:
	ret;

}
";

const EXTRA: &str = "  // a comment\n/* a block */ .global .align 4 .b8 buf[16];\n.func  (.param .b64 r) _foo(\n\t.param .b64 a\n) ;\n.func bar(x);\n{ // callseq 0, 0\n\t.reg .b32 t;\n\tcall.uni (r), f, (a);\n\t} // callseq 0\n@!%p2 bra $L2;\n$L2: retval;\n.reg;\n/* open\n";

const BEYOND_ASCII: &str = ".version \u{663}.\u{968}\u{a0}x\n.target sm\u{a0}30 // caf\u{e9}\n/* \u{2003} */\u{b}.address_size 6\u{bd}4\u{2028};\n$\u{3bb}:\u{3000}mov.u32\u{85}%r1;@\u{e9} bra $\u{4e09};\n{ // callseq \u{2460}\n";

/// Every suffix of every text of the corpus.
fn suffixes() -> Vec<&'static str> {
    let mut all = Vec::new();
    for source in [EXAMPLE_FILE, KERNEL_PTX, EXTRA, BEYOND_ASCII] {
        for (start, _) in source.char_indices() {
            all.push(&source[start..]);
        }
        all.push("");
    }
    all
}

fn show(s: &[char]) -> String {
    s.iter().collect()
}

/// What a recognizer answered, in plain values: the remainder and the
/// value on success, the span of the failure otherwise.
type Answer<T> = Result<(String, T), String>;

fn theirs<'a, T, U>(r: IResult<&'a str, T>, plain: impl Fn(T) -> U) -> Answer<U> {
    match r {
        Ok((rest, v)) => Ok((rest.to_string(), plain(v))),
        Err(nom::Err::Error(e)) | Err(nom::Err::Failure(e)) => Err(e.input.to_string()),
        Err(nom::Err::Incomplete(_)) => unreachable!(),
    }
}

fn ours<'a, T, U>(r: ParseResult<'a, T>, plain: impl Fn(T) -> U) -> Answer<U> {
    match r {
        Ok((rest, v)) => Ok((show(rest), plain(v))),
        Err(e) => Err(show(e.rest)),
    }
}

fn text_of(s: &str) -> String {
    s.to_string()
}

fn name(input: &str) -> IResult<&str, &str> {
    take_while1(|c: char| !c.is_whitespace() && !is_special(c))(input)
}

fn parenthesized(input: &str) -> IResult<&str, &str> {
    delimited(char('('), take_while1(|c: char| c != ')'), char(')'))(input)
}

fn braced(input: &str) -> IResult<&str, &str> {
    delimited(char('{'), take_while1(|c: char| c != '}'), char('}'))(input)
}

#[derive(Debug, PartialEq)]
enum PlainComment {
    Line(String),
    Block(String),
}

fn line_comment(input: &str) -> IResult<&str, PlainComment> {
    preceded(
        char('/'),
        alt((
            preceded(char('/'), take_while(|c: char| c != '\n'))
                .map(|t: &str| PlainComment::Line(t.to_string())),
            delimited(char('*'), take_until("*/"), tag("*/"))
                .map(|t: &str| PlainComment::Block(t.to_string())),
        )),
    )(input)
}

fn plain_comment(c: Comment) -> PlainComment {
    match c {
        Comment::Line(t) => PlainComment::Line(show(t)),
        Comment::Block(t) => PlainComment::Block(show(t)),
    }
}

fn insignificant_item(input: &str) -> IResult<&str, String> {
    alt((
        multispace1.map(|t: &str| t.to_string()),
        line_comment.map(|c| match c {
            PlainComment::Line(t) => t,
            PlainComment::Block(t) => t,
        }),
    ))(input)
}

fn many1_insignificant(input: &str) -> IResult<&str, usize> {
    many1_count(insignificant_item)(input)
}

fn many0_insignificant(input: &str) -> IResult<&str, usize> {
    many0_count(insignificant_item)(input)
}

#[test]
fn lexical_primitives_against_combinators() {
    for s in suffixes() {
        let input: Vec<char> = s.chars().collect();
        assert_eq!(ours(parse_name(&input), show), theirs(name(s), text_of), "{:?}", s);
        assert_eq!(
            ours(parse_parenthesized_naive(&input), show),
            theirs(parenthesized(s), text_of),
            "{:?}",
            s
        );
        assert_eq!(ours(_parse_braced_naive(&input), show), theirs(braced(s), text_of), "{:?}", s);
    }
}

#[test]
fn comments_against_combinators() {
    for s in suffixes() {
        let input: Vec<char> = s.chars().collect();
        assert_eq!(
            ours(parse_line_comment(&input), plain_comment),
            theirs(line_comment(s), |c| c),
            "{:?}",
            s
        );
        assert_eq!(
            ours(comment_or_whitespace(&input), show),
            theirs(insignificant_item(s), |t| t),
            "{:?}",
            s
        );
        assert_eq!(
            ours(many1_comments_or_whitespace(&input), |n| n),
            theirs(many1_insignificant(s), |n| n),
            "{:?}",
            s
        );
        let (rest, count) = empty_comments_and_whitespace(&input);
        assert_eq!(
            Ok((show(rest), count)),
            theirs(many0_insignificant(s), |n| n),
            "{:?}",
            s
        );
    }
}

fn version(input: &str) -> IResult<&str, (String, String)> {
    preceded(tag(".version").and(space1), take_while1(char::is_numeric))
        .and(preceded(char('.'), take_while1(char::is_numeric)))
        .map(|(major, minor): (&str, &str)| (major.to_string(), minor.to_string()))
        .parse(input)
}

fn target(input: &str) -> IResult<&str, String> {
    preceded(tag(".target").and(space1), name.map(text_of))(input)
}

fn address_size(input: &str) -> IResult<&str, String> {
    preceded(tag(".address_size").and(space1), name.map(text_of))(input)
}

fn preamble(input: &str) -> IResult<&str, ((String, String), String, String)> {
    preceded(opt(many1_insignificant), version)
        .and(preceded(many1_insignificant, target))
        .and(preceded(many1_insignificant, address_size))
        .map(|((v, t), a)| (v, t, a))
        .parse(input)
}

fn global(input: &str) -> IResult<&str, String> {
    delimited(
        tag(".global").and(space1),
        take_while1(|c: char| c != ';').map(text_of),
        char(';'),
    )(input)
}

#[test]
fn directives_against_combinators() {
    for s in suffixes() {
        let input: Vec<char> = s.chars().collect();
        assert_eq!(
            ours(parse_version(&input), |v| (show(v.major), show(v.minor))),
            theirs(version(s), |v| v),
            "{:?}",
            s
        );
        assert_eq!(
            ours(parse_target(&input), |t| show(t.target)),
            theirs(target(s), |t| t),
            "{:?}",
            s
        );
        assert_eq!(
            ours(parse_address_size(&input), |a| show(a.size)),
            theirs(address_size(s), |a| a),
            "{:?}",
            s
        );
        assert_eq!(
            ours(parse_preamble(&input), |p| (
                (show(p.version.major), show(p.version.minor)),
                show(p.target.target),
                show(p.address_size.size)
            )),
            theirs(preamble(s), |p| p),
            "{:?}",
            s
        );
        assert_eq!(
            ours(parse_global(&input), |g| show(g.raw_string)),
            theirs(global(s), |g| g),
            "{:?}",
            s
        );
    }
}

#[derive(Debug, PartialEq)]
enum PlainLine {
    Register(String),
    Operation(String, String),
    Label(String),
    Goto(Option<(bool, String)>, String),
    Return,
    Entry(String),
    Exit(String),
    Unknown(String),
}

fn kind(mnemonic: &str) -> String {
    match mnemonic {
        "ld.param.u32" => "LdParamU32".to_string(),
        "mov.u32" => "MovU32".to_string(),
        "mad.lo.s32" => "MadLoS32".to_string(),
        "setp.lt.s32" => "SetpLtS32".to_string(),
        "ld.param.u64" => "LdParamU64".to_string(),
        "cvta.to.global.u64" => "CvtaToGlobalU64".to_string(),
        "mul.wide.s32" => "MulWideS32".to_string(),
        "add.s64" => "AddS64".to_string(),
        "ld.global.f32" => "LdGlobalF32".to_string(),
        "mul.rn.f32" => "MulRnF32".to_string(),
        "st.global.f32" => "StGlobalF32".to_string(),
        "mov.u64" => "MovU64".to_string(),
        "cvta.global.u64" => "CvtaGlobalU64".to_string(),
        "setp.ge.s32" => "SetpGeS32".to_string(),
        "cvt.s64.s32" => "CvtS64S32".to_string(),
        "add.u64" => "AddU64".to_string(),
        "mul.lo.s32" => "MulLoS32".to_string(),
        other => format!("Unknown({})", other),
    }
}

fn register(input: &str) -> IResult<&str, PlainLine> {
    preceded(
        tag(".reg").and(space1),
        take_while1(|_| true).map(|t: &str| PlainLine::Register(t.to_string())),
    )(input)
}

fn operation(input: &str) -> IResult<&str, PlainLine> {
    take_while1(|c: char| !c.is_whitespace() && (c == '.' || !is_special(c)))
        .and(preceded(space1, take_while1(|_| true)))
        .map(|(m, a): (&str, &str)| PlainLine::Operation(kind(m), a.to_string()))
        .parse(input)
}

/// The branch; what is left behind the `$` is the label.
fn goto(input: &str) -> IResult<&str, PlainLine> {
    let (label, predicate) = alt((
        delimited(
            char('@'),
            opt(char('!')).and(take_while1(|c: char| !c.is_whitespace())).map(
                |(negation, register): (Option<char>, &str)| {
                    Some((negation.is_none(), register.to_string()))
                },
            ),
            space1.and(tag("bra")).and(space1).and(char('$')),
        ),
        tag("bra.uni").and(space1).and(char('$')).map(|_| None),
    ))(input)?;
    Ok(("", PlainLine::Goto(predicate, label.to_string())))
}

fn marker(brace: char) -> impl Fn(&str) -> IResult<&str, String> {
    move |input| {
        preceded(
            char(brace)
                .and(space1)
                .and(tag("//"))
                .and(space1)
                .and(tag("callseq"))
                .and(space1),
            take_while1(|c: char| c != '\n').map(text_of),
        )(input)
    }
}

fn body_line(input: &str) -> IResult<&str, PlainLine> {
    let first = alt((
        delimited(char('$'), take_while1(|c: char| !c.is_whitespace() && c != ':'), char(':'))
            .map(|t: &str| PlainLine::Label(t.to_string())),
        terminated(take_while1(|c: char| c != ';'), char(';'))
            .map(|t: &str| PlainLine::Unknown(t.to_string())),
    ))(input)?;
    Ok(match first {
        (rest, PlainLine::Unknown(statement)) => {
            let (_, line) = alt((
                tag("ret").map(|_| PlainLine::Return),
                marker('{').map(PlainLine::Entry),
                marker('}').map(PlainLine::Exit),
                goto,
                register,
                operation,
                take_while1(|_| true).map(|t: &str| PlainLine::Unknown(t.to_string())),
            ))
            .parse(statement.as_str())
            .map_err(|_| nom::Err::Error(nom::error::Error::new(input, nom::error::ErrorKind::Alt)))?;
            (rest, line)
        }
        label => label,
    })
}

fn kind_text(kind: OperationKind) -> String {
    match kind {
        OperationKind::Unknown(m) => format!("Unknown({})", show(m)),
        known => format!("{:?}", known),
    }
}

fn plain_line(line: BodyLine) -> PlainLine {
    match line {
        BodyLine::Register(Register { raw_string }) => PlainLine::Register(show(raw_string)),
        BodyLine::Operation(Operation { operation, arguments }) => {
            PlainLine::Operation(kind_text(operation), show(arguments))
        }
        BodyLine::Label(t) => PlainLine::Label(show(t)),
        BodyLine::Goto(Goto { predicate, label }) => PlainLine::Goto(
            match predicate {
                Some(Predicate::True(r)) => Some((true, show(r))),
                Some(Predicate::False(r)) => Some((false, show(r))),
                None => None,
            },
            show(label),
        ),
        BodyLine::Return => PlainLine::Return,
        BodyLine::FunctionCallEntry(t) => PlainLine::Entry(show(t)),
        BodyLine::FunctionCallExit(t) => PlainLine::Exit(show(t)),
        BodyLine::Unknown(t) => PlainLine::Unknown(show(t)),
    }
}

#[test]
fn lines_against_combinators() {
    for s in suffixes() {
        let input: Vec<char> = s.chars().collect();
        assert_eq!(
            ours(parse_body_line(&input), plain_line),
            theirs(body_line(s), |l| l),
            "{:?}",
            s
        );
        let statement = s.split(';').next().unwrap();
        let input: Vec<char> = statement.chars().collect();
        assert_eq!(
            ours(parse_register(&input), |r| PlainLine::Register(show(r.raw_string))),
            theirs(register(statement), |l| l),
            "{:?}",
            statement
        );
        assert_eq!(
            ours(parse_operation(&input), |o| plain_line(BodyLine::Operation(o))),
            theirs(operation(statement), |l| l),
            "{:?}",
            statement
        );
        assert_eq!(
            ours(parse_goto(&input), |g| plain_line(BodyLine::Goto(g))),
            theirs(goto(statement), |l| l),
            "{:?}",
            statement
        );
    }
}

#[derive(Debug, PartialEq)]
struct PlainCall {
    setup: String,
    function: String,
    arguments: String,
    comment: PlainComment,
}

fn function_call(input: &str) -> IResult<&str, PlainCall> {
    let (rest, (content, comment)) = delimited(char('{'), balanced_content, char('}'))
        .and(preceded(space0, line_comment))
        .parse(input)?;
    take_until1("call.uni")
        .and(delimited(
            tag("call.uni").and(multispace1),
            take_while1(|c: char| c != ','),
            char(','),
        ))
        .parse(content)
        .map(|(arguments, (setup, function)): (&str, (&str, &str))| {
            (
                rest,
                PlainCall {
                    setup: setup.to_string(),
                    function: function.to_string(),
                    arguments: arguments.to_string(),
                    comment,
                },
            )
        })
}

/// What stands in a block up to the brace that closes it.
fn balanced_content(input: &str) -> IResult<&str, &str> {
    let mut depth = 1;
    for (i, c) in input.char_indices() {
        match c {
            '{' => depth += 1,
            '}' => {
                depth -= 1;
                if depth == 0 {
                    return Ok((&input[i..], &input[..i]));
                }
            }
            _ => (),
        }
    }
    Err(nom::Err::Error(nom::error::Error::new(input, nom::error::ErrorKind::Eof)))
}

#[test]
fn call_sequences_against_combinators() {
    let mut found = 0;
    for s in suffixes() {
        let input: Vec<char> = s.chars().collect();
        let expected = match function_call(s) {
            Ok((rest, call)) => match &call.comment {
                PlainComment::Line(t) if t.trim_start_matches([' ', '\t']).starts_with("callseq") => {
                    Some((rest.to_string(), call))
                }
                _ => None,
            },
            Err(_) => None,
        };
        let actual = match parse_function_call(&input) {
            Ok((rest, call)) => Some((
                show(rest),
                PlainCall {
                    setup: show(call.setup),
                    function: show(call.function),
                    arguments: show(call.arguments),
                    comment: plain_comment(call.comment),
                },
            )),
            Err(_) => None,
        };
        found += actual.is_some() as usize;
        assert_eq!(actual, expected, "{:?}", s);
    }
    assert_eq!(found, 1);
}

#[derive(Debug, PartialEq)]
enum PlainToken {
    Punctuation(char),
    String(String),
}

fn token(input: &str) -> IResult<&str, PlainToken> {
    preceded(
        space0,
        alt((
            alt((
                char('.'),
                char('/'),
                char('('),
                char(')'),
                char('['),
                char(']'),
                char('{'),
                char('}'),
                char(','),
                char(';'),
                char(':'),
                char('%'),
            ))
            .map(PlainToken::Punctuation),
            take_while1(|c: char| !c.is_whitespace() && !is_special(c))
                .map(|t: &str| PlainToken::String(t.to_string())),
        )),
    )(input)
}

fn token_line(input: &str) -> IResult<&str, Vec<PlainToken>> {
    many1(token)(input.trim_start())
}

fn token_file(input: &str) -> IResult<&str, Vec<Vec<PlainToken>>> {
    many0(token_line)(input)
}

fn plain_token(t: Token) -> PlainToken {
    match t {
        Token::Period => PlainToken::Punctuation('.'),
        Token::ForwardSlash => PlainToken::Punctuation('/'),
        Token::LeftParenthesis => PlainToken::Punctuation('('),
        Token::RightParenthesis => PlainToken::Punctuation(')'),
        Token::LeftBracket => PlainToken::Punctuation('['),
        Token::RightBracket => PlainToken::Punctuation(']'),
        Token::LeftBrace => PlainToken::Punctuation('{'),
        Token::RightBrace => PlainToken::Punctuation('}'),
        Token::Comma => PlainToken::Punctuation(','),
        Token::Semicolon => PlainToken::Punctuation(';'),
        Token::Colon => PlainToken::Punctuation(':'),
        Token::Percent => PlainToken::Punctuation('%'),
        Token::String(t) => PlainToken::String(show(t)),
    }
}

fn plain_tokens(tokens: Vec<Token>) -> Vec<PlainToken> {
    tokens.into_iter().map(plain_token).collect()
}

#[test]
fn tokens_against_combinators() {
    for s in suffixes() {
        let input: Vec<char> = s.chars().collect();
        assert_eq!(ours(parse_token(&input), plain_token), theirs(token(s), |t| t), "{:?}", s);
        assert_eq!(
            ours(parse_line(&input), plain_tokens),
            theirs(token_line(s), |t| t),
            "{:?}",
            s
        );
    }
    for source in [EXAMPLE_FILE, KERNEL_PTX, EXTRA, BEYOND_ASCII] {
        let input: Vec<char> = source.chars().collect();
        let (rest, lines) = parse_file(&input);
        let lines: Vec<Vec<PlainToken>> = lines.into_iter().map(plain_tokens).collect();
        assert_eq!(Ok((show(rest), lines)), theirs(token_file(source), |l| l), "{:?}", source);
    }
}
