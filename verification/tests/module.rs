use ptx_parser::body::{BodyLine, Operation, OperationKind, Register};
use ptx_parser::cursor::Cursor;
use ptx_parser::failure::FailureKind;
use ptx_parser::module::{is_blank, parse_item, FunctionOrGlobal, PtxFile, PtxParser};

fn text(s: &str) -> Vec<char> {
    s.chars().collect()
}

fn show(s: &[char]) -> String {
    s.iter().collect()
}

const PREAMBLE: &str = ".version 7.5\n.target sm_30\n.address_size 64\n";

fn module(body: &str) -> Vec<char> {
    text(&format!("{}{}", PREAMBLE, body))
}

/// The names of the functions and the texts of the globals that the parser
/// yields, the failure that it yields, if any, and the number of steps
/// until it yields nothing.
fn run(input: &[char]) -> (Vec<String>, Option<(FailureKind, String)>, usize) {
    let mut parser = PtxParser::try_from(input).unwrap();
    let mut items = Vec::new();
    let mut failure = None;
    let mut steps = 0;
    while let Some(step) = parser.next() {
        steps += 1;
        match step {
            Ok((_, FunctionOrGlobal::Function(f))) => items.push(show(f.signature.name)),
            Ok((_, FunctionOrGlobal::Global(g))) => items.push(show(g.raw_string)),
            Err(e) => {
                assert!(failure.is_none());
                failure = Some((e.kind, show(e.rest)));
            }
        }
    }
    assert!(parser.next().is_none());
    (items, failure, steps)
}

#[test]
fn one_kernel() {
    let input = text(
        ".version 7.5\n.target sm_30\n.address_size 64\n\n.visible .entry k\n{\n.reg .f32 %f<4>;\nld.param.u64 %rd1, [p];\nret;\n}\n",
    );
    let mut parser = PtxParser::try_from(&input).unwrap();
    assert_eq!(show(parser.preamble.version.major), "7");
    assert_eq!(show(parser.preamble.version.minor), "5");
    assert_eq!(show(parser.preamble.target.target), "sm_30");
    assert_eq!(show(parser.preamble.address_size.size), "64");
    let (rest, item) = parser.next().unwrap().unwrap();
    assert_eq!(show(rest), "\n");
    let function = item.function().unwrap();
    assert_eq!(show(function.signature.name), "k");
    assert!(function.signature.visible);
    assert!(function.signature.entry);
    assert!(function.signature.return_value.is_none());
    assert!(function.signature.parameters.is_none());
    assert!(parser.next().is_none());
    assert_eq!(parser.body, Cursor::Exhausted);
    assert!(parser.next().is_none());

    let mut body = function.body.unwrap();
    let registers = text(".f32 %f<4>");
    let operands = text("%rd1, [p]");
    let (_, first) = body.next().unwrap().unwrap();
    assert_eq!(first, BodyLine::Register(Register { raw_string: &registers }));
    let (_, second) = body.next().unwrap().unwrap();
    assert_eq!(
        second,
        BodyLine::Operation(Operation { operation: OperationKind::LdParamU64, arguments: &operands })
    );
    let (rest, third) = body.next().unwrap().unwrap();
    assert_eq!(third, BodyLine::Return);
    assert_eq!(show(rest), "\n");
    assert!(body.next().unwrap().is_err());
    assert!(body.next().is_none());
}

#[test]
fn items_in_the_order_of_the_text() {
    let input = module(
        "// first\n.global .align 4 .b8 a[4];\n.func f;\n/* second */ .visible .entry k(\n.param .u64 p\n)\n{ ret; }\n.global b;\n",
    );
    assert_eq!(
        run(&input),
        (vec![".align 4 .b8 a[4]".to_string(), "f".to_string(), "k".to_string(), "b".to_string()], None, 4)
    );
}

#[test]
fn a_tail_of_white_space_and_comments_is_a_clean_end() {
    for tail in ["", "\n", "  \n\t\r\n", "// the end", "\n/* a */\n// b\n\n", "\u{b}", "\n\u{a0}\u{2003} "] {
        let input = module(&format!(".func f;{}", tail));
        assert_eq!(run(&input), (vec!["f".to_string()], None, 1));
    }
    let input = module("");
    assert_eq!(run(&input), (Vec::new(), None, 0));
}

#[test]
fn garbage_is_one_failure_after_the_valid_prefix() {
    let input = module(".func f;\n.global g;\n garbage \n.func h;\n");
    assert_eq!(
        run(&input),
        (
            vec!["f".to_string(), "g".to_string()],
            Some((FailureKind::StructuralMismatch, "garbage \n.func h;\n".to_string())),
            3
        )
    );
    let input = module("/* open\n.func f;");
    assert_eq!(
        run(&input),
        (Vec::new(), Some((FailureKind::StructuralMismatch, "/* open\n.func f;".to_string())), 1)
    );
    let input = module(".global g");
    assert_eq!(run(&input), (Vec::new(), Some((FailureKind::UnterminatedDelimiter, String::new())), 1));
}

#[test]
fn a_failed_parser_keeps_its_failure() {
    let input = module(".func f;\n?");
    let mut parser = PtxParser::try_from(&input).unwrap();
    assert!(parser.next().unwrap().is_ok());
    let e = parser.next().unwrap().unwrap_err();
    assert_eq!(show(e.rest), "?");
    assert_eq!(parser.body, Cursor::Failed(e));
    assert!(parser.next().is_none());
    assert_eq!(parser.body, Cursor::Failed(e));
}

#[test]
fn no_parser_without_a_whole_preamble() {
    for (source, kind, rest) in [
        ("", FailureKind::StructuralMismatch, ""),
        (".target sm_30", FailureKind::StructuralMismatch, ".target sm_30"),
        (".version 7.5\n.target sm_30\n", FailureKind::StructuralMismatch, ""),
        (".version 7.5\n.target sm_30 .address_size", FailureKind::EmptyRequiredSpan, ""),
        (".version 7\n", FailureKind::StructuralMismatch, "\n"),
    ] {
        let input = text(source);
        let e = PtxParser::try_from(&input).unwrap_err();
        assert_eq!((e.kind, show(e.rest).as_str()), (kind, rest));
        let e = PtxFile::try_from(&input).unwrap_err();
        assert_eq!((e.kind, show(e.rest).as_str()), (kind, rest));
    }
}

#[test]
fn the_parser_stands_behind_the_preamble() {
    let input = module(".func f;");
    let parser = PtxParser::try_from(&input).unwrap();
    match parser.body {
        Cursor::Active(rest) => assert_eq!(show(rest), "\n.func f;"),
        other => panic!("{:?}", other),
    }
}

#[test]
fn a_whole_file() {
    let input = module(".global a;\n.func f;\n.visible .entry k { ret; }\n.global b;\n// end\n");
    let file = PtxFile::try_from(&input).unwrap();
    assert_eq!(show(file.preamble.target.target), "sm_30");
    let functions: Vec<String> = file.functions.iter().map(|f| show(f.signature.name)).collect();
    assert_eq!(functions, vec!["f".to_string(), "k".to_string()]);
    assert!(file.functions[0].body.is_none());
    assert!(file.functions[1].body.is_some());
    let globals: Vec<String> = file.globals.iter().map(|g| show(g.raw_string)).collect();
    assert_eq!(globals, vec!["a".to_string(), "b".to_string()]);
    let input = module("");
    let file = PtxFile::try_from(&input).unwrap();
    assert!(file.functions.is_empty() && file.globals.is_empty());
}

#[test]
fn a_file_with_a_failure_is_no_file() {
    let input = module(".global a;\n.func f;\n.funk g;\n.global b;\n");
    let e = PtxFile::try_from(&input).unwrap_err();
    assert_eq!(e.kind, FailureKind::StructuralMismatch);
    assert_eq!(show(e.rest), ".funk g;\n.global b;\n");
}

#[test]
fn function_before_global() {
    let input = text(".global g;x");
    let (rest, item) = parse_item(&input).unwrap();
    assert_eq!(show(rest), "x");
    assert_eq!(show(item.global().unwrap().raw_string), "g");
    assert!(item.function().is_none());
    let input = text(".func f;x");
    let (rest, item) = parse_item(&input).unwrap();
    assert_eq!(show(rest), "x");
    assert_eq!(show(item.function().unwrap().signature.name), "f");
    assert!(item.global().is_none());
    let input = text(".func ;");
    let e = parse_item(&input).unwrap_err();
    assert_eq!((e.kind, show(e.rest).as_str()), (FailureKind::StructuralMismatch, ".func ;"));
}

#[test]
fn blank_text() {
    for source in ["", " ", "\n\t \r", "\u{b}\u{c}", "\u{85}\u{a0}\u{1680}\u{2028}\u{3000}"] {
        assert!(is_blank(&text(source)));
    }
    for source in ["x", "  .", "\u{200b}", " \u{feff}", "//"] {
        assert!(!is_blank(&text(source)));
    }
}

#[test]
fn steps_round_trip() {
    let source = format!("{}{}", PREAMBLE, " .global a; // c\n.func f (x) ; ");
    let input = text(&source);
    let mut parser = PtxParser::try_from(&input).unwrap();
    let mut unread = match parser.body {
        Cursor::Active(rest) => rest,
        other => panic!("{:?}", other),
    };
    assert!(source.ends_with(&show(unread)));
    while let Some(step) = parser.next() {
        let rest = match step {
            Ok((rest, _)) => rest,
            Err(e) => e.rest,
        };
        assert!(rest.len() <= unread.len());
        assert_eq!(&unread[unread.len() - rest.len()..], rest);
        unread = rest;
    }
}
