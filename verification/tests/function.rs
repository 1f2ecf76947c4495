use ptx_parser::cursor::Cursor;
use ptx_parser::failure::FailureKind;
use ptx_parser::function::{
    parse_function, parse_function_body, parse_function_signature, Function, FunctionBody,
    FunctionSignature, Parameters, ReturnValue,
};

fn text(s: &str) -> Vec<char> {
    s.chars().collect()
}

fn show(s: &[char]) -> String {
    s.iter().collect()
}

const SOME_PARAMETERS: &str = "
	.param .b64 _ZN4core9panicking_param_0,
	.param .b64 _ZN4core9panicking_param_1,
	.param .b64 _ZN4core9panicking_param_2
";

const FOO_PARAMETERS: &str = "
	.param .b64 _foo_param_0,
	.param .b64 _foo_param_1
";

fn check_visible_entry_name() {
    let input = text(".visible .entry _Z6kernelPiS_i");
    let name = text("_Z6kernelPiS_i");
    let empty = text("");
    assert_eq!(
        parse_function_signature(&input),
        Ok((
            &empty[..],
            FunctionSignature {
                visible: true,
                entry: true,
                return_value: None,
                name: &name,
                parameters: None,
            }
        ))
    );
}

fn check_func_no_return_no_parameters() {
    let input = text(".func _Z6kernelPiS_i");
    let name = text("_Z6kernelPiS_i");
    let empty = text("");
    assert_eq!(
        parse_function_signature(&input),
        Ok((
            &empty[..],
            FunctionSignature {
                visible: false,
                entry: false,
                return_value: None,
                name: &name,
                parameters: None,
            }
        ))
    );
}

fn check_func_no_return_trivial_parameters() {
    let input = text(".func _ZN4core9panicking(hi)");
    let name = text("_ZN4core9panicking");
    let parameters = text("hi");
    let empty = text("");
    assert_eq!(
        parse_function_signature(&input),
        Ok((
            &empty[..],
            FunctionSignature {
                visible: false,
                entry: false,
                return_value: None,
                name: &name,
                parameters: Some(Parameters { raw_string: &parameters }),
            }
        ))
    );
}

fn check_func_no_return_some_parameters() {
    let source = format!(".func _ZN4core9panicking\n({})", SOME_PARAMETERS);
    let input = text(&source);
    let name = text("_ZN4core9panicking");
    let parameters = text(SOME_PARAMETERS);
    let empty = text("");
    assert_eq!(
        parse_function_signature(&input),
        Ok((
            &empty[..],
            FunctionSignature {
                visible: false,
                entry: false,
                return_value: None,
                name: &name,
                parameters: Some(Parameters { raw_string: &parameters }),
            }
        ))
    );
}

fn check_func_return_and_parameters() {
    let source = format!(".func  (.param .b64 func_retval0) _foo({})", FOO_PARAMETERS);
    let input = text(&source);
    let name = text("_foo");
    let return_value = text(".param .b64 func_retval0");
    let parameters = text(FOO_PARAMETERS);
    let empty = text("");
    assert_eq!(
        parse_function_signature(&input),
        Ok((
            &empty[..],
            FunctionSignature {
                visible: false,
                entry: false,
                return_value: Some(ReturnValue { raw_string: &return_value }),
                name: &name,
                parameters: Some(Parameters { raw_string: &parameters }),
            }
        ))
    );
}

fn check_empty() {
    let input = text(";");
    assert!(parse_function_body(&input).is_err());
}

fn check_non_empty() {
    let input = text("{.reg .b32 %r<3>}");
    let body = text(".reg .b32 %r<3>");
    let empty = text("");
    assert_eq!(
        parse_function_body(&input),
        Ok((&empty[..], FunctionBody { cursor: Cursor::Active(&body) }))
    );
}

fn check_no_return_no_parameters_no_body() {
    let input = text(".func _Z6kernelPiS_i;");
    let name = text("_Z6kernelPiS_i");
    let empty = text("");
    assert_eq!(
        parse_function(&input),
        Ok((
            &empty[..],
            Function {
                signature: FunctionSignature {
                    visible: false,
                    entry: false,
                    return_value: None,
                    name: &name,
                    parameters: None,
                },
                body: None,
            }
        ))
    );
}

fn check_no_return_no_parameters_with_body() {
    let input = text(".func _Z6kernelPiS_i { \n foo \n bar }");
    let name = text("_Z6kernelPiS_i");
    let body = text(" \n foo \n bar ");
    let empty = text("");
    assert_eq!(
        parse_function(&input),
        Ok((
            &empty[..],
            Function {
                signature: FunctionSignature {
                    visible: false,
                    entry: false,
                    return_value: None,
                    name: &name,
                    parameters: None,
                },
                body: Some(FunctionBody { cursor: Cursor::Active(&body) }),
            }
        ))
    );
}

#[test]
fn function_visible_entry_name() {
    check_visible_entry_name();
}

#[test]
fn function_func_no_return_no_parameters() {
    check_func_no_return_no_parameters();
}

#[test]
fn function_func_no_return_trivial_parameters() {
    check_func_no_return_trivial_parameters();
}

#[test]
fn function_func_no_return_some_parameters() {
    check_func_no_return_some_parameters();
}

#[test]
fn function_func_return_and_parameters() {
    check_func_return_and_parameters();
}

#[test]
fn function_empty() {
    check_empty();
}

#[test]
fn function_non_empty() {
    check_non_empty();
}

#[test]
fn function_no_return_no_parameters_no_body() {
    check_no_return_no_parameters_no_body();
}

#[test]
fn function_no_return_no_parameters_with_body() {
    check_no_return_no_parameters_with_body();
}

#[test]
fn mod_visible_entry_name() {
    check_visible_entry_name();
}

#[test]
fn mod_func_no_return_no_parameters() {
    check_func_no_return_no_parameters();
}

#[test]
fn mod_func_no_return_trivial_parameters() {
    check_func_no_return_trivial_parameters();
}

#[test]
fn mod_func_no_return_some_parameters() {
    check_func_no_return_some_parameters();
}

#[test]
fn mod_func_return_and_parameters() {
    check_func_return_and_parameters();
}

#[test]
fn mod_empty() {
    check_empty();
}

#[test]
fn mod_non_empty() {
    check_non_empty();
}

#[test]
fn mod_no_return_no_parameters_no_body() {
    check_no_return_no_parameters_no_body();
}

#[test]
fn mod_no_return_no_parameters_with_body() {
    check_no_return_no_parameters_with_body();
}

fn signature(s: &str) -> Result<(String, bool, bool, String), (FailureKind, String)> {
    let input = text(s);
    match parse_function_signature(&input) {
        Ok((rest, f)) => Ok((show(rest), f.visible, f.entry, show(f.name))),
        Err(e) => Err((e.kind, show(e.rest))),
    }
}

#[test]
fn signature_flags() {
    assert_eq!(signature(".visible \t .entry k"), Ok((String::new(), true, true, "k".to_string())));
    assert_eq!(signature(".func k"), Ok((String::new(), false, false, "k".to_string())));
    assert_eq!(
        signature(".visible .func k"),
        Err((FailureKind::StructuralMismatch, ".visible .func k".to_string()))
    );
    assert_eq!(
        signature(".visible\n.entry k"),
        Err((FailureKind::StructuralMismatch, ".visible\n.entry k".to_string()))
    );
    assert_eq!(signature(".entry k"), Err((FailureKind::StructuralMismatch, ".entry k".to_string())));
}

#[test]
fn signature_spans() {
    assert_eq!(
        signature(".func /* c */ // d\n k // e\n (a) {"),
        Ok((" {".to_string(), false, false, "k".to_string()))
    );
    assert_eq!(signature(".funck"), Err((FailureKind::EmptyRequiredSpan, "k".to_string())));
    assert_eq!(signature(".func  ;"), Err((FailureKind::EmptyRequiredSpan, ";".to_string())));
    assert_eq!(signature(".func (r)"), Err((FailureKind::EmptyRequiredSpan, String::new())));
    assert_eq!(signature(".func k ()"), Ok(("()".to_string(), false, false, "k".to_string())));
    assert_eq!(signature(".func k ((a)b)"), Ok(("b)".to_string(), false, false, "k".to_string())));
}

#[test]
fn declared_and_defined() {
    let input = text(".func k(a);rest");
    let (rest, function) = parse_function(&input).unwrap();
    assert_eq!(show(rest), "rest");
    assert!(function.body.is_none());
    let input = text(".func k(a) // c\n /* d */ {x{y}z}rest");
    let (rest, function) = parse_function(&input).unwrap();
    assert_eq!(show(rest), "rest");
    let inner = text("x{y}z");
    assert_eq!(function.body, Some(FunctionBody { cursor: Cursor::Active(&inner) }));
}

#[test]
fn function_failures() {
    let input = text(".func k(a) ;");
    let e = parse_function(&input).unwrap_err();
    assert_eq!((e.kind, show(e.rest).as_str()), (FailureKind::StructuralMismatch, ";"));
    let input = text(".func k {x{y}");
    let e = parse_function(&input).unwrap_err();
    assert_eq!((e.kind, show(e.rest).as_str()), (FailureKind::UnterminatedDelimiter, "{x{y}"));
    let input = text(".func k");
    let e = parse_function(&input).unwrap_err();
    assert_eq!((e.kind, show(e.rest).as_str()), (FailureKind::StructuralMismatch, ""));
    let input = text(".global x;");
    let e = parse_function(&input).unwrap_err();
    assert_eq!((e.kind, show(e.rest).as_str()), (FailureKind::StructuralMismatch, ".global x;"));
}
