use ptx_parser::failure::FailureKind;
use ptx_parser::global::parse_global;

fn text(s: &str) -> Vec<char> {
    s.chars().collect()
}

fn show(s: &[char]) -> String {
    s.iter().collect()
}

fn global(s: &str) -> Result<(String, String), (FailureKind, String)> {
    let input = text(s);
    match parse_global(&input) {
        Ok((rest, g)) => Ok((show(rest), show(g.raw_string))),
        Err(e) => Err((e.kind, show(e.rest))),
    }
}

#[test]
fn global_trivial_exaample() {
    assert_eq!(global(".global hello;"), Ok((String::new(), "hello".to_string())));
}

#[test]
fn mod_trivial_exaample() {
    assert_eq!(global(".global hello;"), Ok((String::new(), "hello".to_string())));
}

#[test]
fn global_keeps_the_declaration_as_it_is() {
    assert_eq!(
        global(".global \t.align 4 .b8 buf[16] = {1, 2};\n.func f;"),
        Ok(("\n.func f;".to_string(), ".align 4 .b8 buf[16] = {1, 2}".to_string()))
    );
}

#[test]
fn global_failures() {
    assert_eq!(global(".func f;"), Err((FailureKind::StructuralMismatch, ".func f;".to_string())));
    assert_eq!(global(".globalx;"), Err((FailureKind::EmptyRequiredSpan, "x;".to_string())));
    assert_eq!(global(".global ;"), Err((FailureKind::EmptyRequiredSpan, ";".to_string())));
    assert_eq!(global(".global x"), Err((FailureKind::UnterminatedDelimiter, String::new())));
    assert_eq!(global(".global\nx;"), Err((FailureKind::EmptyRequiredSpan, "\nx;".to_string())));
}
