use ptx_parser::chars::{is_numeric, is_special, is_whitespace};
use ptx_parser::scan::{scan_run, starts_with, take_while1, CharClass};
use ptx_parser::failure::FailureKind;

fn text(s: &str) -> Vec<char> {
    s.chars().collect()
}

fn show(s: &[char]) -> String {
    s.iter().collect()
}

#[test]
fn white_space_within_ascii() {
    for code in 0u8..128 {
        let c = code as char;
        let expected = c == ' ' || ('\u{9}'..='\u{d}').contains(&c);
        assert_eq!(is_whitespace(c), expected, "{:?}", c);
    }
}

#[test]
fn white_space_beyond_ascii() {
    for c in ['\u{85}', '\u{a0}', '\u{1680}', '\u{2000}', '\u{200a}', '\u{2028}', '\u{2029}', '\u{202f}', '\u{205f}', '\u{3000}'] {
        assert!(is_whitespace(c), "{:?}", c);
    }
    for c in ['\u{200b}', '\u{feff}', '\u{e9}', '\u{8d8a}'] {
        assert!(!is_whitespace(c), "{:?}", c);
    }
}

#[test]
fn numerals_within_ascii() {
    for code in 0u8..128 {
        let c = code as char;
        assert_eq!(is_numeric(c), c.is_ascii_digit(), "{:?}", c);
    }
}

#[test]
fn numerals_beyond_ascii() {
    for c in ['\u{663}', '\u{bd}', '\u{2460}', '\u{2167}', '\u{ff15}'] {
        assert!(is_numeric(c), "{:?}", c);
    }
    for c in ['\u{e9}', '\u{4e09}', '\u{a0}'] {
        assert!(!is_numeric(c), "{:?}", c);
    }
}

#[test]
fn classes() {
    let cases = [
        (CharClass::Name, "aZ0_$@<>!", " \n.%;:{}()[],/\u{a0}"),
        (CharClass::Numeral, "0123456789\u{663}", "a .-+xX"),
        (CharClass::Blank, " \t", "\n\r\u{b}\u{a0}a"),
        (CharClass::Space, " \t\r\n", "\u{b}\u{c}\u{a0}a/"),
        (CharClass::Except(';'), "a \n:.", ";"),
        (CharClass::White, " \t\r\n\u{b}\u{c}\u{a0}", "a.;"),
        (CharClass::Visible, "a.;%", " \t\r\n\u{b}\u{c}\u{a0}"),
        (CharClass::Mnemonic, "az09._$@", " \t\n%;:{}()[],/"),
        (CharClass::LabelName, "az09._$@%;{}", " \t\n:\u{a0}"),
    ];
    for (class, inside, outside) in cases {
        for c in inside.chars() {
            assert!(class.contains(c), "{:?} {:?}", class, c);
        }
        for c in outside.chars() {
            assert!(!class.contains(c), "{:?} {:?}", class, c);
        }
    }
    assert!(is_special('%') && !is_special('$'));
}

#[test]
fn runs() {
    assert_eq!(scan_run(&text("1234.5"), CharClass::Numeral), 4);
    assert_eq!(scan_run(&text(".5"), CharClass::Numeral), 0);
    assert_eq!(scan_run(&text(""), CharClass::Visible), 0);
    assert_eq!(scan_run(&text("abc"), CharClass::Visible), 3);
    let input = text("  x");
    let (rest, run) = take_while1(&input, CharClass::Blank).unwrap();
    assert_eq!((show(rest).as_str(), show(run).as_str()), ("x", "  "));
    let e = take_while1(&input, CharClass::Numeral).unwrap_err();
    assert_eq!((e.kind, show(e.rest).as_str()), (FailureKind::EmptyRequiredSpan, "  x"));
}

#[test]
fn literals() {
    let input = text(".version 7");
    assert!(starts_with(&input, ".version"));
    assert!(starts_with(&input, ""));
    assert!(!starts_with(&input, ".version 7.5"));
    assert!(!starts_with(&input, "version"));
}
