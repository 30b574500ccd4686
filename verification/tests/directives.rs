use dynlog::directive::{decide_cuts_cleanly, white_space, MalformedDirective, ParsedDirective};

const NO_DIRECTIVE: &str = "invalid filter directive";
const NO_LEVEL: &str = "error parsing level filter: expected one of \"off\", \"error\", \"warn\", \"info\", \"debug\", \"trace\", or a number 0-5";

fn shown(text: &str) -> Result<String, MalformedDirective> {
    ParsedDirective::parse(text).map(|directive| directive.text())
}

fn malformed(reason: &str) -> Result<String, MalformedDirective> {
    Err(MalformedDirective { reason: String::from(reason) })
}

#[test]
fn scope_with_level_is_shown_as_written() {
    assert_eq!(shown("x=debug"), Ok(String::from("x=debug")));
    assert_eq!(shown("my_crate::module=trace"), Ok(String::from("my_crate::module=trace")));
}

#[test]
fn level_is_shown_in_lower_case() {
    assert_eq!(shown("x=DEBUG"), Ok(String::from("x=debug")));
    assert_eq!(shown("WARN"), Ok(String::from("warn")));
}

#[test]
fn bare_level_applies_to_every_scope() {
    assert_eq!(shown("info"), Ok(String::from("info")));
}

#[test]
fn scope_without_level_enables_every_level() {
    assert_eq!(shown("my_crate::module"), Ok(String::from("my_crate::module=trace")));
}

#[test]
fn every_severity_is_a_level() {
    for level in ["trace", "debug", "info", "warn", "error", "off"] {
        let text = format!("x={}", level);
        assert_eq!(shown(&text), Ok(text.clone()));
    }
}

#[test]
fn unknown_level_is_malformed() {
    assert_eq!(shown("x=bogus"), malformed(NO_LEVEL));
}

#[test]
fn empty_text_is_malformed() {
    assert_eq!(shown(""), malformed(NO_DIRECTIVE));
}

#[test]
fn text_that_starts_with_a_sign_is_malformed() {
    assert_eq!(shown("=debug"), malformed(NO_DIRECTIVE));
    assert_eq!(shown("*=debug"), malformed(NO_DIRECTIVE));
}

#[test]
fn scope_beyond_ascii_is_a_directive() {
    assert_eq!(shown("é=debug"), Ok(String::from("é=debug")));
}

#[test]
fn white_space_before_a_scope_beyond_ascii_is_malformed() {
    assert!(!decide_cuts_cleanly(" é=debug"));
    assert_eq!(shown(" é=debug"), malformed(NO_DIRECTIVE));
    assert_eq!(shown("\u{3000}é=debug"), malformed(NO_DIRECTIVE));
}

#[test]
fn ascii_text_always_reaches_the_parser() {
    assert!(decide_cuts_cleanly(""));
    assert!(decide_cuts_cleanly(" x=debug"));
    assert!(decide_cuts_cleanly("x=debug"));
    assert!(decide_cuts_cleanly("é "));
}

#[test]
fn white_space_is_what_trimming_removes() {
    let mut code: u32 = 0;
    while code <= 0x11_0000 {
        if let Some(c) = char::from_u32(code) {
            assert_eq!(white_space(c), c.is_whitespace(), "U+{:04X}", code);
        }
        code += 1;
    }
}

#[test]
fn field_pattern_that_is_no_pattern_is_malformed_with_its_reason() {
    match shown("[span{field=(}]=debug") {
        Err(refusal) => assert!(refusal.reason.starts_with("invalid field filter: ")),
        Ok(text) => panic!("taken as {}", text),
    }
}

#[test]
fn rules_that_differ_can_read_alike() {
    assert_eq!(shown("[{x=1}]=debug"), Ok(String::from("[{x=1}]=debug")));
    assert_eq!(shown("[{x=1.0}]=debug"), Ok(String::from("[{x=1}]=debug")));
}
