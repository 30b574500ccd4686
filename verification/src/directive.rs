//! Filter directives: one rule each, parsed from text such as
//! `my_crate::module=debug`.

use crate::subscriber::{
    directive_refusal, directive_rendering, directive_text, parse_rule, render_parse_error,
    render_rule,
};
use vstd::prelude::*;
use vstd::string::*;
use vstd::utf8::is_ascii_chars;

verus! {

/// One filter rule, as parsed from its text. A directive never changes: an
/// edit replaces or removes it as a whole.
#[derive(Debug)]
pub struct ParsedDirective {
    rule: tracing_subscriber::filter::Directive,
}

/// The text is no directive.
#[derive(Debug, PartialEq, Eq)]
pub struct MalformedDirective {
    /// What is wrong with the text.
    pub reason: String,
}

impl View for ParsedDirective {
    type V = Seq<char>;

    /// The textual form of the directive.
    closed spec fn view(&self) -> Seq<char> {
        directive_text(self.rule)
    }
}

/// The characters that trimming removes from the ends of a text.
pub open spec fn is_white_space(c: char) -> bool {
    let code = c as u32;
    ||| 0x09 <= code <= 0x0D
    ||| code == 0x20
    ||| code == 0x85
    ||| code == 0xA0
    ||| code == 0x1680
    ||| 0x2000 <= code <= 0x200A
    ||| code == 0x2028
    ||| code == 0x2029
    ||| code == 0x202F
    ||| code == 0x205F
    ||| code == 0x3000
}

/// Whether the parser can take `text`. It walks the trimmed text and cuts
/// the untrimmed one at the positions it finds, so a text that starts with
/// white space and holds a character of more than one byte may be cut inside
/// a character. Such a text is no directive.
pub open spec fn cuts_cleanly(text: Seq<char>) -> bool {
    text.len() > 0 && is_white_space(text[0]) ==> is_ascii_chars(text)
}

/// What `text` stands for: the textual form of the directive it parses to,
/// or `None` where it is malformed.
pub open spec fn parsed_text(text: Seq<char>) -> Option<Seq<char>> {
    if cuts_cleanly(text) {
        directive_rendering(text)
    } else {
        None
    }
}

/// What is wrong with a text that never reaches the parser.
pub open spec fn uncut_reason() -> Seq<char> {
    "invalid filter directive"@
}

/// What is wrong with a malformed `text`: what the parser says of it, where
/// it reaches the parser.
pub open spec fn refusal_of(text: Seq<char>) -> Seq<char> {
    if cuts_cleanly(text) {
        directive_refusal(text)
    } else {
        uncut_reason()
    }
}

/// Decides `is_white_space`.
pub fn white_space(c: char) -> (white: bool)
    ensures
        white == is_white_space(c),
{
    let code: u32 = c as u32;
    (0x09 <= code && code <= 0x0D) || code == 0x20 || code == 0x85 || code == 0xA0 || code
        == 0x1680 || (0x2000 <= code && code <= 0x200A) || code == 0x2028 || code == 0x2029 || code
        == 0x202F || code == 0x205F || code == 0x3000
}

/// Decides `cuts_cleanly`.
pub fn decide_cuts_cleanly(text: &str) -> (clean: bool)
    ensures
        clean == cuts_cleanly(text@),
{
    if text.is_ascii() {
        true
    } else {
        !white_space(text.get_char(0))
    }
}

impl ParsedDirective {
    /// Parses one directive. Fails exactly on the texts that are malformed,
    /// and says what is wrong with them.
    pub fn parse(text: &str) -> (parsed: Result<ParsedDirective, MalformedDirective>)
        ensures
            match parsed {
                Ok(directive) => parsed_text(text@) == Some(directive@),
                Err(refusal) => parsed_text(text@) is None && refusal.reason@ == refusal_of(text@),
            },
    {
        if !decide_cuts_cleanly(text) {
            return Err(MalformedDirective { reason: "invalid filter directive".to_owned() });
        }
        match parse_rule(text) {
            Ok(rule) => Ok(ParsedDirective { rule }),
            Err(error) => Err(MalformedDirective { reason: render_parse_error(&error) }),
        }
    }

    /// The textual form, as a listing shows it.
    pub fn text(&self) -> (shown: String)
        ensures
            shown@ == self@,
    {
        render_rule(&self.rule)
    }

    /// The rule as a filter takes it.
    pub(crate) fn rule(&self) -> (rule: &tracing_subscriber::filter::Directive)
        ensures
            directive_text(*rule) == self@,
    {
        &self.rule
    }
}

} // verus!
