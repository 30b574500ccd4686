//! The calls into `tracing_subscriber`. Nothing in this file is proved: each
//! contract states what the named function of that crate does, and every
//! proof in the library rests on them.

use crate::directive::cuts_cleanly;
use crate::filter::{default_filter_text, every_part_is_a_directive, pieces_cut_cleanly, placed};
use vstd::prelude::*;

verus! {

/// `filter::Directive`: one parsed rule. What it holds is spoken of through
/// `directive_text`.
#[verifier::external_type_specification]
#[verifier::external_body]
pub struct ExDirective(tracing_subscriber::filter::Directive);

/// `filter::ParseError`: why a text is no directive.
#[verifier::external_type_specification]
#[verifier::external_body]
pub struct ExParseError(tracing_subscriber::filter::ParseError);

/// `EnvFilter`: two tables of rules, against which log events are held.
/// What it holds is spoken of through `filter_rules`.
#[verifier::external_type_specification]
#[verifier::external_body]
pub struct ExEnvFilter(tracing_subscriber::EnvFilter);

/// `Registry`: the subscriber that the filter is a layer of. It only stands
/// in the types of the switch.
#[verifier::external_type_specification]
#[verifier::external_body]
pub struct ExRegistry(tracing_subscriber::Registry);

/// `reload::Layer`: the cell that holds the filter of a running subscriber.
/// It is handed on to be registered and never looked into.
#[verifier::external_type_specification]
#[verifier::external_body]
#[verifier::reject_recursive_types(L)]
#[verifier::reject_recursive_types(S)]
pub struct ExReloadLayer<L, S>(tracing_subscriber::reload::Layer<L, S>);

/// `reload::Handle`: the means to replace the filter in the cell. What
/// stands in the cell is spoken of through `installed_rules`.
#[verifier::external_type_specification]
#[verifier::external_body]
#[verifier::reject_recursive_types(L)]
#[verifier::reject_recursive_types(S)]
pub struct ExHandle<L, S>(tracing_subscriber::reload::Handle<L, S>);

/// `reload::Error`: why a filter was not installed.
#[verifier::external_type_specification]
#[verifier::external_body]
pub struct ExReloadError(tracing_subscriber::reload::Error);

/// What a directive holds, as `Display` writes it.
pub uninterp spec fn directive_text(rule: tracing_subscriber::filter::Directive) -> Seq<char>;

/// What `FromStr` makes of `text`: the text of the directive, or `None`
/// where it refuses `text`.
pub uninterp spec fn directive_rendering(text: Seq<char>) -> Option<Seq<char>>;

/// The error with which `FromStr` refuses `text`, as `Display` writes it.
pub uninterp spec fn directive_refusal(text: Seq<char>) -> Seq<char>;

/// What a parse error holds, as `Display` writes it.
pub uninterp spec fn parse_error_text(error: tracing_subscriber::filter::ParseError) -> Seq<
    char,
>;

/// What a reload error holds, as `Display` writes it.
pub uninterp spec fn reload_error_text(error: tracing_subscriber::reload::Error) -> Seq<char>;

/// What a filter holds: the rules of its table of static rules and then
/// those of its table of dynamic rules, each table in the order in which it
/// is kept, each rule as `Display` writes it. `Display` writes the filter
/// as these rules, one after another with commas between them.
pub uninterp spec fn filter_rules(filter: tracing_subscriber::EnvFilter) -> Seq<Seq<char>>;

/// What the filter holds that `EnvFilter::new` makes of `text`.
pub uninterp spec fn rules_of_text(text: Seq<char>) -> Seq<Seq<char>>;

/// What the filter holds that `EnvFilter::try_new` makes of `text`, where
/// it makes one.
pub uninterp spec fn strict_rules_of_text(text: Seq<char>) -> Seq<Seq<char>>;

/// What the filter holds that stands in the cell behind `handle`.
pub uninterp spec fn installed_rules(
    handle: tracing_subscriber::reload::Handle<
        tracing_subscriber::EnvFilter,
        tracing_subscriber::Registry,
    >,
) -> Seq<Seq<char>>;

/// Whether the lock of the cell behind `handle` is poisoned: whether a
/// replacement of its filter ended in a panic.
pub uninterp spec fn cell_poisoned(
    handle: tracing_subscriber::reload::Handle<
        tracing_subscriber::EnvFilter,
        tracing_subscriber::Registry,
    >,
) -> bool;

/// `<Directive as FromStr>::from_str`. The parser reads nothing but `text`.
/// It slices `text` at offsets that it found in `text.trim()`, which panics
/// inside a character of more than one byte: `requires` leaves out the
/// texts on which the two may differ at the front.
#[verifier::external_body]
pub(crate) fn parse_rule(text: &str) -> (parsed: Result<
    tracing_subscriber::filter::Directive,
    tracing_subscriber::filter::ParseError,
>)
    requires
        cuts_cleanly(text@),
    ensures
        match parsed {
            Ok(rule) => directive_rendering(text@) == Some(directive_text(rule)),
            Err(error) => directive_rendering(text@) is None && directive_refusal(text@)
                == parse_error_text(error),
        },
{
    text.parse::<tracing_subscriber::filter::Directive>()
}

/// `<Directive as Display>::fmt`, through `to_string`.
#[verifier::external_body]
pub(crate) fn render_rule(rule: &tracing_subscriber::filter::Directive) -> (text: String)
    ensures
        text@ == directive_text(*rule),
{
    rule.to_string()
}

/// `<ParseError as Display>::fmt`, through `to_string`.
#[verifier::external_body]
pub(crate) fn render_parse_error(error: &tracing_subscriber::filter::ParseError) -> (text:
    String)
    ensures
        text@ == parse_error_text(*error),
{
    error.to_string()
}

/// `<reload::Error as Display>::fmt`, through `to_string`.
#[verifier::external_body]
pub(crate) fn render_reload_error(error: &tracing_subscriber::reload::Error) -> (text: String)
    ensures
        text@ == reload_error_text(*error),
{
    error.to_string()
}

/// `EnvFilter::try_new`: a filter made from a comma-separated list of
/// directives. It takes the text where every part between commas that is
/// not empty is a directive, and gives the error of the first that is not.
/// The parts are parsed as single directives are, so `requires` leaves out
/// the same texts as for `parse_rule`, part by part.
#[verifier::external_body]
pub(crate) fn strict_filter(text: &str) -> (made: Result<
    tracing_subscriber::EnvFilter,
    tracing_subscriber::filter::ParseError,
>)
    requires
        pieces_cut_cleanly(text@),
    ensures
        made is Ok <==> every_part_is_a_directive(text@),
        made matches Ok(filter) ==> filter_rules(filter) == strict_rules_of_text(text@),
{
    tracing_subscriber::EnvFilter::try_new(text)
}

/// `EnvFilter::new`: a filter made from the parts of `text` that are
/// directives. For a part that is none it writes a line to the standard
/// error stream, and panics where that cannot be written: `requires` admits
/// the default text only, which has no such part.
#[verifier::external_body]
pub(crate) fn lenient_filter(text: &str) -> (made: tracing_subscriber::EnvFilter)
    requires
        text@ == default_filter_text(),
    ensures
        filter_rules(made) == rules_of_text(text@),
{
    tracing_subscriber::EnvFilter::new(text)
}

/// `EnvFilter::add_directive`: the rule goes into one of the two tables, at
/// the place that its specificity gives it. There it takes the place of the
/// rule for exactly the same scope, if the table has one, and otherwise
/// stands between the rules that were there. Which of the two happens, and
/// where, cannot be read off the texts of the rules: two rules that differ
/// can be written alike.
#[verifier::external_body]
pub(crate) fn with_directive(
    filter: tracing_subscriber::EnvFilter,
    rule: &tracing_subscriber::filter::Directive,
) -> (extended: tracing_subscriber::EnvFilter)
    ensures
        placed(filter_rules(filter), directive_text(*rule), filter_rules(extended)),
{
    filter.add_directive(rule.clone())
}

/// `reload::Layer::new`: a fresh cell that holds `filter`, and the handle to
/// it.
#[verifier::external_body]
pub(crate) fn make_switch(filter: tracing_subscriber::EnvFilter) -> (made: (
    tracing_subscriber::reload::Layer<tracing_subscriber::EnvFilter, tracing_subscriber::Registry>,
    tracing_subscriber::reload::Handle<
        tracing_subscriber::EnvFilter,
        tracing_subscriber::Registry,
    >,
))
    ensures
        installed_rules(made.1) == filter_rules(filter),
        !cell_poisoned(made.1),
{
    tracing_subscriber::reload::Layer::new(filter)
}

/// `Handle::reload`: puts `filter` into the cell, in one assignment under
/// the cell's own lock. It fails when the cell is gone, and then nothing was
/// replaced; nothing here tells beforehand which will happen. On a poisoned
/// lock it panics: `requires` leaves that out. The assignment itself does
/// not panic, so the lock is not poisoned afterwards. The method takes
/// `&self` and a handle can be cloned: what is said here of the cell holds
/// as long as nothing else writes to it.
#[verifier::external_body]
pub(crate) fn install(
    handle: &mut tracing_subscriber::reload::Handle<
        tracing_subscriber::EnvFilter,
        tracing_subscriber::Registry,
    >,
    filter: tracing_subscriber::EnvFilter,
) -> (installed: Result<(), tracing_subscriber::reload::Error>)
    requires
        !cell_poisoned(*old(handle)),
    ensures
        !cell_poisoned(*final(handle)),
        installed_rules(*final(handle)) == if installed is Ok {
            filter_rules(filter)
        } else {
            installed_rules(*old(handle))
        },
{
    handle.reload(filter)
}

} // verus!
