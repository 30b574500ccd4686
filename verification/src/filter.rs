//! The filter that governs log emission: how it is compiled from the base
//! filter and the directives in force, and how it is installed.

use crate::directive::{is_white_space, white_space, ParsedDirective};
use crate::store::{texts_of, DirectiveStore};
use crate::subscriber::{
    cell_poisoned, directive_rendering, filter_rules, install, installed_rules, lenient_filter,
    make_switch, reload_error_text, render_reload_error, rules_of_text, strict_filter,
    strict_rules_of_text, with_directive,
};
use tracing_subscriber::reload::{Handle, Layer};
use tracing_subscriber::{EnvFilter, Registry};
use vstd::prelude::*;
use vstd::std_specs::iter::IteratorSpec;
use vstd::string::*;

verus! {

/// The installed filter was not replaced.
#[derive(Debug, PartialEq, Eq)]
pub struct SwapFailure {
    /// Why it was not.
    pub reason: String,
}

/// Whether a part of a comma-separated list starts at index `i` of `text`.
pub open spec fn starts_piece(text: Seq<char>, i: int) -> bool {
    i <= 0 || text[i - 1] == ','
}

/// The index at which the part of the comma-separated list `text` starts
/// that the character at index `i` belongs to. A comma belongs to the part
/// that it ends.
pub open spec fn piece_start(text: Seq<char>, i: int) -> int
    decreases i,
{
    if starts_piece(text, i) {
        i
    } else {
        piece_start(text, i - 1)
    }
}

/// Whether every part of the comma-separated list `text` is a text that the
/// parser of directives can take: a part that starts with white space holds
/// ASCII characters only.
pub open spec fn pieces_cut_cleanly(text: Seq<char>) -> bool {
    forall|i: int|
        0 <= i < text.len() && is_white_space(text[piece_start(text, i)]) ==> #[trigger] text[i]
            <= '\u{7f}'
}

/// Decides `pieces_cut_cleanly`.
pub fn decide_pieces_cut_cleanly(text: &str) -> (clean: bool)
    ensures
        clean == pieces_cut_cleanly(text@),
{
    let mut at_start = true;
    let mut after_white_space = false;
    let mut clean = true;
    for c in it: text.chars()
        invariant
            it.seq() == text@,
            at_start == starts_piece(text@, it.index() as int),
            !at_start ==> after_white_space == is_white_space(
                text@[piece_start(text@, it.index() - 1)],
            ),
            clean == forall|i: int|
                0 <= i < it.index() && is_white_space(text@[piece_start(text@, i)])
                    ==> #[trigger] text@[i] <= '\u{7f}',
    {
        if at_start {
            after_white_space = white_space(c);
        }
        if after_white_space && c > '\u{7f}' {
            clean = false;
        }
        at_start = c == ',';
    }
    clean
}

/// Whether the characters of `text` from index `from` up to index `to`
/// are a part of the comma-separated list `text` that is not empty.
pub open spec fn is_part(text: Seq<char>, from: int, to: int) -> bool {
    &&& 0 <= from < to <= text.len()
    &&& starts_piece(text, from)
    &&& (to == text.len() || text[to] == ',')
    &&& forall|k: int| from <= k < to ==> #[trigger] text[k] != ','
}

/// Whether every part of the comma-separated list `text` that is not empty
/// is a directive. The empty text is such a list.
pub open spec fn every_part_is_a_directive(text: Seq<char>) -> bool {
    forall|from: int, to: int| #[trigger]
        is_part(text, from, to) ==> directive_rendering(text.subrange(from, to)) is Some
}

/// Whether `text` can serve as a base filter: a comma-separated list of
/// directives that the parser can take, each of them well formed.
pub open spec fn well_formed_filter_text(text: Seq<char>) -> bool {
    pieces_cut_cleanly(text) && every_part_is_a_directive(text)
}

/// The text of the base filter when nothing overrides it: everything at
/// level "info" and above.
pub open spec fn default_filter_text() -> Seq<char> {
    "info"@
}

/// Whether `after` is `before` with the rule `text` put at index `at`:
/// between the rules that were there, or in the place of the one that stood
/// at `at`.
pub open spec fn placed_at(
    before: Seq<Seq<char>>,
    text: Seq<char>,
    after: Seq<Seq<char>>,
    at: int,
) -> bool {
    ||| 0 <= at <= before.len() && after == before.insert(at, text)
    ||| 0 <= at < before.len() && after == before.update(at, text)
}

/// Whether `after` is `before` with the rule `text` put somewhere into it:
/// every other rule stays, in its order, but for at most one, whose place
/// the new rule takes.
pub open spec fn placed(before: Seq<Seq<char>>, text: Seq<char>, after: Seq<Seq<char>>) -> bool {
    exists|at: int| placed_at(before, text, after, at)
}

/// Whether `steps` tells how `base` becomes what it ends with when each of
/// `texts` is put into it, one after another in their order: it starts with
/// `base`, and each of its entries is the one before it with the next text
/// put into it.
pub open spec fn layers(steps: Seq<Seq<Seq<char>>>, base: Seq<Seq<char>>, texts: Seq<Seq<char>>) -> bool {
    &&& steps.len() == texts.len() + 1
    &&& steps[0] == base
    &&& forall|i: int| 0 <= i < texts.len() ==> placed(#[trigger] steps[i], texts[i], steps[i + 1])
}

/// Whether `rules` is what `base` becomes when each of `texts` is put into
/// it, one after another in their order, so that a later one can take the
/// place of an earlier one and never the other way round.
pub open spec fn layered(rules: Seq<Seq<char>>, base: Seq<Seq<char>>, texts: Seq<Seq<char>>) -> bool {
    exists|steps: Seq<Seq<Seq<char>>>| #[trigger] layers(steps, base, texts) && steps.last() == rules
}

/// With nothing put into it, the base is left as it is.
pub proof fn lemma_layered_nothing(base: Seq<Seq<char>>)
    ensures
        layered(base, base, Seq::<Seq<char>>::empty()),
{
    assert(layers(seq![base], base, Seq::<Seq<char>>::empty()));
}

/// What layering leaves: no more rules than the base had and were put in,
/// each of them one of those, and among them the one that was put in last.
pub proof fn lemma_layered_shape(
    rules: Seq<Seq<char>>,
    base: Seq<Seq<char>>,
    texts: Seq<Seq<char>>,
)
    requires
        layered(rules, base, texts),
    ensures
        rules.len() <= base.len() + texts.len(),
        texts.len() > 0 ==> rules.contains(texts.last()),
        forall|i: int|
            0 <= i < rules.len() ==> base.contains(#[trigger] rules[i]) || texts.contains(
                rules[i],
            ),
{
    let steps = choose|steps: Seq<Seq<Seq<char>>>| #[trigger]
        layers(steps, base, texts) && steps.last() == rules;
    lemma_layers_shape(steps, base, texts);
}

proof fn lemma_layers_shape(
    steps: Seq<Seq<Seq<char>>>,
    base: Seq<Seq<char>>,
    texts: Seq<Seq<char>>,
)
    requires
        layers(steps, base, texts),
    ensures
        steps.last().len() <= base.len() + texts.len(),
        texts.len() > 0 ==> steps.last().contains(texts.last()),
        forall|i: int|
            0 <= i < steps.last().len() ==> base.contains(#[trigger] steps.last()[i])
                || texts.contains(steps.last()[i]),
    decreases texts.len(),
{
    let rules = steps.last();
    if texts.len() > 0 {
        let n = texts.len() as int;
        let before = steps[n - 1];
        assert(layers(steps.drop_last(), base, texts.drop_last()));
        lemma_layers_shape(steps.drop_last(), base, texts.drop_last());
        assert(placed(steps[n - 1], texts[n - 1], steps[n]));
        let at = choose|at: int| placed_at(before, texts.last(), rules, at);
        assert(rules[at] == texts.last());
        assert forall|i: int| 0 <= i < rules.len() implies base.contains(#[trigger] rules[i])
            || texts.contains(rules[i]) by {
            if i == at {
                assert(texts[n - 1] == rules[i]);
            } else {
                let j = if rules.len() == before.len() || i < at {
                    i
                } else {
                    i - 1
                };
                assert(rules[i] == before[j]);
                if !base.contains(before[j]) {
                    let k = choose|k: int|
                        0 <= k < texts.drop_last().len() && texts.drop_last()[k] == before[j];
                    assert(texts[k] == rules[i]);
                }
            }
        }
    }
}

/// The filter before any directive of the store is applied. It is fixed when
/// the process starts and never changes.
#[derive(Debug)]
pub struct BaseFilter {
    replacement: Option<String>,
}

impl BaseFilter {
    /// The text that was given to replace the default, if any was.
    pub closed spec fn replacement(&self) -> Option<Seq<char>> {
        match self.replacement {
            Some(text) => Some(text@),
            None => None,
        }
    }

    /// What the base filter holds: the rules of the replacement where one
    /// was given and is well formed, those of the default otherwise.
    pub open spec fn rules(&self) -> Seq<Seq<char>> {
        match self.replacement() {
            Some(text) => if well_formed_filter_text(text) {
                strict_rules_of_text(text)
            } else {
                rules_of_text(default_filter_text())
            },
            None => rules_of_text(default_filter_text()),
        }
    }

    /// A base filter from the text that the environment gives for it, if it
    /// gives one.
    pub fn new(replacement: Option<String>) -> (base: BaseFilter)
        ensures
            base.replacement() == match replacement {
                Some(text) => Some(text@),
                None => None,
            },
    {
        BaseFilter { replacement }
    }

    /// A fresh filter that holds the rules of the base filter.
    pub fn build(&self) -> (filter: EnvFilter)
        ensures
            filter_rules(filter) == self.rules(),
    {
        match &self.replacement {
            Some(text) => {
                if decide_pieces_cut_cleanly(text.as_str()) {
                    match strict_filter(text.as_str()) {
                        Ok(filter) => filter,
                        Err(_) => lenient_filter("info"),
                    }
                } else {
                    lenient_filter("info")
                }
            },
            None => lenient_filter("info"),
        }
    }
}

/// Whether `filter` is what compiling `base` and `directives` gives: it
/// holds what the base filter holds, with each of the directives put into
/// it, one after another in their order.
pub open spec fn compiled_from(filter: EnvFilter, base: BaseFilter, directives: Seq<
    ParsedDirective,
>) -> bool {
    layered(filter_rules(filter), base.rules(), texts_of(directives))
}

/// Compiles the filter that is to govern log emission: the base filter, and
/// on top of it every directive of the store, in store order, so that a
/// later one overrides an earlier one. It never fails: what is malformed
/// never enters a store.
pub fn compile(base: &BaseFilter, directives: &DirectiveStore) -> (filter: EnvFilter)
    ensures
        compiled_from(filter, *base, directives@),
{
    let all = directives.list();
    let mut filter = base.build();
    let ghost mut steps = seq![filter_rules(filter)];
    let mut i: usize = 0;
    while i < all.len()
        invariant
            i <= all.len(),
            all@ == directives@,
            layers(steps, base.rules(), texts_of(all@.take(i as int))),
            steps.last() == filter_rules(filter),
        decreases all.len() - i,
    {
        filter = with_directive(filter, all[i].rule());
        proof {
            let earlier = steps;
            steps = steps.push(filter_rules(filter));
            let texts = texts_of(all@.take(i + 1));
            assert forall|j: int| 0 <= j < texts.len() implies placed(
                #[trigger] steps[j],
                texts[j],
                steps[j + 1],
            ) by {
                if j < i {
                    assert(earlier[j] == steps[j] && earlier[j + 1] == steps[j + 1]);
                    assert(texts_of(all@.take(i as int))[j] == texts[j]);
                }
            }
        }
        i = i + 1;
    }
    assert(all@.take(i as int) =~= all@);
    filter
}

/// Whether `text` is what some failure to install a filter reads as.
pub open spec fn is_reload_reason(text: Seq<char>) -> bool {
    exists|error: tracing_subscriber::reload::Error| text == #[trigger] reload_error_text(error)
}

/// Whether filters can be installed through `handle`: no replacement of
/// the filter behind it has ended in a panic.
pub open spec fn usable(handle: Handle<EnvFilter, Registry>) -> bool {
    !cell_poisoned(handle)
}

/// Makes the switch: a cell that holds `filter`, which is to be made a
/// layer of the subscriber, and the handle through which the filter in it
/// is replaced.
pub fn new_switch(filter: EnvFilter) -> (made: (Layer<EnvFilter, Registry>, Handle<
    EnvFilter,
    Registry,
>))
    ensures
        usable(made.1),
        installed_rules(made.1) == filter_rules(filter),
{
    make_switch(filter)
}

/// What an attempt to install a filter came to, and why where it failed.
pub fn swap_outcome(installed: Result<(), tracing_subscriber::reload::Error>) -> (outcome: Result<
    (),
    SwapFailure,
>)
    ensures
        match installed {
            Ok(_) => outcome is Ok,
            Err(error) => outcome matches Err(failure) && failure.reason@ == reload_error_text(
                error,
            ),
        },
{
    match installed {
        Ok(_) => Ok(()),
        Err(error) => Err(SwapFailure { reason: render_reload_error(&error) }),
    }
}

/// Installs `new_filter` as the filter that every log event is held
/// against from now on, in the place of the one installed before. The
/// replacement is a single step: no event is held against a mixture of the
/// two. When it fails, the filter installed before stays in force, and the
/// failure says why.
///
/// Whether it succeeds is not up to the caller: it fails when the subscriber
/// that the handle belongs to is gone, which no argument shows. What the
/// result is for each answer of the subscriber is `swap_outcome`.
pub fn swap(handle: &mut Handle<EnvFilter, Registry>, new_filter: EnvFilter) -> (outcome: Result<
    (),
    SwapFailure,
>)
    requires
        usable(*old(handle)),
    ensures
        usable(*final(handle)),
        installed_rules(*final(handle)) == match outcome {
            Ok(_) => filter_rules(new_filter),
            Err(_) => installed_rules(*old(handle)),
        },
        outcome matches Err(failure) ==> is_reload_reason(failure.reason@),
{
    swap_outcome(install(handle, new_filter))
}

} // verus!
