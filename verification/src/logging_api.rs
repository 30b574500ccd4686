//! The control surface: list, add, change and delete directives of a running
//! process. Every edit that reaches the store is followed by a reload, which
//! compiles the filter anew and installs it.

use crate::directive::{parsed_text, refusal_of, ParsedDirective};
use crate::filter::{
    compile, is_reload_reason, layered, lemma_layered_nothing, new_switch, swap, usable,
    BaseFilter,
};
use crate::store::{
    lemma_texts_of_insert, lemma_texts_of_remove, lemma_texts_of_update, resolve_position,
    resolved_index, texts_of, DirectiveStore,
};
use crate::subscriber::installed_rules;
use tracing_subscriber::reload::Handle;
use tracing_subscriber::{EnvFilter, Registry};
use vstd::prelude::*;
use vstd::string::*;

verus! {

/// Why an edit was refused or did not take full effect.
#[derive(Debug, PartialEq, Eq)]
pub enum ControlError {
    /// The text is no directive, for the reason given. Nothing was changed.
    InvalidDirective(String),
    /// The position is outside the bound of the edit. Nothing was changed.
    PositionOutOfRange,
    /// The edit is in the store, but the filter compiled from it could not
    /// be installed, for the reason given: the filter installed before is
    /// still in force.
    InternalReloadError(String),
}

/// The text shown for a position outside the bound of an edit.
pub open spec fn out_of_range_text() -> Seq<char> {
    "Position out of range"@
}

impl ControlError {
    /// The text shown to the caller.
    pub open spec fn message_text(self) -> Seq<char> {
        match self {
            ControlError::InvalidDirective(reason) => reason@,
            ControlError::PositionOutOfRange => out_of_range_text(),
            ControlError::InternalReloadError(reason) => reason@,
        }
    }

    /// The text shown to the caller: the reason of the error where it
    /// carries one.
    pub fn message(&self) -> (text: String)
        ensures
            text@ == self.message_text(),
    {
        match self {
            ControlError::InvalidDirective(reason) => reason.clone(),
            ControlError::PositionOutOfRange => "Position out of range".to_owned(),
            ControlError::InternalReloadError(reason) => reason.clone(),
        }
    }
}

/// The state of the control surface: the switch through which a filter is
/// installed, the base filter, and the directives in force. It is made once
/// and handed to whatever serves the requests; an edit needs it exclusively,
/// so two edits never interleave, nor an edit and the reload of another.
#[derive(Debug)]
pub struct DynamicLogHandler {
    reload_handle: Handle<EnvFilter, Registry>,
    base: BaseFilter,
    directives: DirectiveStore,
}

impl DynamicLogHandler {
    /// Whether filters can be installed through the switch. It is so from
    /// the start and stays so through every edit, as long as nothing but
    /// this handler writes to the cell.
    pub closed spec fn switch_usable(&self) -> bool {
        usable(self.reload_handle)
    }

    /// The directives in force, in order.
    pub closed spec fn directives(&self) -> Seq<ParsedDirective> {
        self.directives@
    }

    /// The texts of the directives in force, in order.
    pub open spec fn texts(&self) -> Seq<Seq<char>> {
        texts_of(self.directives())
    }

    /// The base filter.
    pub closed spec fn base(&self) -> BaseFilter {
        self.base
    }

    /// What the installed filter holds.
    pub closed spec fn installed(&self) -> Seq<Seq<char>> {
        installed_rules(self.reload_handle)
    }

    /// Whether the installed filter is the one compiled from the base
    /// filter and the directives now in force.
    pub open spec fn in_step(&self) -> bool {
        layered(self.installed(), self.base().rules(), self.texts())
    }

    /// What holds after the reload that follows an edit of `earlier`: on
    /// success the installed filter is in step with the store; on failure,
    /// which is always `InternalReloadError`, the filter installed before
    /// the edit is still in force, while the store holds the edit, and the
    /// error carries what the subscriber gave as the reason. Which of the
    /// two happens is up to the subscriber.
    pub open spec fn reloaded_from(&self, earlier: &DynamicLogHandler, done: Result<
        (),
        ControlError,
    >) -> bool {
        match done {
            Ok(_) => self.in_step(),
            Err(error) => {
                &&& error matches ControlError::InternalReloadError(reason)
                &&& is_reload_reason(reason@)
                &&& self.installed() == earlier.installed()
            },
        }
    }

    /// A control surface with no directive, together with the cell that it
    /// installs filters into, which is to be made a layer of the
    /// subscriber. The cell starts with the base filter, so the installed
    /// filter is in step with the store from the start.
    pub fn new(base: BaseFilter) -> (made: (
        tracing_subscriber::reload::Layer<EnvFilter, Registry>,
        DynamicLogHandler,
    ))
        ensures
            made.1.directives() == Seq::<ParsedDirective>::empty(),
            made.1.base() == base,
            made.1.installed() == base.rules(),
            made.1.in_step(),
            made.1.switch_usable(),
    {
        let (layer, reload_handle) = new_switch(base.build());
        proof {
            lemma_layered_nothing(base.rules());
            assert(texts_of(Seq::<ParsedDirective>::empty()) =~= Seq::<Seq<char>>::empty());
        }
        (layer, DynamicLogHandler { reload_handle, base, directives: DirectiveStore::new() })
    }

    /// Compiles the filter from the base filter and all directives in
    /// force, and installs it. The store is not touched.
    fn reload(&mut self) -> (done: Result<(), ControlError>)
        requires
            old(self).switch_usable(),
        ensures
            final(self).switch_usable(),
            final(self).base() == old(self).base(),
            final(self).directives() == old(self).directives(),
            final(self).reloaded_from(old(self), done),
    {
        let filter = compile(&self.base, &self.directives);
        match swap(&mut self.reload_handle, filter) {
            Ok(_) => Ok(()),
            Err(failure) => Err(ControlError::InternalReloadError(failure.reason)),
        }
    }

    /// The text of each directive in force, in store order.
    pub fn list_directives(&self) -> (shown: Vec<String>)
        ensures
            shown@.len() == self.texts().len(),
            forall|i: int| 0 <= i < shown@.len() ==> #[trigger] shown@[i]@ == self.texts()[i],
    {
        let all = self.directives.list();
        let mut shown: Vec<String> = Vec::new();
        let mut i: usize = 0;
        while i < all.len()
            invariant
                i <= all.len(),
                all@ == self.directives@,
                shown.len() == i,
                forall|j: int| 0 <= j < i ==> #[trigger] shown@[j]@ == all@[j]@,
            decreases all.len() - i,
        {
            shown.push(all[i].text());
            i = i + 1;
        }
        shown
    }

    /// Adds `directive` before the entry at `position`, or after it, then
    /// reloads.
    ///
    /// A position past the end is refused, and nothing changes. Otherwise
    /// the directive is in the store when this returns, what stood at its
    /// index and after has moved up by one, and the result tells whether
    /// the new filter was installed: the directive stays in the store even
    /// when it was not.
    pub fn add_parsed(&mut self, directive: ParsedDirective, position: u32, before: bool) -> (done:
        Result<(), ControlError>)
        requires
            old(self).switch_usable(),
        ensures
            final(self).switch_usable(),
            if resolved_index(position, before) > old(self).directives().len() {
                &&& done == Err::<(), ControlError>(ControlError::PositionOutOfRange)
                &&& *final(self) == *old(self)
            } else {
                &&& final(self).base() == old(self).base()
                &&& final(self).directives() == old(self).directives().insert(
                    resolved_index(position, before),
                    directive,
                )
                &&& final(self).reloaded_from(old(self), done)
            },
    {
        let index = resolve_position(position, before);
        if index > self.directives.len() as u64 {
            return Err(ControlError::PositionOutOfRange);
        }
        match self.directives.insert(index as usize, directive) {
            Ok(_) => self.reload(),
            Err(_) => Err(ControlError::PositionOutOfRange),
        }
    }

    /// Parses `directive` and adds it before the entry at `position`, or
    /// after it, then reloads.
    ///
    /// A text that is no directive is refused first, whatever the position;
    /// then a position past the end. In both cases nothing changes.
    /// Otherwise the directive is in the store when this returns, and the
    /// result tells whether the new filter was installed: the directive
    /// stays in the store even when it was not.
    pub fn add_directive(&mut self, directive: &str, position: u32, before: bool) -> (done: Result<
        (),
        ControlError,
    >)
        requires
            old(self).switch_usable(),
        ensures
            final(self).switch_usable(),
            match parsed_text(directive@) {
                None => {
                    &&& done matches Err(ControlError::InvalidDirective(reason))
                    &&& reason@ == refusal_of(directive@)
                    &&& *final(self) == *old(self)
                },
                Some(text) => if resolved_index(position, before) > old(self).directives().len() {
                    &&& done == Err::<(), ControlError>(ControlError::PositionOutOfRange)
                    &&& *final(self) == *old(self)
                } else {
                    &&& final(self).base() == old(self).base()
                    &&& exists|parsed: ParsedDirective|
                        parsed@ == text && #[trigger] old(self).directives().insert(
                            resolved_index(position, before),
                            parsed,
                        ) == final(self).directives()
                    &&& final(self).texts() == old(self).texts().insert(
                        resolved_index(position, before),
                        text,
                    )
                    &&& final(self).reloaded_from(old(self), done)
                },
            },
    {
        match ParsedDirective::parse(directive) {
            Err(refusal) => Err(ControlError::InvalidDirective(refusal.reason)),
            Ok(parsed) => {
                proof {
                    if resolved_index(position, before) <= self.directives().len() {
                        lemma_texts_of_insert(
                            self.directives(),
                            resolved_index(position, before),
                            parsed,
                        );
                    }
                }
                self.add_parsed(parsed, position, before)
            },
        }
    }

    /// Puts `directive` in the place of the entry at `position`, then
    /// reloads.
    ///
    /// A position at or past the end is refused, and nothing changes.
    /// Otherwise the replacement is in the store when this returns, and the
    /// result tells whether the new filter was installed: the replacement
    /// stays in the store even when it was not.
    pub fn change_parsed(&mut self, position: u32, directive: ParsedDirective) -> (done: Result<
        (),
        ControlError,
    >)
        requires
            old(self).switch_usable(),
        ensures
            final(self).switch_usable(),
            if position >= old(self).directives().len() {
                &&& done == Err::<(), ControlError>(ControlError::PositionOutOfRange)
                &&& *final(self) == *old(self)
            } else {
                &&& final(self).base() == old(self).base()
                &&& final(self).directives() == old(self).directives().update(
                    position as int,
                    directive,
                )
                &&& final(self).reloaded_from(old(self), done)
            },
    {
        if position as u64 >= self.directives.len() as u64 {
            return Err(ControlError::PositionOutOfRange);
        }
        match self.directives.replace(position as usize, directive) {
            Ok(_) => self.reload(),
            Err(_) => Err(ControlError::PositionOutOfRange),
        }
    }

    /// Parses `directive` and puts it in the place of the entry at
    /// `position`, then reloads.
    ///
    /// A text that is no directive is refused first, whatever the position;
    /// then a position at or past the end. In both cases nothing changes.
    /// Otherwise the replacement is in the store when this returns, and the
    /// result tells whether the new filter was installed: the replacement
    /// stays in the store even when it was not.
    pub fn change_directive(&mut self, position: u32, directive: &str) -> (done: Result<
        (),
        ControlError,
    >)
        requires
            old(self).switch_usable(),
        ensures
            final(self).switch_usable(),
            match parsed_text(directive@) {
                None => {
                    &&& done matches Err(ControlError::InvalidDirective(reason))
                    &&& reason@ == refusal_of(directive@)
                    &&& *final(self) == *old(self)
                },
                Some(text) => if position >= old(self).directives().len() {
                    &&& done == Err::<(), ControlError>(ControlError::PositionOutOfRange)
                    &&& *final(self) == *old(self)
                } else {
                    &&& final(self).base() == old(self).base()
                    &&& exists|parsed: ParsedDirective|
                        parsed@ == text && #[trigger] old(self).directives().update(
                            position as int,
                            parsed,
                        ) == final(self).directives()
                    &&& final(self).texts() == old(self).texts().update(position as int, text)
                    &&& final(self).reloaded_from(old(self), done)
                },
            },
    {
        match ParsedDirective::parse(directive) {
            Err(refusal) => Err(ControlError::InvalidDirective(refusal.reason)),
            Ok(parsed) => {
                proof {
                    if position < self.directives().len() {
                        lemma_texts_of_update(self.directives(), position as int, parsed);
                    }
                }
                self.change_parsed(position, parsed)
            },
        }
    }

    /// Takes out the entry at `position`, then reloads.
    ///
    /// A position at or past the end is refused, and nothing changes.
    /// Otherwise the entry is gone when this returns, what stood after it
    /// has moved down by one, and the result tells whether the new filter
    /// was installed: the entry stays out of the store even when it was not.
    pub fn delete_directive(&mut self, position: u32) -> (done: Result<(), ControlError>)
        requires
            old(self).switch_usable(),
        ensures
            final(self).switch_usable(),
            if position >= old(self).directives().len() {
                &&& done == Err::<(), ControlError>(ControlError::PositionOutOfRange)
                &&& *final(self) == *old(self)
            } else {
                &&& final(self).base() == old(self).base()
                &&& final(self).directives() == old(self).directives().remove(position as int)
                &&& final(self).texts() == old(self).texts().remove(position as int)
                &&& final(self).reloaded_from(old(self), done)
            },
    {
        proof {
            if position < self.directives().len() {
                lemma_texts_of_remove(self.directives(), position as int);
            }
        }
        if position as u64 >= self.directives.len() as u64 {
            return Err(ControlError::PositionOutOfRange);
        }
        match self.directives.delete(position as usize) {
            Ok(_) => self.reload(),
            Err(_) => Err(ControlError::PositionOutOfRange),
        }
    }
}

} // verus!
