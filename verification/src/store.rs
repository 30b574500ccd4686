//! The ordered store of directives. The order matters: a later directive
//! overrides an earlier one for the scopes they share.

use crate::directive::ParsedDirective;
use vstd::prelude::*;

verus! {

/// The position lies outside the bound of the edit: past the end for an
/// insertion, at or past the end for a replacement or a removal.
#[derive(Clone, Copy, Debug, PartialEq, Eq)]
pub struct PositionOutOfRange {}

/// One edit of a sequence of directives, by 0-based position.
pub enum Edit {
    /// Put `directive` at `position`; what stood there and after moves up.
    Insert { position: int, directive: ParsedDirective },
    /// Put `directive` in the place of the one at `position`.
    Replace { position: int, directive: ParsedDirective },
    /// Take out the one at `position`; what stood after moves down.
    Delete { position: int },
}

impl Edit {
    /// Whether the position of the edit is within its bound on `entries`.
    pub open spec fn applies_to(self, entries: Seq<ParsedDirective>) -> bool {
        match self {
            Edit::Insert { position, .. } => 0 <= position <= entries.len(),
            Edit::Replace { position, .. } => 0 <= position < entries.len(),
            Edit::Delete { position } => 0 <= position < entries.len(),
        }
    }

    /// The sequence after the edit. An edit that does not apply changes
    /// nothing.
    pub open spec fn apply(self, entries: Seq<ParsedDirective>) -> Seq<ParsedDirective> {
        if !self.applies_to(entries) {
            entries
        } else {
            match self {
                Edit::Insert { position, directive } => entries.insert(position, directive),
                Edit::Replace { position, directive } => entries.update(position, directive),
                Edit::Delete { position } => entries.remove(position),
            }
        }
    }

    /// By how much the edit changes the length of a sequence it applies to.
    pub open spec fn growth(self) -> int {
        match self {
            Edit::Insert { .. } => 1,
            Edit::Replace { .. } => 0,
            Edit::Delete { .. } => -1,
        }
    }
}

/// Whether each of `edits`, made in order, applies to what the ones before
/// it left.
pub open spec fn all_apply(entries: Seq<ParsedDirective>, edits: Seq<Edit>) -> bool
    decreases edits.len(),
{
    edits.len() > 0 ==> all_apply(entries, edits.drop_last()) && edits.last().applies_to(
        apply_all(entries, edits.drop_last()),
    )
}

/// The sequence after `edits`, made in order.
pub open spec fn apply_all(entries: Seq<ParsedDirective>, edits: Seq<Edit>) -> Seq<
    ParsedDirective,
>
    decreases edits.len(),
{
    if edits.len() == 0 {
        entries
    } else {
        edits.last().apply(apply_all(entries, edits.drop_last()))
    }
}

/// The sum of the growth of `edits`.
pub open spec fn total_growth(edits: Seq<Edit>) -> int
    decreases edits.len(),
{
    if edits.len() == 0 {
        0
    } else {
        total_growth(edits.drop_last()) + edits.last().growth()
    }
}

/// The texts of `entries`, in order.
pub open spec fn texts_of(entries: Seq<ParsedDirective>) -> Seq<Seq<char>> {
    entries.map_values(|directive: ParsedDirective| directive@)
}

/// The index at which an addition relative to `position` lands: `position`
/// itself for "before", the one after it for "after".
pub open spec fn resolved_index(position: u32, before: bool) -> int {
    if before {
        position as int
    } else {
        position + 1
    }
}

/// Computes `resolved_index`.
pub fn resolve_position(position: u32, before: bool) -> (index: u64)
    ensures
        index == resolved_index(position, before),
{
    if before {
        position as u64
    } else {
        position as u64 + 1
    }
}

/// The directives in force, in order.
#[derive(Debug)]
pub struct DirectiveStore {
    entries: Vec<ParsedDirective>,
}

impl View for DirectiveStore {
    type V = Seq<ParsedDirective>;

    closed spec fn view(&self) -> Seq<ParsedDirective> {
        self.entries@
    }
}

impl DirectiveStore {
    /// An empty store.
    pub fn new() -> (store: DirectiveStore)
        ensures
            store@ == Seq::<ParsedDirective>::empty(),
    {
        DirectiveStore { entries: Vec::new() }
    }

    /// The number of directives.
    pub fn len(&self) -> (count: usize)
        ensures
            count == self@.len(),
    {
        self.entries.len()
    }

    /// The directives, in store order.
    pub fn list(&self) -> (all: &Vec<ParsedDirective>)
        ensures
            all@ == self@,
    {
        &self.entries
    }

    /// Puts `directive` at `position` and moves what stood there and after
    /// up by one. Fails, and changes nothing, when `position` is past the end.
    pub fn insert(&mut self, position: usize, directive: ParsedDirective) -> (done: Result<
        (),
        PositionOutOfRange,
    >)
        ensures
            done is Ok <==> (Edit::Insert { position: position as int, directive }).applies_to(
                old(self)@,
            ),
            final(self)@ == (Edit::Insert { position: position as int, directive }).apply(
                old(self)@,
            ),
    {
        if position <= self.entries.len() {
            self.entries.insert(position, directive);
            Ok(())
        } else {
            Err(PositionOutOfRange {  })
        }
    }

    /// Puts `directive` in the place of the one at `position`. Fails, and
    /// changes nothing, when there is none.
    pub fn replace(&mut self, position: usize, directive: ParsedDirective) -> (done: Result<
        (),
        PositionOutOfRange,
    >)
        ensures
            done is Ok <==> (Edit::Replace { position: position as int, directive }).applies_to(
                old(self)@,
            ),
            final(self)@ == (Edit::Replace { position: position as int, directive }).apply(
                old(self)@,
            ),
    {
        if position < self.entries.len() {
            self.entries[position] = directive;
            Ok(())
        } else {
            Err(PositionOutOfRange {  })
        }
    }

    /// Takes out the directive at `position` and moves what stood after it
    /// down by one. Fails, and changes nothing, when there is none.
    pub fn delete(&mut self, position: usize) -> (done: Result<(), PositionOutOfRange>)
        ensures
            done is Ok <==> (Edit::Delete { position: position as int }).applies_to(old(self)@),
            final(self)@ == (Edit::Delete { position: position as int }).apply(old(self)@),
    {
        if position < self.entries.len() {
            let _ = self.entries.remove(position);
            Ok(())
        } else {
            Err(PositionOutOfRange {  })
        }
    }
}

/// An edit that applies changes the length by its growth, and by nothing
/// else.
pub proof fn lemma_edit_length(entries: Seq<ParsedDirective>, edit: Edit)
    requires
        edit.applies_to(entries),
    ensures
        edit.apply(entries).len() == entries.len() + edit.growth(),
{
}

/// Edits take effect in call order, each on what the ones before it left:
/// making `first` and then `then` is making all of them in a row, and they
/// all succeed in a row exactly when `first` succeeds and `then` succeeds on
/// what `first` left.
pub proof fn lemma_edits_in_call_order(
    entries: Seq<ParsedDirective>,
    first: Seq<Edit>,
    then: Seq<Edit>,
)
    ensures
        apply_all(entries, first + then) == apply_all(apply_all(entries, first), then),
        all_apply(entries, first + then) <==> all_apply(entries, first) && all_apply(
            apply_all(entries, first),
            then,
        ),
    decreases then.len(),
{
    if then.len() == 0 {
        assert(first + then =~= first);
    } else {
        assert((first + then).drop_last() =~= first + then.drop_last());
        assert((first + then).last() == then.last());
        lemma_edits_in_call_order(entries, first, then.drop_last());
    }
}

/// After edits that all succeeded, the store holds as many directives as
/// before, plus one for each insertion and less one for each removal.
pub proof fn lemma_net_length(entries: Seq<ParsedDirective>, edits: Seq<Edit>)
    requires
        all_apply(entries, edits),
    ensures
        apply_all(entries, edits).len() == entries.len() + total_growth(edits),
    decreases edits.len(),
{
    if edits.len() > 0 {
        lemma_net_length(entries, edits.drop_last());
        lemma_edit_length(apply_all(entries, edits.drop_last()), edits.last());
    }
}

/// An added directive shows at the index asked for, with its own text; the
/// entries before it stay, and those from that index on move up by one.
/// Removing it again moves them back down by one, and the store is what it
/// was before the addition.
pub proof fn lemma_add_then_delete(
    entries: Seq<ParsedDirective>,
    position: int,
    directive: ParsedDirective,
)
    requires
        0 <= position <= entries.len(),
    ensures
        ({
            let added = (Edit::Insert { position, directive }).apply(entries);
            let removed = (Edit::Delete { position }).apply(added);
            &&& added.len() == entries.len() + 1
            &&& added[position] == directive
            &&& texts_of(added)[position] == directive@
            &&& forall|j: int| 0 <= j < position ==> added[j] == entries[j]
            &&& forall|j: int| position <= j < entries.len() ==> added[j + 1] == entries[j]
            &&& (Edit::Delete { position }).applies_to(added)
            &&& removed == entries
            &&& forall|j: int| position <= j < removed.len() ==> removed[j] == added[j + 1]
        }),
{
    let added = entries.insert(position, directive);
    assert(added.remove(position) =~= entries);
}

/// The edits that insert each of `items`, in order, at position 0.
pub open spec fn front_insertions(items: Seq<ParsedDirective>) -> Seq<Edit> {
    items.map_values(|directive: ParsedDirective| Edit::Insert { position: 0, directive })
}

/// Insertions at position 0 always succeed, and after any number of them,
/// in whatever order they arrive, the store holds exactly what it held and
/// what was inserted, and lists exactly their texts: nothing is lost and
/// nothing is there twice over. The last to arrive stands first.
pub proof fn lemma_front_insertions(
    entries: Seq<ParsedDirective>,
    requests: Seq<ParsedDirective>,
    arrivals: Seq<ParsedDirective>,
)
    requires
        arrivals.to_multiset() == requests.to_multiset(),
    ensures
        all_apply(entries, front_insertions(arrivals)),
        apply_all(entries, front_insertions(arrivals)) == arrivals.reverse() + entries,
        apply_all(entries, front_insertions(arrivals)).len() == entries.len() + requests.len(),
        apply_all(entries, front_insertions(arrivals)).to_multiset() == entries.to_multiset().add(
            requests.to_multiset(),
        ),
        texts_of(apply_all(entries, front_insertions(arrivals))).to_multiset() == texts_of(
            entries,
        ).to_multiset().add(texts_of(requests).to_multiset()),
{
    broadcast use vstd::seq_lib::group_to_multiset_ensures;

    let after = arrivals.reverse() + entries;
    lemma_front_insertions_in_order(entries, arrivals);
    vstd::seq_lib::lemma_multiset_commutative(arrivals.reverse(), entries);
    arrivals.lemma_reverse_to_multiset();
    assert(arrivals.len() == arrivals.to_multiset().len());
    assert(requests.len() == requests.to_multiset().len());
    assert(after.to_multiset() =~= entries.to_multiset().add(requests.to_multiset()));
    vstd::seq_lib::lemma_multiset_commutative(entries, requests);
    lemma_same_entries_same_texts(after, entries + requests);
    assert(texts_of(entries + requests) =~= texts_of(entries) + texts_of(requests));
    vstd::seq_lib::lemma_multiset_commutative(texts_of(entries), texts_of(requests));
}

/// Two sequences that hold the same directives, each as often as the other,
/// list the same texts, each as often as the other.
pub proof fn lemma_same_entries_same_texts(
    first: Seq<ParsedDirective>,
    second: Seq<ParsedDirective>,
)
    requires
        first.to_multiset() == second.to_multiset(),
    ensures
        texts_of(first).to_multiset() == texts_of(second).to_multiset(),
    decreases first.len(),
{
    broadcast use vstd::seq_lib::group_to_multiset_ensures;

    assert(first.len() == first.to_multiset().len());
    assert(second.len() == second.to_multiset().len());
    if first.len() == 0 {
        assert(texts_of(first) =~= texts_of(second));
    } else {
        let last = first.last();
        assert(first.contains(last));
        assert(second.to_multiset().count(last) > 0);
        assert(second.contains(last));
        let i = choose|i: int| 0 <= i < second.len() && second[i] == last;
        let rest = first.drop_last();
        assert(rest =~= first.remove(first.len() - 1));
        assert(rest.to_multiset() =~= second.remove(i).to_multiset());
        lemma_same_entries_same_texts(rest, second.remove(i));
        lemma_texts_of_remove(second, i);
        assert(texts_of(rest) =~= texts_of(first).remove(first.len() - 1));
        assert(texts_of(first)[first.len() - 1] == texts_of(second)[i]);
        assert(texts_of(first).to_multiset() =~= texts_of(rest).to_multiset().insert(last@));
        assert(texts_of(second).to_multiset() =~= texts_of(second).remove(i).to_multiset().insert(
            last@,
        ));
    }
}

proof fn lemma_front_insertions_in_order(
    entries: Seq<ParsedDirective>,
    arrivals: Seq<ParsedDirective>,
)
    ensures
        all_apply(entries, front_insertions(arrivals)),
        apply_all(entries, front_insertions(arrivals)) == arrivals.reverse() + entries,
    decreases arrivals.len(),
{
    let edits = front_insertions(arrivals);
    if arrivals.len() > 0 {
        assert(edits.drop_last() =~= front_insertions(arrivals.drop_last()));
        lemma_front_insertions_in_order(entries, arrivals.drop_last());
        assert((arrivals.drop_last().reverse() + entries).insert(0, arrivals.last())
            =~= arrivals.reverse() + entries);
    } else {
        assert(arrivals.reverse() + entries =~= entries);
    }
}

/// Listing the texts commutes with an insertion.
pub proof fn lemma_texts_of_insert(entries: Seq<ParsedDirective>, i: int, d: ParsedDirective)
    requires
        0 <= i <= entries.len(),
    ensures
        texts_of(entries.insert(i, d)) == texts_of(entries).insert(i, d@),
{
    assert(texts_of(entries.insert(i, d)) =~= texts_of(entries).insert(i, d@));
}

/// Listing the texts commutes with a replacement.
pub proof fn lemma_texts_of_update(entries: Seq<ParsedDirective>, i: int, d: ParsedDirective)
    requires
        0 <= i < entries.len(),
    ensures
        texts_of(entries.update(i, d)) == texts_of(entries).update(i, d@),
{
    assert(texts_of(entries.update(i, d)) =~= texts_of(entries).update(i, d@));
}

/// Listing the texts commutes with a removal.
pub proof fn lemma_texts_of_remove(entries: Seq<ParsedDirective>, i: int)
    requires
        0 <= i < entries.len(),
    ensures
        texts_of(entries.remove(i)) == texts_of(entries).remove(i),
{
    assert(texts_of(entries.remove(i)) =~= texts_of(entries).remove(i));
}

} // verus!
