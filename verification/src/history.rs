//! The bounded series of published rounds: first in, first out.

use std::collections::VecDeque;
use vstd::prelude::*;

use crate::outcome::{Round, RoundModel};

verus! {

/// One published round, with the flow derived from it where there is one.
/// `F` is the derived computation; the history stores it and never looks
/// inside.
#[derive(Debug)]
pub struct HistoryEntry<F> {
    /// The round, its timestamp relative to the time origin.
    pub round: Round,
    /// The flow computed from the round, absent when an input was missing or
    /// the computation failed.
    pub flow: Option<F>,
}

/// Mathematical model of a [`HistoryEntry`].
pub struct EntryModel<F> {
    pub round: RoundModel,
    pub flow: Option<F>,
}

impl<F> View for HistoryEntry<F> {
    type V = EntryModel<F>;

    open spec fn view(&self) -> EntryModel<F> {
        EntryModel { round: self.round@, flow: self.flow }
    }
}

impl<F: Copy> Clone for HistoryEntry<F> {
    fn clone(&self) -> (copy: Self)
        ensures
            copy@ == self@,
    {
        HistoryEntry { round: self.round.clone(), flow: self.flow }
    }
}

/// View of a list of entries, element by element.
pub open spec fn entries_view<F>(entries: Seq<HistoryEntry<F>>) -> Seq<EntryModel<F>> {
    entries.map_values(|e: HistoryEntry<F>| e@)
}

/// The newest `n` items of a sequence, in their order; all of them where
/// there are no more than `n`.
pub open spec fn keep_last<T>(items: Seq<T>, n: nat) -> Seq<T> {
    if items.len() <= n {
        items
    } else {
        items.subrange(items.len() - n, items.len() as int)
    }
}

/// Mathematical model of a [`History`]: the retained entries, oldest first,
/// and the most that may be retained.
pub struct HistoryModel<F> {
    pub entries: Seq<EntryModel<F>>,
    pub capacity: nat,
}

impl<F> HistoryModel<F> {
    /// No more entries are retained than the capacity allows.
    pub open spec fn wf(self) -> bool {
        self.entries.len() <= self.capacity
    }

    /// The empty history of a given capacity.
    pub open spec fn empty(capacity: nat) -> Self {
        HistoryModel { entries: Seq::empty(), capacity }
    }

    /// The history after one more entry: appended as the newest, and the
    /// oldest dropped if that takes the length over the capacity.
    pub open spec fn add(self, entry: EntryModel<F>) -> Self {
        HistoryModel { entries: keep_last(self.entries.push(entry), self.capacity), ..self }
    }

    /// The history with nothing retained.
    pub open spec fn clear(self) -> Self {
        HistoryModel { entries: Seq::empty(), ..self }
    }

    /// The history under another capacity: the oldest entries go until the
    /// rest fits.
    pub open spec fn resize(self, capacity: nat) -> Self {
        HistoryModel { entries: keep_last(self.entries, capacity), capacity }
    }

    /// The newest `requested` entries, oldest first.
    pub open spec fn recent(self, requested: nat) -> Seq<EntryModel<F>> {
        keep_last(self.entries, requested)
    }
}

/// A bounded first-in, first-out series of history entries.
pub struct History<F> {
    entries: VecDeque<HistoryEntry<F>>,
    capacity: usize,
}

impl<F> View for History<F> {
    type V = HistoryModel<F>;

    closed spec fn view(&self) -> HistoryModel<F> {
        HistoryModel { entries: entries_view(self.entries@), capacity: self.capacity as nat }
    }
}

impl<F> History<F> {
    #[verifier::type_invariant]
    spec fn bounded(self) -> bool {
        self.entries@.len() <= self.capacity
    }

    /// An empty history that retains at most `capacity` entries.
    pub fn new(capacity: usize) -> (history: Self)
        ensures
            history@ == HistoryModel::<F>::empty(capacity as nat),
    {
        let history = History { entries: VecDeque::new(), capacity };
        assert(history@.entries =~= Seq::empty());
        history
    }

    /// Number of retained entries.
    pub fn len(&self) -> (n: usize)
        ensures
            n == self@.entries.len(),
            n <= self@.capacity,
    {
        proof {
            use_type_invariant(self);
        }
        self.entries.len()
    }

    /// Whether nothing is retained.
    pub fn is_empty(&self) -> (yes: bool)
        ensures
            yes == (self@.entries.len() == 0),
    {
        self.entries.len() == 0
    }

    /// The most entries that are retained.
    pub fn capacity(&self) -> (capacity: usize)
        ensures
            capacity == self@.capacity,
            self@.wf(),
    {
        proof {
            use_type_invariant(self);
        }
        self.capacity
    }

    /// The entry at `index`, counted from the oldest.
    pub fn get(&self, index: usize) -> (entry: Option<&HistoryEntry<F>>)
        ensures
            index < self@.entries.len() ==> entry is Some && entry->0@
                == self@.entries[index as int],
            index >= self@.entries.len() ==> entry is None,
    {
        if index < self.entries.len() {
            Some(&self.entries[index])
        } else {
            None
        }
    }

    /// Appends `entry` as the newest; once the length would exceed the
    /// capacity, the oldest entry is dropped.
    pub fn add(&mut self, entry: HistoryEntry<F>)
        ensures
            final(self)@ == old(self)@.add(entry@),
            final(self)@.wf(),
    {
        proof {
            use_type_invariant(&*self);
        }
        if self.capacity == 0 {
            assert(old(self)@.add(entry@).entries =~= old(self)@.entries);
            return;
        }
        let mut entries: VecDeque<HistoryEntry<F>> = VecDeque::new();
        std::mem::swap(&mut self.entries, &mut entries);
        if entries.len() >= self.capacity {
            let _ = entries.pop_front();
        }
        entries.push_back(entry);
        assert(entries_view(entries@) =~= old(self)@.add(entry@).entries);
        std::mem::swap(&mut self.entries, &mut entries);
    }

    /// Drops every entry.
    pub fn clear(&mut self)
        ensures
            final(self)@ == old(self)@.clear(),
    {
        let mut entries: VecDeque<HistoryEntry<F>> = VecDeque::new();
        std::mem::swap(&mut self.entries, &mut entries);
        assert(self@.entries =~= Seq::empty());
    }

    /// Changes the capacity; the oldest entries are dropped until the rest
    /// fits.
    pub fn set_capacity(&mut self, capacity: usize)
        ensures
            final(self)@ == old(self)@.resize(capacity as nat),
            final(self)@.wf(),
    {
        proof {
            use_type_invariant(&*self);
        }
        let mut entries: VecDeque<HistoryEntry<F>> = VecDeque::new();
        std::mem::swap(&mut self.entries, &mut entries);
        let ghost before = entries@;
        while entries.len() > capacity
            invariant
                entries@.len() <= before.len(),
                entries@.len() >= capacity || entries@.len() == before.len(),
                entries@ == before.subrange(before.len() - entries@.len(), before.len() as int),
            decreases entries.len(),
        {
            let _ = entries.pop_front();
        }
        assert(entries_view(entries@) =~= keep_last(entries_view(before), capacity as nat));
        *self = History { entries, capacity };
    }
}

impl<F: Copy> History<F> {
    /// A copy of the newest `requested` entries, oldest first.
    pub fn recent(&self, requested: usize) -> (copy: Vec<HistoryEntry<F>>)
        ensures
            entries_view(copy@) == self@.recent(requested as nat),
    {
        let len: usize = self.entries.len();
        let start: usize = if len <= requested {
            0
        } else {
            len - requested
        };
        let mut copy: Vec<HistoryEntry<F>> = Vec::new();
        let mut i: usize = start;
        while i < len
            invariant
                start <= i <= len,
                len == self.entries@.len(),
                copy@.len() == i - start,
                forall|j: int| 0 <= j < copy@.len() ==> copy@[j]@ == self.entries@[start + j]@,
            decreases len - i,
        {
            copy.push(self.entries[i].clone());
            i += 1;
        }
        assert(entries_view(copy@) =~= self@.recent(requested as nat));
        copy
    }
}

/// First in, first out: adding to a full history of positive capacity drops
/// exactly the oldest entry and keeps the others in order, with the new
/// entry last.
pub proof fn lemma_add_evicts_oldest<F>(history: HistoryModel<F>, entry: EntryModel<F>)
    requires
        history.wf(),
        history.capacity > 0,
        history.entries.len() == history.capacity,
    ensures
        history.add(entry).entries == history.entries.drop_first().push(entry),
{
    assert(history.add(entry).entries =~= history.entries.drop_first().push(entry));
}

/// Adding to a history that is not full drops nothing.
pub proof fn lemma_add_appends<F>(history: HistoryModel<F>, entry: EntryModel<F>)
    requires
        history.entries.len() < history.capacity,
    ensures
        history.add(entry).entries == history.entries.push(entry),
{
}

/// Nothing that is retained is ever rewritten: after an entry is added,
/// every older entry that is still retained is what it was, and the entries
/// keep their order.
pub proof fn lemma_add_keeps_older_entries<F>(
    history: HistoryModel<F>,
    entry: EntryModel<F>,
    i: int,
)
    requires
        history.wf(),
        0 <= i < history.add(entry).entries.len(),
    ensures
        history.add(entry).entries.len() <= history.entries.len() + 1,
        ({
            let dropped = history.entries.len() + 1 - history.add(entry).entries.len();
            if i + dropped < history.entries.len() {
                history.add(entry).entries[i] == history.entries[i + dropped]
            } else {
                history.add(entry).entries[i] == entry
            }
        }),
{
}

/// The length of a history never exceeds its capacity, whatever is added.
pub proof fn lemma_add_bounded<F>(history: HistoryModel<F>, entry: EntryModel<F>)
    requires
        history.wf(),
    ensures
        history.add(entry).wf(),
        history.add(entry).capacity == history.capacity,
{
}

} // verus!
