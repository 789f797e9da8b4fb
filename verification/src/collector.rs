//! The fan-out collector's join: outcomes arrive in any order, one per
//! endpoint, and a round exists only once every endpoint has reported.

use vstd::prelude::*;

use crate::outcome::{OutcomeModel, PollOutcome, Round, RoundModel};

verus! {

/// Why an outcome was not taken.
#[derive(Clone, Copy, Debug, PartialEq, Eq, Structural)]
pub enum CollectError {
    /// The index is not one of the endpoints captured at dispatch.
    UnknownEndpoint,
    /// The endpoint has reported already; its first outcome stands.
    AlreadyRecorded,
}

/// View of a list of slots, element by element.
pub open spec fn slots_view(slots: Seq<Option<PollOutcome>>) -> Seq<Option<OutcomeModel>> {
    slots.map_values(
        |slot: Option<PollOutcome>|
            match slot {
                Some(outcome) => Some(outcome@),
                None => None,
            },
    )
}

/// Whether every endpoint has reported.
pub open spec fn complete(slots: Seq<Option<OutcomeModel>>) -> bool {
    forall|i: int| 0 <= i < slots.len() ==> (#[trigger] slots[i]) is Some
}

/// The outcomes of a complete set of slots, in endpoint order.
pub open spec fn gathered(slots: Seq<Option<OutcomeModel>>) -> Seq<OutcomeModel> {
    slots.map_values(|slot: Option<OutcomeModel>| slot->0)
}

/// Why the outcome of endpoint `index` cannot be taken, if it cannot.
pub open spec fn record_error(slots: Seq<Option<OutcomeModel>>, index: int) -> Option<
    CollectError,
> {
    if index >= slots.len() {
        Some(CollectError::UnknownEndpoint)
    } else if slots[index] is Some {
        Some(CollectError::AlreadyRecorded)
    } else {
        None
    }
}

/// Collects the outcomes of one round. Its view is one slot per endpoint,
/// empty until that endpoint has reported.
#[derive(Debug)]
pub struct Collector {
    slots: Vec<Option<PollOutcome>>,
}

impl View for Collector {
    type V = Seq<Option<OutcomeModel>>;

    closed spec fn view(&self) -> Seq<Option<OutcomeModel>> {
        slots_view(self.slots@)
    }
}

impl Collector {
    /// A collector for a round over `endpoints` endpoints, none of which has
    /// reported.
    pub fn new(endpoints: usize) -> (collector: Self)
        ensures
            collector@ == Seq::new(endpoints as nat, |i: int| None::<OutcomeModel>),
    {
        let mut slots: Vec<Option<PollOutcome>> = Vec::new();
        let mut i: usize = 0;
        while i < endpoints
            invariant
                i <= endpoints,
                slots@.len() == i,
                forall|j: int| 0 <= j < i ==> slots@[j] is None,
            decreases endpoints - i,
        {
            slots.push(None);
            i += 1;
        }
        let collector = Collector { slots };
        assert(collector@ =~= Seq::new(endpoints as nat, |i: int| None::<OutcomeModel>));
        collector
    }

    /// Number of endpoints of the round.
    pub fn expected(&self) -> (n: usize)
        ensures
            n == self@.len(),
    {
        self.slots.len()
    }

    /// Whether the endpoint at `index` has reported.
    pub fn has_reported(&self, index: usize) -> (yes: bool)
        ensures
            yes == (index < self@.len() && self@[index as int] is Some),
    {
        index < self.slots.len() && self.slots[index].is_some()
    }

    /// Whether every endpoint has reported.
    pub fn is_complete(&self) -> (yes: bool)
        ensures
            yes == complete(self@),
    {
        let mut i: usize = 0;
        while i < self.slots.len()
            invariant
                i <= self.slots.len(),
                forall|j: int| 0 <= j < i ==> (#[trigger] self@[j]) is Some,
            decreases self.slots.len() - i,
        {
            if self.slots[i].is_none() {
                assert(self@[i as int] is None);
                return false;
            }
            i += 1;
        }
        true
    }

    /// Takes the outcome of the endpoint at `index`. An index outside the
    /// round is refused, and so is a second outcome for the same endpoint;
    /// the collector is then unchanged.
    pub fn record(&mut self, index: usize, outcome: PollOutcome) -> (result: Result<
        (),
        CollectError,
    >)
        ensures
            match result {
                Ok(()) => record_error(old(self)@, index as int) is None && final(self)@
                    == old(self)@.update(index as int, Some(outcome@)),
                Err(error) => record_error(old(self)@, index as int) == Some(error)
                    && final(self)@ == old(self)@,
            },
    {
        if index >= self.slots.len() {
            return Err(CollectError::UnknownEndpoint);
        }
        if self.slots[index].is_some() {
            return Err(CollectError::AlreadyRecorded);
        }
        self.slots.set(index, Some(outcome));
        assert(self@ =~= old(self)@.update(index as int, Some(outcome@)));
        Ok(())
    }

    /// Closes the round. While an endpoint has not reported there is no
    /// round, and the collector is handed back as it was; once all have, the
    /// round holds their outcomes in endpoint order.
    pub fn finish(self, timestamp: u64) -> (result: Result<Round, Collector>)
        ensures
            match result {
                Ok(round) => complete(self@) && round@ == (RoundModel {
                    timestamp,
                    outcomes: gathered(self@),
                }),
                Err(collector) => !complete(self@) && collector@ == self@,
            },
    {
        if !self.is_complete() {
            return Err(self);
        }
        let ghost slots = self.slots@;
        let mut outcomes: Vec<PollOutcome> = Vec::new();
        for slot in it: self.slots
            invariant
                it.seq() == slots,
                complete(slots_view(slots)),
                outcomes@.len() == it.index(),
                forall|j: int| 0 <= j < outcomes@.len() ==> outcomes@[j]@ == slots[j]->0@,
        {
            assert(slots_view(slots)[it.index() as int] is Some);
            outcomes.push(slot.unwrap());
        }
        let round = Round { timestamp, outcomes };
        assert(round@.outcomes =~= gathered(slots_view(slots)));
        Ok(round)
    }
}

/// All or nothing: the round of a complete collector has exactly one outcome
/// per endpoint, each the one that endpoint reported.
pub proof fn lemma_gathered_is_aligned(slots: Seq<Option<OutcomeModel>>, i: int)
    requires
        complete(slots),
        0 <= i < slots.len(),
    ensures
        gathered(slots).len() == slots.len(),
        Some(gathered(slots)[i]) == slots[i],
{
}

/// The order of arrival does not matter: two endpoints may report in either
/// order, and the slots are the same.
pub proof fn lemma_arrival_order_is_irrelevant(
    slots: Seq<Option<OutcomeModel>>,
    i: int,
    a: OutcomeModel,
    j: int,
    b: OutcomeModel,
)
    requires
        0 <= i < slots.len(),
        0 <= j < slots.len(),
        i != j,
    ensures
        slots.update(i, Some(a)).update(j, Some(b)) == slots.update(j, Some(b)).update(
            i,
            Some(a),
        ),
{
    assert(slots.update(i, Some(a)).update(j, Some(b)) =~= slots.update(j, Some(b)).update(
        i,
        Some(a),
    ));
}

} // verus!
