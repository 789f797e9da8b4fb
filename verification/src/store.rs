//! The status and history store: per-endpoint liveness, the bounded history
//! of published rounds, the time origin, and whether collection is armed.
//!
//! Every operation is one step from one consistent state to the next, so a
//! caller that guards the store with a lock gives its readers consistent
//! states only.

use vstd::prelude::*;
use vstd::string::StringExecFns;

use crate::endpoint::{copy_servers, servers_view, ServerInfo, ServerModel};
use crate::history::{
    entries_view, keep_last, EntryModel, History, HistoryEntry, HistoryModel,
};
use crate::outcome::{
    all_success, flow_ready, lemma_flow_ready_all_success, liveness, OutcomeModel, PollOutcome,
    Round, RoundModel,
};
use crate::text::{decimal, push_decimal};

verus! {

/// How many rounds a store retains unless told otherwise.
pub const DEFAULT_HISTORY_CAPACITY: usize = 20;

/// Why a control operation was refused.
#[derive(Clone, Copy, Debug, PartialEq, Eq, Structural)]
pub enum ControlError {
    /// The endpoint list is frozen while collection is armed.
    Armed,
    /// There is no endpoint at the given index.
    NoSuchEndpoint,
}

/// Why a round was not taken into the store.
#[derive(Clone, Copy, Debug, PartialEq, Eq, Structural)]
pub enum UpdateError {
    /// The round does not hold exactly one outcome per configured endpoint.
    LengthMismatch,
    /// Collection is not armed, so nothing is published.
    NotCollecting,
    /// The round's timestamp lies before the time origin.
    ClockWentBackwards,
}

/// What taking a round into the store did.
#[derive(Clone, Copy, Debug, PartialEq, Eq, Structural)]
pub enum UpdateEffect {
    /// Liveness was overwritten; nothing was published, collection being
    /// idle.
    StatusOnly,
    /// Liveness was overwritten and the round was appended to the history.
    Published,
}

/// The liveness of each server after a round: a server with an outcome is
/// online exactly if that outcome is a success; a server without one keeps
/// its flag.
pub open spec fn mark(servers: Seq<ServerModel>, outcomes: Seq<OutcomeModel>) -> Seq<ServerModel> {
    Seq::new(
        servers.len(),
        |i: int|
            if i < outcomes.len() {
                ServerModel { online: outcomes[i] is Success, ..servers[i] }
            } else {
                servers[i]
            },
    )
}

/// The name given to an endpoint that is added without one: `m` and its
/// one-based position.
pub open spec fn default_name(position: nat) -> Seq<char> {
    seq!['m'] + decimal(position)
}

/// Mathematical model of a [`ServerData`].
pub struct StoreModel<F> {
    /// The configured endpoints, in order.
    pub servers: Seq<ServerModel>,
    /// The published rounds.
    pub history: HistoryModel<F>,
    /// The absolute timestamp of the first round published since arming.
    pub start_time: Option<u64>,
    /// Whether collection is armed.
    pub collecting: bool,
}

impl<F> StoreModel<F> {
    /// What holds of every store: the history is within its capacity; every
    /// published round has exactly one outcome per configured endpoint; an
    /// idle store has neither history nor time origin; a non-empty history
    /// has a time origin.
    pub open spec fn wf(self) -> bool {
        &&& self.history.wf()
        &&& !self.collecting ==> self.history.entries.len() == 0 && self.start_time is None
        &&& self.history.entries.len() > 0 ==> self.start_time is Some
        &&& forall|i: int|
            0 <= i < self.history.entries.len() ==> (
            #[trigger] self.history.entries[i]).round.outcomes.len() == self.servers.len()
    }

    /// The store at startup: idle, with an empty history.
    pub open spec fn initial(servers: Seq<ServerModel>, capacity: nat) -> Self {
        StoreModel {
            servers,
            history: HistoryModel::empty(capacity),
            start_time: None,
            collecting: false,
        }
    }

    /// One liveness flag per endpoint.
    pub open spec fn statuses(self) -> Seq<bool> {
        self.servers.map_values(|s: ServerModel| s.online)
    }

    /// Arming: an idle store starts collecting with an empty history and no
    /// time origin; an armed store stays as it is.
    pub open spec fn arm(self) -> Self {
        if self.collecting {
            self
        } else {
            StoreModel {
                history: self.history.clear(),
                start_time: None,
                collecting: true,
                ..self
            }
        }
    }

    /// Disarming: the store is idle, its history empty, its time origin
    /// gone.
    pub open spec fn disarm(self) -> Self {
        StoreModel { history: self.history.clear(), start_time: None, collecting: false, ..self }
    }

    /// Flipping between idle and armed.
    pub open spec fn toggle(self) -> Self {
        if self.collecting {
            self.disarm()
        } else {
            self.arm()
        }
    }

    /// The store with liveness overwritten from a round's outcomes.
    pub open spec fn with_statuses(self, outcomes: Seq<OutcomeModel>) -> Self {
        StoreModel { servers: mark(self.servers, outcomes), ..self }
    }

    /// The time origin once `round` is published: the one already set, or
    /// else the round's own timestamp.
    pub open spec fn origin_for(self, round: RoundModel) -> u64 {
        match self.start_time {
            Some(origin) => origin,
            None => round.timestamp,
        }
    }

    /// The history entry that publishing `round` with `flow` appends: the
    /// timestamp relative to the time origin, the outcomes as they are, and
    /// the flow only where every endpoint answered with numeric fields.
    pub open spec fn published_entry(self, round: RoundModel, flow: Option<F>) -> EntryModel<F> {
        EntryModel {
            round: RoundModel {
                timestamp: (round.timestamp - self.origin_for(round)) as u64,
                outcomes: round.outcomes,
            },
            flow: if flow_ready(round.outcomes) {
                flow
            } else {
                None
            },
        }
    }

    /// Why `round` cannot be published, if it cannot.
    pub open spec fn save_error(self, round: RoundModel) -> Option<UpdateError> {
        if !self.collecting {
            Some(UpdateError::NotCollecting)
        } else if round.outcomes.len() != self.servers.len() {
            Some(UpdateError::LengthMismatch)
        } else if self.start_time is Some && round.timestamp < self.start_time->0 {
            Some(UpdateError::ClockWentBackwards)
        } else {
            None
        }
    }

    /// The store after `round` is published with `flow`.
    pub open spec fn save(self, round: RoundModel, flow: Option<F>) -> Self {
        StoreModel {
            history: self.history.add(self.published_entry(round, flow)),
            start_time: Some(self.origin_for(round)),
            ..self
        }
    }

    /// Why `round` cannot be taken into the store, if it cannot.
    pub open spec fn update_error(self, round: RoundModel) -> Option<UpdateError> {
        if round.outcomes.len() != self.servers.len() {
            Some(UpdateError::LengthMismatch)
        } else if self.collecting && self.start_time is Some && round.timestamp
            < self.start_time->0 {
            Some(UpdateError::ClockWentBackwards)
        } else {
            None
        }
    }

    /// The store after `round` is taken in: liveness overwritten, and the
    /// round published if collection is armed.
    pub open spec fn update(self, round: RoundModel, flow: Option<F>) -> Self {
        if self.collecting {
            self.with_statuses(round.outcomes).save(round, flow)
        } else {
            self.with_statuses(round.outcomes)
        }
    }

    /// Whether a flow is to be computed for `round`: collection is armed,
    /// the round has one outcome per endpoint, and every endpoint answered
    /// with numeric fields.
    pub open spec fn needs_flow(self, round: RoundModel) -> bool {
        self.collecting && round.outcomes.len() == self.servers.len() && flow_ready(
            round.outcomes,
        )
    }

    /// The store with one more endpoint, offline, at the end of the list.
    pub open spec fn with_endpoint(self, name: Seq<char>, address: Seq<char>) -> Self {
        StoreModel {
            servers: self.servers.push(ServerModel { name, address, online: false }),
            ..self
        }
    }

    /// The store without the endpoint at `index`.
    pub open spec fn without_endpoint(self, index: int) -> Self {
        StoreModel { servers: self.servers.remove(index), ..self }
    }

    /// The store with another address for the endpoint at `index`.
    pub open spec fn with_address(self, index: int, address: Seq<char>) -> Self {
        StoreModel {
            servers: self.servers.update(index, ServerModel { address, ..self.servers[index] }),
            ..self
        }
    }

    /// The store with another name for the endpoint at `index`.
    pub open spec fn with_name(self, index: int, name: Seq<char>) -> Self {
        StoreModel {
            servers: self.servers.update(index, ServerModel { name, ..self.servers[index] }),
            ..self
        }
    }

    /// The store with another history capacity; should the history hold
    /// more, its oldest rounds go until the rest fits.
    pub open spec fn with_capacity(self, capacity: nat) -> Self {
        StoreModel { history: self.history.resize(capacity), ..self }
    }

    /// Why the endpoint at `index` cannot be edited or removed, if it
    /// cannot.
    pub open spec fn edit_error(self, index: int) -> Option<ControlError> {
        if self.collecting {
            Some(ControlError::Armed)
        } else if index >= self.servers.len() {
            Some(ControlError::NoSuchEndpoint)
        } else {
            None
        }
    }

    /// The store after one operation. An operation that is refused leaves
    /// the store as it is.
    pub open spec fn apply(self, op: StoreOp<F>) -> Self {
        match op {
            StoreOp::Arm => self.arm(),
            StoreOp::Disarm => self.disarm(),
            StoreOp::Update(round, flow) => if self.update_error(round) is None {
                self.update(round, flow)
            } else {
                self
            },
            StoreOp::Save(round, flow) => if self.save_error(round) is None {
                self.save(round, flow)
            } else {
                self
            },
            StoreOp::MarkStatuses(outcomes) => self.with_statuses(outcomes),
            StoreOp::AddEndpoint(name, address) => if self.collecting {
                self
            } else {
                self.with_endpoint(name, address)
            },
            StoreOp::RemoveEndpoint(index) => if index >= 0 && self.edit_error(index) is None {
                self.without_endpoint(index)
            } else {
                self
            },
            StoreOp::SetAddress(index, address) => if index >= 0 && self.edit_error(index)
                is None {
                self.with_address(index, address)
            } else {
                self
            },
            StoreOp::SetName(index, name) => if index >= 0 && self.edit_error(index) is None {
                self.with_name(index, name)
            } else {
                self
            },
            StoreOp::SetCapacity(capacity) => if self.collecting {
                self
            } else {
                self.with_capacity(capacity)
            },
        }
    }

    /// The store after a sequence of operations.
    pub open spec fn run(self, ops: Seq<StoreOp<F>>) -> Self
        decreases ops.len(),
    {
        if ops.len() == 0 {
            self
        } else {
            self.run(ops.drop_last()).apply(ops.last())
        }
    }
}

/// The operations of a store, each with what it is given.
pub enum StoreOp<F> {
    Arm,
    Disarm,
    /// Take a round in, with the flow computed for it, if any.
    Update(RoundModel, Option<F>),
    /// Publish a round, with the flow computed for it, if any.
    Save(RoundModel, Option<F>),
    /// Overwrite liveness from outcomes.
    MarkStatuses(Seq<OutcomeModel>),
    /// Add an endpoint by name and address.
    AddEndpoint(Seq<char>, Seq<char>),
    RemoveEndpoint(int),
    SetAddress(int, Seq<char>),
    SetName(int, Seq<char>),
    SetCapacity(nat),
}

/// A point-in-time copy of what readers need: liveness and the newest rounds.
#[derive(Debug)]
pub struct Snapshot<F> {
    /// One liveness flag per endpoint, in endpoint order.
    pub per_endpoint_status: Vec<bool>,
    /// The newest published rounds, oldest first.
    pub recent_rounds: Vec<HistoryEntry<F>>,
}

/// The status and history store.
pub struct ServerData<F> {
    servers: Vec<ServerInfo>,
    computed_results: History<F>,
    start_time: Option<u64>,
    collecting: bool,
}

impl<F> View for ServerData<F> {
    type V = StoreModel<F>;

    closed spec fn view(&self) -> StoreModel<F> {
        StoreModel {
            servers: servers_view(self.servers@),
            history: self.computed_results@,
            start_time: self.start_time,
            collecting: self.collecting,
        }
    }
}

/// Overwrites liveness from outcomes, pairing servers and outcomes by index.
fn mark_servers(servers: &mut Vec<ServerInfo>, outcomes: &Vec<PollOutcome>)
    ensures
        servers_view(final(servers)@) == mark(
            servers_view(old(servers)@),
            crate::outcome::outcomes_view(outcomes@),
        ),
{
    let ghost before = servers_view(servers@);
    let ghost marks = crate::outcome::outcomes_view(outcomes@);
    let mut i: usize = 0;
    while i < servers.len() && i < outcomes.len()
        invariant
            servers@.len() == before.len(),
            marks == crate::outcome::outcomes_view(outcomes@),
            forall|j: int|
                0 <= j < i && j < before.len() ==> servers@[j]@ == mark(before, marks)[j],
            forall|j: int| i <= j < before.len() ==> servers@[j]@ == before[j],
        decreases servers.len() - i,
    {
        let online = outcomes[i].is_success();
        let mut server = ServerInfo::new("", "");
        servers.set_and_swap(i, &mut server);
        server.online = online;
        servers.set(i, server);
        i += 1;
    }
    assert(servers_view(servers@) =~= mark(before, marks));
}

impl<F> ServerData<F> {
    #[verifier::type_invariant]
    spec fn consistent(self) -> bool {
        self@.wf()
    }

    /// An idle store that holds nothing; what a store is swapped with while
    /// its parts are worked on.
    fn vacant() -> (store: Self)
        ensures
            store@ == StoreModel::<F>::initial(Seq::empty(), 0),
    {
        let store = ServerData {
            servers: Vec::new(),
            computed_results: History::new(0),
            start_time: None,
            collecting: false,
        };
        assert(store@.servers =~= Seq::empty());
        store
    }

    /// An idle store over `servers` that retains the default number of
    /// rounds.
    pub fn new(servers: Vec<ServerInfo>) -> (store: Self)
        ensures
            store@ == StoreModel::<F>::initial(
                servers_view(servers@),
                DEFAULT_HISTORY_CAPACITY as nat,
            ),
            store@.wf(),
    {
        Self::with_capacity(servers, DEFAULT_HISTORY_CAPACITY)
    }

    /// An idle store over `servers` that retains at most `capacity` rounds.
    pub fn with_capacity(servers: Vec<ServerInfo>, capacity: usize) -> (store: Self)
        ensures
            store@ == StoreModel::<F>::initial(servers_view(servers@), capacity as nat),
            store@.wf(),
    {
        ServerData {
            servers,
            computed_results: History::new(capacity),
            start_time: None,
            collecting: false,
        }
    }

    /// Whether collection is armed.
    pub fn is_collecting(&self) -> (armed: bool)
        ensures
            armed == self@.collecting,
            self@.wf(),
    {
        proof {
            use_type_invariant(self);
        }
        self.collecting
    }

    /// Number of configured endpoints.
    pub fn server_count(&self) -> (n: usize)
        ensures
            n == self@.servers.len(),
    {
        self.servers.len()
    }

    /// Number of rounds in the history.
    pub fn history_len(&self) -> (n: usize)
        ensures
            n == self@.history.entries.len(),
            n <= self@.history.capacity,
            self@.wf(),
    {
        proof {
            use_type_invariant(self);
        }
        self.computed_results.len()
    }

    /// The most rounds the history retains.
    pub fn history_capacity(&self) -> (capacity: usize)
        ensures
            capacity == self@.history.capacity,
    {
        self.computed_results.capacity()
    }

    /// The time origin: the absolute timestamp of the first round published
    /// since collection was armed.
    pub fn start_time(&self) -> (origin: Option<u64>)
        ensures
            origin == self@.start_time,
    {
        self.start_time
    }

    /// A copy of the endpoint list, to be captured before a round is
    /// dispatched.
    pub fn servers(&self) -> (copy: Vec<ServerInfo>)
        ensures
            servers_view(copy@) == self@.servers,
    {
        copy_servers(&self.servers)
    }

    /// The address of every endpoint, in endpoint order.
    pub fn server_addresses(&self) -> (addresses: Vec<String>)
        ensures
            addresses@.len() == self@.servers.len(),
            forall|i: int|
                0 <= i < addresses@.len() ==> (#[trigger] addresses@[i])@
                    == self@.servers[i].address,
    {
        let mut addresses: Vec<String> = Vec::new();
        let mut i: usize = 0;
        while i < self.servers.len()
            invariant
                i <= self.servers.len(),
                addresses@.len() == i,
                forall|j: int|
                    0 <= j < i ==> (#[trigger] addresses@[j])@ == self.servers@[j].address@,
            decreases self.servers.len() - i,
        {
            addresses.push(self.servers[i].address.clone());
            i += 1;
        }
        addresses
    }

    /// Whether a flow is to be computed for `round` before it is handed to
    /// [`ServerData::update`].
    pub fn needs_flow(&self, round: &Round) -> (yes: bool)
        ensures
            yes == self@.needs_flow(round@),
    {
        self.collecting && round.len() == self.servers.len() && round.is_flow_ready()
    }

    /// Arms collection. An idle store starts with an empty history and no
    /// time origin; an armed store is left as it is. Returns whether the
    /// store was idle.
    pub fn arm(&mut self) -> (was_idle: bool)
        ensures
            final(self)@ == old(self)@.arm(),
            was_idle == !old(self)@.collecting,
            final(self)@.collecting,
            final(self)@ == old(self)@.apply(StoreOp::Arm),
            final(self)@.wf(),
    {
        proof {
            use_type_invariant(&*self);
        }
        if self.collecting {
            return false;
        }
        let mut taken = Self::vacant();
        std::mem::swap(self, &mut taken);
        let ServerData { servers, computed_results, start_time: _, collecting: _ } = taken;
        let mut history = computed_results;
        history.clear();
        *self = ServerData {
            servers,
            computed_results: history,
            start_time: None,
            collecting: true,
        };
        true
    }

    /// Disarms collection: the history is emptied and the time origin
    /// forgotten. Returns whether the store was armed.
    pub fn disarm(&mut self) -> (was_armed: bool)
        ensures
            final(self)@ == old(self)@.disarm(),
            was_armed == old(self)@.collecting,
            final(self)@.history.entries.len() == 0,
            final(self)@ == old(self)@.apply(StoreOp::Disarm),
            final(self)@.wf(),
    {
        proof {
            use_type_invariant(&*self);
        }
        let mut taken = Self::vacant();
        std::mem::swap(self, &mut taken);
        let ServerData { servers, computed_results, start_time: _, collecting } = taken;
        let mut history = computed_results;
        history.clear();
        *self = ServerData {
            servers,
            computed_results: history,
            start_time: None,
            collecting: false,
        };
        collecting
    }

    /// Flips between idle and armed, as the operator's one button does.
    /// Returns whether collection is armed afterwards.
    pub fn toggle_collection_state(&mut self) -> (armed: bool)
        ensures
            final(self)@ == old(self)@.toggle(),
            armed == !old(self)@.collecting,
            final(self)@.wf(),
    {
        if self.is_collecting() {
            self.disarm();
            false
        } else {
            self.arm();
            true
        }
    }

    /// Overwrites liveness from a round's outcomes, pairing endpoints and
    /// outcomes by index. The history is not touched.
    pub fn update_server_statuses(&mut self, round: &Round)
        ensures
            final(self)@ == old(self)@.with_statuses(round@.outcomes),
            final(self)@ == old(self)@.apply(StoreOp::MarkStatuses(round@.outcomes)),
            final(self)@.wf(),
    {
        proof {
            use_type_invariant(&*self);
        }
        let mut taken = Self::vacant();
        std::mem::swap(self, &mut taken);
        let ServerData { servers, computed_results, start_time, collecting } = taken;
        let mut servers = servers;
        mark_servers(&mut servers, &round.outcomes);
        *self = ServerData { servers, computed_results, start_time, collecting };
    }

    /// Publishes `round` to the history, with `flow` attached if every
    /// endpoint answered with numeric fields. The first round published
    /// since arming sets the time origin; every round is stored with its
    /// timestamp relative to it. On an error the store is unchanged.
    pub fn save_computation_result(&mut self, round: Round, flow: Option<F>) -> (result: Result<
        (),
        UpdateError,
    >)
        ensures
            match result {
                Ok(()) => old(self)@.save_error(round@) is None && final(self)@ == old(self)@.save(
                    round@,
                    flow,
                ),
                Err(error) => old(self)@.save_error(round@) == Some(error) && final(self)@
                    == old(self)@,
            },
            final(self)@ == old(self)@.apply(StoreOp::Save(round@, flow)),
            final(self)@.wf(),
    {
        proof {
            use_type_invariant(&*self);
        }
        if !self.collecting {
            return Err(UpdateError::NotCollecting);
        }
        if round.len() != self.servers.len() {
            return Err(UpdateError::LengthMismatch);
        }
        let origin: u64 = match self.start_time {
            Some(origin) => origin,
            None => round.timestamp,
        };
        if round.timestamp < origin {
            return Err(UpdateError::ClockWentBackwards);
        }
        let complete = round.is_flow_ready();
        let entry = HistoryEntry {
            round: Round { timestamp: round.timestamp - origin, outcomes: round.outcomes },
            flow: if complete {
                flow
            } else {
                None
            },
        };
        assert(entry@ == old(self)@.published_entry(round@, flow));
        let mut taken = Self::vacant();
        std::mem::swap(self, &mut taken);
        let ServerData { servers, computed_results, start_time: _, collecting } = taken;
        let mut history = computed_results;
        history.add(entry);
        proof {
            lemma_save_keeps_wf(old(self)@, round@, flow);
        }
        *self = ServerData {
            servers,
            computed_results: history,
            start_time: Some(origin),
            collecting,
        };
        Ok(())
    }

    /// Takes one round into the store, in one step: liveness is overwritten
    /// from the round's outcomes and, if collection is armed, the round is
    /// published with `flow` attached if every endpoint answered with
    /// numeric fields. A round that does not hold one outcome per endpoint
    /// is rejected, and so is one from before the time origin; the store is
    /// then unchanged.
    pub fn update(&mut self, round: Round, flow: Option<F>) -> (result: Result<
        UpdateEffect,
        UpdateError,
    >)
        ensures
            match result {
                Ok(effect) => {
                    &&& old(self)@.update_error(round@) is None
                    &&& final(self)@ == old(self)@.update(round@, flow)
                    &&& effect == if old(self)@.collecting {
                        UpdateEffect::Published
                    } else {
                        UpdateEffect::StatusOnly
                    }
                },
                Err(error) => old(self)@.update_error(round@) == Some(error) && final(self)@
                    == old(self)@,
            },
            final(self)@ == old(self)@.apply(StoreOp::Update(round@, flow)),
            final(self)@.wf(),
    {
        proof {
            use_type_invariant(&*self);
        }
        if round.len() != self.servers.len() {
            return Err(UpdateError::LengthMismatch);
        }
        if self.collecting {
            match self.start_time {
                Some(origin) => {
                    if round.timestamp < origin {
                        return Err(UpdateError::ClockWentBackwards);
                    }
                },
                None => {},
            }
        }
        self.update_server_statuses(&round);
        if self.is_collecting() {
            let saved = self.save_computation_result(round, flow);
            assert(saved is Ok);
            Ok(UpdateEffect::Published)
        } else {
            Ok(UpdateEffect::StatusOnly)
        }
    }

    /// Adds an endpoint, offline, at the end of the list. Refused while
    /// collection is armed.
    pub fn add_endpoint(&mut self, name: &str, address: &str) -> (result: Result<
        (),
        ControlError,
    >)
        ensures
            match result {
                Ok(()) => !old(self)@.collecting && final(self)@ == old(self)@.with_endpoint(
                    name@,
                    address@,
                ),
                Err(error) => old(self)@.collecting && error == ControlError::Armed && final(self)@
                    == old(self)@,
            },
            final(self)@ == old(self)@.apply(StoreOp::AddEndpoint(name@, address@)),
            final(self)@.wf(),
    {
        proof {
            use_type_invariant(&*self);
        }
        if self.collecting {
            return Err(ControlError::Armed);
        }
        let mut taken = Self::vacant();
        std::mem::swap(self, &mut taken);
        let ServerData { servers, computed_results, start_time, collecting } = taken;
        let mut servers = servers;
        servers.push(ServerInfo::new(name, address));
        assert(servers_view(servers@) =~= old(self)@.with_endpoint(name@, address@).servers);
        *self = ServerData { servers, computed_results, start_time, collecting };
        Ok(())
    }

    /// Adds an endpoint under the default name for its position and the
    /// loopback address. Refused while collection is armed.
    pub fn add_new_server(&mut self) -> (result: Result<(), ControlError>)
        ensures
            match result {
                Ok(()) => !old(self)@.collecting && final(self)@ == old(self)@.with_endpoint(
                    default_name(old(self)@.servers.len() + 1),
                    "127.0.0.1:9000"@,
                ),
                Err(error) => old(self)@.collecting && error == ControlError::Armed && final(self)@
                    == old(self)@,
            },
            final(self)@.wf(),
    {
        let position: u128 = self.servers.len() as u128 + 1;
        let mut name = String::new();
        name.push('m');
        push_decimal(&mut name, position);
        assert(name@ =~= default_name(position as nat));
        self.add_endpoint(name.as_str(), "127.0.0.1:9000")
    }

    /// Removes the endpoint at `index` and returns it. Refused while
    /// collection is armed, and where there is no such endpoint.
    pub fn remove_endpoint(&mut self, index: usize) -> (result: Result<ServerInfo, ControlError>)
        ensures
            match result {
                Ok(removed) => {
                    &&& old(self)@.edit_error(index as int) is None
                    &&& removed@ == old(self)@.servers[index as int]
                    &&& final(self)@ == old(self)@.without_endpoint(index as int)
                },
                Err(error) => old(self)@.edit_error(index as int) == Some(error) && final(self)@
                    == old(self)@,
            },
            final(self)@ == old(self)@.apply(StoreOp::RemoveEndpoint(index as int)),
            final(self)@.wf(),
    {
        proof {
            use_type_invariant(&*self);
        }
        if self.collecting {
            return Err(ControlError::Armed);
        }
        if index >= self.servers.len() {
            return Err(ControlError::NoSuchEndpoint);
        }
        let mut taken = Self::vacant();
        std::mem::swap(self, &mut taken);
        let ServerData { servers, computed_results, start_time, collecting } = taken;
        let mut servers = servers;
        let removed = servers.remove(index);
        assert(servers_view(servers@) =~= old(self)@.without_endpoint(index as int).servers);
        *self = ServerData { servers, computed_results, start_time, collecting };
        Ok(removed)
    }

    /// Changes the address of the endpoint at `index`. Refused while
    /// collection is armed, and where there is no such endpoint.
    pub fn set_address(&mut self, index: usize, address: &str) -> (result: Result<
        (),
        ControlError,
    >)
        ensures
            match result {
                Ok(()) => old(self)@.edit_error(index as int) is None && final(self)@
                    == old(self)@.with_address(index as int, address@),
                Err(error) => old(self)@.edit_error(index as int) == Some(error) && final(self)@
                    == old(self)@,
            },
            final(self)@ == old(self)@.apply(StoreOp::SetAddress(index as int, address@)),
            final(self)@.wf(),
    {
        proof {
            use_type_invariant(&*self);
        }
        if self.collecting {
            return Err(ControlError::Armed);
        }
        if index >= self.servers.len() {
            return Err(ControlError::NoSuchEndpoint);
        }
        let mut taken = Self::vacant();
        std::mem::swap(self, &mut taken);
        let ServerData { servers, computed_results, start_time, collecting } = taken;
        let mut servers = servers;
        let mut server = ServerInfo::new("", "");
        servers.set_and_swap(index, &mut server);
        server.address = String::from_str(address);
        servers.set(index, server);
        assert(servers_view(servers@) =~= old(self)@.with_address(index as int, address@).servers);
        *self = ServerData { servers, computed_results, start_time, collecting };
        Ok(())
    }

    /// Changes the name of the endpoint at `index`. Refused while collection
    /// is armed, and where there is no such endpoint.
    pub fn set_name(&mut self, index: usize, name: &str) -> (result: Result<(), ControlError>)
        ensures
            match result {
                Ok(()) => old(self)@.edit_error(index as int) is None && final(self)@
                    == old(self)@.with_name(index as int, name@),
                Err(error) => old(self)@.edit_error(index as int) == Some(error) && final(self)@
                    == old(self)@,
            },
            final(self)@ == old(self)@.apply(StoreOp::SetName(index as int, name@)),
            final(self)@.wf(),
    {
        proof {
            use_type_invariant(&*self);
        }
        if self.collecting {
            return Err(ControlError::Armed);
        }
        if index >= self.servers.len() {
            return Err(ControlError::NoSuchEndpoint);
        }
        let mut taken = Self::vacant();
        std::mem::swap(self, &mut taken);
        let ServerData { servers, computed_results, start_time, collecting } = taken;
        let mut servers = servers;
        let mut server = ServerInfo::new("", "");
        servers.set_and_swap(index, &mut server);
        server.name = String::from_str(name);
        servers.set(index, server);
        assert(servers_view(servers@) =~= old(self)@.with_name(index as int, name@).servers);
        *self = ServerData { servers, computed_results, start_time, collecting };
        Ok(())
    }

    /// Changes how many rounds the history retains. Refused while
    /// collection is armed.
    pub fn set_history_capacity(&mut self, capacity: usize) -> (result: Result<(), ControlError>)
        ensures
            match result {
                Ok(()) => !old(self)@.collecting && final(self)@ == old(self)@.with_capacity(
                    capacity as nat,
                ),
                Err(error) => old(self)@.collecting && error == ControlError::Armed && final(self)@
                    == old(self)@,
            },
            final(self)@ == old(self)@.apply(StoreOp::SetCapacity(capacity as nat)),
            final(self)@.history.entries == old(self)@.history.entries,
            final(self)@.wf(),
    {
        proof {
            use_type_invariant(&*self);
        }
        if self.collecting {
            return Err(ControlError::Armed);
        }
        let mut taken = Self::vacant();
        std::mem::swap(self, &mut taken);
        let ServerData { servers, computed_results, start_time, collecting } = taken;
        let mut history = computed_results;
        history.set_capacity(capacity);
        assert(history@.entries =~= old(self)@.history.entries);
        *self = ServerData { servers, computed_results: history, start_time, collecting };
        Ok(())
    }
}

impl<F: Copy> ServerData<F> {
    /// A copy of the liveness flags and of the newest `requested` rounds,
    /// oldest first. The store is not changed.
    pub fn snapshot(&self, requested: usize) -> (snapshot: Snapshot<F>)
        ensures
            snapshot.per_endpoint_status@ == self@.statuses(),
            entries_view(snapshot.recent_rounds@) == self@.history.recent(requested as nat),
            snapshot.recent_rounds@.len() <= requested,
            snapshot.recent_rounds@.len() <= self@.history.capacity,
            forall|i: int|
                0 <= i < snapshot.recent_rounds@.len() ==> (
                #[trigger] snapshot.recent_rounds@[i])@.round.outcomes.len()
                    == snapshot.per_endpoint_status@.len(),
    {
        proof {
            use_type_invariant(self);
        }
        let mut per_endpoint_status: Vec<bool> = Vec::new();
        let mut i: usize = 0;
        while i < self.servers.len()
            invariant
                i <= self.servers.len(),
                per_endpoint_status@.len() == i,
                forall|j: int| 0 <= j < i ==> per_endpoint_status@[j] == self.servers@[j].online,
            decreases self.servers.len() - i,
        {
            per_endpoint_status.push(self.servers[i].online);
            i += 1;
        }
        assert(per_endpoint_status@ =~= self@.statuses());
        let recent_rounds = self.computed_results.recent(requested);
        proof {
            let shown = entries_view(recent_rounds@);
            let all = self@.history.entries;
            assert(shown.len() == recent_rounds@.len());
            assert(shown == keep_last(all, requested as nat));
            assert forall|i: int| 0 <= i < recent_rounds@.len() implies (
            #[trigger] recent_rounds@[i])@.round.outcomes.len() == self@.servers.len() by {
                assert(shown[i] == recent_rounds@[i]@);
                if all.len() <= requested {
                    assert(shown[i] == all[i]);
                } else {
                    assert(shown[i] == all[all.len() - requested + i]);
                }
            }
        }
        Snapshot { per_endpoint_status, recent_rounds }
    }
}

/// Publishing keeps the store consistent: the history stays within its
/// capacity, and every round in it still has one outcome per endpoint.
pub proof fn lemma_save_keeps_wf<F>(store: StoreModel<F>, round: RoundModel, flow: Option<F>)
    requires
        store.wf(),
        store.save_error(round) is None,
    ensures
        store.save(round, flow).wf(),
        store.save(round, flow).history.entries.len() <= store.history.capacity,
{
    let entry = store.published_entry(round, flow);
    let pushed = store.history.entries.push(entry);
    let after = store.save(round, flow);
    assert forall|i: int| 0 <= i < after.history.entries.len() implies (
    #[trigger] after.history.entries[i]).round.outcomes.len() == after.servers.len() by {
        if pushed.len() <= store.history.capacity {
            assert(after.history.entries[i] == pushed[i]);
        } else {
            assert(after.history.entries[i] == pushed[pushed.len() - store.history.capacity + i]);
        }
    }
}

/// Taking a round in keeps the store consistent, whether or not collection
/// is armed.
pub proof fn lemma_update_keeps_wf<F>(store: StoreModel<F>, round: RoundModel, flow: Option<F>)
    requires
        store.wf(),
        store.update_error(round) is None,
    ensures
        store.update(round, flow).wf(),
{
    let marked = store.with_statuses(round.outcomes);
    assert(marked.servers.len() == store.servers.len());
    if store.collecting {
        lemma_save_keeps_wf(marked, round, flow);
    }
}

/// Every operation keeps the store consistent, whether it is carried out or
/// refused.
pub proof fn lemma_apply_keeps_wf<F>(store: StoreModel<F>, op: StoreOp<F>)
    requires
        store.wf(),
    ensures
        store.apply(op).wf(),
{
    match op {
        StoreOp::Update(round, flow) => {
            if store.update_error(round) is None {
                lemma_update_keeps_wf(store, round, flow);
            }
        },
        StoreOp::Save(round, flow) => {
            if store.save_error(round) is None {
                lemma_save_keeps_wf(store, round, flow);
            }
        },
        _ => {},
    }
}

/// In every state that a store can reach from its start, whatever the
/// operations and whatever their order, the history is no longer than its
/// capacity and every round in it holds exactly one outcome per configured
/// endpoint.
pub proof fn lemma_every_state_is_consistent<F>(
    servers: Seq<ServerModel>,
    capacity: nat,
    ops: Seq<StoreOp<F>>,
)
    ensures
        StoreModel::<F>::initial(servers, capacity).run(ops).wf(),
    decreases ops.len(),
{
    if ops.len() > 0 {
        lemma_every_state_is_consistent::<F>(servers, capacity, ops.drop_last());
        lemma_apply_keeps_wf(
            StoreModel::<F>::initial(servers, capacity).run(ops.drop_last()),
            ops.last(),
        );
    }
}

/// Every round of a consistent store's history holds exactly one outcome
/// per configured endpoint, and the history is no longer than its capacity.
pub proof fn lemma_history_aligned<F>(store: StoreModel<F>, i: int)
    requires
        store.wf(),
        0 <= i < store.history.entries.len(),
    ensures
        store.history.entries[i].round.outcomes.len() == store.servers.len(),
        store.history.entries.len() <= store.history.capacity,
{
}

/// Liveness is overwritten by every round that is taken in: afterwards an
/// endpoint is online exactly if it answered in that round, whatever it was
/// before and whether or not collection is armed.
pub proof fn lemma_update_overwrites_liveness<F>(
    store: StoreModel<F>,
    round: RoundModel,
    flow: Option<F>,
)
    requires
        store.update_error(round) is None,
    ensures
        store.update(round, flow).statuses() == liveness(round.outcomes),
{
    assert(store.update(round, flow).statuses() =~= liveness(round.outcomes));
}

/// Disarming and arming again leaves an armed store with an empty history
/// and no time origin, whatever it held before.
pub proof fn lemma_rearm_resets<F>(store: StoreModel<F>)
    ensures
        store.disarm().arm().collecting,
        store.disarm().arm().history.entries.len() == 0,
        store.disarm().arm().start_time is None,
        store.disarm().arm().servers == store.servers,
        store.disarm().arm().history.capacity == store.history.capacity,
{
}

/// The first round published after arming becomes the time origin and is
/// stored at relative time zero.
pub proof fn lemma_first_round_sets_origin<F>(
    store: StoreModel<F>,
    round: RoundModel,
    flow: Option<F>,
)
    requires
        store.wf(),
        store.collecting,
        store.start_time is None,
        store.history.capacity > 0,
        round.outcomes.len() == store.servers.len(),
    ensures
        store.update_error(round) is None,
        store.update(round, flow).start_time == Some(round.timestamp),
        store.update(round, flow).history.entries.len() == 1,
        store.update(round, flow).history.entries[0].round.timestamp == 0,
{
}

/// A flow is attached to a published round only where every endpoint
/// answered, and answered with numeric fields; one failure or one malformed
/// answer leaves the round without a flow.
pub proof fn lemma_flow_needs_every_answer<F>(
    store: StoreModel<F>,
    round: RoundModel,
    flow: Option<F>,
)
    ensures
        store.published_entry(round, flow).flow is Some ==> flow_ready(round.outcomes)
            && all_success(round.outcomes),
        !all_success(round.outcomes) ==> store.published_entry(round, flow).flow is None,
{
    if flow_ready(round.outcomes) {
        lemma_flow_ready_all_success(round.outcomes);
    }
}

} // verus!
