//! What one endpoint answered in one polling round, and the round that
//! aggregates the answers of all endpoints.

use vstd::prelude::*;
use vstd::string::StringExecFns;

use crate::response::{is_numeric, is_numeric_response};

verus! {

/// Why a fetch from one endpoint produced no text.
#[derive(Clone, Copy, Debug, PartialEq, Eq, Structural)]
pub enum FetchError {
    /// The connection could not be opened.
    ConnectFailed,
    /// The request token could not be written in full.
    WriteFailed,
    /// Reading the response failed before the peer closed the stream.
    ReadFailed,
    /// Connecting, writing and reading together took longer than allowed.
    Timeout,
    /// The response bytes are not UTF-8 and strict decoding was asked for.
    InvalidEncoding,
}

impl FetchError {
    /// The text shown to the operator in place of a value.
    pub open spec fn reason(self) -> Seq<char> {
        match self {
            FetchError::ConnectFailed => "Connect failed"@,
            FetchError::WriteFailed => "Write failed"@,
            FetchError::ReadFailed => "Read failed"@,
            FetchError::Timeout => "Response timeout"@,
            FetchError::InvalidEncoding => "Invalid UTF-8"@,
        }
    }

    /// The failure reason as text.
    pub fn describe(&self) -> (text: String)
        ensures
            text@ == self.reason(),
    {
        match self {
            FetchError::ConnectFailed => String::from_str("Connect failed"),
            FetchError::WriteFailed => String::from_str("Write failed"),
            FetchError::ReadFailed => String::from_str("Read failed"),
            FetchError::Timeout => String::from_str("Response timeout"),
            FetchError::InvalidEncoding => String::from_str("Invalid UTF-8"),
        }
    }
}

/// The result of polling one endpoint once.
#[derive(Debug)]
pub enum PollOutcome {
    /// The endpoint answered; the raw response text is kept as received.
    Success(String),
    /// The endpoint did not answer; the reason is kept as data.
    Failure(FetchError),
}

/// Mathematical model of a [`PollOutcome`].
pub enum OutcomeModel {
    Success(Seq<char>),
    Failure(FetchError),
}

impl OutcomeModel {
    /// What the operator sees for this outcome: the raw text of a success,
    /// the failure reason otherwise.
    pub open spec fn shown(self) -> Seq<char> {
        match self {
            OutcomeModel::Success(text) => text,
            OutcomeModel::Failure(error) => error.reason(),
        }
    }
}

/// The outcome that a fetch result turns into.
pub open spec fn outcome_of(result: Result<String, FetchError>) -> OutcomeModel {
    match result {
        Ok(text) => OutcomeModel::Success(text@),
        Err(error) => OutcomeModel::Failure(error),
    }
}

impl View for PollOutcome {
    type V = OutcomeModel;

    open spec fn view(&self) -> OutcomeModel {
        match self {
            PollOutcome::Success(text) => OutcomeModel::Success(text@),
            PollOutcome::Failure(error) => OutcomeModel::Failure(*error),
        }
    }
}

impl Clone for PollOutcome {
    fn clone(&self) -> (copy: Self)
        ensures
            copy@ == self@,
    {
        match self {
            PollOutcome::Success(text) => PollOutcome::Success(text.clone()),
            PollOutcome::Failure(error) => PollOutcome::Failure(*error),
        }
    }
}

impl PollOutcome {
    /// Folds a fetch result into an outcome: a failure is data, not an
    /// exception.
    pub fn from_result(result: Result<String, FetchError>) -> (outcome: Self)
        ensures
            outcome@ == outcome_of(result),
    {
        match result {
            Ok(text) => PollOutcome::Success(text),
            Err(error) => PollOutcome::Failure(error),
        }
    }

    /// Whether the endpoint answered.
    pub fn is_success(&self) -> (yes: bool)
        ensures
            yes == (self@ is Success),
    {
        match self {
            PollOutcome::Success(_) => true,
            PollOutcome::Failure(_) => false,
        }
    }

    /// Whether the endpoint answered with numeric fields.
    pub fn is_numeric(&self) -> (yes: bool)
        ensures
            yes == match self@ {
                OutcomeModel::Success(text) => is_numeric(text),
                OutcomeModel::Failure(_) => false,
            },
    {
        match self {
            PollOutcome::Success(text) => is_numeric_response(text.as_str()),
            PollOutcome::Failure(_) => false,
        }
    }

    /// The failure, if the endpoint did not answer.
    pub fn error(&self) -> (error: Option<FetchError>)
        ensures
            error == match self@ {
                OutcomeModel::Success(_) => None::<FetchError>,
                OutcomeModel::Failure(e) => Some(e),
            },
    {
        match self {
            PollOutcome::Success(_) => None,
            PollOutcome::Failure(error) => Some(*error),
        }
    }

    /// The raw response text, if the endpoint answered.
    pub fn text(&self) -> (text: Option<&String>)
        ensures
            match self@ {
                OutcomeModel::Success(t) => text is Some && text->0@ == t,
                OutcomeModel::Failure(_) => text is None,
            },
    {
        match self {
            PollOutcome::Success(text) => Some(text),
            PollOutcome::Failure(_) => None,
        }
    }

    /// The text displayed for this outcome: the response of a success, the
    /// failure reason in place of a value otherwise.
    pub fn display_text(&self) -> (text: String)
        ensures
            text@ == self@.shown(),
    {
        match self {
            PollOutcome::Success(text) => text.clone(),
            PollOutcome::Failure(error) => error.describe(),
        }
    }
}

/// View of a list of outcomes, element by element.
pub open spec fn outcomes_view(outcomes: Seq<PollOutcome>) -> Seq<OutcomeModel> {
    outcomes.map_values(|o: PollOutcome| o@)
}

/// Whether every outcome of a list is a success.
pub open spec fn all_success(outcomes: Seq<OutcomeModel>) -> bool {
    forall|i: int| 0 <= i < outcomes.len() ==> #[trigger] outcomes[i] is Success
}

/// Whether a flow can be derived from a list of outcomes: every endpoint
/// answered, and every answer decodes into numeric fields.
pub open spec fn flow_ready(outcomes: Seq<OutcomeModel>) -> bool {
    forall|i: int|
        0 <= i < outcomes.len() ==> match #[trigger] outcomes[i] {
            OutcomeModel::Success(text) => is_numeric(text),
            OutcomeModel::Failure(_) => false,
        }
}

/// The liveness flags that a list of outcomes implies, one per endpoint.
pub open spec fn liveness(outcomes: Seq<OutcomeModel>) -> Seq<bool> {
    outcomes.map_values(|o: OutcomeModel| o is Success)
}

/// Copies a list of outcomes.
pub fn copy_outcomes(outcomes: &Vec<PollOutcome>) -> (copy: Vec<PollOutcome>)
    ensures
        outcomes_view(copy@) == outcomes_view(outcomes@),
{
    let mut copy: Vec<PollOutcome> = Vec::new();
    let mut i: usize = 0;
    while i < outcomes.len()
        invariant
            i <= outcomes.len(),
            copy.len() == i,
            forall|j: int| 0 <= j < i ==> copy[j]@ == outcomes[j]@,
        decreases outcomes.len() - i,
    {
        copy.push(outcomes[i].clone());
        i += 1;
    }
    assert(outcomes_view(copy@) =~= outcomes_view(outcomes@));
    copy
}

/// One aggregated measurement: a timestamp and one outcome per endpoint, in
/// the order of the endpoint list captured at dispatch.
#[derive(Debug)]
pub struct Round {
    /// Seconds; absolute when the round is assembled, relative to the time
    /// origin once the round is part of a history.
    pub timestamp: u64,
    /// One outcome per endpoint, index-aligned with the endpoint list.
    pub outcomes: Vec<PollOutcome>,
}

/// Mathematical model of a [`Round`].
pub struct RoundModel {
    pub timestamp: u64,
    pub outcomes: Seq<OutcomeModel>,
}

impl View for Round {
    type V = RoundModel;

    open spec fn view(&self) -> RoundModel {
        RoundModel { timestamp: self.timestamp, outcomes: outcomes_view(self.outcomes@) }
    }
}

impl Clone for Round {
    fn clone(&self) -> (copy: Self)
        ensures
            copy@ == self@,
    {
        Round { timestamp: self.timestamp, outcomes: copy_outcomes(&self.outcomes) }
    }
}

impl Round {
    /// A round from its parts.
    pub fn new(timestamp: u64, outcomes: Vec<PollOutcome>) -> (round: Self)
        ensures
            round@ == (RoundModel { timestamp, outcomes: outcomes_view(outcomes@) }),
    {
        Round { timestamp, outcomes }
    }

    /// Number of outcomes, which is the number of endpoints polled.
    pub fn len(&self) -> (n: usize)
        ensures
            n == self@.outcomes.len(),
    {
        self.outcomes.len()
    }

    /// Whether a flow can be derived from the round: every endpoint
    /// answered, and every answer decodes into numeric fields.
    pub fn is_flow_ready(&self) -> (yes: bool)
        ensures
            yes == flow_ready(self@.outcomes),
    {
        let mut i: usize = 0;
        while i < self.outcomes.len()
            invariant
                i <= self.outcomes.len(),
                forall|j: int|
                    0 <= j < i ==> match #[trigger] self@.outcomes[j] {
                        OutcomeModel::Success(text) => is_numeric(text),
                        OutcomeModel::Failure(_) => false,
                    },
            decreases self.outcomes.len() - i,
        {
            if !self.outcomes[i].is_numeric() {
                assert(self@.outcomes[i as int] == self.outcomes@[i as int]@);
                return false;
            }
            i += 1;
        }
        true
    }

    /// Whether every endpoint answered.
    pub fn all_succeeded(&self) -> (yes: bool)
        ensures
            yes == all_success(self@.outcomes),
    {
        let mut i: usize = 0;
        while i < self.outcomes.len()
            invariant
                i <= self.outcomes.len(),
                forall|j: int| 0 <= j < i ==> #[trigger] self@.outcomes[j] is Success,
            decreases self.outcomes.len() - i,
        {
            if !self.outcomes[i].is_success() {
                assert(!(self@.outcomes[i as int] is Success));
                return false;
            }
            i += 1;
        }
        true
    }
}

/// A round from which a flow can be derived is a round in which every
/// endpoint answered.
pub proof fn lemma_flow_ready_all_success(outcomes: Seq<OutcomeModel>)
    requires
        flow_ready(outcomes),
    ensures
        all_success(outcomes),
{
    assert forall|i: int| 0 <= i < outcomes.len() implies #[trigger] outcomes[i] is Success by {
        assert(match outcomes[i] {
            OutcomeModel::Success(text) => is_numeric(text),
            OutcomeModel::Failure(_) => false,
        });
    }
}

/// Assembles the round of one fan-out: the results of the fetches, in the
/// order in which the endpoints were captured at dispatch, each folded into
/// an outcome. A failed fetch does not abort the round.
pub fn poll_round(timestamp: u64, results: Vec<Result<String, FetchError>>) -> (round: Round)
    ensures
        round@.timestamp == timestamp,
        round@.outcomes == results@.map_values(|r: Result<String, FetchError>| outcome_of(r)),
{
    let mut outcomes: Vec<PollOutcome> = Vec::new();
    let ghost all = results@;
    for result in it: results
        invariant
            it.seq() == all,
            outcomes@.len() == it.index(),
            forall|j: int| 0 <= j < outcomes@.len() ==> outcomes@[j]@ == outcome_of(all[j]),
    {
        outcomes.push(PollOutcome::from_result(result));
    }
    let round = Round { timestamp, outcomes };
    assert(round@.outcomes =~= all.map_values(|r: Result<String, FetchError>| outcome_of(r)));
    round
}

} // verus!
