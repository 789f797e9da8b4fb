//! The layout of the four-endpoint flow rig: which field of which response
//! is which reading. A round is decoded into named readings or rejected
//! with the reason; no reading is ever replaced by a default.

use vstd::prelude::*;

use crate::outcome::{flow_ready, FetchError, OutcomeModel, PollOutcome, Round};
use crate::response::{decode_fields, fields, is_number, parse_error, texts_view, ParseError};

verus! {

/// Number of endpoints of the rig.
pub const RIG_ENDPOINTS: usize = 4;

/// Position of the nozzle thermometer in the endpoint list.
pub const NOZZLE: usize = 0;

/// Position of the cone thermometer in the endpoint list.
pub const CONE: usize = 1;

/// Position of the pressure block with the branches' dynamic pressures.
pub const DYNAMIC_BLOCK: usize = 2;

/// Position of the pressure block with the static pressures.
pub const STATIC_BLOCK: usize = 3;

/// Number of branches.
pub const BRANCHES: usize = 4;

/// In the static block, counted from the last field: where the branches'
/// static pressures start.
pub const STATIC_FIRST: usize = 0;

/// In the static block, counted from the last field: the pressure upstream
/// of the orifice.
pub const UPSTREAM: usize = 8;

/// In the static block, counted from the last field: the pressure
/// downstream of the orifice.
pub const DOWNSTREAM: usize = 9;

/// In the dynamic block, counted from the last field: where the branches'
/// dynamic pressures start.
pub const DYNAMIC_FIRST: usize = 11;

/// Why the response of one endpoint gives no readings.
#[derive(Clone, Copy, Debug, PartialEq, Eq, Structural)]
pub enum ReadingError {
    /// The endpoint did not answer.
    NoAnswer(FetchError),
    /// The response is no list of numeric fields.
    Malformed(ParseError),
    /// The response holds fewer fields than the layout addresses.
    TooShort,
}

/// Why a round gives no readings.
#[derive(Clone, Copy, Debug, PartialEq, Eq, Structural)]
pub enum RigError {
    /// The round is not over the rig's four endpoints.
    NotTheRig,
    /// The first endpoint, in endpoint order, whose response gives no
    /// readings, and why.
    Endpoint(usize, ReadingError),
}

/// The readings of one round, each the text of its field.
#[derive(Debug)]
pub struct RigReadings {
    /// Temperature at the nozzle, degrees Celsius.
    pub nozzle_temperature: String,
    /// Temperature at the cone, degrees Celsius.
    pub cone_temperature: String,
    /// Gauge pressure upstream of the orifice.
    pub upstream: String,
    /// Gauge pressure downstream of the orifice.
    pub downstream: String,
    /// Static gauge pressure of each branch.
    pub branch_static: Vec<String>,
    /// Dynamic pressure of each branch.
    pub branch_dynamic: Vec<String>,
}

/// Mathematical model of [`RigReadings`].
pub struct RigModel {
    pub nozzle_temperature: Seq<char>,
    pub cone_temperature: Seq<char>,
    pub upstream: Seq<char>,
    pub downstream: Seq<char>,
    pub branch_static: Seq<Seq<char>>,
    pub branch_dynamic: Seq<Seq<char>>,
}

impl View for RigReadings {
    type V = RigModel;

    open spec fn view(&self) -> RigModel {
        RigModel {
            nozzle_temperature: self.nozzle_temperature@,
            cone_temperature: self.cone_temperature@,
            upstream: self.upstream@,
            downstream: self.downstream@,
            branch_static: texts_view(self.branch_static@),
            branch_dynamic: texts_view(self.branch_dynamic@),
        }
    }
}

/// How many fields the layout addresses in the response of an endpoint.
pub open spec fn wanted_fields(endpoint: int) -> nat {
    if endpoint == DYNAMIC_BLOCK {
        (DYNAMIC_FIRST + BRANCHES) as nat
    } else if endpoint == STATIC_BLOCK {
        (DOWNSTREAM + 1) as nat
    } else {
        1
    }
}

/// The field at `position`, counted from the last.
pub open spec fn from_end(list: Seq<Seq<char>>, position: int) -> Seq<char> {
    list[list.len() - 1 - position]
}

/// The fields of an answer; none where the endpoint did not answer.
pub open spec fn answer_fields(outcome: OutcomeModel) -> Seq<Seq<char>> {
    match outcome {
        OutcomeModel::Success(text) => fields(text),
        OutcomeModel::Failure(_) => Seq::empty(),
    }
}

/// Why an outcome gives no readings where `wanted` fields are addressed, if
/// it gives none: the endpoint did not answer, or the response cannot be
/// decoded, or it is too short.
pub open spec fn reading_error(outcome: OutcomeModel, wanted: nat) -> Option<ReadingError> {
    match outcome {
        OutcomeModel::Failure(error) => Some(ReadingError::NoAnswer(error)),
        OutcomeModel::Success(text) => match parse_error(text) {
            Some(error) => Some(ReadingError::Malformed(error)),
            None => if fields(text).len() < wanted {
                Some(ReadingError::TooShort)
            } else {
                None
            },
        },
    }
}

/// The first of the first `upto` endpoints whose outcome gives no readings;
/// `upto` where all do.
pub open spec fn first_unreadable(outcomes: Seq<OutcomeModel>, upto: int) -> int
    decreases upto,
{
    if upto <= 0 {
        0
    } else {
        let before: int = first_unreadable(outcomes, upto - 1);
        if before < upto - 1 {
            before
        } else if reading_error(outcomes[upto - 1], wanted_fields(upto - 1)) is Some {
            upto - 1
        } else {
            upto
        }
    }
}

/// Why a round gives no readings, if it gives none.
pub open spec fn rig_error(outcomes: Seq<OutcomeModel>) -> Option<RigError> {
    if outcomes.len() != RIG_ENDPOINTS {
        Some(RigError::NotTheRig)
    } else {
        let bad: int = first_unreadable(outcomes, RIG_ENDPOINTS as int);
        if bad < RIG_ENDPOINTS {
            Some(
                RigError::Endpoint(
                    bad as usize,
                    reading_error(outcomes[bad], wanted_fields(bad))->0,
                ),
            )
        } else {
            None
        }
    }
}

/// The readings of a round over the rig's endpoints.
pub open spec fn rig_readings(outcomes: Seq<OutcomeModel>) -> RigModel {
    let nozzle = answer_fields(outcomes[NOZZLE as int]);
    let cone = answer_fields(outcomes[CONE as int]);
    let dynamic_block = answer_fields(outcomes[DYNAMIC_BLOCK as int]);
    let static_block = answer_fields(outcomes[STATIC_BLOCK as int]);
    RigModel {
        nozzle_temperature: nozzle[0],
        cone_temperature: cone[0],
        upstream: from_end(static_block, UPSTREAM as int),
        downstream: from_end(static_block, DOWNSTREAM as int),
        branch_static: Seq::new(
            BRANCHES as nat,
            |i: int| from_end(static_block, STATIC_FIRST + i),
        ),
        branch_dynamic: Seq::new(
            BRANCHES as nat,
            |i: int| from_end(dynamic_block, DYNAMIC_FIRST + i),
        ),
    }
}

/// Whether every reading is a numeral.
pub open spec fn all_numerals(readings: RigModel) -> bool {
    &&& is_number(readings.nozzle_temperature)
    &&& is_number(readings.cone_temperature)
    &&& is_number(readings.upstream)
    &&& is_number(readings.downstream)
    &&& readings.branch_static.len() == BRANCHES
    &&& readings.branch_dynamic.len() == BRANCHES
    &&& forall|i: int| 0 <= i < BRANCHES ==> is_number(#[trigger] readings.branch_static[i])
    &&& forall|i: int| 0 <= i < BRANCHES ==> is_number(#[trigger] readings.branch_dynamic[i])
}

/// The fields of one endpoint's answer, first field first, where the answer
/// can be decoded and holds at least `wanted` fields.
pub fn read_endpoint(outcome: &PollOutcome, wanted: usize) -> (result: Result<
    Vec<String>,
    ReadingError,
>)
    ensures
        match result {
            Ok(list) => reading_error(outcome@, wanted as nat) is None && texts_view(list@)
                == answer_fields(outcome@),
            Err(error) => reading_error(outcome@, wanted as nat) == Some(error),
        },
{
    match outcome {
        PollOutcome::Failure(error) => Err(ReadingError::NoAnswer(*error)),
        PollOutcome::Success(text) => match decode_fields(text.as_str()) {
            Err(error) => Err(ReadingError::Malformed(error)),
            Ok(list) => if list.len() < wanted {
                Err(ReadingError::TooShort)
            } else {
                Ok(list)
            },
        },
    }
}

/// A copy of the field at `position`, counted from the last.
fn pick_from_end(list: &Vec<String>, position: usize) -> (field: String)
    requires
        position < list@.len(),
    ensures
        field@ == from_end(texts_view(list@), position as int),
{
    list[list.len() - 1 - position].clone()
}

/// Copies of `BRANCHES` fields in a row, counted from the last, starting at
/// `first`.
fn pick_branches(list: &Vec<String>, first: usize) -> (picked: Vec<String>)
    requires
        first + BRANCHES <= list@.len(),
    ensures
        texts_view(picked@) == Seq::new(
            BRANCHES as nat,
            |i: int| from_end(texts_view(list@), first + i),
        ),
{
    let mut picked: Vec<String> = Vec::new();
    let len: usize = list.len();
    let mut i: usize = 0;
    while i < BRANCHES
        invariant
            i <= BRANCHES,
            len == list@.len(),
            first + BRANCHES <= len,
            picked@.len() == i,
            forall|j: int|
                0 <= j < i ==> (#[trigger] picked@[j])@ == from_end(texts_view(list@), first + j),
        decreases BRANCHES - i,
    {
        picked.push(pick_from_end(list, first + i));
        i += 1;
    }
    assert(texts_view(picked@) =~= Seq::new(
        BRANCHES as nat,
        |i: int| from_end(texts_view(list@), first + i),
    ));
    picked
}

/// Decodes the round of the rig into its readings. The round must be over
/// the rig's four endpoints; every endpoint must have answered with numeric
/// fields, and with as many as the layout addresses. Otherwise the first
/// endpoint that fails this is named, in endpoint order.
pub fn decode_rig(round: &Round) -> (result: Result<RigReadings, RigError>)
    ensures
        match result {
            Ok(readings) => rig_error(round@.outcomes) is None && readings@ == rig_readings(
                round@.outcomes,
            ),
            Err(error) => rig_error(round@.outcomes) == Some(error),
        },
{
    if round.outcomes.len() != RIG_ENDPOINTS {
        return Err(RigError::NotTheRig);
    }
    let ghost outcomes = round@.outcomes;
    proof {
        reveal_with_fuel(first_unreadable, 5);
        assert(outcomes[0] == round.outcomes@[0]@);
        assert(outcomes[1] == round.outcomes@[1]@);
        assert(outcomes[2] == round.outcomes@[2]@);
        assert(outcomes[3] == round.outcomes@[3]@);
    }
    let nozzle = match read_endpoint(&round.outcomes[NOZZLE], 1) {
        Ok(list) => list,
        Err(error) => {
            return Err(RigError::Endpoint(NOZZLE, error));
        },
    };
    let cone = match read_endpoint(&round.outcomes[CONE], 1) {
        Ok(list) => list,
        Err(error) => {
            return Err(RigError::Endpoint(CONE, error));
        },
    };
    let dynamic_block = match read_endpoint(
        &round.outcomes[DYNAMIC_BLOCK],
        DYNAMIC_FIRST + BRANCHES,
    ) {
        Ok(list) => list,
        Err(error) => {
            return Err(RigError::Endpoint(DYNAMIC_BLOCK, error));
        },
    };
    let static_block = match read_endpoint(&round.outcomes[STATIC_BLOCK], DOWNSTREAM + 1) {
        Ok(list) => list,
        Err(error) => {
            return Err(RigError::Endpoint(STATIC_BLOCK, error));
        },
    };
    let readings = RigReadings {
        nozzle_temperature: nozzle[0].clone(),
        cone_temperature: cone[0].clone(),
        upstream: pick_from_end(&static_block, UPSTREAM),
        downstream: pick_from_end(&static_block, DOWNSTREAM),
        branch_static: pick_branches(&static_block, STATIC_FIRST),
        branch_dynamic: pick_branches(&dynamic_block, DYNAMIC_FIRST),
    };
    assert(texts_view(nozzle@)[0] == nozzle@[0]@);
    assert(texts_view(cone@)[0] == cone@[0]@);
    Ok(readings)
}

/// The endpoint that a rejection names is the first that gives no readings:
/// every endpoint before it does, and it does not.
pub proof fn lemma_first_unreadable_is_least(outcomes: Seq<OutcomeModel>, upto: int)
    requires
        0 <= upto,
    ensures
        0 <= first_unreadable(outcomes, upto) <= upto,
        forall|i: int|
            0 <= i < first_unreadable(outcomes, upto) ==> reading_error(
                #[trigger] outcomes[i],
                wanted_fields(i),
            ) is None,
        first_unreadable(outcomes, upto) < upto ==> reading_error(
            outcomes[first_unreadable(outcomes, upto)],
            wanted_fields(first_unreadable(outcomes, upto)),
        ) is Some,
    decreases upto,
{
    if upto > 0 {
        lemma_first_unreadable_is_least(outcomes, upto - 1);
    }
}

/// An outcome that gives readings is an answer that can be decoded, and
/// holds as many fields as are addressed.
pub proof fn lemma_readable_is_numeric(outcome: OutcomeModel, wanted: nat)
    requires
        reading_error(outcome, wanted) is None,
    ensures
        outcome is Success,
        crate::response::is_numeric(outcome->Success_0),
        answer_fields(outcome).len() >= wanted,
        forall|i: int|
            0 <= i < answer_fields(outcome).len() ==> is_number(
                #[trigger] answer_fields(outcome)[i],
            ),
{
}

/// A round that decodes is a round from which a flow can be derived, so a
/// flow computed from its readings is attached when the round is published;
/// and every one of its readings is a numeral.
pub proof fn lemma_decoded_round_is_flow_ready(outcomes: Seq<OutcomeModel>)
    requires
        rig_error(outcomes) is None,
    ensures
        outcomes.len() == RIG_ENDPOINTS,
        flow_ready(outcomes),
        all_numerals(rig_readings(outcomes)),
{
    reveal_with_fuel(first_unreadable, 5);
    lemma_readable_is_numeric(outcomes[0], wanted_fields(0));
    lemma_readable_is_numeric(outcomes[1], wanted_fields(1));
    lemma_readable_is_numeric(outcomes[2], wanted_fields(2));
    lemma_readable_is_numeric(outcomes[3], wanted_fields(3));
    assert forall|i: int| 0 <= i < outcomes.len() implies match #[trigger] outcomes[i] {
        OutcomeModel::Success(text) => crate::response::is_numeric(text),
        OutcomeModel::Failure(_) => false,
    } by {
        if i == 0 {
        } else if i == 1 {
        } else if i == 2 {
        } else {
            assert(i == 3);
        }
    }
    let readings = rig_readings(outcomes);
    let static_block = answer_fields(outcomes[STATIC_BLOCK as int]);
    let dynamic_block = answer_fields(outcomes[DYNAMIC_BLOCK as int]);
    assert forall|i: int| 0 <= i < BRANCHES implies is_number(
        #[trigger] readings.branch_static[i],
    ) by {
        assert(readings.branch_static[i] == static_block[static_block.len() - 1 - i]);
    }
    assert forall|i: int| 0 <= i < BRANCHES implies is_number(
        #[trigger] readings.branch_dynamic[i],
    ) by {
        assert(readings.branch_dynamic[i] == dynamic_block[dynamic_block.len() - 1 - (
        DYNAMIC_FIRST + i)]);
    }
}

} // verus!
