//! The poll-compute-store cycle as two steps: what a timer tick leads to,
//! and what the end of a round leads to. The driver performs the fan-out
//! and the flow computation in between; the order of publishing and
//! dispatching is decided here.

use vstd::prelude::*;

use crate::endpoint::{servers_view, ServerInfo};
use crate::outcome::Round;
use crate::scheduler::{RoundAction, Scheduler, TickAction};
use crate::store::{ServerData, UpdateEffect, UpdateError};

verus! {

/// What the end of a round led to.
#[derive(Debug)]
pub struct RoundReport {
    /// What taking the round into the store did, or why it was rejected.
    pub update: Result<UpdateEffect, UpdateError>,
    /// The endpoints to poll right away, captured after the round was taken
    /// in; `None` where the driver is to wait for the next tick.
    pub dispatch: Option<Vec<ServerInfo>>,
}

/// Reports a timer tick. Where a round is to be started, the endpoint list
/// is captured and handed out: later edits of the list do not reach the
/// round in flight.
pub fn tick<F>(store: &ServerData<F>, scheduler: &mut Scheduler) -> (dispatch: Option<
    Vec<ServerInfo>,
>)
    ensures
        final(scheduler)@ == old(scheduler)@.after_tick(store@.collecting),
        final(scheduler)@.wf(),
        match dispatch {
            Some(endpoints) => old(scheduler)@.tick_action(store@.collecting)
                == TickAction::Dispatch && servers_view(endpoints@) == store@.servers,
            None => old(scheduler)@.tick_action(store@.collecting) != TickAction::Dispatch,
        },
{
    match scheduler.on_tick(store.is_collecting()) {
        TickAction::Dispatch => Some(store.servers()),
        TickAction::Defer => None,
        TickAction::Rest => None,
    }
}

/// Reports the end of the round in flight, with the flow computed for it,
/// if any. The round is taken into the store first; only then is the next
/// round started, if a tick arrived meanwhile and collection is still
/// armed. So the publishing of one round always comes before the dispatch
/// of the next.
pub fn round_finished<F>(
    store: &mut ServerData<F>,
    scheduler: &mut Scheduler,
    round: Round,
    flow: Option<F>,
) -> (report: RoundReport)
    ensures
        match report.update {
            Ok(effect) => {
                &&& old(store)@.update_error(round@) is None
                &&& final(store)@ == old(store)@.update(round@, flow)
                &&& effect == if old(store)@.collecting {
                    UpdateEffect::Published
                } else {
                    UpdateEffect::StatusOnly
                }
            },
            Err(error) => old(store)@.update_error(round@) == Some(error) && final(store)@
                == old(store)@,
        },
        final(store)@.wf(),
        final(store)@.collecting == old(store)@.collecting,
        final(scheduler)@ == old(scheduler)@.after_round(old(store)@.collecting),
        final(scheduler)@.wf(),
        match report.dispatch {
            Some(endpoints) => old(scheduler)@.round_action(old(store)@.collecting)
                == RoundAction::DispatchNow && servers_view(endpoints@) == final(store)@.servers,
            None => old(scheduler)@.round_action(old(store)@.collecting) == RoundAction::Wait,
        },
{
    let update = store.update(round, flow);
    let dispatch = match scheduler.on_round_finished(store.is_collecting()) {
        RoundAction::DispatchNow => Some(store.servers()),
        RoundAction::Wait => None,
    };
    RoundReport { update, dispatch }
}

} // verus!
