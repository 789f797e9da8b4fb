//! The core of a monitor for measurement rigs that answer over TCP.
//!
//! Once per interval the monitor polls every configured endpoint, gathers
//! the answers into one round, takes the round into a store with a bounded
//! history, and has a mass flow derived from it where every endpoint
//! answered with numbers. This crate holds the decisions of that cycle and
//! the data they are made on. It does not touch a socket, a timer or a
//! floating-point number: a driver performs the input and output and the
//! arithmetic, reports what happened, and does what it is told.
//!
//! - [`endpoint`]: the configured endpoints.
//! - [`fetch`]: the protocol of one fetch, event by event.
//! - [`outcome`]: what one endpoint answered, and the round of all answers.
//! - [`collector`]: the join of a fan-out into a round.
//! - [`response`]: the fields of a response and what counts as a number.
//! - [`rig`]: the layout of the four-endpoint flow rig.
//! - [`solver`]: the bound on the flow solver's iteration.
//! - [`history`]: the bounded first-in, first-out series of rounds.
//! - [`store`]: liveness, history and time origin behind one boundary.
//! - [`scheduler`]: ticks, single flight, and deferred ticks.
//! - [`engine`]: the cycle as two steps over store and scheduler.
//! - [`clock`], [`text`]: timestamps and their text.

pub mod clock;
pub mod collector;
pub mod endpoint;
pub mod engine;
pub mod fetch;
pub mod history;
pub mod outcome;
pub mod response;
pub mod rig;
pub mod scheduler;
pub mod solver;
pub mod store;
pub mod text;
