//! The decision core of a model-rocket flight computer.
//!
//! A flight is a graph of states. Each state has checks on what the sensors
//! read, commands that are run once some time after the state was entered, and
//! a timeout. [`config_format`] holds the graph in its two forms, the portable
//! one that is stored and the executable one that is run, and the way from the
//! first to the second. [`state_machine`] runs the executable form tick by
//! tick, reading from [`data_acquisition`] and acting through [`control`].
//! [`data_format`], [`state_machine::data`] and [`flight`] are the log of the
//! flight.
//!
//! The library is verified with Verus: every function does what its contract
//! says on every input that the contract admits, and does not panic. What is
//! taken on trust are the few calls into `heapless`, each in a function of its
//! own whose doc comment says what is claimed of the call.

pub mod config_format;
pub mod control;
pub mod data_acquisition;
pub mod data_format;
pub mod flight;
pub mod state_machine;

pub use state_machine::StateMachine;
