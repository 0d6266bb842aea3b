pub mod data;
pub mod executor;
pub mod state;
pub mod traits;

pub use executor::StateMachine;
