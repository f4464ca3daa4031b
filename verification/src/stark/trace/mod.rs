pub mod trace_state;
pub mod trace_state2;

pub use trace_state::TraceState;
