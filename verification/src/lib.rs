pub mod amount;
pub mod engine;
pub mod laws;
pub mod record;
pub mod state;
pub mod transitions;
