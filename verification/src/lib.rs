//! Converge core: governed proposals, promotion gates, stop reasons and run integrity.

pub mod ids;
pub mod text;
pub mod invariants;
pub mod stop;
pub mod context;
pub mod integrity;
pub mod authorization;
pub mod traits;
pub mod time;
pub mod types;
pub mod validation;
pub mod promotion;
pub mod engine;
pub mod root_intent;
pub mod admission;
pub mod hitl;
pub mod agent;
pub mod agents;
pub mod truth;
pub mod eval;
pub mod formation;
pub mod profile;
pub mod experience_store;
pub mod prompt;
pub mod recall;
pub mod snapshot;
pub mod error;
pub mod laws;
