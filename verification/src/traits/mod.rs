//! Capability boundary errors shared by validators, promoters, stores and recall.

pub mod error;
pub mod llm;
pub mod promoter;
pub mod recall;
pub mod store;
pub mod validator;
