use vstd::prelude::*;

verus! {

/// The role a suggestor plays in a formation.
#[derive(Debug, Clone, Copy, PartialEq, Eq, Hash, Structural)]
pub enum SuggestorRole {
    /// Analyses signals and facts.
    Analysis,
    /// Plans strategies.
    Planning,
    /// Evaluates strategies.
    Evaluation,
    /// Enforces constraints.
    Constraint,
    /// Emits signals.
    Signal,
    /// Synthesises results.
    Synthesis,
    /// Reasons about other suggestors.
    Meta,
}

/// A capability a suggestor relies on.
#[derive(Debug, Clone, Copy, PartialEq, Eq, Hash, Structural)]
pub enum SuggestorCapability {
    /// Reasoning with a language model.
    LlmReasoning,
    /// Retrieving knowledge.
    KnowledgeRetrieval,
    /// Analytics.
    Analytics,
    /// Optimisation.
    Optimization,
    /// Enforcing policies.
    PolicyEnforcement,
    /// Asking a human.
    HumanInTheLoop,
    /// Learning from experience.
    ExperienceLearning,
}

} // verus!
