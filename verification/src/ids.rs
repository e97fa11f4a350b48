use std::collections::hash_map::RandomState;
use std::hash::BuildHasher;
use vstd::prelude::*;
use vstd::string::*;

use crate::text::{decimal, push_decimal};

verus! {

/// Trusted: `RandomState::new`. A fresh per-process random hashing state;
/// nothing is claimed of it.
#[verifier::external_body]
fn fresh_random_state() -> (r: RandomState) {
    RandomState::new()
}

/// Trusted: `BuildHasher::hash_one` on a `RandomState`. The value depends on
/// the state's random keys, so nothing is claimed of it.
#[verifier::external_body]
fn random_hash(state: &RandomState, value: u64) -> (r: u64) {
    state.hash_one(value)
}

/// Identifier of a promoted fact.
pub type FactId = String;

/// Identifier of a success criterion.
pub type CriterionId = String;

/// Identifier of an approval point surfaced by a criterion evaluator.
pub type ApprovalPointId = String;

/// Identifier of a semantic truth definition.
pub type TruthId = String;

/// Identifier of an actor.
pub type ActorId = String;

/// Identifier of a stored experience event.
pub type EventId = String;

/// Identifier of a tenant.
pub type TenantId = String;

/// Identifier correlating events of one run.
pub type CorrelationId = String;

/// Identifier of a decision chain.
pub type ChainId = String;

/// Identifier of a governed artifact.
pub type ArtifactId = String;

/// Name of an intent constraint.
pub type ConstraintName = String;

/// Value of an intent constraint.
pub type ConstraintValue = String;

/// Identifier of a proposal.
#[derive(Debug, Clone, PartialEq, Eq, Hash)]
pub struct ProposalId(pub String);

/// Identifier of a gate.
#[derive(Debug, Clone, PartialEq, Eq, Hash)]
pub struct GateId(pub String);

/// Identifier of a root intent.
#[derive(Debug, Clone, PartialEq, Eq, Hash)]
pub struct IntentId(pub String);

/// Identifier of a raw provider observation.
#[derive(Debug, Clone, PartialEq, Eq, Hash)]
pub struct ObservationId(pub String);

impl View for ProposalId {
    type V = Seq<char>;

    open spec fn view(&self) -> Seq<char> {
        self.0@
    }
}

impl View for GateId {
    type V = Seq<char>;

    open spec fn view(&self) -> Seq<char> {
        self.0@
    }
}

impl View for IntentId {
    type V = Seq<char>;

    open spec fn view(&self) -> Seq<char> {
        self.0@
    }
}

impl View for ObservationId {
    type V = Seq<char>;

    open spec fn view(&self) -> Seq<char> {
        self.0@
    }
}

impl ProposalId {
    /// Creates a proposal identifier.
    pub fn new(id: &str) -> (r: Self)
        ensures
            r@ == id@,
    {
        ProposalId(id.to_owned())
    }

    /// Borrows the identifier text.
    pub fn as_str(&self) -> (r: &str)
        ensures
            r@ == self@,
    {
        self.0.as_str()
    }

    /// Copies the identifier.
    pub fn duplicate(&self) -> (r: Self)
        ensures
            r@ == self@,
    {
        ProposalId(self.0.clone())
    }

    /// Compares two identifiers by their text.
    pub fn same(&self, other: &Self) -> (r: bool)
        ensures
            r == (self@ == other@),
    {
        self.0 == other.0
    }
}

impl GateId {
    /// Creates a gate identifier.
    pub fn new(id: &str) -> (r: Self)
        ensures
            r@ == id@,
    {
        GateId(id.to_owned())
    }

    /// Borrows the identifier text.
    pub fn as_str(&self) -> (r: &str)
        ensures
            r@ == self@,
    {
        self.0.as_str()
    }

    /// Copies the identifier.
    pub fn duplicate(&self) -> (r: Self)
        ensures
            r@ == self@,
    {
        GateId(self.0.clone())
    }
}

impl IntentId {
    /// Generates a fresh identifier of the form `intent-<number>` from a random source.
    pub fn generate() -> (r: Self)
        ensures
            exists|n: u64| r@ == "intent-"@ + decimal(n as nat),
    {
        let state = fresh_random_state();
        let n = random_hash(&state, 0);
        let mut s = String::new();
        s.append("intent-");
        push_decimal(&mut s, n);
        IntentId(s)
    }

    /// Creates an intent identifier.
    pub fn new(id: &str) -> (r: Self)
        ensures
            r@ == id@,
    {
        IntentId(id.to_owned())
    }

    /// Borrows the identifier text.
    pub fn as_str(&self) -> (r: &str)
        ensures
            r@ == self@,
    {
        self.0.as_str()
    }

    /// Copies the identifier.
    pub fn duplicate(&self) -> (r: Self)
        ensures
            r@ == self@,
    {
        IntentId(self.0.clone())
    }
}

impl ObservationId {
    /// Creates an observation identifier.
    pub fn new(id: &str) -> (r: Self)
        ensures
            r@ == id@,
    {
        ObservationId(id.to_owned())
    }

    /// Borrows the identifier text.
    pub fn as_str(&self) -> (r: &str)
        ensures
            r@ == self@,
    {
        self.0.as_str()
    }
}

} // verus!
