use vstd::prelude::*;
use vstd::string::*;

use crate::text::{concat2, owned};

verus! {

/// Action being attempted against a converging flow.
#[derive(Debug, Clone, Copy, PartialEq, Eq, Structural)]
pub enum FlowAction {
    Propose,
    Validate,
    Promote,
    Commit,
    AdvancePhase,
}

impl FlowAction {
    /// The snake-case name of the action.
    pub fn as_str(self) -> (r: &'static str)
        ensures
            r@ == (match self {
                FlowAction::Propose => "propose"@,
                FlowAction::Validate => "validate"@,
                FlowAction::Promote => "promote"@,
                FlowAction::Commit => "commit"@,
                FlowAction::AdvancePhase => "advance_phase"@,
            }),
    {
        match self {
            FlowAction::Propose => "propose",
            FlowAction::Validate => "validate",
            FlowAction::Promote => "promote",
            FlowAction::Commit => "commit",
            FlowAction::AdvancePhase => "advance_phase",
        }
    }
}

/// Authority level granted to a flow-gate principal.
#[derive(Debug, Clone, Copy, PartialEq, Eq, Structural)]
pub enum AuthorityLevel {
    Advisory,
    Supervisory,
    Participatory,
    Sovereign,
}

impl AuthorityLevel {
    /// The snake-case name of the level.
    pub fn as_str(self) -> (r: &'static str)
        ensures
            r@ == (match self {
                AuthorityLevel::Advisory => "advisory"@,
                AuthorityLevel::Supervisory => "supervisory"@,
                AuthorityLevel::Participatory => "participatory"@,
                AuthorityLevel::Sovereign => "sovereign"@,
            }),
    {
        match self {
            AuthorityLevel::Advisory => "advisory",
            AuthorityLevel::Supervisory => "supervisory",
            AuthorityLevel::Participatory => "participatory",
            AuthorityLevel::Sovereign => "sovereign",
        }
    }
}

/// Current phase of a converging flow.
#[derive(Debug, Clone, Copy, PartialEq, Eq, Structural)]
pub enum FlowPhase {
    Intent,
    Framing,
    Exploration,
    Tension,
    Convergence,
    Commitment,
}

impl FlowPhase {
    /// The snake-case name of the phase.
    pub fn as_str(self) -> (r: &'static str)
        ensures
            r@ == (match self {
                FlowPhase::Intent => "intent"@,
                FlowPhase::Framing => "framing"@,
                FlowPhase::Exploration => "exploration"@,
                FlowPhase::Tension => "tension"@,
                FlowPhase::Convergence => "convergence"@,
                FlowPhase::Commitment => "commitment"@,
            }),
    {
        match self {
            FlowPhase::Intent => "intent",
            FlowPhase::Framing => "framing",
            FlowPhase::Exploration => "exploration",
            FlowPhase::Tension => "tension",
            FlowPhase::Convergence => "convergence",
            FlowPhase::Commitment => "commitment",
        }
    }
}

/// Principal facts projected from the flow host or application runtime.
#[derive(Debug, Clone, PartialEq, Eq)]
pub struct FlowGatePrincipal {
    pub id: String,
    pub authority: AuthorityLevel,
    pub domains: Vec<String>,
    pub policy_version: Option<String>,
}

/// Resource facts projected from the current flow state.
#[derive(Debug, Clone, PartialEq, Eq)]
pub struct FlowGateResource {
    pub id: String,
    pub kind: String,
    pub phase: FlowPhase,
    pub gates_passed: Vec<String>,
}

/// Decision-relevant facts projected from the flow state.
#[derive(Debug, Clone, Default, PartialEq, Eq)]
pub struct FlowGateContext {
    pub commitment_type: Option<String>,
    pub amount: Option<i64>,
    pub human_approval_present: Option<bool>,
    pub required_gates_met: Option<bool>,
}

/// Canonical input to an authorization decision for a flow gate.
#[derive(Debug, Clone, PartialEq, Eq)]
pub struct FlowGateInput {
    pub principal: FlowGatePrincipal,
    pub resource: FlowGateResource,
    pub action: FlowAction,
    pub context: FlowGateContext,
}

/// Neutral outcome of a flow gate authorization decision.
#[derive(Debug, Clone, Copy, PartialEq, Eq, Structural)]
pub enum FlowGateOutcome {
    Promote,
    Reject,
    Escalate,
}

impl FlowGateOutcome {
    /// Only a promotion allows the action.
    pub fn is_allowed(self) -> (r: bool)
        ensures
            r == (self == FlowGateOutcome::Promote),
    {
        match self {
            FlowGateOutcome::Promote => true,
            _ => false,
        }
    }
}

/// Full gate decision with rationale and source attribution.
#[derive(Debug, Clone, PartialEq, Eq)]
pub struct FlowGateDecision {
    pub outcome: FlowGateOutcome,
    pub reason: Option<String>,
    pub source: Option<String>,
}

impl FlowGateDecision {
    /// A promoting decision.
    pub fn promote(reason: Option<String>, source: Option<String>) -> (r: Self)
        ensures
            r == (FlowGateDecision { outcome: FlowGateOutcome::Promote, reason, source }),
    {
        FlowGateDecision { outcome: FlowGateOutcome::Promote, reason, source }
    }

    /// A rejecting decision.
    pub fn reject(reason: Option<String>, source: Option<String>) -> (r: Self)
        ensures
            r == (FlowGateDecision { outcome: FlowGateOutcome::Reject, reason, source }),
    {
        FlowGateDecision { outcome: FlowGateOutcome::Reject, reason, source }
    }

    /// An escalating decision.
    pub fn escalate(reason: Option<String>, source: Option<String>) -> (r: Self)
        ensures
            r == (FlowGateDecision { outcome: FlowGateOutcome::Escalate, reason, source }),
    {
        FlowGateDecision { outcome: FlowGateOutcome::Escalate, reason, source }
    }
}

/// Pure error surface for flow gate authorization.
#[derive(Debug)]
pub enum FlowGateError {
    Authorizer(String),
    InvalidInput(String),
}

impl FlowGateError {
    /// The message its display form shows.
    pub fn to_text(&self) -> (r: String)
        ensures
            r@ == (match *self {
                FlowGateError::Authorizer(m) => "authorizer failed: "@ + m@,
                FlowGateError::InvalidInput(m) => "invalid flow gate input: "@ + m@,
            }),
    {
        match self {
            FlowGateError::Authorizer(m) => concat2("authorizer failed: ", m.as_str()),
            FlowGateError::InvalidInput(m) => concat2("invalid flow gate input: ", m.as_str()),
        }
    }
}

/// Deterministic decision provider for consequential flow actions.
pub trait FlowGateAuthorizer {
    /// Decide whether the attempted flow action should promote, reject, or escalate.
    fn decide(&self, input: &FlowGateInput) -> Result<FlowGateDecision, FlowGateError>;
}

/// Test double: always promote.
#[derive(Debug, Default, Clone, Copy)]
pub struct AllowAllFlowGateAuthorizer;

impl FlowGateAuthorizer for AllowAllFlowGateAuthorizer {
    fn decide(&self, input: &FlowGateInput) -> (r: Result<FlowGateDecision, FlowGateError>)
        ensures
            r matches Ok(d) && {
                &&& d.outcome == FlowGateOutcome::Promote
                &&& (d.reason matches Some(m) && m@ == "allow_all test authorizer"@)
                &&& (d.source matches Some(s) && s@ == "allow_all"@)
            },
    {
        Ok(FlowGateDecision::promote(
            Some(owned("allow_all test authorizer")),
            Some(owned("allow_all")),
        ))
    }
}

/// Test double: always reject.
#[derive(Debug, Default, Clone)]
pub struct RejectAllFlowGateAuthorizer {
    reason: Option<String>,
}

impl RejectAllFlowGateAuthorizer {
    /// A rejecting authorizer with a fixed reason.
    pub fn with_reason(reason: &str) -> (r: Self)
        ensures
            r.reason_spec() == Some(reason@),
    {
        RejectAllFlowGateAuthorizer { reason: Some(owned(reason)) }
    }

    /// The configured reason.
    pub closed spec fn reason_spec(&self) -> Option<Seq<char>> {
        match self.reason {
            Some(m) => Some(m@),
            None => None,
        }
    }
}

impl FlowGateAuthorizer for RejectAllFlowGateAuthorizer {
    fn decide(&self, input: &FlowGateInput) -> (r: Result<FlowGateDecision, FlowGateError>)
        ensures
            r matches Ok(d) && {
                &&& d.outcome == FlowGateOutcome::Reject
                &&& (d.reason matches Some(m) && m@ == (match self.reason_spec() {
                    Some(x) => x,
                    None => "reject_all test authorizer"@,
                }))
                &&& (d.source matches Some(s) && s@ == "reject_all"@)
            },
    {
        let reason = match &self.reason {
            Some(m) => m.clone(),
            None => owned("reject_all test authorizer"),
        };
        Ok(FlowGateDecision::reject(Some(reason), Some(owned("reject_all"))))
    }
}

} // verus!
