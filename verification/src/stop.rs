use vstd::prelude::*;
use vstd::string::*;

use crate::ids::{ApprovalPointId, CriterionId, GateId, ProposalId};
use crate::invariants::{invariant_class_name, InvariantClass};
use crate::text::{decimal, decimal_string, join, owned, push_decimal, push_joined, texts};

verus! {

/// Category of error for programmatic handling.
#[derive(Debug, Clone, Copy, PartialEq, Eq, Hash, Structural)]
pub enum ErrorCategory {
    /// Internal error in the engine.
    Internal,
    /// Configuration error.
    Configuration,
    /// External service error (LLM, database, etc.).
    External,
    /// Resource error (memory, disk, etc.).
    Resource,
    /// Unknown or uncategorized error.
    Unknown,
}

/// The variant name of an error category.
pub open spec fn error_category_name(c: ErrorCategory) -> Seq<char> {
    match c {
        ErrorCategory::Internal => seq!['I', 'n', 't', 'e', 'r', 'n', 'a', 'l'],
        ErrorCategory::Configuration => seq!['C', 'o', 'n', 'f', 'i', 'g', 'u', 'r', 'a', 't', 'i', 'o', 'n'],
        ErrorCategory::External => seq!['E', 'x', 't', 'e', 'r', 'n', 'a', 'l'],
        ErrorCategory::Resource => seq!['R', 'e', 's', 'o', 'u', 'r', 'c', 'e'],
        ErrorCategory::Unknown => seq!['U', 'n', 'k', 'n', 'o', 'w', 'n'],
    }
}

impl ErrorCategory {
    /// The default category is `Unknown`.
    pub fn default_category() -> (r: Self)
        ensures
            r == ErrorCategory::Unknown,
    {
        ErrorCategory::Unknown
    }

    /// The variant name, as the debug form prints it.
    pub fn name(&self) -> (r: &'static str)
        ensures
            r@ == error_category_name(*self),
    {
        match self {
            ErrorCategory::Internal => {
                let s = "Internal";
                proof { reveal_strlit("Internal"); }
                s
            },
            ErrorCategory::Configuration => {
                let s = "Configuration";
                proof { reveal_strlit("Configuration"); }
                s
            },
            ErrorCategory::External => {
                let s = "External";
                proof { reveal_strlit("External"); }
                s
            },
            ErrorCategory::Resource => {
                let s = "Resource";
                proof { reveal_strlit("Resource"); }
                s
            },
            ErrorCategory::Unknown => {
                let s = "Unknown";
                proof { reveal_strlit("Unknown"); }
                s
            },
        }
    }
}

impl Default for ErrorCategory {
    fn default() -> (r: Self)
        ensures
            r == ErrorCategory::Unknown,
    {
        ErrorCategory::Unknown
    }
}


/// Why execution stopped. Exhaustive enumeration for audit trails.
#[derive(Debug, Clone, PartialEq, Eq)]
pub enum StopReason {
    /// Convergence reached - context stabilized (fixed point).
    Converged,
    /// Intent criteria satisfied before convergence.
    CriteriaMet {
        /// Which criteria were satisfied.
        criteria: Vec<CriterionId>,
    },
    /// User requested stop via cancellation.
    UserCancelled,
    /// Suggestors converged, but completion is blocked on human intervention.
    HumanInterventionRequired {
        /// Which required criteria are blocked.
        criteria: Vec<CriterionId>,
        /// Approval/workflow references surfaced by the evaluator.
        approval_refs: Vec<ApprovalPointId>,
    },
    /// Maximum execution cycles exceeded.
    CycleBudgetExhausted {
        /// How many cycles were executed.
        cycles_executed: u32,
        /// What the limit was.
        limit: u32,
    },
    /// Maximum facts in context exceeded.
    FactBudgetExhausted {
        /// How many facts were in context.
        facts_count: u32,
        /// What the limit was.
        limit: u32,
    },
    /// Maximum LLM tokens exceeded.
    TokenBudgetExhausted {
        /// How many tokens were consumed.
        tokens_consumed: u64,
        /// What the limit was.
        limit: u64,
    },
    /// Maximum wall-clock time exceeded.
    TimeBudgetExhausted {
        /// How long execution ran (milliseconds).
        duration_ms: u64,
        /// What the limit was (milliseconds).
        limit_ms: u64,
    },
    /// An invariant was violated.
    InvariantViolated {
        /// Which class of invariant.
        class: InvariantClass,
        /// Name of the invariant.
        name: String,
        /// Description of the violation.
        reason: String,
    },
    /// Promotion gate rejected a proposal.
    PromotionRejected {
        /// ID of the rejected proposal.
        proposal_id: ProposalId,
        /// Why it was rejected.
        reason: String,
    },
    /// Unrecoverable error during execution.
    Error {
        /// Error message.
        message: String,
        /// Error category for programmatic handling.
        category: ErrorCategory,
    },
    /// A suggestor refused to continue.
    AgentRefused {
        /// ID of the refusing suggestor.
        agent_id: String,
        /// Why it refused.
        reason: String,
    },
    /// Convergence paused at a human-in-the-loop gate.
    HitlGatePending {
        /// Unique ID for this gate (used to resume).
        gate_id: GateId,
        /// ID of the proposal awaiting approval.
        proposal_id: ProposalId,
        /// Human-readable summary of the proposal.
        summary: String,
        /// Which suggestor made the proposal.
        agent_id: String,
        /// Cycle at which convergence was paused.
        cycle: u32,
    },
}

/// The human-readable rendering of a stop reason.
pub open spec fn stop_reason_text(r: StopReason) -> Seq<char> {
    match r {
        StopReason::Converged => "Converged"@,
        StopReason::CriteriaMet { criteria } => "Criteria met: "@ + join(texts(criteria@), ", "@),
        StopReason::UserCancelled => "User cancelled"@,
        StopReason::HumanInterventionRequired { criteria, approval_refs } => if approval_refs@.len()
            == 0 {
            "Human intervention required for: "@ + join(texts(criteria@), ", "@)
        } else {
            "Human intervention required for: "@ + join(texts(criteria@), ", "@) + " (refs: "@
                + join(texts(approval_refs@), ", "@) + ")"@
        },
        StopReason::CycleBudgetExhausted { cycles_executed, limit } => "Cycle budget exhausted: "@
            + decimal(cycles_executed as nat) + "/"@ + decimal(limit as nat),
        StopReason::FactBudgetExhausted { facts_count, limit } => "Fact budget exhausted: "@
            + decimal(facts_count as nat) + "/"@ + decimal(limit as nat),
        StopReason::TokenBudgetExhausted { tokens_consumed, limit } => "Token budget exhausted: "@
            + decimal(tokens_consumed as nat) + "/"@ + decimal(limit as nat),
        StopReason::TimeBudgetExhausted { duration_ms, limit_ms } => "Time budget exhausted: "@
            + decimal(duration_ms as nat) + "ms/"@ + decimal(limit_ms as nat) + "ms"@,
        StopReason::InvariantViolated { class, name, reason } => invariant_class_name(class)
            + " invariant '"@ + name@ + "' violated: "@ + reason@,
        StopReason::PromotionRejected { proposal_id, reason } => "Promotion rejected for '"@
            + proposal_id@ + "': "@ + reason@,
        StopReason::Error { message, category } => "Error ("@ + error_category_name(category)
            + "): "@ + message@,
        StopReason::AgentRefused { agent_id, reason } => "Suggestor '"@ + agent_id@
            + "' refused: "@ + reason@,
        StopReason::HitlGatePending { gate_id, agent_id, cycle, .. } => "HITL gate pending: "@
            + gate_id@ + " (agent: "@ + agent_id@ + ", cycle: "@ + decimal(cycle as nat) + ")"@,
    }
}

/// A successful termination: converged, criteria met, or cancelled by the user.
pub open spec fn success_stop(r: StopReason) -> bool {
    r is Converged || r is CriteriaMet || r is UserCancelled
}

/// A budget exhaustion: cycles, facts, tokens or time.
pub open spec fn budget_stop(r: StopReason) -> bool {
    r is CycleBudgetExhausted || r is FactBudgetExhausted || r is TokenBudgetExhausted
        || r is TimeBudgetExhausted
}

/// A validation failure: a violated invariant or a rejected promotion.
pub open spec fn validation_stop(r: StopReason) -> bool {
    r is InvariantViolated || r is PromotionRejected
}

/// An error: an engine error or a refusing suggestor.
pub open spec fn error_stop(r: StopReason) -> bool {
    r is Error || r is AgentRefused
}

impl StopReason {
    /// Create a Converged stop reason.
    pub fn converged() -> (r: Self)
        ensures
            r is Converged,
    {
        StopReason::Converged
    }

    /// Create a CriteriaMet stop reason.
    pub fn criteria_met(criteria: Vec<CriterionId>) -> (r: Self)
        ensures
            r == (StopReason::CriteriaMet { criteria }),
    {
        StopReason::CriteriaMet { criteria }
    }

    /// Create a UserCancelled stop reason.
    pub fn user_cancelled() -> (r: Self)
        ensures
            r is UserCancelled,
    {
        StopReason::UserCancelled
    }

    /// Create a HumanInterventionRequired stop reason.
    pub fn human_intervention_required(
        criteria: Vec<CriterionId>,
        approval_refs: Vec<ApprovalPointId>,
    ) -> (r: Self)
        ensures
            r == (StopReason::HumanInterventionRequired { criteria, approval_refs }),
    {
        StopReason::HumanInterventionRequired { criteria, approval_refs }
    }

    /// Create a CycleBudgetExhausted stop reason.
    pub fn cycle_budget_exhausted(cycles_executed: u32, limit: u32) -> (r: Self)
        ensures
            r == (StopReason::CycleBudgetExhausted { cycles_executed, limit }),
    {
        StopReason::CycleBudgetExhausted { cycles_executed, limit }
    }

    /// Create a FactBudgetExhausted stop reason.
    pub fn fact_budget_exhausted(facts_count: u32, limit: u32) -> (r: Self)
        ensures
            r == (StopReason::FactBudgetExhausted { facts_count, limit }),
    {
        StopReason::FactBudgetExhausted { facts_count, limit }
    }

    /// Create a TokenBudgetExhausted stop reason.
    pub fn token_budget_exhausted(tokens_consumed: u64, limit: u64) -> (r: Self)
        ensures
            r == (StopReason::TokenBudgetExhausted { tokens_consumed, limit }),
    {
        StopReason::TokenBudgetExhausted { tokens_consumed, limit }
    }

    /// Create a TimeBudgetExhausted stop reason.
    pub fn time_budget_exhausted(duration_ms: u64, limit_ms: u64) -> (r: Self)
        ensures
            r == (StopReason::TimeBudgetExhausted { duration_ms, limit_ms }),
    {
        StopReason::TimeBudgetExhausted { duration_ms, limit_ms }
    }

    /// Create an InvariantViolated stop reason.
    pub fn invariant_violated(class: InvariantClass, name: &str, reason: &str) -> (r: Self)
        ensures
            r matches StopReason::InvariantViolated { class: c, name: n, reason: why } && c == class
                && n@ == name@ && why@ == reason@,
    {
        StopReason::InvariantViolated { class, name: owned(name), reason: owned(reason) }
    }

    /// Create a PromotionRejected stop reason.
    pub fn promotion_rejected(proposal_id: &str, reason: &str) -> (r: Self)
        ensures
            r matches StopReason::PromotionRejected { proposal_id: p, reason: why } && p@
                == proposal_id@ && why@ == reason@,
    {
        StopReason::PromotionRejected { proposal_id: ProposalId::new(proposal_id), reason: owned(reason) }
    }

    /// Create an Error stop reason.
    pub fn error(message: &str, category: ErrorCategory) -> (r: Self)
        ensures
            r matches StopReason::Error { message: m, category: c } && m@ == message@ && c
                == category,
    {
        StopReason::Error { message: owned(message), category }
    }

    /// Create an AgentRefused stop reason.
    pub fn agent_refused(agent_id: &str, reason: &str) -> (r: Self)
        ensures
            r matches StopReason::AgentRefused { agent_id: a, reason: why } && a@ == agent_id@
                && why@ == reason@,
    {
        StopReason::AgentRefused { agent_id: owned(agent_id), reason: owned(reason) }
    }

    /// Create a HitlGatePending stop reason.
    pub fn hitl_gate_pending(
        gate_id: &str,
        proposal_id: &str,
        summary: &str,
        agent_id: &str,
        cycle: u32,
    ) -> (r: Self)
        ensures
            r matches StopReason::HitlGatePending {
                gate_id: g,
                proposal_id: p,
                summary: s,
                agent_id: a,
                cycle: c,
            } && g@ == gate_id@ && p@ == proposal_id@ && s@ == summary@ && a@ == agent_id@ && c
                == cycle,
    {
        StopReason::HitlGatePending {
            gate_id: GateId::new(gate_id),
            proposal_id: ProposalId::new(proposal_id),
            summary: owned(summary),
            agent_id: owned(agent_id),
            cycle,
        }
    }

    /// Returns true if this is a successful termination.
    pub fn is_success(&self) -> (r: bool)
        ensures
            r == success_stop(*self),
    {
        match self {
            StopReason::Converged | StopReason::CriteriaMet { .. } | StopReason::UserCancelled => true,
            _ => false,
        }
    }

    /// Returns true if this is a budget exhaustion.
    pub fn is_budget_exhausted(&self) -> (r: bool)
        ensures
            r == budget_stop(*self),
    {
        match self {
            StopReason::CycleBudgetExhausted { .. }
            | StopReason::FactBudgetExhausted { .. }
            | StopReason::TokenBudgetExhausted { .. }
            | StopReason::TimeBudgetExhausted { .. } => true,
            _ => false,
        }
    }

    /// Returns true if this is a validation failure.
    pub fn is_validation_failure(&self) -> (r: bool)
        ensures
            r == validation_stop(*self),
    {
        match self {
            StopReason::InvariantViolated { .. } | StopReason::PromotionRejected { .. } => true,
            _ => false,
        }
    }

    /// Returns true if this is an error condition.
    pub fn is_error(&self) -> (r: bool)
        ensures
            r == error_stop(*self),
    {
        match self {
            StopReason::Error { .. } | StopReason::AgentRefused { .. } => true,
            _ => false,
        }
    }

    /// Returns true if convergence is paused at a HITL gate.
    pub fn is_hitl_pending(&self) -> (r: bool)
        ensures
            r == self is HitlGatePending,
    {
        match self {
            StopReason::HitlGatePending { .. } => true,
            _ => false,
        }
    }

    /// Returns true if completion is blocked on human intervention.
    pub fn is_human_intervention_required(&self) -> (r: bool)
        ensures
            r == self is HumanInterventionRequired,
    {
        match self {
            StopReason::HumanInterventionRequired { .. } => true,
            _ => false,
        }
    }

    /// Renders the stop reason for humans (the text its display form shows).
    pub fn to_text(&self) -> (r: String)
        ensures
            r@ == stop_reason_text(*self),
    {
        let mut s = String::new();
        match self {
            StopReason::Converged => {
                s.append("Converged");
            },
            StopReason::CriteriaMet { criteria } => {
                s.append("Criteria met: ");
                push_joined(&mut s, criteria, ", ");
            },
            StopReason::UserCancelled => {
                s.append("User cancelled");
            },
            StopReason::HumanInterventionRequired { criteria, approval_refs } => {
                s.append("Human intervention required for: ");
                push_joined(&mut s, criteria, ", ");
                if approval_refs.len() > 0 {
                    s.append(" (refs: ");
                    push_joined(&mut s, approval_refs, ", ");
                    s.append(")");
                }
            },
            StopReason::CycleBudgetExhausted { cycles_executed, limit } => {
                s.append("Cycle budget exhausted: ");
                push_decimal(&mut s, *cycles_executed as u64);
                s.append("/");
                push_decimal(&mut s, *limit as u64);
            },
            StopReason::FactBudgetExhausted { facts_count, limit } => {
                s.append("Fact budget exhausted: ");
                push_decimal(&mut s, *facts_count as u64);
                s.append("/");
                push_decimal(&mut s, *limit as u64);
            },
            StopReason::TokenBudgetExhausted { tokens_consumed, limit } => {
                s.append("Token budget exhausted: ");
                push_decimal(&mut s, *tokens_consumed);
                s.append("/");
                push_decimal(&mut s, *limit);
            },
            StopReason::TimeBudgetExhausted { duration_ms, limit_ms } => {
                s.append("Time budget exhausted: ");
                push_decimal(&mut s, *duration_ms);
                s.append("ms/");
                push_decimal(&mut s, *limit_ms);
                s.append("ms");
            },
            StopReason::InvariantViolated { class, name, reason } => {
                s.append(class.name());
                s.append(" invariant '");
                s.append(name.as_str());
                s.append("' violated: ");
                s.append(reason.as_str());
            },
            StopReason::PromotionRejected { proposal_id, reason } => {
                s.append("Promotion rejected for '");
                s.append(proposal_id.as_str());
                s.append("': ");
                s.append(reason.as_str());
            },
            StopReason::Error { message, category } => {
                s.append("Error (");
                s.append(category.name());
                s.append("): ");
                s.append(message.as_str());
            },
            StopReason::AgentRefused { agent_id, reason } => {
                s.append("Suggestor '");
                s.append(agent_id.as_str());
                s.append("' refused: ");
                s.append(reason.as_str());
            },
            StopReason::HitlGatePending { gate_id, agent_id, cycle, .. } => {
                s.append("HITL gate pending: ");
                s.append(gate_id.as_str());
                s.append(" (agent: ");
                s.append(agent_id.as_str());
                s.append(", cycle: ");
                push_decimal(&mut s, *cycle as u64);
                s.append(")");
            },
        }
        s
    }
}

} // verus!
