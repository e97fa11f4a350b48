use vstd::prelude::*;
use vstd::string::*;

use crate::context::{ContextState, ConvergeError};
use crate::invariants::invariant_class_name;
use crate::stop::{ErrorCategory, StopReason};
use crate::text::{concat2, owned};

verus! {

/// The message an engine error displays.
pub open spec fn converge_error_text(e: ConvergeError) -> Seq<char> {
    match e {
        ConvergeError::BudgetExhausted { kind } => "budget exhausted: "@ + kind@,
        ConvergeError::InvariantViolation { name, class, reason, .. } => invariant_class_name(class)
            + " invariant '"@ + name@ + "' violated: "@ + reason@,
        ConvergeError::AgentFailed { agent_id } => "agent failed: "@ + agent_id@,
        ConvergeError::EmptyProvenance { suggestor } => "suggestor '"@ + suggestor@
            + "' emitted proposals with empty provenance — override Suggestor::provenance() to return your crate's canonical ProvenanceSource string"@,
        ConvergeError::InvalidResume { reason } => "invalid gate resume: "@ + reason@,
        ConvergeError::InvalidAdmission { reason } => "invalid admission: "@ + reason@,
        ConvergeError::InvalidSnapshot { reason } => "invalid context snapshot: "@ + reason@,
        ConvergeError::Conflict { id, existing, new, .. } => "conflict detected for fact '"@ + id@
            + "': existing content '"@ + existing@ + "' vs new content '"@ + new@ + "'"@,
    }
}

/// The stop reason an engine error maps to.
pub open spec fn error_stop_reason(e: ConvergeError, r: StopReason) -> bool {
    match e {
        ConvergeError::BudgetExhausted { kind } => r matches StopReason::Error { message, category }
            && message@ == "budget exhausted: "@ + kind@ && category == ErrorCategory::Resource,
        ConvergeError::InvariantViolation { name, class, reason, .. } => r matches StopReason::InvariantViolated {
            class: c,
            name: n,
            reason: w,
        } && c == class && n@ == name@ && w@ == reason@,
        ConvergeError::AgentFailed { agent_id } => r matches StopReason::AgentRefused { agent_id: a, reason: w }
            && a@ == agent_id@ && w@ == "agent execution failed"@,
        ConvergeError::EmptyProvenance { suggestor } => r matches StopReason::AgentRefused {
            agent_id: a,
            reason: w,
        } && a@ == suggestor@ && w@ == "suggestor emitted proposals with empty provenance"@,
        ConvergeError::InvalidResume { reason } => r matches StopReason::Error { message, category }
            && message@ == "invalid gate resume: "@ + reason@ && category == ErrorCategory::Internal,
        ConvergeError::InvalidAdmission { reason } => r matches StopReason::Error { message, category }
            && message@ == "invalid admission: "@ + reason@ && category == ErrorCategory::Configuration,
        ConvergeError::InvalidSnapshot { reason } => r matches StopReason::Error { message, category }
            && message@ == "invalid context snapshot: "@ + reason@ && category == ErrorCategory::Configuration,
        ConvergeError::Conflict { id, existing, new, .. } => r matches StopReason::Error { message, category }
            && message@ == "conflict for fact '"@ + id@ + "': existing '"@ + existing@ + "' vs new '"@ + new@
            + "'"@ && category == ErrorCategory::Internal,
    }
}

impl ConvergeError {
    /// The context carried by invariant violations and conflicts.
    pub fn context(&self) -> (r: Option<&ContextState>)
        ensures
            match *self {
                ConvergeError::InvariantViolation { context, .. } => r == Some(&*context),
                ConvergeError::Conflict { context, .. } => r == Some(&*context),
                _ => r is None,
            },
    {
        match self {
            ConvergeError::InvariantViolation { context, .. } => Some(&**context),
            ConvergeError::Conflict { context, .. } => Some(&**context),
            _ => None,
        }
    }

    /// The stop reason this error maps to.
    pub fn stop_reason(&self) -> (r: StopReason)
        ensures
            error_stop_reason(*self, r),
    {
        match self {
            ConvergeError::BudgetExhausted { kind } => StopReason::Error {
                message: concat2("budget exhausted: ", kind.as_str()),
                category: ErrorCategory::Resource,
            },
            ConvergeError::InvariantViolation { name, class, reason, .. } => StopReason::invariant_violated(
                *class,
                name.as_str(),
                reason.as_str(),
            ),
            ConvergeError::AgentFailed { agent_id } => StopReason::AgentRefused {
                agent_id: agent_id.clone(),
                reason: owned("agent execution failed"),
            },
            ConvergeError::EmptyProvenance { suggestor } => StopReason::AgentRefused {
                agent_id: suggestor.clone(),
                reason: owned("suggestor emitted proposals with empty provenance"),
            },
            ConvergeError::InvalidResume { reason } => StopReason::Error {
                message: concat2("invalid gate resume: ", reason.as_str()),
                category: ErrorCategory::Internal,
            },
            ConvergeError::InvalidAdmission { reason } => StopReason::Error {
                message: concat2("invalid admission: ", reason.as_str()),
                category: ErrorCategory::Configuration,
            },
            ConvergeError::InvalidSnapshot { reason } => StopReason::Error {
                message: concat2("invalid context snapshot: ", reason.as_str()),
                category: ErrorCategory::Configuration,
            },
            ConvergeError::Conflict { id, existing, new, .. } => {
                let mut message = owned("conflict for fact '");
                message.append(id.as_str());
                message.append("': existing '");
                message.append(existing.as_str());
                message.append("' vs new '");
                message.append(new.as_str());
                message.append("'");
                StopReason::Error { message, category: ErrorCategory::Internal }
            },
        }
    }

    /// The message its display form shows.
    pub fn to_text(&self) -> (r: String)
        ensures
            r@ == converge_error_text(*self),
    {
        match self {
            ConvergeError::BudgetExhausted { kind } => concat2("budget exhausted: ", kind.as_str()),
            ConvergeError::InvariantViolation { name, class, reason, .. } => {
                let mut s = owned(class.name());
                s.append(" invariant '");
                s.append(name.as_str());
                s.append("' violated: ");
                s.append(reason.as_str());
                s
            },
            ConvergeError::AgentFailed { agent_id } => concat2("agent failed: ", agent_id.as_str()),
            ConvergeError::EmptyProvenance { suggestor } => {
                let mut s = owned("suggestor '");
                s.append(suggestor.as_str());
                s.append(
                    "' emitted proposals with empty provenance — override Suggestor::provenance() to return your crate's canonical ProvenanceSource string",
                );
                s
            },
            ConvergeError::InvalidResume { reason } => concat2("invalid gate resume: ", reason.as_str()),
            ConvergeError::InvalidAdmission { reason } => concat2("invalid admission: ", reason.as_str()),
            ConvergeError::InvalidSnapshot { reason } => concat2("invalid context snapshot: ", reason.as_str()),
            ConvergeError::Conflict { id, existing, new, .. } => {
                let mut s = owned("conflict detected for fact '");
                s.append(id.as_str());
                s.append("': existing content '");
                s.append(existing.as_str());
                s.append("' vs new content '");
                s.append(new.as_str());
                s.append("'");
                s
            },
        }
    }
}

} // verus!
