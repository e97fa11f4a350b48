use std::time::Duration;
use vstd::prelude::*;

use crate::ids::{GateId, ProposalId};
use crate::text::{owned, texts};
use crate::recall::UnitInterval;
use crate::types::{Draft, Proposal, ProposedContentKind};
use crate::time::{iso8601_text, Timestamp};

verus! {

/// The duration of a whole number of seconds, as `Duration::from_secs` builds it.
pub uninterp spec fn seconds_duration(secs: u64) -> Duration;

/// Trusted: `Duration::from_secs`. Claims only that the duration is the named
/// value of the given number of seconds.
#[verifier::external_body]
fn duration_from_secs(secs: u64) -> (r: Duration)
    ensures
        r == seconds_duration(secs),
{
    Duration::from_secs(secs)
}

/// What happens when a human does not respond in time.
#[derive(Debug, Clone, Copy, PartialEq, Eq, Structural)]
pub enum TimeoutAction {
    /// Reject the proposal (safe default).
    Reject,
    /// Approve the proposal.
    Approve,
    /// Escalate to another approver.
    Escalate,
}

/// Timeout behaviour of a gate.
#[derive(Debug, Clone, Copy, PartialEq, Eq, Structural)]
pub struct TimeoutPolicy {
    /// How long to wait for a human decision, in seconds.
    pub timeout_secs: u64,
    /// What to do when the time is up.
    pub action: TimeoutAction,
}

impl TimeoutPolicy {
    /// The timeout as a duration.
    pub fn duration(&self) -> (r: Duration)
        ensures
            r == seconds_duration(self.timeout_secs),
    {
        duration_from_secs(self.timeout_secs)
    }
}

impl Default for TimeoutPolicy {
    /// Thirty minutes, then reject.
    fn default() -> (r: Self)
        ensures
            r.timeout_secs == 1800,
            r.action == TimeoutAction::Reject,
    {
        TimeoutPolicy { timeout_secs: 1800, action: TimeoutAction::Reject }
    }
}

/// Whether a proposal needs a human decision under a policy: its kind is gated, or a
/// confidence threshold is set and the proposal states no confidence or one below it, or
/// its suggestor is gated.
pub open spec fn hitl_required(
    policy: HitlPolicy,
    kind: ProposedContentKind,
    confidence: Option<nat>,
    agent_id: Seq<char>,
) -> bool {
    ||| policy.gated_kinds@.contains(kind)
    ||| (policy.confidence_threshold matches Some(t) && (confidence matches Some(c) ==> c < t.bp()))
    ||| texts(policy.gated_agent_ids@).contains(agent_id)
}

/// When proposals need a human decision. A proposal is gated when any condition matches.
#[derive(Debug, Clone)]
pub struct HitlPolicy {
    /// Content kinds that are gated; empty gates no kind.
    pub gated_kinds: Vec<ProposedContentKind>,
    /// Proposals below this confidence, or without one, are gated; `None` gates none.
    pub confidence_threshold: Option<UnitInterval>,
    /// Suggestors whose proposals are always gated.
    pub gated_agent_ids: Vec<String>,
    /// What happens when the human does not respond.
    pub timeout: TimeoutPolicy,
}

impl HitlPolicy {
    /// The strictest policy: the threshold is the full score, so every proposal below
    /// certainty, or without a confidence, is gated.
    pub fn gate_all() -> (r: Self)
        ensures
            r.gated_kinds@.len() == 0,
            r.confidence_threshold matches Some(t) && t.bp() == 10000,
            r.gated_agent_ids@.len() == 0,
            r.timeout.timeout_secs == 1800,
            r.timeout.action == TimeoutAction::Reject,
    {
        HitlPolicy {
            gated_kinds: Vec::new(),
            confidence_threshold: Some(UnitInterval::one()),
            gated_agent_ids: Vec::new(),
            timeout: TimeoutPolicy::default(),
        }
    }

    /// A policy that gates the given content kinds.
    pub fn for_kinds(kinds: Vec<ProposedContentKind>) -> (r: Self)
        ensures
            r.gated_kinds@ == kinds@,
            r.confidence_threshold is None,
            r.gated_agent_ids@.len() == 0,
            r.timeout.timeout_secs == 1800,
            r.timeout.action == TimeoutAction::Reject,
    {
        HitlPolicy {
            gated_kinds: kinds,
            confidence_threshold: None,
            gated_agent_ids: Vec::new(),
            timeout: TimeoutPolicy::default(),
        }
    }

    /// Whether a draft proposal from the given suggestor needs a human decision.
    #[verifier::loop_isolation(false)]
    pub fn requires_approval(&self, proposal: &Proposal<Draft>, agent_id: &str) -> (r: bool)
        ensures
            r == hitl_required(*self, proposal.kind_spec(), proposal.confidence_spec(), agent_id@),
    {
        let content = proposal.content();
        let mut i: usize = 0;
        while i < self.gated_kinds.len()
            invariant
                i <= self.gated_kinds@.len(),
                forall|k: int| 0 <= k < i ==> self.gated_kinds@[k] != content.kind,
            decreases self.gated_kinds.len() - i,
        {
            if self.gated_kinds[i] == content.kind {
                assert(self.gated_kinds@[i as int] == proposal.kind_spec());
                return true;
            }
            i = i + 1;
        }
        match self.confidence_threshold {
            Some(t) => match content.confidence {
                Some(c) => {
                    if c.to_basis_points() < t.to_basis_points() {
                        return true;
                    }
                },
                None => {
                    return true;
                },
            },
            None => {},
        }
        let wanted = owned(agent_id);
        let mut j: usize = 0;
        while j < self.gated_agent_ids.len()
            invariant
                j <= self.gated_agent_ids@.len(),
                wanted@ == agent_id@,
                forall|k: int| 0 <= k < j ==> self.gated_agent_ids@[k]@ != agent_id@,
            decreases self.gated_agent_ids.len() - j,
        {
            if self.gated_agent_ids[j] == wanted {
                assert(texts(self.gated_agent_ids@)[j as int] == agent_id@);
                return true;
            }
            j = j + 1;
        }
        proof {
            if texts(self.gated_agent_ids@).contains(agent_id@) {
                let k = choose|k: int| 0 <= k < texts(self.gated_agent_ids@).len() && texts(self.gated_agent_ids@)[k] == agent_id@;
                assert(self.gated_agent_ids@[k]@ == agent_id@);
            }
        }
        false
    }

    /// The same policy with another timeout.
    pub fn with_timeout(self, timeout: TimeoutPolicy) -> (r: Self)
        ensures
            r.gated_kinds == self.gated_kinds,
            r.confidence_threshold == self.confidence_threshold,
            r.gated_agent_ids == self.gated_agent_ids,
            r.timeout == timeout,
    {
        HitlPolicy { timeout, ..self }
    }
}

/// A labelled piece of context shown to the human approver.
#[derive(Debug, Clone)]
pub struct ContextItem {
    /// Short label.
    pub label: String,
    /// Displayed value.
    pub value: String,
}

impl ContextItem {
    /// Creates a context item.
    pub fn new(label: &str, value: &str) -> (r: Self)
        ensures
            r.label@ == label@,
            r.value@ == value@,
    {
        ContextItem { label: owned(label), value: owned(value) }
    }
}

/// The payload emitted when the engine pauses for human approval.
#[derive(Debug, Clone)]
pub struct GateRequest {
    /// Gate identifier.
    pub gate_id: GateId,
    /// The proposal awaiting approval.
    pub proposal_id: ProposalId,
    /// What the proposal says.
    pub summary: String,
    /// The suggestor that produced it.
    pub agent_id: String,
    /// Why the suggestor proposed it.
    pub rationale: Option<String>,
    /// Extra context for the approver.
    pub context_data: Vec<ContextItem>,
    /// Cycle at which the engine paused.
    pub cycle: u32,
    /// When the request was made.
    pub requested_at: Timestamp,
    /// Timeout behaviour.
    pub timeout: TimeoutPolicy,
}

impl GateRequest {
    /// Attaches a rationale.
    pub fn with_rationale(self, rationale: &str) -> (r: Self)
        ensures
            r.rationale matches Some(t) && t@ == rationale@,
            r.gate_id == self.gate_id,
            r.proposal_id == self.proposal_id,
            r.summary == self.summary,
            r.agent_id == self.agent_id,
            r.context_data == self.context_data,
            r.cycle == self.cycle,
            r.requested_at == self.requested_at,
            r.timeout == self.timeout,
    {
        GateRequest { rationale: Some(owned(rationale)), ..self }
    }

    /// Replaces the context items.
    pub fn with_context(self, items: Vec<ContextItem>) -> (r: Self)
        ensures
            r == (GateRequest { context_data: items, ..self }),
    {
        GateRequest { context_data: items, ..self }
    }
}

/// The human's verdict.
#[derive(Debug, Clone)]
pub enum GateVerdict {
    /// The proposal may be promoted.
    Approve,
    /// The proposal is discarded.
    Reject { reason: Option<String> },
}

/// A human decision on a gate.
#[derive(Debug, Clone)]
pub struct GateDecision {
    /// Which gate was decided.
    pub gate_id: GateId,
    /// The verdict.
    pub verdict: GateVerdict,
    /// Who decided.
    pub decided_by: String,
    /// When the decision was made.
    pub decided_at: Timestamp,
}

impl GateDecision {
    /// An approval, stamped with the current time.
    pub fn approve(gate_id: GateId, decided_by: &str) -> (r: Self)
        ensures
            r.gate_id == gate_id,
            r.verdict is Approve,
            r.decided_by@ == decided_by@,
            exists|secs: nat| r.decided_at@ == iso8601_text(secs),
    {
        GateDecision {
            gate_id,
            verdict: GateVerdict::Approve,
            decided_by: owned(decided_by),
            decided_at: Timestamp::now(),
        }
    }

    /// A rejection with an optional reason, stamped with the current time.
    pub fn reject(gate_id: GateId, decided_by: &str, reason: Option<String>) -> (r: Self)
        ensures
            r.gate_id == gate_id,
            r.verdict == (GateVerdict::Reject { reason }),
            r.decided_by@ == decided_by@,
            exists|secs: nat| r.decided_at@ == iso8601_text(secs),
    {
        GateDecision {
            gate_id,
            verdict: GateVerdict::Reject { reason },
            decided_by: owned(decided_by),
            decided_at: Timestamp::now(),
        }
    }

    /// Whether the verdict is an approval.
    pub fn is_approved(&self) -> (r: bool)
        ensures
            r == (self.verdict is Approve),
    {
        match self.verdict {
            GateVerdict::Approve => true,
            GateVerdict::Reject { .. } => false,
        }
    }
}

/// What happened at a gate.
#[derive(Debug, Clone)]
pub enum GateEventKind {
    /// Approval was requested.
    Requested { proposal_id: ProposalId, agent_id: String },
    /// A human approved.
    Approved { decided_by: String },
    /// A human rejected.
    Rejected { decided_by: String, reason: Option<String> },
    /// Nobody answered in time.
    TimedOut { action_taken: TimeoutAction },
}

/// An audit-trail entry for a gate.
#[derive(Debug, Clone)]
pub struct GateEvent {
    /// Which gate it concerns.
    pub gate_id: GateId,
    /// What happened.
    pub kind: GateEventKind,
    /// When it happened.
    pub timestamp: Timestamp,
}

fn copy_opt_text(o: &Option<String>) -> (r: Option<String>)
    ensures
        match (r, *o) {
            (Some(a), Some(b)) => a@ == b@,
            (None, None) => true,
            _ => false,
        },
{
    match o {
        Some(t) => Some(t.clone()),
        None => None,
    }
}

impl GateEvent {
    /// The event of an approval request, stamped with the current time.
    pub fn requested(gate_id: GateId, proposal_id: ProposalId, agent_id: String) -> (r: Self)
        ensures
            r.gate_id == gate_id,
            r.kind == (GateEventKind::Requested { proposal_id, agent_id }),
            exists|secs: nat| r.timestamp@ == iso8601_text(secs),
    {
        GateEvent {
            gate_id,
            kind: GateEventKind::Requested { proposal_id, agent_id },
            timestamp: Timestamp::now(),
        }
    }

    /// The event recording a decision: approved or rejected, by whom and when.
    pub fn from_decision(decision: &GateDecision) -> (r: Self)
        ensures
            r.gate_id@ == decision.gate_id@,
            r.timestamp@ == decision.decided_at@,
            match (decision.verdict, r.kind) {
                (GateVerdict::Approve, GateEventKind::Approved { decided_by }) => decided_by@
                    == decision.decided_by@,
                (
                    GateVerdict::Reject { reason },
                    GateEventKind::Rejected { decided_by, reason: r2 },
                ) => decided_by@ == decision.decided_by@ && match (reason, r2) {
                    (Some(a), Some(b)) => a@ == b@,
                    (None, None) => true,
                    _ => false,
                },
                _ => false,
            },
    {
        let kind = match &decision.verdict {
            GateVerdict::Approve => GateEventKind::Approved { decided_by: decision.decided_by.clone() },
            GateVerdict::Reject { reason } => GateEventKind::Rejected {
                decided_by: decision.decided_by.clone(),
                reason: copy_opt_text(reason),
            },
        };
        GateEvent { gate_id: decision.gate_id.duplicate(), kind, timestamp: decision.decided_at.duplicate() }
    }

    /// The event of a timeout, stamped with the current time.
    pub fn timed_out(gate_id: GateId, action_taken: TimeoutAction) -> (r: Self)
        ensures
            r.gate_id == gate_id,
            r.kind == (GateEventKind::TimedOut { action_taken }),
            exists|secs: nat| r.timestamp@ == iso8601_text(secs),
    {
        GateEvent { gate_id, kind: GateEventKind::TimedOut { action_taken }, timestamp: Timestamp::now() }
    }
}

} // verus!
