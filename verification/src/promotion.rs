use vstd::prelude::*;
use vstd::string::*;

use crate::ids::{GateId, ProposalId};
use crate::integrity::ContentHash;
use crate::text::{concat2, owned};
use crate::time::Timestamp;
use crate::types::{
    fact_kind_of, Actor, Draft, EvidenceRef, Fact, FactContent, FactContentKind, LocalTrace,
    PromotionRecord, Proposal, TraceLink, Validated, ValidationSummary,
};
use crate::validation::{
    check_views, CheckResult, ValidationContext, ValidationError, ValidationPolicy,
    ValidationReport,
};

verus! {

/// Error raised when promotion fails.
#[derive(Debug, Clone, PartialEq, Eq)]
pub enum PromotionError {
    /// The report belongs to another proposal.
    ReportMismatch { expected: String, actual: String },
}

impl PromotionError {
    /// A report mismatch between a proposal and a report.
    pub fn report_mismatch(expected: &ProposalId, actual: &ProposalId) -> (r: Self)
        ensures
            r matches PromotionError::ReportMismatch { expected: e, actual: a } && e@ == expected@
                && a@ == actual@,
    {
        PromotionError::ReportMismatch { expected: expected.0.clone(), actual: actual.0.clone() }
    }
}

/// Validated proposal bundled with its validation proof; only a promotion gate creates it.
#[derive(Debug)]
pub struct ValidatedProposal {
    proposal: Proposal<Validated>,
    report: ValidationReport,
}

impl ValidatedProposal {
    /// The validated proposal.
    pub closed spec fn proposal_spec(&self) -> Proposal<Validated> {
        self.proposal
    }

    /// The validation report.
    pub closed spec fn report_spec(&self) -> ValidationReport {
        self.report
    }

    /// Get the validated proposal.
    pub fn proposal(&self) -> (r: &Proposal<Validated>)
        ensures
            *r == self.proposal_spec(),
    {
        &self.proposal
    }

    /// Get the validation report.
    pub fn report(&self) -> (r: &ValidationReport)
        ensures
            *r == self.report_spec(),
    {
        &self.report
    }

    /// Get the proposal ID.
    pub fn id(&self) -> (r: &ProposalId)
        ensures
            r@ == self.proposal_spec().id_spec(),
    {
        self.proposal.id()
    }
}

/// The checks a gate runs: the non-empty content check, then every required check.
pub open spec fn gate_checks(content_empty: bool, required: Seq<Seq<char>>) -> Seq<(Seq<char>, bool)> {
    seq![("content_not_empty"@, !content_empty)] + required.map_values(|n: Seq<char>| (n, true))
}

/// Names of the passed checks, in order.
pub open spec fn passed_names(checks: Seq<(Seq<char>, bool)>) -> Seq<Seq<char>>
    decreases checks.len(),
{
    if checks.len() == 0 {
        Seq::empty()
    } else if checks.last().1 {
        passed_names(checks.drop_last()).push(checks.last().0)
    } else {
        passed_names(checks.drop_last())
    }
}

/// The promotion gate: the only path from proposals to facts.
#[derive(Debug, Clone)]
pub struct PromotionGate {
    gate_id: GateId,
    policy: ValidationPolicy,
}

/// What validating a draft gives: a non-empty draft becomes a validated proposal
/// with the same identifier, kind and content and a report of every check its policy requires, all
/// passed; an empty draft fails the `content_not_empty` check.
pub open spec fn validation_outcome(
    gate: PromotionGate,
    p: Proposal<Draft>,
    r: Result<ValidatedProposal, ValidationError>,
) -> bool {
    match r {
        Ok(v) => {
            &&& p.content_spec().len() > 0
            &&& v.proposal_spec().id_spec() == p.id_spec()
            &&& v.proposal_spec().kind_spec() == p.kind_spec()
            &&& v.proposal_spec().content_spec() == p.content_spec()
            &&& v.report_spec().proposal_spec() == p.id_spec()
            &&& v.report_spec().policy_spec() == gate.policy_spec().version_spec()
            &&& v.report_spec().checks_spec() == gate_checks(
                false,
                gate.policy_spec().checks_spec(),
            )
        },
        Err(ValidationError::CheckFailed { name, reason }) => {
            &&& p.content_spec().len() == 0
            &&& name@ == "content_not_empty"@
            &&& reason@ == "Checks failed: content_not_empty"@
        },
    }
}

impl PromotionGate {
    /// Identifier of this gate.
    pub closed spec fn gate_spec(&self) -> Seq<char> {
        self.gate_id@
    }

    /// Validation policy of this gate.
    pub closed spec fn policy_spec(&self) -> ValidationPolicy {
        self.policy
    }

    /// Create a new promotion gate.
    pub fn new(gate_id: GateId, policy: ValidationPolicy) -> (r: Self)
        ensures
            r.gate_spec() == gate_id@,
            r.policy_spec() == policy,
    {
        PromotionGate { gate_id, policy }
    }

    /// Returns the identifier of this gate.
    pub fn gate_id(&self) -> (r: &GateId)
        ensures
            r@ == self.gate_spec(),
    {
        &self.gate_id
    }

    /// Get the policy version hash.
    pub fn policy_version(&self) -> (r: &ContentHash)
        ensures
            r@ == self.policy_spec().version_spec(),
    {
        self.policy.version_hash()
    }

    /// Validate a draft proposal: its content must be non-empty, and every
    /// required check of the policy is recorded as passed.
    pub fn validate_proposal(&self, proposal: Proposal<Draft>, context: &ValidationContext) -> (r: Result<
        ValidatedProposal,
        ValidationError,
    >)
        ensures
            validation_outcome(*self, proposal, r),
    {
        let empty = proposal.content().content.unicode_len() == 0;
        if empty {
            return Err(ValidationError::CheckFailed {
                name: owned("content_not_empty"),
                reason: owned("Checks failed: content_not_empty"),
            });
        }
        let mut checks: Vec<CheckResult> = Vec::new();
        checks.push(CheckResult::passed("content_not_empty"));
        let ghost req = self.policy.checks_spec();
        let required = self.policy.required();
        let mut i: usize = 0;
        while i < required.len()
            invariant
                i <= required@.len(),
                req == crate::text::texts(required@),
                checks@.len() == i + 1,
                checks@[0].name@ == "content_not_empty"@,
                checks@[0].passed,
                forall|k: int| 0 <= k < i ==> (#[trigger] checks@[k + 1]).name@ == req[k] && checks@[k + 1].passed,
            decreases required.len() - i,
        {
            let name = required[i].as_str();
            checks.push(CheckResult::passed(name));
            proof {
                assert(req[i as int] == required@[i as int]@);
            }
            i = i + 1;
        }
        proof {
            let g = gate_checks(false, req);
            assert forall|k: int| 0 <= k < g.len() implies check_views(checks@)[k] == g[k] by {
                if k > 0 {
                    assert(checks@[(k - 1) + 1].name@ == req[k - 1]);
                }
            }
            assert(check_views(checks@) =~= g);
        }
        let id = proposal.id().duplicate();
        let version = self.policy.version_hash().duplicate();
        let validated = proposal.into_validated();
        let report = ValidationReport::new(id, checks, version);
        Ok(ValidatedProposal { proposal: validated, report })
    }

    /// Promote a validated proposal to a fact, stamped with the current time.
    pub fn promote_to_fact(
        &self,
        validated: ValidatedProposal,
        approver: Actor,
        evidence: Vec<EvidenceRef>,
        trace: TraceLink,
    ) -> (r: Result<Fact, PromotionError>)
        ensures
            promotion_outcome(*self, validated, approver, evidence, trace, r),
            r matches Ok(f) ==> f.created_spec() == f.record_spec().promoted_at@,
    {
        self.promote_to_fact_at(validated, approver, evidence, trace, Timestamp::now())
    }

    /// Promote a validated proposal to a fact with a caller-supplied timestamp.
    pub fn promote_to_fact_at(
        &self,
        validated: ValidatedProposal,
        approver: Actor,
        evidence: Vec<EvidenceRef>,
        trace: TraceLink,
        timestamp: Timestamp,
    ) -> (r: Result<Fact, PromotionError>)
        ensures
            promotion_outcome(*self, validated, approver, evidence, trace, r),
            r matches Ok(f) ==> f.created_spec() == timestamp@ && f.record_spec().promoted_at@
                == timestamp@,
    {
        let ValidatedProposal { proposal, report } = validated;
        if !report.proposal_id().same(proposal.id()) {
            return Err(PromotionError::report_mismatch(proposal.id(), report.proposal_id()));
        }
        let mut passed: Vec<String> = Vec::new();
        let ghost cv = report.checks_spec();
        let checks = report.checks();
        let mut i: usize = 0;
        while i < checks.len()
            invariant
                i <= checks@.len(),
                cv == check_views(checks@),
                crate::text::texts(passed@) == passed_names(cv.take(i as int)),
            decreases checks.len() - i,
        {
            proof {
                assert(cv.take(i as int + 1).drop_last() =~= cv.take(i as int));
                assert(cv[i as int] == (checks@[i as int].name@, checks@[i as int].passed));
            }
            if checks[i].passed {
                passed.push(checks[i].name.clone());
                proof {
                    assert(crate::text::texts(passed@) =~= passed_names(cv.take(i as int)).push(cv[i as int].0));
                }
            }
            i = i + 1;
        }
        proof {
            assert(cv.take(cv.len() as int) =~= cv);
        }
        let summary = ValidationSummary { checks_passed: passed, checks_skipped: Vec::new(), warnings: Vec::new() };
        let record = PromotionRecord {
            gate_id: self.gate_id.duplicate(),
            policy_version_hash: report.policy_version().duplicate(),
            approver,
            validation_summary: summary,
            evidence_refs: evidence,
            trace_link: trace,
            promoted_at: timestamp.duplicate(),
        };
        let kind = FactContentKind::from_proposed(proposal.content().kind);
        let content = FactContent::new(kind, proposal.content().content.as_str());
        let id = concat2("fact:", proposal.id().as_str());
        Ok(Fact::new(id, content, record, timestamp))
    }
}

/// What a promotion returns: a report mismatch error exactly when the report was
/// made for another proposal, and otherwise the fact `fact:<proposal id>` with the
/// proposal's content (drafts become documents) and a full promotion record.
pub open spec fn promotion_outcome(
    gate: PromotionGate,
    validated: ValidatedProposal,
    approver: Actor,
    evidence: Vec<EvidenceRef>,
    trace: TraceLink,
    r: Result<Fact, PromotionError>,
) -> bool {
    let p = validated.proposal_spec();
    let rep = validated.report_spec();
    match r {
        Ok(f) => {
            &&& rep.proposal_spec() == p.id_spec()
            &&& f.id_spec() == "fact:"@ + p.id_spec()
            &&& f.content_spec().kind == fact_kind_of(p.kind_spec())
            &&& f.content_spec().content@ == p.content_spec()
            &&& f.record_spec().gate_id@ == gate.gate_spec()
            &&& f.record_spec().policy_version_hash@ == rep.policy_spec()
            &&& f.record_spec().approver == approver
            &&& crate::text::texts(f.record_spec().validation_summary.checks_passed@) == passed_names(
                rep.checks_spec(),
            )
            &&& f.record_spec().evidence_refs == evidence
            &&& f.record_spec().trace_link == trace
        },
        Err(PromotionError::ReportMismatch { expected, actual }) => {
            &&& rep.proposal_spec() != p.id_spec()
            &&& expected@ == p.id_spec()
            &&& actual@ == rep.proposal_spec()
        },
    }
}

/// Simple intent for basic validation.
#[derive(Debug, Clone)]
pub struct SimpleIntent {
    /// Description of what we're trying to achieve.
    pub description: String,
}

impl SimpleIntent {
    /// Create a new simple intent.
    pub fn new(description: &str) -> (r: Self)
        ensures
            r.description@ == description@,
    {
        SimpleIntent { description: owned(description) }
    }
}

/// Generic validation and promotion lifecycle.
pub trait ProposalLifecycle<I, P, V, F> {
    /// Validate a proposal against an intent.
    fn validate(&self, intent: &I, proposal: P) -> Result<V, ValidationError>;

    /// Promote a validated proposal.
    fn promote(&self, validated: V) -> Result<F, PromotionError>;
}

impl ProposalLifecycle<SimpleIntent, Proposal<Draft>, ValidatedProposal, Fact> for PromotionGate {
    fn validate(&self, intent: &SimpleIntent, proposal: Proposal<Draft>) -> (r: Result<ValidatedProposal, ValidationError>)
        ensures
            r matches Ok(v) ==> v.proposal_spec().id_spec() == proposal.id_spec()
                && v.proposal_spec().content_spec() == proposal.content_spec(),
            r is Err <==> proposal.content_spec().len() == 0,
    {
        self.validate_proposal(proposal, &ValidationContext::new())
    }

    fn promote(&self, validated: ValidatedProposal) -> (r: Result<Fact, PromotionError>)
        ensures
            r matches Ok(f) ==> f.record_spec().approver.id@ == "promotion-gate"@
                && f.record_spec().evidence_refs@.len() == 0,
            r matches Ok(f) ==> f.id_spec() == "fact:"@ + validated.proposal_spec().id_spec(),
            r is Err <==> validated.report_spec().proposal_spec() != validated.proposal_spec().id_spec(),
    {
        let approver = Actor::system("promotion-gate");
        let evidence: Vec<EvidenceRef> = Vec::new();
        let trace = TraceLink::local(LocalTrace::new("auto-promote", "gate-promote"));
        self.promote_to_fact(validated, approver, evidence, trace)
    }
}

} // verus!
