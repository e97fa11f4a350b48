use std::marker::PhantomData;
use vstd::prelude::*;
use vstd::string::*;

use crate::ids::{GateId, ObservationId, ProposalId};
use crate::integrity::ContentHash;
use crate::text::owned;
use crate::time::Timestamp;

verus! {

/// Who acted: a human, a suggestor or a system component.
#[derive(Debug, Clone, Copy, PartialEq, Eq, Structural)]
pub enum ActorKind {
    Human,
    Suggestor,
    System,
}

/// An identified actor.
#[derive(Debug, Clone, PartialEq, Eq)]
pub struct Actor {
    pub id: String,
    pub kind: ActorKind,
}

impl Actor {
    /// A human actor.
    pub fn human(id: &str) -> (r: Self)
        ensures
            r.id@ == id@,
            r.kind == ActorKind::Human,
    {
        Actor { id: owned(id), kind: ActorKind::Human }
    }

    /// A system actor.
    pub fn system(id: &str) -> (r: Self)
        ensures
            r.id@ == id@,
            r.kind == ActorKind::System,
    {
        Actor { id: owned(id), kind: ActorKind::System }
    }

    /// A suggestor actor.
    pub fn suggestor(id: &str) -> (r: Self)
        ensures
            r.id@ == id@,
            r.kind == ActorKind::Suggestor,
    {
        Actor { id: owned(id), kind: ActorKind::Suggestor }
    }
}

/// Evidence supporting a promotion.
#[derive(Debug, Clone, PartialEq, Eq)]
pub enum EvidenceRef {
    /// A raw provider observation.
    Observation(ObservationId),
    /// A recorded human approval.
    HumanApproval(String),
    /// A derived artifact.
    Derived(String),
}

impl EvidenceRef {
    /// Evidence from an observation.
    pub fn observation(id: ObservationId) -> (r: Self)
        ensures
            r == EvidenceRef::Observation(id),
    {
        EvidenceRef::Observation(id)
    }

    /// Evidence from a human approval.
    pub fn human_approval(id: String) -> (r: Self)
        ensures
            r == EvidenceRef::HumanApproval(id),
    {
        EvidenceRef::HumanApproval(id)
    }

    /// Evidence from a derived artifact.
    pub fn derived(id: String) -> (r: Self)
        ensures
            r == EvidenceRef::Derived(id),
    {
        EvidenceRef::Derived(id)
    }
}

/// A local (replayable) trace reference.
#[derive(Debug, Clone, PartialEq, Eq)]
pub struct LocalTrace {
    pub trace_id: String,
    pub span_id: String,
    pub parent_span_id: Option<String>,
    pub sampled: bool,
}

impl LocalTrace {
    /// A sampled local trace without parent span.
    pub fn new(trace_id: &str, span_id: &str) -> (r: Self)
        ensures
            r.trace_id@ == trace_id@,
            r.span_id@ == span_id@,
            r.parent_span_id is None,
            r.sampled,
    {
        LocalTrace { trace_id: owned(trace_id), span_id: owned(span_id), parent_span_id: None, sampled: true }
    }
}

/// A reference into a remote (audit-only) system.
#[derive(Debug, Clone, PartialEq, Eq)]
pub struct RemoteRef {
    pub system: String,
    pub reference: String,
    pub retrieval_auth: Option<String>,
    pub retention_hint: Option<String>,
}

/// Link to the trace that produced a promoted fact.
#[derive(Debug, Clone, PartialEq, Eq)]
pub enum TraceLink {
    /// Replay-eligible local trace.
    Local(LocalTrace),
    /// Audit-only remote reference.
    Remote(RemoteRef),
}

impl TraceLink {
    /// A local trace link.
    pub fn local(trace: LocalTrace) -> (r: Self)
        ensures
            r == TraceLink::Local(trace),
    {
        TraceLink::Local(trace)
    }

    /// A remote trace link.
    pub fn remote(reference: RemoteRef) -> (r: Self)
        ensures
            r == TraceLink::Remote(reference),
    {
        TraceLink::Remote(reference)
    }

    /// Only local traces can be replayed.
    pub fn is_replay_eligible(&self) -> (r: bool)
        ensures
            r == self is Local,
    {
        match self {
            TraceLink::Local(_) => true,
            TraceLink::Remote(_) => false,
        }
    }
}

/// Kind of proposed content.
#[derive(Debug, Clone, Copy, PartialEq, Eq, Structural)]
pub enum ProposedContentKind {
    Claim,
    Plan,
    Evaluation,
    Classification,
    Draft,
    Reasoning,
}

/// Kind of promoted fact content.
#[derive(Debug, Clone, Copy, PartialEq, Eq, Structural)]
pub enum FactContentKind {
    Claim,
    Plan,
    Evaluation,
    Classification,
    Document,
    Reasoning,
}

/// Fact kind that a proposed kind becomes on promotion (a draft becomes a document).
pub open spec fn fact_kind_of(k: ProposedContentKind) -> FactContentKind {
    match k {
        ProposedContentKind::Claim => FactContentKind::Claim,
        ProposedContentKind::Plan => FactContentKind::Plan,
        ProposedContentKind::Evaluation => FactContentKind::Evaluation,
        ProposedContentKind::Classification => FactContentKind::Classification,
        ProposedContentKind::Draft => FactContentKind::Document,
        ProposedContentKind::Reasoning => FactContentKind::Reasoning,
    }
}

impl FactContentKind {
    /// Converts a proposed content kind into the promoted fact kind.
    pub fn from_proposed(k: ProposedContentKind) -> (r: Self)
        ensures
            r == fact_kind_of(k),
    {
        match k {
            ProposedContentKind::Claim => FactContentKind::Claim,
            ProposedContentKind::Plan => FactContentKind::Plan,
            ProposedContentKind::Evaluation => FactContentKind::Evaluation,
            ProposedContentKind::Classification => FactContentKind::Classification,
            ProposedContentKind::Draft => FactContentKind::Document,
            ProposedContentKind::Reasoning => FactContentKind::Reasoning,
        }
    }
}

impl From<ProposedContentKind> for FactContentKind {
    fn from(k: ProposedContentKind) -> (r: Self) {
        FactContentKind::from_proposed(k)
    }
}

impl vstd::std_specs::convert::FromSpecImpl<ProposedContentKind> for FactContentKind {
    open spec fn obeys_from_spec() -> bool {
        true
    }

    open spec fn from_spec(k: ProposedContentKind) -> Self {
        fact_kind_of(k)
    }
}

/// Content of a proposal.
#[derive(Debug, Clone, PartialEq, Eq)]
pub struct ProposedContent {
    pub kind: ProposedContentKind,
    pub content: String,
    /// How confident the proposer is, when it says.
    pub confidence: Option<crate::recall::UnitInterval>,
}

impl ProposedContent {
    /// Proposed content of the given kind, without a confidence.
    pub fn new(kind: ProposedContentKind, content: &str) -> (r: Self)
        ensures
            r.kind == kind,
            r.content@ == content@,
            r.confidence is None,
    {
        ProposedContent { kind, content: owned(content), confidence: None }
    }

    /// The same content with the given confidence.
    pub fn with_confidence(self, confidence: crate::recall::UnitInterval) -> (r: Self)
        ensures
            r.kind == self.kind,
            r.content == self.content,
            r.confidence == Some(confidence),
    {
        ProposedContent { confidence: Some(confidence), ..self }
    }
}

/// How an observation was captured.
#[derive(Debug, Clone, Default, PartialEq, Eq)]
pub struct CaptureContext {
    pub source: Option<String>,
}

/// Provenance of a proposal: the observation it came from.
#[derive(Debug, Clone, PartialEq, Eq)]
pub struct ObservationProvenance {
    pub observation_id: ObservationId,
    pub content_hash: ContentHash,
    pub capture: CaptureContext,
}

impl ObservationProvenance {
    /// Provenance from an observation.
    pub fn new(observation_id: ObservationId, content_hash: ContentHash, capture: CaptureContext) -> (r: Self)
        ensures
            r == (ObservationProvenance { observation_id, content_hash, capture }),
    {
        ObservationProvenance { observation_id, content_hash, capture }
    }
}

/// Type-state marker: a proposal not yet validated.
#[derive(Debug, Clone, Copy, PartialEq, Eq)]
pub struct Draft;

/// Type-state marker: a proposal validated by a promotion gate.
#[derive(Debug, Clone, Copy, PartialEq, Eq)]
pub struct Validated;

/// A proposal in a lifecycle state (`Draft` or `Validated`).
#[derive(Debug)]
pub struct Proposal<S> {
    id: ProposalId,
    content: ProposedContent,
    provenance: ObservationProvenance,
    state: PhantomData<S>,
}

impl<S> Proposal<S> {
    /// Identifier of the proposal.
    pub closed spec fn id_spec(&self) -> Seq<char> {
        self.id@
    }

    /// Kind of the proposal content.
    pub closed spec fn kind_spec(&self) -> ProposedContentKind {
        self.content.kind
    }

    /// Text of the proposal content.
    pub closed spec fn content_spec(&self) -> Seq<char> {
        self.content.content@
    }

    /// Confidence of the proposal content, in basis points, when given.
    pub closed spec fn confidence_spec(&self) -> Option<nat> {
        match self.content.confidence {
            Some(c) => Some(c.bp()),
            None => None,
        }
    }

    /// Provenance of the proposal.
    pub closed spec fn provenance_spec(&self) -> ObservationProvenance {
        self.provenance
    }

    /// The proposal identifier.
    pub fn id(&self) -> (r: &ProposalId)
        ensures
            r@ == self.id_spec(),
    {
        &self.id
    }

    /// The proposal content.
    pub fn content(&self) -> (r: &ProposedContent)
        ensures
            r.kind == self.kind_spec(),
            r.content@ == self.content_spec(),
            r.confidence is Some <==> self.confidence_spec() is Some,
            r.confidence matches Some(c) ==> self.confidence_spec() == Some(c.bp()),
    {
        &self.content
    }

    /// The proposal provenance.
    pub fn provenance(&self) -> (r: &ObservationProvenance)
        ensures
            *r == self.provenance_spec(),
    {
        &self.provenance
    }
}

impl Proposal<Draft> {
    /// A draft proposal.
    pub fn new(id: ProposalId, content: ProposedContent, provenance: ObservationProvenance) -> (r: Self)
        ensures
            r.id_spec() == id@,
            r.kind_spec() == content.kind,
            r.content_spec() == content.content@,
            r.provenance_spec() == provenance,
    {
        Proposal { id, content, provenance, state: PhantomData }
    }

    /// The same proposal in the validated state (only a promotion gate does this).
    pub(crate) fn into_validated(self) -> (r: Proposal<Validated>)
        ensures
            r.id_spec() == self.id_spec(),
            r.kind_spec() == self.kind_spec(),
            r.content_spec() == self.content_spec(),
            r.provenance_spec() == self.provenance_spec(),
    {
        Proposal { id: self.id, content: self.content, provenance: self.provenance, state: PhantomData }
    }
}

/// Summary of the checks behind a promotion.
#[derive(Debug, Clone, Default, PartialEq, Eq)]
pub struct ValidationSummary {
    pub checks_passed: Vec<String>,
    pub checks_skipped: Vec<String>,
    pub warnings: Vec<String>,
}

/// Full provenance recorded on every promoted fact.
#[derive(Debug, Clone, PartialEq, Eq)]
pub struct PromotionRecord {
    pub gate_id: GateId,
    pub policy_version_hash: ContentHash,
    pub approver: Actor,
    pub validation_summary: ValidationSummary,
    pub evidence_refs: Vec<EvidenceRef>,
    pub trace_link: TraceLink,
    pub promoted_at: Timestamp,
}

/// Content of a promoted fact.
#[derive(Debug, Clone, PartialEq, Eq)]
pub struct FactContent {
    pub kind: FactContentKind,
    pub content: String,
}

impl FactContent {
    /// Fact content of the given kind.
    pub fn new(kind: FactContentKind, content: &str) -> (r: Self)
        ensures
            r.kind == kind,
            r.content@ == content@,
    {
        FactContent { kind, content: owned(content) }
    }
}

/// A governed fact, created only by the promotion gate.
#[derive(Debug, Clone)]
pub struct Fact {
    id: String,
    content: FactContent,
    promotion_record: PromotionRecord,
    created_at: Timestamp,
}

impl Fact {
    /// Identifier of the fact.
    pub closed spec fn id_spec(&self) -> Seq<char> {
        self.id@
    }

    /// Content of the fact.
    pub closed spec fn content_spec(&self) -> FactContent {
        self.content
    }

    /// Promotion record of the fact.
    pub closed spec fn record_spec(&self) -> PromotionRecord {
        self.promotion_record
    }

    /// Creation time of the fact.
    pub closed spec fn created_spec(&self) -> Seq<char> {
        self.created_at@
    }

    pub(crate) fn new(id: String, content: FactContent, promotion_record: PromotionRecord, created_at: Timestamp) -> (r: Self)
        ensures
            r.id_spec() == id@,
            r.content_spec() == content,
            r.record_spec() == promotion_record,
            r.created_spec() == created_at@,
    {
        Fact { id, content, promotion_record, created_at }
    }

    /// The fact identifier.
    pub fn id(&self) -> (r: &str)
        ensures
            r@ == self.id_spec(),
    {
        self.id.as_str()
    }

    /// The fact content.
    pub fn content(&self) -> (r: &FactContent)
        ensures
            *r == self.content_spec(),
    {
        &self.content
    }

    /// The parts of the fact: identifier, content, promotion record and creation time.
    pub(crate) fn into_parts(self) -> (r: (String, FactContent, PromotionRecord, Timestamp))
        ensures
            r.0@ == self.id_spec(),
            r.1 == self.content_spec(),
            r.2 == self.record_spec(),
            r.3@ == self.created_spec(),
    {
        (self.id, self.content, self.promotion_record, self.created_at)
    }

    /// The promotion record of the fact.
    pub fn promotion_record(&self) -> (r: &PromotionRecord)
        ensures
            *r == self.record_spec(),
    {
        &self.promotion_record
    }

    /// Whether the fact can be replayed (its trace is local).
    pub fn is_replay_eligible(&self) -> (r: bool)
        ensures
            r == self.record_spec().trace_link is Local,
    {
        self.promotion_record.trace_link.is_replay_eligible()
    }
}

} // verus!
