use vstd::prelude::*;
use vstd::string::*;

use crate::context::{
    has_proposal_id, key_index, proposals_of, ContextKey, ContextState, ContextView, ConvergeError,
    ProposalView, ProposedFact, proposal_debug_text,
};
use crate::ids::{ActorId, ProposalId, TruthId};
use crate::integrity::{text_hash, ContentHash};
use crate::text::{blank, is_blank, owned};

verus! {

/// Error raised while constructing an admission request.
#[derive(Debug, Clone, Copy, PartialEq, Eq, Structural)]
pub enum AdmissionError {
    /// Actor identity must be present.
    EmptyActorId,
    /// Observation source must be present.
    EmptySource,
    /// Proposal/idempotency key must be present.
    EmptyAdmissionId,
    /// Observation content must contain substantive payload.
    EmptyContent,
}

impl AdmissionError {
    /// The message its display form shows.
    pub fn to_text(&self) -> (r: &'static str)
        ensures
            r@ == (match *self {
                AdmissionError::EmptyActorId => "admission actor id must not be empty"@,
                AdmissionError::EmptySource => "admission source must not be empty"@,
                AdmissionError::EmptyAdmissionId => "admission id must not be empty"@,
                AdmissionError::EmptyContent => "admission content must not be empty"@,
            }),
    {
        match self {
            AdmissionError::EmptyActorId => "admission actor id must not be empty",
            AdmissionError::EmptySource => "admission source must not be empty",
            AdmissionError::EmptyAdmissionId => "admission id must not be empty",
            AdmissionError::EmptyContent => "admission content must not be empty",
        }
    }
}

/// Actor class for an externally admitted observation.
#[derive(Debug, Clone, Copy, PartialEq, Eq, Structural)]
pub enum AdmissionActorKind {
    /// Human user.
    Human,
    /// Automated agent.
    Agent,
    /// System component.
    System,
    /// External service or integration.
    External,
}

/// The label of an actor kind used in provenance.
pub open spec fn actor_kind_label(k: AdmissionActorKind) -> Seq<char> {
    match k {
        AdmissionActorKind::Human => "human"@,
        AdmissionActorKind::Agent => "agent"@,
        AdmissionActorKind::System => "system"@,
        AdmissionActorKind::External => "external"@,
    }
}

impl AdmissionActorKind {
    fn as_str(self) -> (r: &'static str)
        ensures
            r@ == actor_kind_label(self),
    {
        match self {
            AdmissionActorKind::Human => "human",
            AdmissionActorKind::Agent => "agent",
            AdmissionActorKind::System => "system",
            AdmissionActorKind::External => "external",
        }
    }
}

/// Required actor metadata for an admission request; its identifier is never blank.
#[derive(Debug, Clone, PartialEq, Eq)]
pub struct AdmissionActor {
    id: ActorId,
    kind: AdmissionActorKind,
}

/// The mathematical value of an admission actor.
pub struct ActorView {
    pub id: Seq<char>,
    pub kind: AdmissionActorKind,
}

impl View for AdmissionActor {
    type V = ActorView;

    closed spec fn view(&self) -> ActorView {
        ActorView { id: self.id@, kind: self.kind }
    }
}

impl AdmissionActor {
    /// Creates a validated admission actor; a blank identifier is refused.
    pub fn new(id: &str, kind: AdmissionActorKind) -> (r: Result<Self, AdmissionError>)
        ensures
            blank(id@) <==> r is Err,
            r matches Err(e) ==> e == AdmissionError::EmptyActorId,
            r matches Ok(a) ==> a@ == (ActorView { id: id@, kind }),
    {
        if is_blank(id) {
            return Err(AdmissionError::EmptyActorId);
        }
        Ok(AdmissionActor { id: owned(id), kind })
    }

    /// Returns the actor identifier .
    pub fn id(&self) -> (r: &ActorId)
        ensures
            r@ == self@.id,
    {
        &self.id
    }

    /// Returns the actor kind.
    pub fn kind(&self) -> (r: AdmissionActorKind)
        ensures
            r == self@.kind,
    {
        self.kind
    }
}

/// Validated source label for admission provenance; never blank.
#[derive(Debug, Clone, PartialEq, Eq)]
pub struct AdmissionSource(String);

impl View for AdmissionSource {
    type V = Seq<char>;

    closed spec fn view(&self) -> Seq<char> {
        self.0@
    }
}

impl AdmissionSource {
    /// Creates a validated source label; a blank label is refused.
    pub fn new(value: &str) -> (r: Result<Self, AdmissionError>)
        ensures
            blank(value@) <==> r is Err,
            r matches Err(e) ==> e == AdmissionError::EmptySource,
            r matches Ok(s) ==> s@ == value@,
    {
        if is_blank(value) {
            return Err(AdmissionError::EmptySource);
        }
        Ok(AdmissionSource(owned(value)))
    }

    /// Borrows the source label .
    pub fn as_str(&self) -> (r: &str)
        ensures
            r@ == self@,
    {
        self.0.as_str()
    }
}

/// Validated observation payload for admission; never blank.
#[derive(Debug, Clone, PartialEq, Eq)]
pub struct AdmissionContent(String);

impl View for AdmissionContent {
    type V = Seq<char>;

    closed spec fn view(&self) -> Seq<char> {
        self.0@
    }
}

impl AdmissionContent {
    /// Creates a validated observation payload; a blank payload is refused.
    pub fn new(value: &str) -> (r: Result<Self, AdmissionError>)
        ensures
            blank(value@) <==> r is Err,
            r matches Err(e) ==> e == AdmissionError::EmptyContent,
            r matches Ok(c) ==> c@ == value@,
    {
        if is_blank(value) {
            return Err(AdmissionError::EmptyContent);
        }
        Ok(AdmissionContent(owned(value)))
    }

    /// Borrows the content payload .
    pub fn as_str(&self) -> (r: &str)
        ensures
            r@ == self@,
    {
        self.0.as_str()
    }
}

/// Request to admit an external observation into the truth pipeline.
#[derive(Debug, Clone, PartialEq, Eq)]
pub struct AdmissionRequest {
    actor: AdmissionActor,
    source: AdmissionSource,
    key: ContextKey,
    id: ProposalId,
    content: AdmissionContent,
    target_truth_id: Option<TruthId>,
}

/// The mathematical value of an admission request.
pub struct RequestView {
    pub actor: ActorView,
    pub source: Seq<char>,
    pub key: ContextKey,
    pub id: Seq<char>,
    pub content: Seq<char>,
    pub target_truth_id: Option<Seq<char>>,
}

/// The view of an optional text.
pub open spec fn opt_text(o: Option<String>) -> Option<Seq<char>> {
    match o {
        Some(t) => Some(t@),
        None => None,
    }
}

impl View for AdmissionRequest {
    type V = RequestView;

    closed spec fn view(&self) -> RequestView {
        RequestView {
            actor: self.actor@,
            source: self.source@,
            key: self.key,
            id: self.id@,
            content: self.content@,
            target_truth_id: opt_text(self.target_truth_id),
        }
    }
}

/// The provenance recorded for an admitted observation:
/// `admission:<kind>:<actor>:<source>`, followed by `:truth:<target>` when there is one.
pub open spec fn admission_provenance(r: RequestView) -> Seq<char> {
    let base = "admission:"@ + actor_kind_label(r.actor.kind) + ":"@ + r.actor.id + ":"@ + r.source;
    match r.target_truth_id {
        Some(t) => base + ":truth:"@ + t,
        None => base,
    }
}

/// The proposal an admission request stages.
pub open spec fn admission_proposal(r: RequestView) -> ProposalView {
    ProposalView { key: r.key, id: r.id, content: r.content, provenance: admission_provenance(r), confidence: 10000 }
}

impl AdmissionRequest {
    /// Creates a validated admission request; a blank identifier is refused.
    pub fn new(
        actor: AdmissionActor,
        source: AdmissionSource,
        key: ContextKey,
        id: &str,
        content: AdmissionContent,
    ) -> (r: Result<Self, AdmissionError>)
        ensures
            blank(id@) <==> r is Err,
            r matches Err(e) ==> e == AdmissionError::EmptyAdmissionId,
            r matches Ok(q) ==> q@ == (RequestView {
                actor: actor@,
                source: source@,
                key,
                id: id@,
                content: content@,
                target_truth_id: None,
            }),
    {
        if is_blank(id) {
            return Err(AdmissionError::EmptyAdmissionId);
        }
        Ok(AdmissionRequest {
            actor,
            source,
            key,
            id: ProposalId::new(id),
            content,
            target_truth_id: None,
        })
    }

    /// Attaches the semantic truth target this observation is intended to inform.
    pub fn with_target_truth(self, truth_id: &str) -> (r: Self)
        ensures
            r@ == (RequestView { target_truth_id: Some(truth_id@), ..self@ }),
    {
        AdmissionRequest { target_truth_id: Some(owned(truth_id)), ..self }
    }

    /// Returns the target context key.
    pub fn key(&self) -> (r: ContextKey)
        ensures
            r == self@.key,
    {
        self.key
    }

    /// Returns the admission/proposal identifier .
    pub fn id(&self) -> (r: &ProposalId)
        ensures
            r@ == self@.id,
    {
        &self.id
    }

    /// Returns the content payload.
    pub fn content(&self) -> (r: &AdmissionContent)
        ensures
            r@ == self@.content,
    {
        &self.content
    }

    /// Returns the actor.
    pub fn actor(&self) -> (r: &AdmissionActor)
        ensures
            r@ == self@.actor,
    {
        &self.actor
    }

    /// Returns the source label.
    pub fn source(&self) -> (r: &AdmissionSource)
        ensures
            r@ == self@.source,
    {
        &self.source
    }

    /// Returns the optional semantic target.
    pub fn target_truth_id(&self) -> (r: Option<&TruthId>)
        ensures
            match r {
                Some(t) => self@.target_truth_id == Some(t@),
                None => self@.target_truth_id is None,
            },
    {
        match &self.target_truth_id {
            Some(t) => Some(t),
            None => None,
        }
    }

    fn provenance(&self) -> (r: String)
        ensures
            r@ == admission_provenance(self@),
    {
        let mut s = String::new();
        s.append("admission:");
        s.append(self.actor.kind.as_str());
        s.append(":");
        s.append(self.actor.id.as_str());
        s.append(":");
        s.append(self.source.0.as_str());
        match &self.target_truth_id {
            Some(t) => {
                s.append(":truth:");
                s.append(t.as_str());
            },
            None => {},
        }
        s
    }

    /// The proposal this request stages: same key, identifier and content, with
    /// admission provenance.
    pub fn into_proposal(&self) -> (r: ProposedFact)
        ensures
            r@ == admission_proposal(self@),
    {
        let provenance = self.provenance();
        ProposedFact {
            key: self.key,
            id: self.id.duplicate(),
            content: self.content.0.clone(),
            provenance,
            confidence: crate::recall::UnitInterval::one(),
        }
    }
}

/// Receipt returned after staging an admitted observation.
#[derive(Debug, Clone, PartialEq, Eq)]
pub struct AdmissionReceipt {
    key: ContextKey,
    proposal_id: ProposalId,
    content_hash: ContentHash,
    target_truth_id: Option<TruthId>,
    staged: bool,
}

/// The mathematical value of a receipt.
pub struct ReceiptView {
    pub key: ContextKey,
    pub proposal_id: Seq<char>,
    pub content_hash: Seq<u8>,
    pub target_truth_id: Option<Seq<char>>,
    pub staged: bool,
}

impl View for AdmissionReceipt {
    type V = ReceiptView;

    closed spec fn view(&self) -> ReceiptView {
        ReceiptView {
            key: self.key,
            proposal_id: self.proposal_id@,
            content_hash: self.content_hash@,
            target_truth_id: opt_text(self.target_truth_id),
            staged: self.staged,
        }
    }
}

/// The receipt for a request, given whether it staged a new proposal.
pub open spec fn receipt_of(r: RequestView, staged: bool) -> ReceiptView {
    ReceiptView {
        key: r.key,
        proposal_id: r.id,
        content_hash: text_hash(r.content),
        target_truth_id: r.target_truth_id,
        staged,
    }
}

fn copy_opt(o: &Option<String>) -> (r: Option<String>)
    ensures
        opt_text(r) == opt_text(*o),
{
    match o {
        Some(t) => Some(t.clone()),
        None => None,
    }
}

impl AdmissionReceipt {
    /// The receipt for a request; its content hash is the SHA-256 of the content.
    pub fn new(request: &AdmissionRequest, staged: bool) -> (r: Self)
        ensures
            r@ == receipt_of(request@, staged),
    {
        AdmissionReceipt {
            key: request.key,
            proposal_id: request.id.duplicate(),
            content_hash: ContentHash::compute(request.content.0.as_str()),
            target_truth_id: copy_opt(&request.target_truth_id),
            staged,
        }
    }

    /// Returns the target context key.
    pub fn key(&self) -> (r: ContextKey)
        ensures
            r == self@.key,
    {
        self.key
    }

    /// Returns the staged proposal identifier.
    pub fn proposal_id(&self) -> (r: &ProposalId)
        ensures
            r@ == self@.proposal_id,
    {
        &self.proposal_id
    }

    /// Returns the content hash for audit/idempotency checks.
    pub fn content_hash(&self) -> (r: &ContentHash)
        ensures
            r@ == self@.content_hash,
    {
        &self.content_hash
    }

    /// Returns the optional semantic target.
    pub fn target_truth_id(&self) -> (r: Option<&TruthId>)
        ensures
            match r {
                Some(t) => self@.target_truth_id == Some(t@),
                None => self@.target_truth_id is None,
            },
    {
        match &self.target_truth_id {
            Some(t) => Some(t),
            None => None,
        }
    }

    /// Returns true if this call staged a new proposal.
    pub fn staged(&self) -> (r: bool)
        ensures
            r == self@.staged,
    {
        self.staged
    }
}

/// What submitting an observation does: a new identifier stages its proposal and
/// returns a staged receipt; the same observation again returns an unstaged receipt
/// and changes nothing; a different payload under a pending identifier is a conflict
/// that changes nothing.
pub open spec fn admission_outcome(
    a: ContextView,
    q: RequestView,
    r: Result<AdmissionReceipt, ConvergeError>,
    b: ContextView,
) -> bool {
    match r {
        Ok(receipt) => {
            &&& receipt@ == receipt_of(q, receipt@.staged)
            &&& receipt@.staged ==> !has_proposal_id(a, q.key, q.id)
                && b == (ContextView {
                proposals: a.proposals.update(
                    key_index(q.key),
                    proposals_of(a, q.key).push(admission_proposal(q)),
                ),
                ..a
            })
            &&& !receipt@.staged ==> b == a && proposals_of(
                a,
                q.key,
            ).contains(admission_proposal(q))
        },
        Err(ConvergeError::Conflict { id, new, .. }) => {
            &&& has_proposal_id(a, q.key, q.id)
            &&& !proposals_of(a, q.key).contains(admission_proposal(q))
            &&& id@ == q.id
            &&& new@ == proposal_debug_text(admission_proposal(q))
            &&& b == a
        },
        Err(_) => false,
    }
}

impl ContextState {
    /// Stages a typed external observation as a proposal; it never creates a fact.
    ///
    /// A new observation is staged (`staged` is true); resubmitting the same observation
    /// changes nothing (`staged` is false); a different payload under a pending
    /// identifier is a conflict and leaves the context unchanged.
    pub fn submit_observation(&mut self, request: AdmissionRequest) -> (r: Result<AdmissionReceipt, ConvergeError>)
        requires
            old(self).wf(),
        ensures
            final(self).wf(),
            admission_outcome(old(self)@, request@, r, final(self)@),
    {
        let proposal = request.into_proposal();
        let staged = self.add_proposal(proposal)?;
        Ok(AdmissionReceipt::new(&request, staged))
    }
}

} // verus!
