use vstd::prelude::*;
use vstd::string::*;
use vstd::utf8::*;

use crate::integrity::{hex_text, sha256, sha256_digest, ContentHash};
use crate::text::{concat2, decimal, owned, push_char, push_decimal};
use crate::experience_store::{EventQuery, ExperienceRecord, ExperienceStore, ExperienceStoreError, UserExperienceEvent};
use crate::stop::stop_reason_text;

verus! {

/// The step of a decision chain a recall serves.
#[derive(Debug, Clone, Copy, PartialEq, Eq, Hash, Structural)]
pub enum DecisionStep {
    /// Reasoning about the situation.
    Reasoning,
    /// Evaluating options.
    Evaluation,
    /// Planning the next actions.
    Planning,
}

/// The label of a decision step.
pub open spec fn step_label(s: DecisionStep) -> Seq<char> {
    match s {
        DecisionStep::Reasoning => "reasoning"@,
        DecisionStep::Evaluation => "evaluation"@,
        DecisionStep::Planning => "planning"@,
    }
}

impl DecisionStep {
    /// The label of the step.
    pub fn as_str(&self) -> (r: &'static str)
        ensures
            r@ == step_label(*self),
    {
        match self {
            DecisionStep::Reasoning => "reasoning",
            DecisionStep::Evaluation => "evaluation",
            DecisionStep::Planning => "planning",
        }
    }
}

/// What a recall result may be used for.
#[derive(Debug, Clone, Copy, PartialEq, Eq, Hash, Structural)]
pub enum RecallUse {
    /// Augmenting a prompt at run time.
    RuntimeAugmentation,
    /// Selecting candidates for training.
    TrainingCandidateSelection,
}

impl Default for RecallUse {
    fn default() -> (r: Self)
        ensures
            r == RecallUse::RuntimeAugmentation,
    {
        RecallUse::RuntimeAugmentation
    }
}

/// Who consumes a recall result.
#[derive(Debug, Clone, Copy, PartialEq, Eq, Hash, Structural)]
pub enum RecallConsumer {
    Kernel,
    Analytics,
    Trainer,
}

impl Default for RecallConsumer {
    fn default() -> (r: Self)
        ensures
            r == RecallConsumer::Kernel,
    {
        RecallConsumer::Kernel
    }
}

/// The wire code of a recall use (its declaration position).
pub open spec fn use_code(u: RecallUse) -> u8 {
    match u {
        RecallUse::RuntimeAugmentation => 0,
        RecallUse::TrainingCandidateSelection => 1,
    }
}

/// The wire code of a recall consumer (its declaration position).
pub open spec fn consumer_code(c: RecallConsumer) -> u8 {
    match c {
        RecallConsumer::Kernel => 0,
        RecallConsumer::Analytics => 1,
        RecallConsumer::Trainer => 2,
    }
}

impl RecallUse {
    /// The wire code of the use.
    pub fn code(self) -> (r: u8)
        ensures
            r == use_code(self),
    {
        match self {
            RecallUse::RuntimeAugmentation => 0,
            RecallUse::TrainingCandidateSelection => 1,
        }
    }
}

impl RecallConsumer {
    /// The wire code of the consumer.
    pub fn code(self) -> (r: u8)
        ensures
            r == consumer_code(self),
    {
        match self {
            RecallConsumer::Kernel => 0,
            RecallConsumer::Analytics => 1,
            RecallConsumer::Trainer => 2,
        }
    }
}

/// A score in `[0, 1]`, held exactly as basis points (0 to 10 000).
#[derive(Debug, Clone, Copy, PartialEq, Eq, Hash, Structural)]
pub struct UnitInterval {
    basis_points: u16,
}

impl UnitInterval {
    /// The score in basis points.
    pub closed spec fn bp(self) -> nat {
        self.basis_points as nat
    }

    /// A score from basis points; `None` above 10 000.
    pub fn from_basis_points(bp: u16) -> (r: Option<Self>)
        ensures
            bp <= 10000 ==> (r matches Some(u) && u.bp() == bp),
            bp > 10000 ==> r is None,
    {
        if bp <= 10000 {
            Some(UnitInterval { basis_points: bp })
        } else {
            None
        }
    }

    /// A score from basis points, capped at 10 000.
    pub fn clamped_basis_points(bp: u32) -> (r: Self)
        ensures
            r.bp() == (if bp <= 10000 { bp as nat } else { 10000 }),
    {
        if bp <= 10000 {
            UnitInterval { basis_points: bp as u16 }
        } else {
            UnitInterval { basis_points: 10000 }
        }
    }

    /// The score 0.
    pub fn zero() -> (r: Self)
        ensures
            r.bp() == 0,
    {
        UnitInterval { basis_points: 0 }
    }

    /// The score 1.
    pub fn one() -> (r: Self)
        ensures
            r.bp() == 10000,
    {
        UnitInterval { basis_points: 10000 }
    }

    /// The score in basis points.
    pub fn to_basis_points(self) -> (r: u16)
        ensures
            r == self.bp(),
    {
        self.basis_points
    }
}

/// Limits on one recall.
#[derive(Debug, Clone, Copy, PartialEq, Eq, Structural)]
pub struct RecallBudgets {
    /// Maximum latency in milliseconds.
    pub max_latency_ms: u64,
    /// Maximum number of embedding calls.
    pub max_embedding_calls: usize,
    /// Maximum tokens per candidate.
    pub max_tokens_per_candidate: usize,
}

impl Default for RecallBudgets {
    /// 100 ms, 3 embedding calls, 100 tokens per candidate.
    fn default() -> (r: Self)
        ensures
            r == (RecallBudgets { max_latency_ms: 100, max_embedding_calls: 3, max_tokens_per_candidate: 100 }),
    {
        RecallBudgets { max_latency_ms: 100, max_embedding_calls: 3, max_tokens_per_candidate: 100 }
    }
}

/// What recall may do: whether it is on, how much it may return, and for which uses.
#[derive(Debug, Clone)]
pub struct RecallPolicy {
    /// Whether recall is enabled.
    pub enabled: bool,
    /// Maximum number of candidates returned in total.
    pub max_k_total: usize,
    /// Maximum tokens injected from recall.
    pub max_tokens_injection: usize,
    /// Minimum score a candidate needs.
    pub min_score_threshold: UnitInterval,
    /// Budgets of one recall.
    pub budgets: RecallBudgets,
    /// The uses recall results may serve.
    pub allowed_uses: Vec<RecallUse>,
    /// How strongly recall results weight planning priors.
    pub prior_weight: UnitInterval,
}

impl Default for RecallPolicy {
    /// Disabled, 5 candidates, 500 tokens, threshold one half, default budgets,
    /// run-time augmentation only, full prior weight.
    fn default() -> (r: Self)
        ensures
            !r.enabled,
            r.max_k_total == 5,
            r.max_tokens_injection == 500,
            r.min_score_threshold.bp() == 5000,
            r.budgets == (RecallBudgets { max_latency_ms: 100, max_embedding_calls: 3, max_tokens_per_candidate: 100 }),
            r.allowed_uses@ == seq![RecallUse::RuntimeAugmentation],
            r.prior_weight.bp() == 10000,
    {
        let mut uses: Vec<RecallUse> = Vec::new();
        uses.push(RecallUse::RuntimeAugmentation);
        RecallPolicy {
            enabled: false,
            max_k_total: 5,
            max_tokens_injection: 500,
            min_score_threshold: UnitInterval { basis_points: 5000 },
            budgets: RecallBudgets { max_latency_ms: 100, max_embedding_calls: 3, max_tokens_per_candidate: 100 },
            allowed_uses: uses,
            prior_weight: UnitInterval { basis_points: 10000 },
        }
    }
}

/// The framed fields of a list of uses, one single-byte field each.
pub open spec fn use_frames(s: Seq<RecallUse>) -> Seq<u8>
    decreases s.len(),
{
    if s.len() == 0 {
        Seq::empty()
    } else {
        use_frames(s.drop_last()) + frame(seq![use_code(s.last())])
    }
}

/// The framed bytes a policy is hashed from.
pub open spec fn policy_hash_input(p: RecallPolicy) -> Seq<u8> {
    frame(encode_utf8("recall-policy-v1"@)) + frame(seq![if p.enabled { 1u8 } else { 0u8 }]) + frame(
        be_bytes(p.max_k_total as nat, 8),
    ) + frame(be_bytes(p.max_tokens_injection as nat, 8)) + frame(be_bytes(p.min_score_threshold.bp(), 2))
        + frame(be_bytes(p.budgets.max_latency_ms as nat, 8)) + frame(
        be_bytes(p.budgets.max_embedding_calls as nat, 8),
    ) + frame(be_bytes(p.budgets.max_tokens_per_candidate as nat, 8)) + use_frames(p.allowed_uses@)
        + frame(be_bytes(p.prior_weight.bp(), 2))
}

fn push_field_u64(out: &mut Vec<u8>, n: u64, k: u64)
    requires
        k <= 8,
    ensures
        final(out)@ == old(out)@ + frame(be_bytes(n as nat, k as nat)),
{
    let mut field: Vec<u8> = Vec::new();
    push_be(&mut field, n, k);
    assert(field@ =~= be_bytes(n as nat, k as nat));
    push_frame(out, field.as_slice());
}

fn push_field_byte(out: &mut Vec<u8>, b: u8)
    ensures
        final(out)@ == old(out)@ + frame(seq![b]),
{
    let mut field: Vec<u8> = Vec::new();
    field.push(b);
    assert(field@ =~= seq![b]);
    push_frame(out, field.as_slice());
}

impl RecallPolicy {
    /// An enabled policy with the default settings.
    pub fn enabled() -> (r: Self)
        ensures
            r.enabled,
            r.max_k_total == 5,
            r.max_tokens_injection == 500,
            r.min_score_threshold.bp() == 5000,
            r.allowed_uses@ == seq![RecallUse::RuntimeAugmentation],
            r.prior_weight.bp() == 10000,
    {
        RecallPolicy { enabled: true, ..Self::default() }
    }

    /// A disabled policy (the default).
    pub fn disabled() -> (r: Self)
        ensures
            !r.enabled,
            r.max_k_total == 5,
            r.max_tokens_injection == 500,
            r.min_score_threshold.bp() == 5000,
            r.allowed_uses@ == seq![RecallUse::RuntimeAugmentation],
            r.prior_weight.bp() == 10000,
    {
        Self::default()
    }

    /// Whether the policy allows the given use.
    pub fn is_use_allowed(&self, purpose: RecallUse) -> (r: bool)
        ensures
            r == self.allowed_uses@.contains(purpose),
    {
        let mut i: usize = 0;
        while i < self.allowed_uses.len()
            invariant
                i <= self.allowed_uses@.len(),
                forall|k: int| 0 <= k < i ==> self.allowed_uses@[k] != purpose,
            decreases self.allowed_uses.len() - i,
        {
            if self.allowed_uses[i] == purpose {
                return true;
            }
            i = i + 1;
        }
        false
    }

    /// A stable hash of the policy: lower-case hex of the SHA-256 of its framed fields.
    pub fn snapshot_hash(&self) -> (r: String)
        ensures
            r@ == hex_text(sha256(policy_hash_input(*self))),
    {
        let mut buf: Vec<u8> = Vec::new();
        push_frame_text(&mut buf, "recall-policy-v1");
        push_field_byte(&mut buf, if self.enabled { 1u8 } else { 0u8 });
        push_field_u64(&mut buf, self.max_k_total as u64, 8);
        push_field_u64(&mut buf, self.max_tokens_injection as u64, 8);
        push_field_u64(&mut buf, self.min_score_threshold.to_basis_points() as u64, 2);
        push_field_u64(&mut buf, self.budgets.max_latency_ms, 8);
        push_field_u64(&mut buf, self.budgets.max_embedding_calls as u64, 8);
        push_field_u64(&mut buf, self.budgets.max_tokens_per_candidate as u64, 8);
        let ghost before = buf@;
        let mut i: usize = 0;
        while i < self.allowed_uses.len()
            invariant
                i <= self.allowed_uses@.len(),
                buf@ == before + use_frames(self.allowed_uses@.take(i as int)),
            decreases self.allowed_uses.len() - i,
        {
            push_field_byte(&mut buf, self.allowed_uses[i].code());
            proof {
                assert(self.allowed_uses@.take(i as int + 1).drop_last() == self.allowed_uses@.take(i as int));
            }
            i = i + 1;
        }
        assert(self.allowed_uses@.take(self.allowed_uses@.len() as int) == self.allowed_uses@);
        push_field_u64(&mut buf, self.prior_weight.to_basis_points() as u64, 2);
        assert(buf@ =~= policy_hash_input(*self));
        let digest = ContentHash(sha256_digest(buf.as_slice()));
        digest.to_hex()
    }
}

/// Whether a policy allows a use; the enforcement point at the kernel boundary.
pub fn recall_use_allowed(policy: &RecallPolicy, purpose: RecallUse) -> (r: bool)
    ensures
        r == policy.allowed_uses@.contains(purpose),
{
    policy.is_use_allowed(purpose)
}

/// A recall query.
#[derive(Debug, Clone)]
pub struct RecallQuery {
    /// The text to search for.
    pub query_text: String,
    /// How many candidates to return at most.
    pub top_k: usize,
    /// The decision step the recall serves, if any.
    pub step_context: Option<DecisionStep>,
    /// The tenant the recall is limited to, if any.
    pub tenant_scope: Option<String>,
}

// ---------------------------------------------------------------------------
// Stable hashing: a domain label, then length-framed fields, hashed with SHA-256
// ---------------------------------------------------------------------------

/// The last `k` bytes of `n` in big-endian order.
pub open spec fn be_bytes(n: nat, k: nat) -> Seq<u8>
    decreases k,
{
    if k == 0 {
        Seq::empty()
    } else {
        be_bytes(n / 256, (k - 1) as nat).push((n % 256) as u8)
    }
}

/// A field framed by its length as eight big-endian bytes.
pub open spec fn frame(b: Seq<u8>) -> Seq<u8> {
    be_bytes(b.len(), 8) + b
}

/// The framed bytes a query is hashed from: the domain label, the query text, the
/// result count as eight big-endian bytes, then the step label and the tenant, each
/// as an empty field when absent.
pub open spec fn query_hash_input(q: RecallQuery) -> Seq<u8> {
    frame(encode_utf8("recall-query-v1"@)) + frame(encode_utf8(q.query_text@)) + frame(
        be_bytes(q.top_k as nat, 8),
    ) + match q.step_context {
        Some(s) => frame(encode_utf8(step_label(s))),
        None => frame(Seq::empty()),
    } + match q.tenant_scope {
        Some(t) => frame(encode_utf8(t@)),
        None => frame(Seq::empty()),
    }
}

fn push_be(out: &mut Vec<u8>, n: u64, k: u64)
    requires
        k <= 8,
    ensures
        final(out)@ == old(out)@ + be_bytes(n as nat, k as nat),
    decreases k,
{
    if k > 0 {
        push_be(out, n / 256, k - 1);
        out.push((n % 256) as u8);
    }
}

fn push_frame(out: &mut Vec<u8>, bytes: &[u8])
    ensures
        final(out)@ == old(out)@ + frame(bytes@),
{
    push_be(out, bytes.len() as u64, 8);
    let ghost mid = out@;
    let mut i: usize = 0;
    while i < bytes.len()
        invariant
            i <= bytes@.len(),
            out@ == mid + bytes@.take(i as int),
        decreases bytes.len() - i,
    {
        out.push(bytes[i]);
        assert(out@ =~= mid + bytes@.take(i as int + 1));
        i = i + 1;
    }
    assert(bytes@.take(bytes@.len() as int) =~= bytes@);
}

fn push_frame_text(out: &mut Vec<u8>, text: &str)
    ensures
        final(out)@ == old(out)@ + frame(encode_utf8(text@)),
{
    push_frame(out, text.as_bytes());
}

impl RecallQuery {
    /// A query for the given text and result count, without step or tenant.
    pub fn new(query_text: &str, top_k: usize) -> (r: Self)
        ensures
            r.query_text@ == query_text@,
            r.top_k == top_k,
            r.step_context is None,
            r.tenant_scope is None,
    {
        RecallQuery { query_text: owned(query_text), top_k, step_context: None, tenant_scope: None }
    }

    /// Sets the decision step.
    pub fn with_step_context(self, step: DecisionStep) -> (r: Self)
        ensures
            r == (RecallQuery { step_context: Some(step), ..self }),
    {
        RecallQuery { step_context: Some(step), ..self }
    }

    /// Limits the query to a tenant.
    pub fn with_tenant_scope(self, tenant: &str) -> (r: Self)
        ensures
            r.tenant_scope matches Some(t) && t@ == tenant@,
            r.query_text == self.query_text,
            r.top_k == self.top_k,
            r.step_context == self.step_context,
    {
        RecallQuery { tenant_scope: Some(owned(tenant)), ..self }
    }

    /// A stable hash of the query: lower-case hex of the SHA-256 of its framed fields.
    pub fn query_hash(&self) -> (r: String)
        ensures
            r@ == hex_text(sha256(query_hash_input(*self))),
            r@.len() == 64,
    {
        let mut buf: Vec<u8> = Vec::new();
        push_frame_text(&mut buf, "recall-query-v1");
        push_frame_text(&mut buf, self.query_text.as_str());
        let mut count: Vec<u8> = Vec::new();
        push_be(&mut count, self.top_k as u64, 8);
        assert(count@ =~= be_bytes(self.top_k as nat, 8));
        push_frame(&mut buf, count.as_slice());
        match self.step_context {
            Some(step) => push_frame_text(&mut buf, step.as_str()),
            None => push_frame(&mut buf, &[]),
        }
        match &self.tenant_scope {
            Some(t) => push_frame_text(&mut buf, t.as_str()),
            None => push_frame(&mut buf, &[]),
        }
        assert(buf@ =~= query_hash_input(*self));
        let bytes = sha256_digest(buf.as_slice());
        assert(bytes@.len() == 32);
        let digest = ContentHash(bytes);
        digest.to_hex()
    }
}

/// How relevant a candidate is.
#[derive(Debug, Clone, Copy, PartialEq, Eq, Structural)]
pub enum RelevanceLevel {
    High,
    Medium,
    Low,
}

/// The relevance of a score: high from 0.8, medium from 0.5, low below.
pub open spec fn relevance_of(bp: nat) -> RelevanceLevel {
    if bp >= 8000 {
        RelevanceLevel::High
    } else if bp >= 5000 {
        RelevanceLevel::Medium
    } else {
        RelevanceLevel::Low
    }
}

impl RelevanceLevel {
    /// The relevance level of a score.
    pub fn from_score(score: UnitInterval) -> (r: Self)
        ensures
            r == relevance_of(score.bp()),
    {
        let bp = score.to_basis_points();
        if bp >= 8000 {
            RelevanceLevel::High
        } else if bp >= 5000 {
            RelevanceLevel::Medium
        } else {
            RelevanceLevel::Low
        }
    }

    /// The label of the level.
    pub fn as_str(&self) -> (r: &'static str)
        ensures
            r@ == (match *self {
                RelevanceLevel::High => "high"@,
                RelevanceLevel::Medium => "medium"@,
                RelevanceLevel::Low => "low"@,
            }),
    {
        match self {
            RelevanceLevel::High => "high",
            RelevanceLevel::Medium => "medium",
            RelevanceLevel::Low => "low",
        }
    }
}

/// Where a recall candidate comes from.
#[derive(Debug, Clone, Copy, PartialEq, Eq, Structural)]
pub enum CandidateSourceType {
    SimilarFailure,
    SimilarSuccess,
    Runbook,
    AdapterConfig,
    AntiPattern,
}

/// The provenance of a recall candidate.
#[derive(Debug, Clone)]
pub struct CandidateProvenance {
    /// When the source was created.
    pub created_at: String,
    /// The chain it came from, if any.
    pub source_chain_id: Option<String>,
    /// The step it came from, if any.
    pub source_step: Option<DecisionStep>,
    /// The corpus version.
    pub corpus_version: String,
}

/// The trace of one recall, for audit and replay.
#[derive(Debug, Clone)]
pub struct RecallTraceLink {
    pub embedding_hash: String,
    pub corpus_version: String,
    pub embedder_id: String,
    pub candidates_searched: usize,
    pub candidates_returned: usize,
    pub latency_ms: u64,
}

/// Why a recall stopped.
#[derive(Debug, Clone, Copy, PartialEq, Eq, Structural)]
pub enum StopReason {
    ReachedTopK,
    BudgetExhausted,
    BelowThreshold,
    TokenLimitReached,
    LatencyExceeded,
    EmbedderNotDeterministic,
    TenantScopeMissing,
}


/// A candidate returned by recall.
#[derive(Debug, Clone)]
pub struct RecallCandidate {
    /// Identifier of the candidate.
    pub id: String,
    /// Summary text of the candidate.
    pub summary: String,
    /// Raw similarity score.
    pub raw_score: UnitInterval,
    /// Final normalised score.
    pub final_score: UnitInterval,
    /// Relevance level.
    pub relevance: RelevanceLevel,
    /// Where the candidate comes from.
    pub source_type: CandidateSourceType,
    /// Provenance of the candidate.
    pub provenance: CandidateProvenance,
    /// How much weight a consumer should give the candidate.
    pub confidence: UnitInterval,
}

/// A candidate identifier with its final score, for ordered provenance.
#[derive(Debug, Clone, PartialEq, Eq)]
pub struct CandidateScore {
    /// The candidate.
    pub id: String,
    /// Its final score.
    pub score: UnitInterval,
}

/// Everything needed to replay and audit one recall.
#[derive(Debug, Clone)]
pub struct RecallProvenanceEnvelope {
    /// Hash of the query.
    pub query_hash: String,
    /// Hash of the canonical embedding input.
    pub embedding_input_hash: String,
    /// Hash of the embedding vector.
    pub embedding_hash: String,
    /// The embedder.
    pub embedder_id: String,
    /// Hash of the embedder settings.
    pub embedder_settings_hash: String,
    /// Fingerprint of the corpus.
    pub corpus_fingerprint: String,
    /// Hash of the policy applied.
    pub policy_snapshot_hash: String,
    /// What the results are for.
    pub purpose: RecallUse,
    /// Who receives the results.
    pub consumers: Vec<RecallConsumer>,
    /// The returned candidates with their scores, in order.
    pub candidate_scores: Vec<CandidateScore>,
    /// How many candidates were searched.
    pub candidates_searched: usize,
    /// How many candidates were returned.
    pub candidates_returned: usize,
    /// Why recall stopped, if it did early.
    pub stop_reason: Option<StopReason>,
    /// Latency in milliseconds.
    pub latency_ms: u64,
    /// When the recall ran.
    pub timestamp: String,
    /// Signature of the envelope, `unsigned` when none.
    pub signature: String,
}

/// The framed fields of the consumers, one single-byte field each.
pub open spec fn consumer_frames(s: Seq<RecallConsumer>) -> Seq<u8>
    decreases s.len(),
{
    if s.len() == 0 {
        Seq::empty()
    } else {
        consumer_frames(s.drop_last()) + frame(seq![consumer_code(s.last())])
    }
}

/// The framed fields of the scores: each identifier, then its basis points.
pub open spec fn score_frames(s: Seq<CandidateScore>) -> Seq<u8>
    decreases s.len(),
{
    if s.len() == 0 {
        Seq::empty()
    } else {
        score_frames(s.drop_last()) + frame(encode_utf8(s.last().id@)) + frame(be_bytes(s.last().score.bp(), 2))
    }
}

/// The framed bytes an envelope is hashed from.
pub open spec fn envelope_hash_input(e: RecallProvenanceEnvelope) -> Seq<u8> {
    frame(encode_utf8("recall-envelope-v1"@)) + frame(encode_utf8(e.query_hash@)) + frame(
        encode_utf8(e.embedding_input_hash@),
    ) + frame(encode_utf8(e.embedding_hash@)) + frame(encode_utf8(e.embedder_id@)) + frame(
        encode_utf8(e.embedder_settings_hash@),
    ) + frame(encode_utf8(e.corpus_fingerprint@)) + frame(encode_utf8(e.policy_snapshot_hash@))
        + frame(seq![use_code(e.purpose)]) + consumer_frames(e.consumers@) + score_frames(
        e.candidate_scores@,
    ) + frame(be_bytes(e.candidates_searched as nat, 8)) + frame(
        be_bytes(e.candidates_returned as nat, 8),
    ) + frame(be_bytes(e.latency_ms as nat, 8)) + frame(encode_utf8(e.timestamp@))
}

/// Two envelopes describe the same replayable recall: same query and embedding
/// input, embedder, corpus, policy, purpose, consumers and ordered scores.
pub open spec fn replay_match(a: RecallProvenanceEnvelope, b: RecallProvenanceEnvelope) -> bool {
    &&& a.query_hash@ == b.query_hash@
    &&& a.embedding_input_hash@ == b.embedding_input_hash@
    &&& a.embedder_id@ == b.embedder_id@
    &&& a.embedder_settings_hash@ == b.embedder_settings_hash@
    &&& a.corpus_fingerprint@ == b.corpus_fingerprint@
    &&& a.policy_snapshot_hash@ == b.policy_snapshot_hash@
    &&& a.purpose == b.purpose
    &&& a.consumers@ == b.consumers@
    &&& score_views(a.candidate_scores@) == score_views(b.candidate_scores@)
}

/// The scores as identifier text and basis points.
pub open spec fn score_views(s: Seq<CandidateScore>) -> Seq<(Seq<char>, nat)> {
    s.map_values(|c: CandidateScore| (c.id@, c.score.bp()))
}

/// At most the first eight characters of a text.
pub open spec fn first8(s: Seq<char>) -> Seq<char> {
    if s.len() <= 8 {
        s
    } else {
        s.take(8)
    }
}

/// The one-line summary of an envelope.
pub open spec fn envelope_summary(e: RecallProvenanceEnvelope) -> Seq<char> {
    "Recall[query:"@ + first8(e.query_hash@) + "...][corpus:"@ + first8(e.corpus_fingerprint@)
        + "...]["@ + decimal(e.candidates_returned as nat) + "/"@ + decimal(e.candidates_searched as nat)
        + " candidates]["@ + decimal(e.latency_ms as nat) + "ms]"@
}

fn push_first8(out: &mut String, s: &str)
    ensures
        final(out)@ == old(out)@ + first8(s@),
{
    let n = s.unicode_len();
    let m = if n <= 8 { n } else { 8 };
    let mut i: usize = 0;
    while i < m
        invariant
            n == s@.len(),
            m == (if n <= 8 { n } else { 8 }),
            i <= m,
            out@ == old(out)@ + s@.take(i as int),
        decreases m - i,
    {
        let c = s.get_char(i);
        push_char(out, c);
        assert(s@.take(i as int + 1) == s@.take(i as int).push(c));
        i = i + 1;
    }
    assert(s@.take(m as int) == first8(s@));
}

impl RecallProvenanceEnvelope {
    /// A stable hash of the whole envelope: lower-case hex of the SHA-256 of its framed
    /// fields.
    pub fn envelope_hash(&self) -> (r: String)
        ensures
            r@ == hex_text(sha256(envelope_hash_input(*self))),
    {
        let mut buf: Vec<u8> = Vec::new();
        push_frame_text(&mut buf, "recall-envelope-v1");
        push_frame_text(&mut buf, self.query_hash.as_str());
        push_frame_text(&mut buf, self.embedding_input_hash.as_str());
        push_frame_text(&mut buf, self.embedding_hash.as_str());
        push_frame_text(&mut buf, self.embedder_id.as_str());
        push_frame_text(&mut buf, self.embedder_settings_hash.as_str());
        push_frame_text(&mut buf, self.corpus_fingerprint.as_str());
        push_frame_text(&mut buf, self.policy_snapshot_hash.as_str());
        push_field_byte(&mut buf, self.purpose.code());
        let ghost b1 = buf@;
        let mut i: usize = 0;
        while i < self.consumers.len()
            invariant
                i <= self.consumers@.len(),
                buf@ == b1 + consumer_frames(self.consumers@.take(i as int)),
            decreases self.consumers.len() - i,
        {
            push_field_byte(&mut buf, self.consumers[i].code());
            proof {
                assert(self.consumers@.take(i as int + 1).drop_last() == self.consumers@.take(i as int));
            }
            i = i + 1;
        }
        assert(self.consumers@.take(self.consumers@.len() as int) == self.consumers@);
        let ghost b2 = buf@;
        let mut j: usize = 0;
        while j < self.candidate_scores.len()
            invariant
                j <= self.candidate_scores@.len(),
                buf@ == b2 + score_frames(self.candidate_scores@.take(j as int)),
            decreases self.candidate_scores.len() - j,
        {
            let cs = &self.candidate_scores[j];
            push_frame_text(&mut buf, cs.id.as_str());
            push_field_u64(&mut buf, cs.score.to_basis_points() as u64, 2);
            proof {
                let t = self.candidate_scores@.take(j as int + 1);
                assert(t.drop_last() == self.candidate_scores@.take(j as int));
                assert(t.last() == self.candidate_scores@[j as int]);
            }
            j = j + 1;
        }
        assert(self.candidate_scores@.take(self.candidate_scores@.len() as int) == self.candidate_scores@);
        push_field_u64(&mut buf, self.candidates_searched as u64, 8);
        push_field_u64(&mut buf, self.candidates_returned as u64, 8);
        push_field_u64(&mut buf, self.latency_ms, 8);
        push_frame_text(&mut buf, self.timestamp.as_str());
        assert(buf@ =~= envelope_hash_input(*self));
        let digest = ContentHash(sha256_digest(buf.as_slice()));
        digest.to_hex()
    }

    /// Whether this envelope matches another for replay verification.
    pub fn matches_for_replay(&self, other: &Self) -> (r: bool)
        ensures
            r == replay_match(*self, *other),
    {
        if !(self.query_hash == other.query_hash && self.embedding_input_hash == other.embedding_input_hash
            && self.embedder_id == other.embedder_id && self.embedder_settings_hash == other.embedder_settings_hash
            && self.corpus_fingerprint == other.corpus_fingerprint && self.policy_snapshot_hash
            == other.policy_snapshot_hash && self.purpose == other.purpose) {
            return false;
        }
        if self.consumers.len() != other.consumers.len() {
            return false;
        }
        let mut i: usize = 0;
        while i < self.consumers.len()
            invariant
                i <= self.consumers@.len(),
                self.consumers@.len() == other.consumers@.len(),
                forall|k: int| 0 <= k < i ==> self.consumers@[k] == other.consumers@[k],
            decreases self.consumers.len() - i,
        {
            if self.consumers[i] != other.consumers[i] {
                return false;
            }
            i = i + 1;
        }
        assert(self.consumers@ =~= other.consumers@);
        if self.candidate_scores.len() != other.candidate_scores.len() {
            proof {
                assert(score_views(self.candidate_scores@).len() != score_views(other.candidate_scores@).len());
            }
            return false;
        }
        let ghost sa = score_views(self.candidate_scores@);
        let ghost sb = score_views(other.candidate_scores@);
        let mut j: usize = 0;
        while j < self.candidate_scores.len()
            invariant
                j <= self.candidate_scores@.len(),
                self.candidate_scores@.len() == other.candidate_scores@.len(),
                sa == score_views(self.candidate_scores@),
                sb == score_views(other.candidate_scores@),
                forall|k: int| 0 <= k < j ==> sa[k] == sb[k],
            decreases self.candidate_scores.len() - j,
        {
            let a = &self.candidate_scores[j];
            let b = &other.candidate_scores[j];
            if !(a.id == b.id && a.score.to_basis_points() == b.score.to_basis_points()) {
                proof {
                    assert(sa[j as int] != sb[j as int]);
                }
                return false;
            }
            j = j + 1;
        }
        assert(sa =~= sb);
        true
    }

    /// A short summary for logs: the first eight characters of the query hash and the
    /// corpus fingerprint, the returned and searched counts, and the latency.
    pub fn summary(&self) -> (r: String)
        ensures
            r@ == envelope_summary(*self),
    {
        let mut s = owned("Recall[query:");
        push_first8(&mut s, self.query_hash.as_str());
        s.append("...][corpus:");
        push_first8(&mut s, self.corpus_fingerprint.as_str());
        s.append("...][");
        push_decimal(&mut s, self.candidates_returned as u64);
        s.append("/");
        push_decimal(&mut s, self.candidates_searched as u64);
        s.append(" candidates][");
        push_decimal(&mut s, self.latency_ms);
        s.append("ms]");
        s
    }
}

// ---------------------------------------------------------------------------
// Recall from the experience ledger
// ---------------------------------------------------------------------------

/// What a recall candidate is made of, before its confidence is weighted: identifier,
/// creation time, summary, score in basis points and source.
pub struct CandidateView {
    pub id: Seq<char>,
    pub created_at: Seq<char>,
    pub summary: Seq<char>,
    pub score: nat,
    pub source: CandidateSourceType,
}

/// The candidate a ledger record yields, if recall uses it: user overrides and approvals,
/// and failed engine outcomes.
pub open spec fn candidate_of(rec: ExperienceRecord) -> Option<CandidateView> {
    match rec {
        ExperienceRecord::User(env) => match env.event {
            UserExperienceEvent::UserOverrideIssued { reason, .. } => Some(
                CandidateView {
                    id: env.event_id@,
                    created_at: env.occurred_at@,
                    summary: "user override: "@ + reason@,
                    score: 9000,
                    source: CandidateSourceType::AntiPattern,
                },
            ),
            UserExperienceEvent::UserApprovalGranted { reason, .. } => Some(
                CandidateView {
                    id: env.event_id@,
                    created_at: env.occurred_at@,
                    summary: "user approval: "@ + match reason {
                        Some(t) => t@,
                        None => "granted"@,
                    },
                    score: 7000,
                    source: CandidateSourceType::SimilarSuccess,
                },
            ),
        },
        ExperienceRecord::Engine(env) => match env.outcome {
            Some(o) => if o.passed {
                None
            } else {
                Some(
                    CandidateView {
                        id: env.event_id@,
                        created_at: env.occurred_at@,
                        summary: "outcome failed: "@ + match o.stop_reason {
                            Some(sr) => stop_reason_text(sr),
                            None => "unspecified"@,
                        },
                        score: 6000,
                        source: CandidateSourceType::SimilarFailure,
                    },
                )
            },
            None => None,
        },
    }
}

/// A candidate holds what `v` describes, with `confidence` as its confidence; both scores
/// and the relevance follow `v`'s score.
pub open spec fn candidate_matches(c: RecallCandidate, v: CandidateView, confidence: nat) -> bool {
    &&& c.id@ == v.id
    &&& c.summary@ == v.summary
    &&& c.raw_score.bp() == v.score
    &&& c.final_score.bp() == v.score
    &&& c.relevance == relevance_of(v.score)
    &&& c.source_type == v.source
    &&& c.provenance.created_at@ == v.created_at
    &&& c.provenance.source_chain_id is None
    &&& c.provenance.source_step is None
    &&& c.provenance.corpus_version@ == "experience-store-v0"@
    &&& c.confidence.bp() == confidence
}

fn make_candidate(id: &str, occurred_at: &str, summary: String, bp: u16, source_type: CandidateSourceType) -> (r: RecallCandidate)
    requires
        bp <= 10000,
    ensures
        candidate_matches(
            r,
            CandidateView { id: id@, created_at: occurred_at@, summary: summary@, score: bp as nat, source: source_type },
            bp as nat,
        ),
{
    let confidence = UnitInterval { basis_points: bp };
    RecallCandidate {
        id: owned(id),
        summary,
        raw_score: confidence,
        final_score: confidence,
        relevance: RelevanceLevel::from_score(confidence),
        source_type,
        provenance: CandidateProvenance {
            created_at: owned(occurred_at),
            source_chain_id: None,
            source_step: None,
            corpus_version: owned("experience-store-v0"),
        },
        confidence,
    }
}

/// Turns a ledger record into a recall candidate, when recall uses records of its kind.
pub fn record_to_candidate(rec: &ExperienceRecord) -> (r: Option<RecallCandidate>)
    ensures
        candidate_of(*rec) is None ==> r is None,
        candidate_of(*rec) matches Some(v) ==> (r matches Some(c) && candidate_matches(c, v, v.score)),
{
    match rec {
        ExperienceRecord::User(env) => match &env.event {
            UserExperienceEvent::UserOverrideIssued { reason, .. } => {
                let summary = concat2("user override: ", reason.as_str());
                Some(make_candidate(env.event_id.as_str(), env.occurred_at.0.as_str(), summary, 9000, CandidateSourceType::AntiPattern))
            },
            UserExperienceEvent::UserApprovalGranted { reason, .. } => {
                let why: &str = match reason {
                    Some(t) => t.as_str(),
                    None => "granted",
                };
                let summary = concat2("user approval: ", why);
                Some(make_candidate(env.event_id.as_str(), env.occurred_at.0.as_str(), summary, 7000, CandidateSourceType::SimilarSuccess))
            },
        },
        ExperienceRecord::Engine(env) => match &env.outcome {
            Some(o) => {
                if o.passed {
                    None
                } else {
                    let mut summary = owned("outcome failed: ");
                    match &o.stop_reason {
                        Some(sr) => {
                            let t = sr.to_text();
                            summary.append(t.as_str());
                        },
                        None => {
                            summary.append("unspecified");
                        },
                    }
                    Some(make_candidate(env.event_id.as_str(), env.occurred_at.0.as_str(), summary, 6000, CandidateSourceType::SimilarFailure))
                }
            },
            None => None,
        },
    }
}

/// A score weighted by another: the product of the two, in basis points, rounded down
/// and at most one.
pub open spec fn weighted(score: nat, weight: nat) -> nat {
    let p = (score * weight / 10000) as nat;
    if p <= 10000 {
        p
    } else {
        10000
    }
}

/// The candidates of the records from index `i` on that reach the threshold, newest first.
pub open spec fn found_from(recs: Seq<ExperienceRecord>, threshold: nat, i: int) -> Seq<CandidateView>
    decreases recs.len() - i,
{
    if i < 0 || i >= recs.len() {
        Seq::empty()
    } else {
        found_from(recs, threshold, i + 1) + match candidate_of(recs[i]) {
            Some(v) => if v.score >= threshold {
                seq![v]
            } else {
                Seq::empty()
            },
            None => Seq::empty(),
        }
    }
}

/// The candidates a recall returns before weighting: newest records first, those under the
/// threshold left out, at most the smaller of the query's and the policy's limit.
pub open spec fn recalled(policy: RecallPolicy, query: RecallQuery, recs: Seq<ExperienceRecord>) -> Seq<CandidateView> {
    if !policy.enabled {
        Seq::empty()
    } else {
        let all = found_from(recs, policy.min_score_threshold.bp(), 0);
        let limit = if query.top_k <= policy.max_k_total {
            query.top_k as int
        } else {
            policy.max_k_total as int
        };
        if all.len() <= limit {
            all
        } else {
            all.take(limit)
        }
    }
}

proof fn lemma_found_prefix(recs: Seq<ExperienceRecord>, threshold: nat, i: int, j: int)
    requires
        0 <= j <= i <= recs.len(),
    ensures
        found_from(recs, threshold, i).len() <= found_from(recs, threshold, j).len(),
        found_from(recs, threshold, j).take(found_from(recs, threshold, i).len() as int) == found_from(recs, threshold, i),
    decreases i - j,
{
    if j < i {
        lemma_found_prefix(recs, threshold, i, j + 1);
        let a = found_from(recs, threshold, i);
        let b = found_from(recs, threshold, j + 1);
        let c = found_from(recs, threshold, j);
        assert(c.take(b.len() as int) =~= b);
        assert(c.take(a.len() as int) =~= a) by {
            assert forall|k: int| 0 <= k < a.len() implies c.take(a.len() as int)[k] == a[k] by {
                assert(b.take(a.len() as int)[k] == a[k]);
                assert(c[k] == b[k]);
            }
        }
    } else {
        assert(found_from(recs, threshold, j).take(found_from(recs, threshold, j).len() as int) =~= found_from(recs, threshold, j));
    }
}

/// Whether a record yields a candidate that reaches the threshold.
pub open spec fn qualifies(rec: ExperienceRecord, threshold: nat) -> bool {
    candidate_of(rec) matches Some(v) && v.score >= threshold
}

/// `idx` gives, for each candidate of `found`, the position of the record it comes from:
/// a qualifying record at or after `from`, newest first.
pub open spec fn sourced_by(
    recs: Seq<ExperienceRecord>,
    threshold: nat,
    found: Seq<CandidateView>,
    idx: Seq<int>,
    from: int,
) -> bool {
    &&& idx.len() == found.len()
    &&& forall|k: int|
        0 <= k < idx.len() ==> from <= #[trigger] idx[k] < recs.len() && qualifies(recs[idx[k]], threshold)
            && candidate_of(recs[idx[k]]) == Some(found[k])
    &&& forall|a: int, b: int| 0 <= a < b < idx.len() ==> #[trigger] idx[a] > #[trigger] idx[b]
}

/// The candidates found from position `i` on come from qualifying records at or after `i`,
/// newest first, and every qualifying record there gives one.
pub proof fn lemma_found_sourced(recs: Seq<ExperienceRecord>, threshold: nat, i: int)
    requires
        0 <= i <= recs.len(),
    ensures
        exists|idx: Seq<int>| #[trigger] sourced_by(recs, threshold, found_from(recs, threshold, i), idx, i),
        found_from(recs, threshold, i).len() == qualifying_count(recs, threshold, i),
    decreases recs.len() - i,
{
    if i < recs.len() {
        lemma_found_sourced(recs, threshold, i + 1);
        let rest = found_from(recs, threshold, i + 1);
        let idx1 = choose|idx: Seq<int>| #[trigger] sourced_by(recs, threshold, rest, idx, i + 1);
        let cur = found_from(recs, threshold, i);
        if qualifies(recs[i], threshold) {
            let idx = idx1.push(i);
            assert(cur == rest.push(candidate_of(recs[i])->Some_0));
            assert forall|k: int| 0 <= k < idx.len() implies i <= #[trigger] idx[k] < recs.len() && qualifies(
                recs[idx[k]],
                threshold,
            ) && candidate_of(recs[idx[k]]) == Some(cur[k]) by {
                if k < idx1.len() {
                    assert(idx[k] == idx1[k]);
                    assert(cur[k] == rest[k]);
                }
            }
            assert forall|a: int, b: int| 0 <= a < b < idx.len() implies #[trigger] idx[a] > #[trigger] idx[b] by {
                if b < idx1.len() {
                    assert(idx[a] == idx1[a]);
                    assert(idx[b] == idx1[b]);
                } else {
                    assert(idx[a] == idx1[a]);
                }
            }
            assert(sourced_by(recs, threshold, cur, idx, i));
        } else {
            assert(cur == rest);
            assert(sourced_by(recs, threshold, cur, idx1, i));
        }
    } else {
        assert(sourced_by(recs, threshold, found_from(recs, threshold, i), Seq::empty(), i));
    }
}

/// The number of qualifying records from position `i` on.
pub open spec fn qualifying_count(recs: Seq<ExperienceRecord>, threshold: nat, i: int) -> nat
    decreases recs.len() - i,
{
    if i < 0 || i >= recs.len() {
        0
    } else {
        qualifying_count(recs, threshold, i + 1) + if qualifies(recs[i], threshold) {
            1nat
        } else {
            0nat
        }
    }
}

/// The store query recall makes: every record, of the query's tenant when it names one.
pub fn recall_event_query(query: &RecallQuery) -> (r: EventQuery)
    ensures
        r.tenant_id == query.tenant_scope,
        r.time_range is None,
        r.kinds@.len() == 0,
        r.correlation_id is None,
        r.chain_id is None,
        r.limit is None,
{
    let tenant_id = match &query.tenant_scope {
        Some(t) => Some(t.clone()),
        None => None,
    };
    EventQuery { tenant_id, time_range: None, kinds: Vec::new(), correlation_id: None, chain_id: None, limit: None }
}

/// Recall from the records a store query returned: newest first, each mapped to a candidate
/// as [`record_to_candidate`] does, those under the policy's threshold left out, trimmed to
/// the smaller of the query's and the policy's limit, and each confidence weighted by the
/// policy's prior weight. A disabled policy recalls nothing.
#[verifier::loop_isolation(false)]
pub fn recall_from_records(policy: &RecallPolicy, query: &RecallQuery, records: &Vec<ExperienceRecord>) -> (r: Vec<RecallCandidate>)
    ensures
        !policy.enabled ==> r@.len() == 0,
        r@.len() == recalled(*policy, *query, records@).len(),
        forall|k: int| 0 <= k < r@.len() ==> candidate_matches(
            #[trigger] r@[k],
            recalled(*policy, *query, records@)[k],
            weighted(recalled(*policy, *query, records@)[k].score, policy.prior_weight.bp()),
        ),
{
    let mut out: Vec<RecallCandidate> = Vec::new();
    if !policy.enabled {
        return out;
    }
    let limit = if query.top_k <= policy.max_k_total {
        query.top_k
    } else {
        policy.max_k_total
    };
    let threshold = policy.min_score_threshold.to_basis_points();
    let weight = policy.prior_weight.to_basis_points() as u32;
    let ghost thr = policy.min_score_threshold.bp();
    let ghost all = found_from(records@, thr, 0);
    let mut i: usize = records.len();
    while i > 0 && out.len() < limit
        invariant
            i <= records@.len(),
            out@.len() == found_from(records@, thr, i as int).len(),
            out@.len() <= limit,
            threshold == thr,
            weight == policy.prior_weight.bp(),
            weight <= u16::MAX,
            forall|k: int| 0 <= k < out@.len() ==> candidate_matches(
                #[trigger] out@[k],
                found_from(records@, thr, i as int)[k],
                weighted(found_from(records@, thr, i as int)[k].score, weight as nat),
            ),
        decreases i,
    {
        let ghost before = found_from(records@, thr, i as int);
        i = i - 1;
        assert(found_from(records@, thr, i as int + 1) == before);
        match record_to_candidate(&records[i]) {
            Some(c) => {
                let bp = c.confidence.to_basis_points();
                if bp >= threshold {
                    assert((bp as u32) * weight <= u32::MAX) by (nonlinear_arith)
                        requires bp <= u16::MAX, weight <= u16::MAX;
                    let scaled: u32 = (bp as u32) * weight / 10000;
                    let mut c2 = c;
                    c2.confidence = UnitInterval::clamped_basis_points(scaled);
                    out.push(c2);
                    proof {
                        let now = found_from(records@, thr, i as int);
                        assert(now == before.push(candidate_of(records@[i as int])->Some_0));
                        assert forall|k: int| 0 <= k < out@.len() implies candidate_matches(
                            #[trigger] out@[k],
                            found_from(records@, thr, i as int)[k],
                            weighted(found_from(records@, thr, i as int)[k].score, weight as nat),
                        ) by {
                            if k < before.len() {
                                assert(now[k] == before[k]);
                            }
                        }
                    }
                } else {
                    assert(found_from(records@, thr, i as int) == before);
                }
            },
            None => {
                assert(found_from(records@, thr, i as int) == before);
            },
        }
    }
    proof {
        lemma_found_prefix(records@, thr, i as int, 0);
        if out@.len() < limit {
            assert(i == 0);
        }
    }
    out
}

/// The candidates are those a recall gives for these records: one per recalled
/// candidate view, in order, each with its confidence weighted by the policy's prior weight.
pub open spec fn recalled_as(
    cs: Seq<RecallCandidate>,
    policy: RecallPolicy,
    query: RecallQuery,
    recs: Seq<ExperienceRecord>,
) -> bool {
    &&& cs.len() == recalled(policy, query, recs).len()
    &&& forall|k: int|
        0 <= k < cs.len() ==> candidate_matches(
            #[trigger] cs[k],
            recalled(policy, query, recs)[k],
            weighted(recalled(policy, query, recs)[k].score, policy.prior_weight.bp()),
        )
}

/// Recall from an experience store. With the policy off it returns nothing and does not
/// ask the store; otherwise it asks the store for the records of the query's tenant (see
/// [`recall_event_query`]), hands back the store's error, or recalls from the records as
/// [`recall_from_records`] does.
pub fn recall_from_store(
    store: &dyn ExperienceStore,
    query: &RecallQuery,
    policy: &RecallPolicy,
) -> (r: Result<Vec<RecallCandidate>, ExperienceStoreError>)
    ensures
        !policy.enabled ==> (r matches Ok(cs) && cs@.len() == 0),
        r matches Ok(cs) ==> exists|recs: Seq<ExperienceRecord>| #[trigger] recalled_as(cs@, *policy, *query, recs),
{
    if !policy.enabled {
        let none: Vec<RecallCandidate> = Vec::new();
        proof {
            assert(recalled_as(none@, *policy, *query, Seq::empty()));
        }
        return Ok(none);
    }
    let event_query = recall_event_query(query);
    let answer = store.query_records(&event_query);
    match answer {
        Ok(records) => {
            let cs = recall_from_records(policy, query, &records);
            let ghost rs = records@;
            let r = Ok(cs);
            proof {
                assert(recalled_as(r->Ok_0@, *policy, *query, rs));
                assert(exists|recs: Seq<ExperienceRecord>| #[trigger] recalled_as(r->Ok_0@, *policy, *query, recs));
            }
            r
        },
        Err(e) => Err(e),
    }
}

} // verus!
