use vstd::prelude::*;
use vstd::string::*;

use crate::agent::{by_suggestor, sort_by_suggestor, AgentEffect, Suggestor, SuggestorId};
use crate::context::{
    FactPromotion, lemma_total_push, lemma_total_same_facts,
    fact_total_below, facts_of, key_count, key_index, lemma_fact_total_monotone, lemma_key_index,
    proposal_views, ContextFact, ContextKey, ContextState, ContextView, ConvergeError, FactView,
    ProposalView, ProposedFact,
};
use crate::hitl::{GateDecision, GateEvent, GateRequest, GateVerdict, TimeoutPolicy};
use crate::ids::{GateId, ProposalId};
use crate::time::Timestamp;
use crate::truth::{Criterion, CriterionEvaluator, CriterionOutcome, CriterionResult};
use crate::integrity::{context_hashes, merkle_root_spec, IntegrityProof, TrackedContext};
use crate::invariants::{invariant_error_text, Invariant, InvariantError, InvariantId, InvariantRegistry};
use crate::stop::StopReason;
use crate::text::{blank, concat2, decimal, is_blank, owned, push_decimal, texts};
use crate::integrity::ContentHash;
use crate::ids::ObservationId;
use crate::promotion::PromotionGate;
use crate::types::{Actor, CaptureContext, EvidenceRef, LocalTrace, ObservationProvenance, Proposal, ProposedContent, ProposedContentKind, TraceLink};
use crate::validation::{ValidationContext, ValidationPolicy};

verus! {

/// Budget limits for execution; they guarantee termination.
#[derive(Debug, Clone, Copy, PartialEq, Eq)]
pub struct Budget {
    /// Maximum execution cycles before forced termination.
    pub max_cycles: u32,
    /// Maximum facts allowed in context.
    pub max_facts: u32,
}

impl Budget {
    /// The default budget: 100 cycles and 10 000 facts.
    pub fn default_budget() -> (r: Self)
        ensures
            r.max_cycles == 100,
            r.max_facts == 10000,
    {
        Budget { max_cycles: 100, max_facts: 10000 }
    }
}

impl Default for Budget {
    fn default() -> (r: Self)
        ensures
            r.max_cycles == 100,
            r.max_facts == 10000,
    {
        Budget { max_cycles: 100, max_facts: 10000 }
    }
}

/// Receives notifications while the engine runs; implemented by users.
pub trait StreamingCallback {
    /// Called at the start of each convergence cycle.
    fn on_cycle_start(&self, cycle: u32);

    /// Called when a fact is added to the context during merge.
    fn on_fact(&self, cycle: u32, fact: &ContextFact);

    /// Called at the end of each convergence cycle.
    fn on_cycle_end(&self, cycle: u32, facts_added: usize);
}

/// What a human-in-the-loop policy gates: proposals under these keys, and, when a
/// threshold is set, proposals whose confidence is at or below it (in basis points).
pub struct GateView {
    pub keys: Seq<ContextKey>,
    pub threshold: Option<nat>,
}

/// Whether a proposal needs a human decision under the gates, if any.
pub open spec fn gate_applies(gated: Option<GateView>, p: ProposalView) -> bool {
    match gated {
        Some(g) => g.keys.contains(p.key) || (g.threshold matches Some(t) && p.confidence <= t),
        None => false,
    }
}

/// Engine-level human-in-the-loop policy: proposals under a gated key, or at or below
/// the confidence threshold, pause the run for approval.
#[derive(Debug, Clone)]
pub struct EngineHitlPolicy {
    /// Proposals at or below this confidence need approval; `None` gates none by confidence.
    pub confidence_threshold: Option<crate::recall::UnitInterval>,
    /// Context keys whose proposals require approval.
    pub gated_keys: Vec<ContextKey>,
    /// Timeout behaviour when the human does not respond.
    pub timeout: TimeoutPolicy,
}

impl EngineHitlPolicy {
    /// What the policy gates.
    pub open spec fn gate_view(&self) -> GateView {
        GateView {
            keys: self.gated_keys@,
            threshold: match self.confidence_threshold {
                Some(t) => Some(t.bp()),
                None => None,
            },
        }
    }

    /// Whether a proposal requires approval: its key is gated, or its confidence is at or
    /// below the threshold.
    pub fn requires_approval(&self, proposal: &ProposedFact) -> (r: bool)
        ensures
            r == gate_applies(Some(self.gate_view()), proposal@),
    {
        let mut i: usize = 0;
        while i < self.gated_keys.len()
            invariant
                i <= self.gated_keys@.len(),
                forall|k: int| 0 <= k < i ==> self.gated_keys@[k] != proposal.key,
            decreases self.gated_keys.len() - i,
        {
            if self.gated_keys[i] == proposal.key {
                assert(self.gated_keys@[i as int] == proposal.key);
                return true;
            }
            i = i + 1;
        }
        match self.confidence_threshold {
            Some(t) => proposal.confidence.to_basis_points() <= t.to_basis_points(),
            None => false,
        }
    }
}

/// The provenance the engine gives a fact it promotes from a proposal in a cycle, on
/// behalf of `promoted_by`: promoted by the engine's gate, approved by the engine as a
/// system actor, evidenced by the proposal's observation, traced to the cycle and the
/// promoter, and created when it was promoted.
pub open spec fn engine_promotion(pr: FactPromotion, p: ProposalView, cycle: u32, promoted_by: Seq<char>) -> bool {
    &&& pr.record.gate_id@ == "engine-promotion"@
    &&& pr.record.approver.id@ == "converge-engine"@
    &&& pr.record.approver.kind == crate::types::ActorKind::System
    &&& pr.record.evidence_refs@.len() == 1
    &&& pr.record.evidence_refs@[0] matches EvidenceRef::Observation(o) && o@ == "obs:"@ + p.id
    &&& pr.record.trace_link matches TraceLink::Local(t) && t.trace_id@ == "cycle-"@ + decimal(cycle as nat)
        && t.span_id@ == promoted_by
    &&& pr.created_at@ == pr.record.promoted_at@
}

/// The result of a converged execution.
#[derive(Debug)]
pub struct ConvergeResult {
    /// Final context state.
    pub context: ContextState,
    /// Number of cycles executed.
    pub cycles: u32,
    /// Whether convergence was reached.
    pub converged: bool,
    /// Why the engine stopped.
    pub stop_reason: StopReason,
    /// Evaluated success criteria of the intent, if any.
    pub criteria_outcomes: Vec<CriterionOutcome>,
    /// Cryptographic integrity proof for the final context state.
    pub integrity: IntegrityProof,
}

/// Why a proposal was refused promotion.
#[derive(Debug, Clone, PartialEq, Eq)]
pub struct ProposalError {
    /// The reason.
    pub reason: String,
}

// ============================================================================
// The mathematical model of suggestor selection and promotion
// ============================================================================

/// Whether a suggestor with these dependencies is woken by these dirty keys: it has no
/// dependency, or one of its dependencies changed.
pub open spec fn wakes(deps: Seq<ContextKey>, dirty: Seq<ContextKey>) -> bool {
    deps.len() == 0 || exists|k: int| 0 <= k < deps.len() && dirty.contains(#[trigger] deps[k])
}

/// Whether a suggestor of this pack may run under the active-pack filter: there is no
/// filter, the suggestor belongs to no pack, or its pack is active.
pub open spec fn pack_active(pack: Option<Seq<char>>, active: Option<Seq<Seq<char>>>) -> bool {
    match active {
        None => true,
        Some(ps) => match pack {
            None => true,
            Some(p) => ps.contains(p),
        },
    }
}

/// The suggestors, among the first `n` registered, that are woken, active and accepted,
/// in registration order.
pub open spec fn eligible_below(
    deps: Seq<Seq<ContextKey>>,
    packs: Seq<Option<Seq<char>>>,
    active: Option<Seq<Seq<char>>>,
    dirty: Seq<ContextKey>,
    accepted: Seq<bool>,
    n: int,
) -> Seq<SuggestorId>
    decreases n,
{
    if n <= 0 {
        Seq::empty()
    } else if wakes(deps[n - 1], dirty) && pack_active(packs[n - 1], active) && accepted[n - 1] {
        eligible_below(deps, packs, active, dirty, accepted, n - 1).push(SuggestorId((n - 1) as u32))
    } else {
        eligible_below(deps, packs, active, dirty, accepted, n - 1)
    }
}

/// A list of suggestor identifiers in strictly increasing order.
pub open spec fn strictly_increasing(ids: Seq<SuggestorId>) -> bool {
    forall|a: int, b: int| 0 <= a < b < ids.len() ==> (#[trigger] ids[a]).0 < (#[trigger] ids[b]).0
}

/// A proposal may be promoted when its content is not blank.
pub open spec fn promotable(p: ProposalView) -> bool {
    !blank(p.content)
}

/// The fact a proposal becomes: same key, identifier and content.
pub open spec fn promoted(p: ProposalView) -> FactView {
    FactView { key: p.key, id: p.id, content: p.content }
}

/// `b` extends `a`: every fact of `a` stays in place, and every fact added since is
/// not blank.
pub open spec fn grows(a: ContextView, b: ContextView) -> bool {
    &&& forall|i: int| 0 <= i < key_count() ==> (#[trigger] a.facts[i]).len() <= b.facts[i].len()
    &&& forall|i: int, j: int|
        0 <= i < key_count() && 0 <= j < a.facts[i].len() ==> b.facts[i][j] == (#[trigger] a.facts[i][j])
    &&& forall|i: int, j: int|
        0 <= i < key_count() && a.facts[i].len() <= j < b.facts[i].len() ==> !blank(
            (#[trigger] b.facts[i][j]).content,
        )
}

/// No proposal is pending in the context.
pub open spec fn nothing_pending(v: ContextView) -> bool {
    forall|i: int| 0 <= i < key_count() ==> (#[trigger] v.proposals[i]).len() == 0
}

/// Growth is transitive.
pub proof fn lemma_grows_trans(a: ContextView, b: ContextView, c: ContextView)
    requires
        grows(a, b),
        grows(b, c),
    ensures
        grows(a, c),
{
    assert forall|i: int, j: int|
        0 <= i < key_count() && a.facts[i].len() <= j < c.facts[i].len() implies !blank(
            (#[trigger] c.facts[i][j]).content,
        ) by {
        assert(a.facts[i].len() <= b.facts[i].len());
        if j < b.facts[i].len() {
            assert(c.facts[i][j] == b.facts[i][j]);
        }
    }
    assert forall|i: int, j: int|
        0 <= i < key_count() && 0 <= j < a.facts[i].len() implies c.facts[i][j] == (#[trigger] a.facts[i][j]) by {
        assert(b.facts[i][j] == a.facts[i][j]);
        assert(c.facts[i][j] == b.facts[i][j]);
    }
    assert forall|i: int| 0 <= i < key_count() implies (#[trigger] a.facts[i]).len() <= c.facts[i].len() by {
        assert(a.facts[i].len() <= b.facts[i].len());
        assert(b.facts[i].len() <= c.facts[i].len());
    }
}

/// Growth is reflexive.
pub proof fn lemma_grows_refl(a: ContextView)
    ensures
        grows(a, a),
{
}

/// Adding a non-blank fact at the end of its key's list is growth.
pub proof fn lemma_grows_push(a: ContextView, b: ContextView, f: FactView)
    requires
        a.facts.len() == key_count(),
        !blank(f.content),
        b.facts == a.facts.update(key_index(f.key), facts_of(a, f.key).push(f)),
    ensures
        grows(a, b),
{
    lemma_key_index(f.key);
    let k = key_index(f.key);
    assert forall|i: int, j: int|
        0 <= i < key_count() && a.facts[i].len() <= j < b.facts[i].len() implies !blank(
            (#[trigger] b.facts[i][j]).content,
        ) by {
        if i == k {
            assert(b.facts[i][j] == f);
        }
    }
    assert forall|i: int, j: int|
        0 <= i < key_count() && 0 <= j < a.facts[i].len() implies b.facts[i][j] == (#[trigger] a.facts[i][j]) by {
        if i == k {
            assert(b.facts[i] == a.facts[i].push(f));
        }
    }
    assert forall|i: int| 0 <= i < key_count() implies (#[trigger] a.facts[i]).len() <= b.facts[i].len() by {
        if i == k {
            assert(b.facts[i] == a.facts[i].push(f));
        }
    }
}

// ============================================================================
// The engine
// ============================================================================

/// Pushing one item adds one to the length, whatever the item's type.
pub proof fn lemma_push_len<A>(s: Seq<A>, a: A)
    ensures
        s.push(a).len() == s.len() + 1,
{
}

/// The execution engine: registers suggestors and invariants, runs the convergence loop,
/// merges effects serially in registration order, and detects the fixed point.
pub struct Engine {
    agents: Vec<Box<dyn Suggestor>>,
    deps: Vec<Vec<ContextKey>>,
    agent_packs: Vec<Option<String>>,
    next_id: u32,
    budget: Budget,
    invariants: InvariantRegistry,
    streaming_callback: Option<Box<dyn StreamingCallback>>,
    hitl_policy: Option<EngineHitlPolicy>,
    active_packs: Option<Vec<String>>,
    rejected_proposals: Vec<String>,
}

/// Every identifier in the list names one of the first `count` suggestors.
pub open spec fn ids_registered(ids: Seq<SuggestorId>, count: nat) -> bool {
    forall|k: int| 0 <= k < ids.len() ==> (#[trigger] ids[k]).0 < count
}

/// The view of an optional text.
pub open spec fn opt_view(o: Option<String>) -> Option<Seq<char>> {
    match o {
        Some(t) => Some(t@),
        None => None,
    }
}

fn copy_keys(keys: &[ContextKey]) -> (r: Vec<ContextKey>)
    ensures
        r@ == keys@,
{
    let mut r: Vec<ContextKey> = Vec::new();
    let mut i: usize = 0;
    while i < keys.len()
        invariant
            i <= keys@.len(),
            r@ == keys@.take(i as int),
        decreases keys.len() - i,
    {
        r.push(keys[i]);
        assert(r@ =~= keys@.take(i as int + 1));
        i = i + 1;
    }
    assert(keys@.take(keys@.len() as int) =~= keys@);
    r
}

fn wakes_on(deps: &Vec<ContextKey>, dirty: &[ContextKey]) -> (r: bool)
    ensures
        r == wakes(deps@, dirty@),
{
    if deps.len() == 0 {
        return true;
    }
    let mut i: usize = 0;
    while i < deps.len()
        invariant
            i <= deps@.len(),
            forall|k: int| 0 <= k < i ==> !dirty@.contains(#[trigger] deps@[k]),
        decreases deps.len() - i,
    {
        let mut j: usize = 0;
        while j < dirty.len()
            invariant
                j <= dirty@.len(),
                i < deps@.len(),
                forall|q: int| 0 <= q < j ==> dirty@[q] != deps@[i as int],
            decreases dirty.len() - j,
        {
            if dirty[j] == deps[i] {
                assert(dirty@.contains(deps@[i as int]));
                return true;
            }
            j = j + 1;
        }
        i = i + 1;
    }
    false
}

fn contains_text(items: &Vec<String>, t: &String) -> (r: bool)
    ensures
        r == texts(items@).contains(t@),
{
    let mut i: usize = 0;
    while i < items.len()
        invariant
            i <= items@.len(),
            forall|k: int| 0 <= k < i ==> items@[k]@ != t@,
        decreases items.len() - i,
    {
        if items[i] == *t {
            assert(texts(items@)[i as int] == t@);
            return true;
        }
        i = i + 1;
    }
    proof {
        if texts(items@).contains(t@) {
            let k = choose|k: int| 0 <= k < texts(items@).len() && texts(items@)[k] == t@;
            assert(texts(items@)[k] == items@[k]@);
        }
    }
    false
}

impl Engine {
    /// The dependencies recorded for each registered suggestor, in registration order.
    pub closed spec fn deps_spec(&self) -> Seq<Seq<ContextKey>> {
        self.deps@.map_values(|d: Vec<ContextKey>| d@)
    }

    /// The pack of each registered suggestor, in registration order.
    pub closed spec fn packs_spec(&self) -> Seq<Option<Seq<char>>> {
        self.agent_packs@.map_values(|p: Option<String>| opt_view(p))
    }

    /// The active-pack filter, if any.
    pub closed spec fn active_spec(&self) -> Option<Seq<Seq<char>>> {
        match self.active_packs {
            Some(v) => Some(texts(v@)),
            None => None,
        }
    }

    /// The execution budget.
    pub closed spec fn budget_spec(&self) -> Budget {
        self.budget
    }

    /// The classes of the registered invariants.
    pub closed spec fn invariant_classes(&self) -> Seq<crate::invariants::InvariantClass> {
        self.invariants.classes_spec()
    }

    /// Whether a streaming callback is set.
    pub closed spec fn has_streaming(&self) -> bool {
        self.streaming_callback is Some
    }

    /// The human-in-the-loop policy, if one is set.
    pub closed spec fn hitl_spec(&self) -> Option<EngineHitlPolicy> {
        self.hitl_policy
    }

    /// A well-formed engine numbers its suggestors within `u32`.
    pub proof fn lemma_wf(&self)
        requires
            self.wf(),
        ensures
            self.count_spec() <= u32::MAX,
    {
    }

    /// Internal consistency of the registration tables.
    pub closed spec fn wf(&self) -> bool {
        &&& self.deps@.len() == self.agent_packs@.len()
        &&& self.agents@.len() == self.deps@.len()
        &&& self.next_id == self.deps@.len()
        &&& self.invariants.wf()
    }

    /// The number of registered suggestors.
    pub open spec fn count_spec(&self) -> nat {
        self.deps_spec().len()
    }

    /// The suggestors eligible for these dirty keys, given each suggestor's `accepts` answer.
    pub open spec fn eligible(&self, dirty: Seq<ContextKey>, accepted: Seq<bool>) -> Seq<SuggestorId> {
        eligible_below(
            self.deps_spec(),
            self.packs_spec(),
            self.active_spec(),
            dirty,
            accepted,
            self.count_spec() as int,
        )
    }

    /// Creates an engine with the default budget and nothing registered.
    pub fn new() -> (r: Self)
        ensures
            r.wf(),
            r.count_spec() == 0,
            r.budget_spec() == (Budget { max_cycles: 100, max_facts: 10000 }),
            r.active_spec() is None,
            r.invariant_classes().len() == 0,
            !r.has_streaming(),
            r.hitl_spec() is None,
            r.gated_spec() is None,
            r.rejected_spec().len() == 0,
    {
        let r = Engine {
            agents: Vec::new(),
            deps: Vec::new(),
            agent_packs: Vec::new(),
            next_id: 0,
            budget: Budget::default_budget(),
            invariants: InvariantRegistry::new(),
            streaming_callback: None,
            hitl_policy: None,
            active_packs: None,
            rejected_proposals: Vec::new(),
        };
        assert(r.deps_spec().len() == 0);
        r
    }

    /// Creates an engine with a custom budget.
    pub fn with_budget(budget: Budget) -> (r: Self)
        ensures
            r.wf(),
            r.count_spec() == 0,
            r.budget_spec() == budget,
            r.active_spec() is None,
            r.invariant_classes().len() == 0,
            !r.has_streaming(),
            r.hitl_spec() is None,
            r.gated_spec() is None,
            r.rejected_spec().len() == 0,
    {
        let mut r = Engine::new();
        r.budget = budget;
        r
    }

    /// Sets the execution budget.
    pub fn set_budget(&mut self, budget: Budget)
        requires
            old(self).wf(),
        ensures
            final(self).wf(),
            final(self).budget_spec() == budget,
            final(self).deps_spec() == old(self).deps_spec(),
            final(self).packs_spec() == old(self).packs_spec(),
            final(self).active_spec() == old(self).active_spec(),
            final(self).invariant_classes() == old(self).invariant_classes(),
    {
        self.budget = budget;
    }

    /// Sets a streaming callback.
    pub fn set_streaming(&mut self, callback: Box<dyn StreamingCallback>)
        requires
            old(self).wf(),
        ensures
            final(self).wf(),
            final(self).budget_spec() == old(self).budget_spec(),
            final(self).deps_spec() == old(self).deps_spec(),
            final(self).packs_spec() == old(self).packs_spec(),
            final(self).active_spec() == old(self).active_spec(),
            final(self).invariant_classes() == old(self).invariant_classes(),
            final(self).has_streaming(),
            final(self).hitl_spec() == old(self).hitl_spec(),
            final(self).rejected_spec() == old(self).rejected_spec(),
    {
        self.streaming_callback = Some(callback);
    }

    /// Clears the streaming callback.
    pub fn clear_streaming(&mut self)
        requires
            old(self).wf(),
        ensures
            final(self).wf(),
            final(self).budget_spec() == old(self).budget_spec(),
            final(self).deps_spec() == old(self).deps_spec(),
            final(self).packs_spec() == old(self).packs_spec(),
            final(self).active_spec() == old(self).active_spec(),
            final(self).invariant_classes() == old(self).invariant_classes(),
            !final(self).has_streaming(),
            final(self).hitl_spec() == old(self).hitl_spec(),
            final(self).rejected_spec() == old(self).rejected_spec(),
    {
        self.streaming_callback = None;
    }

    /// Sets the human-in-the-loop policy.
    pub fn set_hitl_policy(&mut self, policy: EngineHitlPolicy)
        requires
            old(self).wf(),
        ensures
            final(self).wf(),
            final(self).budget_spec() == old(self).budget_spec(),
            final(self).deps_spec() == old(self).deps_spec(),
            final(self).packs_spec() == old(self).packs_spec(),
            final(self).active_spec() == old(self).active_spec(),
            final(self).invariant_classes() == old(self).invariant_classes(),
            final(self).hitl_spec() == Some(policy),
            final(self).gated_spec() == Some(policy.gate_view()),
            final(self).has_streaming() == old(self).has_streaming(),
            final(self).rejected_spec() == old(self).rejected_spec(),
    {
        self.hitl_policy = Some(policy);
    }

    /// Clears the human-in-the-loop policy.
    pub fn clear_hitl_policy(&mut self)
        requires
            old(self).wf(),
        ensures
            final(self).wf(),
            final(self).budget_spec() == old(self).budget_spec(),
            final(self).deps_spec() == old(self).deps_spec(),
            final(self).packs_spec() == old(self).packs_spec(),
            final(self).active_spec() == old(self).active_spec(),
            final(self).invariant_classes() == old(self).invariant_classes(),
            final(self).hitl_spec() is None,
            final(self).gated_spec() is None,
            final(self).has_streaming() == old(self).has_streaming(),
            final(self).rejected_spec() == old(self).rejected_spec(),
    {
        self.hitl_policy = None;
    }

    /// Registers an invariant and returns its identifier.
    pub fn register_invariant<I: Invariant + 'static>(&mut self, item: I) -> (r: InvariantId)
        requires
            old(self).wf(),
            old(self).invariant_classes().len() < u32::MAX,
        ensures
            final(self).wf(),
            r.0 == old(self).invariant_classes().len(),
            final(self).invariant_classes().len() == old(self).invariant_classes().len() + 1,
            final(self).budget_spec() == old(self).budget_spec(),
            final(self).deps_spec() == old(self).deps_spec(),
            final(self).packs_spec() == old(self).packs_spec(),
            final(self).active_spec() == old(self).active_spec(),
    {
        self.invariants.register(item)
    }

    fn register_internal<S: Suggestor + 'static>(&mut self, pack_id: Option<String>, suggestor: S) -> (r: SuggestorId)
        requires
            old(self).wf(),
            old(self).count_spec() < u32::MAX,
        ensures
            final(self).wf(),
            r.0 == old(self).count_spec(),
            final(self).count_spec() == old(self).count_spec() + 1,
            final(self).deps_spec().take(old(self).count_spec() as int) == old(self).deps_spec(),
            final(self).packs_spec() == old(self).packs_spec().push(opt_view(pack_id)),
            final(self).budget_spec() == old(self).budget_spec(),
            final(self).active_spec() == old(self).active_spec(),
            final(self).invariant_classes() == old(self).invariant_classes(),
    {
        let id = SuggestorId(self.next_id);
        self.next_id = self.next_id + 1;
        let deps = copy_keys(suggestor.dependencies());
        self.deps.push(deps);
        let b: Box<dyn Suggestor> = Box::new(suggestor);
        proof {
            lemma_push_len(self.agents@, b);
        }
        self.agents.push(b);
        self.agent_packs.push(pack_id);
        assert(self.deps_spec().take(old(self).count_spec() as int) =~= old(self).deps_spec());
        assert(self.packs_spec() =~= old(self).packs_spec().push(opt_view(pack_id)));
        id
    }

    /// Registers a suggestor and returns its identifier, assigned in registration order.
    pub fn register_suggestor<S: Suggestor + 'static>(&mut self, suggestor: S) -> (r: SuggestorId)
        requires
            old(self).wf(),
            old(self).count_spec() < u32::MAX,
        ensures
            final(self).wf(),
            r.0 == old(self).count_spec(),
            final(self).count_spec() == old(self).count_spec() + 1,
            final(self).deps_spec().take(old(self).count_spec() as int) == old(self).deps_spec(),
            final(self).packs_spec() == old(self).packs_spec().push(None),
            final(self).budget_spec() == old(self).budget_spec(),
            final(self).active_spec() == old(self).active_spec(),
            final(self).invariant_classes() == old(self).invariant_classes(),
    {
        self.register_internal(None, suggestor)
    }

    /// Registers a suggestor as part of a named pack.
    pub fn register_suggestor_in_pack<S: Suggestor + 'static>(&mut self, pack_id: &str, suggestor: S) -> (r: SuggestorId)
        requires
            old(self).wf(),
            old(self).count_spec() < u32::MAX,
        ensures
            final(self).wf(),
            r.0 == old(self).count_spec(),
            final(self).count_spec() == old(self).count_spec() + 1,
            final(self).deps_spec().take(old(self).count_spec() as int) == old(self).deps_spec(),
            final(self).packs_spec() == old(self).packs_spec().push(Some(pack_id@)),
            final(self).budget_spec() == old(self).budget_spec(),
            final(self).active_spec() == old(self).active_spec(),
            final(self).invariant_classes() == old(self).invariant_classes(),
    {
        self.register_internal(Some(owned(pack_id)), suggestor)
    }

    /// Returns the number of registered suggestors.
    pub fn suggestor_count(&self) -> (r: usize)
        requires
            self.wf(),
        ensures
            r == self.count_spec(),
    {
        self.deps.len()
    }

    /// Restricts future runs to the given packs; an empty list removes the restriction.
    pub fn set_active_packs(&mut self, pack_ids: Vec<String>)
        requires
            old(self).wf(),
        ensures
            final(self).wf(),
            pack_ids@.len() == 0 ==> final(self).active_spec() is None,
            pack_ids@.len() > 0 ==> final(self).active_spec() == Some(texts(pack_ids@)),
            final(self).budget_spec() == old(self).budget_spec(),
            final(self).deps_spec() == old(self).deps_spec(),
            final(self).packs_spec() == old(self).packs_spec(),
            final(self).invariant_classes() == old(self).invariant_classes(),
    {
        if pack_ids.len() == 0 {
            self.active_packs = None;
        } else {
            self.active_packs = Some(pack_ids);
        }
    }

    /// Removes any active-pack restriction.
    pub fn clear_active_packs(&mut self)
        requires
            old(self).wf(),
        ensures
            final(self).wf(),
            final(self).active_spec() is None,
            final(self).budget_spec() == old(self).budget_spec(),
            final(self).deps_spec() == old(self).deps_spec(),
            final(self).packs_spec() == old(self).packs_spec(),
            final(self).invariant_classes() == old(self).invariant_classes(),
    {
        self.active_packs = None;
    }

    fn is_agent_active_for_pack(&self, i: usize) -> (r: bool)
        requires
            self.wf(),
            i < self.count_spec(),
        ensures
            r == pack_active(self.packs_spec()[i as int], self.active_spec()),
    {
        match &self.active_packs {
            None => true,
            Some(active) => match &self.agent_packs[i] {
                None => true,
                Some(p) => contains_text(active, p),
            },
        }
    }

    fn wakes_index(&self, i: usize, dirty: &[ContextKey]) -> (r: bool)
        requires
            self.wf(),
            i < self.count_spec(),
        ensures
            r == wakes(self.deps_spec()[i as int], dirty@),
    {
        wakes_on(&self.deps[i], dirty)
    }

    /// The suggestors eligible for these dirty keys given each suggestor's `accepts`
    /// answer: woken by a dirty dependency (or dependency-free), active for the pack
    /// filter, and accepting, in registration order.
    pub fn select_eligible(&self, dirty: &[ContextKey], accepted: &[bool]) -> (r: Vec<SuggestorId>)
        requires
            self.wf(),
            accepted@.len() == self.count_spec(),
        ensures
            r@ == self.eligible(dirty@, accepted@),
    {
        let n = self.deps.len();
        let mut r: Vec<SuggestorId> = Vec::new();
        let mut i: usize = 0;
        while i < n
            invariant
                self.wf(),
                n == self.count_spec(),
                accepted@.len() == n,
                i <= n,
                r@ == eligible_below(self.deps_spec(), self.packs_spec(), self.active_spec(), dirty@, accepted@, i as int),
            decreases n - i,
        {
            if self.wakes_index(i, dirty) && self.is_agent_active_for_pack(i) && accepted[i] {
                r.push(SuggestorId(i as u32));
            }
            i = i + 1;
        }
        r
    }

    /// Finds the suggestors eligible to run: it asks `accepts` of every woken, active
    /// suggestor and selects as [`Engine::select_eligible`] does.
    pub fn find_eligible(&self, context: &ContextState, dirty: &[ContextKey]) -> (r: Vec<SuggestorId>)
        requires
            self.wf(),
        ensures
            exists|accepted: Seq<bool>| accepted.len() == self.count_spec() && r@ == self.eligible(dirty@, accepted),
    {
        let n = self.deps.len();
        let mut accepted: Vec<bool> = Vec::new();
        let mut i: usize = 0;
        while i < n
            invariant
                self.wf(),
                n == self.count_spec(),
                i <= n,
                accepted@.len() == i,
            decreases n - i,
        {
            let mut a = false;
            if self.wakes_index(i, dirty) && self.is_agent_active_for_pack(i) && i < self.agents.len() {
                a = self.agents[i].accepts(context);
            }
            accepted.push(a);
            i = i + 1;
        }
        self.select_eligible(dirty, accepted.as_slice())
    }
}

/// Eligible lists are in strictly increasing order, within the registered range, and
/// hold only woken, active suggestors.
pub proof fn lemma_eligible_shape(
    deps: Seq<Seq<ContextKey>>,
    packs: Seq<Option<Seq<char>>>,
    active: Option<Seq<Seq<char>>>,
    dirty: Seq<ContextKey>,
    accepted: Seq<bool>,
    n: int,
)
    requires
        0 <= n <= u32::MAX,
    ensures
        strictly_increasing(eligible_below(deps, packs, active, dirty, accepted, n)),
        forall|k: int|
            0 <= k < eligible_below(deps, packs, active, dirty, accepted, n).len() ==> {
                let id = (#[trigger] eligible_below(deps, packs, active, dirty, accepted, n)[k]).0 as int;
                &&& 0 <= id < n
                &&& wakes(deps[id], dirty)
                &&& pack_active(packs[id], active)
                &&& accepted[id]
            },
    decreases n,
{
    if n > 0 {
        lemma_eligible_shape(deps, packs, active, dirty, accepted, n - 1);
    }
}


/// The budget error text for too many cycles: `max_cycles (<limit>)`.
pub open spec fn cycles_kind(max: u32) -> Seq<char> {
    "max_cycles ("@ + decimal(max as nat) + ")"@
}

/// The budget error text for too many facts: `max_facts (<count> > <limit>)`.
pub open spec fn facts_kind(count: u64, max: u32) -> Seq<char> {
    "max_facts ("@ + decimal(count as nat) + " > "@ + decimal(max as nat) + ")"@
}

/// The budget error text when the context version cannot grow any further.
pub open spec fn version_kind() -> Seq<char> {
    "max_facts (context version limit)"@
}

/// The identifier of the diagnostic fact recorded for a violation.
pub open spec fn violation_fact_id(name: Seq<char>, version: u64) -> Seq<char> {
    "violation:"@ + name + ":"@ + decimal(version as nat)
}

/// The diagnostic fact recorded for a violation found at a context version.
pub open spec fn violation_fact(err: InvariantError, version: u64) -> FactView {
    FactView {
        key: ContextKey::Diagnostic,
        id: violation_fact_id(err.invariant_name@, version),
        content: invariant_error_text(err.class, err.invariant_name@, err.violation.reason@),
    }
}

fn cycles_exhausted(max: u32) -> (r: ConvergeError)
    ensures
        r matches ConvergeError::BudgetExhausted { kind } && kind@ == cycles_kind(max),
{
    let mut kind = String::new();
    kind.append("max_cycles (");
    push_decimal(&mut kind, max as u64);
    kind.append(")");
    ConvergeError::BudgetExhausted { kind }
}

fn facts_exhausted(count: u64, max: u32) -> (r: ConvergeError)
    ensures
        r matches ConvergeError::BudgetExhausted { kind } && kind@ == facts_kind(count, max),
{
    let mut kind = String::new();
    kind.append("max_facts (");
    push_decimal(&mut kind, count);
    kind.append(" > ");
    push_decimal(&mut kind, max as u64);
    kind.append(")");
    ConvergeError::BudgetExhausted { kind }
}

fn version_exhausted() -> (r: ConvergeError)
    ensures
        r matches ConvergeError::BudgetExhausted { kind } && kind@ == version_kind(),
{
    ConvergeError::BudgetExhausted { kind: owned("max_facts (context version limit)") }
}

/// The number of facts of a context, saturated at `u64::MAX`.
pub open spec fn saturated_total(v: ContextView) -> u64 {
    if fact_total_below(v, key_count()) <= u64::MAX {
        fact_total_below(v, key_count()) as u64
    } else {
        u64::MAX
    }
}

/// The context with the proposals of one key that carry the given identifier removed.
pub open spec fn without_proposal(v: ContextView, key: ContextKey, id: Seq<char>) -> ContextView {
    ContextView {
        proposals: v.proposals.update(key_index(key), crate::context::without_id(crate::context::proposals_of(v, key), id)),
        ..v
    }
}

/// Counts the facts of a context (saturating at `u64::MAX`).
pub fn count_facts(context: &ContextState) -> (r: u64)
    requires
        context.wf(),
    ensures
        r == saturated_total(context@),
{
    let mut total: u64 = 0;
    let mut i: usize = 0;
    while i < 9
        invariant
            i <= 9,
            context.wf(),
            total == (if fact_total_below(context@, i as int) <= u64::MAX {
                fact_total_below(context@, i as int) as u64
            } else {
                u64::MAX
            }),
        decreases 9 - i,
    {
        let n = context.get(ContextKey::from_index(i)).len() as u64;
        proof {
            assert(context@.facts[i as int].len() == n);
        }
        if total > u64::MAX - n {
            total = u64::MAX;
        } else {
            total = total + n;
        }
        i = i + 1;
    }
    total
}

/// The proposals of a list of effects, in order.
pub open spec fn effect_proposals(effects: Seq<(SuggestorId, AgentEffect)>) -> Seq<ProposalView>
    decreases effects.len(),
{
    if effects.len() == 0 {
        Seq::empty()
    } else {
        effect_proposals(effects.drop_last()) + proposal_views(effects.last().1.proposals@)
    }
}

/// One proposal of a merge: a blank one changes nothing; otherwise its fact is added
/// unless the same fact is already held, and a spent version or another fact with its
/// identifier under its key ends the merge (`None`).
pub open spec fn merge_step(v: ContextView, p: ProposalView) -> Option<ContextView> {
    if !promotable(p) {
        Some(v)
    } else if v.version >= u64::MAX {
        None
    } else if facts_of(v, p.key).contains(promoted(p)) {
        Some(v)
    } else if crate::context::has_fact_id(v, p.key, p.id) {
        None
    } else {
        Some(
            ContextView {
                facts: v.facts.update(key_index(p.key), facts_of(v, p.key).push(promoted(p))),
                proposals: v.proposals.update(key_index(p.key), Seq::empty()),
                dirty: v.dirty.push(p.key),
                version: v.version + 1,
            },
        )
    }
}

/// One proposal of a merge that skips the proposals with an identifier in `skip`.
pub open spec fn merge_step_skipping(v: ContextView, p: ProposalView, skip: Seq<Seq<char>>) -> Option<ContextView> {
    if skip.contains(p.id) {
        Some(v)
    } else {
        merge_step(v, p)
    }
}

/// The proposals merged one after another, those with an identifier in `skip` left out,
/// or `None` where the merge ends early.
pub open spec fn merge_all(v: ContextView, ps: Seq<ProposalView>, skip: Seq<Seq<char>>) -> Option<ContextView>
    decreases ps.len(),
{
    if ps.len() == 0 {
        Some(v)
    } else {
        match merge_all(v, ps.drop_last(), skip) {
            Some(w) => merge_step_skipping(w, ps.last(), skip),
            None => None,
        }
    }
}

/// A cycle's merge: dirty keys cleared, then every proposal merged in ascending suggestor
/// order, each suggestor's proposals in the order it made them.
pub open spec fn merged_effects(v: ContextView, effects: Seq<(SuggestorId, AgentEffect)>) -> Option<ContextView> {
    merge_all(ContextView { dirty: Seq::empty(), ..v }, effect_proposals(by_suggestor(effects)), Seq::empty())
}

/// A cycle's merge of effects from distinct suggestors does not depend on the order the
/// effects arrive in: they are merged in ascending suggestor order either way.
pub proof fn law_merge_order_independent(
    v: ContextView,
    a: Seq<(SuggestorId, AgentEffect)>,
    b: Seq<(SuggestorId, AgentEffect)>,
)
    requires
        a.to_multiset() == b.to_multiset(),
        crate::agent::distinct_suggestors(a),
    ensures
        merged_effects(v, a) == merged_effects(v, b),
{
    crate::agent::law_by_suggestor_order_independent(a, b);
}

/// How a cycle ends once its effects are merged into `w`: it converged when no key
/// changed, it stops when the facts exceed the budget, and otherwise the run goes on.
pub enum CycleEnd {
    Converged,
    TooManyFacts,
    Continue,
}

/// How the cycle that left `w` ends.
pub open spec fn cycle_end(budget: Budget, w: ContextView) -> CycleEnd {
    if w.dirty.len() == 0 {
        CycleEnd::Converged
    } else if saturated_total(w) > budget.max_facts {
        CycleEnd::TooManyFacts
    } else {
        CycleEnd::Continue
    }
}

/// The proposals of a cycle's effects, in the order they merge.
pub open spec fn cycle_proposals(effects: Seq<(SuggestorId, AgentEffect)>) -> Seq<ProposalView> {
    effect_proposals(by_suggestor(effects))
}

/// A cycle's merge into `v`, skipping the proposals with an identifier in `skip`.
pub open spec fn cycle_merge(v: ContextView, effects: Seq<(SuggestorId, AgentEffect)>, skip: Seq<Seq<char>>) -> Option<ContextView> {
    merge_all(ContextView { dirty: Seq::empty(), ..v }, cycle_proposals(effects), skip)
}

/// Where a cycle's merge stops for a human decision, or -1.
pub open spec fn cycle_gate(
    effects: Seq<(SuggestorId, AgentEffect)>,
    skip: Seq<Seq<char>>,
    gated: Option<GateView>,
) -> int {
    first_gate(cycle_proposals(effects), skip, gated)
}

/// A cycle's merge into `v` ends early: before its gate, or anywhere when it has none.
pub open spec fn cycle_merge_fails(
    v: ContextView,
    effects: Seq<(SuggestorId, AgentEffect)>,
    skip: Seq<Seq<char>>,
    gated: Option<GateView>,
) -> bool {
    let k = cycle_gate(effects, skip, gated);
    if k < 0 {
        cycle_merge(v, effects, skip) is None
    } else {
        merge_all(ContextView { dirty: Seq::empty(), ..v }, cycle_proposals(effects).take(k), skip) is None
    }
}

/// The context a cycle leaves when the run goes on after it: its merge reaches no gate,
/// succeeds, and changes keys without exceeding the fact budget.
pub open spec fn cycle_goes_on(
    budget: Budget,
    v: ContextView,
    effects: Seq<(SuggestorId, AgentEffect)>,
    skip: Seq<Seq<char>>,
    gated: Option<GateView>,
) -> Option<ContextView> {
    if cycle_gate(effects, skip, gated) >= 0 {
        None
    } else {
        match cycle_merge(v, effects, skip) {
            Some(m) => if cycle_end(budget, m) is Continue {
                Some(m)
            } else {
                None
            },
            None => None,
        }
    }
}

/// The context after cycles whose suggestors returned the given effects, one list per
/// cycle, when the run went on after each of them; `None` when it stopped.
pub open spec fn run_cycles(
    budget: Budget,
    v: ContextView,
    trace: Seq<Seq<(SuggestorId, AgentEffect)>>,
    skip: Seq<Seq<char>>,
    gated: Option<GateView>,
) -> Option<ContextView>
    decreases trace.len(),
{
    if trace.len() == 0 {
        Some(v)
    } else {
        match run_cycles(budget, v, trace.drop_last(), skip, gated) {
            Some(w) => cycle_goes_on(budget, w, trace.last(), skip, gated),
            None => None,
        }
    }
}

/// How a run from `v`, whose cycles after cycle `from` had suggestors that returned the
/// effects of `trace`, may end: the invariants the users registered may stop it at any
/// point; otherwise
/// - it converges in the cycle after the last one, in which nothing was eligible, with
///   the context the cycles left;
/// - or it converges in the last cycle, whose merge changed no key;
/// - or it runs out of cycles once the budget's cycles are spent;
/// - or the last cycle's merge exceeds the fact budget, or fails on a spent version or a
///   conflicting fact;
/// - or the last cycle's merge reaches a proposal that needs a human decision, and the run
///   pauses there with that proposal.
pub open spec fn cycles_outcome(
    budget: Budget,
    v: ContextView,
    from: nat,
    trace: Seq<Seq<(SuggestorId, AgentEffect)>>,
    skip: Seq<Seq<char>>,
    gated: Option<GateView>,
    r: RunResult,
) -> bool {
    let n = trace.len();
    let before = run_cycles(budget, v, trace.drop_last(), skip, gated);
    match r {
        RunResult::Complete(Ok(res)) => {
            ||| (run_cycles(budget, v, trace, skip, gated) == Some(res.context@) && res.cycles == from + n + 1
                && from + n + 1 <= budget.max_cycles)
            ||| (n > 0 && res.cycles == from + n && match before {
                Some(w) => cycle_converges(budget, w, trace.last(), skip, gated, res.context@),
                None => false,
            })
        },
        RunResult::Complete(Err(ConvergeError::BudgetExhausted { kind })) => {
            ||| (run_cycles(budget, v, trace, skip, gated) is Some && kind@ == cycles_kind(budget.max_cycles) && from + n
                >= budget.max_cycles && (n > 0 ==> from + n == budget.max_cycles))
            ||| (n > 0 && match before {
                Some(w) => cycle_overflows(budget, w, trace.last(), skip, gated, kind@),
                None => false,
            })
            ||| (n > 0 && kind@ == version_kind() && match before {
                Some(w) => cycle_merge_fails(w, trace.last(), skip, gated),
                None => false,
            })
        },
        RunResult::Complete(Err(ConvergeError::Conflict { .. })) => n > 0 && match before {
            Some(w) => cycle_merge_fails(w, trace.last(), skip, gated),
            None => false,
        },
        RunResult::Complete(Err(ConvergeError::InvariantViolation { .. })) => true,
        RunResult::Complete(Err(_)) => false,
        RunResult::HitlPause(p) => n > 0 && p.cycle == from + n && match before {
            Some(w) => cycle_pauses(w, trace.last(), skip, gated, p.proposal@),
            None => false,
        },
    }
}

/// The last cycle's merge into `w` reaches no gate and leaves `m`, in which no key changed.
pub open spec fn cycle_converges(
    budget: Budget,
    w: ContextView,
    effects: Seq<(SuggestorId, AgentEffect)>,
    skip: Seq<Seq<char>>,
    gated: Option<GateView>,
    m: ContextView,
) -> bool {
    cycle_gate(effects, skip, gated) < 0 && cycle_merge(w, effects, skip) == Some(m) && cycle_end(budget, m) is Converged
}

/// The last cycle's merge into `w` reaches no gate and leaves more facts than the budget
/// allows; `kind` is the budget error's text.
pub open spec fn cycle_overflows(
    budget: Budget,
    w: ContextView,
    effects: Seq<(SuggestorId, AgentEffect)>,
    skip: Seq<Seq<char>>,
    gated: Option<GateView>,
    kind: Seq<char>,
) -> bool {
    cycle_gate(effects, skip, gated) < 0 && match cycle_merge(w, effects, skip) {
        Some(m) => cycle_end(budget, m) is TooManyFacts && kind == facts_kind(saturated_total(m), budget.max_facts),
        None => false,
    }
}

/// The last cycle's merge into `w` merges every proposal before its gate and stops at the
/// gated proposal `p`.
pub open spec fn cycle_pauses(
    w: ContextView,
    effects: Seq<(SuggestorId, AgentEffect)>,
    skip: Seq<Seq<char>>,
    gated: Option<GateView>,
    p: ProposalView,
) -> bool {
    let k = cycle_gate(effects, skip, gated);
    &&& k >= 0
    &&& merge_all(ContextView { dirty: Seq::empty(), ..w }, cycle_proposals(effects).take(k), skip) is Some
    &&& p == cycle_proposals(effects)[k]
}

/// A run is decided by what its suggestors returned: two runs from the same context,
/// under the same budget, gates and skipped proposals, whose suggestors returned the same
/// effects cycle by cycle, end alike unless a user's invariant stopped one of them. Both
/// converge with the same context in the same cycle, or both pause at the same proposal in
/// the same cycle, or both stop with an error, of the same budget kind when one of them
/// ran out of cycles or facts.
pub proof fn law_run_determined(
    budget: Budget,
    v: ContextView,
    from: nat,
    trace: Seq<Seq<(SuggestorId, AgentEffect)>>,
    skip: Seq<Seq<char>>,
    gated: Option<GateView>,
    r1: RunResult,
    r2: RunResult,
)
    requires
        cycles_outcome(budget, v, from, trace, skip, gated, r1),
        cycles_outcome(budget, v, from, trace, skip, gated, r2),
        !(r1 matches RunResult::Complete(Err(ConvergeError::InvariantViolation { .. }))),
        !(r2 matches RunResult::Complete(Err(ConvergeError::InvariantViolation { .. }))),
    ensures
        r1 matches RunResult::Complete(Ok(a)) ==> (r2 matches RunResult::Complete(Ok(b)) && a.context@ == b.context@
            && a.cycles == b.cycles),
        r1 matches RunResult::HitlPause(p) ==> (r2 matches RunResult::HitlPause(q) && p.proposal@ == q.proposal@
            && p.cycle == q.cycle),
        r1 matches RunResult::Complete(Err(_)) ==> r2 matches RunResult::Complete(Err(_)),
        r1 matches RunResult::Complete(Err(ConvergeError::BudgetExhausted { kind })) ==> (kind@ != version_kind() ==> (
        r2 matches RunResult::Complete(Err(ConvergeError::BudgetExhausted { kind: k2 })) && k2@ == kind@)),
{
    let n = trace.len();
    if n > 0 {
        let before = run_cycles(budget, v, trace.drop_last(), skip, gated);
        assert(trace.drop_last().len() == n - 1);
    }
}

/// The suggestors of a list of effects, in order.
pub open spec fn effect_ids(effects: Seq<(SuggestorId, AgentEffect)>) -> Seq<SuggestorId> {
    effects.map_values(|x: (SuggestorId, AgentEffect)| x.0)
}

/// The effects come, in registration order, from exactly the suggestors eligible for the
/// dirty keys, given some answers of theirs to `accepts`.
pub open spec fn from_eligible(engine: Engine, dirty: Seq<ContextKey>, effects: Seq<(SuggestorId, AgentEffect)>) -> bool {
    exists|accepted: Seq<bool>|
        accepted.len() == engine.count_spec() && #[trigger] engine.eligible(dirty, accepted) == effect_ids(effects)
}

/// Given some answers to `accepts`, no suggestor is eligible for the dirty keys.
pub open spec fn none_eligible(engine: Engine, dirty: Seq<ContextKey>) -> bool {
    exists|accepted: Seq<bool>| accepted.len() == engine.count_spec() && #[trigger] engine.eligible(dirty, accepted).len() == 0
}

/// The keys the first cycle of a run treats as changed: the keys that changed before it,
/// or, when none did, every key that holds a fact.
pub open spec fn initial_dirty(v: ContextView) -> Seq<ContextKey> {
    if v.dirty.len() == 0 {
        crate::context::keys_with_facts_below(v, key_count())
    } else {
        v.dirty
    }
}

/// The keys cycle `i` (counted from zero) of a run starts with as changed.
pub open spec fn dirty_at(
    budget: Budget,
    v: ContextView,
    first: Seq<ContextKey>,
    trace: Seq<Seq<(SuggestorId, AgentEffect)>>,
    skip: Seq<Seq<char>>,
    gated: Option<GateView>,
    i: int,
) -> Seq<ContextKey> {
    if i == 0 {
        first
    } else {
        match run_cycles(budget, v, trace.take(i), skip, gated) {
            Some(w) => w.dirty,
            None => Seq::empty(),
        }
    }
}

/// Every cycle of a run merged the effects of exactly the suggestors eligible for the keys
/// it started with, and at least one was eligible; a run that converged in the cycle after
/// the last one found none eligible there.
pub open spec fn trace_eligible(
    engine: Engine,
    v: ContextView,
    first: Seq<ContextKey>,
    from: nat,
    trace: Seq<Seq<(SuggestorId, AgentEffect)>>,
    skip: Seq<Seq<char>>,
    gated: Option<GateView>,
    r: RunResult,
) -> bool {
    &&& forall|i: int|
        0 <= i < trace.len() ==> from_eligible(
            engine,
            dirty_at(engine.budget_spec(), v, first, trace, skip, gated, i),
            #[trigger] trace[i],
        ) && trace[i].len() > 0
    &&& (r matches RunResult::Complete(Ok(res)) && res.cycles == from + trace.len() + 1) ==> none_eligible(
        engine,
        dirty_at(engine.budget_spec(), v, first, trace, skip, gated, trace.len() as int),
    )
}

/// Without gates, no proposal stops a merge.
pub proof fn lemma_no_gate(ps: Seq<ProposalView>, skip: Seq<Seq<char>>)
    ensures
        first_gate(ps, skip, None) == -1,
    decreases ps.len(),
{
    if ps.len() > 0 {
        lemma_no_gate(ps.drop_last(), skip);
    }
}

/// The `j`-th effect holds the `k`-th proposal of the effects' merge order.
pub open spec fn holds_gated(sorted: Seq<(SuggestorId, AgentEffect)>, k: int, j: int) -> bool {
    &&& 0 <= j < sorted.len()
    &&& effect_proposals(sorted.take(j)).len() <= k < effect_proposals(sorted.take(j + 1)).len()
}

/// Once a merge of a prefix ends early, the whole merge does.
proof fn lemma_merge_all_prefix_none(v: ContextView, ps: Seq<ProposalView>, skip: Seq<Seq<char>>, n: int)
    requires
        0 <= n <= ps.len(),
        merge_all(v, ps.take(n), skip) is None,
    ensures
        merge_all(v, ps, skip) is None,
    decreases ps.len() - n,
{
    if n < ps.len() {
        assert(ps.take(n + 1).drop_last() == ps.take(n));
        lemma_merge_all_prefix_none(v, ps, skip, n + 1);
    } else {
        assert(ps.take(n) == ps);
    }
}

/// Whether a proposal stops a gated merge: not rejected before, under a gated key.
pub open spec fn gate_stops(p: ProposalView, rejected: Seq<Seq<char>>, gated: Option<GateView>) -> bool {
    !rejected.contains(p.id) && gate_applies(gated, p)
}

/// The position of the first proposal that stops a gated merge, or -1 when none does.
pub open spec fn first_gate(ps: Seq<ProposalView>, rejected: Seq<Seq<char>>, gated: Option<GateView>) -> int
    decreases ps.len(),
{
    if ps.len() == 0 {
        -1
    } else if first_gate(ps.drop_last(), rejected, gated) >= 0 {
        first_gate(ps.drop_last(), rejected, gated)
    } else if gate_stops(ps.last(), rejected, gated) {
        ps.len() - 1
    } else {
        -1
    }
}

/// A gate lies within the list, and stops the merge.
proof fn lemma_first_gate_bound(ps: Seq<ProposalView>, rejected: Seq<Seq<char>>, gated: Option<GateView>)
    ensures
        first_gate(ps, rejected, gated) < ps.len(),
        first_gate(ps, rejected, gated) >= 0 ==> gate_stops(ps[first_gate(ps, rejected, gated)], rejected, gated),
    decreases ps.len(),
{
    if ps.len() > 0 {
        lemma_first_gate_bound(ps.drop_last(), rejected, gated);
    }
}

/// A gate found in a prefix is the first gate of the whole list.
proof fn lemma_first_gate_prefix(ps: Seq<ProposalView>, rejected: Seq<Seq<char>>, gated: Option<GateView>, n: int)
    requires
        0 <= n <= ps.len(),
        first_gate(ps.take(n), rejected, gated) >= 0,
    ensures
        first_gate(ps, rejected, gated) == first_gate(ps.take(n), rejected, gated),
    decreases ps.len() - n,
{
    if n < ps.len() {
        assert(ps.take(n + 1).drop_last() == ps.take(n));
        lemma_first_gate_prefix(ps, rejected, gated, n + 1);
    } else {
        assert(ps.take(n) == ps);
    }
}

/// Without a gate in a prefix, the first gate of the whole list lies beyond it, if any.
proof fn lemma_first_gate_beyond(ps: Seq<ProposalView>, rejected: Seq<Seq<char>>, gated: Option<GateView>, n: int)
    requires
        0 <= n <= ps.len(),
        first_gate(ps.take(n), rejected, gated) < 0,
    ensures
        first_gate(ps, rejected, gated) < 0 || first_gate(ps, rejected, gated) >= n,
    decreases ps.len() - n,
{
    if n < ps.len() {
        assert(ps.take(n + 1).drop_last() == ps.take(n));
        if first_gate(ps.take(n + 1), rejected, gated) >= 0 {
            lemma_first_gate_prefix(ps, rejected, gated, n + 1);
        } else {
            lemma_first_gate_beyond(ps, rejected, gated, n + 1);
        }
    } else {
        assert(ps.take(n) == ps);
    }
}

/// A gated merge that ends early at a proposal before any stopping proposal ends early as
/// a whole: with no stopping proposal the full merge fails, otherwise the merge up to the
/// first stopping one does.
proof fn lemma_merge_hitl_ends(
    v: ContextView,
    ps: Seq<ProposalView>,
    rejected: Seq<Seq<char>>,
    gated: Option<GateView>,
    next: Seq<ProposalView>,
)
    requires
        next.len() <= ps.len(),
        ps.take(next.len() as int) == next,
        first_gate(next, rejected, gated) < 0,
        merge_all(v, next, rejected) is None,
    ensures
        first_gate(ps, rejected, gated) < 0 ==> merge_all(v, ps, rejected) is None,
        first_gate(ps, rejected, gated) >= 0 ==> merge_all(
            v,
            ps.take(first_gate(ps, rejected, gated)),
            rejected,
        ) is None,
{
    lemma_first_gate_beyond(ps, rejected, gated, next.len() as int);
    lemma_first_gate_bound(ps, rejected, gated);
    let k = first_gate(ps, rejected, gated);
    if k < 0 {
        lemma_merge_all_prefix_none(v, ps, rejected, next.len() as int);
    } else {
        assert(ps.take(k).take(next.len() as int) =~= next);
        lemma_merge_all_prefix_none(v, ps.take(k), rejected, next.len() as int);
    }
}

/// `a` is a prefix of `b`.
pub open spec fn is_prefix<A>(a: Seq<A>, b: Seq<A>) -> bool {
    a.len() <= b.len() && b.take(a.len() as int) == a
}

proof fn lemma_prefix_trans<A>(a: Seq<A>, b: Seq<A>, c: Seq<A>)
    requires
        is_prefix(a, b),
        is_prefix(b, c),
    ensures
        is_prefix(a, c),
{
    assert forall|i: int| 0 <= i < a.len() implies c.take(a.len() as int)[i] == a[i] by {
        assert(b.take(a.len() as int)[i] == a[i]);
        assert(c.take(b.len() as int)[i] == b[i]);
    }
    assert(c.take(a.len() as int) =~= a);
}

/// The proposals of the first `e` effects come first among those of all effects.
proof fn lemma_effect_proposals_prefix(effects: Seq<(SuggestorId, AgentEffect)>, e: int)
    requires
        0 <= e <= effects.len(),
    ensures
        is_prefix(effect_proposals(effects.take(e)), effect_proposals(effects)),
    decreases effects.len() - e,
{
    if e < effects.len() {
        lemma_effect_proposals_prefix(effects, e + 1);
        let a = effect_proposals(effects.take(e));
        let b = effect_proposals(effects.take(e + 1));
        assert(effects.take(e + 1).drop_last() == effects.take(e));
        assert(b == a + proposal_views(effects[e].1.proposals@));
        assert(b.take(a.len() as int) =~= a);
        lemma_prefix_trans(a, b, effect_proposals(effects));
    } else {
        assert(effects.take(e) == effects);
        assert(effect_proposals(effects).take(effect_proposals(effects).len() as int) =~= effect_proposals(effects));
    }
}

/// A list of effects in strictly increasing suggestor order.
pub open spec fn effects_sorted(effects: Seq<(SuggestorId, AgentEffect)>) -> bool {
    forall|a: int, b: int| 0 <= a < b < effects.len() ==> (#[trigger] effects[a]).0.0 < (#[trigger] effects[b]).0.0
}

/// The kind of content a proposal under a key is validated as.
pub open spec fn proposal_kind(key: ContextKey) -> ProposedContentKind {
    match key {
        ContextKey::Strategies => ProposedContentKind::Plan,
        ContextKey::Evaluations => ProposedContentKind::Evaluation,
        ContextKey::Competitors | ContextKey::Constraints => ProposedContentKind::Classification,
        ContextKey::Proposals => ProposedContentKind::Draft,
        _ => ProposedContentKind::Claim,
    }
}

fn proposal_kind_for(key: ContextKey) -> (r: ProposedContentKind)
    ensures
        r == proposal_kind(key),
{
    match key {
        ContextKey::Strategies => ProposedContentKind::Plan,
        ContextKey::Evaluations => ProposedContentKind::Evaluation,
        ContextKey::Competitors | ContextKey::Constraints => ProposedContentKind::Classification,
        ContextKey::Proposals => ProposedContentKind::Draft,
        _ => ProposedContentKind::Claim,
    }
}

impl Engine {
    /// Validates a proposal and turns it into a fact: blank content is refused; any
    /// other proposal goes through the engine's promotion gate (validated as the kind
    /// its key calls for, approved by the engine, with the observation as evidence),
    /// and the promoted content becomes the fact.
    pub fn promote_proposal(&self, proposal: &ProposedFact, cycle: u32, promoted_by: &str) -> (r: Result<ContextFact, ProposalError>)
        ensures
            r is Ok <==> promotable(proposal@),
            r matches Ok(f) ==> f@ == promoted(proposal@) && (f.promotion matches Some(pr) && engine_promotion(
                pr,
                proposal@,
                cycle,
                promoted_by@,
            )),
            r matches Err(e) ==> e.reason@ == "content cannot be empty"@,
    {
        if is_blank(proposal.content.as_str()) {
            return Err(ProposalError { reason: owned("content cannot be empty") });
        }
        let obs = concat2("obs:", proposal.id.as_str());
        let provenance = ObservationProvenance::new(
            ObservationId::new(obs.as_str()),
            ContentHash::zero(),
            CaptureContext { source: Some(proposal.provenance.clone()) },
        );
        let draft = Proposal::new(
            ProposalId::new(proposal.id.as_str()),
            ProposedContent::new(proposal_kind_for(proposal.key), proposal.content.as_str()).with_confidence(
                proposal.confidence,
            ),
            provenance,
        );
        let gate = PromotionGate::new(GateId::new("engine-promotion"), ValidationPolicy::new());
        let validated = match gate.validate_proposal(draft, &ValidationContext::new()) {
            Ok(v) => v,
            Err(_) => {
                proof {
                    assert(proposal.content@.len() == 0);
                }
                return Err(ProposalError { reason: owned("content cannot be empty") });
            },
        };
        let mut evidence: Vec<EvidenceRef> = Vec::new();
        evidence.push(EvidenceRef::observation(ObservationId::new(obs.as_str())));
        let mut trace_id = owned("cycle-");
        push_decimal(&mut trace_id, cycle as u64);
        let trace = TraceLink::local(LocalTrace::new(trace_id.as_str(), promoted_by));
        let fact = match gate.promote_to_fact(validated, Actor::system("converge-engine"), evidence, trace) {
            Ok(f) => f,
            Err(_) => {
                proof {
                    assert(false);
                }
                return Err(ProposalError { reason: owned("content cannot be empty") });
            },
        };
        let (_, content, record, created_at) = fact.into_parts();
        Ok(
            ContextFact {
                key: proposal.key,
                id: proposal.id.0.clone(),
                content: content.content,
                promotion: Some(FactPromotion { record, created_at }),
            },
        )
    }

    /// Runs the eligible suggestors in order and collects their effects.
    pub fn execute_agents(&self, context: &ContextState, eligible: &Vec<SuggestorId>) -> (r: Vec<(SuggestorId, AgentEffect)>)
        requires
            strictly_increasing(eligible@),
        ensures
            effects_sorted(r@),
            forall|k: int| 0 <= k < r@.len() ==> eligible@.contains(#[trigger] r@[k].0),
            self.wf() && ids_registered(eligible@, self.count_spec()) ==> {
                &&& r@.len() == eligible@.len()
                &&& forall|k: int| 0 <= k < r@.len() ==> (#[trigger] r@[k]).0 == eligible@[k]
            },
    {
        let mut results: Vec<(SuggestorId, AgentEffect)> = Vec::new();
        let mut i: usize = 0;
        while i < eligible.len()
            invariant
                i <= eligible@.len(),
                strictly_increasing(eligible@),
                effects_sorted(results@),
                forall|k: int, q: int|
                    0 <= k < results@.len() && i <= q < eligible@.len() ==> (#[trigger] results@[k]).0.0
                        < (#[trigger] eligible@[q]).0,
                forall|k: int| 0 <= k < results@.len() ==> eligible@.contains(#[trigger] results@[k].0),
                self.wf() && ids_registered(eligible@, self.count_spec()) ==> {
                    &&& results@.len() == i
                    &&& forall|k: int| 0 <= k < results@.len() ==> (#[trigger] results@[k]).0 == eligible@[k]
                },
            decreases eligible.len() - i,
        {
            let id = eligible[i];
            if (id.0 as usize) < self.agents.len() {
                let effect = self.agents[id.0 as usize].execute(context);
                let ghost before = results@;
                results.push((id, effect));
                proof {
                    assert forall|k: int, q: int|
                        0 <= k < results@.len() && i + 1 <= q < eligible@.len() implies (#[trigger] results@[k]).0.0
                            < (#[trigger] eligible@[q]).0 by {
                        assert(eligible@[i as int].0 < eligible@[q].0);
                        if k < before.len() {
                            assert(results@[k] == before[k]);
                        }
                    }
                    assert forall|a: int, b: int| 0 <= a < b < results@.len() implies (#[trigger] results@[a]).0.0 < (#[trigger] results@[b]).0.0 by {
                        if b == before.len() {
                            assert(results@[a] == before[a]);
                        } else {
                            assert(results@[a] == before[a]);
                            assert(results@[b] == before[b]);
                        }
                    }
                    assert(eligible@.contains(eligible@[i as int]));
                    assert forall|k: int| 0 <= k < results@.len() implies eligible@.contains(#[trigger] results@[k].0) by {
                        if k < before.len() {
                            assert(results@[k] == before[k]);
                        }
                    }
                }
            } else {
                proof {
                    assert forall|k: int, q: int|
                        0 <= k < results@.len() && i + 1 <= q < eligible@.len() implies (#[trigger] results@[k]).0.0
                            < (#[trigger] eligible@[q]).0 by {
                        assert(results@[k].0.0 < eligible@[q].0);
                    }
                }
            }
            i = i + 1;
        }
        results
    }

    /// Merges effects into the context serially, in suggestor order: every promotable
    /// proposal becomes a fact, blank ones are dropped. Returns the keys that changed
    /// and the number of promoted proposals.
    #[verifier::loop_isolation(false)]
    pub fn merge_effects(
        &self,
        tc: &mut TrackedContext,
        effects: Vec<(SuggestorId, AgentEffect)>,
        cycle: u32,
    ) -> (r: Result<(Vec<ContextKey>, usize), ConvergeError>)
        requires
            old(tc).wf(),
        ensures
            final(tc).wf(),
            grows(old(tc).context@, final(tc).context@),
            nothing_pending(old(tc).context@) ==> nothing_pending(final(tc).context@),
            r is Ok <==> merged_effects(old(tc).context@, effects@) is Some,
            r matches Ok((dirty, n)) ==> {
                &&& merged_effects(old(tc).context@, effects@) == Some(final(tc).context@)
                &&& dirty@ == final(tc).context@.dirty
                &&& n == saturating_count(promotable_count(effect_proposals(by_suggestor(effects@))) as int)
            },
            r matches Err(e) ==> e is Conflict || (e matches ConvergeError::BudgetExhausted { kind } && kind@ == version_kind()),
    {
        let ghost all = effect_proposals(by_suggestor(effects@));
        let effects = sort_by_suggestor(effects);
        let ghost start = tc.context@;
        tc.clear_dirty();
        let ghost cleared = tc.context@;
        proof {
            lemma_grows_refl(start);
            assert(grows(start, tc.context@));
        }
        let mut facts_added: usize = 0;
        let ghost mut done: Seq<ProposalView> = Seq::empty();
        let mut e: usize = 0;
        while e < effects.len()
            invariant
                e <= effects@.len(),
                all == effect_proposals(effects@),
                tc.wf(),
                grows(start, tc.context@),
                nothing_pending(start) ==> nothing_pending(tc.context@),
                done == effect_proposals(effects@.take(e as int)),
                merge_all(cleared, done, Seq::empty()) == Some(tc.context@),
                facts_added == saturating_count(promotable_count(done) as int),
            decreases effects.len() - e,
        {
            let proposals = &effects[e].1.proposals;
            let ghost outer = done;
            let mut p: usize = 0;
            while p < proposals.len()
                invariant
                    p <= proposals@.len(),
                    proposals@ == effects@[e as int].1.proposals@,
                    tc.wf(),
                    grows(start, tc.context@),
                    nothing_pending(start) ==> nothing_pending(tc.context@),
                    done == outer + proposal_views(proposals@.take(p as int)),
                    merge_all(cleared, done, Seq::empty()) == Some(tc.context@),
                    facts_added == saturating_count(promotable_count(done) as int),
                decreases proposals.len() - p,
            {
                let ghost pv = proposals@[p as int]@;
                let ghost next = done.push(pv);
                proof {
                    assert(proposal_views(proposals@.take(p as int + 1)) == proposal_views(proposals@.take(p as int)).push(pv));
                    assert(outer + proposal_views(proposals@.take(p as int + 1)) == next);
                    assert(next.drop_last() == done);
                    lemma_effect_proposals_prefix(effects@, e as int + 1);
                    assert(effects@.take(e as int + 1).drop_last() == effects@.take(e as int));
                    let whole = effect_proposals(effects@.take(e as int + 1));
                    assert(whole == outer + proposal_views(proposals@));
                    assert(whole.take(next.len() as int) =~= next);
                    lemma_prefix_trans(next, whole, all);
                    assert(all.take(next.len() as int) == next);
                }
                match self.promote_proposal(&proposals[p], cycle, agent_label("agent-", effects[e].0).as_str()) {
                    Ok(fact) => {
                        if let Some(cb) = &self.streaming_callback {
                            cb.on_fact(cycle, &fact);
                        }
                        if tc.context.version() == u64::MAX {
                            proof {
                                lemma_merge_all_prefix_none(cleared, all, Seq::empty(), next.len() as int);
                            }
                            return Err(version_exhausted());
                        }
                        let ghost before = tc.context@;
                        let ghost fv = fact@;
                        proof {
                            tc.lemma_wf();
                            tc.context.lemma_wf();
                        }
                        match tc.add_fact(fact) {
                            Ok(changed) => {
                                proof {
                                    tc.lemma_wf();
                                    tc.context.lemma_wf();
                                    if changed {
                                        lemma_grows_push(before, tc.context@, fv);
                                        lemma_grows_trans(start, before, tc.context@);
                                        lemma_key_index(fv.key);
                                        if facts_of(before, fv.key).contains(fv) {
                                            let j = choose|j: int| 0 <= j < facts_of(before, fv.key).len() && facts_of(before, fv.key)[j] == fv;
                                            assert(crate::context::has_fact_id(before, fv.key, fv.id));
                                        }
                                        if nothing_pending(start) {
                                            assert forall|i: int| 0 <= i < key_count() implies (#[trigger] tc.context@.proposals[i]).len() == 0 by {
                                                if i != key_index(fv.key) {
                                                    assert(tc.context@.proposals[i] == before.proposals[i]);
                                                }
                                            }
                                        }
                                    }
                                    assert(merge_step(before, pv) == Some(tc.context@));
                                    done = next;
                                }
                                if facts_added < usize::MAX {
                                    facts_added = facts_added + 1;
                                }
                            },
                            Err(err) => {
                                proof {
                                    assert(merge_step(before, pv) is None);
                                    lemma_merge_all_prefix_none(cleared, all, Seq::empty(), next.len() as int);
                                }
                                return Err(err);
                            },
                        }
                    },
                    Err(_) => {
                        proof {
                            done = next;
                        }
                    },
                }
                p = p + 1;
            }
            proof {
                assert(proposals@.take(proposals@.len() as int) == proposals@);
                assert(effects@.take(e as int + 1).drop_last() == effects@.take(e as int));
            }
            e = e + 1;
        }
        proof {
            assert(effects@.take(effects@.len() as int) == effects@);
        }
        let dirty = copy_keys(tc.context.dirty_keys());
        Ok((dirty, facts_added))
    }

    /// Closes a cycle whose merge left the context: checks the structural invariants, then
    /// the acceptance invariants when no key changed (the run converged, `Ok(None)`), or
    /// else the semantic invariants and the fact budget (the run goes on with the changed
    /// keys).
    fn close_cycle(&self, tc: &mut TrackedContext, dirty: Vec<ContextKey>) -> (r: Result<Option<Vec<ContextKey>>, ConvergeError>)
        requires
            self.wf(),
            old(tc).wf(),
            dirty@ == old(tc).context@.dirty,
        ensures
            final(tc).wf(),
            keeps(old(tc).context@, final(tc).context@),
            r matches Err(e) ==> run_error(self.budget_spec(), e),
            self.invariant_classes().len() == 0 ==> !(r matches Err(ConvergeError::InvariantViolation { .. })),
            !(r matches Err(ConvergeError::InvariantViolation { .. })) ==> {
                &&& final(tc).context@ == old(tc).context@
                &&& final(tc).clock == old(tc).clock
                &&& final(tc).records() == old(tc).records()
                &&& match cycle_end(self.budget_spec(), old(tc).context@) {
                    CycleEnd::Converged => r matches Ok(None),
                    CycleEnd::TooManyFacts => r matches Err(ConvergeError::BudgetExhausted { kind }) && kind@
                        == facts_kind(saturated_total(old(tc).context@), self.budget_spec().max_facts),
                    CycleEnd::Continue => r matches Ok(Some(d)) && d@ == old(tc).context@.dirty,
                }
            },
    {
        let ghost start = tc.context@;
        match self.enforce(tc, crate::invariants::InvariantClass::Structure) {
            Ok(()) => {},
            Err(e) => {
                return Err(e);
            },
        }
        if dirty.len() == 0 {
            match self.enforce(tc, crate::invariants::InvariantClass::Acceptance) {
                Ok(()) => {},
                Err(e) => {
                    return Err(e);
                },
            }
            return Ok(None);
        }
        match self.enforce(tc, crate::invariants::InvariantClass::Semantic) {
            Ok(()) => {},
            Err(e) => {
                return Err(e);
            },
        }
        proof { tc.lemma_wf(); }
        let count = count_facts(&tc.context);
        if count > self.budget.max_facts as u64 {
            return Err(facts_exhausted(count, self.budget.max_facts));
        }
        Ok(Some(dirty))
    }

    /// One cycle of a run once its suggestors returned their effects: merges them in
    /// ascending suggestor order, then closes the cycle. The run converged on `Ok(None)`,
    /// goes on with the changed keys on `Ok(Some(..))`, and stops on an error.
    pub fn converge_step(
        &self,
        tc: &mut TrackedContext,
        effects: Vec<(SuggestorId, AgentEffect)>,
        cycle: u32,
    ) -> (r: Result<Option<Vec<ContextKey>>, ConvergeError>)
        requires
            self.wf(),
            old(tc).wf(),
        ensures
            final(tc).wf(),
            r matches Err(e) ==> run_error(self.budget_spec(), e),
            merged_effects(old(tc).context@, effects@) is None ==> (r matches Err(e) && (e is Conflict || (
            e matches ConvergeError::BudgetExhausted { kind } && kind@ == version_kind()))),
            self.invariant_classes().len() == 0 ==> !(r matches Err(ConvergeError::InvariantViolation { .. })),
            merged_effects(old(tc).context@, effects@) matches Some(w) ==> (!(r matches Err(
                ConvergeError::InvariantViolation { .. },
            )) ==> {
                &&& final(tc).context@ == w
                &&& match cycle_end(self.budget_spec(), w) {
                    CycleEnd::Converged => r matches Ok(None),
                    CycleEnd::TooManyFacts => r matches Err(ConvergeError::BudgetExhausted { kind }) && kind@
                        == facts_kind(saturated_total(w), self.budget_spec().max_facts),
                    CycleEnd::Continue => r matches Ok(Some(d)) && d@ == w.dirty,
                }
            }),
            r is Ok ==> grows(old(tc).context@, final(tc).context@),
            r is Ok && nothing_pending(old(tc).context@) ==> nothing_pending(final(tc).context@),
    {
        let (dirty, facts_added) = match self.merge_effects(tc, effects, cycle) {
            Ok(x) => x,
            Err(e) => {
                return Err(e);
            },
        };
        self.end_cycle(cycle, facts_added);
        self.close_cycle(tc, dirty)
    }

    /// Records a diagnostic fact describing an invariant violation (any failure to record
    /// it is ignored).
    fn emit_diagnostic(&self, tc: &mut TrackedContext, err: &InvariantError)
        requires
            old(tc).wf(),
        ensures
            final(tc).wf(),
            keeps(old(tc).context@, final(tc).context@),
            old(tc).context@.version < u64::MAX && !crate::context::has_fact_id(
                old(tc).context@,
                ContextKey::Diagnostic,
                violation_fact_id(err.invariant_name@, old(tc).context@.version as u64),
            ) ==> holds_fact(final(tc).context@, violation_fact(*err, old(tc).context@.version as u64)),
    {
        proof { tc.lemma_wf(); tc.context.lemma_wf(); }
        let version = tc.context.version();
        if version == u64::MAX {
            return;
        }
        let mut id = String::new();
        id.append("violation:");
        id.append(err.invariant_name.as_str());
        id.append(":");
        push_decimal(&mut id, version);
        let content = err.to_text();
        let fact = ContextFact { key: ContextKey::Diagnostic, id, content, promotion: None };
        let ghost before = tc.context@;
        let ghost fv = fact@;
        proof {
            assert(fv == violation_fact(*err, version));
        }
        match tc.add_fact(fact) {
            Ok(changed) => {
                proof {
                    if changed {
                        lemma_keeps_push(before, tc.context@, fv);
                        lemma_key_index(fv.key);
                        assert(facts_of(tc.context@, fv.key).last() == fv);
                    } else {
                        assert(tc.context@ == before);
                    }
                }
            },
            Err(_) => {},
        }
    }

    /// Checks one class of invariants; on a violation it records a diagnostic fact and
    /// returns the violation as an error.
    fn enforce(&self, tc: &mut TrackedContext, class: crate::invariants::InvariantClass) -> (r: Result<(), ConvergeError>)
        requires
            self.wf(),
            old(tc).wf(),
        ensures
            final(tc).wf(),
            (forall|i: int| 0 <= i < self.invariant_classes().len() ==> #[trigger] self.invariant_classes()[i] != class)
                ==> r is Ok,
            r is Ok ==> final(tc).context@ == old(tc).context@ && final(tc).clock == old(tc).clock
                && final(tc).records() == old(tc).records(),
            r matches Err(e) ==> (e matches ConvergeError::InvariantViolation { name, class: c, reason, context } && c == class
                && context@ == final(tc).context@
                && (old(tc).context@.version < u64::MAX && !crate::context::has_fact_id(
                    old(tc).context@,
                    ContextKey::Diagnostic,
                    violation_fact_id(name@, old(tc).context@.version as u64),
                ) ==> holds_fact(
                    final(tc).context@,
                    (FactView {
                        key: ContextKey::Diagnostic,
                        id: violation_fact_id(name@, old(tc).context@.version as u64),
                        content: invariant_error_text(class, name@, reason@),
                    }),
                ))),
            keeps(old(tc).context@, final(tc).context@),
    {
        proof {
            assert(self.invariant_classes() == self.invariants.classes_spec());
        }
        match self.invariants.check_class(class, &tc.context) {
            Ok(()) => Ok(()),
            Err(e) => {
                self.emit_diagnostic(tc, &e);
                proof { tc.lemma_wf(); }
                let context = Box::new(tc.context.duplicate());
                Err(ConvergeError::InvariantViolation {
                    name: e.invariant_name,
                    class: e.class,
                    reason: e.violation.reason,
                    context,
                })
            },
        }
    }

    /// Promotes the proposals staged in the context before the run; those with blank
    /// content are dropped.
    #[verifier::loop_isolation(false)]
    fn promote_pending(&self, tc: &mut TrackedContext, cycle: u32) -> (r: Result<usize, ConvergeError>)
        requires
            old(tc).wf(),
        ensures
            final(tc).wf(),
            grows(old(tc).context@, final(tc).context@),
            nothing_pending(final(tc).context@),
            r matches Err(e) ==> e is Conflict || (e matches ConvergeError::BudgetExhausted { kind } && kind@ == version_kind()),
    {
        let ghost start = tc.context@;
        let proposals = tc.drain_proposals();
        proof {
            lemma_grows_refl(start);
            assert(grows(start, tc.context@));
            assert forall|i: int| 0 <= i < key_count() implies (#[trigger] tc.context@.proposals[i]).len() == 0 by {}
        }
        let mut facts_added: usize = 0;
        let mut p: usize = 0;
        while p < proposals.len()
            invariant
                p <= proposals@.len(),
                tc.wf(),
                grows(start, tc.context@),
                nothing_pending(tc.context@),
            decreases proposals.len() - p,
        {
            match self.promote_proposal(&proposals[p], cycle, "context-input") {
                Ok(fact) => {
                    if let Some(cb) = &self.streaming_callback {
                        cb.on_fact(cycle, &fact);
                    }
                    if tc.context.version() == u64::MAX {
                        return Err(version_exhausted());
                    }
                    let ghost before = tc.context@;
                    let ghost fv = fact@;
                    proof {
                        tc.lemma_wf();
                        tc.context.lemma_wf();
                    }
                    match tc.add_fact(fact) {
                        Ok(changed) => {
                            proof {
                                tc.lemma_wf();
                                tc.context.lemma_wf();
                                if changed {
                                    lemma_grows_push(before, tc.context@, fv);
                                    lemma_grows_trans(start, before, tc.context@);
                                    lemma_key_index(fv.key);
                                    assert forall|i: int| 0 <= i < key_count() implies (#[trigger] tc.context@.proposals[i]).len() == 0 by {
                                        if i != key_index(fv.key) {
                                            assert(tc.context@.proposals[i] == before.proposals[i]);
                                        }
                                    }
                                }
                            }
                            if facts_added < usize::MAX {
                                facts_added = facts_added + 1;
                            }
                        },
                        Err(err) => {
                            return Err(err);
                        },
                    }
                },
                Err(_) => {},
            }
            p = p + 1;
        }
        Ok(facts_added)
    }
}


/// What a converged run guarantees of its result: the fixed point was reached within the
/// cycle budget, the starting facts are all still in place, every added fact has
/// content, no proposal is left pending, and the integrity proof commits to the final
/// facts.
pub open spec fn converged_from(start: ContextView, budget: Budget, res: ConvergeResult) -> bool {
    &&& res.converged
    &&& res.stop_reason is Converged
    &&& 1 <= res.cycles <= budget.max_cycles
    &&& res.context.wf()
    &&& grows(start, res.context@)
    &&& nothing_pending(res.context@)
    &&& res.integrity.merkle_root@ == merkle_root_spec(context_hashes(res.context@))
    &&& res.integrity.fact_count == crate::context::fact_total_below(res.context@, key_count())
}

/// The reason a rejection gives, as the diagnostic fact records it.
pub open spec fn rejection_reason(verdict: GateVerdict) -> Seq<char> {
    match verdict {
        GateVerdict::Reject { reason: Some(t) } => t@,
        GateVerdict::Reject { reason: None } => "no reason provided"@,
        GateVerdict::Approve => "rejected"@,
    }
}

/// The diagnostic fact that records a human's rejection of a paused proposal.
pub open spec fn rejection_fact(proposal_id: Seq<char>, decided_by: Seq<char>, verdict: GateVerdict) -> FactView {
    FactView {
        key: ContextKey::Diagnostic,
        id: "hitl-rejected:"@ + proposal_id,
        content: "HITL gate rejected proposal '"@ + proposal_id + "' by "@ + decided_by + ": "@ + rejection_reason(
            verdict,
        ),
    }
}

/// The context a human decision leaves, before the rest of the paused cycle is merged:
/// an approved proposal that is not blank is taken off the pending list and merged as a
/// cycle's proposal is (`None` when that fails); a rejected one is taken off the pending
/// list and the diagnostic fact that records the rejection is added when the version
/// allows and no fact has its identifier.
pub open spec fn decided_context(v: ContextView, p: ProposalView, decision: GateDecision) -> Option<ContextView> {
    let removed = without_proposal(v, p.key, p.id);
    if decision.verdict is Approve {
        if !promotable(p) {
            Some(v)
        } else {
            merge_step(removed, p)
        }
    } else {
        let f = rejection_fact(p.id, decision.decided_by@, decision.verdict);
        if removed.version >= u64::MAX || crate::context::has_fact_id(removed, ContextKey::Diagnostic, f.id) {
            Some(removed)
        } else {
            Some(
                ContextView {
                    facts: removed.facts.update(
                        key_index(ContextKey::Diagnostic),
                        facts_of(removed, ContextKey::Diagnostic).push(f),
                    ),
                    proposals: removed.proposals.update(key_index(ContextKey::Diagnostic), Seq::empty()),
                    dirty: removed.dirty.push(ContextKey::Diagnostic),
                    version: removed.version + 1,
                },
            )
        }
    }
}

/// The run ended with a merge error: a conflicting fact or a spent version.
pub open spec fn merge_error(r: RunResult) -> bool {
    r matches RunResult::Complete(Err(e)) && (e is Conflict || (e matches ConvergeError::BudgetExhausted { kind }
        && kind@ == version_kind()))
}

/// How a resumed run that continues from `v` in cycle `cycle` ends: as a run of the
/// following cycles does, starting with the keys `v` changed, when nothing is pending,
/// some key changed and the facts are within the budget; at once, with `v`, when nothing
/// is pending, no key changed and no invariant is registered.
pub open spec fn continues_from(engine: Engine, v: ContextView, cycle: u32, r: RunResult) -> bool {
    &&& (nothing_pending(v) && v.dirty.len() > 0 && saturated_total(v) <= engine.budget_spec().max_facts ==> exists|
        trace: Seq<Seq<(SuggestorId, AgentEffect)>>,
    |
        #[trigger] cycles_outcome(
            engine.budget_spec(),
            v,
            cycle as nat,
            trace,
            engine.rejected_spec(),
            engine.gated_spec(),
            r,
        ) && trace_eligible(engine, v, v.dirty, cycle as nat, trace, engine.rejected_spec(), engine.gated_spec(), r))
    &&& (nothing_pending(v) && v.dirty.len() == 0 && engine.invariant_classes().len() == 0 ==> (r matches RunResult::Complete(
        Ok(res),
    ) && res.cycles == cycle && res.context@ == v))
}

/// How a resume ends: the decision is applied, the rest of the paused cycle is merged in
/// its order, and the run continues from the paused cycle; a merge error on the way ends it.
pub open spec fn resume_outcome(
    engine: Engine,
    paused: ContextView,
    proposal: ProposalView,
    decision: GateDecision,
    remaining: Seq<(SuggestorId, AgentEffect)>,
    cycle: u32,
    r: RunResult,
) -> bool {
    match decided_context(paused, proposal, decision) {
        None => merge_error(r),
        Some(d) => match merge_all(d, effect_proposals(remaining), Seq::empty()) {
            None => merge_error(r),
            Some(v) => continues_from(engine, v, cycle, r),
        },
    }
}

/// Why a decision for another gate cannot resume a paused run.
pub open spec fn resume_mismatch_reason(decided: Seq<char>, paused: Seq<char>) -> Seq<char> {
    "gate_id mismatch: decision is for '"@ + decided + "' but the run paused at '"@ + paused + "'"@
}

/// The errors a run can end with.
pub open spec fn run_error(budget: Budget, e: ConvergeError) -> bool {
    match e {
        ConvergeError::BudgetExhausted { kind } => kind@ == cycles_kind(budget.max_cycles)
            || (exists|n: u64| n > budget.max_facts && kind@ == facts_kind(n, budget.max_facts))
            || kind@ == version_kind(),
        ConvergeError::InvariantViolation { .. } => true,
        ConvergeError::Conflict { .. } => true,
        _ => false,
    }
}

impl Engine {
    fn finish(&self, tc: TrackedContext, cycles: u32) -> (r: ConvergeResult)
        requires
            tc.wf(),
        ensures
            r.converged,
            r.stop_reason is Converged,
            r.cycles == cycles,
            r.context@ == tc.context@,
            r.context.wf(),
            r.integrity.merkle_root@ == merkle_root_spec(context_hashes(tc.context@)),
            r.integrity.fact_count == crate::context::fact_total_below(tc.context@, key_count()),
            r.integrity.clock_time == tc.clock@,
    {
        proof { tc.lemma_wf(); }
        let integrity = tc.extract_proof();
        ConvergeResult {
            context: tc.context,
            cycles,
            converged: true,
            stop_reason: StopReason::converged(),
            criteria_outcomes: Vec::new(),
            integrity,
        }
    }

    fn start_cycle(&self, cycles: u32)
    {
        if let Some(cb) = &self.streaming_callback {
            cb.on_cycle_start(cycles);
        }
    }

    fn end_cycle(&self, cycles: u32, facts_added: usize)
    {
        if let Some(cb) = &self.streaming_callback {
            cb.on_cycle_end(cycles, facts_added);
        }
    }

    /// Runs the convergence loop until a fixed point or an exhausted budget.
    ///
    /// Staged proposals are promoted first. Then each cycle finds the eligible
    /// suggestors (all keys count as dirty on the first cycle), runs them, and merges
    /// their proposals in suggestor order. Structural invariants are checked after every
    /// merge, acceptance invariants when the run converges (no eligible suggestor, or no
    /// key changed), semantic invariants at the end of every other cycle, and the fact
    /// budget last.
    pub fn run(&self, context: ContextState) -> (r: Result<ConvergeResult, ConvergeError>)
        requires
            self.wf(),
            context.wf(),
        ensures
            r matches Ok(res) ==> converged_from(context@, self.budget_spec(), res),
            r matches Err(e) ==> run_error(self.budget_spec(), e),
            self.budget_spec().max_cycles == 0 ==> r is Err,
            self.budget_spec().max_cycles == 0 && nothing_pending(context@) ==> (r matches Err(
                ConvergeError::BudgetExhausted { kind },
            ) && kind@ == cycles_kind(0)),
            self.count_spec() == 0 && self.invariant_classes().len() == 0 && 1 <= self.budget_spec().max_cycles
                && nothing_pending(context@) ==> (r matches Ok(res) && res.cycles == 1 && res.context@ == context@),
            self.invariant_classes().len() == 0 ==> !(r matches Err(ConvergeError::InvariantViolation { .. })),
            nothing_pending(context@) ==> exists|trace: Seq<Seq<(SuggestorId, AgentEffect)>>|
                #[trigger] cycles_outcome(self.budget_spec(), context@, 0, trace, Seq::empty(), None, RunResult::Complete(r))
                    && trace_eligible(*self, context@, initial_dirty(context@), 0, trace, Seq::empty(), None, RunResult::Complete(r)),
    {
        let mut tc = TrackedContext::new(context);
        let ghost start = tc.context@;
        proof {
            lemma_grows_refl(start);
            tc.lemma_wf();
        }
        if tc.context.has_pending_proposals() {
            tc.clear_dirty();
            let ghost mid = tc.context@;
            assert(mid.facts == start.facts);
            assert(grows(start, mid));
            self.promote_pending(&mut tc, 0)?;
            proof { lemma_grows_trans(start, mid, tc.context@); }
        } else {
            proof {
                assert forall|i: int| 0 <= i < key_count() implies (#[trigger] tc.context@.proposals[i]).len() == 0 by {
                    if tc.context@.proposals[i].len() > 0 {
                        assert(exists|i: int| 0 <= i < key_count() && (#[trigger] tc.context@.proposals[i]).len() > 0);
                    }
                }
            }
        }
        proof { tc.lemma_wf(); }
        let mut dirty: Vec<ContextKey> = if tc.context.dirty_keys().len() == 0 {
            tc.context.all_keys()
        } else {
            copy_keys(tc.context.dirty_keys())
        };
        let mut cycles: u32 = 0;
        let ghost budget = self.budget_spec();
        let ghost skip = Seq::<Seq<char>>::empty();
        let ghost mut trace: Seq<Seq<(SuggestorId, AgentEffect)>> = Seq::empty();
        loop
            invariant
                self.wf(),
                tc.wf(),
                grows(start, tc.context@),
                nothing_pending(tc.context@),
                cycles <= self.budget_spec().max_cycles,
                start == context@,
                budget == self.budget_spec(),
                skip == Seq::<Seq<char>>::empty(),
                cycles == 0 && nothing_pending(context@) ==> tc.context@ == context@,
                self.count_spec() == 0 ==> cycles == 0,
                trace.len() == cycles,
                nothing_pending(context@) ==> run_cycles(budget, context@, trace, skip, None) == Some(tc.context@),
                nothing_pending(context@) ==> dirty@ == dirty_at(budget, context@, initial_dirty(context@), trace, skip, None, trace.len() as int),
                nothing_pending(context@) ==> forall|i: int|
                    0 <= i < trace.len() ==> from_eligible(
                        *self,
                        dirty_at(budget, context@, initial_dirty(context@), trace, skip, None, i),
                        #[trigger] trace[i],
                    ) && trace[i].len() > 0,
            decreases u32::MAX - cycles,
        {
            if cycles == u32::MAX {
                let r = Err(cycles_exhausted(self.budget.max_cycles));
                proof {
                    if nothing_pending(context@) {
                        if nothing_pending(context@) {
                            assert(cycles_outcome(budget, context@, 0, trace, skip, None, RunResult::Complete(r)));
                            assert(trace_eligible(*self, context@, initial_dirty(context@), 0, trace, skip, None, RunResult::Complete(r)));
                        }
                    }
                }
                return r;
            }
            cycles = cycles + 1;
            self.start_cycle(cycles);
            if cycles > self.budget.max_cycles {
                let r = Err(cycles_exhausted(self.budget.max_cycles));
                proof {
                    if nothing_pending(context@) {
                        if nothing_pending(context@) {
                            assert(cycles_outcome(budget, context@, 0, trace, skip, None, RunResult::Complete(r)));
                            assert(trace_eligible(*self, context@, initial_dirty(context@), 0, trace, skip, None, RunResult::Complete(r)));
                        }
                    }
                }
                return r;
            }
            let eligible = self.find_eligible(&tc.context, dirty.as_slice());
            let ghost acc = choose|accepted: Seq<bool>| accepted.len() == self.count_spec() && eligible@ == self.eligible(dirty@, accepted);
            if eligible.len() == 0 {
                proof {
                    assert(self.eligible(dirty@, acc).len() == 0);
                }
                self.end_cycle(cycles, 0);
                match self.enforce(&mut tc, crate::invariants::InvariantClass::Acceptance) {
                    Ok(()) => {},
                    Err(e) => {
                        let r = Err(e);
                        proof {
                            if nothing_pending(context@) {
                                assert(cycles_outcome(budget, context@, 0, trace, skip, None, RunResult::Complete(r)));
                                assert(trace_eligible(*self, context@, initial_dirty(context@), 0, trace, skip, None, RunResult::Complete(r)));
                            }
                        }
                        return r;
                    },
                }
                let r = Ok(self.finish(tc, cycles));
                proof {
                    if nothing_pending(context@) {
                        if nothing_pending(context@) {
                            assert(cycles_outcome(budget, context@, 0, trace, skip, None, RunResult::Complete(r)));
                            assert(trace_eligible(*self, context@, initial_dirty(context@), 0, trace, skip, None, RunResult::Complete(r)));
                        }
                    }
                }
                return r;
            }
            proof {
                let accepted = choose|accepted: Seq<bool>| accepted.len() == self.count_spec() && eligible@ == self.eligible(dirty@, accepted);
                lemma_eligible_shape(self.deps_spec(), self.packs_spec(), self.active_spec(), dirty@, accepted, self.count_spec() as int);
            }
            let effects = self.execute_agents(&tc.context, &eligible);
            let ghost before = tc.context@;
            let ghost step = effects@;
            let ghost next = trace.push(step);
            proof {
                lemma_no_gate(cycle_proposals(step), skip);
                assert(next.drop_last() == trace);
                lemma_eligible_shape(self.deps_spec(), self.packs_spec(), self.active_spec(), dirty@, acc, self.count_spec() as int);
                self.lemma_wf();
                assert(effect_ids(step) =~= eligible@);
                assert(self.eligible(dirty@, acc) == effect_ids(step));
                if nothing_pending(context@) {
                    assert forall|i: int| 0 <= i <= trace.len() implies #[trigger] dirty_at(budget, context@, initial_dirty(context@), next, skip, None, i)
                        == dirty_at(budget, context@, initial_dirty(context@), trace, skip, None, i) by {
                        assert(next.take(i) =~= trace.take(i));
                    }
                    assert(next[trace.len() as int] == step);
                }
            }
            match self.converge_step(&mut tc, effects, cycles) {
                Ok(Some(new_dirty)) => {
                    proof {
                        lemma_grows_trans(start, before, tc.context@);
                        assert(next.take(next.len() as int) =~= next);
                        trace = next;
                    }
                    dirty = new_dirty;
                },
                Ok(None) => {
                    proof { lemma_grows_trans(start, before, tc.context@); }
                    let r = Ok(self.finish(tc, cycles));
                    proof {
                        if nothing_pending(context@) {
                        if nothing_pending(context@) {
                            assert(cycles_outcome(budget, context@, 0, next, skip, None, RunResult::Complete(r)));
                            assert(trace_eligible(*self, context@, initial_dirty(context@), 0, next, skip, None, RunResult::Complete(r)));
                        }
                    }
                    }
                    return r;
                },
                Err(e) => {
                    let r = Err(e);
                    proof {
                        if nothing_pending(context@) {
                        if nothing_pending(context@) {
                            assert(cycles_outcome(budget, context@, 0, next, skip, None, RunResult::Complete(r)));
                            assert(trace_eligible(*self, context@, initial_dirty(context@), 0, next, skip, None, RunResult::Complete(r)));
                        }
                    }
                    }
                    return r;
                },
            }
        }
    }
}


/// State returned when convergence pauses at a human-in-the-loop gate.
#[derive(Debug)]
pub struct HitlPause {
    /// The approval request to present to the human.
    pub request: GateRequest,
    /// The context at the time of the pause, with the gated proposal staged.
    pub context: ContextState,
    /// Cycle at which convergence was paused.
    pub cycle: u32,
    /// The proposal awaiting approval.
    pub proposal: ProposedFact,
    /// Suggestor that produced the proposal.
    pub agent_id: SuggestorId,
    /// Dirty keys of the cycle in progress.
    pub dirty_keys: Vec<ContextKey>,
    /// Effects still to merge after the paused proposal.
    pub remaining_effects: Vec<(SuggestorId, AgentEffect)>,
    /// Facts already added in the current merge pass.
    pub facts_added: usize,
    /// Audit trail of gate events.
    pub gate_events: Vec<GateEvent>,
}

/// The result of running the engine: complete, or paused at a gate.
#[derive(Debug)]
pub enum RunResult {
    /// The engine completed (converged or failed).
    Complete(Result<ConvergeResult, ConvergeError>),
    /// The engine paused at a gate awaiting human approval.
    HitlPause(Box<HitlPause>),
}

enum MergeResult {
    Complete(Result<(Vec<ContextKey>, usize), ConvergeError>),
    HitlPause(Box<HitlPause>),
}

/// No fact added since `a` carries an identifier from `banned`.
pub open spec fn avoids(a: ContextView, b: ContextView, banned: Seq<Seq<char>>) -> bool {
    forall|i: int, j: int|
        0 <= i < key_count() && a.facts[i].len() <= j < b.facts[i].len() ==> !banned.contains(
            (#[trigger] b.facts[i][j]).id,
        )
}

proof fn lemma_avoids_trans(a: ContextView, b: ContextView, c: ContextView, banned: Seq<Seq<char>>)
    requires
        grows(a, b),
        grows(b, c),
        avoids(a, b, banned),
        avoids(b, c, banned),
    ensures
        avoids(a, c, banned),
{
    assert forall|i: int, j: int|
        0 <= i < key_count() && a.facts[i].len() <= j < c.facts[i].len() implies !banned.contains(
            (#[trigger] c.facts[i][j]).id,
        ) by {
        assert(a.facts[i].len() <= b.facts[i].len());
        if j < b.facts[i].len() {
            assert(c.facts[i][j] == b.facts[i][j]);
        }
    }
}

proof fn lemma_avoids_push(a: ContextView, b: ContextView, f: FactView, banned: Seq<Seq<char>>)
    requires
        a.facts.len() == key_count(),
        !banned.contains(f.id),
        b.facts == a.facts.update(key_index(f.key), facts_of(a, f.key).push(f)),
    ensures
        avoids(a, b, banned),
{
    lemma_key_index(f.key);
    let k = key_index(f.key);
    assert forall|i: int, j: int|
        0 <= i < key_count() && a.facts[i].len() <= j < b.facts[i].len() implies !banned.contains(
            (#[trigger] b.facts[i][j]).id,
        ) by {
        if i == k {
            assert(b.facts[i][j] == f);
        }
    }
}

/// The outcome of a run that may pause: a converged result within the budget, an error
/// of the run, or a pause at a gate on a gated key within the budget.
pub open spec fn hitl_outcome(engine: Engine, start: ContextView, r: RunResult) -> bool {
    match r {
        RunResult::Complete(Ok(res)) => converged_from(start, engine.budget_spec(), res),
        RunResult::Complete(Err(e)) => run_error(engine.budget_spec(), e),
        RunResult::HitlPause(p) => {
            &&& p.context.wf()
            &&& 1 <= p.cycle <= engine.budget_spec().max_cycles
            &&& gate_applies(engine.gated_spec(), p.proposal@)
            &&& !engine.rejected_spec().contains(p.proposal@.id)
        },
    }
}

fn agent_label(prefix: &str, id: SuggestorId) -> (r: String)
    ensures
        r@ == prefix@ + decimal(id.0 as nat),
{
    let mut s = owned(prefix);
    push_decimal(&mut s, id.0 as u64);
    s
}

impl Engine {
    /// The keys gated by the human-in-the-loop policy, if one is set.
    pub closed spec fn gated_spec(&self) -> Option<GateView> {
        match self.hitl_policy {
            Some(p) => Some(p.gate_view()),
            None => None,
        }
    }

    /// How long a gate waits for a human, and what happens then.
    pub closed spec fn gate_timeout(&self) -> TimeoutPolicy {
        match self.hitl_policy {
            Some(p) => p.timeout,
            None => TimeoutPolicy { timeout_secs: 1800, action: crate::hitl::TimeoutAction::Reject },
        }
    }

    /// The identifiers of proposals a human rejected.
    pub closed spec fn rejected_spec(&self) -> Seq<Seq<char>> {
        texts(self.rejected_proposals@)
    }

    /// Merges effects like [`Engine::merge_effects`], but skips proposals a human
    /// rejected before and pauses at the first proposal the policy gates, handing back
    /// the effects not yet merged.
    #[verifier::loop_isolation(false)]
    fn merge_effects_hitl(&self, tc: &mut TrackedContext, effects: Vec<(SuggestorId, AgentEffect)>, cycle: u32) -> (r: MergeResult)
        requires
            old(tc).wf(),
        ensures
            final(tc).wf(),
            grows(old(tc).context@, final(tc).context@),
            avoids(old(tc).context@, final(tc).context@, self.rejected_spec()),
            r matches MergeResult::Complete(Ok((dirty, n))) ==> dirty@ == final(tc).context@.dirty && (
            nothing_pending(old(tc).context@) ==> nothing_pending(final(tc).context@)),
            r matches MergeResult::Complete(Err(e)) ==> e is Conflict || (e matches ConvergeError::BudgetExhausted { kind } && kind@ == version_kind()),
            r matches MergeResult::HitlPause(p) ==> {
                &&& p.context.wf()
                &&& p.cycle == cycle
                &&& gate_applies(self.gated_spec(), p.proposal@)
                &&& !self.rejected_spec().contains(p.proposal@.id)
                &&& p.request.gate_id@ == "hitl-"@ + decimal(cycle as nat) + "-"@ + decimal(p.agent_id.0 as nat) + "-"@
                    + p.proposal@.id
                &&& p.request.proposal_id@ == p.proposal@.id
                &&& p.request.summary@ == p.proposal@.content
                &&& p.request.agent_id@ == "agent-"@ + decimal(p.agent_id.0 as nat)
                &&& p.request.rationale matches Some(t) && t@ == p.proposal@.provenance
                &&& p.request.cycle == cycle
                &&& p.request.timeout == self.gate_timeout()
                &&& p.dirty_keys@ == final(tc).context@.dirty
                &&& exists|j: int|
                    #[trigger] holds_gated(
                        by_suggestor(effects@),
                        first_gate(effect_proposals(by_suggestor(effects@)), self.rejected_spec(), self.gated_spec()),
                        j,
                    ) && p.agent_id == by_suggestor(effects@)[j].0 && p.remaining_effects@ == by_suggestor(
                        effects@,
                    ).subrange(j + 1, by_suggestor(effects@).len() as int)
            },
            ({
                let ps = effect_proposals(by_suggestor(effects@));
                let k = first_gate(ps, self.rejected_spec(), self.gated_spec());
                let cleared = ContextView { dirty: Seq::empty(), ..old(tc).context@ };
                &&& k < 0 ==> !(r is HitlPause)
                &&& r matches MergeResult::Complete(Ok(_)) ==> k < 0
                &&& k < 0 ==> (r is Complete && r->Complete_0 is Ok <==> merge_all(cleared, ps, self.rejected_spec()) is Some)
                &&& r matches MergeResult::Complete(Ok(_)) ==> Some(final(tc).context@) == merge_all(
                    cleared,
                    ps,
                    self.rejected_spec(),
                )
                &&& k >= 0 ==> (r is HitlPause <==> merge_all(cleared, ps.take(k), self.rejected_spec()) is Some)
                &&& r matches MergeResult::HitlPause(p) ==> {
                    &&& 0 <= k < ps.len()
                    &&& p.proposal@ == ps[k]
                    &&& p.context@ == final(tc).context@
                    &&& merge_all(cleared, ps.take(k), self.rejected_spec()) matches Some(w) && exists|o: Result<bool, ConvergeError>|
                        crate::context::proposal_add_outcome(w, ps[k], o, final(tc).context@)
                }
            }),
    {
        let ghost start = tc.context@;
        let ghost all = effect_proposals(by_suggestor(effects@));
        let ghost rj = self.rejected_spec();
        let ghost gd = self.gated_spec();
        let mut effects = sort_by_suggestor(effects);
        let ghost sorted = effects@;
        tc.clear_dirty();
        let ghost cleared = tc.context@;
        proof {
            lemma_grows_refl(start);
            assert(grows(start, tc.context@));
        }
        let mut facts_added: usize = 0;
        let ghost mut done: Seq<ProposalView> = Seq::empty();
        let mut idx: usize = 0;
        let ghost n = effects@.len();
        while idx < effects.len()
            invariant
                idx <= effects@.len(),
                effects@.len() == n,
                n == sorted.len(),
                all == effect_proposals(sorted),
                rj == self.rejected_spec(),
                gd == self.gated_spec(),
                forall|j: int| idx <= j < n ==> effects@[j] == sorted[j],
                tc.wf(),
                grows(start, tc.context@),
                avoids(start, tc.context@, self.rejected_spec()),
                nothing_pending(start) ==> nothing_pending(tc.context@),
                done == effect_proposals(sorted.take(idx as int)),
                merge_all(cleared, done, rj) == Some(tc.context@),
                first_gate(done, rj, gd) < 0,
            decreases effects.len() - idx,
        {
            let id = effects[idx].0;
            let mut proposals: Vec<ProposedFact> = Vec::new();
            let ghost here = effects@[idx as int];
            std::mem::swap(&mut proposals, &mut effects[idx].1.proposals);
            assert(effects@.len() == n);
            assert(proposals@ == sorted[idx as int].1.proposals@);
            let ghost outer = done;
            let mut p: usize = 0;
            while p < proposals.len()
                invariant
                    p <= proposals@.len(),
                    idx < effects@.len(),
                    effects@.len() == n,
                    n == sorted.len(),
                    all == effect_proposals(sorted),
                    rj == self.rejected_spec(),
                    gd == self.gated_spec(),
                    forall|j: int| idx < j < n ==> effects@[j] == sorted[j],
                    proposals@ == sorted[idx as int].1.proposals@,
                    tc.wf(),
                    grows(start, tc.context@),
                    avoids(start, tc.context@, self.rejected_spec()),
                    nothing_pending(start) ==> nothing_pending(tc.context@),
                    outer == effect_proposals(sorted.take(idx as int)),
                    done == outer + proposal_views(proposals@.take(p as int)),
                    merge_all(cleared, done, rj) == Some(tc.context@),
                    first_gate(done, rj, gd) < 0,
                decreases proposals.len() - p,
            {
                let ghost pv = proposals@[p as int]@;
                let ghost next = done.push(pv);
                proof {
                    assert(proposal_views(proposals@.take(p as int + 1)) == proposal_views(proposals@.take(p as int)).push(pv));
                    assert(outer + proposal_views(proposals@.take(p as int + 1)) == next);
                    assert(next.drop_last() == done);
                    lemma_effect_proposals_prefix(sorted, idx as int + 1);
                    assert(sorted.take(idx as int + 1).drop_last() == sorted.take(idx as int));
                    let whole = effect_proposals(sorted.take(idx as int + 1));
                    assert(whole == outer + proposal_views(proposals@));
                    assert(whole.take(next.len() as int) =~= next);
                    lemma_prefix_trans(next, whole, all);
                    assert(all.take(next.len() as int) == next);
                    assert(texts(self.rejected_proposals@) == self.rejected_spec());
                }
                if !contains_text(&self.rejected_proposals, &proposals[p].id.0) {
                    let gated = match &self.hitl_policy {
                        Some(policy) => policy.requires_approval(&proposals[p]),
                        None => false,
                    };
                    if gated {
                        let timeout = match &self.hitl_policy {
                            Some(policy) => policy.timeout,
                            None => TimeoutPolicy { timeout_secs: 1800, action: crate::hitl::TimeoutAction::Reject },
                        };
                        let mut gid = String::new();
                        gid.append("hitl-");
                        push_decimal(&mut gid, cycle as u64);
                        gid.append("-");
                        push_decimal(&mut gid, id.0 as u64);
                        gid.append("-");
                        gid.append(proposals[p].id.as_str());
                        let request = GateRequest {
                            gate_id: GateId(gid),
                            proposal_id: proposals[p].id.duplicate(),
                            summary: proposals[p].content.clone(),
                            agent_id: agent_label("agent-", id),
                            rationale: Some(proposals[p].provenance.clone()),
                            context_data: Vec::new(),
                            cycle,
                            requested_at: Timestamp::now(),
                            timeout,
                        };
                        let event = GateEvent::requested(
                            request.gate_id.duplicate(),
                            request.proposal_id.duplicate(),
                            request.agent_id.clone(),
                        );
                        let ghost before = tc.context@;
                        let added = tc.add_proposal(proposals[p].duplicate());
                        proof {
                            assert(crate::context::proposal_add_outcome(before, pv, added, tc.context@));
                            assert(first_gate(next, rj, gd) == done.len());
                            lemma_first_gate_prefix(all, rj, gd, next.len() as int);
                            assert(all.take(done.len() as int) =~= done);
                            assert(all[done.len() as int] == next[done.len() as int]);
                            assert(grows(before, tc.context@));
                            lemma_grows_trans(start, before, tc.context@);
                            assert(avoids(before, tc.context@, self.rejected_spec()));
                            lemma_avoids_trans(start, before, tc.context@, self.rejected_spec());
                            tc.lemma_wf();
                        }
                        let ghost before_split = effects@;
                        let remaining = effects.split_off(idx + 1);
                        proof {
                            assert(remaining@ =~= sorted.subrange(idx as int + 1, sorted.len() as int));
                            assert(sorted[idx as int].0 == id);
                            assert(effect_proposals(sorted.take(idx as int + 1)) == outer + proposal_views(proposals@));
                            assert(holds_gated(sorted, done.len() as int, idx as int));
                        }
                        let proposal = proposals.remove(p);
                        let mut gate_events: Vec<GateEvent> = Vec::new();
                        gate_events.push(event);
                        let pause = HitlPause {
                            request,
                            context: tc.context.duplicate(),
                            cycle,
                            proposal,
                            agent_id: id,
                            dirty_keys: copy_keys(tc.context.dirty_keys()),
                            remaining_effects: remaining,
                            facts_added,
                            gate_events,
                        };
                        return MergeResult::HitlPause(Box::new(pause));
                    }
                    match self.promote_proposal(&proposals[p], cycle, agent_label("agent-", id).as_str()) {
                        Ok(fact) => {
                            if let Some(cb) = &self.streaming_callback {
                                cb.on_fact(cycle, &fact);
                            }
                            if tc.context.version() == u64::MAX {
                                proof {
                                    assert(merge_all(cleared, next, rj) is None);
                                    lemma_merge_hitl_ends(cleared, all, rj, gd, next);
                                }
                                return MergeResult::Complete(Err(version_exhausted()));
                            }
                            let ghost before = tc.context@;
                            let ghost fv = fact@;
                            proof {
                                tc.lemma_wf();
                                tc.context.lemma_wf();
                                assert(fv.id == proposals@[p as int].id@);
                                assert(texts(self.rejected_proposals@) == self.rejected_spec());
                            }
                            match tc.add_fact(fact) {
                                Ok(changed) => {
                                    proof {
                                        tc.lemma_wf();
                                        tc.context.lemma_wf();
                                        if changed {
                                            lemma_grows_push(before, tc.context@, fv);
                                            lemma_grows_trans(start, before, tc.context@);
                                            lemma_avoids_push(before, tc.context@, fv, self.rejected_spec());
                                            lemma_avoids_trans(start, before, tc.context@, self.rejected_spec());
                                            lemma_key_index(fv.key);
                                            if facts_of(before, fv.key).contains(fv) {
                                                let j = choose|j: int| 0 <= j < facts_of(before, fv.key).len() && facts_of(before, fv.key)[j] == fv;
                                                assert(crate::context::has_fact_id(before, fv.key, fv.id));
                                            }
                                            if nothing_pending(start) {
                                                assert forall|i: int| 0 <= i < key_count() implies (#[trigger] tc.context@.proposals[i]).len() == 0 by {
                                                    if i != key_index(fv.key) {
                                                        assert(tc.context@.proposals[i] == before.proposals[i]);
                                                    }
                                                }
                                            }
                                        }
                                    }
                                    proof {
                                        assert(merge_step(before, pv) == Some(tc.context@));
                                        assert(merge_all(cleared, next, rj) == Some(tc.context@));
                                        done = next;
                                    }
                                    if facts_added < usize::MAX {
                                        facts_added = facts_added + 1;
                                    }
                                },
                                Err(err) => {
                                    proof {
                                        assert(merge_step(before, pv) is None);
                                        assert(merge_all(cleared, next, rj) is None);
                                        lemma_merge_hitl_ends(cleared, all, rj, gd, next);
                                    }
                                    return MergeResult::Complete(Err(err));
                                },
                            }
                        },
                        Err(_) => {
                            proof {
                                assert(merge_all(cleared, next, rj) == Some(tc.context@));
                                done = next;
                            }
                        },
                    }
                } else {
                    proof {
                        assert(merge_all(cleared, next, rj) == Some(tc.context@));
                        done = next;
                    }
                }
                p = p + 1;
            }
            proof {
                assert(proposals@.take(proposals@.len() as int) == proposals@);
                assert(sorted.take(idx as int + 1).drop_last() == sorted.take(idx as int));
            }
            idx = idx + 1;
        }
        proof {
            assert(sorted.take(n as int) == sorted);
        }
        let dirty = copy_keys(tc.context.dirty_keys());
        MergeResult::Complete(Ok((dirty, facts_added)))
    }

    /// Runs the convergence loop with human-in-the-loop gates: like [`Engine::run`], but a
    /// proposal under a gated key pauses the run and is handed back for a decision.
    pub fn run_with_hitl(&self, context: ContextState) -> (r: RunResult)
        requires
            self.wf(),
            context.wf(),
        ensures
            hitl_outcome(*self, context@, r),
            self.budget_spec().max_cycles == 0 ==> r matches RunResult::Complete(Err(_)),
            self.budget_spec().max_cycles == 0 && nothing_pending(context@) ==> (r matches RunResult::Complete(
                Err(ConvergeError::BudgetExhausted { kind }),
            ) && kind@ == cycles_kind(0)),
            self.count_spec() == 0 && self.invariant_classes().len() == 0 && 1 <= self.budget_spec().max_cycles
                && nothing_pending(context@) ==> (r matches RunResult::Complete(Ok(res)) && res.cycles == 1
                && res.context@ == context@),
            self.invariant_classes().len() == 0 ==> !(r matches RunResult::Complete(
                Err(ConvergeError::InvariantViolation { .. }),
            )),
            nothing_pending(context@) ==> exists|trace: Seq<Seq<(SuggestorId, AgentEffect)>>|
                #[trigger] cycles_outcome(self.budget_spec(), context@, 0, trace, self.rejected_spec(), self.gated_spec(), r)
                    && trace_eligible(*self, context@, initial_dirty(context@), 0, trace, self.rejected_spec(), self.gated_spec(), r),
    {
        let mut tc = TrackedContext::new(context);
        let ghost start = tc.context@;
        proof {
            lemma_grows_refl(start);
            tc.lemma_wf();
        }
        if tc.context.has_pending_proposals() {
            tc.clear_dirty();
            let ghost mid = tc.context@;
            assert(mid.facts == start.facts);
            assert(grows(start, mid));
            match self.promote_pending(&mut tc, 0) {
                Ok(_) => {},
                Err(e) => {
                    return RunResult::Complete(Err(e));
                },
            }
            proof { lemma_grows_trans(start, mid, tc.context@); }
        } else {
            proof {
                assert forall|i: int| 0 <= i < key_count() implies (#[trigger] tc.context@.proposals[i]).len() == 0 by {
                    if tc.context@.proposals[i].len() > 0 {
                        assert(exists|i: int| 0 <= i < key_count() && (#[trigger] tc.context@.proposals[i]).len() > 0);
                    }
                }
            }
        }
        proof { tc.lemma_wf(); }
        let mut dirty: Vec<ContextKey> = if tc.context.dirty_keys().len() == 0 {
            tc.context.all_keys()
        } else {
            copy_keys(tc.context.dirty_keys())
        };
        let mut cycles: u32 = 0;
        let ghost budget = self.budget_spec();
        let ghost skip = self.rejected_spec();
        let ghost gated = self.gated_spec();
        let ghost mut trace: Seq<Seq<(SuggestorId, AgentEffect)>> = Seq::empty();
        loop
            invariant
                self.wf(),
                tc.wf(),
                grows(start, tc.context@),
                nothing_pending(tc.context@),
                cycles <= self.budget_spec().max_cycles,
                start == context@,
                budget == self.budget_spec(),
                skip == self.rejected_spec(),
                gated == self.gated_spec(),
                cycles == 0 && nothing_pending(context@) ==> tc.context@ == context@,
                self.count_spec() == 0 ==> cycles == 0,
                trace.len() == cycles,
                nothing_pending(context@) ==> run_cycles(budget, context@, trace, skip, gated) == Some(tc.context@),
                nothing_pending(context@) ==> dirty@ == dirty_at(budget, context@, initial_dirty(context@), trace, skip, gated, trace.len() as int),
                nothing_pending(context@) ==> forall|i: int|
                    0 <= i < trace.len() ==> from_eligible(
                        *self,
                        dirty_at(budget, context@, initial_dirty(context@), trace, skip, gated, i),
                        #[trigger] trace[i],
                    ) && trace[i].len() > 0,
            decreases u32::MAX - cycles,
        {
            if cycles == u32::MAX {
                let r = RunResult::Complete(Err(cycles_exhausted(self.budget.max_cycles)));
                proof {
                    if nothing_pending(context@) {
                        assert(cycles_outcome(budget, context@, 0, trace, skip, gated, r));
                        assert(trace_eligible(*self, context@, initial_dirty(context@), 0, trace, skip, gated, r));
                    }
                }
                return r;
            }
            cycles = cycles + 1;
            self.start_cycle(cycles);
            if cycles > self.budget.max_cycles {
                let r = RunResult::Complete(Err(cycles_exhausted(self.budget.max_cycles)));
                proof {
                    if nothing_pending(context@) {
                        assert(cycles_outcome(budget, context@, 0, trace, skip, gated, r));
                        assert(trace_eligible(*self, context@, initial_dirty(context@), 0, trace, skip, gated, r));
                    }
                }
                return r;
            }
            let eligible = self.find_eligible(&tc.context, dirty.as_slice());
            let ghost acc = choose|accepted: Seq<bool>| accepted.len() == self.count_spec() && eligible@ == self.eligible(dirty@, accepted);
            if eligible.len() == 0 {
                proof {
                    assert(self.eligible(dirty@, acc).len() == 0);
                }
                self.end_cycle(cycles, 0);
                match self.enforce(&mut tc, crate::invariants::InvariantClass::Acceptance) {
                    Ok(()) => {},
                    Err(e) => {
                        let r = RunResult::Complete(Err(e));
                        proof {
                            if nothing_pending(context@) {
                                assert(cycles_outcome(budget, context@, 0, trace, skip, gated, r));
                                assert(trace_eligible(*self, context@, initial_dirty(context@), 0, trace, skip, gated, r));
                            }
                        }
                        return r;
                    },
                }
                let r = RunResult::Complete(Ok(self.finish(tc, cycles)));
                proof {
                    if nothing_pending(context@) {
                        assert(cycles_outcome(budget, context@, 0, trace, skip, gated, r));
                        assert(trace_eligible(*self, context@, initial_dirty(context@), 0, trace, skip, gated, r));
                    }
                }
                return r;
            }
            proof {
                let accepted = choose|accepted: Seq<bool>| accepted.len() == self.count_spec() && eligible@ == self.eligible(dirty@, accepted);
                lemma_eligible_shape(self.deps_spec(), self.packs_spec(), self.active_spec(), dirty@, accepted, self.count_spec() as int);
            }
            let effects = self.execute_agents(&tc.context, &eligible);
            let ghost before = tc.context@;
            let ghost step = effects@;
            let ghost next = trace.push(step);
            proof {
                assert(next.drop_last() == trace);
                lemma_eligible_shape(self.deps_spec(), self.packs_spec(), self.active_spec(), dirty@, acc, self.count_spec() as int);
                self.lemma_wf();
                assert(effect_ids(step) =~= eligible@);
                assert(self.eligible(dirty@, acc) == effect_ids(step));
                if nothing_pending(context@) {
                    assert forall|i: int| 0 <= i <= trace.len() implies #[trigger] dirty_at(budget, context@, initial_dirty(context@), next, skip, gated, i)
                        == dirty_at(budget, context@, initial_dirty(context@), trace, skip, gated, i) by {
                        assert(next.take(i) =~= trace.take(i));
                    }
                    assert(next[trace.len() as int] == step);
                }
            }
            let new_dirty = match self.merge_effects_hitl(&mut tc, effects, cycles) {
                MergeResult::Complete(Ok((new_dirty, facts_added))) => {
                    proof { lemma_grows_trans(start, before, tc.context@); }
                    self.end_cycle(cycles, facts_added);
                    new_dirty
                },
                MergeResult::Complete(Err(e)) => {
                    let r = RunResult::Complete(Err(e));
                    proof {
                        if nothing_pending(context@) {
                            assert(cycles_outcome(budget, context@, 0, next, skip, gated, r));
                            assert(trace_eligible(*self, context@, initial_dirty(context@), 0, next, skip, gated, r));
                        }
                    }
                    return r;
                },
                MergeResult::HitlPause(pause) => {
                    let r = RunResult::HitlPause(pause);
                    proof {
                        if nothing_pending(context@) {
                            assert(cycles_outcome(budget, context@, 0, next, skip, gated, r));
                            assert(trace_eligible(*self, context@, initial_dirty(context@), 0, next, skip, gated, r));
                        }
                    }
                    return r;
                },
            };
            let ghost merged = tc.context@;
            match self.close_cycle(&mut tc, new_dirty) {
                Ok(Some(d)) => {
                    proof {
                        assert(next.take(next.len() as int) =~= next);
                        trace = next;
                    }
                    dirty = d;
                },
                Ok(None) => {
                    let r = RunResult::Complete(Ok(self.finish(tc, cycles)));
                    proof {
                        if nothing_pending(context@) {
                            assert(cycles_outcome(budget, context@, 0, next, skip, gated, r));
                            assert(trace_eligible(*self, context@, initial_dirty(context@), 0, next, skip, gated, r));
                        }
                    }
                    return r;
                },
                Err(e) => {
                    let r = RunResult::Complete(Err(e));
                    proof {
                        if nothing_pending(context@) {
                            assert(cycles_outcome(budget, context@, 0, next, skip, gated, r));
                            assert(trace_eligible(*self, context@, initial_dirty(context@), 0, next, skip, gated, r));
                        }
                    }
                    return r;
                },
            }
        }
    }
}


/// `b` keeps every fact of `a` in place.
pub open spec fn keeps(a: ContextView, b: ContextView) -> bool {
    &&& forall|i: int| 0 <= i < key_count() ==> (#[trigger] a.facts[i]).len() <= b.facts[i].len()
    &&& forall|i: int, j: int|
        0 <= i < key_count() && 0 <= j < a.facts[i].len() ==> b.facts[i][j] == (#[trigger] a.facts[i][j])
}

/// The outcome of a run resumed at `from_cycle`: like a run, except that a run that
/// converges at once reports the cycle it resumed at.
pub open spec fn continued_outcome(engine: Engine, start: ContextView, from_cycle: u32, r: RunResult) -> bool {
    match r {
        RunResult::Complete(Ok(res)) => {
            &&& res.converged
            &&& res.stop_reason is Converged
            &&& res.context.wf()
            &&& grows(start, res.context@)
            &&& res.cycles == from_cycle || from_cycle < res.cycles <= engine.budget_spec().max_cycles
        },
        RunResult::Complete(Err(e)) => run_error(engine.budget_spec(), e),
        RunResult::HitlPause(p) => {
            &&& p.context.wf()
            &&& 1 <= p.cycle <= engine.budget_spec().max_cycles
            &&& gate_applies(engine.gated_spec(), p.proposal@)
            &&& !engine.rejected_spec().contains(p.proposal@.id)
        },
    }
}

proof fn lemma_grows_keeps(a: ContextView, b: ContextView)
    requires
        grows(a, b),
    ensures
        keeps(a, b),
{
}

proof fn lemma_keeps_trans(a: ContextView, b: ContextView, c: ContextView)
    requires
        keeps(a, b),
        keeps(b, c),
    ensures
        keeps(a, c),
{
    assert forall|i: int, j: int|
        0 <= i < key_count() && 0 <= j < a.facts[i].len() implies c.facts[i][j] == (#[trigger] a.facts[i][j]) by {
        assert(b.facts[i][j] == a.facts[i][j]);
        assert(c.facts[i][j] == b.facts[i][j]);
    }
    assert forall|i: int| 0 <= i < key_count() implies (#[trigger] a.facts[i]).len() <= c.facts[i].len() by {
        assert(a.facts[i].len() <= b.facts[i].len());
        assert(b.facts[i].len() <= c.facts[i].len());
    }
}

proof fn lemma_keeps_push(a: ContextView, b: ContextView, f: FactView)
    requires
        a.facts.len() == key_count(),
        b.facts == a.facts.update(key_index(f.key), facts_of(a, f.key).push(f)),
    ensures
        keeps(a, b),
{
    lemma_key_index(f.key);
    let k = key_index(f.key);
    assert forall|i: int, j: int|
        0 <= i < key_count() && 0 <= j < a.facts[i].len() implies b.facts[i][j] == (#[trigger] a.facts[i][j]) by {
        if i == k {
            assert(b.facts[i] == a.facts[i].push(f));
        }
    }
    assert forall|i: int| 0 <= i < key_count() implies (#[trigger] a.facts[i]).len() <= b.facts[i].len() by {
        if i == k {
            assert(b.facts[i] == a.facts[i].push(f));
        }
    }
}

/// A fact with this value is stored under its key.
pub open spec fn holds_fact(v: ContextView, f: FactView) -> bool {
    facts_of(v, f.key).contains(f)
}

proof fn lemma_keeps_holds(a: ContextView, b: ContextView, f: FactView)
    requires
        keeps(a, b),
        a.facts.len() == key_count(),
        holds_fact(a, f),
    ensures
        holds_fact(b, f),
{
    lemma_key_index(f.key);
    let i = key_index(f.key);
    let j = choose|j: int| 0 <= j < facts_of(a, f.key).len() && facts_of(a, f.key)[j] == f;
    assert(b.facts[i][j] == a.facts[i][j]);
}

/// The number of promotable proposals in a list.
pub open spec fn promotable_count(s: Seq<ProposalView>) -> nat
    decreases s.len(),
{
    if s.len() == 0 {
        0
    } else {
        promotable_count(s.drop_last()) + if promotable(s.last()) {
            1nat
        } else {
            0nat
        }
    }
}

/// A count that stops at the largest `usize`.
pub open spec fn saturating_count(n: int) -> int {
    if n < usize::MAX {
        n
    } else {
        usize::MAX as int
    }
}

/// Every promotable proposal of the list is held in the context as the fact it becomes.
pub open spec fn promoted_all_held(v: ContextView, s: Seq<ProposalView>) -> bool {
    forall|k: int| 0 <= k < s.len() && promotable(#[trigger] s[k]) ==> holds_fact(v, promoted(s[k]))
}

/// What is held stays held while the facts are kept.
proof fn lemma_promoted_all_kept(a: ContextView, b: ContextView, s: Seq<ProposalView>)
    requires
        promoted_all_held(a, s),
        keeps(a, b),
        a.facts.len() == key_count(),
    ensures
        promoted_all_held(b, s),
{
    assert forall|k: int| 0 <= k < s.len() && promotable(#[trigger] s[k]) implies holds_fact(b, promoted(s[k])) by {
        lemma_keeps_holds(a, b, promoted(s[k]));
    }
}

/// Appending one proposal whose fact is held, when it is promotable, keeps everything held.
proof fn lemma_promoted_all_push(v: ContextView, s: Seq<ProposalView>, x: ProposalView)
    requires
        promoted_all_held(v, s),
        promotable(x) ==> holds_fact(v, promoted(x)),
    ensures
        promoted_all_held(v, s.push(x)),
{
    assert forall|k: int| 0 <= k < s.push(x).len() && promotable(#[trigger] s.push(x)[k]) implies holds_fact(v, promoted(s.push(x)[k])) by {
        if k < s.len() {
            assert(s.push(x)[k] == s[k]);
        }
    }
}

impl Engine {
    /// Merges the effects left over after a pause, promoting every promotable proposal.
    #[verifier::loop_isolation(false)]
    fn merge_remaining(
        &self,
        tc: &mut TrackedContext,
        effects: Vec<(SuggestorId, AgentEffect)>,
        cycle: u32,
        initial_facts: usize,
    ) -> (r: Result<(Vec<ContextKey>, usize), ConvergeError>)
        requires
            old(tc).wf(),
        ensures
            final(tc).wf(),
            grows(old(tc).context@, final(tc).context@),
            r is Ok ==> promoted_all_held(final(tc).context@, effect_proposals(effects@)),
            r matches Ok((dirty, n)) ==> dirty@ == final(tc).context@.dirty && n == saturating_count(
                initial_facts + promotable_count(effect_proposals(effects@)),
            ),
            r matches Err(e) ==> e is Conflict || (e matches ConvergeError::BudgetExhausted { kind } && kind@ == version_kind()),
            r is Ok <==> merge_all(old(tc).context@, effect_proposals(effects@), Seq::empty()) is Some,
            r is Ok ==> merge_all(old(tc).context@, effect_proposals(effects@), Seq::empty()) == Some(final(tc).context@),
    {
        let ghost start = tc.context@;
        let ghost all = effect_proposals(effects@);
        proof { lemma_grows_refl(start); }
        let mut facts_added = initial_facts;
        let ghost mut done: Seq<ProposalView> = Seq::empty();
        let mut e: usize = 0;
        while e < effects.len()
            invariant
                e <= effects@.len(),
                tc.wf(),
                grows(start, tc.context@),
                done == effect_proposals(effects@.take(e as int)),
                promoted_all_held(tc.context@, done),
                facts_added == saturating_count(initial_facts + promotable_count(done)),
                all == effect_proposals(effects@),
                merge_all(start, done, Seq::empty()) == Some(tc.context@),
            decreases effects.len() - e,
        {
            let proposals = &effects[e].1.proposals;
            let ghost outer = done;
            let mut p: usize = 0;
            while p < proposals.len()
                invariant
                    p <= proposals@.len(),
                    proposals@ == effects@[e as int].1.proposals@,
                    tc.wf(),
                    grows(start, tc.context@),
                    done == outer + proposal_views(proposals@.take(p as int)),
                    promoted_all_held(tc.context@, done),
                    facts_added == saturating_count(initial_facts + promotable_count(done)),
                    all == effect_proposals(effects@),
                    outer == effect_proposals(effects@.take(e as int)),
                    merge_all(start, done, Seq::empty()) == Some(tc.context@),
                decreases proposals.len() - p,
            {
                let ghost pv = proposals@[p as int]@;
                proof {
                    assert(proposal_views(proposals@.take(p as int + 1)) == proposal_views(proposals@.take(p as int)).push(pv));
                    assert(outer + proposal_views(proposals@.take(p as int + 1)) == done.push(pv));
                    assert(done.push(pv).drop_last() == done);
                    let next = done.push(pv);
                    lemma_effect_proposals_prefix(effects@, e as int + 1);
                    assert(effects@.take(e as int + 1).drop_last() == effects@.take(e as int));
                    let whole = effect_proposals(effects@.take(e as int + 1));
                    assert(whole == outer + proposal_views(proposals@));
                    assert(whole.take(next.len() as int) =~= next);
                    lemma_prefix_trans(next, whole, all);
                    assert(all.take(next.len() as int) == next);
                }
                match self.promote_proposal(&proposals[p], cycle, agent_label("agent-", effects[e].0).as_str()) {
                    Ok(fact) => {
                        if let Some(cb) = &self.streaming_callback {
                            cb.on_fact(cycle, &fact);
                        }
                        if tc.context.version() == u64::MAX {
                            proof {
                                assert(merge_all(start, done.push(pv), Seq::empty()) is None);
                                lemma_merge_all_prefix_none(start, all, Seq::empty(), done.len() as int + 1);
                            }
                            return Err(version_exhausted());
                        }
                        let ghost before = tc.context@;
                        let ghost fv = fact@;
                        proof {
                            tc.lemma_wf();
                            tc.context.lemma_wf();
                        }
                        let changed = match tc.add_fact(fact) {
                            Ok(c) => c,
                            Err(err) => {
                                proof {
                                    assert(merge_step(before, pv) is None);
                                    assert(merge_all(start, done.push(pv), Seq::empty()) is None);
                                    lemma_merge_all_prefix_none(start, all, Seq::empty(), done.len() as int + 1);
                                }
                                return Err(err);
                            },
                        };
                        proof {
                            if changed {
                                if facts_of(before, fv.key).contains(fv) {
                                    let j = choose|j: int| 0 <= j < facts_of(before, fv.key).len() && facts_of(before, fv.key)[j] == fv;
                                    assert(crate::context::has_fact_id(before, fv.key, fv.id));
                                }
                                lemma_grows_push(before, tc.context@, fv);
                                lemma_grows_trans(start, before, tc.context@);
                                lemma_keeps_push(before, tc.context@, fv);
                                lemma_promoted_all_kept(before, tc.context@, done);
                                lemma_key_index(fv.key);
                                assert(facts_of(tc.context@, fv.key).last() == fv);
                            }
                            assert(holds_fact(tc.context@, promoted(pv)));
                            assert(merge_step(before, pv) == Some(tc.context@));
                            assert(merge_all(start, done.push(pv), Seq::empty()) == Some(tc.context@));
                            lemma_promoted_all_push(tc.context@, done, pv);
                            done = done.push(pv);
                        }
                        if facts_added < usize::MAX {
                            facts_added = facts_added + 1;
                        }
                    },
                    Err(_) => {
                        proof {
                            assert(merge_all(start, done.push(pv), Seq::empty()) == Some(tc.context@));
                            lemma_promoted_all_push(tc.context@, done, pv);
                            done = done.push(pv);
                        }
                    },
                }
                p = p + 1;
            }
            proof {
                assert(proposals@.take(proposals@.len() as int) == proposals@);
                assert(effects@.take(e as int + 1).drop_last() == effects@.take(e as int));
            }
            e = e + 1;
        }
        proof {
            assert(effects@.take(effects@.len() as int) == effects@);
        }
        let dirty = copy_keys(tc.context.dirty_keys());
        Ok((dirty, facts_added))
    }

    /// Continues convergence from the cycle a run paused at.
    fn continue_convergence(&self, context: ContextState, from_cycle: u32, dirty_keys: Vec<ContextKey>) -> (r: RunResult)
        requires
            self.wf(),
            context.wf(),
        ensures
            continued_outcome(*self, context@, from_cycle, r),
            dirty_keys@.len() == 0 && nothing_pending(context@) && self.invariant_classes().len() == 0 ==> (
            r matches RunResult::Complete(Ok(res)) && res.cycles == from_cycle && res.context@ == context@),
            self.count_spec() == 0 && nothing_pending(context@) && self.invariant_classes().len() == 0
                && saturated_total(context@) <= self.budget_spec().max_facts && from_cycle
                < self.budget_spec().max_cycles ==> (r matches RunResult::Complete(Ok(res)) && res.context@ == context@
                && res.cycles == (if dirty_keys@.len() == 0 {
                from_cycle
            } else {
                (from_cycle + 1) as u32
            })),
            self.invariant_classes().len() == 0 ==> !(r matches RunResult::Complete(
                Err(ConvergeError::InvariantViolation { .. }),
            )),
            nothing_pending(context@) && dirty_keys@.len() > 0 && saturated_total(context@) <= self.budget_spec().max_facts
                ==> exists|trace: Seq<Seq<(SuggestorId, AgentEffect)>>|
                #[trigger] cycles_outcome(self.budget_spec(), context@, from_cycle as nat, trace, self.rejected_spec(), self.gated_spec(), r)
                    && trace_eligible(*self, context@, dirty_keys@, from_cycle as nat, trace, self.rejected_spec(), self.gated_spec(), r),
    {
        let mut tc = TrackedContext::new(context);
        let ghost start = tc.context@;
        proof {
            lemma_grows_refl(start);
            tc.lemma_wf();
        }
        if tc.context.has_pending_proposals() {
            tc.clear_dirty();
            let ghost mid = tc.context@;
            assert(mid.facts == start.facts);
            assert(grows(start, mid));
            match self.promote_pending(&mut tc, from_cycle) {
                Ok(_) => {},
                Err(e) => {
                    return RunResult::Complete(Err(e));
                },
            }
            proof { lemma_grows_trans(start, mid, tc.context@); }
        }
        match self.enforce(&mut tc, crate::invariants::InvariantClass::Structure) {
            Ok(()) => {},
            Err(e) => {
                let r = RunResult::Complete(Err(e));
                proof {
                    assert(cycles_outcome(
                        self.budget_spec(),
                        context@,
                        from_cycle as nat,
                        Seq::empty(),
                        self.rejected_spec(),
                        self.gated_spec(),
                        r,
                    ));
                    assert(trace_eligible(
                        *self,
                        context@,
                        dirty_keys@,
                        from_cycle as nat,
                        Seq::empty(),
                        self.rejected_spec(),
                        self.gated_spec(),
                        r,
                    ));
                }
                return r;
            },
        }
        if dirty_keys.len() == 0 {
            match self.enforce(&mut tc, crate::invariants::InvariantClass::Acceptance) {
                Ok(()) => {},
                Err(e) => {
                    return RunResult::Complete(Err(e));
                },
            }
            return RunResult::Complete(Ok(self.finish(tc, from_cycle)));
        }
        match self.enforce(&mut tc, crate::invariants::InvariantClass::Semantic) {
            Ok(()) => {},
            Err(e) => {
                let r = RunResult::Complete(Err(e));
                proof {
                    assert(cycles_outcome(
                        self.budget_spec(),
                        context@,
                        from_cycle as nat,
                        Seq::empty(),
                        self.rejected_spec(),
                        self.gated_spec(),
                        r,
                    ));
                    assert(trace_eligible(
                        *self,
                        context@,
                        dirty_keys@,
                        from_cycle as nat,
                        Seq::empty(),
                        self.rejected_spec(),
                        self.gated_spec(),
                        r,
                    ));
                }
                return r;
            },
        }
        proof { tc.lemma_wf(); }
        let count = count_facts(&tc.context);
        if count > self.budget.max_facts as u64 {
            return RunResult::Complete(Err(facts_exhausted(count, self.budget.max_facts)));
        }
        let mut cycles = from_cycle;
        let ghost original_dirty = dirty_keys@;
        let mut dirty = dirty_keys;
        let ghost budget = self.budget_spec();
        let ghost skip = self.rejected_spec();
        let ghost gated = self.gated_spec();
        let ghost from = from_cycle as nat;
        let ghost mut trace: Seq<Seq<(SuggestorId, AgentEffect)>> = Seq::empty();
        let ghost traced = nothing_pending(context@) && saturated_total(context@) <= budget.max_facts;
        loop
            invariant
                original_dirty.len() > 0,
                original_dirty == dirty_keys@,
                self.count_spec() == 0 && nothing_pending(context@) && self.invariant_classes().len() == 0
                    ==> cycles == from_cycle && tc.context@ == context@,
                self.wf(),
                tc.wf(),
                grows(start, tc.context@),
                from_cycle <= cycles,
                cycles == from_cycle || cycles <= self.budget_spec().max_cycles,
                start == context@,
                budget == self.budget_spec(),
                skip == self.rejected_spec(),
                gated == self.gated_spec(),
                from == from_cycle as nat,
                traced == (nothing_pending(context@) && saturated_total(context@) <= budget.max_facts),
                trace.len() == cycles - from_cycle,
                traced ==> run_cycles(budget, context@, trace, skip, gated) == Some(tc.context@),
                traced ==> dirty@ == dirty_at(budget, context@, original_dirty, trace, skip, gated, trace.len() as int),
                traced ==> forall|i: int|
                    0 <= i < trace.len() ==> from_eligible(
                        *self,
                        dirty_at(budget, context@, original_dirty, trace, skip, gated, i),
                        #[trigger] trace[i],
                    ) && trace[i].len() > 0,
            decreases u32::MAX - cycles,
        {
            if cycles == u32::MAX {
                let r = RunResult::Complete(Err(cycles_exhausted(self.budget.max_cycles)));
                proof {
                    if traced {
                        assert(cycles_outcome(budget, context@, from, trace, skip, gated, r));
                        assert(trace_eligible(*self, context@, original_dirty, from, trace, skip, gated, r));
                    }
                }
                return r;
            }
            cycles = cycles + 1;
            if cycles > self.budget.max_cycles {
                let r = RunResult::Complete(Err(cycles_exhausted(self.budget.max_cycles)));
                proof {
                    if traced {
                        assert(cycles_outcome(budget, context@, from, trace, skip, gated, r));
                        assert(trace_eligible(*self, context@, original_dirty, from, trace, skip, gated, r));
                    }
                }
                return r;
            }
            self.start_cycle(cycles);
            let eligible = self.find_eligible(&tc.context, dirty.as_slice());
            let ghost acc = choose|accepted: Seq<bool>| accepted.len() == self.count_spec() && eligible@ == self.eligible(dirty@, accepted);
            if eligible.len() == 0 {
                proof {
                    assert(self.eligible(dirty@, acc).len() == 0);
                }
                self.end_cycle(cycles, 0);
                match self.enforce(&mut tc, crate::invariants::InvariantClass::Acceptance) {
                    Ok(()) => {},
                    Err(e) => {
                        let r = RunResult::Complete(Err(e));
                        proof {
                            if traced {
                                assert(cycles_outcome(budget, context@, from, trace, skip, gated, r));
                                assert(trace_eligible(*self, context@, original_dirty, from, trace, skip, gated, r));
                            }
                        }
                        return r;
                    },
                }
                let r = RunResult::Complete(Ok(self.finish(tc, cycles)));
                proof {
                    if traced {
                        assert(cycles_outcome(budget, context@, from, trace, skip, gated, r));
                        assert(trace_eligible(*self, context@, original_dirty, from, trace, skip, gated, r));
                    }
                }
                return r;
            }
            proof {
                let accepted = choose|accepted: Seq<bool>| accepted.len() == self.count_spec() && eligible@ == self.eligible(dirty@, accepted);
                lemma_eligible_shape(self.deps_spec(), self.packs_spec(), self.active_spec(), dirty@, accepted, self.count_spec() as int);
            }
            let effects = self.execute_agents(&tc.context, &eligible);
            let ghost before = tc.context@;
            let ghost step = effects@;
            let ghost next = trace.push(step);
            proof {
                assert(next.drop_last() == trace);
                lemma_eligible_shape(self.deps_spec(), self.packs_spec(), self.active_spec(), dirty@, acc, self.count_spec() as int);
                self.lemma_wf();
                assert(effect_ids(step) =~= eligible@);
                assert(self.eligible(dirty@, acc) == effect_ids(step));
                if traced {
                    assert forall|i: int| 0 <= i <= trace.len() implies #[trigger] dirty_at(budget, context@, original_dirty, next, skip, gated, i)
                        == dirty_at(budget, context@, original_dirty, trace, skip, gated, i) by {
                        assert(next.take(i) =~= trace.take(i));
                    }
                    assert(next[trace.len() as int] == step);
                }
            }
            let new_dirty = match self.merge_effects_hitl(&mut tc, effects, cycles) {
                MergeResult::Complete(Ok((new_dirty, facts_added))) => {
                    proof { lemma_grows_trans(start, before, tc.context@); }
                    self.end_cycle(cycles, facts_added);
                    new_dirty
                },
                MergeResult::Complete(Err(e)) => {
                    let r = RunResult::Complete(Err(e));
                    proof {
                        if traced {
                            assert(cycles_outcome(budget, context@, from, next, skip, gated, r));
                            assert(trace_eligible(*self, context@, original_dirty, from, next, skip, gated, r));
                        }
                    }
                    return r;
                },
                MergeResult::HitlPause(pause) => {
                    let r = RunResult::HitlPause(pause);
                    proof {
                        if traced {
                            assert(cycles_outcome(budget, context@, from, next, skip, gated, r));
                            assert(trace_eligible(*self, context@, original_dirty, from, next, skip, gated, r));
                        }
                    }
                    return r;
                },
            };
            match self.close_cycle(&mut tc, new_dirty) {
                Ok(Some(d)) => {
                    proof {
                        assert(next.take(next.len() as int) =~= next);
                        trace = next;
                    }
                    dirty = d;
                },
                Ok(None) => {
                    let r = RunResult::Complete(Ok(self.finish(tc, cycles)));
                    proof {
                        if traced {
                            assert(cycles_outcome(budget, context@, from, next, skip, gated, r));
                            assert(trace_eligible(*self, context@, original_dirty, from, next, skip, gated, r));
                        }
                    }
                    return r;
                },
                Err(e) => {
                    let r = RunResult::Complete(Err(e));
                    proof {
                        if traced {
                            assert(cycles_outcome(budget, context@, from, next, skip, gated, r));
                            assert(trace_eligible(*self, context@, original_dirty, from, next, skip, gated, r));
                        }
                    }
                    return r;
                },
            }
        }
    }

    /// Resumes convergence after a human decision on a paused gate.
    ///
    /// On approval the paused proposal is promoted (when its content is not blank); on
    /// rejection it is discarded, its identifier is remembered so that the merges of later
    /// cycles skip it, and a diagnostic fact records the rejection. The effects left
    /// over are merged, and convergence continues from the paused cycle.
    pub fn resume(&mut self, pause: HitlPause, decision: GateDecision) -> (r: RunResult)
        requires
            old(self).wf(),
            pause.context.wf(),
        ensures
            final(self).wf(),
            final(self).budget_spec() == old(self).budget_spec(),
            final(self).deps_spec() == old(self).deps_spec(),
            final(self).packs_spec() == old(self).packs_spec(),
            final(self).active_spec() == old(self).active_spec(),
            final(self).gated_spec() == old(self).gated_spec(),
            final(self).invariant_classes() == old(self).invariant_classes(),
            decision.gate_id@ != pause.request.gate_id@ ==> (r matches RunResult::Complete(
                Err(ConvergeError::InvalidResume { reason }),
            ) && reason@ == resume_mismatch_reason(decision.gate_id@, pause.request.gate_id@)),
            decision.gate_id@ != pause.request.gate_id@ || decision.verdict is Approve
                ==> final(self).rejected_spec() == old(self).rejected_spec(),
            decision.gate_id@ == pause.request.gate_id@ && decision.verdict is Reject
                ==> final(self).rejected_spec() == old(self).rejected_spec().push(pause.proposal@.id),
            r matches RunResult::Complete(Ok(res)) ==> {
                &&& res.converged
                &&& res.stop_reason is Converged
                &&& res.context.wf()
                &&& keeps(pause.context@, res.context@)
                &&& (decision.verdict is Approve && promotable(pause.proposal@)
                    && !crate::context::has_fact_id(pause.context@, pause.proposal.key, pause.proposal@.id))
                    ==> holds_fact(res.context@, promoted(pause.proposal@))
                &&& (decision.verdict is Reject && pause.context@.version < u64::MAX
                    && !crate::context::has_fact_id(
                    pause.context@,
                    ContextKey::Diagnostic,
                    "hitl-rejected:"@ + pause.proposal@.id,
                )) ==> holds_fact(
                    res.context@,
                    rejection_fact(pause.proposal@.id, decision.decided_by@, decision.verdict),
                )
            },
            decision.gate_id@ == pause.request.gate_id@ && decision.verdict is Reject && old(self).count_spec() == 0
                && old(self).invariant_classes().len() == 0 && pause.remaining_effects@.len() == 0 && pause.cycle
                < old(self).budget_spec().max_cycles && saturated_total(pause.context@)
                < old(self).budget_spec().max_facts && nothing_pending(
                without_proposal(pause.context@, pause.proposal.key, pause.proposal@.id),
            ) ==> r matches RunResult::Complete(Ok(_)),
            decision.gate_id@ == pause.request.gate_id@ ==> resume_outcome(
                *final(self),
                pause.context@,
                pause.proposal@,
                decision,
                pause.remaining_effects@,
                pause.cycle,
                r,
            ),
            r matches RunResult::Complete(Err(e)) ==> decision.gate_id@ == pause.request.gate_id@ ==> run_error(
                old(self).budget_spec(),
                e,
            ),
            r matches RunResult::HitlPause(p) ==> {
                &&& p.context.wf()
                &&& 1 <= p.cycle <= old(self).budget_spec().max_cycles
                &&& gate_applies(final(self).gated_spec(), p.proposal@)
                &&& !final(self).rejected_spec().contains(p.proposal@.id)
            },
    {
        if decision.gate_id.0 != pause.request.gate_id.0 {
            let mut reason = String::new();
            reason.append("gate_id mismatch: decision is for '");
            reason.append(decision.gate_id.0.as_str());
            reason.append("' but the run paused at '");
            reason.append(pause.request.gate_id.0.as_str());
            reason.append("'");
            return RunResult::Complete(Err(ConvergeError::InvalidResume { reason }));
        }
        let mut pause = pause;
        let event = GateEvent::from_decision(&decision);
        pause.gate_events.push(event);
        let mut tc = TrackedContext::new(pause.context);
        let ghost start = tc.context@;
        let ghost pf = promoted(pause.proposal@);
        let ghost wanted = decision.verdict is Approve && promotable(pause.proposal@)
            && !crate::context::has_fact_id(start, pause.proposal.key, pause.proposal@.id);
        let ghost rf = rejection_fact(pause.proposal@.id, decision.decided_by@, decision.verdict);
        let ghost reject_ready = decision.verdict is Reject && nothing_pending(
            without_proposal(start, pause.proposal.key, pause.proposal@.id),
        );
        let ghost wanted_reject = decision.verdict is Reject && start.version < u64::MAX
            && !crate::context::has_fact_id(start, ContextKey::Diagnostic, "hitl-rejected:"@ + pause.proposal@.id);
        let mut facts_added = pause.facts_added;
        proof { tc.lemma_wf(); tc.context.lemma_wf(); }
        if decision.is_approved() {
            match self.promote_proposal(&pause.proposal, pause.cycle, agent_label("suggestor-", pause.agent_id).as_str()) {
                Ok(fact) => {
                    tc.remove_proposal(pause.proposal.key, &pause.proposal.id);
                    if let Some(cb) = &self.streaming_callback {
                        cb.on_fact(pause.cycle, &fact);
                    }
                    proof { tc.lemma_wf(); }
                    if tc.context.version() == u64::MAX {
                        return RunResult::Complete(Err(version_exhausted()));
                    }
                    let ghost before = tc.context@;
                    match tc.add_fact(fact) {
                        Ok(changed) => {
                            proof {
                                assert(before.facts == start.facts);
                                if changed {
                                    lemma_keeps_push(before, tc.context@, pf);
                                    lemma_key_index(pf.key);
                                    assert(facts_of(tc.context@, pf.key).last() == pf);
                                    assert(holds_fact(tc.context@, pf));
                                } else {
                                    assert(tc.context@ == before);
                                }
                            }
                        },
                        Err(e) => {
                            return RunResult::Complete(Err(e));
                        },
                    }
                    if facts_added < usize::MAX {
                        facts_added = facts_added + 1;
                    }
                },
                Err(_) => {},
            }
        } else {
            self.rejected_proposals.push(pause.proposal.id.0.clone());
            tc.remove_proposal(pause.proposal.key, &pause.proposal.id);
            let ghost removed = tc.context@;
            proof {
                assert(removed == without_proposal(start, pause.proposal.key, pause.proposal@.id));
                lemma_total_same_facts(removed, start, key_count());
            }
            let reason: &str = match &decision.verdict {
                GateVerdict::Reject { reason } => match reason {
                    Some(t) => t.as_str(),
                    None => "no reason provided",
                },
                GateVerdict::Approve => "rejected",
            };
            let mut id = String::new();
            id.append("hitl-rejected:");
            id.append(pause.proposal.id.as_str());
            let mut content = String::new();
            content.append("HITL gate rejected proposal '");
            content.append(pause.proposal.id.as_str());
            content.append("' by ");
            content.append(decision.decided_by.as_str());
            content.append(": ");
            content.append(reason);
            proof { tc.lemma_wf(); tc.context.lemma_wf(); }
            if tc.context.version() < u64::MAX {
                let ghost before = tc.context@;
                let fact = ContextFact { key: ContextKey::Diagnostic, id, content, promotion: None };
                let ghost fv = fact@;
                proof {
                    assert(fv == rf);
                    assert(before.facts == start.facts);
                }
                match tc.add_fact(fact) {
                    Ok(changed) => {
                        proof {
                            if changed {
                                lemma_keeps_push(before, tc.context@, fv);
                                lemma_key_index(fv.key);
                                assert(facts_of(tc.context@, fv.key).last() == fv);
                                lemma_total_push(before, tc.context@, key_index(fv.key), fv, key_count());
                                if nothing_pending(removed) {
                                    assert forall|i: int| 0 <= i < key_count() implies (#[trigger] tc.context@.proposals[i]).len() == 0 by {
                                        if i != key_index(fv.key) {
                                            assert(tc.context@.proposals[i] == before.proposals[i]);
                                        }
                                    }
                                }
                            }
                            assert(holds_fact(tc.context@, rf));
                        }
                    },
                    Err(_) => {
                        proof {
                            assert(!wanted_reject);
                        }
                    },
                }
            }
            proof {
                assert(nothing_pending(removed) ==> nothing_pending(tc.context@));
                assert(fact_total_below(tc.context@, key_count()) <= fact_total_below(removed, key_count()) + 1);
            }
            if facts_added < usize::MAX {
                facts_added = facts_added + 1;
            }
        }
        let ghost mid = tc.context@;
        proof {
            if reject_ready {
                assert(nothing_pending(mid));
                assert(fact_total_below(mid, key_count()) <= fact_total_below(start, key_count()) + 1);
            }
            assert(keeps(start, mid));
            tc.lemma_wf();
            tc.context.lemma_wf();
            if wanted {
                assert(holds_fact(mid, pf));
            }
            if wanted_reject {
                assert(holds_fact(mid, rf));
            }
        }
        let cycle = pause.cycle;
        if pause.remaining_effects.len() > 0 {
            let remaining = pause.remaining_effects;
            match self.merge_remaining(&mut tc, remaining, cycle, facts_added) {
                Ok((dirty, total)) => {
                    self.end_cycle(cycle, total);
                    proof {
                        lemma_grows_keeps(mid, tc.context@);
                        lemma_keeps_trans(start, mid, tc.context@);
                        tc.lemma_wf();
                        tc.context.lemma_wf();
                        if wanted {
                            lemma_keeps_holds(mid, tc.context@, pf);
                        }
                        if wanted_reject {
                            lemma_keeps_holds(mid, tc.context@, rf);
                        }
                    }
                    let ghost here = tc.context@;
                    let r = self.continue_convergence(tc.context, cycle, dirty);
                    proof {
                        match &r {
                            RunResult::Complete(Ok(res)) => {
                                lemma_grows_keeps(here, res.context@);
                                lemma_keeps_trans(start, here, res.context@);
                                if wanted {
                                    lemma_keeps_holds(here, res.context@, pf);
                                }
                                if wanted_reject {
                                    lemma_keeps_holds(here, res.context@, rf);
                                }
                            },
                            _ => {},
                        }
                    }
                    r
                },
                Err(e) => RunResult::Complete(Err(e)),
            }
        } else {
            self.end_cycle(cycle, facts_added);
            let dirty = copy_keys(tc.context.dirty_keys());
            let ghost here = tc.context@;
            let r = self.continue_convergence(tc.context, cycle, dirty);
            proof {
                match &r {
                    RunResult::Complete(Ok(res)) => {
                        lemma_grows_keeps(here, res.context@);
                        lemma_keeps_trans(start, here, res.context@);
                        if wanted {
                            lemma_keeps_holds(here, res.context@, pf);
                        }
                        if wanted_reject {
                            lemma_keeps_holds(here, res.context@, rf);
                        }
                    },
                    _ => {},
                }
            }
            r
        }
    }
}


/// The identifiers of the required criteria, in order.
pub open spec fn required_ids(os: Seq<CriterionOutcome>) -> Seq<Seq<char>>
    decreases os.len(),
{
    if os.len() == 0 {
        Seq::empty()
    } else if os.last().criterion.required {
        required_ids(os.drop_last()).push(os.last().criterion.id@)
    } else {
        required_ids(os.drop_last())
    }
}

/// The identifiers of the required criteria that are blocked, in order.
pub open spec fn blocked_ids(os: Seq<CriterionOutcome>) -> Seq<Seq<char>>
    decreases os.len(),
{
    if os.len() == 0 {
        Seq::empty()
    } else if os.last().criterion.required && os.last().result is Blocked {
        blocked_ids(os.drop_last()).push(os.last().criterion.id@)
    } else {
        blocked_ids(os.drop_last())
    }
}

/// The approval references of the blocked required criteria, in order.
pub open spec fn approval_refs(os: Seq<CriterionOutcome>) -> Seq<Seq<char>>
    decreases os.len(),
{
    if os.len() == 0 {
        Seq::empty()
    } else if os.last().criterion.required && os.last().result matches CriterionResult::Blocked {
        approval_ref: Some(_),
        ..
    } {
        approval_refs(os.drop_last()).push(
            match os.last().result {
                CriterionResult::Blocked { approval_ref: Some(t), .. } => t@,
                _ => Seq::empty(),
            },
        )
    } else {
        approval_refs(os.drop_last())
    }
}

/// Whether every required criterion is met.
pub open spec fn required_met(os: Seq<CriterionOutcome>) -> bool {
    forall|i: int| 0 <= i < os.len() && (#[trigger] os[i]).criterion.required ==> os[i].result is Met
}

/// The stop reason a set of criterion outcomes calls for: the criteria are met when
/// there are required criteria and all of them are met; otherwise human intervention is
/// required when a required criterion is blocked; otherwise the run simply converged.
pub open spec fn stop_for(os: Seq<CriterionOutcome>, r: StopReason) -> bool {
    if required_ids(os).len() > 0 && required_met(os) {
        r matches StopReason::CriteriaMet { criteria } && texts(criteria@) == required_ids(os)
    } else if blocked_ids(os).len() > 0 {
        r matches StopReason::HumanInterventionRequired { criteria, approval_refs: refs }
            && texts(criteria@) == blocked_ids(os) && texts(refs@) == approval_refs(os)
    } else {
        r is Converged
    }
}

/// Decides the stop reason from criterion outcomes.
pub fn decide_stop(outcomes: &Vec<CriterionOutcome>) -> (r: StopReason)
    ensures
        stop_for(outcomes@, r),
{
    let ghost os = outcomes@;
    let mut required: Vec<String> = Vec::new();
    let mut blocked: Vec<String> = Vec::new();
    let mut refs: Vec<String> = Vec::new();
    let mut met = true;
    let mut i: usize = 0;
    while i < outcomes.len()
        invariant
            i <= os.len(),
            os == outcomes@,
            texts(required@) == required_ids(os.take(i as int)),
            texts(blocked@) == blocked_ids(os.take(i as int)),
            texts(refs@) == approval_refs(os.take(i as int)),
            met == required_met(os.take(i as int)),
        decreases outcomes.len() - i,
    {
        let o = &outcomes[i];
        let ghost prefix = os.take(i as int);
        let ghost next = os.take(i as int + 1);
        assert(next.drop_last() == prefix);
        assert(next.last() == os[i as int]);
        if o.criterion.required {
            let ghost before = required@;
            required.push(o.criterion.id.clone());
            assert(texts(required@) =~= texts(before).push(o.criterion.id@));
            match &o.result {
                CriterionResult::Met { .. } => {},
                CriterionResult::Blocked { approval_ref, .. } => {
                    met = false;
                    let ghost b0 = blocked@;
                    blocked.push(o.criterion.id.clone());
                    assert(texts(blocked@) =~= texts(b0).push(o.criterion.id@));
                    match approval_ref {
                        Some(t) => {
                            let ghost r0 = refs@;
                            refs.push(t.clone());
                            assert(texts(refs@) =~= texts(r0).push(t@));
                        },
                        None => {},
                    }
                },
                _ => {
                    met = false;
                },
            }
        }
        proof {
            assert forall|k: int| met && 0 <= k < next.len() && (#[trigger] next[k]).criterion.required implies next[k].result is Met by {
                if k < prefix.len() {
                    assert(next[k] == prefix[k]);
                }
            }
            if !met && required_met(next) {
                if !required_met(prefix) {
                    let k = choose|k: int| 0 <= k < prefix.len() && (#[trigger] prefix[k]).criterion.required && !(prefix[k].result is Met);
                    assert(next[k] == prefix[k]);
                }
                assert(next[i as int] == os[i as int]);
            }
        }
        i = i + 1;
    }
    assert(os.take(os.len() as int) == os);
    if required.len() > 0 && met {
        StopReason::criteria_met(required)
    } else if blocked.len() > 0 {
        StopReason::human_intervention_required(blocked, refs)
    } else {
        StopReason::converged()
    }
}

impl Criterion {
    /// Copies the criterion.
    pub fn duplicate(&self) -> (r: Self)
        ensures
            r.id@ == self.id@,
            r.description@ == self.description@,
            r.required == self.required,
    {
        Criterion { id: self.id.clone(), description: self.description.clone(), required: self.required }
    }
}

/// Sets a converged result's criteria outcomes from the answers given for its criteria,
/// in order (all indeterminate without answers), and the stop reason they call for; the
/// rest of the result is kept.
pub fn finalize_with_answers(
    result: ConvergeResult,
    criteria: &Vec<Criterion>,
    answers: Option<Vec<CriterionResult>>,
) -> (r: ConvergeResult)
    requires
        answers matches Some(a) ==> a@.len() == criteria@.len(),
    ensures
        r.context == result.context,
        r.cycles == result.cycles,
        r.converged == result.converged,
        r.integrity == result.integrity,
        r.criteria_outcomes@.len() == criteria@.len(),
        forall|i: int|
            0 <= i < criteria@.len() ==> {
                &&& (#[trigger] r.criteria_outcomes@[i]).criterion.id@ == criteria@[i].id@
                &&& r.criteria_outcomes@[i].criterion.description@ == criteria@[i].description@
                &&& r.criteria_outcomes@[i].criterion.required == criteria@[i].required
                &&& r.criteria_outcomes@[i].result == match answers {
                    Some(a) => a@[i],
                    None => CriterionResult::Indeterminate,
                }
            },
        stop_for(r.criteria_outcomes@, r.stop_reason),
{
    let ghost given = answers;
    let mut rest: Vec<CriterionResult> = match answers {
        Some(a) => a,
        None => Vec::new(),
    };
    let mut outcomes: Vec<CriterionOutcome> = Vec::new();
    let mut i: usize = 0;
    while i < criteria.len()
        invariant
            i <= criteria@.len(),
            outcomes@.len() == i,
            given == answers,
            given matches Some(a) ==> a@.len() == criteria@.len() && rest@ == a@.skip(i as int),
            given is None ==> rest@.len() == 0,
            forall|k: int|
                0 <= k < i ==> {
                    &&& (#[trigger] outcomes@[k]).criterion.id@ == criteria@[k].id@
                    &&& outcomes@[k].criterion.description@ == criteria@[k].description@
                    &&& outcomes@[k].criterion.required == criteria@[k].required
                    &&& outcomes@[k].result == match given {
                        Some(a) => a@[k],
                        None => CriterionResult::Indeterminate,
                    }
                },
        decreases criteria.len() - i,
    {
        let criterion = criteria[i].duplicate();
        let res = if rest.len() > 0 {
            rest.remove(0)
        } else {
            CriterionResult::Indeterminate
        };
        proof {
            if given is Some {
                assert(res == given->Some_0@[i as int]);
                assert(rest@ =~= given->Some_0@.skip(i as int + 1));
            }
        }
        outcomes.push(CriterionOutcome { criterion, result: res });
        i = i + 1;
    }
    let stop_reason = decide_stop(&outcomes);
    ConvergeResult {
        context: result.context,
        cycles: result.cycles,
        converged: result.converged,
        stop_reason,
        criteria_outcomes: outcomes,
        integrity: result.integrity,
    }
}

/// Evaluates the intent's criteria on a converged result (all indeterminate without an
/// evaluator) and sets the stop reason they call for, as [`finalize_with_answers`] does with
/// the evaluator's answers; the rest of the result is kept.
pub fn finalize_types_result(
    result: ConvergeResult,
    criteria: &Vec<Criterion>,
    evaluator: Option<&dyn CriterionEvaluator>,
) -> (r: ConvergeResult)
    ensures
        r.context == result.context,
        r.cycles == result.cycles,
        r.converged == result.converged,
        r.integrity == result.integrity,
        r.criteria_outcomes@.len() == criteria@.len(),
        forall|i: int|
            0 <= i < criteria@.len() ==> {
                &&& (#[trigger] r.criteria_outcomes@[i]).criterion.id@ == criteria@[i].id@
                &&& r.criteria_outcomes@[i].criterion.description@ == criteria@[i].description@
                &&& r.criteria_outcomes@[i].criterion.required == criteria@[i].required
                &&& evaluator is None ==> r.criteria_outcomes@[i].result is Indeterminate
            },
        stop_for(r.criteria_outcomes@, r.stop_reason),
{
    let answers = match evaluator {
        Some(e) => {
            let mut a: Vec<CriterionResult> = Vec::new();
            let mut i: usize = 0;
            while i < criteria.len()
                invariant
                    i <= criteria@.len(),
                    a@.len() == i,
                decreases criteria.len() - i,
            {
                a.push(e.evaluate(&criteria[i], &result.context));
                i = i + 1;
            }
            Some(a)
        },
        None => None,
    };
    finalize_with_answers(result, criteria, answers)
}


/// What a run for a typed intent needs of the intent: the budget it runs under, the
/// packs it is restricted to (none means no restriction), and its success criteria.
pub struct TypesRunIntent {
    /// The budget of the run.
    pub budget: Budget,
    /// The packs whose suggestors take part; empty for all.
    pub active_packs: Vec<String>,
    /// The criteria that decide success.
    pub success_criteria: Vec<Criterion>,
}

/// Run-scoped hooks of a typed run.
pub struct TypesRunHooks {
    /// Judges the success criteria on the converged context, if given.
    pub criterion_evaluator: Option<Box<dyn CriterionEvaluator>>,
}

impl Default for TypesRunHooks {
    /// No evaluator.
    fn default() -> (r: Self)
        ensures
            r.criterion_evaluator is None,
    {
        TypesRunHooks { criterion_evaluator: None }
    }
}

fn copy_texts(v: &Vec<String>) -> (r: Vec<String>)
    ensures
        texts(r@) == texts(v@),
{
    let mut r: Vec<String> = Vec::new();
    let mut i: usize = 0;
    while i < v.len()
        invariant
            i <= v@.len(),
            texts(r@) == texts(v@.take(i as int)),
        decreases v.len() - i,
    {
        let ghost before = r@;
        r.push(v[i].clone());
        assert(texts(r@) =~= texts(before).push(v@[i as int]@));
        assert(texts(v@.take(i as int + 1)) =~= texts(v@.take(i as int)).push(v@[i as int]@));
        i = i + 1;
    }
    assert(v@.take(v@.len() as int) == v@);
    r
}

/// What a typed run returns: on success a converged result under the intent's budget
/// whose criterion outcomes follow the intent's criteria (all indeterminate without an
/// evaluator) and whose stop reason they call for; otherwise a run error.
pub open spec fn typed_run_outcome(
    start: ContextView,
    intent: TypesRunIntent,
    evaluated: bool,
    r: Result<ConvergeResult, ConvergeError>,
) -> bool {
    match r {
        Ok(res) => {
            &&& res.converged
            &&& 1 <= res.cycles <= intent.budget.max_cycles
            &&& res.context.wf()
            &&& grows(start, res.context@)
            &&& nothing_pending(res.context@)
            &&& res.integrity.merkle_root@ == merkle_root_spec(context_hashes(res.context@))
            &&& res.criteria_outcomes@.len() == intent.success_criteria@.len()
            &&& forall|i: int|
                0 <= i < intent.success_criteria@.len() ==> {
                    &&& (#[trigger] res.criteria_outcomes@[i]).criterion.id@ == intent.success_criteria@[i].id@
                    &&& res.criteria_outcomes@[i].criterion.required == intent.success_criteria@[i].required
                    &&& !evaluated ==> res.criteria_outcomes@[i].result is Indeterminate
                }
            &&& stop_for(res.criteria_outcomes@, res.stop_reason)
        },
        Err(e) => run_error(intent.budget, e),
    }
}

impl Engine {
    /// Runs for a typed intent with run-scoped hooks: the run uses the intent's budget
    /// and pack restriction, its criteria are judged on the converged context, and the
    /// engine's own budget and pack restriction are restored afterwards.
    pub fn run_with_types_intent_and_hooks(
        &mut self,
        context: ContextState,
        intent: &TypesRunIntent,
        hooks: TypesRunHooks,
    ) -> (r: Result<ConvergeResult, ConvergeError>)
        requires
            old(self).wf(),
            context.wf(),
        ensures
            final(self).wf(),
            final(self).budget_spec() == old(self).budget_spec(),
            final(self).active_spec() == old(self).active_spec(),
            final(self).deps_spec() == old(self).deps_spec(),
            final(self).packs_spec() == old(self).packs_spec(),
            final(self).invariant_classes() == old(self).invariant_classes(),
            typed_run_outcome(context@, *intent, hooks.criterion_evaluator is Some, r),
    {
        let previous_budget = self.budget;
        let previous_active = self.active_packs.take();
        self.set_budget(intent.budget);
        self.set_active_packs(copy_texts(&intent.active_packs));
        let ghost start = context@;
        let result = match self.run(context) {
            Ok(res) => {
                let finished = match &hooks.criterion_evaluator {
                    Some(ev) => finalize_types_result(res, &intent.success_criteria, Some(&**ev)),
                    None => finalize_types_result(res, &intent.success_criteria, None),
                };
                Ok(finished)
            },
            Err(e) => Err(e),
        };
        self.budget = previous_budget;
        self.active_packs = previous_active;
        result
    }

    /// Runs for a typed intent without hooks.
    pub fn run_with_types_intent(&mut self, context: ContextState, intent: &TypesRunIntent) -> (r: Result<
        ConvergeResult,
        ConvergeError,
    >)
        requires
            old(self).wf(),
            context.wf(),
        ensures
            final(self).wf(),
            final(self).budget_spec() == old(self).budget_spec(),
            final(self).active_spec() == old(self).active_spec(),
            final(self).deps_spec() == old(self).deps_spec(),
            final(self).packs_spec() == old(self).packs_spec(),
            final(self).invariant_classes() == old(self).invariant_classes(),
            typed_run_outcome(context@, *intent, false, r),
    {
        self.run_with_types_intent_and_hooks(context, intent, TypesRunHooks::default())
    }
}

} // verus!
