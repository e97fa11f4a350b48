use vstd::prelude::*;
use vstd::string::*;

use crate::ids::{FactId, ProposalId};
use crate::invariants::{invariant_class_name, InvariantClass};
use crate::text::owned;

verus! {

/// The typed categories under which facts are stored in a context.
#[derive(Debug, Clone, Copy, PartialEq, Eq, Hash, PartialOrd, Ord, Structural)]
pub enum ContextKey {
    /// Initial inputs.
    Seeds,
    /// Tentative explanations.
    Hypotheses,
    /// Candidate plans.
    Strategies,
    /// Limits the outcome must respect.
    Constraints,
    /// Observed market or system signals.
    Signals,
    /// Competitor information.
    Competitors,
    /// Assessments of strategies.
    Evaluations,
    /// Staged proposals surfaced as facts.
    Proposals,
    /// Engine diagnostics.
    Diagnostic,
}

/// Number of context keys.
pub open spec fn key_count() -> int {
    9
}

/// Position of a key in the canonical key order.
pub open spec fn key_index(k: ContextKey) -> int {
    match k {
        ContextKey::Seeds => 0,
        ContextKey::Hypotheses => 1,
        ContextKey::Strategies => 2,
        ContextKey::Constraints => 3,
        ContextKey::Signals => 4,
        ContextKey::Competitors => 5,
        ContextKey::Evaluations => 6,
        ContextKey::Proposals => 7,
        ContextKey::Diagnostic => 8,
    }
}

/// The key at a position of the canonical key order.
pub open spec fn key_at(i: int) -> ContextKey {
    if i == 0 { ContextKey::Seeds } else if i == 1 { ContextKey::Hypotheses }
    else if i == 2 { ContextKey::Strategies } else if i == 3 { ContextKey::Constraints }
    else if i == 4 { ContextKey::Signals } else if i == 5 { ContextKey::Competitors }
    else if i == 6 { ContextKey::Evaluations } else if i == 7 { ContextKey::Proposals }
    else { ContextKey::Diagnostic }
}

/// The variant name of a key, as its debug form prints it.
pub open spec fn key_name(k: ContextKey) -> Seq<char> {
    match k {
        ContextKey::Seeds => "Seeds"@,
        ContextKey::Hypotheses => "Hypotheses"@,
        ContextKey::Strategies => "Strategies"@,
        ContextKey::Constraints => "Constraints"@,
        ContextKey::Signals => "Signals"@,
        ContextKey::Competitors => "Competitors"@,
        ContextKey::Evaluations => "Evaluations"@,
        ContextKey::Proposals => "Proposals"@,
        ContextKey::Diagnostic => "Diagnostic"@,
    }
}

/// Key order and key positions agree.
pub proof fn lemma_key_index(k: ContextKey)
    ensures
        0 <= key_index(k) < key_count(),
        key_at(key_index(k)) == k,
{
}

impl ContextKey {
    /// Position of the key in the canonical key order.
    pub fn index(self) -> (r: usize)
        ensures
            r as int == key_index(self),
            r < 9,
    {
        match self {
            ContextKey::Seeds => 0,
            ContextKey::Hypotheses => 1,
            ContextKey::Strategies => 2,
            ContextKey::Constraints => 3,
            ContextKey::Signals => 4,
            ContextKey::Competitors => 5,
            ContextKey::Evaluations => 6,
            ContextKey::Proposals => 7,
            ContextKey::Diagnostic => 8,
        }
    }

    /// The key at a position of the canonical key order.
    pub fn from_index(i: usize) -> (r: ContextKey)
        requires
            i < 9,
        ensures
            r == key_at(i as int),
            key_index(r) == i,
    {
        if i == 0 { ContextKey::Seeds } else if i == 1 { ContextKey::Hypotheses }
        else if i == 2 { ContextKey::Strategies } else if i == 3 { ContextKey::Constraints }
        else if i == 4 { ContextKey::Signals } else if i == 5 { ContextKey::Competitors }
        else if i == 6 { ContextKey::Evaluations } else if i == 7 { ContextKey::Proposals }
        else { ContextKey::Diagnostic }
    }

    /// The variant name of the key.
    pub fn name(self) -> (r: &'static str)
        ensures
            r@ == key_name(self),
    {
        match self {
            ContextKey::Seeds => "Seeds",
            ContextKey::Hypotheses => "Hypotheses",
            ContextKey::Strategies => "Strategies",
            ContextKey::Constraints => "Constraints",
            ContextKey::Signals => "Signals",
            ContextKey::Competitors => "Competitors",
            ContextKey::Evaluations => "Evaluations",
            ContextKey::Proposals => "Proposals",
            ContextKey::Diagnostic => "Diagnostic",
        }
    }
}

/// A promoted, read-only fact in a context.
#[derive(Debug, Clone, PartialEq, Eq)]
pub struct ContextFact {
    /// The key the fact is stored under.
    pub key: ContextKey,
    /// The fact identifier (unique per key).
    pub id: FactId,
    /// The textual payload.
    pub content: String,
    /// How the fact was promoted, for facts the engine promoted from proposals.
    pub promotion: Option<FactPromotion>,
}

/// The provenance of a promoted fact: the record of its promotion and when it was made.
#[derive(Debug, Clone, PartialEq, Eq)]
pub struct FactPromotion {
    /// The promotion record: gate, approver, validation, evidence and trace.
    pub record: crate::types::PromotionRecord,
    /// When the fact was created.
    pub created_at: crate::time::Timestamp,
}

/// The mathematical value of a fact.
pub struct FactView {
    pub key: ContextKey,
    pub id: Seq<char>,
    pub content: Seq<char>,
}

impl View for ContextFact {
    type V = FactView;

    open spec fn view(&self) -> FactView {
        FactView { key: self.key, id: self.id@, content: self.content@ }
    }
}

impl ContextFact {
    /// Creates a projected fact from its key, identifier and text, without provenance.
    pub fn new(key: ContextKey, id: &str, content: &str) -> (r: Self)
        ensures
            r@ == (FactView { key, id: id@, content: content@ }),
            r.promotion is None,
    {
        ContextFact { key, id: owned(id), content: owned(content), promotion: None }
    }

    /// The key the fact is stored under.
    pub fn key(&self) -> (r: ContextKey)
        ensures
            r == self.key,
    {
        self.key
    }

    /// The fact identifier.
    pub fn id(&self) -> (r: &str)
        ensures
            r@ == self.id@,
    {
        self.id.as_str()
    }

    /// The fact text.
    pub fn content(&self) -> (r: &str)
        ensures
            r@ == self.content@,
    {
        self.content.as_str()
    }

    /// The fact text, present for every text payload.
    pub fn text(&self) -> (r: Option<&str>)
        ensures
            r matches Some(t) && t@ == self.content@,
    {
        Some(self.content.as_str())
    }

    /// Copies the fact.
    pub fn duplicate(&self) -> (r: Self)
        ensures
            r@ == self@,
    {
        ContextFact { key: self.key, id: self.id.clone(), content: self.content.clone(), promotion: self.promotion.clone() }
    }

    /// Whether two facts are identical.
    pub fn same(&self, other: &Self) -> (r: bool)
        ensures
            r == (self@ == other@),
    {
        self.key == other.key && self.id == other.id && self.content == other.content
    }
}

/// A staged suggestion that only the engine may promote into a fact.
#[derive(Debug, Clone, PartialEq, Eq)]
pub struct ProposedFact {
    /// The key the proposal targets.
    pub key: ContextKey,
    /// The proposal identifier (unique per key while pending).
    pub id: ProposalId,
    /// The proposed text.
    pub content: String,
    /// Where the proposal came from.
    pub provenance: String,
    /// How confident the proposer is; full confidence unless it says otherwise.
    pub confidence: crate::recall::UnitInterval,
}

/// The mathematical value of a proposal; its confidence in basis points.
pub struct ProposalView {
    pub key: ContextKey,
    pub id: Seq<char>,
    pub content: Seq<char>,
    pub provenance: Seq<char>,
    pub confidence: nat,
}

impl View for ProposedFact {
    type V = ProposalView;

    open spec fn view(&self) -> ProposalView {
        ProposalView {
            key: self.key,
            id: self.id@,
            content: self.content@,
            provenance: self.provenance@,
            confidence: self.confidence.bp(),
        }
    }
}

impl ProposedFact {
    /// Creates a proposal with full confidence.
    pub fn new(key: ContextKey, id: &str, content: &str, provenance: &str) -> (r: Self)
        ensures
            r@ == (ProposalView { key, id: id@, content: content@, provenance: provenance@, confidence: 10000 }),
    {
        ProposedFact {
            key,
            id: ProposalId::new(id),
            content: owned(content),
            provenance: owned(provenance),
            confidence: crate::recall::UnitInterval::one(),
        }
    }

    /// The same proposal with the given confidence.
    pub fn with_confidence(self, confidence: crate::recall::UnitInterval) -> (r: Self)
        ensures
            r@ == (ProposalView { confidence: confidence.bp(), ..self@ }),
    {
        ProposedFact { confidence, ..self }
    }

    /// How confident the proposer is.
    pub fn confidence(&self) -> (r: crate::recall::UnitInterval)
        ensures
            r == self.confidence,
    {
        self.confidence
    }

    /// The key the proposal targets.
    pub fn key(&self) -> (r: ContextKey)
        ensures
            r == self.key,
    {
        self.key
    }

    /// The proposal identifier.
    pub fn id(&self) -> (r: &str)
        ensures
            r@ == self.id@,
    {
        self.id.as_str()
    }

    /// The proposal text.
    pub fn text(&self) -> (r: Option<&str>)
        ensures
            r matches Some(t) && t@ == self.content@,
    {
        Some(self.content.as_str())
    }

    /// Copies the proposal.
    pub fn duplicate(&self) -> (r: Self)
        ensures
            r@ == self@,
    {
        ProposedFact {
            key: self.key,
            id: self.id.duplicate(),
            content: self.content.clone(),
            provenance: self.provenance.clone(),
            confidence: self.confidence,
        }
    }

    /// Whether two proposals are identical.
    pub fn same(&self, other: &Self) -> (r: bool)
        ensures
            r == (self@ == other@),
    {
        self.key == other.key && self.id.same(&other.id) && self.content == other.content
            && self.provenance == other.provenance
            && self.confidence.to_basis_points() == other.confidence.to_basis_points()
    }
}


/// The mathematical value of a context: facts and pending proposals grouped by key
/// (one group per key, in key order), the keys changed by the last merge, and the version.
pub struct ContextView {
    pub facts: Seq<Seq<FactView>>,
    pub proposals: Seq<Seq<ProposalView>>,
    pub dirty: Seq<ContextKey>,
    pub version: nat,
}

/// Facts of one key in a context value.
pub open spec fn facts_of(v: ContextView, k: ContextKey) -> Seq<FactView> {
    v.facts[key_index(k)]
}

/// Pending proposals of one key in a context value.
pub open spec fn proposals_of(v: ContextView, k: ContextKey) -> Seq<ProposalView> {
    v.proposals[key_index(k)]
}

/// Whether a fact with the given identifier is stored under a key.
pub open spec fn has_fact_id(v: ContextView, k: ContextKey, id: Seq<char>) -> bool {
    exists|j: int| 0 <= j < facts_of(v, k).len() && (#[trigger] facts_of(v, k)[j]).id == id
}

/// Whether a proposal with the given identifier is pending under a key.
pub open spec fn has_proposal_id(v: ContextView, k: ContextKey, id: Seq<char>) -> bool {
    exists|j: int| 0 <= j < proposals_of(v, k).len() && (#[trigger] proposals_of(v, k)[j]).id == id
}

/// Well-formed context values: one group per key, every item stored under its own key,
/// and identifiers unique within a group.
pub open spec fn view_wf(v: ContextView) -> bool {
    &&& v.facts.len() == key_count()
    &&& v.proposals.len() == key_count()
    &&& forall|i: int, j: int|
        0 <= i < key_count() && 0 <= j < v.facts[i].len() ==> (#[trigger] v.facts[i][j]).key
            == key_at(i)
    &&& forall|i: int, j: int|
        0 <= i < key_count() && 0 <= j < v.proposals[i].len() ==> (
        #[trigger] v.proposals[i][j]).key == key_at(i)
    &&& forall|i: int, a: int, b: int|
        0 <= i < key_count() && 0 <= a < b < v.facts[i].len() ==> (#[trigger] v.facts[i][a]).id
            != (#[trigger] v.facts[i][b]).id
    &&& forall|i: int, a: int, b: int|
        0 <= i < key_count() && 0 <= a < b < v.proposals[i].len() ==> (
        #[trigger] v.proposals[i][a]).id != (#[trigger] v.proposals[i][b]).id
}

/// Keys at positions below `n` that hold at least one fact, in key order.
pub open spec fn keys_with_facts_below(v: ContextView, n: int) -> Seq<ContextKey>
    decreases n,
{
    if n <= 0 {
        Seq::empty()
    } else if v.facts[n - 1].len() > 0 {
        keys_with_facts_below(v, n - 1).push(key_at(n - 1))
    } else {
        keys_with_facts_below(v, n - 1)
    }
}

/// Total number of facts in a context value.
pub open spec fn fact_total_below(v: ContextView, n: int) -> nat
    decreases n,
{
    if n <= 0 {
        0
    } else {
        fact_total_below(v, n - 1) + v.facts[n - 1].len()
    }
}

/// Fact totals depend on the facts alone.
pub proof fn lemma_total_same_facts(a: ContextView, b: ContextView, n: int)
    requires
        a.facts == b.facts,
    ensures
        fact_total_below(a, n) == fact_total_below(b, n),
    decreases n,
{
    if n > 0 {
        lemma_total_same_facts(a, b, n - 1);
    }
}

/// Appending one fact to one key's list adds one to the totals that count that key.
pub proof fn lemma_total_push(a: ContextView, b: ContextView, k: int, f: FactView, n: int)
    requires
        0 <= k < key_count(),
        a.facts.len() == key_count(),
        b.facts == a.facts.update(k, a.facts[k].push(f)),
        0 <= n <= key_count(),
    ensures
        fact_total_below(b, n) == fact_total_below(a, n) + (if k < n { 1nat } else { 0nat }),
    decreases n,
{
    if n > 0 {
        lemma_total_push(a, b, k, f, n - 1);
        if n - 1 == k {
            assert(b.facts[k] == a.facts[k].push(f));
        } else {
            assert(b.facts[n - 1] == a.facts[n - 1]);
        }
    }
}

/// All pending proposals of a context value, in key order.
pub open spec fn pending_below(v: ContextView, n: int) -> Seq<ProposalView>
    decreases n,
{
    if n <= 0 {
        Seq::empty()
    } else {
        pending_below(v, n - 1) + v.proposals[n - 1]
    }
}

/// The debug-style rendering of a fact used in conflict reports.
pub open spec fn fact_debug_text(f: FactView) -> Seq<char> {
    "ContextFact { key: "@ + key_name(f.key) + ", id: \""@ + f.id + "\", content: \""@ + f.content
        + "\" }"@
}

/// The debug-style rendering of a proposal used in conflict reports.
pub open spec fn proposal_debug_text(p: ProposalView) -> Seq<char> {
    "ProposedFact { key: "@ + key_name(p.key) + ", id: \""@ + p.id + "\", content: \""@
        + p.content + "\", provenance: \""@ + p.provenance + "\" }"@
}

/// Renders a fact for a conflict report.
pub fn fact_debug(f: &ContextFact) -> (r: String)
    ensures
        r@ == fact_debug_text(f@),
{
    let mut s = String::new();
    s.append("ContextFact { key: ");
    s.append(f.key.name());
    s.append(", id: \"");
    s.append(f.id.as_str());
    s.append("\", content: \"");
    s.append(f.content.as_str());
    s.append("\" }");
    s
}

/// Renders a proposal for a conflict report.
pub fn proposal_debug(p: &ProposedFact) -> (r: String)
    ensures
        r@ == proposal_debug_text(p@),
{
    let mut s = String::new();
    s.append("ProposedFact { key: ");
    s.append(p.key.name());
    s.append(", id: \"");
    s.append(p.id.as_str());
    s.append("\", content: \"");
    s.append(p.content.as_str());
    s.append("\", provenance: \"");
    s.append(p.provenance.as_str());
    s.append("\" }");
    s
}

/// Errors raised by the engine and the context.
#[derive(Debug)]
pub enum ConvergeError {
    /// A budget was exhausted.
    BudgetExhausted { kind: String },
    /// An invariant was violated.
    InvariantViolation { name: String, class: InvariantClass, reason: String, context: Box<ContextState> },
    /// A suggestor failed.
    AgentFailed { agent_id: String },
    /// A suggestor emitted proposals with empty provenance.
    EmptyProvenance { suggestor: String },
    /// A gate resume was invalid.
    InvalidResume { reason: String },
    /// An admission was invalid.
    InvalidAdmission { reason: String },
    /// A stored context snapshot was invalid.
    InvalidSnapshot { reason: String },
    /// Two different items were submitted under the same identifier.
    Conflict { id: String, existing: String, new: String, context: Box<ContextState> },
}

/// The shared context for a Converge job.
#[derive(Debug)]
pub struct ContextState {
    facts: Vec<Vec<ContextFact>>,
    proposals: Vec<Vec<ProposedFact>>,
    dirty_keys: Vec<ContextKey>,
    version: u64,
}

/// The views of a list of facts.
pub open spec fn fact_views(s: Seq<ContextFact>) -> Seq<FactView> {
    s.map_values(|f: ContextFact| f@)
}

/// The views of a list of proposals.
pub open spec fn proposal_views(s: Seq<ProposedFact>) -> Seq<ProposalView> {
    s.map_values(|p: ProposedFact| p@)
}

impl View for ContextState {
    type V = ContextView;

    closed spec fn view(&self) -> ContextView {
        ContextView {
            facts: self.facts@.map_values(|b: Vec<ContextFact>| fact_views(b@)),
            proposals: self.proposals@.map_values(|b: Vec<ProposedFact>| proposal_views(b@)),
            dirty: self.dirty_keys@,
            version: self.version as nat,
        }
    }
}

fn find_fact(bucket: &Vec<ContextFact>, id: &String) -> (r: Option<usize>)
    ensures
        match r {
            Some(j) => j < bucket@.len() && bucket@[j as int].id@ == id@,
            None => forall|j: int| 0 <= j < bucket@.len() ==> (#[trigger] bucket@[j]).id@ != id@,
        },
{
    let mut j: usize = 0;
    while j < bucket.len()
        invariant
            j <= bucket@.len(),
            forall|k: int| 0 <= k < j ==> (#[trigger] bucket@[k]).id@ != id@,
        decreases bucket.len() - j,
    {
        if bucket[j].id == *id {
            return Some(j);
        }
        j = j + 1;
    }
    None
}

fn find_proposal(bucket: &Vec<ProposedFact>, id: &ProposalId) -> (r: Option<usize>)
    ensures
        match r {
            Some(j) => j < bucket@.len() && bucket@[j as int].id@ == id@,
            None => forall|j: int| 0 <= j < bucket@.len() ==> (#[trigger] bucket@[j]).id@ != id@,
        },
{
    let mut j: usize = 0;
    while j < bucket.len()
        invariant
            j <= bucket@.len(),
            forall|k: int| 0 <= k < j ==> (#[trigger] bucket@[k]).id@ != id@,
        decreases bucket.len() - j,
    {
        if bucket[j].id.same(id) {
            return Some(j);
        }
        j = j + 1;
    }
    None
}

fn copy_facts(v: &Vec<ContextFact>) -> (r: Vec<ContextFact>)
    ensures
        fact_views(r@) == fact_views(v@),
{
    let mut r: Vec<ContextFact> = Vec::new();
    let mut j: usize = 0;
    while j < v.len()
        invariant
            j <= v@.len(),
            r@.len() == j,
            forall|k: int| 0 <= k < j ==> (#[trigger] r@[k])@ == v@[k]@,
        decreases v.len() - j,
    {
        r.push(v[j].duplicate());
        j = j + 1;
    }
    assert(fact_views(r@) =~= fact_views(v@));
    r
}

fn copy_proposals(v: &Vec<ProposedFact>) -> (r: Vec<ProposedFact>)
    ensures
        proposal_views(r@) == proposal_views(v@),
{
    let mut r: Vec<ProposedFact> = Vec::new();
    let mut j: usize = 0;
    while j < v.len()
        invariant
            j <= v@.len(),
            r@.len() == j,
            forall|k: int| 0 <= k < j ==> (#[trigger] r@[k])@ == v@[k]@,
        decreases v.len() - j,
    {
        r.push(v[j].duplicate());
        j = j + 1;
    }
    assert(proposal_views(r@) =~= proposal_views(v@));
    r
}

impl ContextState {
    /// Raw shape and value well-formedness.
    pub closed spec fn wf(&self) -> bool {
        &&& self.facts@.len() == key_count()
        &&& self.proposals@.len() == key_count()
        &&& view_wf(self@)
    }

    /// A well-formed context has a well-formed value.
    pub proof fn lemma_wf(&self)
        requires
            self.wf(),
        ensures
            view_wf(self@),
    {
    }

    /// Creates a new empty context.
    pub fn new() -> (r: Self)
        ensures
            r.wf(),
            r@.facts == Seq::new(9, |i: int| Seq::<FactView>::empty()),
            r@.proposals == Seq::new(9, |i: int| Seq::<ProposalView>::empty()),
            r@.dirty == Seq::<ContextKey>::empty(),
            r@.version == 0,
    {
        let mut facts: Vec<Vec<ContextFact>> = Vec::new();
        let mut proposals: Vec<Vec<ProposedFact>> = Vec::new();
        let mut i: usize = 0;
        while i < 9
            invariant
                i <= 9,
                facts@.len() == i,
                proposals@.len() == i,
                forall|j: int| 0 <= j < i ==> (#[trigger] facts@[j])@.len() == 0,
                forall|j: int| 0 <= j < i ==> (#[trigger] proposals@[j])@.len() == 0,
            decreases 9 - i,
        {
            facts.push(Vec::new());
            proposals.push(Vec::new());
            i = i + 1;
        }
        let r = ContextState { facts, proposals, dirty_keys: Vec::new(), version: 0 };
        assert forall|i: int| 0 <= i < 9 implies r@.facts[i] =~= Seq::<FactView>::empty() by {
            assert(r@.facts[i] == fact_views(facts@[i]@));
        }
        assert forall|i: int| 0 <= i < 9 implies r@.proposals[i] =~= Seq::<ProposalView>::empty() by {
            assert(r@.proposals[i] == proposal_views(proposals@[i]@));
        }
        assert(r@.facts =~= Seq::new(9, |i: int| Seq::<FactView>::empty()));
        assert(r@.proposals =~= Seq::new(9, |i: int| Seq::<ProposalView>::empty()));
        r
    }

    /// Copies the whole context.
    pub fn duplicate(&self) -> (r: Self)
        requires
            self.wf(),
        ensures
            r.wf(),
            r@ == self@,
    {
        let mut facts: Vec<Vec<ContextFact>> = Vec::new();
        let mut proposals: Vec<Vec<ProposedFact>> = Vec::new();
        let mut i: usize = 0;
        while i < 9
            invariant
                i <= 9,
                self.wf(),
                facts@.len() == i,
                proposals@.len() == i,
                forall|j: int| 0 <= j < i ==> fact_views((#[trigger] facts@[j])@) == self@.facts[j],
                forall|j: int|
                    0 <= j < i ==> proposal_views((#[trigger] proposals@[j])@) == self@.proposals[j],
            decreases 9 - i,
        {
            facts.push(copy_facts(&self.facts[i]));
            proposals.push(copy_proposals(&self.proposals[i]));
            i = i + 1;
        }
        let mut dirty: Vec<ContextKey> = Vec::new();
        let mut k: usize = 0;
        while k < self.dirty_keys.len()
            invariant
                k <= self.dirty_keys@.len(),
                dirty@ == self.dirty_keys@.take(k as int),
            decreases self.dirty_keys.len() - k,
        {
            dirty.push(self.dirty_keys[k]);
            k = k + 1;
        }
        assert(dirty@ == self.dirty_keys@.take(self.dirty_keys@.len() as int));
        let r = ContextState { facts, proposals, dirty_keys: dirty, version: self.version };
        assert(r@.facts =~= self@.facts);
        assert(r@.proposals =~= self@.proposals);
        assert(r@.dirty =~= self@.dirty);
        r
    }

    /// Returns all facts for a given key.
    pub fn get(&self, key: ContextKey) -> (r: &[ContextFact])
        ensures
            self.wf() ==> fact_views(r@) == facts_of(self@, key),
    {
        let i = key.index();
        if i < self.facts.len() {
            self.facts[i].as_slice()
        } else {
            &[]
        }
    }

    /// Returns all pending proposals for a given key.
    pub fn get_proposals(&self, key: ContextKey) -> (r: &[ProposedFact])
        ensures
            self.wf() ==> proposal_views(r@) == proposals_of(self@, key),
    {
        let i = key.index();
        if i < self.proposals.len() {
            self.proposals[i].as_slice()
        } else {
            &[]
        }
    }

    /// Returns true if there are any facts for the given key.
    pub fn has(&self, key: ContextKey) -> (r: bool)
        ensures
            self.wf() ==> r == (facts_of(self@, key).len() > 0),
    {
        self.get(key).len() > 0
    }

    /// Returns the current version (for convergence detection).
    pub fn version(&self) -> (r: u64)
        ensures
            r == self@.version,
    {
        self.version
    }

    /// Returns keys that changed in the last merge cycle.
    pub fn dirty_keys(&self) -> (r: &[ContextKey])
        ensures
            r@ == self@.dirty,
    {
        self.dirty_keys.as_slice()
    }

    /// Returns all keys that currently have facts, in key order.
    pub fn all_keys(&self) -> (r: Vec<ContextKey>)
        requires
            self.wf(),
        ensures
            r@ == keys_with_facts_below(self@, key_count()),
    {
        let mut r: Vec<ContextKey> = Vec::new();
        let mut i: usize = 0;
        while i < 9
            invariant
                i <= 9,
                self.wf(),
                r@ == keys_with_facts_below(self@, i as int),
            decreases 9 - i,
        {
            if self.facts[i].len() > 0 {
                r.push(ContextKey::from_index(i));
            }
            i = i + 1;
        }
        r
    }

    /// Total number of facts.
    pub fn fact_count(&self) -> (r: u64)
        requires
            self.wf(),
            fact_total_below(self@, key_count()) <= u64::MAX,
        ensures
            r == fact_total_below(self@, key_count()),
    {
        let mut total: u64 = 0;
        let mut i: usize = 0;
        while i < 9
            invariant
                i <= 9,
                self.wf(),
                fact_total_below(self@, key_count()) <= u64::MAX,
                total == fact_total_below(self@, i as int),
            decreases 9 - i,
        {
            proof { lemma_fact_total_monotone(self@, i as int + 1, key_count()); }
            total = total + self.facts[i].len() as u64;
            i = i + 1;
        }
        total
    }

    /// Returns true if any staged proposals are pending promotion.
    pub fn has_pending_proposals(&self) -> (r: bool)
        requires
            self.wf(),
        ensures
            r == exists|i: int| 0 <= i < key_count() && (#[trigger] self@.proposals[i]).len() > 0,
    {
        let mut i: usize = 0;
        while i < 9
            invariant
                i <= 9,
                self.wf(),
                forall|j: int| 0 <= j < i ==> (#[trigger] self@.proposals[j]).len() == 0,
            decreases 9 - i,
        {
            assert(self@.proposals[i as int] == proposal_views(self.proposals@[i as int]@));
            if self.proposals[i].len() > 0 {
                return true;
            }
            i = i + 1;
        }
        false
    }

    /// Clears the dirty key tracker (called at start of each cycle).
    pub fn clear_dirty(&mut self)
        requires
            old(self).wf(),
        ensures
            final(self).wf(),
            final(self)@ == (ContextView { dirty: Seq::empty(), ..old(self)@ }),
    {
        self.dirty_keys = Vec::new();
        assert(self@.facts == old(self)@.facts);
    }
}

/// What adding a fact does: a new identifier appends the fact, marks its key dirty
/// and bumps the version; an identical fact changes nothing; a different fact under
/// a known identifier is a conflict that changes nothing.
pub open spec fn fact_add_outcome(a: ContextView, f: FactView, r: Result<bool, ConvergeError>, b: ContextView) -> bool {
    match r {
        Ok(true) => {
            &&& !has_fact_id(a, f.key, f.id)
            &&& b == (ContextView {
                facts: a.facts.update(
                    key_index(f.key),
                    facts_of(a, f.key).push(f),
                ),
                proposals: a.proposals.update(key_index(f.key), Seq::empty()),
                dirty: a.dirty.push(f.key),
                version: a.version + 1,
            })
        },
        Ok(false) => {
            &&& facts_of(a, f.key).contains(f)
            &&& b == a
        },
        Err(ConvergeError::Conflict { id, existing, new, .. }) => {
            &&& has_fact_id(a, f.key, f.id)
            &&& !facts_of(a, f.key).contains(f)
            &&& id@ == f.id
            &&& new@ == fact_debug_text(f)
            &&& exists|j: int|
                0 <= j < facts_of(a, f.key).len() && (#[trigger] facts_of(
                    a,
                    f.key,
                )[j]).id == f.id && existing@ == fact_debug_text(
                    facts_of(a, f.key)[j],
                )
            &&& b == a
        },
        Err(_) => false,
    }
}

impl ContextState {
    /// Adds a fact to the context (engine-only, during the merge phase).
    ///
    /// Returns `Ok(true)` if the fact was new (context changed), `Ok(false)` if an
    /// identical fact was already present, and a conflict when a different fact
    /// already carries the same identifier under the same key.
    pub fn add_fact(&mut self, fact: ContextFact) -> (r: Result<bool, ConvergeError>)
        requires
            old(self).wf(),
            old(self)@.version < u64::MAX,
        ensures
            final(self).wf(),
            fact_add_outcome(old(self)@, fact@, r, final(self)@),
    {
        let i = fact.key.index();
        let ghost v = old(self)@;
        proof {
            assert(v.facts[i as int] == fact_views(self.facts@[i as int]@));
        }
        match find_fact(&self.facts[i], &fact.id) {
            Some(j) => {
                proof {
                    assert(fact_views(self.facts@[i as int]@)[j as int] == self.facts@[i as int]@[j as int]@);
                }
                if self.facts[i][j].same(&fact) {
                    proof {
                        assert(facts_of(v, fact.key)[j as int] == fact@);
                    }
                    Ok(false)
                } else {
                    proof {
                        if facts_of(v, fact.key).contains(fact@) {
                            let k = choose|k: int| 0 <= k < facts_of(v, fact.key).len() && facts_of(v, fact.key)[k] == fact@;
                            assert(facts_of(v, fact.key)[k].id == facts_of(v, fact.key)[j as int].id);
                            if k < j { assert(v.facts[i as int][k].id != v.facts[i as int][j as int].id); }
                            if j < k { assert(v.facts[i as int][j as int].id != v.facts[i as int][k].id); }
                        }
                        assert(facts_of(v, fact.key)[j as int].id == fact.id@);
                    }
                    let existing = fact_debug(&self.facts[i][j]);
                    let new = fact_debug(&fact);
                    let id = fact.id.clone();
                    let context = Box::new(self.duplicate());
                    Err(ConvergeError::Conflict { id, existing, new, context })
                }
            },
            None => {
                proof {
                    assert forall|k: int| 0 <= k < facts_of(v, fact.key).len() implies (#[trigger] facts_of(v, fact.key)[k]).id != fact.id@ by {
                        assert(facts_of(v, fact.key)[k] == self.facts@[i as int]@[k]@);
                    }
                }
                let key = fact.key;
                let ghost fv = fact@;
                self.facts[i].push(fact);
                self.proposals[i] = Vec::new();
                self.dirty_keys.push(key);
                self.version = self.version + 1;
                proof {
                    let w = self@;
                    let nf = v.facts.update(key_index(key), facts_of(v, key).push(fv));
                    assert forall|q: int| 0 <= q < 9 implies w.facts[q] =~= nf[q] by {
                        assert(w.facts[q] == fact_views(self.facts@[q]@));
                        if q != i {
                            assert(self.facts@[q] == old(self).facts@[q]);
                            assert(v.facts[q] == fact_views(old(self).facts@[q]@));
                        }
                    }
                    assert(w.facts =~= nf);
                    let np = v.proposals.update(key_index(key), Seq::<ProposalView>::empty());
                    assert forall|q: int| 0 <= q < 9 implies w.proposals[q] =~= np[q] by {
                        assert(w.proposals[q] == proposal_views(self.proposals@[q]@));
                        if q != i {
                            assert(self.proposals@[q] == old(self).proposals@[q]);
                            assert(v.proposals[q] == proposal_views(old(self).proposals@[q]@));
                        }
                    }
                    assert(w.proposals =~= np);
                    assert forall|q: int, a: int, b: int|
                        0 <= q < key_count() && 0 <= a < b < w.facts[q].len() implies (#[trigger] w.facts[q][a]).id
                            != (#[trigger] w.facts[q][b]).id by {
                        if q == i && b == w.facts[q].len() - 1 {
                            assert(w.facts[q][a] == facts_of(v, key)[a]);
                        }
                    }
                }
                Ok(true)
            },
        }
    }
}

/// What staging a proposal does: a new identifier appends it; an identical pending
/// proposal changes nothing; a different proposal under a pending identifier is a
/// conflict that changes nothing.
pub open spec fn proposal_add_outcome(a: ContextView, p: ProposalView, r: Result<bool, ConvergeError>, b: ContextView) -> bool {
    match r {
        Ok(true) => {
            &&& !has_proposal_id(a, p.key, p.id)
            &&& b == (ContextView {
                proposals: a.proposals.update(
                    key_index(p.key),
                    proposals_of(a, p.key).push(p),
                ),
                ..a
            })
        },
        Ok(false) => {
            &&& proposals_of(a, p.key).contains(p)
            &&& b == a
        },
        Err(ConvergeError::Conflict { id, existing, new, .. }) => {
            &&& has_proposal_id(a, p.key, p.id)
            &&& !proposals_of(a, p.key).contains(p)
            &&& id@ == p.id
            &&& new@ == proposal_debug_text(p)
            &&& exists|j: int|
                0 <= j < proposals_of(a, p.key).len() && (
                #[trigger] proposals_of(a, p.key)[j]).id == p.id
                    && existing@ == proposal_debug_text(
                    proposals_of(a, p.key)[j],
                )
            &&& b == a
        },
        Err(_) => false,
    }
}

impl ContextState {
    /// Stages a proposal for engine validation/promotion.
    ///
    /// Returns `Ok(true)` if the proposal was new, `Ok(false)` if an identical
    /// proposal is already pending, and a conflict when a different proposal with
    /// the same identifier is pending under the same key.
    pub fn add_proposal(&mut self, proposal: ProposedFact) -> (r: Result<bool, ConvergeError>)
        requires
            old(self).wf(),
        ensures
            final(self).wf(),
            proposal_add_outcome(old(self)@, proposal@, r, final(self)@),
    {
        let i = proposal.key.index();
        let ghost v = old(self)@;
        proof {
            assert(v.proposals[i as int] == proposal_views(self.proposals@[i as int]@));
        }
        match find_proposal(&self.proposals[i], &proposal.id) {
            Some(j) => {
                proof {
                    assert(proposal_views(self.proposals@[i as int]@)[j as int] == self.proposals@[i as int]@[j as int]@);
                }
                if self.proposals[i][j].same(&proposal) {
                    proof {
                        assert(proposals_of(v, proposal.key)[j as int] == proposal@);
                    }
                    Ok(false)
                } else {
                    proof {
                        if proposals_of(v, proposal.key).contains(proposal@) {
                            let k = choose|k: int| 0 <= k < proposals_of(v, proposal.key).len() && proposals_of(v, proposal.key)[k] == proposal@;
                            assert(proposals_of(v, proposal.key)[k].id == proposals_of(v, proposal.key)[j as int].id);
                            if k < j { assert(v.proposals[i as int][k].id != v.proposals[i as int][j as int].id); }
                            if j < k { assert(v.proposals[i as int][j as int].id != v.proposals[i as int][k].id); }
                        }
                        assert(proposals_of(v, proposal.key)[j as int].id == proposal.id@);
                    }
                    let existing = proposal_debug(&self.proposals[i][j]);
                    let new = proposal_debug(&proposal);
                    let id = proposal.id.0.clone();
                    let context = Box::new(self.duplicate());
                    Err(ConvergeError::Conflict { id, existing, new, context })
                }
            },
            None => {
                proof {
                    assert forall|k: int| 0 <= k < proposals_of(v, proposal.key).len() implies (#[trigger] proposals_of(v, proposal.key)[k]).id != proposal.id@ by {
                        assert(proposals_of(v, proposal.key)[k] == self.proposals@[i as int]@[k]@);
                    }
                }
                let key = proposal.key;
                let ghost pv = proposal@;
                self.proposals[i].push(proposal);
                proof {
                    let w = self@;
                    let np = v.proposals.update(key_index(key), proposals_of(v, key).push(pv));
                    assert forall|q: int| 0 <= q < 9 implies w.proposals[q] =~= np[q] by {
                        assert(w.proposals[q] == proposal_views(self.proposals@[q]@));
                        if q != i {
                            assert(self.proposals@[q] == old(self).proposals@[q]);
                            assert(v.proposals[q] == proposal_views(old(self).proposals@[q]@));
                        }
                    }
                    assert(w.proposals =~= np);
                    assert(w.facts =~= v.facts);
                    assert forall|q: int, a: int, b: int|
                        0 <= q < key_count() && 0 <= a < b < w.proposals[q].len() implies (#[trigger] w.proposals[q][a]).id
                            != (#[trigger] w.proposals[q][b]).id by {
                        if q == i && b == w.proposals[q].len() - 1 {
                            assert(w.proposals[q][a] == proposals_of(v, key)[a]);
                        }
                    }
                }
                Ok(true)
            },
        }
    }

    /// Stages external input as a proposal to be governed by the engine.
    pub fn add_input(&mut self, key: ContextKey, id: &str, content: &str) -> (r: Result<bool, ConvergeError>)
        requires
            old(self).wf(),
        ensures
            final(self).wf(),
            r matches Ok(true) ==> final(self)@ == (ContextView {
                proposals: old(self)@.proposals.update(
                    key_index(key),
                    proposals_of(old(self)@, key).push(
                        ProposalView { key, id: id@, content: content@, provenance: "context-input"@, confidence: 10000 },
                    ),
                ),
                ..old(self)@
            }),
            r matches Ok(true) ==> !has_proposal_id(old(self)@, key, id@),
            r matches Ok(false) ==> final(self)@ == old(self)@ && proposals_of(old(self)@, key).contains(
                ProposalView { key, id: id@, content: content@, provenance: "context-input"@, confidence: 10000 },
            ),
            r is Err ==> final(self)@ == old(self)@ && has_proposal_id(old(self)@, key, id@),
    {
        self.add_input_with_provenance(key, id, content, "context-input")
    }

    /// Stages external input with explicit provenance.
    pub fn add_input_with_provenance(
        &mut self,
        key: ContextKey,
        id: &str,
        content: &str,
        provenance: &str,
    ) -> (r: Result<bool, ConvergeError>)
        requires
            old(self).wf(),
        ensures
            final(self).wf(),
            r matches Ok(true) ==> final(self)@ == (ContextView {
                proposals: old(self)@.proposals.update(
                    key_index(key),
                    proposals_of(old(self)@, key).push(
                        ProposalView { key, id: id@, content: content@, provenance: provenance@, confidence: 10000 },
                    ),
                ),
                ..old(self)@
            }),
            r matches Ok(true) ==> !has_proposal_id(old(self)@, key, id@),
            r matches Ok(false) ==> final(self)@ == old(self)@ && proposals_of(old(self)@, key).contains(
                ProposalView { key, id: id@, content: content@, provenance: provenance@, confidence: 10000 },
            ),
            r is Err ==> final(self)@ == old(self)@ && has_proposal_id(old(self)@, key, id@),
    {
        self.add_proposal(ProposedFact::new(key, id, content, provenance))
    }

    /// Drains all pending proposals from the context, in key order.
    pub fn drain_proposals(&mut self) -> (r: Vec<ProposedFact>)
        requires
            old(self).wf(),
        ensures
            final(self).wf(),
            proposal_views(r@) == pending_below(old(self)@, key_count()),
            final(self)@ == (ContextView {
                proposals: Seq::new(9, |i: int| Seq::<ProposalView>::empty()),
                ..old(self)@
            }),
    {
        let ghost v = old(self)@;
        let mut drained: Vec<ProposedFact> = Vec::new();
        let mut i: usize = 0;
        while i < 9
            invariant
                i <= 9,
                self.facts@ == old(self).facts@,
                self.dirty_keys@ == old(self).dirty_keys@,
                self.version == old(self).version,
                self.proposals@.len() == 9,
                forall|q: int| 0 <= q < i ==> (#[trigger] self.proposals@[q])@.len() == 0,
                forall|q: int| i <= q < 9 ==> (#[trigger] self.proposals@[q]) == old(self).proposals@[q],
                proposal_views(drained@) == pending_below(v, i as int),
                v == old(self)@,
                old(self).wf(),
            decreases 9 - i,
        {
            let mut bucket: Vec<ProposedFact> = Vec::new();
            std::mem::swap(&mut bucket, &mut self.proposals[i]);
            proof {
                assert(bucket == old(self).proposals@[i as int]);
                assert(v.proposals[i as int] == proposal_views(bucket@));
            }
            let ghost before = drained@;
            drained.append(&mut bucket);
            proof {
                assert(proposal_views(drained@) =~= proposal_views(before) + proposal_views(old(self).proposals@[i as int]@));
            }
            i = i + 1;
        }
        proof {
            let w = self@;
            assert forall|q: int| 0 <= q < 9 implies w.proposals[q] =~= Seq::<ProposalView>::empty() by {
                assert(w.proposals[q] == proposal_views(self.proposals@[q]@));
            }
            assert(w.proposals =~= Seq::new(9, |i: int| Seq::<ProposalView>::empty()));
            assert(w.facts =~= v.facts);
        }
        drained
    }
}

/// Adding more key groups never lowers the running fact total.
pub proof fn lemma_fact_total_monotone(v: ContextView, a: int, b: int)
    requires
        0 <= a <= b,
    ensures
        fact_total_below(v, a) <= fact_total_below(v, b),
    decreases b - a,
{
    if a < b {
        lemma_fact_total_monotone(v, a, b - 1);
    }
}


/// The proposals of a list other than those with the given identifier, in order.
pub open spec fn without_id(s: Seq<ProposalView>, id: Seq<char>) -> Seq<ProposalView>
    decreases s.len(),
{
    if s.len() == 0 {
        Seq::empty()
    } else if s.last().id == id {
        without_id(s.drop_last(), id)
    } else {
        without_id(s.drop_last(), id).push(s.last())
    }
}

proof fn lemma_without_id_sub(s: Seq<ProposalView>, id: Seq<char>, k: int)
    requires
        0 <= k < without_id(s, id).len(),
    ensures
        exists|j: int| 0 <= j < s.len() && s[j] == without_id(s, id)[k],
        without_id(s, id)[k].id != id,
    decreases s.len(),
{
    if s.len() > 0 {
        let w = without_id(s.drop_last(), id);
        if s.last().id == id {
            lemma_without_id_sub(s.drop_last(), id, k);
            let j = choose|j: int| 0 <= j < s.drop_last().len() && s.drop_last()[j] == w[k];
            assert(s[j] == w[k]);
        } else if k < w.len() {
            lemma_without_id_sub(s.drop_last(), id, k);
            let j = choose|j: int| 0 <= j < s.drop_last().len() && s.drop_last()[j] == w[k];
            assert(s[j] == w[k]);
        } else {
            assert(s[s.len() - 1] == without_id(s, id)[k]);
        }
    }
}

proof fn lemma_without_id_order(s: Seq<ProposalView>, id: Seq<char>, a: int, b: int)
    requires
        0 <= a < b < without_id(s, id).len(),
    ensures
        exists|i: int, j: int| 0 <= i < j < s.len() && s[i] == without_id(s, id)[a] && s[j] == without_id(s, id)[b],
    decreases s.len(),
{
    if s.len() > 0 {
        let w = without_id(s.drop_last(), id);
        if s.last().id == id {
            lemma_without_id_order(s.drop_last(), id, a, b);
            let (i, j) = choose|i: int, j: int| 0 <= i < j < s.drop_last().len() && s.drop_last()[i] == w[a] && s.drop_last()[j] == w[b];
            assert(s[i] == w[a] && s[j] == w[b]);
        } else if b < w.len() {
            lemma_without_id_order(s.drop_last(), id, a, b);
            let (i, j) = choose|i: int, j: int| 0 <= i < j < s.drop_last().len() && s.drop_last()[i] == w[a] && s.drop_last()[j] == w[b];
            assert(s[i] == w[a] && s[j] == w[b]);
        } else {
            lemma_without_id_sub(s.drop_last(), id, a);
            let i = choose|i: int| 0 <= i < s.drop_last().len() && s.drop_last()[i] == w[a];
            assert(s[i] == w[a]);
            assert(s[s.len() - 1] == without_id(s, id)[b]);
        }
    }
}

impl ContextState {
    /// Removes the pending proposals with the given identifier under a key.
    pub fn remove_proposal(&mut self, key: ContextKey, id: &ProposalId)
        requires
            old(self).wf(),
        ensures
            final(self).wf(),
            final(self)@ == (ContextView {
                proposals: old(self)@.proposals.update(
                    key_index(key),
                    without_id(proposals_of(old(self)@, key), id@),
                ),
                ..old(self)@
            }),
    {
        let i = key.index();
        let ghost v = old(self)@;
        let ghost row = proposals_of(v, key);
        assert(row == proposal_views(self.proposals@[i as int]@));
        let mut kept: Vec<ProposedFact> = Vec::new();
        let mut j: usize = 0;
        while j < self.proposals[i].len()
            invariant
                i < 9,
                self.proposals@.len() == 9,
                self.proposals@[i as int] == old(self).proposals@[i as int],
                row == proposal_views(self.proposals@[i as int]@),
                j <= row.len(),
                proposal_views(kept@) == without_id(row.take(j as int), id@),
            decreases self.proposals@[i as int]@.len() - j,
        {
            assert(row.take(j as int + 1).drop_last() == row.take(j as int));
            assert(row[j as int] == self.proposals@[i as int]@[j as int]@);
            if !self.proposals[i][j].id.same(id) {
                let ghost before = proposal_views(kept@);
                kept.push(self.proposals[i][j].duplicate());
                assert(proposal_views(kept@) =~= before.push(row[j as int]));
            }
            j = j + 1;
        }
        assert(row.take(row.len() as int) == row);
        self.proposals[i] = kept;
        proof {
            let w = self@;
            let np = v.proposals.update(key_index(key), without_id(row, id@));
            assert forall|q: int| 0 <= q < 9 implies w.proposals[q] =~= np[q] by {
                assert(w.proposals[q] == proposal_views(self.proposals@[q]@));
                if q != i {
                    assert(self.proposals@[q] == old(self).proposals@[q]);
                    assert(v.proposals[q] == proposal_views(old(self).proposals@[q]@));
                }
            }
            assert(w.proposals =~= np);
            assert(w.facts =~= v.facts);
            assert forall|q: int, a: int|
                0 <= q < key_count() && 0 <= a < w.proposals[q].len() implies (#[trigger] w.proposals[q][a]).key
                    == key_at(q) by {
                if q == i {
                    lemma_without_id_sub(row, id@, a);
                }
            }
            assert forall|q: int, a: int, b: int|
                0 <= q < key_count() && 0 <= a < b < w.proposals[q].len() implies (#[trigger] w.proposals[q][a]).id
                    != (#[trigger] w.proposals[q][b]).id by {
                if q == i {
                    lemma_without_id_order(row, id@, a, b);
                }
            }
        }
    }
}


/// The value of a context built from fact and proposal groups, with no dirty key.
pub open spec fn parts_view(facts: Seq<Vec<ContextFact>>, proposals: Seq<Vec<ProposedFact>>, version: u64) -> ContextView {
    ContextView {
        facts: facts.map_values(|b: Vec<ContextFact>| fact_views(b@)),
        proposals: proposals.map_values(|b: Vec<ProposedFact>| proposal_views(b@)),
        dirty: Seq::empty(),
        version: version as nat,
    }
}

impl ContextState {
    /// Builds a context from well-formed fact and proposal groups (one per key, in key order).
    pub fn from_parts(facts: Vec<Vec<ContextFact>>, proposals: Vec<Vec<ProposedFact>>, version: u64) -> (r: Self)
        requires
            facts@.len() == key_count(),
            proposals@.len() == key_count(),
            view_wf(parts_view(facts@, proposals@, version)),
        ensures
            r.wf(),
            r@ == parts_view(facts@, proposals@, version),
    {
        let r = ContextState { facts, proposals, dirty_keys: Vec::new(), version };
        assert(r@ =~= parts_view(facts@, proposals@, version));
        r
    }

    /// Copies the fact groups, one per key in key order.
    pub fn fact_groups(&self) -> (r: Vec<Vec<ContextFact>>)
        requires
            self.wf(),
        ensures
            r@.len() == key_count(),
            r@.map_values(|b: Vec<ContextFact>| fact_views(b@)) == self@.facts,
    {
        let mut r: Vec<Vec<ContextFact>> = Vec::new();
        let mut i: usize = 0;
        while i < 9
            invariant
                i <= 9,
                self.wf(),
                r@.len() == i,
                forall|j: int| 0 <= j < i ==> fact_views((#[trigger] r@[j])@) == self@.facts[j],
            decreases 9 - i,
        {
            r.push(copy_facts(&self.facts[i]));
            i = i + 1;
        }
        assert(r@.map_values(|b: Vec<ContextFact>| fact_views(b@)) =~= self@.facts);
        r
    }

    /// Copies the proposal groups, one per key in key order.
    pub fn proposal_groups(&self) -> (r: Vec<Vec<ProposedFact>>)
        requires
            self.wf(),
        ensures
            r@.len() == key_count(),
            r@.map_values(|b: Vec<ProposedFact>| proposal_views(b@)) == self@.proposals,
    {
        let mut r: Vec<Vec<ProposedFact>> = Vec::new();
        let mut i: usize = 0;
        while i < 9
            invariant
                i <= 9,
                self.wf(),
                r@.len() == i,
                forall|j: int| 0 <= j < i ==> proposal_views((#[trigger] r@[j])@) == self@.proposals[j],
            decreases 9 - i,
        {
            r.push(copy_proposals(&self.proposals[i]));
            i = i + 1;
        }
        assert(r@.map_values(|b: Vec<ProposedFact>| proposal_views(b@)) =~= self@.proposals);
        r
    }
}


/// The provenance marker of caller-supplied context input.
#[derive(Debug, Clone, Copy)]
pub struct ContextInput;

impl ContextInput {
    /// The provenance label of context input.
    pub fn as_str(&self) -> (r: &'static str)
        ensures
            r@ == "context-input"@,
    {
        "context-input"
    }
}

} // verus!
