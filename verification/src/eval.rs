use vstd::prelude::*;
use vstd::string::*;

use crate::context::{ContextFact, ContextKey, ContextState};
use crate::engine::wakes;
use crate::recall::UnitInterval;
use crate::text::{decimal, owned, push_decimal};

verus! {

/// The outcome of an evaluation.
#[derive(Debug, Clone, Copy, PartialEq, Eq, Hash, Structural)]
pub enum EvalOutcome {
    /// The evaluation passed.
    Pass,
    /// The evaluation failed.
    Fail,
    /// The evaluation could not decide.
    Indeterminate,
}

impl EvalOutcome {
    /// Whether the evaluation passed.
    pub fn is_pass(&self) -> (r: bool)
        ensures
            r == (*self is Pass),
    {
        match self {
            EvalOutcome::Pass => true,
            _ => false,
        }
    }

    /// Whether the evaluation failed.
    pub fn is_fail(&self) -> (r: bool)
        ensures
            r == (*self is Fail),
    {
        match self {
            EvalOutcome::Fail => true,
            _ => false,
        }
    }

    /// Whether the evaluation was indeterminate.
    pub fn is_indeterminate(&self) -> (r: bool)
        ensures
            r == (*self is Indeterminate),
    {
        match self {
            EvalOutcome::Indeterminate => true,
            _ => false,
        }
    }
}

/// Unique identifier for a registered evaluation.
#[derive(Debug, Clone, Copy, PartialEq, Eq, Hash, Structural)]
pub struct EvalId(pub u32);

/// The variant name of an outcome, as its debug form prints it.
pub open spec fn outcome_name(o: EvalOutcome) -> Seq<char> {
    match o {
        EvalOutcome::Pass => "Pass"@,
        EvalOutcome::Fail => "Fail"@,
        EvalOutcome::Indeterminate => "Indeterminate"@,
    }
}

/// A score in basis points written with two decimals, rounded half up.
pub open spec fn score_text(bp: nat) -> Seq<char> {
    let h = (bp + 50) / 100;
    decimal(h / 100) + "."@ + decimal((h % 100) / 10) + decimal(h % 10)
}

/// The result of one evaluation.
#[derive(Debug, Clone, PartialEq, Eq)]
pub struct EvalResult {
    /// Name of the evaluation that produced the result.
    pub eval_name: String,
    /// Pass, fail or indeterminate.
    pub outcome: EvalOutcome,
    /// Score in `[0, 1]`.
    pub score: UnitInterval,
    /// Why the evaluation came out this way.
    pub rationale: String,
    /// Identifiers of the facts that were evaluated.
    pub fact_ids: Vec<String>,
    /// Metadata about the run, if any.
    pub metadata: Option<String>,
}

impl EvalResult {
    /// A result with a score in basis points, capped at one.
    pub fn new(eval_name: &str, outcome: EvalOutcome, score_bp: u32, rationale: &str) -> (r: Self)
        ensures
            r.eval_name@ == eval_name@,
            r.outcome == outcome,
            r.score.bp() == (if score_bp <= 10000 { score_bp as nat } else { 10000 }),
            r.rationale@ == rationale@,
            r.fact_ids@.len() == 0,
            r.metadata is None,
    {
        EvalResult {
            eval_name: owned(eval_name),
            outcome,
            score: UnitInterval::clamped_basis_points(score_bp),
            rationale: owned(rationale),
            fact_ids: Vec::new(),
            metadata: None,
        }
    }

    /// A result that names the facts it evaluated.
    pub fn with_facts(eval_name: &str, outcome: EvalOutcome, score_bp: u32, rationale: &str, fact_ids: Vec<String>) -> (r: Self)
        ensures
            r.eval_name@ == eval_name@,
            r.outcome == outcome,
            r.score.bp() == (if score_bp <= 10000 { score_bp as nat } else { 10000 }),
            r.rationale@ == rationale@,
            r.fact_ids == fact_ids,
            r.metadata is None,
    {
        EvalResult {
            eval_name: owned(eval_name),
            outcome,
            score: UnitInterval::clamped_basis_points(score_bp),
            rationale: owned(rationale),
            fact_ids,
            metadata: None,
        }
    }

    /// The result as an evaluation fact: identified by `eval:<name>`, followed by `:<id>`
    /// when an evaluation identifier is given, and describing outcome, score and rationale.
    pub fn to_fact(&self, eval_id: Option<&str>) -> (r: ContextFact)
        ensures
            r.key == ContextKey::Evaluations,
            r.id@ == (match eval_id {
                Some(e) => "eval:"@ + self.eval_name@ + ":"@ + e@,
                None => "eval:"@ + self.eval_name@,
            }),
            r.content@ == "Outcome: "@ + outcome_name(self.outcome) + " | Score: "@ + score_text(self.score.bp())
                + " | "@ + self.rationale@,
    {
        let mut id = owned("eval:");
        id.append(self.eval_name.as_str());
        match eval_id {
            Some(e) => {
                id.append(":");
                id.append(e);
            },
            None => {},
        }
        let mut content = owned("Outcome: ");
        let name: &str = match self.outcome {
            EvalOutcome::Pass => "Pass",
            EvalOutcome::Fail => "Fail",
            EvalOutcome::Indeterminate => "Indeterminate",
        };
        content.append(name);
        content.append(" | Score: ");
        let bp = self.score.to_basis_points() as u64;
        let h = (bp + 50) / 100;
        push_decimal(&mut content, h / 100);
        content.append(".");
        push_decimal(&mut content, (h % 100) / 10);
        push_decimal(&mut content, h % 10);
        content.append(" | ");
        content.append(self.rationale.as_str());
        ContextFact { key: ContextKey::Evaluations, id, content, promotion: None }
    }
}

/// An evaluation of a context; implemented by users. Evaluations measure quality and are
/// run on demand; the caller stores their results as facts.
pub trait Eval {
    /// Name for tracing and storage.
    fn name(&self) -> &str;

    /// What the evaluation measures.
    fn description(&self) -> &str;

    /// Evaluates the context.
    fn evaluate(&self, ctx: &ContextState) -> EvalResult;

    /// The context keys the evaluation depends on; none means it runs on every change.
    fn dependencies(&self) -> &[ContextKey];
}

/// Whether some key of `deps` is among `dirty`.
fn meets(deps: &[ContextKey], dirty: &[ContextKey]) -> (r: bool)
    ensures
        r == exists|k: int| 0 <= k < deps@.len() && dirty@.contains(#[trigger] deps@[k]),
{
    let mut i: usize = 0;
    while i < deps.len()
        invariant
            i <= deps@.len(),
            forall|k: int| 0 <= k < i ==> !dirty@.contains(#[trigger] deps@[k]),
        decreases deps.len() - i,
    {
        let mut j: usize = 0;
        while j < dirty.len()
            invariant
                i < deps@.len(),
                j <= dirty@.len(),
                forall|q: int| 0 <= q < j ==> dirty@[q] != deps@[i as int],
            decreases dirty.len() - j,
        {
            if dirty[j] == deps[i] {
                assert(dirty@.contains(deps@[i as int]));
                return true;
            }
            j = j + 1;
        }
        i = i + 1;
    }
    false
}

/// The evaluations, below `n`, that a change of the dirty keys concerns, in registration
/// order: those that depend on a dirty key, and those without dependencies.
pub open spec fn dependent_below(deps: Seq<Seq<ContextKey>>, dirty: Seq<ContextKey>, n: int) -> Seq<EvalId>
    decreases n,
{
    if n <= 0 {
        Seq::empty()
    } else if wakes(deps[n - 1], dirty) {
        dependent_below(deps, dirty, n - 1).push(EvalId((n - 1) as u32))
    } else {
        dependent_below(deps, dirty, n - 1)
    }
}

proof fn lemma_dependent_bound(deps: Seq<Seq<ContextKey>>, dirty: Seq<ContextKey>, n: int)
    requires
        n <= u32::MAX,
    ensures
        forall|k: int| 0 <= k < dependent_below(deps, dirty, n).len() ==> (#[trigger] dependent_below(deps, dirty, n)[k]).0 < n,
    decreases n,
{
    if n > 0 {
        lemma_dependent_bound(deps, dirty, n - 1);
        let prev = dependent_below(deps, dirty, n - 1);
        let cur = dependent_below(deps, dirty, n);
        assert forall|k: int| 0 <= k < cur.len() implies (#[trigger] cur[k]).0 < n by {
            if k < prev.len() {
                assert(prev[k].0 < n - 1);
                if wakes(deps[n - 1], dirty) {
                    assert(cur[k] == prev[k]);
                }
            } else {
                assert(cur[k] == EvalId((n - 1) as u32));
            }
        }
    }
}

/// Registry of evaluations, run in registration order.
pub struct EvalRegistry {
    evals: Vec<Box<dyn Eval>>,
    deps: Vec<Vec<ContextKey>>,
    next_id: u32,
}

impl EvalRegistry {
    /// The dependencies of each registered evaluation, in registration order.
    pub closed spec fn deps_spec(&self) -> Seq<Seq<ContextKey>> {
        self.deps@.map_values(|d: Vec<ContextKey>| d@)
    }

    /// Internal consistency: one stored evaluation per entry, counted from zero.
    pub closed spec fn wf(&self) -> bool {
        &&& self.evals@.len() == self.deps@.len()
        &&& self.next_id == self.deps@.len()
    }

    /// An empty registry.
    pub fn new() -> (r: Self)
        ensures
            r.wf(),
            r.deps_spec().len() == 0,
    {
        EvalRegistry { evals: Vec::new(), deps: Vec::new(), next_id: 0 }
    }

    /// Registers an evaluation and returns its identifier, its registration position.
    pub fn register<E: Eval + 'static>(&mut self, eval: E) -> (r: EvalId)
        requires
            old(self).wf(),
            old(self).deps_spec().len() < u32::MAX,
        ensures
            final(self).wf(),
            r.0 == old(self).deps_spec().len(),
            final(self).deps_spec().len() == old(self).deps_spec().len() + 1,
            final(self).deps_spec().take(old(self).deps_spec().len() as int) == old(self).deps_spec(),
    {
        let id = EvalId(self.next_id);
        self.next_id = self.next_id + 1;
        let mut deps: Vec<ContextKey> = Vec::new();
        let given = eval.dependencies();
        let mut i: usize = 0;
        while i < given.len()
            invariant
                i <= given@.len(),
            decreases given.len() - i,
        {
            deps.push(given[i]);
            i = i + 1;
        }
        self.deps.push(deps);
        let b: Box<dyn Eval> = Box::new(eval);
        proof {
            crate::engine::lemma_push_len(self.evals@, b);
        }
        self.evals.push(b);
        assert(self.deps_spec().take(old(self).deps_spec().len() as int) =~= old(self).deps_spec());
        id
    }

    /// The number of registered evaluations.
    pub fn count(&self) -> (r: usize)
        requires
            self.wf(),
        ensures
            r == self.deps_spec().len(),
    {
        self.evals.len()
    }

    /// Runs every evaluation in registration order.
    pub fn evaluate_all(&self, ctx: &ContextState) -> (r: Vec<EvalResult>)
        requires
            self.wf(),
        ensures
            r@.len() == self.deps_spec().len(),
    {
        let mut out: Vec<EvalResult> = Vec::new();
        let mut i: usize = 0;
        while i < self.evals.len()
            invariant
                self.wf(),
                i <= self.evals@.len(),
                out@.len() == i,
            decreases self.evals.len() - i,
        {
            out.push(self.evals[i].evaluate(ctx));
            i = i + 1;
        }
        out
    }

    /// The evaluations a change of the dirty keys concerns, in registration order.
    pub fn dependent_ids(&self, dirty: &[ContextKey]) -> (r: Vec<EvalId>)
        requires
            self.wf(),
        ensures
            r@ == dependent_below(self.deps_spec(), dirty@, self.deps_spec().len() as int),
    {
        let mut out: Vec<EvalId> = Vec::new();
        let mut i: usize = 0;
        while i < self.deps.len()
            invariant
                self.wf(),
                i <= self.deps@.len(),
                out@ == dependent_below(self.deps_spec(), dirty@, i as int),
            decreases self.deps.len() - i,
        {
            let d = self.deps[i].as_slice();
            assert(d@ == self.deps_spec()[i as int]);
            if d.len() == 0 || meets(d, dirty) {
                out.push(EvalId(i as u32));
            }
            i = i + 1;
        }
        out
    }

    /// Runs the evaluations a change of the dirty keys concerns, in registration order.
    pub fn evaluate_dependent(&self, ctx: &ContextState, dirty: &[ContextKey]) -> (r: Vec<EvalResult>)
        requires
            self.wf(),
        ensures
            r@.len() == dependent_below(self.deps_spec(), dirty@, self.deps_spec().len() as int).len(),
    {
        let ids = self.dependent_ids(dirty);
        proof {
            lemma_dependent_bound(self.deps_spec(), dirty@, self.deps_spec().len() as int);
        }
        let mut out: Vec<EvalResult> = Vec::new();
        let mut i: usize = 0;
        while i < ids.len()
            invariant
                self.wf(),
                i <= ids@.len(),
                out@.len() == i,
                ids@ == dependent_below(self.deps_spec(), dirty@, self.deps_spec().len() as int),
                forall|k: int| 0 <= k < ids@.len() ==> (#[trigger] ids@[k]).0 < self.deps_spec().len(),
            decreases ids.len() - i,
        {
            let id = ids[i];
            out.push(self.evals[id.0 as usize].evaluate(ctx));
            i = i + 1;
        }
        out
    }

    /// Runs one evaluation, named by its identifier.
    pub fn evaluate_by_id(&self, id: EvalId, ctx: &ContextState) -> (r: EvalResult)
        requires
            self.wf(),
            id.0 < self.deps_spec().len(),
    {
        self.evals[id.0 as usize].evaluate(ctx)
    }
}

} // verus!
