use vstd::prelude::*;

use crate::context::ContextState;
use crate::ids::{CriterionId, FactId};
use crate::root_intent::IntentConstraint;
use crate::text::owned;

verus! {

/// A success criterion of a typed intent.
#[derive(Debug, Clone, PartialEq, Eq)]
pub struct Criterion {
    /// Identifier of the criterion.
    pub id: CriterionId,
    /// What the criterion asks for.
    pub description: String,
    /// Whether the criterion must be met for success.
    pub required: bool,
}

/// The kind of a semantic truth.
#[derive(Debug, Clone, Copy, PartialEq, Eq, Structural)]
pub enum TruthKind {
    /// A job to be done.
    Job,
    /// A policy to respect.
    Policy,
    /// An invariant to maintain.
    Invariant,
}

/// A semantic truth: what a job, policy or invariant means and how it is judged.
#[derive(Debug, Clone)]
pub struct TruthDefinition {
    /// Unique key of the truth.
    pub key: String,
    /// Its kind.
    pub kind: TruthKind,
    /// A one-line summary.
    pub summary: String,
    /// The criteria that decide success.
    pub success_criteria: Vec<Criterion>,
    /// Constraints that apply.
    pub constraints: Vec<IntentConstraint>,
    /// Points where a human must approve.
    pub approval_points: Vec<String>,
    /// Packs that take part.
    pub participating_packs: Vec<String>,
}

/// The result of evaluating one criterion.
#[derive(Debug, Clone, PartialEq, Eq)]
pub enum CriterionResult {
    /// The criterion is met, with the facts that show it.
    Met { evidence: Vec<FactId> },
    /// The criterion waits on something, such as a human approval.
    Blocked { reason: String, approval_ref: Option<String> },
    /// The criterion is not met.
    Unmet { reason: String },
    /// The evaluator could not decide.
    Indeterminate,
}

/// A criterion together with its evaluation result.
#[derive(Debug, Clone)]
pub struct CriterionOutcome {
    /// The criterion.
    pub criterion: Criterion,
    /// How it was judged.
    pub result: CriterionResult,
}

/// Judges success criteria against a context; implemented by applications.
pub trait CriterionEvaluator {
    /// Evaluates one criterion.
    fn evaluate(&self, criterion: &Criterion, context: &ContextState) -> CriterionResult;
}

/// The position of the first truth with the given key, or -1 when there is none.
pub open spec fn first_truth_index(keys: Seq<Seq<char>>, key: Seq<char>) -> int
    decreases keys.len(),
{
    if keys.len() == 0 {
        -1
    } else if first_truth_index(keys.drop_last(), key) >= 0 {
        first_truth_index(keys.drop_last(), key)
    } else if keys.last() == key {
        keys.len() - 1
    } else {
        -1
    }
}

/// The keys of a list of truths.
pub open spec fn truth_keys(s: Seq<TruthDefinition>) -> Seq<Seq<char>> {
    s.map_values(|t: TruthDefinition| t.key@)
}

/// A found position lies in the list and holds the key.
proof fn lemma_first_truth_found(keys: Seq<Seq<char>>, key: Seq<char>)
    requires
        first_truth_index(keys, key) >= 0,
    ensures
        first_truth_index(keys, key) < keys.len(),
        keys[first_truth_index(keys, key)] == key,
    decreases keys.len(),
{
    if first_truth_index(keys.drop_last(), key) >= 0 {
        lemma_first_truth_found(keys.drop_last(), key);
    }
}

proof fn lemma_first_truth_prefix(keys: Seq<Seq<char>>, key: Seq<char>, n: int)
    requires
        0 <= n <= keys.len(),
        first_truth_index(keys.take(n), key) >= 0,
    ensures
        first_truth_index(keys, key) == first_truth_index(keys.take(n), key),
    decreases keys.len() - n,
{
    if n < keys.len() {
        assert(keys.take(n + 1).drop_last() == keys.take(n));
        lemma_first_truth_prefix(keys, key, n + 1);
    } else {
        assert(keys.take(n) == keys);
    }
}

/// The first truth with the given key, if any.
#[verifier::loop_isolation(false)]
pub fn find_truth_in(truths: Vec<TruthDefinition>, key: &str) -> (r: Option<TruthDefinition>)
    ensures
        first_truth_index(truth_keys(truths@), key@) < 0 ==> r is None,
        first_truth_index(truth_keys(truths@), key@) >= 0 ==> r == Some(
            truths@[first_truth_index(truth_keys(truths@), key@)],
        ),
{
    let ghost keys = truth_keys(truths@);
    let ghost original = truths@;
    let mut items = truths;
    let wanted = owned(key);
    let mut i: usize = 0;
    while i < items.len()
        invariant
            i <= items@.len(),
            items@ == original,
            wanted@ == key@,
            keys == truth_keys(original),
            first_truth_index(keys.take(i as int), key@) < 0,
        decreases items.len() - i,
    {
        assert(keys.take(i as int + 1).drop_last() == keys.take(i as int));
        if items[i].key == wanted {
            assert(keys[i as int] == items@[i as int].key@);
            assert(first_truth_index(keys.take(i as int + 1), key@) == i);
            proof { lemma_first_truth_prefix(keys, key@, i as int + 1); }
            let t = items.remove(i);
            return Some(t);
        }
        assert(keys[i as int] == items@[i as int].key@);
        i = i + 1;
    }
    assert(keys.take(original.len() as int) == keys);
    None
}

/// A catalog of semantic truths; implemented by applications.
pub trait TruthCatalog {
    /// All truths of the catalog.
    fn list_truths(&self) -> Vec<TruthDefinition>;

    /// The first listed truth with the given key.
    fn find_truth(&self, key: &str) -> (r: Option<TruthDefinition>)
        default_ensures
            r matches Some(t) ==> t.key@ == key@,
    {
        let truths = self.list_truths();
        proof {
            if first_truth_index(truth_keys(truths@), key@) >= 0 {
                lemma_first_truth_found(truth_keys(truths@), key@);
            }
        }
        find_truth_in(truths, key)
    }
}

} // verus!
