use vstd::prelude::*;

use crate::agent::{AgentEffect, Suggestor};
use crate::context::{
    fact_views, facts_of, has_fact_id, proposal_views, ContextFact, ContextKey, ContextState,
    ProposalView, ProposedFact,
};
use crate::text::owned;

verus! {

/// The provenance marker of the built-in suggestors.
#[derive(Debug, Clone, Copy)]
pub struct ConvergeCore;

impl ConvergeCore {
    /// The provenance label of the built-in suggestors.
    pub fn as_str(&self) -> (r: &'static str)
        ensures
            r@ == "converge-core"@,
    {
        "converge-core"
    }
}

fn holds_id(facts: &[ContextFact], id: &String) -> (r: bool)
    ensures
        r == exists|j: int| 0 <= j < facts@.len() && (#[trigger] facts@[j]).id@ == id@,
{
    let mut j: usize = 0;
    while j < facts.len()
        invariant
            j <= facts@.len(),
            forall|k: int| 0 <= k < j ==> (#[trigger] facts@[k]).id@ != id@,
        decreases facts.len() - j,
    {
        if facts[j].id == *id {
            return true;
        }
        j = j + 1;
    }
    false
}

fn holds_fact_id(ctx: &ContextState, key: ContextKey, id: &String) -> (r: bool)
    ensures
        ctx.wf() ==> r == has_fact_id(ctx@, key, id@),
{
    let facts = ctx.get(key);
    let r = holds_id(facts, id);
    proof {
        if ctx.wf() {
            if r {
                let j = choose|j: int| 0 <= j < facts@.len() && (#[trigger] facts@[j]).id@ == id@;
                assert(facts_of(ctx@, key)[j] == facts@[j]@);
            }
            if has_fact_id(ctx@, key, id@) {
                let j = choose|j: int| 0 <= j < facts_of(ctx@, key).len() && (#[trigger] facts_of(ctx@, key)[j]).id == id@;
                assert(facts_of(ctx@, key)[j] == facts@[j]@);
            }
        }
    }
    r
}

/// A suggestor that proposes one seed fact, once.
pub struct SeedSuggestor {
    fact_id: String,
    content: String,
}

impl SeedSuggestor {
    /// Creates a seed suggestor for one fact.
    pub fn new(fact_id: &str, content: &str) -> (r: Self)
        ensures
            r.fact_id_spec() == fact_id@,
            r.content_spec() == content@,
    {
        SeedSuggestor { fact_id: owned(fact_id), content: owned(content) }
    }

    /// The identifier of the seed it proposes.
    pub closed spec fn fact_id_spec(&self) -> Seq<char> {
        self.fact_id@
    }

    /// The content of the seed it proposes.
    pub closed spec fn content_spec(&self) -> Seq<char> {
        self.content@
    }
}

impl Suggestor for SeedSuggestor {
    fn name(&self) -> (r: &str)
        ensures
            r@ == "SeedSuggestor"@,
    {
        "SeedSuggestor"
    }

    /// No dependencies: eligible on the first cycle.
    fn dependencies(&self) -> (r: &[ContextKey])
        ensures
            r@.len() == 0,
    {
        &[]
    }

    /// Runs only until its seed is present.
    fn accepts(&self, ctx: &ContextState) -> (r: bool)
        ensures
            ctx.wf() ==> r == !has_fact_id(ctx@, ContextKey::Seeds, self.fact_id_spec()),
    {
        !holds_fact_id(ctx, ContextKey::Seeds, &self.fact_id)
    }

    fn execute(&self, ctx: &ContextState) -> (r: AgentEffect)
        ensures
            proposal_views(r.proposals@) == seq![
                ProposalView {
                    key: ContextKey::Seeds,
                    id: self.fact_id_spec(),
                    content: self.content_spec(),
                    provenance: "SeedSuggestor"@,
                    confidence: 10000,
                },
            ],
    {
        AgentEffect::with_proposal(
            ProposedFact::new(ContextKey::Seeds, self.fact_id.as_str(), self.content.as_str(), "SeedSuggestor"),
        )
    }
}

/// A suggestor that proposes one hypothesis once seeds exist.
pub struct ReactOnceSuggestor {
    fact_id: String,
    content: String,
}

impl ReactOnceSuggestor {
    /// Creates a suggestor reacting to seeds with one hypothesis.
    pub fn new(fact_id: &str, content: &str) -> (r: Self)
        ensures
            r.fact_id_spec() == fact_id@,
            r.content_spec() == content@,
    {
        ReactOnceSuggestor { fact_id: owned(fact_id), content: owned(content) }
    }

    /// The identifier of the hypothesis it proposes.
    pub closed spec fn fact_id_spec(&self) -> Seq<char> {
        self.fact_id@
    }

    /// The content of the hypothesis it proposes.
    pub closed spec fn content_spec(&self) -> Seq<char> {
        self.content@
    }
}

impl Suggestor for ReactOnceSuggestor {
    fn name(&self) -> (r: &str)
        ensures
            r@ == "ReactOnceSuggestor"@,
    {
        "ReactOnceSuggestor"
    }

    /// Wakes only when seeds change.
    fn dependencies(&self) -> (r: &[ContextKey])
        ensures
            r@ == seq![ContextKey::Seeds],
    {
        let r: &[ContextKey] = &[ContextKey::Seeds];
        assert(r@ =~= seq![ContextKey::Seeds]);
        r
    }

    /// Runs when seeds exist and its hypothesis is not yet present.
    fn accepts(&self, ctx: &ContextState) -> (r: bool)
        ensures
            ctx.wf() ==> r == (facts_of(ctx@, ContextKey::Seeds).len() > 0 && !has_fact_id(
                ctx@,
                ContextKey::Hypotheses,
                self.fact_id_spec(),
            )),
    {
        ctx.has(ContextKey::Seeds) && !holds_fact_id(ctx, ContextKey::Hypotheses, &self.fact_id)
    }

    fn execute(&self, ctx: &ContextState) -> (r: AgentEffect)
        ensures
            proposal_views(r.proposals@) == seq![
                ProposalView {
                    key: ContextKey::Hypotheses,
                    id: self.fact_id_spec(),
                    content: self.content_spec(),
                    provenance: "ReactOnceSuggestor"@,
                    confidence: 10000,
                },
            ],
    {
        AgentEffect::with_proposal(
            ProposedFact::new(
                ContextKey::Hypotheses,
                self.fact_id.as_str(),
                self.content.as_str(),
                "ReactOnceSuggestor",
            ),
        )
    }
}

} // verus!
