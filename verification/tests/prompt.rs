use converge_core::agent::{AgentEffect, Suggestor};
use converge_core::context::{ContextFact, ContextKey, ContextState, ProposedFact};
use converge_core::prompt::{
    AgentPrompt, AgentRole, Constraint, OutputContract, OutputKind, PromptContext, PromptFormat,
};

struct TestSuggestor {
    fact_id: String,
}

impl Suggestor for TestSuggestor {
    fn name(&self) -> &str {
        "TestSuggestor"
    }
    fn dependencies(&self) -> &[ContextKey] {
        &[ContextKey::Seeds]
    }
    fn accepts(&self, ctx: &ContextState) -> bool {
        !ctx.get(ContextKey::Seeds).iter().any(|f| f.id == self.fact_id)
    }
    fn execute(&self, _ctx: &ContextState) -> AgentEffect {
        AgentEffect::with_proposal(ProposedFact::new(
            ContextKey::Seeds,
            &self.fact_id,
            "test content",
            "TestSuggestor",
        ))
    }
}

#[test]
fn suggestor_accepts_when_fact_missing() {
    let suggestor = TestSuggestor {
        fact_id: "test-1".into(),
    };
    let ctx = ContextState::new();
    assert!(suggestor.accepts(&ctx));
}

#[test]
fn suggestor_rejects_when_fact_present() {
    let suggestor = TestSuggestor {
        fact_id: "test-1".into(),
    };
    let mut ctx = ContextState::new();
    let _ = ctx.add_fact(ContextFact::new(ContextKey::Seeds, "test-1", "already here"));
    assert!(!suggestor.accepts(&ctx));
}

#[test]
fn test_edn_serialization() {
    let mut ctx = PromptContext::new();
    ctx.add_facts(
        ContextKey::Signals,
        vec![
            ContextFact::new(ContextKey::Signals, "s1", "Revenue +15% Q3"),
            ContextFact::new(ContextKey::Signals, "s2", "Market $2.3B"),
        ],
    );

    let prompt = AgentPrompt::new(
        AgentRole::Proposer,
        "extract-competitors",
        ctx,
        OutputContract::new(OutputKind::ProposedFact, ContextKey::Competitors),
    )
    .with_constraint(Constraint::NoInvent)
    .with_constraint(Constraint::NoContradict);

    let edn = prompt.to_edn();
    assert!(edn.contains(":r :proposer"));
    assert!(edn.contains(":o :extract-competitors"));
    assert!(edn.contains(":signals"));
    assert!(edn.contains(":no-invent"));
    assert!(edn.contains(":no-contradict"));
    assert!(edn.contains(":competitors"));
}

#[test]
fn test_context_building() {
    let mut context = ContextState::new();
    context
        .add_fact(ContextFact::new(ContextKey::Seeds, "seed1", "Test seed"))
        .unwrap();

    let prompt_ctx = PromptContext::from_context(&context, &[ContextKey::Seeds]);
    assert_eq!(prompt_ctx.facts.len(), 1);
    assert_eq!(prompt_ctx.facts[0].0, ContextKey::Seeds);
    assert_eq!(prompt_ctx.facts[0].1.len(), 1);
}

#[test]
fn test_token_efficiency() {
    let mut ctx = PromptContext::new();
    ctx.add_facts(
        ContextKey::Signals,
        vec![ContextFact::new(ContextKey::Signals, "s1", "Revenue +15% Q3")],
    );

    let prompt = AgentPrompt::new(
        AgentRole::Proposer,
        "analyze",
        ctx,
        OutputContract::new(OutputKind::ProposedFact, ContextKey::Strategies),
    );

    let edn = prompt.to_edn();
    let plain = prompt.to_plain();
    assert!(!edn.is_empty());
    assert!(!plain.is_empty());
    assert_eq!(prompt.serialize(PromptFormat::Edn), edn);
    assert_eq!(prompt.serialize(PromptFormat::Plain), plain);
}

#[test]
fn test_constraints_are_a_set() {
    let prompt = AgentPrompt::new(
        AgentRole::Validator,
        "check",
        PromptContext::new(),
        OutputContract::new(OutputKind::Evaluation, ContextKey::Evaluations),
    )
    .with_constraint(Constraint::CiteSources)
    .with_constraint(Constraint::NoInvent)
    .with_constraint(Constraint::CiteSources);
    let edn = prompt.to_edn();
    assert_eq!(edn.matches(":cite-sources").count(), 1);
    assert!(edn.find(":no-invent").unwrap() < edn.find(":cite-sources").unwrap());
}
