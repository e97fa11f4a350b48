use std::time::Duration;
use vstd::prelude::*;
use vstd::string::*;

use crate::context::{facts_of, fact_views, ContextFact, ContextKey, ContextState, ContextView, FactView};
use crate::engine::Budget;
use crate::ids::{ConstraintName, ConstraintValue, IntentId};
use crate::text::{contains_seq, decimal, lowercase, owned, push_decimal, str_contains, to_lowercase};
use crate::time::Timestamp;

verus! {

/// The class of problem being solved.
#[derive(Debug, Clone, Copy, PartialEq, Eq, Hash, Structural)]
pub enum IntentKind {
    GrowthStrategy,
    Scheduling,
    ResourceOptimization,
    RiskAssessment,
    ContentGeneration,
    Custom,
}

/// Canonical name of an intent kind.
pub open spec fn intent_kind_name(k: IntentKind) -> Seq<char> {
    match k {
        IntentKind::GrowthStrategy => "growth_strategy"@,
        IntentKind::Scheduling => "scheduling"@,
        IntentKind::ResourceOptimization => "resource_optimization"@,
        IntentKind::RiskAssessment => "risk_assessment"@,
        IntentKind::ContentGeneration => "content_generation"@,
        IntentKind::Custom => "custom"@,
    }
}

/// Context keys suggested for an intent kind.
pub open spec fn suggested_keys(k: IntentKind) -> Seq<ContextKey> {
    match k {
        IntentKind::GrowthStrategy => seq![
            ContextKey::Seeds,
            ContextKey::Signals,
            ContextKey::Competitors,
            ContextKey::Strategies,
            ContextKey::Evaluations,
        ],
        IntentKind::Scheduling | IntentKind::ContentGeneration => seq![
            ContextKey::Seeds,
            ContextKey::Constraints,
            ContextKey::Strategies,
        ],
        IntentKind::ResourceOptimization => seq![
            ContextKey::Seeds,
            ContextKey::Constraints,
            ContextKey::Strategies,
            ContextKey::Evaluations,
        ],
        IntentKind::RiskAssessment => seq![
            ContextKey::Seeds,
            ContextKey::Signals,
            ContextKey::Hypotheses,
            ContextKey::Evaluations,
        ],
        IntentKind::Custom => seq![ContextKey::Seeds],
    }
}

impl IntentKind {
    /// Returns the canonical name for this intent kind.
    pub fn name(&self) -> (r: &'static str)
        ensures
            r@ == intent_kind_name(*self),
    {
        match self {
            IntentKind::GrowthStrategy => "growth_strategy",
            IntentKind::Scheduling => "scheduling",
            IntentKind::ResourceOptimization => "resource_optimization",
            IntentKind::RiskAssessment => "risk_assessment",
            IntentKind::ContentGeneration => "content_generation",
            IntentKind::Custom => "custom",
        }
    }

    /// Returns suggested context keys for this intent kind.
    pub fn suggested_context_keys(&self) -> (r: Vec<ContextKey>)
        ensures
            r@ == suggested_keys(*self),
    {
        let r = match self {
            IntentKind::GrowthStrategy => vec![
                ContextKey::Seeds,
                ContextKey::Signals,
                ContextKey::Competitors,
                ContextKey::Strategies,
                ContextKey::Evaluations,
            ],
            IntentKind::Scheduling | IntentKind::ContentGeneration => vec![
                ContextKey::Seeds,
                ContextKey::Constraints,
                ContextKey::Strategies,
            ],
            IntentKind::ResourceOptimization => vec![
                ContextKey::Seeds,
                ContextKey::Constraints,
                ContextKey::Strategies,
                ContextKey::Evaluations,
            ],
            IntentKind::RiskAssessment => vec![
                ContextKey::Seeds,
                ContextKey::Signals,
                ContextKey::Hypotheses,
                ContextKey::Evaluations,
            ],
            IntentKind::Custom => vec![ContextKey::Seeds],
        };
        assert(r@ =~= suggested_keys(*self));
        r
    }
}

/// What the system is trying to improve or achieve.
#[derive(Debug, PartialEq, Eq, Hash)]
pub enum Objective {
    IncreaseDemand,
    MinimizeTime,
    MaximizeFeasibility,
    MinimizeCost,
    MaximizeCoverage,
    /// Balance multiple objectives.
    Balance(Vec<Objective>),
    /// Custom objective with description.
    Custom(String),
}

/// Canonical name of an objective.
pub open spec fn objective_name(o: Objective) -> Seq<char> {
    match o {
        Objective::IncreaseDemand => "increase_demand"@,
        Objective::MinimizeTime => "minimize_time"@,
        Objective::MaximizeFeasibility => "maximize_feasibility"@,
        Objective::MinimizeCost => "minimize_cost"@,
        Objective::MaximizeCoverage => "maximize_coverage"@,
        Objective::Balance(_) => "balanced"@,
        Objective::Custom(name) => name@,
    }
}

impl Objective {
    /// Returns the canonical name for this objective.
    pub fn name(&self) -> (r: String)
        ensures
            r@ == objective_name(*self),
    {
        match self {
            Objective::IncreaseDemand => owned("increase_demand"),
            Objective::MinimizeTime => owned("minimize_time"),
            Objective::MaximizeFeasibility => owned("maximize_feasibility"),
            Objective::MinimizeCost => owned("minimize_cost"),
            Objective::MaximizeCoverage => owned("maximize_coverage"),
            Objective::Balance(_) => owned("balanced"),
            Objective::Custom(name) => name.clone(),
        }
    }
}


/// A constraint on the scope of the intent.
#[derive(Debug, Clone, PartialEq, Eq, Hash)]
pub enum ScopeConstraint {
    /// Market segment (e.g., "Nordic B2B").
    Market(String),
    /// Geographic region (e.g., "EMEA").
    Geography(String),
    /// Product or service category.
    Product(String),
    /// Time window for the analysis.
    TimeWindow { start: Option<Timestamp>, end: Option<Timestamp>, description: String },
    /// Customer segment.
    CustomerSegment(String),
    /// Custom scope constraint.
    Custom { key: ConstraintName, value: ConstraintValue },
}

/// The seed text recorded for a scope constraint.
pub open spec fn scope_text(c: ScopeConstraint) -> Seq<char> {
    match c {
        ScopeConstraint::Market(m) => "market="@ + m@,
        ScopeConstraint::Geography(g) => "geography="@ + g@,
        ScopeConstraint::Product(p) => "product="@ + p@,
        ScopeConstraint::TimeWindow { description, .. } => "timewindow="@ + description@,
        ScopeConstraint::CustomerSegment(s) => "segment="@ + s@,
        ScopeConstraint::Custom { key, value } => key@ + "="@ + value@,
    }
}

/// Defines what is in-bounds for the intent.
#[derive(Debug, Clone, PartialEq, Eq)]
pub struct Scope {
    constraints: Vec<ScopeConstraint>,
}

impl View for Scope {
    type V = Seq<ScopeConstraint>;

    closed spec fn view(&self) -> Seq<ScopeConstraint> {
        self.constraints@
    }
}

impl Default for Scope {
    fn default() -> (r: Self)
        ensures
            r@ == Seq::<ScopeConstraint>::empty(),
    {
        Scope::new()
    }
}

impl Scope {
    /// Creates an empty scope.
    pub fn new() -> (r: Self)
        ensures
            r@ == Seq::<ScopeConstraint>::empty(),
    {
        Scope { constraints: Vec::new() }
    }

    /// Adds a scope constraint.
    pub fn with_constraint(self, constraint: ScopeConstraint) -> (r: Self)
        ensures
            r@ == self@.push(constraint),
    {
        let mut constraints = self.constraints;
        constraints.push(constraint);
        Scope { constraints }
    }

    /// Returns the scope constraints.
    pub fn constraints(&self) -> (r: &[ScopeConstraint])
        ensures
            r@ == self@,
    {
        self.constraints.as_slice()
    }

    /// Checks if the scope is defined (has at least one constraint).
    pub fn is_defined(&self) -> (r: bool)
        ensures
            r == (self@.len() > 0),
    {
        self.constraints.len() > 0
    }

    /// Whether a fact is within scope. Every fact is allowed: domain-specific scope
    /// checks are expressed as invariants.
    pub fn allows(&self, fact: &ContextFact) -> (r: bool)
        ensures
            r,
    {
        true
    }
}

/// Severity of an intent constraint.
#[derive(Debug, Clone, Copy, PartialEq, Eq, Hash, Structural)]
pub enum ConstraintSeverity {
    /// Violation aborts convergence immediately.
    Hard,
    /// Violation is logged but doesn't abort.
    Soft,
}

/// A constraint on the intent execution.
#[derive(Debug, Clone, PartialEq, Eq, Hash)]
pub struct IntentConstraint {
    /// Unique key for this constraint.
    pub key: ConstraintName,
    /// Human-readable description or value.
    pub value: ConstraintValue,
    /// Severity level.
    pub severity: ConstraintSeverity,
}

impl IntentConstraint {
    /// Creates a hard constraint (violation aborts).
    pub fn hard(key: &str, value: &str) -> (r: Self)
        ensures
            r.key@ == key@,
            r.value@ == value@,
            r.severity == ConstraintSeverity::Hard,
    {
        IntentConstraint { key: owned(key), value: owned(value), severity: ConstraintSeverity::Hard }
    }

    /// Creates a soft constraint (violation is logged).
    pub fn soft(key: &str, value: &str) -> (r: Self)
        ensures
            r.key@ == key@,
            r.value@ == value@,
            r.severity == ConstraintSeverity::Soft,
    {
        IntentConstraint { key: owned(key), value: owned(value), severity: ConstraintSeverity::Soft }
    }
}

/// The constraints of a list that have the given severity, in order.
pub open spec fn with_severity(cs: Seq<IntentConstraint>, sev: ConstraintSeverity) -> Seq<IntentConstraint>
    decreases cs.len(),
{
    if cs.len() == 0 {
        Seq::empty()
    } else if cs.last().severity == sev {
        with_severity(cs.drop_last(), sev).push(cs.last())
    } else {
        with_severity(cs.drop_last(), sev)
    }
}

/// Defines when the job is considered successful.
#[derive(Debug, Clone, PartialEq, Eq, Hash)]
pub enum SuccessCriterion {
    /// At least one viable strategy must exist.
    AtLeastOneViableStrategy,
    /// A valid schedule must be found.
    ValidScheduleFound,
    /// All tasks must be allocated.
    AllTasksAllocated,
    /// Minimum number of strategies.
    MinimumStrategies(usize),
    /// All evaluations must be positive.
    AllEvaluationsPositive,
    /// Custom criterion with description.
    Custom(String),
}

/// An evaluation reads as positive when its lower-cased text mentions
/// "viable", "positive" or "recommended".
pub open spec fn positive_evaluation(c: Seq<char>) -> bool {
    contains_seq(lowercase(c), "viable"@) || contains_seq(lowercase(c), "positive"@)
        || contains_seq(lowercase(c), "recommended"@)
}

/// An evaluation is clean when its lower-cased text mentions neither "negative" nor "rejected".
pub open spec fn clean_evaluation(c: Seq<char>) -> bool {
    !contains_seq(lowercase(c), "negative"@) && !contains_seq(lowercase(c), "rejected"@)
}

/// Whether a criterion holds of a context.
pub open spec fn criterion_satisfied(c: SuccessCriterion, v: ContextView) -> bool {
    let strategies = facts_of(v, ContextKey::Strategies);
    let evaluations = facts_of(v, ContextKey::Evaluations);
    let constraints = facts_of(v, ContextKey::Constraints);
    match c {
        SuccessCriterion::AtLeastOneViableStrategy => strategies.len() > 0 && (evaluations.len()
            == 0 || exists|j: int|
            0 <= j < evaluations.len() && positive_evaluation(#[trigger] evaluations[j].content)),
        SuccessCriterion::ValidScheduleFound => strategies.len() > 0,
        SuccessCriterion::AllTasksAllocated => forall|j: int|
            0 <= j < constraints.len() ==> !contains_seq(
                lowercase(#[trigger] constraints[j].content),
                "unallocated"@,
            ),
        SuccessCriterion::MinimumStrategies(n) => strategies.len() >= n,
        SuccessCriterion::AllEvaluationsPositive => evaluations.len() > 0 && forall|j: int|
            0 <= j < evaluations.len() ==> clean_evaluation(#[trigger] evaluations[j].content),
        SuccessCriterion::Custom(_) => true,
    }
}

fn mentions(text: &str, word: &str) -> (r: bool)
    ensures
        r == contains_seq(lowercase(text@), word@),
{
    let lower = to_lowercase(text);
    str_contains(lower.as_str(), word)
}

impl SuccessCriterion {
    /// Checks if this criterion is satisfied by the context.
    #[verifier::loop_isolation(false)]
    pub fn is_satisfied(&self, ctx: &ContextState) -> (r: bool)
        requires
            ctx.wf(),
        ensures
            r == criterion_satisfied(*self, ctx@),
    {
        match self {
            SuccessCriterion::AtLeastOneViableStrategy => {
                let strategies = ctx.get(ContextKey::Strategies);
                let evaluations = ctx.get(ContextKey::Evaluations);
                if strategies.len() == 0 {
                    return false;
                }
                if evaluations.len() == 0 {
                    return true;
                }
                let ghost ev = facts_of(ctx@, ContextKey::Evaluations);
                let mut j: usize = 0;
                while j < evaluations.len()
                    invariant
                        j <= evaluations@.len(),
                        ev == fact_views(evaluations@),
                        ev == facts_of(ctx@, ContextKey::Evaluations),
                        facts_of(ctx@, ContextKey::Strategies).len() > 0,
                        forall|k: int| 0 <= k < j ==> !positive_evaluation(#[trigger] ev[k].content),
                    decreases evaluations.len() - j,
                {
                    let c = evaluations[j].content.as_str();
                    assert(ev[j as int].content == c@);
                    if mentions(c, "viable") || mentions(c, "positive") || mentions(c, "recommended") {
                        assert(positive_evaluation(ev[j as int].content));
                        return true;
                    }
                    j = j + 1;
                }
                false
            },
            SuccessCriterion::ValidScheduleFound => ctx.has(ContextKey::Strategies),
            SuccessCriterion::AllTasksAllocated => {
                let constraints = ctx.get(ContextKey::Constraints);
                let ghost cv = facts_of(ctx@, ContextKey::Constraints);
                let mut j: usize = 0;
                while j < constraints.len()
                    invariant
                        j <= constraints@.len(),
                        cv == fact_views(constraints@),
                        cv == facts_of(ctx@, ContextKey::Constraints),
                        forall|k: int|
                            0 <= k < j ==> !contains_seq(lowercase(#[trigger] cv[k].content), "unallocated"@),
                    decreases constraints.len() - j,
                {
                    let c = constraints[j].content.as_str();
                    assert(cv[j as int].content == c@);
                    if mentions(c, "unallocated") {
                        assert(contains_seq(lowercase(cv[j as int].content), "unallocated"@));
                        return false;
                    }
                    j = j + 1;
                }
                true
            },
            SuccessCriterion::MinimumStrategies(n) => ctx.get(ContextKey::Strategies).len() >= *n,
            SuccessCriterion::AllEvaluationsPositive => {
                let evaluations = ctx.get(ContextKey::Evaluations);
                if evaluations.len() == 0 {
                    return false;
                }
                let ghost ev = facts_of(ctx@, ContextKey::Evaluations);
                let mut j: usize = 0;
                while j < evaluations.len()
                    invariant
                        j <= evaluations@.len(),
                        ev == fact_views(evaluations@),
                        ev == facts_of(ctx@, ContextKey::Evaluations),
                        forall|k: int| 0 <= k < j ==> clean_evaluation(#[trigger] ev[k].content),
                    decreases evaluations.len() - j,
                {
                    let c = evaluations[j].content.as_str();
                    assert(ev[j as int].content == c@);
                    if mentions(c, "negative") || mentions(c, "rejected") {
                        assert(!clean_evaluation(ev[j as int].content));
                        return false;
                    }
                    j = j + 1;
                }
                true
            },
            SuccessCriterion::Custom(_) => true,
        }
    }
}

/// The criteria of a list that a context does not satisfy, in order.
pub open spec fn failing(cs: Seq<SuccessCriterion>, v: ContextView) -> Seq<SuccessCriterion>
    decreases cs.len(),
{
    if cs.len() == 0 {
        Seq::empty()
    } else if criterion_satisfied(cs.last(), v) {
        failing(cs.drop_last(), v)
    } else {
        failing(cs.drop_last(), v).push(cs.last())
    }
}

/// The items behind a list of references.
pub open spec fn derefs<T>(s: Seq<&T>) -> Seq<T> {
    s.map_values(|c: &T| *c)
}

/// Success criteria: required ones (all must pass) and optional ones (reported only).
#[derive(Debug, Clone, PartialEq, Eq)]
pub struct SuccessCriteria {
    required: Vec<SuccessCriterion>,
    optional: Vec<SuccessCriterion>,
}

impl Default for SuccessCriteria {
    fn default() -> (r: Self)
        ensures
            r.required_criteria() == Seq::<SuccessCriterion>::empty(),
            r.optional_criteria() == Seq::<SuccessCriterion>::empty(),
    {
        SuccessCriteria::new()
    }
}

fn failing_of<'a>(cs: &'a Vec<SuccessCriterion>, ctx: &ContextState) -> (r: Vec<&'a SuccessCriterion>)
    requires
        ctx.wf(),
    ensures
        derefs(r@) == failing(cs@, ctx@),
{
    let mut out: Vec<&SuccessCriterion> = Vec::new();
    let mut i: usize = 0;
    while i < cs.len()
        invariant
            i <= cs@.len(),
            ctx.wf(),
            derefs(out@) == failing(cs@.take(i as int), ctx@),
        decreases cs.len() - i,
    {
        assert(cs@.take(i as int + 1).drop_last() == cs@.take(i as int));
        let ghost before = out@;
        if !cs[i].is_satisfied(ctx) {
            out.push(&cs[i]);
            assert(derefs(out@) == derefs(before).push(cs@[i as int]));
        }
        i = i + 1;
    }
    assert(cs@.take(cs@.len() as int) == cs@);
    out
}

impl SuccessCriteria {
    /// The required criteria, in the order they were added.
    pub closed spec fn required_criteria(&self) -> Seq<SuccessCriterion> {
        self.required@
    }

    /// The optional criteria, in the order they were added.
    pub closed spec fn optional_criteria(&self) -> Seq<SuccessCriterion> {
        self.optional@
    }

    /// Creates empty success criteria.
    pub fn new() -> (r: Self)
        ensures
            r.required_criteria() == Seq::<SuccessCriterion>::empty(),
            r.optional_criteria() == Seq::<SuccessCriterion>::empty(),
    {
        SuccessCriteria { required: Vec::new(), optional: Vec::new() }
    }

    /// Adds a required criterion.
    pub fn require(self, criterion: SuccessCriterion) -> (r: Self)
        ensures
            r.required_criteria() == self.required_criteria().push(criterion),
            r.optional_criteria() == self.optional_criteria(),
    {
        let mut required = self.required;
        required.push(criterion);
        SuccessCriteria { required, optional: self.optional }
    }

    /// Adds an optional criterion.
    pub fn prefer(self, criterion: SuccessCriterion) -> (r: Self)
        ensures
            r.required_criteria() == self.required_criteria(),
            r.optional_criteria() == self.optional_criteria().push(criterion),
    {
        let mut optional = self.optional;
        optional.push(criterion);
        SuccessCriteria { required: self.required, optional }
    }

    /// Checks if all required criteria are satisfied.
    pub fn is_satisfied(&self, ctx: &ContextState) -> (r: bool)
        requires
            ctx.wf(),
        ensures
            r == forall|i: int|
                0 <= i < self.required_criteria().len() ==> criterion_satisfied(
                    #[trigger] self.required_criteria()[i],
                    ctx@,
                ),
    {
        let mut i: usize = 0;
        while i < self.required.len()
            invariant
                i <= self.required@.len(),
                ctx.wf(),
                forall|k: int| 0 <= k < i ==> criterion_satisfied(#[trigger] self.required@[k], ctx@),
            decreases self.required.len() - i,
        {
            if !self.required[i].is_satisfied(ctx) {
                assert(!criterion_satisfied(self.required_criteria()[i as int], ctx@));
                return false;
            }
            i = i + 1;
        }
        true
    }

    /// Returns unsatisfied required criteria.
    pub fn unsatisfied(&self, ctx: &ContextState) -> (r: Vec<&SuccessCriterion>)
        requires
            ctx.wf(),
        ensures
            derefs(r@) == failing(self.required_criteria(), ctx@),
    {
        failing_of(&self.required, ctx)
    }

    /// Returns unsatisfied optional criteria.
    pub fn unsatisfied_optional(&self, ctx: &ContextState) -> (r: Vec<&SuccessCriterion>)
        requires
            ctx.wf(),
        ensures
            derefs(r@) == failing(self.optional_criteria(), ctx@),
    {
        failing_of(&self.optional, ctx)
    }

    /// Checks if criteria are explicitly defined.
    pub fn is_explicit(&self) -> (r: bool)
        ensures
            r == (self.required_criteria().len() > 0),
    {
        self.required.len() > 0
    }
}

/// Execution budgets that guarantee termination.
#[derive(Debug, Clone, PartialEq, Eq)]
pub struct Budgets {
    /// Maximum execution cycles.
    pub max_cycles: u32,
    /// Maximum agents that can run per cycle.
    pub max_agents_per_cycle: Option<u32>,
    /// Maximum total facts in context.
    pub max_facts: u32,
    /// Time limit for the entire job.
    pub time_limit: Option<Duration>,
    /// Maximum LLM tokens to consume.
    pub max_tokens: Option<u64>,
}

/// The default budgets: 100 cycles, 10 000 facts, no other limit.
pub open spec fn default_budgets() -> Budgets {
    Budgets {
        max_cycles: 100,
        max_agents_per_cycle: None,
        max_facts: 10000,
        time_limit: None,
        max_tokens: None,
    }
}

impl Default for Budgets {
    fn default() -> (r: Self)
        ensures
            r == default_budgets(),
    {
        Budgets {
            max_cycles: 100,
            max_agents_per_cycle: None,
            max_facts: 10000,
            time_limit: None,
            max_tokens: None,
        }
    }
}

impl Budgets {
    /// Sets the cycle limit.
    pub fn with_max_cycles(self, max: u32) -> (r: Self)
        ensures
            r == (Budgets { max_cycles: max, ..self }),
    {
        Budgets { max_cycles: max, ..self }
    }

    /// Sets the fact limit.
    pub fn with_max_facts(self, max: u32) -> (r: Self)
        ensures
            r == (Budgets { max_facts: max, ..self }),
    {
        Budgets { max_facts: max, ..self }
    }

    /// Sets a time limit.
    pub fn with_time_limit(self, limit: Duration) -> (r: Self)
        ensures
            r == (Budgets { time_limit: Some(limit), ..self }),
    {
        Budgets { time_limit: Some(limit), ..self }
    }

    /// Sets a token limit.
    pub fn with_max_tokens(self, max: u64) -> (r: Self)
        ensures
            r == (Budgets { max_tokens: Some(max), ..self }),
    {
        Budgets { max_tokens: Some(max), ..self }
    }

    /// Converts to the engine budget.
    pub fn to_engine_budget(&self) -> (r: Budget)
        ensures
            r.max_cycles == self.max_cycles,
            r.max_facts == self.max_facts,
    {
        Budget { max_cycles: self.max_cycles, max_facts: self.max_facts }
    }
}

/// Error when root intent validation fails.
#[derive(Debug, Clone, PartialEq, Eq)]
pub struct IntentValidationError {
    /// What failed validation.
    pub field: String,
    /// Why it failed.
    pub reason: String,
}

impl IntentValidationError {
    /// Renders the error as `invalid <field>: <reason>`.
    pub fn to_text(&self) -> (r: String)
        ensures
            r@ == "invalid "@ + self.field@ + ": "@ + self.reason@,
    {
        let mut s = String::new();
        s.append("invalid ");
        s.append(self.field.as_str());
        s.append(": ");
        s.append(self.reason.as_str());
        s
    }
}

/// The root intent: the constitution of a job.
#[derive(Debug)]
pub struct RootIntent {
    /// Unique identifier.
    pub id: IntentId,
    /// The class of problem.
    pub kind: IntentKind,
    /// What the system should optimize.
    pub objective: Option<Objective>,
    /// What is in-bounds.
    pub scope: Scope,
    /// Hard and soft constraints.
    pub constraints: Vec<IntentConstraint>,
    /// Success criteria.
    pub success_criteria: SuccessCriteria,
    /// Execution budgets.
    pub budgets: Budgets,
}

/// The seed text describing an intent's kind and objective.
pub open spec fn intent_seed_text(kind: IntentKind, objective: Option<Objective>) -> Seq<char> {
    "kind="@ + intent_kind_name(kind) + " objective="@ + match objective {
        Some(o) => objective_name(o),
        None => "unspecified"@,
    }
}

/// The seed facts of the scope constraints, one per constraint, numbered from zero.
pub open spec fn scope_seed_facts(id: Seq<char>, cs: Seq<ScopeConstraint>) -> Seq<FactView> {
    Seq::new(
        cs.len(),
        |i: int|
            FactView {
                key: ContextKey::Seeds,
                id: "scope:"@ + id + ":"@ + decimal(i as nat),
                content: scope_text(cs[i]),
            },
    )
}

/// The constraint facts of the hard constraints, in order.
pub open spec fn constraint_seed_facts(id: Seq<char>, cs: Seq<IntentConstraint>) -> Seq<FactView>
    decreases cs.len(),
{
    if cs.len() == 0 {
        Seq::empty()
    } else if cs.last().severity == ConstraintSeverity::Hard {
        constraint_seed_facts(id, cs.drop_last()).push(
            FactView {
                key: ContextKey::Constraints,
                id: "constraint:"@ + id + ":"@ + cs.last().key@,
                content: cs.last().key@ + "="@ + cs.last().value@,
            },
        )
    } else {
        constraint_seed_facts(id, cs.drop_last())
    }
}

/// All seed facts of an intent: its metadata, its scope and its hard constraints.
pub open spec fn seed_facts(r: RootIntent) -> Seq<FactView> {
    seq![
        FactView {
            key: ContextKey::Seeds,
            id: "intent:"@ + r.id@,
            content: intent_seed_text(r.kind, r.objective),
        },
    ] + scope_seed_facts(r.id@, r.scope@) + constraint_seed_facts(r.id@, r.constraints@)
}

fn with_severity_of<'a>(cs: &'a Vec<IntentConstraint>, sev: ConstraintSeverity) -> (r: Vec<&'a IntentConstraint>)
    ensures
        derefs(r@) == with_severity(cs@, sev),
{
    let mut out: Vec<&IntentConstraint> = Vec::new();
    let mut i: usize = 0;
    while i < cs.len()
        invariant
            i <= cs@.len(),
            derefs(out@) == with_severity(cs@.take(i as int), sev),
        decreases cs.len() - i,
    {
        assert(cs@.take(i as int + 1).drop_last() == cs@.take(i as int));
        let ghost before = out@;
        if cs[i].severity == sev {
            out.push(&cs[i]);
            assert(derefs(out@) == derefs(before).push(cs@[i as int]));
        }
        i = i + 1;
    }
    assert(cs@.take(cs@.len() as int) == cs@);
    out
}

impl RootIntent {
    /// Creates a new root intent of the given kind with a fresh identifier, no objective,
    /// an empty scope, no constraints, no criteria and default budgets.
    pub fn new(kind: IntentKind) -> (r: Self)
        ensures
            exists|n: u64| r.id@ == "intent-"@ + decimal(n as nat),
            r.kind == kind,
            r.objective is None,
            r.scope@ == Seq::<ScopeConstraint>::empty(),
            r.constraints@ == Seq::<IntentConstraint>::empty(),
            r.success_criteria.required_criteria() == Seq::<SuccessCriterion>::empty(),
            r.success_criteria.optional_criteria() == Seq::<SuccessCriterion>::empty(),
            r.budgets == default_budgets(),
    {
        RootIntent {
            id: IntentId::generate(),
            kind,
            objective: None,
            scope: Scope::new(),
            constraints: Vec::new(),
            success_criteria: SuccessCriteria::new(),
            budgets: Budgets::default(),
        }
    }

    /// Sets the intent identifier.
    pub fn with_id(self, id: IntentId) -> (r: Self)
        ensures
            r == (RootIntent { id, ..self }),
    {
        RootIntent { id, ..self }
    }

    /// Sets the objective.
    pub fn with_objective(self, objective: Objective) -> (r: Self)
        ensures
            r == (RootIntent { objective: Some(objective), ..self }),
    {
        RootIntent { objective: Some(objective), ..self }
    }

    /// Sets the scope.
    pub fn with_scope(self, scope: Scope) -> (r: Self)
        ensures
            r == (RootIntent { scope, ..self }),
    {
        RootIntent { scope, ..self }
    }

    /// Adds a constraint.
    pub fn with_constraint(self, constraint: IntentConstraint) -> (r: Self)
        ensures
            r.constraints@ == self.constraints@.push(constraint),
            r.id == self.id,
            r.kind == self.kind,
            r.objective == self.objective,
            r.scope == self.scope,
            r.success_criteria == self.success_criteria,
            r.budgets == self.budgets,
    {
        let mut constraints = self.constraints;
        constraints.push(constraint);
        RootIntent { constraints, ..self }
    }

    /// Adds a required success criterion.
    pub fn with_success_criterion(self, criterion: SuccessCriterion) -> (r: Self)
        ensures
            r.success_criteria.required_criteria() == self.success_criteria.required_criteria().push(
                criterion,
            ),
            r.success_criteria.optional_criteria() == self.success_criteria.optional_criteria(),
            r.id == self.id,
            r.kind == self.kind,
            r.objective == self.objective,
            r.scope == self.scope,
            r.constraints == self.constraints,
            r.budgets == self.budgets,
    {
        let success_criteria = self.success_criteria.require(criterion);
        RootIntent { success_criteria, ..self }
    }

    /// Sets the success criteria.
    pub fn with_success_criteria(self, criteria: SuccessCriteria) -> (r: Self)
        ensures
            r == (RootIntent { success_criteria: criteria, ..self }),
    {
        RootIntent { success_criteria: criteria, ..self }
    }

    /// Sets the budgets.
    pub fn with_budgets(self, budgets: Budgets) -> (r: Self)
        ensures
            r == (RootIntent { budgets, ..self }),
    {
        RootIntent { budgets, ..self }
    }

    /// Validates the root intent: the scope must be defined, then the success criteria
    /// must be explicit.
    pub fn validate(&self) -> (r: Result<(), IntentValidationError>)
        ensures
            r is Ok <==> self.scope@.len() > 0 && self.success_criteria.required_criteria().len() > 0,
            r matches Err(e) ==> (if self.scope@.len() == 0 {
                e.field@ == "scope"@ && e.reason@ == "scope must have at least one constraint"@
            } else {
                e.field@ == "success_criteria"@ && e.reason@
                    == "at least one success criterion must be defined"@
            }),
    {
        if !self.scope.is_defined() {
            return Err(IntentValidationError {
                field: owned("scope"),
                reason: owned("scope must have at least one constraint"),
            });
        }
        if !self.success_criteria.is_explicit() {
            return Err(IntentValidationError {
                field: owned("success_criteria"),
                reason: owned("at least one success criterion must be defined"),
            });
        }
        Ok(())
    }

    /// Creates the initial seed facts of this intent: its metadata, one fact per scope
    /// constraint, and one constraint fact per hard constraint.
    pub fn to_seed_facts(&self) -> (r: Vec<ContextFact>)
        ensures
            fact_views(r@) == seed_facts(*self),
    {
        let mut facts: Vec<ContextFact> = Vec::new();
        let id = self.id.as_str();

        let mut meta_id = String::new();
        meta_id.append("intent:");
        meta_id.append(id);
        let mut meta = String::new();
        meta.append("kind=");
        meta.append(self.kind.name());
        meta.append(" objective=");
        match &self.objective {
            Some(o) => {
                let name = o.name();
                meta.append(name.as_str());
            },
            None => {
                meta.append("unspecified");
            },
        }
        facts.push(ContextFact { key: ContextKey::Seeds, id: meta_id, content: meta, promotion: None });
        let ghost first = seq![
            FactView {
                key: ContextKey::Seeds,
                id: "intent:"@ + self.id@,
                content: intent_seed_text(self.kind, self.objective),
            },
        ];
        assert(fact_views(facts@) == first);

        let cs = self.scope.constraints();
        let mut i: usize = 0;
        while i < cs.len()
            invariant
                i <= cs@.len(),
                cs@ == self.scope@,
                id@ == self.id@,
                fact_views(facts@) == first + scope_seed_facts(self.id@, cs@.take(i as int)),
            decreases cs.len() - i,
        {
            let mut fid = String::new();
            fid.append("scope:");
            fid.append(id);
            fid.append(":");
            push_decimal(&mut fid, i as u64);
            let mut content = String::new();
            match &cs[i] {
                ScopeConstraint::Market(m) => {
                    content.append("market=");
                    content.append(m.as_str());
                },
                ScopeConstraint::Geography(g) => {
                    content.append("geography=");
                    content.append(g.as_str());
                },
                ScopeConstraint::Product(p) => {
                    content.append("product=");
                    content.append(p.as_str());
                },
                ScopeConstraint::TimeWindow { description, .. } => {
                    content.append("timewindow=");
                    content.append(description.as_str());
                },
                ScopeConstraint::CustomerSegment(s) => {
                    content.append("segment=");
                    content.append(s.as_str());
                },
                ScopeConstraint::Custom { key, value } => {
                    content.append(key.as_str());
                    content.append("=");
                    content.append(value.as_str());
                },
            }
            let ghost before = fact_views(facts@);
            facts.push(ContextFact { key: ContextKey::Seeds, id: fid, content, promotion: None });
            proof {
                assert(fact_views(facts@) == before.push(facts@.last()@));
                assert(scope_seed_facts(self.id@, cs@.take(i as int + 1)) =~= scope_seed_facts(
                    self.id@,
                    cs@.take(i as int),
                ).push(
                    FactView {
                        key: ContextKey::Seeds,
                        id: "scope:"@ + self.id@ + ":"@ + decimal(i as nat),
                        content: scope_text(cs@[i as int]),
                    },
                ));
                assert(fact_views(facts@) =~= first + scope_seed_facts(self.id@, cs@.take(i as int + 1)));
            }
            i = i + 1;
        }
        assert(cs@.take(cs@.len() as int) == cs@);
        let ghost middle = fact_views(facts@);

        let mut j: usize = 0;
        while j < self.constraints.len()
            invariant
                j <= self.constraints@.len(),
                id@ == self.id@,
                fact_views(facts@) == middle + constraint_seed_facts(self.id@, self.constraints@.take(j as int)),
            decreases self.constraints.len() - j,
        {
            let c = &self.constraints[j];
            assert(self.constraints@.take(j as int + 1).drop_last() == self.constraints@.take(j as int));
            if c.severity == ConstraintSeverity::Hard {
                let mut fid = String::new();
                fid.append("constraint:");
                fid.append(id);
                fid.append(":");
                fid.append(c.key.as_str());
                let mut content = String::new();
                content.append(c.key.as_str());
                content.append("=");
                content.append(c.value.as_str());
                let ghost before = fact_views(facts@);
                facts.push(ContextFact { key: ContextKey::Constraints, id: fid, content, promotion: None });
                proof {
                    assert(fact_views(facts@) == before.push(facts@.last()@));
                    assert(fact_views(facts@) =~= middle + constraint_seed_facts(self.id@, self.constraints@.take(j as int + 1)));
                }
            }
            j = j + 1;
        }
        assert(self.constraints@.take(self.constraints@.len() as int) == self.constraints@);
        assert(fact_views(facts@) =~= seed_facts(*self));
        facts
    }

    /// Returns the hard constraints, in order.
    pub fn hard_constraints(&self) -> (r: Vec<&IntentConstraint>)
        ensures
            derefs(r@) == with_severity(self.constraints@, ConstraintSeverity::Hard),
    {
        with_severity_of(&self.constraints, ConstraintSeverity::Hard)
    }

    /// Returns the soft constraints, in order.
    pub fn soft_constraints(&self) -> (r: Vec<&IntentConstraint>)
        ensures
            derefs(r@) == with_severity(self.constraints@, ConstraintSeverity::Soft),
    {
        with_severity_of(&self.constraints, ConstraintSeverity::Soft)
    }

    /// Checks if the required success criteria are satisfied by the context.
    pub fn is_successful(&self, ctx: &ContextState) -> (r: bool)
        requires
            ctx.wf(),
        ensures
            r == forall|i: int|
                0 <= i < self.success_criteria.required_criteria().len() ==> criterion_satisfied(
                    #[trigger] self.success_criteria.required_criteria()[i],
                    ctx@,
                ),
    {
        self.success_criteria.is_satisfied(ctx)
    }
}

} // verus!
