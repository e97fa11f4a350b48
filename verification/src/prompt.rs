use vstd::prelude::*;
use vstd::string::*;

use crate::context::{fact_views, facts_of, key_name, ContextFact, ContextKey, ContextState, FactView};
use crate::text::{join, lemma_join_step, owned, push_char};

verus! {

/// Prompt serialization format.
#[derive(Debug, Clone, Copy, PartialEq, Eq, Structural)]
pub enum PromptFormat {
    /// Plain text.
    Plain,
    /// EDN, the compact default.
    Edn,
}

impl Default for PromptFormat {
    fn default() -> (r: Self)
        ensures
            r == PromptFormat::Edn,
    {
        PromptFormat::Edn
    }
}

/// The role of the agent a prompt addresses.
#[derive(Debug, Clone, Copy, PartialEq, Eq, Structural)]
pub enum AgentRole {
    Proposer,
    Validator,
    Synthesizer,
    Analyzer,
}

/// A behavioural constraint of a prompt.
#[derive(Debug, Clone, Copy, PartialEq, Eq, Hash, PartialOrd, Ord, Structural)]
pub enum Constraint {
    NoInvent,
    NoContradict,
    NoHallucinate,
    CiteSources,
}

/// What the agent must emit.
#[derive(Debug, Clone, Copy, PartialEq, Eq, Structural)]
pub enum OutputKind {
    ProposedFact,
    Fact,
    Analysis,
    Evaluation,
    Plan,
    Classification,
    Draft,
    Reasoning,
}

/// The format the agent must answer in.
#[derive(Debug, Clone, Copy, PartialEq, Eq, Structural)]
pub enum OutputFormat {
    Edn,
    Json,
    Xml,
    Plain,
}

/// What the agent must produce, under which key, in which format.
#[derive(Debug, Clone, Copy, PartialEq, Eq, Structural)]
pub struct OutputContract {
    /// The kind of output.
    pub emit: OutputKind,
    /// The context key it targets.
    pub key: ContextKey,
    /// The answer format, if fixed.
    pub format: Option<OutputFormat>,
}

impl OutputContract {
    /// A contract without a fixed format.
    pub fn new(emit: OutputKind, key: ContextKey) -> (r: Self)
        ensures
            r == (OutputContract { emit, key, format: None }),
    {
        OutputContract { emit, key, format: None }
    }

    /// Fixes the answer format.
    pub fn with_format(self, format: OutputFormat) -> (r: Self)
        ensures
            r == (OutputContract { format: Some(format), ..self }),
    {
        OutputContract { format: Some(format), ..self }
    }
}

/// The facts shown to the agent, grouped by key.
#[derive(Debug, Clone)]
pub struct PromptContext {
    /// The groups of facts, in the order they were added.
    pub facts: Vec<(ContextKey, Vec<ContextFact>)>,
}

/// The views of the fact groups of a prompt context.
pub open spec fn group_views(g: Seq<(ContextKey, Vec<ContextFact>)>) -> Seq<(ContextKey, Seq<FactView>)> {
    g.map_values(|p: (ContextKey, Vec<ContextFact>)| (p.0, fact_views(p.1@)))
}

/// The non-empty groups of facts of the given keys, in order.
pub open spec fn dependency_groups(v: crate::context::ContextView, keys: Seq<ContextKey>) -> Seq<(ContextKey, Seq<FactView>)>
    decreases keys.len(),
{
    if keys.len() == 0 {
        Seq::empty()
    } else if facts_of(v, keys.last()).len() > 0 {
        dependency_groups(v, keys.drop_last()).push((keys.last(), facts_of(v, keys.last())))
    } else {
        dependency_groups(v, keys.drop_last())
    }
}

impl PromptContext {
    /// An empty prompt context.
    pub fn new() -> (r: Self)
        ensures
            r.facts@.len() == 0,
    {
        PromptContext { facts: Vec::new() }
    }

    /// Adds a group of facts under a key; an empty group is ignored.
    pub fn add_facts(&mut self, key: ContextKey, facts: Vec<ContextFact>)
        ensures
            facts@.len() == 0 ==> final(self).facts@ == old(self).facts@,
            facts@.len() > 0 ==> final(self).facts@ == old(self).facts@.push((key, facts)),
    {
        if facts.len() > 0 {
            self.facts.push((key, facts));
        }
    }

    /// Builds a prompt context from the facts of the given keys, skipping empty ones.
    pub fn from_context(ctx: &ContextState, dependencies: &[ContextKey]) -> (r: Self)
        requires
            ctx.wf(),
        ensures
            group_views(r.facts@) == dependency_groups(ctx@, dependencies@),
    {
        let mut r = PromptContext::new();
        let mut i: usize = 0;
        while i < dependencies.len()
            invariant
                i <= dependencies@.len(),
                ctx.wf(),
                group_views(r.facts@) == dependency_groups(ctx@, dependencies@.take(i as int)),
            decreases dependencies.len() - i,
        {
            let key = dependencies[i];
            let src = ctx.get(key);
            let mut copied: Vec<ContextFact> = Vec::new();
            let mut j: usize = 0;
            while j < src.len()
                invariant
                    j <= src@.len(),
                    copied@.len() == j,
                    forall|k: int| 0 <= k < j ==> (#[trigger] copied@[k])@ == src@[k]@,
                decreases src.len() - j,
            {
                copied.push(src[j].duplicate());
                j = j + 1;
            }
            assert(fact_views(copied@) =~= fact_views(src@));
            assert(dependencies@.take(i as int + 1).drop_last() == dependencies@.take(i as int));
            let ghost before = group_views(r.facts@);
            r.add_facts(key, copied);
            assert(group_views(r.facts@) =~= dependency_groups(ctx@, dependencies@.take(i as int + 1)));
            i = i + 1;
        }
        assert(dependencies@.take(dependencies@.len() as int) == dependencies@);
        r
    }
}

/// A prompt for an agent: role, objective, facts, constraints and output contract.
#[derive(Debug, Clone)]
pub struct AgentPrompt {
    /// The agent's role.
    pub role: AgentRole,
    /// What the agent must achieve.
    pub objective: String,
    /// The facts it may use.
    pub context: PromptContext,
    /// Its constraints, as a set (order and repetitions carry no meaning).
    pub constraints: Vec<Constraint>,
    /// What it must produce.
    pub output_contract: OutputContract,
}

// ---------------------------------------------------------------------------
// Keywords and names
// ---------------------------------------------------------------------------

/// The EDN keyword of a role.
pub open spec fn role_keyword(r: AgentRole) -> Seq<char> {
    match r {
        AgentRole::Proposer => ":proposer"@,
        AgentRole::Validator => ":validator"@,
        AgentRole::Synthesizer => ":synthesizer"@,
        AgentRole::Analyzer => ":analyzer"@,
    }
}

/// The debug name of a role.
pub open spec fn role_name(r: AgentRole) -> Seq<char> {
    match r {
        AgentRole::Proposer => "Proposer"@,
        AgentRole::Validator => "Validator"@,
        AgentRole::Synthesizer => "Synthesizer"@,
        AgentRole::Analyzer => "Analyzer"@,
    }
}

/// The EDN keyword of a constraint.
pub open spec fn constraint_keyword(c: Constraint) -> Seq<char> {
    match c {
        Constraint::NoInvent => ":no-invent"@,
        Constraint::NoContradict => ":no-contradict"@,
        Constraint::NoHallucinate => ":no-hallucinate"@,
        Constraint::CiteSources => ":cite-sources"@,
    }
}

/// The debug name of a constraint.
pub open spec fn constraint_name(c: Constraint) -> Seq<char> {
    match c {
        Constraint::NoInvent => "NoInvent"@,
        Constraint::NoContradict => "NoContradict"@,
        Constraint::NoHallucinate => "NoHallucinate"@,
        Constraint::CiteSources => "CiteSources"@,
    }
}

/// The EDN keyword of an output kind.
pub open spec fn output_keyword(k: OutputKind) -> Seq<char> {
    match k {
        OutputKind::ProposedFact => "proposed-fact"@,
        OutputKind::Fact => "fact"@,
        OutputKind::Analysis => "analysis"@,
        OutputKind::Evaluation => "evaluation"@,
        OutputKind::Plan => "plan"@,
        OutputKind::Classification => "classification"@,
        OutputKind::Draft => "draft"@,
        OutputKind::Reasoning => "reasoning"@,
    }
}

/// The debug name of an output kind.
pub open spec fn output_name(k: OutputKind) -> Seq<char> {
    match k {
        OutputKind::ProposedFact => "ProposedFact"@,
        OutputKind::Fact => "Fact"@,
        OutputKind::Analysis => "Analysis"@,
        OutputKind::Evaluation => "Evaluation"@,
        OutputKind::Plan => "Plan"@,
        OutputKind::Classification => "Classification"@,
        OutputKind::Draft => "Draft"@,
        OutputKind::Reasoning => "Reasoning"@,
    }
}

/// The EDN keyword of an output format.
pub open spec fn format_keyword(f: OutputFormat) -> Seq<char> {
    match f {
        OutputFormat::Edn => "edn"@,
        OutputFormat::Json => "json"@,
        OutputFormat::Xml => "xml"@,
        OutputFormat::Plain => "plain"@,
    }
}

/// The EDN keyword of a context key.
pub open spec fn key_keyword(k: ContextKey) -> Seq<char> {
    match k {
        ContextKey::Seeds => ":seeds"@,
        ContextKey::Hypotheses => ":hypotheses"@,
        ContextKey::Strategies => ":strategies"@,
        ContextKey::Constraints => ":constraints"@,
        ContextKey::Signals => ":signals"@,
        ContextKey::Competitors => ":competitors"@,
        ContextKey::Evaluations => ":evaluations"@,
        ContextKey::Proposals => ":proposals"@,
        ContextKey::Diagnostic => ":diagnostic"@,
    }
}

fn role_kw(r: AgentRole) -> (s: &'static str)
    ensures
        s@ == role_keyword(r),
{
    match r {
        AgentRole::Proposer => ":proposer",
        AgentRole::Validator => ":validator",
        AgentRole::Synthesizer => ":synthesizer",
        AgentRole::Analyzer => ":analyzer",
    }
}

fn role_nm(r: AgentRole) -> (s: &'static str)
    ensures
        s@ == role_name(r),
{
    match r {
        AgentRole::Proposer => "Proposer",
        AgentRole::Validator => "Validator",
        AgentRole::Synthesizer => "Synthesizer",
        AgentRole::Analyzer => "Analyzer",
    }
}

fn constraint_kw(c: Constraint) -> (s: &'static str)
    ensures
        s@ == constraint_keyword(c),
{
    match c {
        Constraint::NoInvent => ":no-invent",
        Constraint::NoContradict => ":no-contradict",
        Constraint::NoHallucinate => ":no-hallucinate",
        Constraint::CiteSources => ":cite-sources",
    }
}

fn constraint_nm(c: Constraint) -> (s: &'static str)
    ensures
        s@ == constraint_name(c),
{
    match c {
        Constraint::NoInvent => "NoInvent",
        Constraint::NoContradict => "NoContradict",
        Constraint::NoHallucinate => "NoHallucinate",
        Constraint::CiteSources => "CiteSources",
    }
}

fn output_kw(k: OutputKind) -> (s: &'static str)
    ensures
        s@ == output_keyword(k),
{
    match k {
        OutputKind::ProposedFact => "proposed-fact",
        OutputKind::Fact => "fact",
        OutputKind::Analysis => "analysis",
        OutputKind::Evaluation => "evaluation",
        OutputKind::Plan => "plan",
        OutputKind::Classification => "classification",
        OutputKind::Draft => "draft",
        OutputKind::Reasoning => "reasoning",
    }
}

fn output_nm(k: OutputKind) -> (s: &'static str)
    ensures
        s@ == output_name(k),
{
    match k {
        OutputKind::ProposedFact => "ProposedFact",
        OutputKind::Fact => "Fact",
        OutputKind::Analysis => "Analysis",
        OutputKind::Evaluation => "Evaluation",
        OutputKind::Plan => "Plan",
        OutputKind::Classification => "Classification",
        OutputKind::Draft => "Draft",
        OutputKind::Reasoning => "Reasoning",
    }
}

fn format_kw(f: OutputFormat) -> (s: &'static str)
    ensures
        s@ == format_keyword(f),
{
    match f {
        OutputFormat::Edn => "edn",
        OutputFormat::Json => "json",
        OutputFormat::Xml => "xml",
        OutputFormat::Plain => "plain",
    }
}

fn context_key_to_keyword(k: ContextKey) -> (s: &'static str)
    ensures
        s@ == key_keyword(k),
{
    match k {
        ContextKey::Seeds => ":seeds",
        ContextKey::Hypotheses => ":hypotheses",
        ContextKey::Strategies => ":strategies",
        ContextKey::Constraints => ":constraints",
        ContextKey::Signals => ":signals",
        ContextKey::Competitors => ":competitors",
        ContextKey::Evaluations => ":evaluations",
        ContextKey::Proposals => ":proposals",
        ContextKey::Diagnostic => ":diagnostic",
    }
}

// ---------------------------------------------------------------------------
// Escaping
// ---------------------------------------------------------------------------

/// The escaped form of one character: backslash, double quote, newline, carriage
/// return and tab are written with a backslash; other characters stay.
pub open spec fn escape_char(c: char) -> Seq<char> {
    if c == '\\' {
        seq!['\\', '\\']
    } else if c == '"' {
        seq!['\\', '"']
    } else if c == '\n' {
        seq!['\\', 'n']
    } else if c == '\r' {
        seq!['\\', 'r']
    } else if c == '\t' {
        seq!['\\', 't']
    } else {
        seq![c]
    }
}

/// The escaped form of a text, character by character.
pub open spec fn escaped(s: Seq<char>) -> Seq<char>
    decreases s.len(),
{
    if s.len() == 0 {
        Seq::empty()
    } else {
        escaped(s.drop_last()) + escape_char(s.last())
    }
}

/// A text with every space replaced by a dash.
pub open spec fn dashed(s: Seq<char>) -> Seq<char> {
    s.map_values(|c: char| if c == ' ' { '-' } else { c })
}

fn push_escaped(out: &mut String, s: &str)
    ensures
        final(out)@ == old(out)@ + escaped(s@),
{
    let n = s.unicode_len();
    let mut i: usize = 0;
    while i < n
        invariant
            n == s@.len(),
            i <= n,
            out@ == old(out)@ + escaped(s@.take(i as int)),
        decreases n - i,
    {
        let c = s.get_char(i);
        assert(s@.take(i as int + 1).drop_last() == s@.take(i as int));
        let ghost before = out@;
        if c == '\\' {
            push_char(out, '\\');
            push_char(out, '\\');
        } else if c == '"' {
            push_char(out, '\\');
            push_char(out, '"');
        } else if c == '\n' {
            push_char(out, '\\');
            push_char(out, 'n');
        } else if c == '\r' {
            push_char(out, '\\');
            push_char(out, 'r');
        } else if c == '\t' {
            push_char(out, '\\');
            push_char(out, 't');
        } else {
            push_char(out, c);
        }
        assert(out@ =~= before + escape_char(c));
        i = i + 1;
    }
    assert(s@.take(n as int) == s@);
}

/// Escapes the characters EDN strings cannot hold literally.
pub fn escape_string(s: &str) -> (r: String)
    ensures
        r@ == escaped(s@),
{
    let mut out = String::new();
    push_escaped(&mut out, s);
    assert(out@ =~= escaped(s@));
    out
}

fn push_dashed(out: &mut String, s: &str)
    ensures
        final(out)@ == old(out)@ + dashed(s@),
{
    let n = s.unicode_len();
    let mut i: usize = 0;
    while i < n
        invariant
            n == s@.len(),
            i <= n,
            out@ == old(out)@ + dashed(s@.take(i as int)),
        decreases n - i,
    {
        let c = s.get_char(i);
        let ghost before = out@;
        if c == ' ' {
            push_char(out, '-');
        } else {
            push_char(out, c);
        }
        assert(dashed(s@.take(i as int + 1)) =~= dashed(s@.take(i as int)).push(if c == ' ' { '-' } else { c }));
        i = i + 1;
    }
    assert(s@.take(n as int) == s@);
}

// ---------------------------------------------------------------------------
// Serialization
// ---------------------------------------------------------------------------

/// The constraints of a prompt as a set, in the canonical order.
pub open spec fn canonical_constraints(cs: Seq<Constraint>) -> Seq<Constraint> {
    let all = seq![Constraint::NoInvent, Constraint::NoContradict, Constraint::NoHallucinate, Constraint::CiteSources];
    all.filter(|c: Constraint| cs.contains(c))
}

/// The EDN form of one fact.
pub open spec fn edn_fact(f: FactView) -> Seq<char> {
    ":id \""@ + escaped(f.id) + "\" :c \""@ + escaped(f.content) + "\""@
}

/// The EDN form of one group of facts.
pub open spec fn edn_group(g: (ContextKey, Seq<FactView>)) -> Seq<char> {
    key_keyword(g.0) + " [{"@ + join(g.1.map_values(|f: FactView| edn_fact(f)), "} {"@) + "}]"@
}

/// The EDN form of a prompt.
pub open spec fn edn_text(p: AgentPrompt) -> Seq<char> {
    "{:r "@ + role_keyword(p.role) + "\n :o :"@ + dashed(p.objective@) + "\n :c {"@ + join(
        group_views(p.context.facts@).map_values(|g: (ContextKey, Seq<FactView>)| edn_group(g)),
        " "@,
    ) + "}\n :k #{"@ + join(
        canonical_constraints(p.constraints@).map_values(|c: Constraint| constraint_keyword(c)),
        " "@,
    ) + "}\n :out {:emit :"@ + output_keyword(p.output_contract.emit) + " :key "@ + key_keyword(
        p.output_contract.key,
    ) + match p.output_contract.format {
        Some(f) => " :format :"@ + format_keyword(f),
        None => Seq::empty(),
    } + "}}"@
}

/// The plain-text lines of one fact.
pub open spec fn plain_fact(f: FactView) -> Seq<char> {
    "- "@ + f.id + ": "@ + f.content + "\n"@
}

/// The concatenation of a list of texts.
pub open spec fn concat_all(s: Seq<Seq<char>>) -> Seq<char>
    decreases s.len(),
{
    if s.len() == 0 {
        Seq::empty()
    } else {
        concat_all(s.drop_last()) + s.last()
    }
}

/// The plain-text section of one group of facts.
pub open spec fn plain_group(g: (ContextKey, Seq<FactView>)) -> Seq<char> {
    "\n## "@ + key_name(g.0) + "\n"@ + concat_all(g.1.map_values(|f: FactView| plain_fact(f)))
}

/// The plain-text form of a prompt.
pub open spec fn plain_text(p: AgentPrompt) -> Seq<char> {
    "Role: "@ + role_name(p.role) + "\n"@ + "Objective: "@ + p.objective@ + "\n"@ + "\nContext:\n"@
        + concat_all(group_views(p.context.facts@).map_values(|g: (ContextKey, Seq<FactView>)| plain_group(g)))
        + (if canonical_constraints(p.constraints@).len() > 0 {
        "\nConstraints:\n"@ + concat_all(
            canonical_constraints(p.constraints@).map_values(|c: Constraint| "- "@ + constraint_name(c) + "\n"@),
        )
    } else {
        Seq::empty()
    }) + "\nOutput: "@ + output_name(p.output_contract.emit) + " -> "@ + key_name(p.output_contract.key)
        + "\n"@
}

fn has_constraint(cs: &Vec<Constraint>, c: Constraint) -> (r: bool)
    ensures
        r == cs@.contains(c),
{
    let mut i: usize = 0;
    while i < cs.len()
        invariant
            i <= cs@.len(),
            forall|k: int| 0 <= k < i ==> cs@[k] != c,
        decreases cs.len() - i,
    {
        if cs[i] == c {
            assert(cs@[i as int] == c);
            return true;
        }
        i = i + 1;
    }
    false
}

fn canonical_of(cs: &Vec<Constraint>) -> (r: Vec<Constraint>)
    ensures
        r@ == canonical_constraints(cs@),
{
    let mut r: Vec<Constraint> = Vec::new();
    if has_constraint(cs, Constraint::NoInvent) {
        r.push(Constraint::NoInvent);
    }
    if has_constraint(cs, Constraint::NoContradict) {
        r.push(Constraint::NoContradict);
    }
    if has_constraint(cs, Constraint::NoHallucinate) {
        r.push(Constraint::NoHallucinate);
    }
    if has_constraint(cs, Constraint::CiteSources) {
        r.push(Constraint::CiteSources);
    }
    proof {
        let all = seq![Constraint::NoInvent, Constraint::NoContradict, Constraint::NoHallucinate, Constraint::CiteSources];
        reveal_with_fuel(Seq::filter, 5);
        assert(all.drop_last().drop_last().drop_last().drop_last() =~= Seq::<Constraint>::empty());
        assert(all.drop_last().drop_last().drop_last() =~= seq![Constraint::NoInvent]);
        assert(all.drop_last().drop_last() =~= seq![Constraint::NoInvent, Constraint::NoContradict]);
        assert(all.drop_last() =~= seq![Constraint::NoInvent, Constraint::NoContradict, Constraint::NoHallucinate]);
        assert(r@ =~= all.filter(|c: Constraint| cs@.contains(c)));
    }
    r
}

impl AgentPrompt {
    /// A prompt without constraints.
    pub fn new(role: AgentRole, objective: &str, context: PromptContext, output_contract: OutputContract) -> (r: Self)
        ensures
            r.role == role,
            r.objective@ == objective@,
            r.context == context,
            r.constraints@.len() == 0,
            r.output_contract == output_contract,
    {
        AgentPrompt { role, objective: owned(objective), context, constraints: Vec::new(), output_contract }
    }

    /// Adds a constraint to the set.
    pub fn with_constraint(self, constraint: Constraint) -> (r: Self)
        ensures
            r.constraints@ == self.constraints@.push(constraint),
            r.role == self.role,
            r.objective == self.objective,
            r.context == self.context,
            r.output_contract == self.output_contract,
    {
        let mut constraints = self.constraints;
        constraints.push(constraint);
        AgentPrompt { constraints, ..self }
    }

    /// Adds constraints to the set.
    pub fn with_constraints(self, more: Vec<Constraint>) -> (r: Self)
        ensures
            r.constraints@ == self.constraints@ + more@,
            r.role == self.role,
            r.objective == self.objective,
            r.context == self.context,
            r.output_contract == self.output_contract,
    {
        let mut constraints = self.constraints;
        let mut more = more;
        constraints.append(&mut more);
        AgentPrompt { constraints, ..self }
    }
}


proof fn lemma_concat_step(items: Seq<Seq<char>>, i: int)
    requires
        0 <= i < items.len(),
    ensures
        concat_all(items.take(i + 1)) == concat_all(items.take(i)) + items[i],
{
    assert(items.take(i + 1).drop_last() == items.take(i));
    assert(items.take(i + 1).last() == items[i]);
}

fn push_edn_fact(out: &mut String, f: &ContextFact)
    ensures
        final(out)@ == old(out)@ + edn_fact(f@),
{
    out.append(":id \"");
    push_escaped(out, f.id.as_str());
    out.append("\" :c \"");
    push_escaped(out, f.content.as_str());
    out.append("\"");
    assert(out@ =~= old(out)@ + edn_fact(f@));
}

fn push_edn_group(out: &mut String, key: ContextKey, facts: &Vec<ContextFact>)
    ensures
        final(out)@ == old(out)@ + edn_group((key, fact_views(facts@))),
{
    out.append(context_key_to_keyword(key));
    out.append(" [{");
    let ghost start = out@;
    let ghost items = fact_views(facts@).map_values(|f: FactView| edn_fact(f));
    let mut i: usize = 0;
    while i < facts.len()
        invariant
            i <= facts@.len(),
            items == fact_views(facts@).map_values(|f: FactView| edn_fact(f)),
            out@ == start + join(items.take(i as int), "} {"@),
        decreases facts.len() - i,
    {
        proof { lemma_join_step(items, "} {"@, i as int); }
        let ghost before = out@;
        if i > 0 {
            out.append("} {");
        }
        push_edn_fact(out, &facts[i]);
        assert(items[i as int] == edn_fact(facts@[i as int]@));
        assert(out@ =~= start + join(items.take(i as int + 1), "} {"@));
        i = i + 1;
    }
    assert(items.take(facts@.len() as int) == items);
    out.append("}]");
    assert(out@ =~= old(out)@ + edn_group((key, fact_views(facts@))));
}

fn push_plain_group(out: &mut String, key: ContextKey, facts: &Vec<ContextFact>)
    ensures
        final(out)@ == old(out)@ + plain_group((key, fact_views(facts@))),
{
    out.append("\n## ");
    out.append(key.name());
    out.append("\n");
    let ghost start = out@;
    let ghost items = fact_views(facts@).map_values(|f: FactView| plain_fact(f));
    let mut i: usize = 0;
    while i < facts.len()
        invariant
            i <= facts@.len(),
            items == fact_views(facts@).map_values(|f: FactView| plain_fact(f)),
            out@ == start + concat_all(items.take(i as int)),
        decreases facts.len() - i,
    {
        proof { lemma_concat_step(items, i as int); }
        out.append("- ");
        out.append(facts[i].id.as_str());
        out.append(": ");
        out.append(facts[i].content.as_str());
        out.append("\n");
        assert(items[i as int] == plain_fact(facts@[i as int]@));
        assert(out@ =~= start + concat_all(items.take(i as int + 1)));
        i = i + 1;
    }
    assert(items.take(facts@.len() as int) == items);
    assert(out@ =~= old(out)@ + plain_group((key, fact_views(facts@))));
}

fn push_edn_context(s: &mut String, facts: &Vec<(ContextKey, Vec<ContextFact>)>)
    ensures
        final(s)@ == old(s)@ + join(
            group_views(facts@).map_values(|g: (ContextKey, Seq<FactView>)| edn_group(g)),
            " "@,
        ),
{
    let ghost start = s@;
    let ghost groups = group_views(facts@).map_values(|g: (ContextKey, Seq<FactView>)| edn_group(g));
    let mut g: usize = 0;
    while g < facts.len()
        invariant
            g <= facts@.len(),
            groups == group_views(facts@).map_values(|g: (ContextKey, Seq<FactView>)| edn_group(g)),
            s@ == start + join(groups.take(g as int), " "@),
        decreases facts.len() - g,
    {
        proof { lemma_join_step(groups, " "@, g as int); }
        if g > 0 {
            s.append(" ");
        }
        push_edn_group(s, facts[g].0, &facts[g].1);
        assert(groups[g as int] == edn_group((facts@[g as int].0, fact_views(facts@[g as int].1@))));
        assert(s@ =~= start + join(groups.take(g as int + 1), " "@));
        g = g + 1;
    }
    assert(groups.take(facts@.len() as int) == groups);
}

fn push_edn_constraints(s: &mut String, constraints: &Vec<Constraint>)
    ensures
        final(s)@ == old(s)@ + join(
            canonical_constraints(constraints@).map_values(|c: Constraint| constraint_keyword(c)),
            " "@,
        ),
{
    let cs = canonical_of(constraints);
    let ghost mid = s@;
    let ghost kws = cs@.map_values(|c: Constraint| constraint_keyword(c));
    let mut i: usize = 0;
    while i < cs.len()
        invariant
            i <= cs@.len(),
            kws == cs@.map_values(|c: Constraint| constraint_keyword(c)),
            s@ == mid + join(kws.take(i as int), " "@),
        decreases cs.len() - i,
    {
        proof { lemma_join_step(kws, " "@, i as int); }
        if i > 0 {
            s.append(" ");
        }
        s.append(constraint_kw(cs[i]));
        assert(s@ =~= mid + join(kws.take(i as int + 1), " "@));
        i = i + 1;
    }
    assert(kws.take(cs@.len() as int) == kws);
}

impl AgentPrompt {
    /// Serializes the prompt as compact EDN; constraints appear once each, in canonical
    /// order, and spaces in the objective become dashes.
    pub fn to_edn(&self) -> (r: String)
        ensures
            r@ == edn_text(*self),
    {
        let mut s = String::new();
        s.append("{:r ");
        s.append(role_kw(self.role));
        s.append("\n :o :");
        push_dashed(&mut s, self.objective.as_str());
        s.append("\n :c {");
        push_edn_context(&mut s, &self.context.facts);
        s.append("}\n :k #{");
        push_edn_constraints(&mut s, &self.constraints);
        s.append("}\n :out {:emit :");
        s.append(output_kw(self.output_contract.emit));
        s.append(" :key ");
        s.append(context_key_to_keyword(self.output_contract.key));
        match self.output_contract.format {
            Some(f) => {
                s.append(" :format :");
                s.append(format_kw(f));
            },
            None => {},
        }
        s.append("}}");
        assert(s@ =~= edn_text(*self));
        s
    }

    /// Serializes the prompt as plain text.
    pub fn to_plain(&self) -> (r: String)
        ensures
            r@ == plain_text(*self),
    {
        let mut s = String::new();
        s.append("Role: ");
        s.append(role_nm(self.role));
        s.append("\n");
        s.append("Objective: ");
        s.append(self.objective.as_str());
        s.append("\n");
        s.append("\nContext:\n");
        let ghost start = s@;
        let ghost groups = group_views(self.context.facts@).map_values(|g: (ContextKey, Seq<FactView>)| plain_group(g));
        let mut g: usize = 0;
        while g < self.context.facts.len()
            invariant
                g <= self.context.facts@.len(),
                groups == group_views(self.context.facts@).map_values(|g: (ContextKey, Seq<FactView>)| plain_group(g)),
                s@ == start + concat_all(groups.take(g as int)),
            decreases self.context.facts.len() - g,
        {
            proof { lemma_concat_step(groups, g as int); }
            push_plain_group(&mut s, self.context.facts[g].0, &self.context.facts[g].1);
            assert(groups[g as int] == plain_group((self.context.facts@[g as int].0, fact_views(self.context.facts@[g as int].1@))));
            assert(s@ =~= start + concat_all(groups.take(g as int + 1)));
            g = g + 1;
        }
        assert(groups.take(self.context.facts@.len() as int) == groups);
        let cs = canonical_of(&self.constraints);
        let ghost mid = s@;
        if cs.len() > 0 {
            s.append("\nConstraints:\n");
            let ghost lines_start = s@;
            let ghost lines = cs@.map_values(|c: Constraint| "- "@ + constraint_name(c) + "\n"@);
            let mut i: usize = 0;
            while i < cs.len()
                invariant
                    i <= cs@.len(),
                    lines == cs@.map_values(|c: Constraint| "- "@ + constraint_name(c) + "\n"@),
                    s@ == lines_start + concat_all(lines.take(i as int)),
                decreases cs.len() - i,
            {
                proof { lemma_concat_step(lines, i as int); }
                s.append("- ");
                s.append(constraint_nm(cs[i]));
                s.append("\n");
                assert(s@ =~= lines_start + concat_all(lines.take(i as int + 1)));
                i = i + 1;
            }
            assert(lines.take(cs@.len() as int) == lines);
        }
        s.append("\nOutput: ");
        s.append(output_nm(self.output_contract.emit));
        s.append(" -> ");
        s.append(self.output_contract.key.name());
        s.append("\n");
        assert(s@ =~= plain_text(*self));
        s
    }

    /// Serializes the prompt in the given format.
    pub fn serialize(&self, format: PromptFormat) -> (r: String)
        ensures
            format == PromptFormat::Edn ==> r@ == edn_text(*self),
            format == PromptFormat::Plain ==> r@ == plain_text(*self),
    {
        match format {
            PromptFormat::Edn => self.to_edn(),
            PromptFormat::Plain => self.to_plain(),
        }
    }
}

} // verus!
