use vstd::prelude::*;

use crate::context::{proposal_views, ContextKey, ContextState, ProposalView, ProposedFact};

verus! {

/// Unique identifier for a registered suggestor, assigned in registration order and
/// used for the deterministic merge order.
#[derive(Debug, Clone, Copy, PartialEq, Eq, Hash, PartialOrd, Ord, Structural)]
pub struct SuggestorId(pub u32);

impl SuggestorId {
    /// Returns the raw numeric identifier.
    pub fn as_u32(self) -> (r: u32)
        ensures
            r == self.0,
    {
        self.0
    }
}

/// The buffered output of one suggestor execution: proposals only, never facts.
#[derive(Debug)]
pub struct AgentEffect {
    /// The proposals, in the order the suggestor emitted them.
    pub proposals: Vec<ProposedFact>,
}

impl AgentEffect {
    /// An effect with no proposals.
    pub fn empty() -> (r: Self)
        ensures
            r.proposals@.len() == 0,
    {
        AgentEffect { proposals: Vec::new() }
    }

    /// An effect with a single proposal.
    pub fn with_proposal(proposal: ProposedFact) -> (r: Self)
        ensures
            proposal_views(r.proposals@) == seq![proposal@],
    {
        let mut proposals: Vec<ProposedFact> = Vec::new();
        proposals.push(proposal);
        assert(proposal_views(proposals@) =~= seq![proposal@]);
        AgentEffect { proposals }
    }

    /// An effect with the given proposals.
    pub fn with_proposals(proposals: Vec<ProposedFact>) -> (r: Self)
        ensures
            r.proposals == proposals,
    {
        AgentEffect { proposals }
    }

    /// Whether the effect holds no proposal.
    pub fn is_empty(&self) -> (r: bool)
        ensures
            r == (self.proposals@.len() == 0),
    {
        self.proposals.len() == 0
    }
}

/// The effects ordered by suggestor, each placed after those of equal or smaller
/// identifier that came before it (a stable insertion order).
pub open spec fn by_suggestor(s: Seq<(SuggestorId, AgentEffect)>) -> Seq<(SuggestorId, AgentEffect)>
    decreases s.len(),
{
    if s.len() == 0 {
        s
    } else {
        insert_by_suggestor(by_suggestor(s.drop_last()), s.last())
    }
}

/// Inserts an effect behind every effect whose identifier is not larger.
pub open spec fn insert_by_suggestor(
    s: Seq<(SuggestorId, AgentEffect)>,
    x: (SuggestorId, AgentEffect),
) -> Seq<(SuggestorId, AgentEffect)>
    decreases s.len(),
{
    if s.len() == 0 {
        seq![x]
    } else if s.last().0.0 > x.0.0 {
        insert_by_suggestor(s.drop_last(), x).push(s.last())
    } else {
        s.push(x)
    }
}

/// Effects are in non-decreasing suggestor order.
pub open spec fn suggestor_sorted(s: Seq<(SuggestorId, AgentEffect)>) -> bool {
    forall|i: int, j: int| 0 <= i < j < s.len() ==> (#[trigger] s[i]).0.0 <= (#[trigger] s[j]).0.0
}

proof fn lemma_insert_tail(s: Seq<(SuggestorId, AgentEffect)>, x: (SuggestorId, AgentEffect), j: int)
    requires
        0 <= j <= s.len(),
        forall|k: int| j <= k < s.len() ==> (#[trigger] s[k]).0.0 > x.0.0,
    ensures
        insert_by_suggestor(s, x) == insert_by_suggestor(s.take(j), x) + s.skip(j),
    decreases s.len() - j,
{
    if j < s.len() {
        lemma_insert_tail(s, x, j + 1);
        let t = s.take(j + 1);
        assert(t.drop_last() == s.take(j));
        assert(t.last() == s[j]);
        assert(insert_by_suggestor(t, x) == insert_by_suggestor(s.take(j), x).push(s[j]));
        assert(s.skip(j) == seq![s[j]] + s.skip(j + 1));
        assert(insert_by_suggestor(s.take(j), x).push(s[j]) + s.skip(j + 1)
            == insert_by_suggestor(s.take(j), x) + s.skip(j));
    } else {
        assert(s.take(j) == s);
        assert(s.skip(j) == Seq::<(SuggestorId, AgentEffect)>::empty());
        assert(insert_by_suggestor(s, x) + s.skip(j) == insert_by_suggestor(s, x));
    }
}

proof fn lemma_insert_keeps(s: Seq<(SuggestorId, AgentEffect)>, x: (SuggestorId, AgentEffect))
    requires
        suggestor_sorted(s),
    ensures
        suggestor_sorted(insert_by_suggestor(s, x)),
        insert_by_suggestor(s, x).to_multiset() == s.to_multiset().insert(x),
        insert_by_suggestor(s, x).len() == s.len() + 1,
    decreases s.len(),
{
    broadcast use vstd::seq_lib::group_to_multiset_ensures;

    if s.len() == 0 {
        assert(insert_by_suggestor(s, x) == s.push(x));
    } else if s.last().0.0 > x.0.0 {
        let d = s.drop_last();
        assert(suggestor_sorted(d)) by {
            assert forall|i: int, j: int| 0 <= i < j < d.len() implies (#[trigger] d[i]).0.0 <= (#[trigger] d[j]).0.0 by {
                assert(d[i] == s[i] && d[j] == s[j]);
            }
        }
        lemma_insert_keeps(d, x);
        lemma_insert_members(d, x);
        let r = insert_by_suggestor(d, x);
        assert forall|i: int, j: int| 0 <= i < j < r.push(s.last()).len() implies (#[trigger] r.push(s.last())[i]).0.0 <= (#[trigger] r.push(s.last())[j]).0.0 by {
            if j == r.len() {
                assert(r.push(s.last())[i] == r[i]);
                if r[i] != x {
                    let k = choose|k: int| 0 <= k < d.len() && d[k] == r[i];
                    assert(s[k] == d[k]);
                    assert(s[k].0.0 <= s[s.len() - 1].0.0);
                }
            } else {
                assert(r.push(s.last())[i] == r[i] && r.push(s.last())[j] == r[j]);
            }
        }
        assert(s == d.push(s.last()));
    } else {
        assert forall|i: int, j: int| 0 <= i < j < s.push(x).len() implies (#[trigger] s.push(x)[i]).0.0 <= (#[trigger] s.push(x)[j]).0.0 by {
            if j == s.len() {
                assert(s[i].0.0 <= s[s.len() - 1].0.0 || i == s.len() - 1);
            }
        }
    }
}

proof fn lemma_insert_members(s: Seq<(SuggestorId, AgentEffect)>, x: (SuggestorId, AgentEffect))
    ensures
        forall|i: int| 0 <= i < insert_by_suggestor(s, x).len() ==> insert_by_suggestor(s, x)[i] == x
            || exists|k: int| 0 <= k < s.len() && s[k] == #[trigger] insert_by_suggestor(s, x)[i],
    decreases s.len(),
{
    if s.len() == 0 {
    } else if s.last().0.0 > x.0.0 {
        let d = s.drop_last();
        lemma_insert_members(d, x);
        let r = insert_by_suggestor(d, x);
        assert forall|i: int| 0 <= i < r.push(s.last()).len() implies r.push(s.last())[i] == x
            || exists|k: int| 0 <= k < s.len() && s[k] == #[trigger] r.push(s.last())[i] by {
            if i == r.len() {
                assert(s[s.len() - 1] == r.push(s.last())[i]);
            } else {
                assert(r.push(s.last())[i] == r[i]);
                if r[i] != x {
                    let k = choose|k: int| 0 <= k < d.len() && d[k] == r[i];
                    assert(s[k] == d[k]);
                }
            }
        }
    } else {
        assert forall|i: int| 0 <= i < s.push(x).len() implies s.push(x)[i] == x
            || exists|k: int| 0 <= k < s.len() && s[k] == #[trigger] s.push(x)[i] by {
            if i < s.len() {
                assert(s[i] == s.push(x)[i]);
            }
        }
    }
}

/// The ordering of effects by suggestor is sorted and keeps every effect: it is a
/// permutation of its input.
pub proof fn lemma_by_suggestor(s: Seq<(SuggestorId, AgentEffect)>)
    ensures
        suggestor_sorted(by_suggestor(s)),
        by_suggestor(s).to_multiset() == s.to_multiset(),
        by_suggestor(s).len() == s.len(),
    decreases s.len(),
{
    broadcast use vstd::seq_lib::group_to_multiset_ensures;

    if s.len() > 0 {
        lemma_by_suggestor(s.drop_last());
        lemma_insert_keeps(by_suggestor(s.drop_last()), s.last());
        assert(s == s.drop_last().push(s.last()));
    } else {
        assert(s.to_multiset() == vstd::multiset::Multiset::<(SuggestorId, AgentEffect)>::empty());
    }
}

/// No two effects come from the same suggestor.
pub open spec fn distinct_suggestors(s: Seq<(SuggestorId, AgentEffect)>) -> bool {
    forall|a: int, b: int| 0 <= a < b < s.len() ==> (#[trigger] s[a]).0 != (#[trigger] s[b]).0
}

/// Reordering effects from distinct suggestors keeps the suggestors distinct.
proof fn lemma_distinct_permutation(a: Seq<(SuggestorId, AgentEffect)>, s: Seq<(SuggestorId, AgentEffect)>)
    requires
        distinct_suggestors(a),
        s.to_multiset() == a.to_multiset(),
    ensures
        distinct_suggestors(s),
{
    broadcast use vstd::seq_lib::group_to_multiset_ensures;

    assert(a.no_duplicates()) by {
        assert forall|i: int, j: int| 0 <= i < a.len() && 0 <= j < a.len() && i != j implies a[i] != a[j] by {
            if i < j {
                assert(a[i].0 != a[j].0);
            } else {
                assert(a[j].0 != a[i].0);
            }
        }
    }
    a.lemma_multiset_has_no_duplicates();
    assert forall|p: int, q: int| 0 <= p < q < s.len() implies (#[trigger] s[p]).0 != (#[trigger] s[q]).0 by {
        if s[p].0 == s[q].0 {
            assert(s.contains(s[p]));
            assert(s.contains(s[q]));
            assert(a.to_multiset().count(s[p]) > 0);
            assert(a.to_multiset().count(s[q]) > 0);
            assert(a.contains(s[p]));
            assert(a.contains(s[q]));
            let ip = choose|i: int| 0 <= i < a.len() && a[i] == s[p];
            let iq = choose|i: int| 0 <= i < a.len() && a[i] == s[q];
            if ip < iq {
                assert(a[ip].0 != a[iq].0);
            } else if iq < ip {
                assert(a[iq].0 != a[ip].0);
            } else {
                let x = s[p];
                let r = s.remove(p);
                assert(r[q - 1] == s[q]);
                assert(r.contains(x));
                assert(r.to_multiset().count(x) > 0);
                assert(r.to_multiset() == s.to_multiset().remove(x));
                assert(s.to_multiset().count(x) >= 2);
                assert(a.to_multiset().count(x) == 1);
            }
        }
    }
}

/// Two orderings by suggestor of the same effects from distinct suggestors are equal.
proof fn lemma_sorted_unique(x: Seq<(SuggestorId, AgentEffect)>, y: Seq<(SuggestorId, AgentEffect)>)
    requires
        suggestor_sorted(x),
        suggestor_sorted(y),
        x.to_multiset() == y.to_multiset(),
        distinct_suggestors(x),
    ensures
        x == y,
    decreases x.len(),
{
    broadcast use vstd::seq_lib::group_to_multiset_ensures;

    vstd::seq_lib::to_multiset_len(x);
    vstd::seq_lib::to_multiset_len(y);
    assert(x.len() == y.len());
    if x.len() == 0 {
        assert(x =~= y);
    } else {
        assert(x.contains(x[0]));
        assert(y.to_multiset().count(x[0]) > 0);
        assert(y.contains(x[0]));
        assert(y.contains(y[0]));
        assert(x.to_multiset().count(y[0]) > 0);
        assert(x.contains(y[0]));
        let j = choose|j: int| 0 <= j < y.len() && y[j] == x[0];
        let i = choose|i: int| 0 <= i < x.len() && x[i] == y[0];
        if j > 0 {
            assert(y[0].0.0 <= y[j].0.0);
        }
        if i > 0 {
            assert(x[0].0.0 <= x[i].0.0);
            assert(x[0].0 != x[i].0);
        }
        assert(x[0] == y[0]);
        let x1 = x.remove(0);
        let y1 = y.remove(0);
        assert(x1.to_multiset() == y1.to_multiset());
        assert forall|a: int, b: int| 0 <= a < b < x1.len() implies (#[trigger] x1[a]).0.0 <= (#[trigger] x1[b]).0.0 by {
            assert(x1[a] == x[a + 1]);
            assert(x1[b] == x[b + 1]);
        }
        assert forall|a: int, b: int| 0 <= a < b < y1.len() implies (#[trigger] y1[a]).0.0 <= (#[trigger] y1[b]).0.0 by {
            assert(y1[a] == y[a + 1]);
            assert(y1[b] == y[b + 1]);
        }
        assert forall|a: int, b: int| 0 <= a < b < x1.len() implies (#[trigger] x1[a]).0 != (#[trigger] x1[b]).0 by {
            assert(x1[a] == x[a + 1]);
            assert(x1[b] == x[b + 1]);
        }
        lemma_sorted_unique(x1, y1);
        assert forall|k: int| 0 <= k < x.len() implies x[k] == y[k] by {
            if k > 0 {
                assert(x1[k - 1] == x[k]);
                assert(y1[k - 1] == y[k]);
            }
        }
        assert(x =~= y);
    }
}

/// Effects from distinct suggestors are ordered the same whatever order they arrive in.
pub proof fn law_by_suggestor_order_independent(a: Seq<(SuggestorId, AgentEffect)>, b: Seq<(SuggestorId, AgentEffect)>)
    requires
        a.to_multiset() == b.to_multiset(),
        distinct_suggestors(a),
    ensures
        by_suggestor(a) == by_suggestor(b),
{
    lemma_by_suggestor(a);
    lemma_by_suggestor(b);
    lemma_distinct_permutation(a, by_suggestor(a));
    lemma_sorted_unique(by_suggestor(a), by_suggestor(b));
}

/// Orders effects by suggestor identifier, keeping the arrival order of equal ones.
pub fn sort_by_suggestor(effects: Vec<(SuggestorId, AgentEffect)>) -> (r: Vec<(SuggestorId, AgentEffect)>)
    ensures
        r@ == by_suggestor(effects@),
        suggestor_sorted(r@),
        r@.to_multiset() == effects@.to_multiset(),
{
    let ghost orig = effects@;
    let mut rest = effects;
    let mut out: Vec<(SuggestorId, AgentEffect)> = Vec::new();
    let mut i: usize = 0;
    let n = rest.len();
    while i < n
        invariant
            n == orig.len(),
            i <= n,
            rest@ == orig.skip(i as int),
            out@ == by_suggestor(orig.take(i as int)),
        decreases n - i,
    {
        let x = rest.remove(0);
        proof {
            assert(x == orig[i as int]);
            assert(orig.take(i as int + 1).drop_last() == orig.take(i as int));
            assert(orig.take(i as int + 1).last() == orig[i as int]);
            assert(rest@ == orig.skip(i as int + 1));
        }
        let mut j: usize = out.len();
        while j > 0 && out[j - 1].0.0 > x.0.0
            invariant
                j <= out@.len(),
                forall|k: int| j <= k < out@.len() ==> (#[trigger] out@[k]).0.0 > x.0.0,
            decreases j,
        {
            j = j - 1;
        }
        proof {
            let s = out@;
            lemma_insert_tail(s, x, j as int);
            let t = s.take(j as int);
            if j > 0 {
                assert(t.last() == s[j - 1]);
                assert(insert_by_suggestor(t, x) == t.push(x));
            } else {
                assert(insert_by_suggestor(t, x) == seq![x]);
                assert(t.push(x) == seq![x]);
            }
            assert(s.insert(j as int, x) == t.push(x) + s.skip(j as int));
        }
        out.insert(j, x);
        i = i + 1;
    }
    proof {
        assert(orig.take(n as int) == orig);
        lemma_by_suggestor(orig);
    }
    out
}

/// A capability that reads the context and emits proposals; implemented by users.
///
/// Suggestors never write to the context: the engine promotes what they propose.
pub trait Suggestor {
    /// Human-readable name.
    fn name(&self) -> &str;

    /// The context keys whose changes wake this suggestor; none means it is considered
    /// on every cycle.
    fn dependencies(&self) -> &[ContextKey];

    /// Whether the suggestor wants to run against this context.
    fn accepts(&self, ctx: &ContextState) -> bool;

    /// Runs the suggestor against the context.
    fn execute(&self, ctx: &ContextState) -> AgentEffect;
}

} // verus!
