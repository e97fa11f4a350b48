use vstd::prelude::*;
use vstd::string::*;

use crate::context::{
    fact_views, key_at, key_count, key_name, lemma_key_index, parts_view, proposal_views,
    view_wf, ContextFact, ContextKey, ContextState, ContextView, ConvergeError, FactView,
    ProposalView, ProposedFact,
};
use crate::integrity::{context_hashes, merkle_root_spec, MerkleRoot};
use crate::text::owned;

verus! {

/// A durable context snapshot for storage: version, Merkle root, and the fact and
/// proposal groups (one group per key, in key order).
#[derive(Debug)]
pub struct ContextSnapshot {
    /// The context version.
    pub version: u64,
    /// The Merkle root over the facts.
    pub merkle_root: MerkleRoot,
    /// The facts, one group per key in key order.
    pub facts: Vec<Vec<ContextFact>>,
    /// The staged proposals, one group per key in key order.
    pub proposals: Vec<Vec<ProposedFact>>,
}

/// The mathematical value of a snapshot.
pub struct SnapshotView {
    pub version: u64,
    pub merkle_root: Seq<u8>,
    pub facts: Seq<Seq<FactView>>,
    pub proposals: Seq<Seq<ProposalView>>,
}

impl View for ContextSnapshot {
    type V = SnapshotView;

    open spec fn view(&self) -> SnapshotView {
        SnapshotView {
            version: self.version,
            merkle_root: self.merkle_root@,
            facts: self.facts@.map_values(|b: Vec<ContextFact>| fact_views(b@)),
            proposals: self.proposals@.map_values(|b: Vec<ProposedFact>| proposal_views(b@)),
        }
    }
}

/// The context value a snapshot restores to.
pub open spec fn restored_view(s: SnapshotView) -> ContextView {
    ContextView { facts: s.facts, proposals: s.proposals, dirty: Seq::empty(), version: s.version as nat }
}

/// What is wrong with the fact at position `j` of the group of key position `i`, if anything.
pub open spec fn fact_problem(i: int, b: Seq<FactView>, j: int) -> Option<Seq<char>> {
    if b[j].key != key_at(i) {
        Some("fact '"@ + b[j].id + "' stored under "@ + key_name(key_at(i)) + " but declares "@ + key_name(b[j].key))
    } else if exists|k: int| 0 <= k < j && (#[trigger] b[k]).id == b[j].id {
        Some("duplicate fact '"@ + b[j].id + "' under "@ + key_name(key_at(i)))
    } else {
        None
    }
}

/// What is wrong with the proposal at position `j` of the group of key position `i`, if anything.
pub open spec fn proposal_problem(i: int, b: Seq<ProposalView>, j: int) -> Option<Seq<char>> {
    if b[j].key != key_at(i) {
        Some("proposal '"@ + b[j].id + "' stored under "@ + key_name(key_at(i)) + " but declares "@ + key_name(b[j].key))
    } else if exists|k: int| 0 <= k < j && (#[trigger] b[k]).id == b[j].id {
        Some("duplicate proposal '"@ + b[j].id + "' under "@ + key_name(key_at(i)))
    } else {
        None
    }
}

/// The first problem among the first `n` facts of a group.
pub open spec fn first_fact_problem(i: int, b: Seq<FactView>, n: int) -> Option<Seq<char>>
    decreases n,
{
    if n <= 0 {
        None
    } else if first_fact_problem(i, b, n - 1) is Some {
        first_fact_problem(i, b, n - 1)
    } else {
        fact_problem(i, b, n - 1)
    }
}

/// The first problem among the first `n` proposals of a group.
pub open spec fn first_proposal_problem(i: int, b: Seq<ProposalView>, n: int) -> Option<Seq<char>>
    decreases n,
{
    if n <= 0 {
        None
    } else if first_proposal_problem(i, b, n - 1) is Some {
        first_proposal_problem(i, b, n - 1)
    } else {
        proposal_problem(i, b, n - 1)
    }
}

/// The first fact problem among the groups of the first `n` keys.
pub open spec fn facts_problem(bs: Seq<Seq<FactView>>, n: int) -> Option<Seq<char>>
    decreases n,
{
    if n <= 0 {
        None
    } else if facts_problem(bs, n - 1) is Some {
        facts_problem(bs, n - 1)
    } else {
        first_fact_problem(n - 1, bs[n - 1], bs[n - 1].len() as int)
    }
}

/// The first proposal problem among the groups of the first `n` keys.
pub open spec fn proposals_problem(bs: Seq<Seq<ProposalView>>, n: int) -> Option<Seq<char>>
    decreases n,
{
    if n <= 0 {
        None
    } else if proposals_problem(bs, n - 1) is Some {
        proposals_problem(bs, n - 1)
    } else {
        first_proposal_problem(n - 1, bs[n - 1], bs[n - 1].len() as int)
    }
}

/// Why a snapshot cannot be restored, if it cannot: a wrong number of groups, then the
/// first misplaced or duplicate fact, then the first misplaced or duplicate proposal,
/// then a Merkle root that does not match the facts.
pub open spec fn snapshot_problem(s: SnapshotView) -> Option<Seq<char>> {
    if s.facts.len() != key_count() || s.proposals.len() != key_count() {
        Some("snapshot must hold one group per context key"@)
    } else if facts_problem(s.facts, key_count()) is Some {
        facts_problem(s.facts, key_count())
    } else if proposals_problem(s.proposals, key_count()) is Some {
        proposals_problem(s.proposals, key_count())
    } else if merkle_root_spec(context_hashes(restored_view(s))) != s.merkle_root {
        Some("snapshot merkle root does not match restored facts"@)
    } else {
        None
    }
}

proof fn lemma_first_fact_stable(i: int, b: Seq<FactView>, n: int, m: int)
    requires
        0 <= n <= m,
        first_fact_problem(i, b, n) is Some,
    ensures
        first_fact_problem(i, b, m) == first_fact_problem(i, b, n),
    decreases m - n,
{
    if n < m {
        lemma_first_fact_stable(i, b, n, m - 1);
    }
}

proof fn lemma_first_proposal_stable(i: int, b: Seq<ProposalView>, n: int, m: int)
    requires
        0 <= n <= m,
        first_proposal_problem(i, b, n) is Some,
    ensures
        first_proposal_problem(i, b, m) == first_proposal_problem(i, b, n),
    decreases m - n,
{
    if n < m {
        lemma_first_proposal_stable(i, b, n, m - 1);
    }
}

proof fn lemma_facts_stable(bs: Seq<Seq<FactView>>, n: int, m: int)
    requires
        0 <= n <= m,
        facts_problem(bs, n) is Some,
    ensures
        facts_problem(bs, m) == facts_problem(bs, n),
    decreases m - n,
{
    if n < m {
        lemma_facts_stable(bs, n, m - 1);
    }
}

proof fn lemma_proposals_stable(bs: Seq<Seq<ProposalView>>, n: int, m: int)
    requires
        0 <= n <= m,
        proposals_problem(bs, n) is Some,
    ensures
        proposals_problem(bs, m) == proposals_problem(bs, n),
    decreases m - n,
{
    if n < m {
        lemma_proposals_stable(bs, n, m - 1);
    }
}

proof fn lemma_first_fact_none(i: int, b: Seq<FactView>, n: int)
    requires
        0 <= n <= b.len(),
        first_fact_problem(i, b, n) is None,
    ensures
        forall|j: int| 0 <= j < n ==> (#[trigger] b[j]).key == key_at(i),
        forall|a: int, c: int| 0 <= a < c < n ==> (#[trigger] b[a]).id != (#[trigger] b[c]).id,
    decreases n,
{
    if n > 0 {
        lemma_first_fact_none(i, b, n - 1);
        assert(fact_problem(i, b, n - 1) is None);
    }
}

proof fn lemma_first_proposal_none(i: int, b: Seq<ProposalView>, n: int)
    requires
        0 <= n <= b.len(),
        first_proposal_problem(i, b, n) is None,
    ensures
        forall|j: int| 0 <= j < n ==> (#[trigger] b[j]).key == key_at(i),
        forall|a: int, c: int| 0 <= a < c < n ==> (#[trigger] b[a]).id != (#[trigger] b[c]).id,
    decreases n,
{
    if n > 0 {
        lemma_first_proposal_none(i, b, n - 1);
        assert(proposal_problem(i, b, n - 1) is None);
    }
}

proof fn lemma_facts_none(bs: Seq<Seq<FactView>>, n: int)
    requires
        0 <= n <= bs.len(),
        facts_problem(bs, n) is None,
    ensures
        forall|i: int| 0 <= i < n ==> first_fact_problem(i, #[trigger] bs[i], bs[i].len() as int) is None,
    decreases n,
{
    if n > 0 {
        lemma_facts_none(bs, n - 1);
    }
}

proof fn lemma_proposals_none(bs: Seq<Seq<ProposalView>>, n: int)
    requires
        0 <= n <= bs.len(),
        proposals_problem(bs, n) is None,
    ensures
        forall|i: int| 0 <= i < n ==> first_proposal_problem(i, #[trigger] bs[i], bs[i].len() as int) is None,
    decreases n,
{
    if n > 0 {
        lemma_proposals_none(bs, n - 1);
    }
}

/// A snapshot without problems restores to a well-formed context value.
pub proof fn lemma_no_problem_wf(s: SnapshotView)
    requires
        snapshot_problem(s) is None,
    ensures
        view_wf(restored_view(s)),
{
    lemma_facts_none(s.facts, key_count());
    lemma_proposals_none(s.proposals, key_count());
    assert forall|i: int, j: int| 0 <= i < key_count() && 0 <= j < s.facts[i].len() implies (#[trigger] s.facts[i][j]).key == key_at(i) by {
        assert(first_fact_problem(i, s.facts[i], s.facts[i].len() as int) is None);
        lemma_first_fact_none(i, s.facts[i], s.facts[i].len() as int);
    }
    assert forall|i: int, a: int, c: int| 0 <= i < key_count() && 0 <= a < c < s.facts[i].len() implies (#[trigger] s.facts[i][a]).id != (#[trigger] s.facts[i][c]).id by {
        assert(first_fact_problem(i, s.facts[i], s.facts[i].len() as int) is None);
        lemma_first_fact_none(i, s.facts[i], s.facts[i].len() as int);
    }
    assert forall|i: int, j: int| 0 <= i < key_count() && 0 <= j < s.proposals[i].len() implies (#[trigger] s.proposals[i][j]).key == key_at(i) by {
        assert(first_proposal_problem(i, s.proposals[i], s.proposals[i].len() as int) is None);
        lemma_first_proposal_none(i, s.proposals[i], s.proposals[i].len() as int);
    }
    assert forall|i: int, a: int, c: int| 0 <= i < key_count() && 0 <= a < c < s.proposals[i].len() implies (#[trigger] s.proposals[i][a]).id != (#[trigger] s.proposals[i][c]).id by {
        assert(first_proposal_problem(i, s.proposals[i], s.proposals[i].len() as int) is None);
        lemma_first_proposal_none(i, s.proposals[i], s.proposals[i].len() as int);
    }
}

/// A well-formed context value has no misplaced or duplicate item.
pub proof fn lemma_wf_no_problem(v: ContextView)
    requires
        view_wf(v),
    ensures
        facts_problem(v.facts, key_count()) is None,
        proposals_problem(v.proposals, key_count()) is None,
{
    lemma_wf_facts_prefix(v, key_count());
    lemma_wf_proposals_prefix(v, key_count());
}

proof fn lemma_wf_group_facts(v: ContextView, i: int, n: int)
    requires
        view_wf(v),
        0 <= i < key_count(),
        0 <= n <= v.facts[i].len(),
    ensures
        first_fact_problem(i, v.facts[i], n) is None,
    decreases n,
{
    if n > 0 {
        lemma_wf_group_facts(v, i, n - 1);
        let b = v.facts[i];
        assert(b[n - 1].key == key_at(i));
        assert(!(exists|k: int| 0 <= k < n - 1 && (#[trigger] b[k]).id == b[n - 1].id));
    }
}

proof fn lemma_wf_group_proposals(v: ContextView, i: int, n: int)
    requires
        view_wf(v),
        0 <= i < key_count(),
        0 <= n <= v.proposals[i].len(),
    ensures
        first_proposal_problem(i, v.proposals[i], n) is None,
    decreases n,
{
    if n > 0 {
        lemma_wf_group_proposals(v, i, n - 1);
        let b = v.proposals[i];
        assert(b[n - 1].key == key_at(i));
        assert(!(exists|k: int| 0 <= k < n - 1 && (#[trigger] b[k]).id == b[n - 1].id));
    }
}

proof fn lemma_wf_facts_prefix(v: ContextView, n: int)
    requires
        view_wf(v),
        0 <= n <= key_count(),
    ensures
        facts_problem(v.facts, n) is None,
    decreases n,
{
    if n > 0 {
        lemma_wf_facts_prefix(v, n - 1);
        lemma_wf_group_facts(v, n - 1, v.facts[n - 1].len() as int);
    }
}

proof fn lemma_wf_proposals_prefix(v: ContextView, n: int)
    requires
        view_wf(v),
        0 <= n <= key_count(),
    ensures
        proposals_problem(v.proposals, n) is None,
    decreases n,
{
    if n > 0 {
        lemma_wf_proposals_prefix(v, n - 1);
        lemma_wf_group_proposals(v, n - 1, v.proposals[n - 1].len() as int);
    }
}

fn invalid(reason: String) -> (r: ConvergeError)
    ensures
        r matches ConvergeError::InvalidSnapshot { reason: t } && t@ == reason@,
{
    ConvergeError::InvalidSnapshot { reason }
}

#[verifier::loop_isolation(false)]
fn check_fact_group(i: usize, b: &Vec<ContextFact>) -> (r: Option<String>)
    requires
        i < 9,
    ensures
        match (r, first_fact_problem(i as int, fact_views(b@), b@.len() as int)) {
            (Some(m), Some(p)) => m@ == p,
            (None, None) => true,
            _ => false,
        },
{
    let ghost bv = fact_views(b@);
    let key = ContextKey::from_index(i);
    let mut j: usize = 0;
    while j < b.len()
        invariant
            i < 9,
            key == key_at(i as int),
            bv == fact_views(b@),
            j <= b@.len(),
            first_fact_problem(i as int, bv, j as int) is None,
        decreases b.len() - j,
    {
        assert(bv[j as int] == b@[j as int]@);
        if b[j].key != key {
            let mut m = owned("fact '");
            m.append(b[j].id.as_str());
            m.append("' stored under ");
            m.append(key.name());
            m.append(" but declares ");
            m.append(b[j].key.name());
            proof { lemma_first_fact_stable(i as int, bv, j as int + 1, bv.len() as int); }
            return Some(m);
        }
        let mut k: usize = 0;
        while k < j
            invariant
                k <= j,
                j < b@.len(),
                bv == fact_views(b@),
                forall|q: int| 0 <= q < k ==> (#[trigger] bv[q]).id != bv[j as int].id,
            decreases j - k,
        {
            assert(bv[k as int] == b@[k as int]@);
            if b[k].id == b[j].id {
                let mut m = owned("duplicate fact '");
                m.append(b[j].id.as_str());
                m.append("' under ");
                m.append(key.name());
                proof {
                    assert(bv[k as int].id == bv[j as int].id);
                    lemma_first_fact_stable(i as int, bv, j as int + 1, bv.len() as int);
                }
                return Some(m);
            }
            k = k + 1;
        }
        j = j + 1;
    }
    None
}

#[verifier::loop_isolation(false)]
fn check_proposal_group(i: usize, b: &Vec<ProposedFact>) -> (r: Option<String>)
    requires
        i < 9,
    ensures
        match (r, first_proposal_problem(i as int, proposal_views(b@), b@.len() as int)) {
            (Some(m), Some(p)) => m@ == p,
            (None, None) => true,
            _ => false,
        },
{
    let ghost bv = proposal_views(b@);
    let key = ContextKey::from_index(i);
    let mut j: usize = 0;
    while j < b.len()
        invariant
            i < 9,
            key == key_at(i as int),
            bv == proposal_views(b@),
            j <= b@.len(),
            first_proposal_problem(i as int, bv, j as int) is None,
        decreases b.len() - j,
    {
        assert(bv[j as int] == b@[j as int]@);
        if b[j].key != key {
            let mut m = owned("proposal '");
            m.append(b[j].id.as_str());
            m.append("' stored under ");
            m.append(key.name());
            m.append(" but declares ");
            m.append(b[j].key.name());
            proof { lemma_first_proposal_stable(i as int, bv, j as int + 1, bv.len() as int); }
            return Some(m);
        }
        let mut k: usize = 0;
        while k < j
            invariant
                k <= j,
                j < b@.len(),
                bv == proposal_views(b@),
                forall|q: int| 0 <= q < k ==> (#[trigger] bv[q]).id != bv[j as int].id,
            decreases j - k,
        {
            assert(bv[k as int] == b@[k as int]@);
            if b[k].id.same(&b[j].id) {
                let mut m = owned("duplicate proposal '");
                m.append(b[j].id.as_str());
                m.append("' under ");
                m.append(key.name());
                proof {
                    assert(bv[k as int].id == bv[j as int].id);
                    lemma_first_proposal_stable(i as int, bv, j as int + 1, bv.len() as int);
                }
                return Some(m);
            }
            k = k + 1;
        }
        j = j + 1;
    }
    None
}

impl ContextSnapshot {
    /// Captures a snapshot of a context.
    pub fn from_context(context: &ContextState) -> (r: Self)
        requires
            context.wf(),
        ensures
            r@.version == context@.version,
            r@.facts == context@.facts,
            r@.proposals == context@.proposals,
            r@.merkle_root == merkle_root_spec(context_hashes(context@)),
    {
        ContextSnapshot {
            version: context.version(),
            merkle_root: MerkleRoot::from_context(context),
            facts: context.fact_groups(),
            proposals: context.proposal_groups(),
        }
    }

    /// The context version captured by the snapshot.
    pub fn version(&self) -> (r: u64)
        ensures
            r == self.version,
    {
        self.version
    }

    /// The snapshot's Merkle root.
    pub fn merkle_root(&self) -> (r: &MerkleRoot)
        ensures
            r == self.merkle_root,
    {
        &self.merkle_root
    }

    /// The fact groups, one per key in key order.
    pub fn facts(&self) -> (r: &Vec<Vec<ContextFact>>)
        ensures
            r == self.facts,
    {
        &self.facts
    }

    /// The proposal groups, one per key in key order.
    pub fn proposals(&self) -> (r: &Vec<Vec<ProposedFact>>)
        ensures
            r == self.proposals,
    {
        &self.proposals
    }

    /// Checks that the snapshot can be restored: one group per key, every item under
    /// its own key, no identifier twice in a group, and a Merkle root that matches the
    /// facts.
    #[verifier::loop_isolation(false)]
    pub fn validate(&self) -> (r: Result<(), ConvergeError>)
        ensures
            r is Ok <==> snapshot_problem(self@) is None,
            r matches Err(e) ==> (e matches ConvergeError::InvalidSnapshot { reason } && snapshot_problem(self@) == Some(reason@)),
    {
        let ghost sv = self@;
        if self.facts.len() != 9 || self.proposals.len() != 9 {
            return Err(invalid(owned("snapshot must hold one group per context key")));
        }
        let mut i: usize = 0;
        while i < 9
            invariant
                i <= 9,
                sv == self@,
                self.facts@.len() == 9,
                facts_problem(sv.facts, i as int) is None,
            decreases 9 - i,
        {
            assert(sv.facts[i as int] == fact_views(self.facts@[i as int]@));
            match check_fact_group(i, &self.facts[i]) {
                Some(m) => {
                    proof { lemma_facts_stable(sv.facts, i as int + 1, 9); }
                    return Err(invalid(m));
                },
                None => {},
            }
            i = i + 1;
        }
        let mut i: usize = 0;
        while i < 9
            invariant
                i <= 9,
                sv == self@,
                self.proposals@.len() == 9,
                facts_problem(sv.facts, 9) is None,
                proposals_problem(sv.proposals, i as int) is None,
            decreases 9 - i,
        {
            assert(sv.proposals[i as int] == proposal_views(self.proposals@[i as int]@));
            match check_proposal_group(i, &self.proposals[i]) {
                Some(m) => {
                    proof { lemma_proposals_stable(sv.proposals, i as int + 1, 9); }
                    return Err(invalid(m));
                },
                None => {},
            }
            i = i + 1;
        }
        let ghost partial = SnapshotView { merkle_root: Seq::empty(), ..sv };
        proof {
            assert(snapshot_problem(partial) is None || snapshot_problem(partial) == Some(
                "snapshot merkle root does not match restored facts"@,
            ));
            lemma_no_problem_wf(SnapshotView { merkle_root: merkle_root_spec(context_hashes(restored_view(sv))), ..sv });
        }
        let restored = ContextState::from_parts(copy_groups(&self.facts), copy_proposal_groups(&self.proposals), self.version);
        assert(restored@ == restored_view(sv));
        let computed = MerkleRoot::from_context(&restored);
        if !computed.same(&self.merkle_root) {
            return Err(invalid(owned("snapshot merkle root does not match restored facts")));
        }
        Ok(())
    }
}

fn copy_groups(g: &Vec<Vec<ContextFact>>) -> (r: Vec<Vec<ContextFact>>)
    ensures
        r@.map_values(|b: Vec<ContextFact>| fact_views(b@)) == g@.map_values(|b: Vec<ContextFact>| fact_views(b@)),
        r@.len() == g@.len(),
{
    let mut r: Vec<Vec<ContextFact>> = Vec::new();
    let mut i: usize = 0;
    while i < g.len()
        invariant
            i <= g@.len(),
            r@.len() == i,
            forall|j: int| 0 <= j < i ==> fact_views((#[trigger] r@[j])@) == fact_views(g@[j]@),
        decreases g.len() - i,
    {
        let mut b: Vec<ContextFact> = Vec::new();
        let mut k: usize = 0;
        while k < g[i].len()
            invariant
                i < g@.len(),
                k <= g@[i as int]@.len(),
                b@.len() == k,
                forall|q: int| 0 <= q < k ==> (#[trigger] b@[q])@ == g@[i as int]@[q]@,
            decreases g@[i as int]@.len() - k,
        {
            b.push(g[i][k].duplicate());
            k = k + 1;
        }
        assert(fact_views(b@) =~= fact_views(g@[i as int]@));
        r.push(b);
        i = i + 1;
    }
    assert(r@.map_values(|b: Vec<ContextFact>| fact_views(b@)) =~= g@.map_values(|b: Vec<ContextFact>| fact_views(b@)));
    r
}

fn copy_proposal_groups(g: &Vec<Vec<ProposedFact>>) -> (r: Vec<Vec<ProposedFact>>)
    ensures
        r@.map_values(|b: Vec<ProposedFact>| proposal_views(b@)) == g@.map_values(|b: Vec<ProposedFact>| proposal_views(b@)),
        r@.len() == g@.len(),
{
    let mut r: Vec<Vec<ProposedFact>> = Vec::new();
    let mut i: usize = 0;
    while i < g.len()
        invariant
            i <= g@.len(),
            r@.len() == i,
            forall|j: int| 0 <= j < i ==> proposal_views((#[trigger] r@[j])@) == proposal_views(g@[j]@),
        decreases g.len() - i,
    {
        let mut b: Vec<ProposedFact> = Vec::new();
        let mut k: usize = 0;
        while k < g[i].len()
            invariant
                i < g@.len(),
                k <= g@[i as int]@.len(),
                b@.len() == k,
                forall|q: int| 0 <= q < k ==> (#[trigger] b@[q])@ == g@[i as int]@[q]@,
            decreases g@[i as int]@.len() - k,
        {
            b.push(g[i][k].duplicate());
            k = k + 1;
        }
        assert(proposal_views(b@) =~= proposal_views(g@[i as int]@));
        r.push(b);
        i = i + 1;
    }
    assert(r@.map_values(|b: Vec<ProposedFact>| proposal_views(b@)) =~= g@.map_values(|b: Vec<ProposedFact>| proposal_views(b@)));
    r
}

impl ContextState {
    /// Captures a durable snapshot for later rehydration.
    pub fn snapshot(&self) -> (r: ContextSnapshot)
        requires
            self.wf(),
        ensures
            r@.version == self@.version,
            r@.facts == self@.facts,
            r@.proposals == self@.proposals,
            r@.merkle_root == merkle_root_spec(context_hashes(self@)),
    {
        ContextSnapshot::from_context(self)
    }

    /// Rehydrates a context from a snapshot. Snapshots with a wrong shape, a misplaced
    /// or duplicate item, or a Merkle root that does not match the facts are refused.
    pub fn from_snapshot(snapshot: ContextSnapshot) -> (r: Result<ContextState, ConvergeError>)
        ensures
            r is Ok <==> snapshot_problem(snapshot@) is None,
            r matches Ok(c) ==> c.wf() && c@ == restored_view(snapshot@),
            r matches Err(e) ==> (e matches ConvergeError::InvalidSnapshot { reason } && snapshot_problem(snapshot@) == Some(reason@)),
    {
        snapshot.validate()?;
        proof { lemma_no_problem_wf(snapshot@); }
        let r = ContextState::from_parts(snapshot.facts, snapshot.proposals, snapshot.version);
        Ok(r)
    }
}

/// Restoring a snapshot gives back the context it was taken from: the same facts,
/// proposals and version, with no dirty key.
pub proof fn law_snapshot_round_trip(context: ContextState, snapshot: ContextSnapshot)
    requires
        context.wf(),
        snapshot@.version == context@.version,
        snapshot@.facts == context@.facts,
        snapshot@.proposals == context@.proposals,
        snapshot@.merkle_root == merkle_root_spec(context_hashes(context@)),
    ensures
        snapshot_problem(snapshot@) is None,
        restored_view(snapshot@) == (ContextView { dirty: Seq::empty(), ..context@ }),
{
    context.lemma_wf();
    lemma_wf_no_problem(context@);
    let v = restored_view(snapshot@);
    assert(v.facts == context@.facts);
    lemma_same_facts_order(v, context@, key_count());
    assert(context_hashes(v) == context_hashes(context@));
}

proof fn lemma_same_facts_order(a: ContextView, b: ContextView, n: int)
    requires
        a.facts == b.facts,
    ensures
        crate::integrity::facts_in_key_order(a, n) == crate::integrity::facts_in_key_order(b, n),
    decreases n,
{
    if n > 0 {
        lemma_same_facts_order(a, b, n - 1);
    }
}

/// Every fact of each group is stored under its own key, and no identifier occurs twice
/// in a group.
pub open spec fn fact_groups_sound(bs: Seq<Seq<FactView>>) -> bool {
    &&& forall|i: int, j: int| 0 <= i < bs.len() && 0 <= j < bs[i].len() ==> (#[trigger] bs[i][j]).key == key_at(i)
    &&& forall|i: int, j: int, k: int|
        0 <= i < bs.len() && 0 <= j < k < bs[i].len() ==> (#[trigger] bs[i][j]).id != (#[trigger] bs[i][k]).id
}

/// Every proposal of each group is stored under its own key, and no identifier occurs
/// twice in a group.
pub open spec fn proposal_groups_sound(bs: Seq<Seq<ProposalView>>) -> bool {
    &&& forall|i: int, j: int| 0 <= i < bs.len() && 0 <= j < bs[i].len() ==> (#[trigger] bs[i][j]).key == key_at(i)
    &&& forall|i: int, j: int, k: int|
        0 <= i < bs.len() && 0 <= j < k < bs[i].len() ==> (#[trigger] bs[i][j]).id != (#[trigger] bs[i][k]).id
}

proof fn lemma_first_fact_iff(i: int, b: Seq<FactView>, n: int)
    requires
        0 <= n <= b.len(),
    ensures
        first_fact_problem(i, b, n) is None <==> (
            (forall|j: int| 0 <= j < n ==> (#[trigger] b[j]).key == key_at(i))
            && (forall|j: int, k: int| 0 <= j < k < n ==> (#[trigger] b[j]).id != (#[trigger] b[k]).id)),
    decreases n,
{
    if n > 0 {
        lemma_first_fact_iff(i, b, n - 1);
        if first_fact_problem(i, b, n - 1) is None && fact_problem(i, b, n - 1) is Some {
            if b[n - 1].key == key_at(i) {
                let k = choose|k: int| 0 <= k < n - 1 && (#[trigger] b[k]).id == b[n - 1].id;
                assert(b[k].id == b[n - 1].id);
            }
        }
    }
}

proof fn lemma_first_proposal_iff(i: int, b: Seq<ProposalView>, n: int)
    requires
        0 <= n <= b.len(),
    ensures
        first_proposal_problem(i, b, n) is None <==> (
            (forall|j: int| 0 <= j < n ==> (#[trigger] b[j]).key == key_at(i))
            && (forall|j: int, k: int| 0 <= j < k < n ==> (#[trigger] b[j]).id != (#[trigger] b[k]).id)),
    decreases n,
{
    if n > 0 {
        lemma_first_proposal_iff(i, b, n - 1);
        if first_proposal_problem(i, b, n - 1) is None && proposal_problem(i, b, n - 1) is Some {
            if b[n - 1].key == key_at(i) {
                let k = choose|k: int| 0 <= k < n - 1 && (#[trigger] b[k]).id == b[n - 1].id;
                assert(b[k].id == b[n - 1].id);
            }
        }
    }
}

proof fn lemma_facts_iff(bs: Seq<Seq<FactView>>, n: int)
    requires
        0 <= n <= bs.len(),
    ensures
        facts_problem(bs, n) is None <==> fact_groups_sound(bs.take(n)),
    decreases n,
{
    if n > 0 {
        lemma_facts_iff(bs, n - 1);
        lemma_first_fact_iff(n - 1, bs[n - 1], bs[n - 1].len() as int);
        let a = bs.take(n - 1);
        let c = bs.take(n);
        assert(forall|i: int| 0 <= i < n - 1 ==> a[i] == #[trigger] c[i]);
        assert(c[n - 1] == bs[n - 1]);
        if fact_groups_sound(c) {
            assert forall|j: int| 0 <= j < bs[n - 1].len() implies (#[trigger] bs[n - 1][j]).key == key_at(n - 1) by {
                assert(c[n - 1][j] == bs[n - 1][j]);
            }
            assert forall|j: int, k: int| 0 <= j < k < bs[n - 1].len() implies (#[trigger] bs[n - 1][j]).id != (#[trigger] bs[n - 1][k]).id by {
                assert(c[n - 1][j] == bs[n - 1][j]);
                assert(c[n - 1][k] == bs[n - 1][k]);
            }
            assert forall|i: int, j: int| 0 <= i < a.len() && 0 <= j < a[i].len() implies (#[trigger] a[i][j]).key == key_at(i) by {
                assert(c[i][j] == a[i][j]);
            }
            assert forall|i: int, j: int, k: int| 0 <= i < a.len() && 0 <= j < k < a[i].len() implies (#[trigger] a[i][j]).id != (#[trigger] a[i][k]).id by {
                assert(c[i][j] == a[i][j]);
                assert(c[i][k] == a[i][k]);
            }
        }
        if facts_problem(bs, n) is None {
            assert forall|i: int, j: int| 0 <= i < c.len() && 0 <= j < c[i].len() implies (#[trigger] c[i][j]).key == key_at(i) by {
                if i < n - 1 {
                    assert(a[i][j] == c[i][j]);
                }
            }
            assert forall|i: int, j: int, k: int| 0 <= i < c.len() && 0 <= j < k < c[i].len() implies (#[trigger] c[i][j]).id != (#[trigger] c[i][k]).id by {
                if i < n - 1 {
                    assert(a[i][j] == c[i][j]);
                    assert(a[i][k] == c[i][k]);
                }
            }
        }
    }
}

proof fn lemma_proposals_iff(bs: Seq<Seq<ProposalView>>, n: int)
    requires
        0 <= n <= bs.len(),
    ensures
        proposals_problem(bs, n) is None <==> proposal_groups_sound(bs.take(n)),
    decreases n,
{
    if n > 0 {
        lemma_proposals_iff(bs, n - 1);
        lemma_first_proposal_iff(n - 1, bs[n - 1], bs[n - 1].len() as int);
        let a = bs.take(n - 1);
        let c = bs.take(n);
        assert(forall|i: int| 0 <= i < n - 1 ==> a[i] == #[trigger] c[i]);
        assert(c[n - 1] == bs[n - 1]);
        if proposal_groups_sound(c) {
            assert forall|j: int| 0 <= j < bs[n - 1].len() implies (#[trigger] bs[n - 1][j]).key == key_at(n - 1) by {
                assert(c[n - 1][j] == bs[n - 1][j]);
            }
            assert forall|j: int, k: int| 0 <= j < k < bs[n - 1].len() implies (#[trigger] bs[n - 1][j]).id != (#[trigger] bs[n - 1][k]).id by {
                assert(c[n - 1][j] == bs[n - 1][j]);
                assert(c[n - 1][k] == bs[n - 1][k]);
            }
            assert forall|i: int, j: int| 0 <= i < a.len() && 0 <= j < a[i].len() implies (#[trigger] a[i][j]).key == key_at(i) by {
                assert(c[i][j] == a[i][j]);
            }
            assert forall|i: int, j: int, k: int| 0 <= i < a.len() && 0 <= j < k < a[i].len() implies (#[trigger] a[i][j]).id != (#[trigger] a[i][k]).id by {
                assert(c[i][j] == a[i][j]);
                assert(c[i][k] == a[i][k]);
            }
        }
        if proposals_problem(bs, n) is None {
            assert forall|i: int, j: int| 0 <= i < c.len() && 0 <= j < c[i].len() implies (#[trigger] c[i][j]).key == key_at(i) by {
                if i < n - 1 {
                    assert(a[i][j] == c[i][j]);
                }
            }
            assert forall|i: int, j: int, k: int| 0 <= i < c.len() && 0 <= j < k < c[i].len() implies (#[trigger] c[i][j]).id != (#[trigger] c[i][k]).id by {
                if i < n - 1 {
                    assert(a[i][j] == c[i][j]);
                    assert(a[i][k] == c[i][k]);
                }
            }
        }
    }
}

/// A snapshot has no problem exactly when it holds one group of facts and one of
/// proposals per key, every item is stored under its own key, no identifier occurs twice
/// in a group, and its Merkle root matches its facts.
pub proof fn lemma_snapshot_problem_iff(s: SnapshotView)
    ensures
        snapshot_problem(s) is None <==> {
            &&& s.facts.len() == key_count()
            &&& s.proposals.len() == key_count()
            &&& fact_groups_sound(s.facts)
            &&& proposal_groups_sound(s.proposals)
            &&& s.merkle_root == merkle_root_spec(context_hashes(restored_view(s)))
        },
{
    if s.facts.len() == key_count() && s.proposals.len() == key_count() {
        lemma_facts_iff(s.facts, key_count());
        lemma_proposals_iff(s.proposals, key_count());
        assert(s.facts.take(key_count()) == s.facts);
        assert(s.proposals.take(key_count()) == s.proposals);
    }
}

} // verus!
