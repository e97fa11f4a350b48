//! Properties that relate several operations of the library.

use vstd::prelude::*;
use vstd::utf8::*;

use crate::admission::{admission_outcome, admission_proposal, receipt_of, AdmissionReceipt, RequestView};
use crate::context::{
    fact_add_outcome, facts_of, key_name, ContextKey, key_at, key_count, lemma_key_index, proposal_add_outcome, proposals_of,
    view_wf, ContextView, ConvergeError, FactView, ProposalView,
};
use crate::integrity::{context_hashes, from_hex_spec, hex_digit, hex_text, hex_value, merkle_root_spec};
use crate::recall::{candidate_of, found_from, lemma_found_sourced, qualifies, qualifying_count, recalled, sourced_by, RecallPolicy, RecallQuery};
use crate::experience_store::ExperienceRecord;
use crate::snapshot::{lemma_snapshot_problem_iff, restored_view, snapshot_problem, SnapshotView};
use crate::promotion::{promotion_outcome, validation_outcome, PromotionError, PromotionGate, ValidatedProposal};
use crate::stop::{budget_stop, error_stop, success_stop, validation_stop, StopReason};
use crate::types::{fact_kind_of, Actor, Draft, EvidenceRef, Fact, FactContentKind, Proposal, ProposedContentKind, TraceLink};
use crate::engine::{gate_applies, EngineHitlPolicy, blocked_ids, required_ids, required_met, stop_for};
use crate::truth::{CriterionOutcome, CriterionResult};
use crate::hitl::{hitl_required, HitlPolicy};
use crate::root_intent::{criterion_satisfied, SuccessCriterion};
use crate::text::{contains_seq, join, lowercase, texts};
use crate::prompt::{concat_all, dashed, edn_fact, edn_group, edn_text, escaped, key_keyword, role_keyword, group_views, output_name, plain_fact, plain_group, plain_text, role_name, AgentPrompt};
use crate::validation::ValidationError;

verus! {

proof fn lemma_hex_digit_value(n: int)
    requires
        0 <= n < 16,
    ensures
        hex_value(hex_digit(n) as u8) == n,
        hex_digit(n) <= '\u{7f}',
{
}

/// Reading back the hexadecimal text of a 32-byte hash gives the same bytes.
pub proof fn law_hex_round_trip(b: Seq<u8>)
    requires
        b.len() == 32,
    ensures
        from_hex_spec(encode_utf8(hex_text(b))) == Ok::<Seq<u8>, crate::integrity::ContentHashError>(b),
{
    let t = hex_text(b);
    assert forall|i: int| 0 <= i < t.len() implies '\0' <= #[trigger] t[i] <= '\u{7f}' by {
        if i % 2 == 0 {
            lemma_hex_digit_value((b[i / 2] / 16) as int);
        } else {
            lemma_hex_digit_value((b[i / 2] % 16) as int);
        }
    }
    assert(is_ascii_chars(t));
    is_ascii_chars_encode_utf8(t);
    let e = encode_utf8(t);
    assert(e.len() == 64);
    assert forall|i: int| 0 <= i < 64 implies hex_value(#[trigger] e[i]) >= 0 && (i % 2 == 0 ==> hex_value(e[i]) == b[i / 2] / 16) && (i % 2 == 1 ==> hex_value(e[i]) == b[i / 2] % 16) by {
        assert(t[i] as u8 == e[i]);
        if i % 2 == 0 {
            lemma_hex_digit_value((b[i / 2] / 16) as int);
        } else {
            lemma_hex_digit_value((b[i / 2] % 16) as int);
        }
    }
    let r = Seq::new(32, |i: int| (hex_value(e[2 * i]) * 16 + hex_value(e[2 * i + 1])) as u8);
    assert forall|i: int| 0 <= i < 32 implies r[i] == b[i] by {
        assert(hex_value(e[2 * i]) == b[i] / 16);
        assert(hex_value(e[2 * i + 1]) == b[i] % 16);
    }
    assert(r =~= b);
}


/// Adding a fact is idempotent: once adding a fact succeeded, adding the same fact
/// again reports no change and leaves the context as it was.
pub proof fn law_add_fact_idempotent(
    a: ContextView,
    f: FactView,
    r1: Result<bool, ConvergeError>,
    b: ContextView,
    r2: Result<bool, ConvergeError>,
    c: ContextView,
)
    requires
        view_wf(a),
        fact_add_outcome(a, f, r1, b),
        r1 is Ok,
        fact_add_outcome(b, f, r2, c),
    ensures
        r2 == Ok::<bool, ConvergeError>(false),
        c == b,
{
    lemma_key_index(f.key);
    assert(facts_of(b, f.key).contains(f)) by {
        if r1 == Ok::<bool, ConvergeError>(true) {
            assert(facts_of(b, f.key) == facts_of(a, f.key).push(f));
            assert(facts_of(b, f.key)[facts_of(a, f.key).len() as int] == f);
        }
    }
    let k = choose|k: int| 0 <= k < facts_of(b, f.key).len() && facts_of(b, f.key)[k] == f;
    assert(facts_of(b, f.key)[k].id == f.id);
}

/// Staging a proposal is idempotent: once staging succeeded, staging the same
/// proposal again reports no change and leaves the context as it was.
pub proof fn law_add_proposal_idempotent(
    a: ContextView,
    p: ProposalView,
    r1: Result<bool, ConvergeError>,
    b: ContextView,
    r2: Result<bool, ConvergeError>,
    c: ContextView,
)
    requires
        view_wf(a),
        proposal_add_outcome(a, p, r1, b),
        r1 is Ok,
        proposal_add_outcome(b, p, r2, c),
    ensures
        r2 == Ok::<bool, ConvergeError>(false),
        c == b,
{
    lemma_key_index(p.key);
    assert(proposals_of(b, p.key).contains(p)) by {
        if r1 == Ok::<bool, ConvergeError>(true) {
            assert(proposals_of(b, p.key) == proposals_of(a, p.key).push(p));
            assert(proposals_of(b, p.key)[proposals_of(a, p.key).len() as int] == p);
        }
    }
    let k = choose|k: int| 0 <= k < proposals_of(b, p.key).len() && proposals_of(b, p.key)[k] == p;
    assert(proposals_of(b, p.key)[k].id == p.id);
}

/// Admission is idempotent: submitting an accepted observation again returns an
/// unstaged receipt for the same observation (same key, identifier and content
/// hash) and leaves the context as it was.
pub proof fn law_admission_idempotent(
    a: ContextView,
    q: RequestView,
    r1: Result<AdmissionReceipt, ConvergeError>,
    b: ContextView,
    r2: Result<AdmissionReceipt, ConvergeError>,
    c: ContextView,
)
    requires
        view_wf(a),
        admission_outcome(a, q, r1, b),
        r1 is Ok,
        admission_outcome(b, q, r2, c),
    ensures
        r2 matches Ok(receipt) && receipt@ == receipt_of(q, false),
        c == b,
{
    lemma_key_index(q.key);
    let p = admission_proposal(q);
    assert(proposals_of(b, q.key).contains(p)) by {
        let rc = r1->Ok_0;
        if rc@.staged {
            assert(proposals_of(b, q.key) == proposals_of(a, q.key).push(p));
            assert(proposals_of(b, q.key)[proposals_of(a, q.key).len() as int] == p);
        }
    }
    let k = choose|k: int| 0 <= k < proposals_of(b, q.key).len() && proposals_of(b, q.key)[k] == p;
    assert(proposals_of(b, q.key)[k].id == p.id);
    assert(p.id == q.id);
}


/// A validated proposal always promotes: whatever approver, evidence and trace are
/// given, the fact is `fact:<proposal id>` with the proposal's content (a draft
/// becomes a document), and its record names the promotion gate, the approver, the evidence
/// and the trace.
pub proof fn law_validated_proposal_promotes(
    gate: PromotionGate,
    p: Proposal<Draft>,
    v: ValidatedProposal,
    approver: Actor,
    evidence: Vec<EvidenceRef>,
    trace: TraceLink,
    r: Result<Fact, PromotionError>,
)
    requires
        validation_outcome(gate, p, Ok::<ValidatedProposal, ValidationError>(v)),
        promotion_outcome(gate, v, approver, evidence, trace, r),
    ensures
        r matches Ok(f) && {
            &&& f.id_spec() == "fact:"@ + p.id_spec()
            &&& f.content_spec().content@ == p.content_spec()
            &&& f.content_spec().kind == fact_kind_of(p.kind_spec())
            &&& f.record_spec().gate_id@ == gate.gate_spec()
            &&& f.record_spec().approver == approver
            &&& f.record_spec().evidence_refs == evidence
            &&& f.record_spec().trace_link == trace
        },
{
}


/// Every stop reason falls in exactly one class: success, budget exhaustion,
/// validation failure, error, a pending gate, or required human intervention.
pub proof fn law_stop_reason_classes(r: StopReason)
    ensures
        success_stop(r) ==> !budget_stop(r) && !validation_stop(r) && !error_stop(r),
        budget_stop(r) ==> !validation_stop(r) && !error_stop(r),
        validation_stop(r) ==> !error_stop(r),
        (r is HitlGatePending || r is HumanInterventionRequired) ==> !success_stop(r) && !budget_stop(r)
            && !validation_stop(r) && !error_stop(r),
        success_stop(r) || budget_stop(r) || validation_stop(r) || error_stop(r) || r is HitlGatePending
            || r is HumanInterventionRequired,
{
}

/// Restoring a snapshot is refused, as an invalid snapshot, exactly when it does not hold
/// one group of facts and one of proposals per key, or a fact or a proposal is stored
/// under a key other than its own, or two facts or two proposals of one group share an
/// identifier, or its Merkle root does not match its facts. Otherwise the restored context
/// holds exactly the snapshot's facts and proposals at its version, with no dirty key.
pub proof fn law_snapshot_restore(s: SnapshotView)
    ensures
        snapshot_problem(s) is Some <==> {
            ||| s.facts.len() != key_count()
            ||| s.proposals.len() != key_count()
            ||| exists|i: int, j: int|
                0 <= i < s.facts.len() && 0 <= j < s.facts[i].len() && (#[trigger] s.facts[i][j]).key != key_at(i)
            ||| exists|i: int, j: int|
                0 <= i < s.proposals.len() && 0 <= j < s.proposals[i].len() && (#[trigger] s.proposals[i][j]).key
                    != key_at(i)
            ||| exists|i: int, j: int, k: int|
                0 <= i < s.facts.len() && 0 <= j < k < s.facts[i].len() && (#[trigger] s.facts[i][j]).id == (
                #[trigger] s.facts[i][k]).id
            ||| exists|i: int, j: int, k: int|
                0 <= i < s.proposals.len() && 0 <= j < k < s.proposals[i].len() && (#[trigger] s.proposals[i][j]).id
                    == (#[trigger] s.proposals[i][k]).id
            ||| s.merkle_root != merkle_root_spec(context_hashes(restored_view(s)))
        },
        snapshot_problem(s) is None ==> restored_view(s) == (ContextView {
            facts: s.facts,
            proposals: s.proposals,
            dirty: Seq::empty(),
            version: s.version as nat,
        }),
{
    lemma_snapshot_problem_iff(s);
}

/// A recall returns nothing when the policy is off. Otherwise it returns at most the
/// smaller of the query's and the policy's limit; each candidate comes from a record of a
/// kind recall uses whose score reaches the policy's threshold, newest record first; and
/// when fewer than the limit come back, every qualifying record gave one.
pub proof fn law_recall_selection(policy: RecallPolicy, query: RecallQuery, recs: Seq<ExperienceRecord>)
    ensures
        !policy.enabled ==> recalled(policy, query, recs).len() == 0,
        recalled(policy, query, recs).len() <= query.top_k,
        recalled(policy, query, recs).len() <= policy.max_k_total,
        policy.enabled ==> exists|idx: Seq<int>|
            #[trigger] sourced_by(recs, policy.min_score_threshold.bp(), recalled(policy, query, recs), idx, 0),
        policy.enabled && recalled(policy, query, recs).len() < query.top_k && recalled(policy, query, recs).len()
            < policy.max_k_total ==> recalled(policy, query, recs).len() == qualifying_count(
            recs,
            policy.min_score_threshold.bp(),
            0,
        ),
{
    let thr = policy.min_score_threshold.bp();
    if policy.enabled {
        lemma_found_sourced(recs, thr, 0);
        let all = found_from(recs, thr, 0);
        let idx = choose|idx: Seq<int>| #[trigger] sourced_by(recs, thr, all, idx, 0);
        let limit: int = if query.top_k <= policy.max_k_total {
            query.top_k as int
        } else {
            policy.max_k_total as int
        };
        if all.len() > limit {
            let t = idx.take(limit);
            assert forall|k: int| 0 <= k < t.len() implies 0 <= #[trigger] t[k] < recs.len() && qualifies(
                recs[t[k]],
                thr,
            ) && candidate_of(recs[t[k]]) == Some(all.take(limit)[k]) by {
                assert(t[k] == idx[k]);
            }
            assert forall|a: int, b: int| 0 <= a < b < t.len() implies #[trigger] t[a] > #[trigger] t[b] by {
                assert(t[a] == idx[a]);
                assert(t[b] == idx[b]);
            }
            assert(sourced_by(recs, thr, all.take(limit), t, 0));
        }
    }
}

/// A promoted fact keeps its proposal's kind: a claim stays a claim, a plan a plan, an
/// evaluation an evaluation, a classification a classification and reasoning reasoning,
/// while a draft becomes a document.
pub proof fn law_promotion_keeps_kind(
    gate: PromotionGate,
    v: ValidatedProposal,
    approver: Actor,
    evidence: Vec<EvidenceRef>,
    trace: TraceLink,
    f: Fact,
)
    requires
        promotion_outcome(gate, v, approver, evidence, trace, Ok::<Fact, PromotionError>(f)),
    ensures
        ({
            let proposed = v.proposal_spec().kind_spec();
            let promoted = f.content_spec().kind;
            &&& proposed == ProposedContentKind::Claim ==> promoted == FactContentKind::Claim
            &&& proposed == ProposedContentKind::Plan ==> promoted == FactContentKind::Plan
            &&& proposed == ProposedContentKind::Evaluation ==> promoted == FactContentKind::Evaluation
            &&& proposed == ProposedContentKind::Classification ==> promoted == FactContentKind::Classification
            &&& proposed == ProposedContentKind::Reasoning ==> promoted == FactContentKind::Reasoning
            &&& proposed == ProposedContentKind::Draft ==> promoted == FactContentKind::Document
        }),
{
}

/// The ids of the required criteria that are blocked, in the order of the outcomes.
spec fn blocked_required(o: CriterionOutcome) -> Option<Seq<char>> {
    if o.criterion.required && o.result is Blocked {
        Some(o.criterion.id@)
    } else {
        None
    }
}

proof fn lemma_blocked_ids_are_filtered(os: Seq<CriterionOutcome>)
    ensures
        blocked_ids(os) == os.filter_map(|o: CriterionOutcome| blocked_required(o)),
        (exists|i: int| 0 <= i < os.len() && (#[trigger] os[i]).criterion.required && os[i].result is Blocked)
            ==> blocked_ids(os).len() > 0,
    decreases os.len(),
{
    if os.len() > 0 {
        lemma_blocked_ids_are_filtered(os.drop_last());
        let f = |o: CriterionOutcome| blocked_required(o);
        if blocked_required(os.last()) is Some {
            assert(blocked_ids(os) =~= os.filter_map(f));
        } else {
            assert(blocked_ids(os) =~= os.filter_map(f));
            if exists|i: int| 0 <= i < os.len() && (#[trigger] os[i]).criterion.required && os[i].result is Blocked {
                let i = choose|i: int| 0 <= i < os.len() && (#[trigger] os[i]).criterion.required && os[i].result is Blocked;
                assert(i < os.len() - 1);
                assert(os.drop_last()[i] == os[i]);
            }
        }
    }
}

/// A blocked required criterion calls for a human, whatever the other criteria's results:
/// unless every required criterion is met, the stop reason asks for human intervention
/// and names exactly the blocked required criteria, in order.
pub proof fn law_blocked_criteria_need_a_human(os: Seq<CriterionOutcome>, r: StopReason)
    requires
        stop_for(os, r),
        exists|i: int| 0 <= i < os.len() && (#[trigger] os[i]).criterion.required && os[i].result is Blocked,
    ensures
        r matches StopReason::HumanInterventionRequired { criteria, approval_refs } && texts(criteria@)
            == os.filter_map(
            |o: CriterionOutcome|
                if o.criterion.required && o.result is Blocked {
                    Some(o.criterion.id@)
                } else {
                    None
                },
        ) && texts(approval_refs@) == os.filter_map(
            |o: CriterionOutcome|
                if o.criterion.required {
                    match o.result {
                        CriterionResult::Blocked { approval_ref: Some(t), .. } => Some(t@),
                        _ => None,
                    }
                } else {
                    None
                },
        ),
{
    lemma_refs_are_filtered(os);
    lemma_blocked_ids_are_filtered(os);
    let i = choose|i: int| 0 <= i < os.len() && (#[trigger] os[i]).criterion.required && os[i].result is Blocked;
    assert(!required_met(os));
    let f1 = |o: CriterionOutcome| blocked_required(o);
    let f2 = |o: CriterionOutcome|
        if o.criterion.required && o.result is Blocked {
            Some(o.criterion.id@)
        } else {
            None
        };
    assert(f1 =~= f2);
}

/// When every required criterion is met, and there is one, the criteria are met and the
/// stop reason names the required criteria in order; with no required criterion blocked
/// and some not met, or with none required and none blocked, the run simply converged.
pub proof fn law_criteria_stop_reason(os: Seq<CriterionOutcome>, r: StopReason)
    requires
        stop_for(os, r),
    ensures
        (exists|i: int| 0 <= i < os.len() && (#[trigger] os[i]).criterion.required) && (forall|i: int|
            0 <= i < os.len() && (#[trigger] os[i]).criterion.required ==> os[i].result is Met) ==> (r matches StopReason::CriteriaMet {
            criteria,
        } && texts(criteria@) == os.filter_map(
            |o: CriterionOutcome|
                if o.criterion.required {
                    Some(o.criterion.id@)
                } else {
                    None
                },
        )),
        (forall|i: int| 0 <= i < os.len() && (#[trigger] os[i]).criterion.required ==> !(os[i].result is Blocked))
            && !((exists|i: int| 0 <= i < os.len() && (#[trigger] os[i]).criterion.required) && (forall|i: int|
            0 <= i < os.len() && (#[trigger] os[i]).criterion.required ==> os[i].result is Met)) ==> r is Converged,
{
    lemma_required_ids_are_filtered(os);
    lemma_blocked_none(os);
}

proof fn lemma_refs_are_filtered(os: Seq<CriterionOutcome>)
    ensures
        crate::engine::approval_refs(os) == os.filter_map(
            |o: CriterionOutcome|
                if o.criterion.required {
                    match o.result {
                        CriterionResult::Blocked { approval_ref: Some(t), .. } => Some(t@),
                        _ => None,
                    }
                } else {
                    None
                },
        ),
    decreases os.len(),
{
    if os.len() > 0 {
        lemma_refs_are_filtered(os.drop_last());
        let f = |o: CriterionOutcome|
            if o.criterion.required {
                match o.result {
                    CriterionResult::Blocked { approval_ref: Some(t), .. } => Some(t@),
                    _ => None,
                }
            } else {
                None
            };
        assert(crate::engine::approval_refs(os) =~= os.filter_map(f));
    }
}

proof fn lemma_required_ids_are_filtered(os: Seq<CriterionOutcome>)
    ensures
        required_ids(os) == os.filter_map(
            |o: CriterionOutcome|
                if o.criterion.required {
                    Some(o.criterion.id@)
                } else {
                    None
                },
        ),
        (exists|i: int| 0 <= i < os.len() && (#[trigger] os[i]).criterion.required) ==> required_ids(os).len() > 0,
        required_ids(os).len() > 0 ==> (exists|i: int| 0 <= i < os.len() && (#[trigger] os[i]).criterion.required),
    decreases os.len(),
{
    if os.len() > 0 {
        lemma_required_ids_are_filtered(os.drop_last());
        let f = |o: CriterionOutcome|
            if o.criterion.required {
                Some(o.criterion.id@)
            } else {
                None
            };
        assert(required_ids(os) =~= os.filter_map(f));
        if exists|i: int| 0 <= i < os.len() && (#[trigger] os[i]).criterion.required {
            let i = choose|i: int| 0 <= i < os.len() && (#[trigger] os[i]).criterion.required;
            if i < os.len() - 1 {
                assert(os.drop_last()[i] == os[i]);
            }
        }
        if required_ids(os.drop_last()).len() > 0 {
            let i = choose|i: int| 0 <= i < os.drop_last().len() && (#[trigger] os.drop_last()[i]).criterion.required;
            assert(os[i] == os.drop_last()[i]);
        }
    }
}

proof fn lemma_blocked_none(os: Seq<CriterionOutcome>)
    ensures
        blocked_ids(os).len() > 0 ==> (exists|i: int|
            0 <= i < os.len() && (#[trigger] os[i]).criterion.required && os[i].result is Blocked),
    decreases os.len(),
{
    if os.len() > 0 {
        lemma_blocked_none(os.drop_last());
        if blocked_ids(os.drop_last()).len() > 0 {
            let i = choose|i: int|
                0 <= i < os.drop_last().len() && (#[trigger] os.drop_last()[i]).criterion.required
                    && os.drop_last()[i].result is Blocked;
            assert(os[i] == os.drop_last()[i]);
        }
    }
}

/// A suggestor that the policy gates always needs a human decision, whatever the
/// confidence threshold and the proposal's confidence; so does a gated kind, and so does
/// a proposal below the threshold or without a confidence when a threshold is set. With
/// none of these, no decision is needed.
pub proof fn law_hitl_gating(policy: HitlPolicy, kind: ProposedContentKind, confidence: Option<nat>, agent_id: Seq<char>)
    ensures
        (exists|i: int| 0 <= i < policy.gated_agent_ids@.len() && (#[trigger] policy.gated_agent_ids@[i])@ == agent_id)
            ==> hitl_required(policy, kind, confidence, agent_id),
        (exists|i: int| 0 <= i < policy.gated_kinds@.len() && #[trigger] policy.gated_kinds@[i] == kind)
            ==> hitl_required(policy, kind, confidence, agent_id),
        policy.confidence_threshold is Some && (confidence is None || confidence->Some_0
            < policy.confidence_threshold->Some_0.bp()) ==> hitl_required(policy, kind, confidence, agent_id),
        (forall|i: int| 0 <= i < policy.gated_agent_ids@.len() ==> (#[trigger] policy.gated_agent_ids@[i])@ != agent_id)
            && (forall|i: int| 0 <= i < policy.gated_kinds@.len() ==> #[trigger] policy.gated_kinds@[i] != kind) && (
        policy.confidence_threshold is None || (confidence is Some && confidence->Some_0
            >= policy.confidence_threshold->Some_0.bp())) ==> !hitl_required(policy, kind, confidence, agent_id),
{
    if exists|i: int| 0 <= i < policy.gated_agent_ids@.len() && (#[trigger] policy.gated_agent_ids@[i])@ == agent_id {
        let i = choose|i: int| 0 <= i < policy.gated_agent_ids@.len() && (#[trigger] policy.gated_agent_ids@[i])@ == agent_id;
        assert(texts(policy.gated_agent_ids@)[i] == agent_id);
    }
    if texts(policy.gated_agent_ids@).contains(agent_id) {
        let i = choose|i: int| 0 <= i < texts(policy.gated_agent_ids@).len() && texts(policy.gated_agent_ids@)[i] == agent_id;
        assert(policy.gated_agent_ids@[i]@ == agent_id);
    }
}

/// All tasks are allocated exactly when no constraint fact mentions an unallocated task:
/// one constraint whose lower-cased text contains `unallocated` is enough to fail it.
pub proof fn law_unallocated_task_fails(v: ContextView)
    ensures
        criterion_satisfied(SuccessCriterion::AllTasksAllocated, v) <==> !exists|j: int|
            0 <= j < facts_of(v, ContextKey::Constraints).len() && contains_seq(
                lowercase(#[trigger] facts_of(v, ContextKey::Constraints)[j].content),
                "unallocated"@,
            ),
{
}

/// Each part of a list of texts stands in their concatenation right after the parts
/// before it.
proof fn lemma_concat_all_part(s: Seq<Seq<char>>, k: int)
    requires
        0 <= k < s.len(),
    ensures
        concat_all(s.take(k)).len() + s[k].len() <= concat_all(s).len(),
        concat_all(s).subrange(concat_all(s.take(k)).len() as int, (concat_all(s.take(k)).len() + s[k].len()) as int)
            == s[k],
    decreases s.len(),
{
    let a = concat_all(s.drop_last());
    assert(concat_all(s) == a + s.last());
    if k == s.len() - 1 {
        assert(s.take(k) == s.drop_last());
        assert(concat_all(s).subrange(a.len() as int, (a.len() + s[k].len()) as int) =~= s[k]);
    } else {
        lemma_concat_all_part(s.drop_last(), k);
        assert(s.drop_last().take(k) == s.take(k));
        assert(s.drop_last()[k] == s[k]);
        let lo = concat_all(s.take(k)).len() as int;
        assert(concat_all(s).subrange(lo, lo + s[k].len()) =~= a.subrange(lo, lo + s[k].len()));
    }
}

/// Within a group's plain text, fact `i` stands on a line of its own, right after a line
/// break, at the given offset.
proof fn lemma_fact_line_in_group(gf: (ContextKey, Seq<FactView>), i: int)
    requires
        0 <= i < gf.1.len(),
    ensures
        ({
            let lines = gf.1.map_values(|x: FactView| plain_fact(x));
            let head = "\n## "@ + key_name(gf.0) + "\n"@;
            let off: int = head.len() + concat_all(lines.take(i)).len() as int;
            let nl = "\n"@ + plain_fact(gf.1[i]);
            &&& 1 <= off
            &&& off + plain_fact(gf.1[i]).len() <= plain_group(gf).len()
            &&& plain_group(gf).subrange(off - 1, off + plain_fact(gf.1[i]).len()) == nl
            &&& plain_group(gf).subrange(off, off + plain_fact(gf.1[i]).len()) == plain_fact(gf.1[i])
        }),
{
    reveal_strlit("\n");
    let lines = gf.1.map_values(|x: FactView| plain_fact(x));
    let head = "\n## "@ + key_name(gf.0) + "\n"@;
    let body = concat_all(lines);
    let line = plain_fact(gf.1[i]);
    let block = plain_group(gf);
    assert(block == head + body);
    lemma_concat_all_part(lines, i);
    let oi = concat_all(lines.take(i)).len() as int;
    assert(lines[i] == line);
    assert(body.subrange(oi, oi + line.len()) == line);
    let bi: int = head.len() + oi;
    if i == 0 {
        assert(lines.take(0) =~= Seq::<Seq<char>>::empty());
        assert(block[bi - 1] == head[head.len() - 1]);
    } else {
        lemma_concat_all_part(lines, i - 1);
        assert(lines.take(i).drop_last() =~= lines.take(i - 1));
        let prev = concat_all(lines.take(i - 1)).len() as int;
        assert(oi == prev + lines[i - 1].len());
        assert(lines[i - 1] == plain_fact(gf.1[i - 1]));
        assert(body[oi - 1] == body.subrange(prev, prev + lines[i - 1].len())[lines[i - 1].len() - 1]);
        assert(block[bi - 1] == body[oi - 1]);
    }
    assert(block.subrange(bi - 1, bi + line.len()) =~= "\n"@ + line);
    assert(block.subrange(bi, bi + line.len()) =~= line);
}

/// Each group's plain text stands in the prompt's plain text at the given offset.
proof fn lemma_group_in_text(p: AgentPrompt, g: int)
    requires
        0 <= g < p.context.facts@.len(),
    ensures
        ({
            let gv = group_views(p.context.facts@);
            let groups = gv.map_values(|x: (ContextKey, Seq<FactView>)| plain_group(x));
            let pre: Seq<char> = "Role: "@ + role_name(p.role) + "\n"@ + "Objective: "@ + p.objective@ + "\n"@
                + "\nContext:\n"@;
            let base: int = pre.len() + concat_all(groups.take(g)).len() as int;
            &&& base + plain_group(gv[g]).len() <= plain_text(p).len()
            &&& plain_text(p).subrange(base, base + plain_group(gv[g]).len()) == plain_group(gv[g])
        }),
{
    let gv = group_views(p.context.facts@);
    let groups = gv.map_values(|x: (ContextKey, Seq<FactView>)| plain_group(x));
    lemma_concat_all_part(groups, g);
    let pre: Seq<char> = "Role: "@ + role_name(p.role) + "\n"@ + "Objective: "@ + p.objective@ + "\n"@ + "\nContext:\n"@;
    let c = concat_all(groups);
    let rest = plain_text(p).subrange((pre.len() + c.len()) as int, plain_text(p).len() as int);
    assert(plain_text(p) =~= pre + c + rest);
    let og = concat_all(groups.take(g)).len() as int;
    assert(groups[g] == plain_group(gv[g]));
    assert(c.subrange(og, og + groups[g].len()) == groups[g]);
    let base: int = pre.len() + og;
    assert(plain_text(p).subrange(base, base + groups[g].len()) =~= c.subrange(og, og + groups[g].len()));
}

proof fn lemma_subrange_within(s: Seq<char>, a: int, b: int, c: int, d: int)
    requires
        0 <= a <= b <= s.len(),
        0 <= c <= d <= b - a,
    ensures
        s.subrange(a, b).subrange(c, d) == s.subrange(a + c, a + d),
{
    assert(s.subrange(a, b).subrange(c, d) =~= s.subrange(a + c, a + d));
}

/// Every fact of a prompt's context is listed in the prompt's plain-text form as
/// `- <identifier>: <content>` on a line of its own.
pub proof fn law_plain_prompt_lists_each_fact(p: AgentPrompt, g: int, i: int)
    requires
        0 <= g < p.context.facts@.len(),
        0 <= i < p.context.facts@[g].1@.len(),
    ensures
        ({
            let f = p.context.facts@[g].1@[i]@;
            contains_seq(plain_text(p), "\n"@ + "- "@ + f.id + ": "@ + f.content + "\n"@)
        }),
{
    let f = p.context.facts@[g].1@[i]@;
    let gv = group_views(p.context.facts@);
    let groups = gv.map_values(|x: (ContextKey, Seq<FactView>)| plain_group(x));
    assert(gv[g].1[i] == f);
    lemma_fact_line_in_group(gv[g], i);
    lemma_group_in_text(p, g);
    let lines = gv[g].1.map_values(|x: FactView| plain_fact(x));
    let head = "\n## "@ + key_name(gv[g].0) + "\n"@;
    let off: int = head.len() + concat_all(lines.take(i)).len() as int;
    let needle = "\n"@ + "- "@ + f.id + ": "@ + f.content + "\n"@;
    assert(needle =~= "\n"@ + plain_fact(f));
    let pre: Seq<char> = "Role: "@ + role_name(p.role) + "\n"@ + "Objective: "@ + p.objective@ + "\n"@ + "\nContext:\n"@;
    let base: int = pre.len() + concat_all(groups.take(g)).len() as int;
    let block = plain_group(gv[g]);
    lemma_subrange_within(plain_text(p), base, base + block.len(), off - 1, off + plain_fact(f).len());
    let at: int = base + off - 1;
    assert(plain_text(p).subrange(at, at + needle.len()) == needle);
}

proof fn lemma_concat_all_offsets_grow(s: Seq<Seq<char>>, i: int, j: int)
    requires
        0 <= i < j <= s.len(),
        forall|k: int| 0 <= k < s.len() ==> (#[trigger] s[k]).len() > 0,
    ensures
        concat_all(s.take(i)).len() < concat_all(s.take(j)).len(),
    decreases j - i,
{
    assert(s.take(j).drop_last() =~= s.take(j - 1));
    assert(s.take(j).last() == s[j - 1]);
    if i < j - 1 {
        lemma_concat_all_offsets_grow(s, i, j - 1);
    }
}

/// In the plain-text form, the facts of a group are listed in the group's order: an
/// earlier fact's line starts before a later fact's line.
pub proof fn law_plain_prompt_keeps_fact_order(p: AgentPrompt, g: int, i: int, j: int)
    requires
        0 <= g < p.context.facts@.len(),
        0 <= i < j < p.context.facts@[g].1@.len(),
    ensures
        ({
            let fi = p.context.facts@[g].1@[i]@;
            let fj = p.context.facts@[g].1@[j]@;
            let li = "- "@ + fi.id + ": "@ + fi.content + "\n"@;
            let lj = "- "@ + fj.id + ": "@ + fj.content + "\n"@;
            exists|a: int, b: int|
                0 <= a < b && a + li.len() <= plain_text(p).len() && b + lj.len() <= plain_text(p).len()
                    && #[trigger] plain_text(p).subrange(a, a + li.len()) == li && #[trigger] plain_text(p).subrange(
                    b,
                    b + lj.len(),
                ) == lj
        }),
{
    let gv = group_views(p.context.facts@);
    let groups = gv.map_values(|x: (ContextKey, Seq<FactView>)| plain_group(x));
    let fi = p.context.facts@[g].1@[i]@;
    let fj = p.context.facts@[g].1@[j]@;
    assert(gv[g].1[i] == fi);
    assert(gv[g].1[j] == fj);
    let li = "- "@ + fi.id + ": "@ + fi.content + "\n"@;
    let lj = "- "@ + fj.id + ": "@ + fj.content + "\n"@;
    lemma_fact_line_in_group(gv[g], i);
    lemma_fact_line_in_group(gv[g], j);
    lemma_group_in_text(p, g);
    let lines = gv[g].1.map_values(|x: FactView| plain_fact(x));
    let head = "\n## "@ + key_name(gv[g].0) + "\n"@;
    let oi: int = head.len() + concat_all(lines.take(i)).len() as int;
    let oj: int = head.len() + concat_all(lines.take(j)).len() as int;
    assert forall|k: int| 0 <= k < lines.len() implies (#[trigger] lines[k]).len() > 0 by {
        assert(lines[k] == plain_fact(gv[g].1[k]));
    }
    lemma_concat_all_offsets_grow(lines, i, j);
    let pre: Seq<char> = "Role: "@ + role_name(p.role) + "\n"@ + "Objective: "@ + p.objective@ + "\n"@ + "\nContext:\n"@;
    let base: int = pre.len() + concat_all(groups.take(g)).len() as int;
    let block = plain_group(gv[g]);
    lemma_subrange_within(plain_text(p), base, base + block.len(), oi, oi + plain_fact(fi).len());
    lemma_subrange_within(plain_text(p), base, base + block.len(), oj, oj + plain_fact(fj).len());
    let a: int = base + oi;
    let b: int = base + oj;
    assert(plain_text(p).subrange(a, a + li.len()) == li);
    assert(plain_text(p).subrange(b, b + lj.len()) == lj);
}

proof fn lemma_contains_middle(a: Seq<char>, x: Seq<char>, b: Seq<char>)
    ensures
        contains_seq(a + x + b, x),
{
    let t = a + x + b;
    assert(t.subrange(a.len() as int, (a.len() + x.len()) as int) =~= x);
}

proof fn lemma_contains_trans(a: Seq<char>, b: Seq<char>, x: Seq<char>)
    requires
        contains_seq(a, b),
        contains_seq(b, x),
    ensures
        contains_seq(a, x),
{
    let i = choose|i: int| 0 <= i <= a.len() - b.len() && #[trigger] a.subrange(i, i + b.len()) == b;
    let j = choose|j: int| 0 <= j <= b.len() - x.len() && #[trigger] b.subrange(j, j + x.len()) == x;
    assert(a.subrange(i + j, i + j + x.len()) =~= b.subrange(j, j + x.len()));
}

proof fn lemma_join_contains(items: Seq<Seq<char>>, sep: Seq<char>, k: int)
    requires
        0 <= k < items.len(),
    ensures
        contains_seq(join(items, sep), items[k]),
    decreases items.len(),
{
    if items.len() == 1 {
        lemma_contains_middle(Seq::empty(), items[0], Seq::empty());
        assert(Seq::<char>::empty() + items[0] + Seq::<char>::empty() =~= items[0]);
    } else if k == items.len() - 1 {
        lemma_contains_middle(join(items.drop_last(), sep) + sep, items.last(), Seq::empty());
        assert(join(items.drop_last(), sep) + sep + items.last() + Seq::<char>::empty() =~= join(items, sep));
    } else {
        lemma_join_contains(items.drop_last(), sep, k);
        assert(items.drop_last()[k] == items[k]);
        lemma_contains_middle(Seq::empty(), join(items.drop_last(), sep), sep + items.last());
        assert(Seq::<char>::empty() + join(items.drop_last(), sep) + (sep + items.last()) =~= join(items, sep));
        lemma_contains_trans(join(items, sep), join(items.drop_last(), sep), items[k]);
    }
}

/// Every fact of a prompt's context appears in the prompt's EDN form as its identifier
/// and its content, each escaped and quoted: `:id "<identifier>" :c "<content>"`.
pub proof fn law_edn_prompt_lists_each_fact(p: AgentPrompt, g: int, i: int)
    requires
        0 <= g < p.context.facts@.len(),
        0 <= i < p.context.facts@[g].1@.len(),
    ensures
        ({
            let f = p.context.facts@[g].1@[i]@;
            contains_seq(edn_text(p), ":id \""@ + escaped(f.id) + "\" :c \""@ + escaped(f.content) + "\""@)
        }),
{
    let f = p.context.facts@[g].1@[i]@;
    let gv = group_views(p.context.facts@);
    assert(gv[g].1[i] == f);
    let facts = gv[g].1.map_values(|x: FactView| edn_fact(x));
    let groups = gv.map_values(|x: (ContextKey, Seq<FactView>)| edn_group(x));
    assert(facts[i] == edn_fact(f));
    lemma_join_contains(facts, "} {"@, i);
    let eg = edn_group(gv[g]);
    lemma_contains_middle(key_keyword(gv[g].0) + " [{"@, join(facts, "} {"@), "}]"@);
    assert(groups[g] == eg);
    lemma_contains_trans(eg, join(facts, "} {"@), facts[i]);
    lemma_join_contains(groups, " "@, g);
    lemma_contains_trans(join(groups, " "@), eg, facts[i]);
    let whole = edn_text(p);
    let pre = "{:r "@ + role_keyword(p.role) + "\n :o :"@ + dashed(p.objective@) + "\n :c {"@;
    let mid = join(groups, " "@);
    let rest = whole.subrange((pre.len() + mid.len()) as int, whole.len() as int);
    assert(whole =~= pre + mid + rest);
    lemma_contains_middle(pre, mid, rest);
    lemma_contains_trans(whole, mid, facts[i]);
}

/// The plain-text form of a prompt opens with its role and objective and the context
/// heading, heads each group of context facts with its key, and closes with the output
/// it asks for and the key that output goes to.
pub proof fn law_plain_prompt_shape(p: AgentPrompt, g: int)
    requires
        0 <= g < p.context.facts@.len(),
    ensures
        ({
            let opening = "Role: "@ + role_name(p.role) + "\n"@ + "Objective: "@ + p.objective@ + "\n"@ + "\nContext:\n"@;
            let closing = "\nOutput: "@ + output_name(p.output_contract.emit) + " -> "@ + key_name(p.output_contract.key)
                + "\n"@;
            let text = plain_text(p);
            &&& opening.len() <= text.len()
            &&& text.subrange(0, opening.len() as int) == opening
            &&& closing.len() <= text.len()
            &&& text.subrange(text.len() - closing.len(), text.len() as int) == closing
            &&& contains_seq(text, "\n## "@ + key_name(p.context.facts@[g].0) + "\n"@)
        }),
{
    let opening = "Role: "@ + role_name(p.role) + "\n"@ + "Objective: "@ + p.objective@ + "\n"@ + "\nContext:\n"@;
    let closing = "\nOutput: "@ + output_name(p.output_contract.emit) + " -> "@ + key_name(p.output_contract.key)
        + "\n"@;
    let text = plain_text(p);
    let gv = group_views(p.context.facts@);
    let groups = gv.map_values(|x: (ContextKey, Seq<FactView>)| plain_group(x));
    let c = concat_all(groups);
    let pre: Seq<char> = "Role: "@ + role_name(p.role) + "\n"@ + "Objective: "@ + p.objective@ + "\n"@ + "\nContext:\n"@;
    assert(pre =~= opening);
    let mid = text.subrange((pre.len() + c.len()) as int, text.len() - closing.len());
    assert(text =~= pre + c + mid + closing);
    assert(text.subrange(0, opening.len() as int) =~= opening);
    assert(text.subrange(text.len() - closing.len(), text.len() as int) =~= closing);
    let head = "\n## "@ + key_name(gv[g].0) + "\n"@;
    let lines = gv[g].1.map_values(|x: FactView| plain_fact(x));
    assert(groups[g] == head + concat_all(lines));
    lemma_concat_all_part(groups, g);
    let og = concat_all(groups.take(g)).len() as int;
    assert(c.subrange(og, og + groups[g].len()) == groups[g]);
    assert(c.subrange(og, og + head.len()) =~= head);
    let at: int = pre.len() + og;
    assert(text.subrange(at, at + head.len()) =~= head);
}

/// The engine's gate stops a proposal under a gated key, and a proposal at or below the
/// confidence threshold when one is set; it lets every other proposal through.
pub proof fn law_engine_gate(policy: EngineHitlPolicy, p: ProposalView)
    ensures
        (exists|i: int| 0 <= i < policy.gated_keys@.len() && #[trigger] policy.gated_keys@[i] == p.key) ==> gate_applies(
            Some(policy.gate_view()),
            p,
        ),
        policy.confidence_threshold is Some && p.confidence <= policy.confidence_threshold->Some_0.bp() ==> gate_applies(
            Some(policy.gate_view()),
            p,
        ),
        (forall|i: int| 0 <= i < policy.gated_keys@.len() ==> #[trigger] policy.gated_keys@[i] != p.key) && (
        policy.confidence_threshold is None || p.confidence > policy.confidence_threshold->Some_0.bp())
            ==> !gate_applies(Some(policy.gate_view()), p),
{
}

} // verus!
