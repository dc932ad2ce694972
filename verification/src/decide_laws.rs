//! What a decision on a candidate means, said of the candidate, the request and the
//! records that come of it.

use vstd::prelude::*;

use crate::decide::{
    approval_error, approval_records, approval_target, candidate_fields, candidate_scope,
    decide_error, decide_records, decision_node, durable_node, prompt_node, raw_texts,
    request_error, retired, revoked_id, scope_text, user_context_edge_view, user_context_id,
    user_context_node, DecideView, DecisionTextsView,
};
use crate::evidence_edges::first_with_id;
use crate::identity::parts_hash;
use crate::ir::{
    record_id, EdgeLabel, GraphRecord, NodeKind, NodeView, RecordView, UserContextScopeView,
    UserContextView, USER_CONTEXT_SCHEMA_VERSION,
};
use crate::text_laws::law_joining;

verus! {

/// Whether the candidate of the decision is the `k`-th record: it is a node with the
/// identifier that is asked for, and no record before it has that identifier.
pub open spec fn candidate_at(records: Seq<GraphRecord>, id: Seq<char>, k: int) -> bool {
    &&& 0 <= k < records.len()
    &&& records[k] is Node && records[k]->Node_0.id@ == id
    &&& forall|j: int| 0 <= j < k ==> record_id(#[trigger] records[j]) != id
}

pub proof fn lemma_first(records: Seq<GraphRecord>, id: Seq<char>, k: int)
    requires
        0 <= k < records.len(),
        record_id(records[k]) == id,
        forall|j: int| 0 <= j < k ==> record_id(#[trigger] records[j]) != id,
    ensures
        first_with_id(records, id) == Some(records[k]),
    decreases records.len(),
{
    if k > 0 {
        assert(record_id(records[0]) != id);
        let rest = records.drop_first();
        assert forall|j: int| 0 <= j < k - 1 implies record_id(#[trigger] rest[j]) != id by {
            assert(rest[j] == records[j + 1]);
        }
        assert(rest[k - 1] == records[k]);
        lemma_first(rest, id, k - 1);
    }
}

pub proof fn lemma_rule_kinds()
    ensures
        "preference"@ != "workflow_rule"@,
        "preference"@ != "naming_decision"@,
        "preference"@ != "constraint"@,
        "preference"@ != "revocation"@,
        "workflow_rule"@ != "naming_decision"@,
        "workflow_rule"@ != "constraint"@,
        "workflow_rule"@ != "revocation"@,
        "naming_decision"@ != "constraint"@,
        "naming_decision"@ != "revocation"@,
        "constraint"@ != "revocation"@,
        "approved"@ != "edited_then_approved"@,
        "approved"@ != "rejected"@,
        "approved"@ != "deferred"@,
        "approved"@ != "expired"@,
        "edited_then_approved"@ != "rejected"@,
        "edited_then_approved"@ != "deferred"@,
        "edited_then_approved"@ != "expired"@,
{
    reveal_strlit("preference");
    reveal_strlit("workflow_rule");
    reveal_strlit("naming_decision");
    reveal_strlit("constraint");
    reveal_strlit("revocation");
    reveal_strlit("approved");
    reveal_strlit("edited_then_approved");
    reveal_strlit("rejected");
    reveal_strlit("deferred");
    reveal_strlit("expired");
    assert("preference"@[0] == 'p');
    assert("workflow_rule"@[0] == 'w');
    assert("naming_decision"@[0] == 'n');
    assert("constraint"@[0] == 'c');
    assert("revocation"@[0] == 'r');
    assert("approved"@[0] == 'a');
    assert("edited_then_approved"@.len() == 20);
    assert("approved"@.len() == 8);
    assert("rejected"@.len() == 8);
    assert("rejected"@[0] == 'r');
    assert("deferred"@.len() == 8);
    assert("deferred"@[0] == 'd');
    assert("expired"@.len() == 7);
}

proof fn lemma_approved_node(
    records: Seq<GraphRecord>,
    k: int,
    q: DecideView,
    at: Seq<char>,
    texts: DecisionTextsView,
)
    requires
        candidate_at(records, q.candidate_id, k),
        decide_error(records, q) is None,
        q.outcome == "approved"@ || q.outcome == "edited_then_approved"@,
        records[k]->Node_0@.user_context.proposed_rule_kind != Some("revocation"@),
    ensures
        ({
            let c = records[k]->Node_0@.user_context;
            &&& c.proposed_rule_kind is Some
            &&& decide_records(records, q, at, texts).len() == 6
            &&& decide_records(records, q, at, texts)[2] == RecordView::Node(
                durable_node(c, q, at, texts),
            )
        }),
{
    lemma_first(records, q.candidate_id, k);
    assert(candidate_fields(records, q.candidate_id) == records[k]->Node_0@.user_context);
    reveal(request_error);
    reveal(approval_records);
    let out = decide_records(records, q, at, texts);
    assert(out[2] == approval_records(records, q, at, texts)[0]);
}

/// An approved rule becomes a record of the kind that the candidate proposes: a
/// preference, a workflow rule, a naming decision or a constraint, each to its own.
pub proof fn law_rule_becomes_what_it_proposes(
    records: Seq<GraphRecord>,
    k: int,
    q: DecideView,
    at: Seq<char>,
    texts: DecisionTextsView,
)
    requires
        candidate_at(records, q.candidate_id, k),
        decide_error(records, q) is None,
        q.outcome == "approved"@ || q.outcome == "edited_then_approved"@,
        records[k]->Node_0@.user_context.proposed_rule_kind != Some("revocation"@),
    ensures
        ({
            let kind = records[k]->Node_0@.user_context.proposed_rule_kind;
            let out = decide_records(records, q, at, texts);
            &&& out[2] is Node
            &&& kind == Some("preference"@) <==> out[2]->Node_0.kind == NodeKind::Preference
            &&& kind == Some("workflow_rule"@) <==> out[2]->Node_0.kind == NodeKind::WorkflowRule
            &&& kind == Some("naming_decision"@) <==> out[2]->Node_0.kind
                == NodeKind::NamingDecision
            &&& kind == Some("constraint"@) <==> out[2]->Node_0.kind == NodeKind::Constraint
            &&& out[2]->Node_0.kind == NodeKind::Preference || out[2]->Node_0.kind
                == NodeKind::WorkflowRule || out[2]->Node_0.kind == NodeKind::NamingDecision
                || out[2]->Node_0.kind == NodeKind::Constraint
            &&& out[2]->Node_0.user_context.proposed_rule_kind == kind
        }),
{
    lemma_approved_node(records, k, q, at, texts);
    lemma_first(records, q.candidate_id, k);
    lemma_rule_kinds();
    reveal(approval_error);
    reveal(durable_node);
    reveal(user_context_node);
}

/// Rules of different kinds become records of different kinds.
pub proof fn law_rule_kinds_stay_apart(
    records: Seq<GraphRecord>,
    k: int,
    q: DecideView,
    at: Seq<char>,
    texts: DecisionTextsView,
    other_records: Seq<GraphRecord>,
    other_k: int,
    other_q: DecideView,
    other_at: Seq<char>,
    other_texts: DecisionTextsView,
)
    requires
        candidate_at(records, q.candidate_id, k),
        decide_error(records, q) is None,
        q.outcome == "approved"@ || q.outcome == "edited_then_approved"@,
        records[k]->Node_0@.user_context.proposed_rule_kind != Some("revocation"@),
        candidate_at(other_records, other_q.candidate_id, other_k),
        decide_error(other_records, other_q) is None,
        other_q.outcome == "approved"@ || other_q.outcome == "edited_then_approved"@,
        other_records[other_k]->Node_0@.user_context.proposed_rule_kind != Some("revocation"@),
    ensures
        decide_records(records, q, at, texts)[2]->Node_0.kind == decide_records(
            other_records,
            other_q,
            other_at,
            other_texts,
        )[2]->Node_0.kind <==> records[k]->Node_0@.user_context.proposed_rule_kind
            == other_records[other_k]->Node_0@.user_context.proposed_rule_kind,
{
    law_rule_becomes_what_it_proposes(records, k, q, at, texts);
    law_rule_becomes_what_it_proposes(other_records, other_k, other_q, other_at, other_texts);
}

/// An approved rule carries the approved text under the name that its kind has for it, and
/// what the candidate says beyond the text: a workflow rule its triggers and what it does, a
/// naming decision the name, what it names and what was turned down, a constraint how hard
/// it is enforced. It holds where the candidate says that it does.
pub proof fn law_rule_carries_the_approved_text(
    records: Seq<GraphRecord>,
    k: int,
    q: DecideView,
    at: Seq<char>,
    texts: DecisionTextsView,
)
    requires
        candidate_at(records, q.candidate_id, k),
        decide_error(records, q) is None,
        q.outcome == "approved"@ || q.outcome == "edited_then_approved"@,
        records[k]->Node_0@.user_context.proposed_rule_kind != Some("revocation"@),
    ensures
        ({
            let c = records[k]->Node_0@.user_context;
            let n = decide_records(records, q, at, texts)[2]->Node_0;
            let f = n.user_context;
            &&& n.domain == Some("user_context"@)
            &&& n.schema_version == USER_CONTEXT_SCHEMA_VERSION
            &&& n.valid_time == Some(at)
            &&& c.scope is Some ==> f.scope == c.scope
            &&& c.proposed_rule_kind == Some("preference"@) ==> f.rule_text == texts.rule_text
                && f.constraint_text is None && f.canonical_name is None
            &&& c.proposed_rule_kind == Some("workflow_rule"@) ==> f.rule_text == texts.rule_text
                && f.triggers == c.triggers && f.action_summary == texts.action_summary
            &&& c.proposed_rule_kind == Some("naming_decision"@) ==> f.entity_kind
                == c.entity_kind && f.alternatives_rejected == c.alternatives_rejected
                && f.rule_text is None && f.canonical_name == (if q.outcome == "approved"@ {
                c.canonical_name
            } else {
                q.edited_rule_text
            })
            &&& c.proposed_rule_kind == Some("constraint"@) ==> f.constraint_text
                == texts.rule_text && f.enforcement_level == c.enforcement_level && f.rule_text
                is None
            &&& f.active_from == Some(at)
            &&& f.active_to is None
        }),
{
    lemma_approved_node(records, k, q, at, texts);
    lemma_rule_kinds();
    reveal(durable_node);
    reveal(user_context_node);
}

/// The text that is offered for redaction is the edited one where the rule was edited, the
/// proposed one where it was approved as it stood, and none where it was not approved. Only
/// a workflow rule offers what it does.
pub proof fn law_approved_text_is_the_one_decided_on(c: UserContextView, q: DecideView)
    ensures
        q.outcome == "approved"@ ==> raw_texts(c, q).rule_text == c.proposed_rule_text,
        q.outcome == "edited_then_approved"@ ==> raw_texts(c, q).rule_text == q.edited_rule_text,
        q.outcome == "rejected"@ || q.outcome == "deferred"@ || q.outcome == "expired"@
            ==> raw_texts(c, q).rule_text is None && raw_texts(c, q).action_summary is None,
        (q.outcome == "approved"@ || q.outcome == "edited_then_approved"@)
            && c.proposed_rule_kind == Some("workflow_rule"@) ==> raw_texts(c, q).action_summary
            == c.action_summary,
        c.proposed_rule_kind is Some && c.proposed_rule_kind != Some("workflow_rule"@)
            ==> raw_texts(c, q).action_summary is None,
        raw_texts(c, q).rationale == q.rationale,
        raw_texts(c, q).prompt_text == "Do you approve the promotion candidate '"@
            + q.candidate_id + "'?"@,
{
    lemma_rule_kinds();
}

/// The prompt says who was asked, where and when, and the decision who decided what, why
/// and when, on which prompt. An edited text stands in the decision only where the rule was
/// edited.
pub proof fn law_decision_says_who_decided_what(
    records: Seq<GraphRecord>,
    q: DecideView,
    at: Seq<char>,
    texts: DecisionTextsView,
)
    ensures
        ({
            let out = decide_records(records, q, at, texts);
            let n = out.len() as int;
            let p = out[0]->Node_0.user_context;
            let d = out[n - 2]->Node_0.user_context;
            &&& n >= 4
            &&& out[0] is Node && out[n - 2] is Node
            &&& p.candidate_id == Some(q.candidate_id)
            &&& p.prompt_surface == Some(q.prompt_surface)
            &&& p.prompted_to == Some(q.prompted_to)
            &&& p.prompted_at == Some(at)
            &&& p.prompt_text == Some(texts.prompt_text)
            &&& out[0]->Node_0.valid_time == Some(at)
            &&& d.candidate_id == Some(q.candidate_id)
            &&& d.prompt_id == Some(out[0]->Node_0.id)
            &&& d.outcome == Some(q.outcome)
            &&& d.decided_by == Some(q.decided_by)
            &&& d.decided_at == Some(at)
            &&& d.decision_rationale == texts.rationale
            &&& q.outcome == "edited_then_approved"@ ==> d.edited_rule_text == texts.rule_text
            &&& q.outcome == "approved"@ || q.outcome == "rejected"@ || q.outcome == "deferred"@
                || q.outcome == "expired"@ ==> d.edited_rule_text is None
            &&& q.outcome == "rejected"@ || q.outcome == "deferred"@ || q.outcome == "expired"@
                ==> n == 4 && d.materialized_record_id is None
            &&& out[n - 2]->Node_0.valid_time == Some(at)
        }),
{
    reveal(prompt_node);
    reveal(decision_node);
    reveal(user_context_node);
    reveal(approval_records);
    lemma_rule_kinds();
    let out = decide_records(records, q, at, texts);
    assert(out[0] == RecordView::Node(prompt_node(q, at, texts)));
}

/// The edges of a decision say what they stand for: the prompt was made for the candidate,
/// the decision is on the candidate, the decision materialized as the rule, and what is
/// revoked was revoked by the decision.
pub proof fn law_decision_edges_say_what_they_stand_for(
    records: Seq<GraphRecord>,
    q: DecideView,
    at: Seq<char>,
    texts: DecisionTextsView,
)
    requires
        decide_error(records, q) is None,
    ensures
        ({
            let c = candidate_fields(records, q.candidate_id);
            let out = decide_records(records, q, at, texts);
            let n = out.len() as int;
            let decision = out[n - 2]->Node_0.id;
            &&& n >= 4
            &&& out[1] is Edge && out[1]->Edge_0.label == EdgeLabel::PromptedFor
                && out[1]->Edge_0.source == out[0]->Node_0.id && out[1]->Edge_0.target
                == q.candidate_id
            &&& out[n - 1] is Edge && out[n - 1]->Edge_0.label == EdgeLabel::DecidedOn
                && out[n - 1]->Edge_0.source == decision && out[n - 1]->Edge_0.target
                == q.candidate_id
            &&& n == 6 && c.proposed_rule_kind != Some("revocation"@) ==> out[3] is Edge
                && out[3]->Edge_0.label == EdgeLabel::MaterializedAs && out[3]->Edge_0.source
                == decision && out[3]->Edge_0.target == out[2]->Node_0.id
            &&& n == 6 && c.proposed_rule_kind == Some("revocation"@) ==> out[3] is Edge
                && out[3]->Edge_0.label == EdgeLabel::RevokedBy && out[3]->Edge_0.target
                == decision && Some(out[3]->Edge_0.source)
                == out[n - 2]->Node_0.user_context.materialized_record_id
        }),
{
    reveal(prompt_node);
    reveal(decision_node);
    reveal(durable_node);
    reveal(user_context_node);
    reveal(user_context_edge_view);
    reveal(approval_records);
    reveal(approval_target);
    reveal(request_error);
    let out = decide_records(records, q, at, texts);
    assert(out[0] == RecordView::Node(prompt_node(q, at, texts)));
    if out.len() == 6 {
        assert(out[3] == approval_records(records, q, at, texts)[1]);
        assert(out[2] == approval_records(records, q, at, texts)[0]);
    }
}

/// An approved revocation retires the record that the candidate's first contradicting link
/// names; where that names none, the one that the first supporting link into the user
/// context names. It ends the record at the time of the decision and leaves every other
/// field as it was.
pub proof fn law_revocation_retires_what_it_contradicts(
    records: Seq<GraphRecord>,
    k: int,
    q: DecideView,
    at: Seq<char>,
    texts: DecisionTextsView,
    target: Seq<char>,
    j: int,
)
    requires
        candidate_at(records, q.candidate_id, k),
        decide_error(records, q) is None,
        q.outcome == "approved"@,
        records[k]->Node_0@.user_context.proposed_rule_kind == Some("revocation"@),
        ({
            let c = records[k]->Node_0@.user_context;
            ||| c.contradicting_evidence is Some && c.contradicting_evidence->0.len() > 0
                && c.contradicting_evidence->0[0].target_record_id == Some(target)
            ||| (c.contradicting_evidence is None || c.contradicting_evidence->0.len() == 0)
                && c.supporting_evidence is Some && c.supporting_evidence->0.len() > 0
                && c.supporting_evidence->0[0].target_domain == "user_context"@
                && c.supporting_evidence->0[0].target_record_id == Some(target)
        }),
        candidate_at(records, target, j),
    ensures
        ({
            let out = decide_records(records, q, at, texts);
            let before = records[j]->Node_0@;
            &&& out.len() == 6
            &&& out[2] is Node
            &&& out[2]->Node_0.user_context.active_to == Some(at)
            &&& NodeView {
                user_context: UserContextView {
                    active_to: before.user_context.active_to,
                    ..out[2]->Node_0.user_context
                },
                ..out[2]->Node_0
            } == before
            &&& out[4]->Node_0.user_context.materialized_record_id == Some(target)
            &&& out[3]->Edge_0.source == target
        }),
{
    lemma_first(records, q.candidate_id, k);
    lemma_first(records, target, j);
    reveal(request_error);
    reveal(approval_error);
    reveal(approval_records);
    reveal(approval_target);
    reveal(retired);
    reveal(decision_node);
    reveal(user_context_node);
    reveal(user_context_edge_view);
    let c = records[k]->Node_0@.user_context;
    assert(candidate_fields(records, q.candidate_id) == c);
    assert(revoked_id(c) == Some(target));
    let out = decide_records(records, q, at, texts);
    assert(out[2] == approval_records(records, q, at, texts)[0]);
    assert(out[3] == approval_records(records, q, at, texts)[1]);
}

/// A decision is made exactly where the candidate is there and says what it proposes, the
/// outcome is one of the five, an approved workflow rule says when it applies and what it
/// does, and an edited approval brings its text and revokes nothing; beyond that an approval
/// needs a text and a kind of rule that can be kept.
pub proof fn law_what_may_be_decided(records: Seq<GraphRecord>, k: int, q: DecideView)
    requires
        candidate_at(records, q.candidate_id, k),
    ensures
        ({
            let n = records[k]->Node_0;
            let c = n@.user_context;
            let kind = c.proposed_rule_kind;
            let approved = q.outcome == "approved"@;
            let edited = q.outcome == "edited_then_approved"@;
            &&& n.kind != NodeKind::PromoteCandidate ==> decide_error(records, q) is Some
            &&& kind is None ==> decide_error(records, q) is Some
            &&& n.kind == NodeKind::PromoteCandidate && kind is Some && (q.outcome == "rejected"@
                || q.outcome == "deferred"@ || q.outcome == "expired"@) ==> decide_error(
                records,
                q,
            ) is None
            &&& !approved && !edited && q.outcome != "rejected"@ && q.outcome != "deferred"@
                && q.outcome != "expired"@ ==> decide_error(records, q) is Some
            &&& edited && q.edited_rule_text is None ==> decide_error(records, q) is Some
            &&& edited && kind == Some("revocation"@) ==> decide_error(records, q) is Some
            &&& approved && c.proposed_rule_text is None ==> decide_error(records, q) is Some
            &&& (approved || edited) && kind is Some && kind != Some("preference"@) && kind
                != Some("workflow_rule"@) && kind != Some("naming_decision"@) && kind != Some(
                "constraint"@,
            ) && kind != Some("revocation"@) ==> decide_error(records, q) is Some
            &&& n.kind == NodeKind::PromoteCandidate && (approved && c.proposed_rule_text is Some
                || edited && q.edited_rule_text is Some) && (kind == Some("preference"@) || kind
                == Some("naming_decision"@) || kind == Some("constraint"@)) ==> decide_error(
                records,
                q,
            ) is None
        }),
{
    lemma_first(records, q.candidate_id, k);
    lemma_rule_kinds();
    reveal(request_error);
    reveal(approval_error);
}

/// The identifiers of a decision hang on what makes it: the prompt on the candidate, the
/// time and the surface; the decision on the candidate, its prompt, the time and the
/// outcome; the rule on its text or its name, on where it holds and on the decision.
pub proof fn law_decision_identifiers(
    records: Seq<GraphRecord>,
    k: int,
    q: DecideView,
    at: Seq<char>,
    texts: DecisionTextsView,
)
    requires
        candidate_at(records, q.candidate_id, k),
        decide_error(records, q) is None,
        q.outcome == "approved"@ || q.outcome == "edited_then_approved"@,
        records[k]->Node_0@.user_context.proposed_rule_kind != Some("revocation"@),
    ensures
        ({
            let c = records[k]->Node_0@.user_context;
            let out = decide_records(records, q, at, texts);
            let prompt = out[0]->Node_0.id;
            let decision = out[4]->Node_0.id;
            let text = if q.outcome == "approved"@ {
                c.proposed_rule_text
            } else {
                q.edited_rule_text
            };
            &&& prompt == user_context_id(
                seq!["prompt"@, parts_hash(seq![q.candidate_id, at, q.prompt_surface])],
            )
            &&& decision == user_context_id(
                seq!["decision"@, parts_hash(seq![q.candidate_id, prompt, at, q.outcome])],
            )
            &&& c.proposed_rule_kind != Some("naming_decision"@) && c.scope is Some && text
                is Some ==> out[2]->Node_0.id == user_context_id(
                seq![
                    c.proposed_rule_kind->0,
                    parts_hash(seq![text->0, scope_text(c.scope->0), decision]),
                ],
            )
            &&& c.proposed_rule_kind == Some("naming_decision"@) && c.scope is Some
                && c.entity_kind is Some && c.canonical_name is Some ==> out[2]->Node_0.id
                == user_context_id(
                seq![
                    "naming_decision"@,
                    parts_hash(
                        seq![
                            c.entity_kind->0,
                            c.canonical_name->0,
                            scope_text(c.scope->0),
                            decision,
                        ],
                    ),
                ],
            )
        }),
{
    lemma_approved_node(records, k, q, at, texts);
    lemma_first(records, q.candidate_id, k);
    lemma_rule_kinds();
    reveal(approval_error);
    reveal(prompt_node);
    reveal(decision_node);
    reveal(durable_node);
    reveal(user_context_node);
    reveal(crate::decide::durable_id);
    reveal(crate::decide::prompt_id_of);
    reveal(crate::decide::decision_id_of);
    let c = records[k]->Node_0@.user_context;
    assert(candidate_scope(c) == c.scope->0 || c.scope is None);
    let out = decide_records(records, q, at, texts);
    let decision = crate::decide::decision_id_of(q, at);
    assert(out[0] == RecordView::Node(prompt_node(q, at, texts)));
    assert(out[4]->Node_0.id == decision);
    assert(out[2]->Node_0.id == crate::decide::durable_id(c, q, at));
    if c.proposed_rule_kind == Some("naming_decision"@) {
        assert(crate::decide::durable_parts(c, q, at).len() == 4);
        if c.scope is Some && c.entity_kind is Some && c.canonical_name is Some {
            let parts = seq![
                c.entity_kind->0,
                c.canonical_name->0,
                scope_text(c.scope->0),
                decision,
            ];
            assert(crate::decide::durable_parts(c, q, at) =~= parts);
            assert(seq![c.proposed_rule_kind->0, parts_hash(parts)] =~= seq![
                "naming_decision"@,
                parts_hash(parts),
            ]);
        }
    } else {
        assert(crate::decide::durable_parts(c, q, at).len() == 3);
    }
}

/// The text of where a rule holds names each part that is given, in a fixed order and with a comma
/// between them; what holds everywhere has none.
pub proof fn law_text_of_a_scope(x: UserContextScopeView)
    ensures
        x.repo is None && x.path_glob is None && x.language is None && x.lifecycle_phase is None
            ==> scope_text(x) == Seq::<char>::empty(),
        x.repo is Some && x.path_glob is None && x.language is None && x.lifecycle_phase is None
            ==> scope_text(x) == "repo:"@ + x.repo->0,
        x.repo is None && x.path_glob is Some && x.language is None && x.lifecycle_phase is None
            ==> scope_text(x) == "path_glob:"@ + x.path_glob->0,
        x.repo is None && x.path_glob is None && x.language is Some && x.lifecycle_phase is None
            ==> scope_text(x) == "language:"@ + x.language->0,
        x.repo is None && x.path_glob is None && x.language is None && x.lifecycle_phase is Some
            ==> scope_text(x) == "lifecycle_phase:"@ + x.lifecycle_phase->0,
        x.repo is Some && x.path_glob is Some && x.language is Some && x.lifecycle_phase is Some
            ==> scope_text(x) == ("repo:"@ + x.repo->0) + ","@ + ("path_glob:"@ + x.path_glob->0)
            + ","@ + ("language:"@ + x.language->0) + ","@ + ("lifecycle_phase:"@
            + x.lifecycle_phase->0),
{
    let a = "repo:"@ + x.repo->0;
    let b = "path_glob:"@ + x.path_glob->0;
    let c = "language:"@ + x.language->0;
    let d = "lifecycle_phase:"@ + x.lifecycle_phase->0;
    let none = Seq::<Seq<char>>::empty();
    law_joining(none, a, ","@);
    law_joining(none, b, ","@);
    law_joining(none, c, ","@);
    law_joining(none, d, ","@);
    assert(none.push(a) =~= seq![a]);
    assert(none.push(b) =~= seq![b]);
    assert(none.push(c) =~= seq![c]);
    assert(none.push(d) =~= seq![d]);
    law_joining(none.push(a), b, ","@);
    law_joining(none.push(a).push(b), c, ","@);
    law_joining(none.push(a).push(b).push(c), d, ","@);
}

} // verus!
