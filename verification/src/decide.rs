//! Decisions on what is proposed to be remembered of a user.

use vstd::prelude::*;
use vstd::string::*;

use crate::evidence_edges::{find_first, first_with_id};
use crate::identity::{blake3_hash_parts, parts_hash, stable_id, stable_id_of};
use crate::ir::{
    blank_node, blank_user_context, edge_label_name, lemma_shown_none, lemma_shown_push,
    node_kind_name, record_views, shown, EdgeLabel, EdgeRecord, EdgeView, EvidenceLink,
    EvidenceLinkView, GraphRecord, NodeKind, NodeRecord, NodeView, RecordView,
    USER_CONTEXT_SCHEMA_VERSION, UserContextFields, UserContextScope, UserContextScopeView,
    UserContextView,
};
use crate::scan::{blank, is_blank};
use crate::text::{
    concat2, concat3, join, join_seq, opt_clone, opt_copy_strings, opt_view, str_eq, str_views,
    views,
};

verus! {

/// A decision on a candidate.
#[derive(Clone, Debug, PartialEq, Eq)]
pub struct DecideRequest {
    /// The candidate.
    pub candidate_id: String,
    /// What was decided: `approved`, `edited_then_approved`, `rejected`, `deferred` or
    /// `expired`.
    pub outcome: String,
    /// The edited text, where the rule was edited.
    pub edited_rule_text: Option<String>,
    /// Why.
    pub rationale: Option<String>,
    /// Who decided.
    pub decided_by: String,
    /// Where the question was shown.
    pub prompt_surface: String,
    /// Who was asked.
    pub prompted_to: String,
    /// When, where that is fixed.
    pub transaction_time: Option<String>,
}

/// The view of a [`DecideRequest`].
#[verifier::ext_equal]
pub struct DecideView {
    pub candidate_id: Seq<char>,
    pub outcome: Seq<char>,
    pub edited_rule_text: Option<Seq<char>>,
    pub rationale: Option<Seq<char>>,
    pub decided_by: Seq<char>,
    pub prompt_surface: Seq<char>,
    pub prompted_to: Seq<char>,
    pub transaction_time: Option<Seq<char>>,
}

impl View for DecideRequest {
    type V = DecideView;

    open spec fn view(&self) -> DecideView {
        DecideView {
            candidate_id: self.candidate_id@,
            outcome: self.outcome@,
            edited_rule_text: opt_view(self.edited_rule_text),
            rationale: opt_view(self.rationale),
            decided_by: self.decided_by@,
            prompt_surface: self.prompt_surface@,
            prompted_to: self.prompted_to@,
            transaction_time: opt_view(self.transaction_time),
        }
    }
}

/// The free texts that a decision writes.
#[derive(Clone, Debug, PartialEq, Eq)]
pub struct DecisionTexts {
    /// The question.
    pub prompt_text: String,
    /// The rationale.
    pub rationale: Option<String>,
    /// The text of the rule.
    pub rule_text: Option<String>,
    /// What the rule does.
    pub action_summary: Option<String>,
}

/// The view of a [`DecisionTexts`].
#[verifier::ext_equal]
pub struct DecisionTextsView {
    pub prompt_text: Seq<char>,
    pub rationale: Option<Seq<char>>,
    pub rule_text: Option<Seq<char>>,
    pub action_summary: Option<Seq<char>>,
}

impl View for DecisionTexts {
    type V = DecisionTextsView;

    open spec fn view(&self) -> DecisionTextsView {
        DecisionTextsView {
            prompt_text: self.prompt_text@,
            rationale: opt_view(self.rationale),
            rule_text: opt_view(self.rule_text),
            action_summary: opt_view(self.action_summary),
        }
    }
}

// ---------------------------------------------------------------------------
// Identifiers
// ---------------------------------------------------------------------------

/// The identifier of a user-context record.
pub open spec fn user_context_id(parts: Seq<Seq<char>>) -> Seq<char> {
    stable_id_of("user_context"@, USER_CONTEXT_SCHEMA_VERSION as nat, parts)
}

fn make_user_context_id(a: &str, b: &str) -> (r: String)
    ensures
        r@ == user_context_id(seq![a@, b@]),
{
    let mut parts: Vec<&str> = Vec::new();
    parts.push(a);
    parts.push(b);
    assert(str_views(parts@) =~= seq![a@, b@]);
    stable_id("user_context", USER_CONTEXT_SCHEMA_VERSION, &parts)
}

/// A user-context edge.
#[verifier::opaque]
pub open spec fn user_context_edge_view(
    label: EdgeLabel,
    source: Seq<char>,
    target: Seq<char>,
    confidence: Option<Seq<char>>,
    summary: Seq<char>,
) -> EdgeView {
    EdgeView {
        rest: None,
        id: user_context_id(seq!["edge"@, edge_label_name(label), source, target]),
        schema_version: USER_CONTEXT_SCHEMA_VERSION,
        label,
        source,
        target,
        confidence,
        resolution: None,
        temporal: None,
        summary,
    }
}

/// A user-context edge.
pub fn user_context_edge(
    label: EdgeLabel,
    source: &str,
    target: &str,
    confidence: Option<String>,
    summary: &str,
) -> (r: GraphRecord)
    ensures
        r@ == RecordView::Edge(
            user_context_edge_view(label, source@, target@, opt_view(confidence), summary@),
        ),
{
    proof {
        reveal(user_context_edge_view);
    }
    let mut parts: Vec<&str> = Vec::new();
    parts.push("edge");
    parts.push(label.as_str());
    parts.push(source);
    parts.push(target);
    assert(str_views(parts@) =~= seq!["edge"@, edge_label_name(label), source@, target@]);
    GraphRecord::Edge(
        EdgeRecord {
            rest: None,
            id: stable_id("user_context", USER_CONTEXT_SCHEMA_VERSION, &parts),
            schema_version: USER_CONTEXT_SCHEMA_VERSION,
            label,
            source: source.to_owned(),
            target: target.to_owned(),
            confidence,
            resolution: None,
            temporal: None,
            summary: summary.to_owned(),
        },
    )
}

/// A list with one more text where there is one.
pub open spec fn with_part(s: Seq<Seq<char>>, prefix: Seq<char>, v: Option<Seq<char>>) -> Seq<
    Seq<char>,
> {
    match v {
        Some(x) => s.push(prefix + x),
        None => s,
    }
}

/// The parts of a scope that are set, each with its name.
pub open spec fn scope_parts(s: UserContextScopeView) -> Seq<Seq<char>> {
    with_part(
        with_part(
            with_part(
                with_part(Seq::empty(), "repo:"@, s.repo),
                "path_glob:"@,
                s.path_glob,
            ),
            "language:"@,
            s.language,
        ),
        "lifecycle_phase:"@,
        s.lifecycle_phase,
    )
}

/// A scope as one text.
pub open spec fn scope_text(s: UserContextScopeView) -> Seq<char> {
    join_seq(scope_parts(s), ","@)
}

fn push_part(parts: &mut Vec<String>, prefix: &str, v: &Option<String>)
    ensures
        views(final(parts)@) == with_part(views(old(parts)@), prefix@, opt_view(*v)),
{
    match v {
        Some(x) => {
            let part = concat2(prefix, x.as_str());
            let ghost before = parts@;
            let ghost pv = part@;
            parts.push(part);
            assert(views(parts@) =~= views(before).push(pv));
        },
        None => {},
    }
}

/// A scope as one text.
pub fn canonical_scope(s: &UserContextScope) -> (r: String)
    ensures
        r@ == scope_text(s@),
{
    let mut parts: Vec<String> = Vec::new();
    assert(views(parts@) =~= Seq::<Seq<char>>::empty());
    push_part(&mut parts, "repo:", &s.repo);
    push_part(&mut parts, "path_glob:", &s.path_glob);
    push_part(&mut parts, "language:", &s.language);
    push_part(&mut parts, "lifecycle_phase:", &s.lifecycle_phase);
    join(&parts, ",")
}

// ---------------------------------------------------------------------------
// What may be decided
// ---------------------------------------------------------------------------

/// Whether the outcome approves the candidate.
pub open spec fn approves(outcome: Seq<char>) -> bool {
    outcome == "approved"@ || outcome == "edited_then_approved"@
}

fn does_approve(outcome: &str) -> (r: bool)
    ensures
        r == approves(outcome@),
{
    str_eq(outcome, "approved") || str_eq(outcome, "edited_then_approved")
}

/// Whether the text is an outcome.
pub open spec fn known_outcome(outcome: Seq<char>) -> bool {
    approves(outcome) || outcome == "rejected"@ || outcome == "deferred"@ || outcome == "expired"@
}

/// The fields of the candidate of a decision.
pub open spec fn candidate_fields(records: Seq<GraphRecord>, id: Seq<char>) -> UserContextView {
    first_with_id(records, id)->0->Node_0@.user_context
}

/// Whether a workflow rule says when it applies and what it does.
pub open spec fn workflow_complete(c: UserContextView) -> bool {
    &&& c.triggers is Some && c.triggers->0.len() > 0
    &&& forall|i: int| 0 <= i < c.triggers->0.len() ==> !blank(#[trigger] c.triggers->0[i])
    &&& c.action_summary is Some && !blank(c.action_summary->0)
}

/// What is wrong with a decision, before anything is made of it.
#[verifier::opaque]
pub open spec fn request_error(records: Seq<GraphRecord>, q: DecideView) -> Option<Seq<char>> {
    let found = first_with_id(records, q.candidate_id);
    let c = candidate_fields(records, q.candidate_id);
    if found is None {
        Some("PromoteCandidate '"@ + q.candidate_id + "' not found"@)
    } else if !(found->0 is Node && found->0->Node_0.kind == NodeKind::PromoteCandidate) {
        Some("Record '"@ + q.candidate_id + "' is not a PromoteCandidate"@)
    } else if c.proposed_rule_kind is None {
        Some("Candidate lacks proposed_rule_kind"@)
    } else if !known_outcome(q.outcome) {
        Some(
            "Invalid outcome '"@ + q.outcome
                + "'. Allowed values are: approved, rejected, deferred, expired, edited_then_approved"@,
        )
    } else if approves(q.outcome) && c.proposed_rule_kind->0 == "workflow_rule"@
        && !workflow_complete(c) {
        Some("Approved workflow_rule candidate must carry triggers and an action_summary"@)
    } else if q.outcome == "edited_then_approved"@ && q.edited_rule_text is None {
        Some("edited_rule_text is required when outcome is edited_then_approved"@)
    } else if q.outcome == "edited_then_approved"@ && c.proposed_rule_kind->0 == "revocation"@ {
        Some("edited_then_approved is not supported for revocation candidates"@)
    } else {
        None
    }
}

/// The text of the rule that an approval makes durable.
pub open spec fn rule_text_of(c: UserContextView, q: DecideView) -> Option<Seq<char>> {
    if q.outcome == "edited_then_approved"@ {
        q.edited_rule_text
    } else {
        c.proposed_rule_text
    }
}

/// The first link into the user context.
pub open spec fn first_user_context_link(s: Seq<EvidenceLinkView>) -> Option<EvidenceLinkView>
    decreases s.len(),
{
    if s.len() == 0 {
        None
    } else if s[0].target_domain == "user_context"@ {
        Some(s[0])
    } else {
        first_user_context_link(s.drop_first())
    }
}

/// The record that a revocation retires: the target of the first contradicting link,
/// else of the first supporting link into the user context.
pub open spec fn revoked_id(c: UserContextView) -> Option<Seq<char>> {
    let contradicted = match c.contradicting_evidence {
        Some(s) => if s.len() > 0 {
            s[0].target_record_id
        } else {
            None
        },
        None => None,
    };
    if contradicted is Some {
        contradicted
    } else {
        match c.supporting_evidence {
            Some(s) => match first_user_context_link(s) {
                Some(l) => l.target_record_id,
                None => None,
            },
            None => None,
        }
    }
}

/// The kind of record that a rule becomes.
pub open spec fn durable_kind(rule_kind: Seq<char>) -> Option<NodeKind> {
    if rule_kind == "preference"@ {
        Some(NodeKind::Preference)
    } else if rule_kind == "workflow_rule"@ {
        Some(NodeKind::WorkflowRule)
    } else if rule_kind == "naming_decision"@ {
        Some(NodeKind::NamingDecision)
    } else if rule_kind == "constraint"@ {
        Some(NodeKind::Constraint)
    } else {
        None
    }
}

/// What is wrong with an approval.
#[verifier::opaque]
pub open spec fn approval_error(records: Seq<GraphRecord>, q: DecideView) -> Option<Seq<char>> {
    let c = candidate_fields(records, q.candidate_id);
    let kind = c.proposed_rule_kind->0;
    if rule_text_of(c, q) is None {
        Some("Candidate proposed_rule_text is missing"@)
    } else if kind == "revocation"@ {
        match revoked_id(c) {
            None => Some("Revocation candidate does not specify target record to revoke"@),
            Some(id) => if first_with_id(records, id) is None {
                Some("Durable record '"@ + id + "' to revoke not found"@)
            } else {
                None
            },
        }
    } else if durable_kind(kind) is None {
        Some("Unsupported proposed rule kind '"@ + kind + "'"@)
    } else {
        None
    }
}

/// What is wrong with a decision.
pub open spec fn decide_error(records: Seq<GraphRecord>, q: DecideView) -> Option<Seq<char>> {
    if request_error(records, q) is Some {
        request_error(records, q)
    } else if approves(q.outcome) {
        approval_error(records, q)
    } else {
        None
    }
}

fn is_workflow_complete(c: &UserContextFields) -> (r: bool)
    ensures
        r == workflow_complete(c@),
{
    let triggers = match &c.triggers {
        Some(v) => v,
        None => {
            return false;
        },
    };
    let ghost t = c@.triggers->0;
    assert(t == views(triggers@) && t.len() == triggers@.len());
    if triggers.len() == 0 {
        return false;
    }
    let mut i: usize = 0;
    while i < triggers.len()
        invariant
            i <= triggers@.len(),
            c@.triggers == Some(t),
            t == views(triggers@),
            forall|k: int| 0 <= k < i ==> !blank(#[trigger] t[k]),
        decreases triggers@.len() - i,
    {
        assert(t[i as int] == triggers@[i as int]@);
        if is_blank(triggers[i].as_str()) {
            return false;
        }
        i = i + 1;
    }
    match &c.action_summary {
        Some(s) => !is_blank(s.as_str()),
        None => false,
    }
}

fn find_candidate<'a>(records: &'a Vec<GraphRecord>, q: &DecideRequest) -> (r: Result<
    &'a NodeRecord,
    String,
>)
    ensures
        match r {
            Ok(n) => request_error(records@, q@) is None && first_with_id(
                records@,
                q.candidate_id@,
            ) == Some(GraphRecord::Node(*n)),
            Err(e) => request_error(records@, q@) == Some(e@),
        },
{
    proof {
        reveal(request_error);
    }
    let n = match find_first(records, q.candidate_id.as_str()) {
        None => {
            return Err(concat3("PromoteCandidate '", q.candidate_id.as_str(), "' not found"));
        },
        Some(GraphRecord::Node(n)) => n,
        Some(_) => {
            return Err(
                concat3("Record '", q.candidate_id.as_str(), "' is not a PromoteCandidate"),
            );
        },
    };
    if n.kind != NodeKind::PromoteCandidate {
        return Err(concat3("Record '", q.candidate_id.as_str(), "' is not a PromoteCandidate"));
    }
    let kind = match &n.user_context.proposed_rule_kind {
        Some(k) => k.as_str(),
        None => {
            return Err("Candidate lacks proposed_rule_kind".to_owned());
        },
    };
    let outcome = q.outcome.as_str();
    let approved = does_approve(outcome);
    if !approved && !str_eq(outcome, "rejected") && !str_eq(outcome, "deferred") && !str_eq(
        outcome,
        "expired",
    ) {
        return Err(
            concat3(
                "Invalid outcome '",
                outcome,
                "'. Allowed values are: approved, rejected, deferred, expired, edited_then_approved",
            ),
        );
    }
    if approved && str_eq(kind, "workflow_rule") && !is_workflow_complete(&n.user_context) {
        return Err(
            "Approved workflow_rule candidate must carry triggers and an action_summary".to_owned(),
        );
    }
    if str_eq(outcome, "edited_then_approved") {
        if q.edited_rule_text.is_none() {
            return Err(
                "edited_rule_text is required when outcome is edited_then_approved".to_owned(),
            );
        }
        if str_eq(kind, "revocation") {
            return Err(
                "edited_then_approved is not supported for revocation candidates".to_owned(),
            );
        }
    }
    Ok(n)
}

fn find_user_context_link<'a>(s: &'a Vec<EvidenceLink>) -> (r: Option<&'a EvidenceLink>)
    ensures
        match r {
            Some(l) => first_user_context_link(s@.map_values(|x: EvidenceLink| x@)) == Some(l@),
            None => first_user_context_link(s@.map_values(|x: EvidenceLink| x@)) is None,
        },
{
    let ghost v = s@.map_values(|x: EvidenceLink| x@);
    let mut i: usize = 0;
    assert(v.skip(0) =~= v);
    while i < s.len()
        invariant
            i <= s@.len(),
            v == s@.map_values(|x: EvidenceLink| x@),
            first_user_context_link(v) == first_user_context_link(v.skip(i as int)),
        decreases s@.len() - i,
    {
        proof {
            assert(v.skip(i as int)[0] == s@[i as int]@);
            assert(v.skip(i as int).drop_first() =~= v.skip(i + 1));
        }
        if str_eq(s[i].target_domain.as_str(), "user_context") {
            return Some(&s[i]);
        }
        i = i + 1;
    }
    None
}

fn find_revoked_id(c: &UserContextFields) -> (r: Option<String>)
    ensures
        opt_view(r) == revoked_id(c@),
{
    match &c.contradicting_evidence {
        Some(s) => {
            if s.len() > 0 {
                assert(c@.contradicting_evidence->0[0] == s@[0]@);
                match &s[0].target_record_id {
                    Some(id) => {
                        return Some(id.clone());
                    },
                    None => {},
                }
            }
        },
        None => {},
    }
    match &c.supporting_evidence {
        Some(s) => match find_user_context_link(s) {
            Some(l) => opt_clone(&l.target_record_id),
            None => None,
        },
        None => None,
    }
}

fn find_durable_kind(rule_kind: &str) -> (r: Option<NodeKind>)
    ensures
        r == durable_kind(rule_kind@),
{
    if str_eq(rule_kind, "preference") {
        Some(NodeKind::Preference)
    } else if str_eq(rule_kind, "workflow_rule") {
        Some(NodeKind::WorkflowRule)
    } else if str_eq(rule_kind, "naming_decision") {
        Some(NodeKind::NamingDecision)
    } else if str_eq(rule_kind, "constraint") {
        Some(NodeKind::Constraint)
    } else {
        None
    }
}

fn find_rule_text(c: &UserContextFields, q: &DecideRequest) -> (r: Option<String>)
    ensures
        opt_view(r) == rule_text_of(c@, q@),
{
    if str_eq(q.outcome.as_str(), "edited_then_approved") {
        opt_clone(&q.edited_rule_text)
    } else {
        opt_clone(&c.proposed_rule_text)
    }
}

// ---------------------------------------------------------------------------
// The texts of a decision
// ---------------------------------------------------------------------------

/// The question about a candidate.
pub open spec fn prompt_question(candidate_id: Seq<char>) -> Seq<char> {
    "Do you approve the promotion candidate '"@ + candidate_id + "'?"@
}

/// The free texts that a decision writes, as they are before redaction.
pub open spec fn raw_texts(c: UserContextView, q: DecideView) -> DecisionTextsView {
    DecisionTextsView {
        prompt_text: prompt_question(q.candidate_id),
        rationale: q.rationale,
        rule_text: if approves(q.outcome) {
            rule_text_of(c, q)
        } else {
            None
        },
        action_summary: if approves(q.outcome) && c.proposed_rule_kind->0 == "workflow_rule"@ {
            c.action_summary
        } else {
            None
        },
    }
}

/// The free texts that a decision writes. They are to be redacted before they are
/// handed to [`decide_candidate`].
pub fn decision_texts(records: &Vec<GraphRecord>, q: &DecideRequest) -> (r: Result<
    DecisionTexts,
    String,
>)
    ensures
        match r {
            Ok(t) => request_error(records@, q@) is None && t@ == raw_texts(
                candidate_fields(records@, q.candidate_id@),
                q@,
            ),
            Err(e) => request_error(records@, q@) == Some(e@),
        },
{
    proof {
        reveal(request_error);
    }
    let n = match find_candidate(records, q) {
        Err(e) => {
            return Err(e);
        },
        Ok(n) => n,
    };
    let c = &n.user_context;
    let approved = does_approve(q.outcome.as_str());
    let workflow = match &c.proposed_rule_kind {
        Some(k) => str_eq(k.as_str(), "workflow_rule"),
        None => false,
    };
    Ok(
        DecisionTexts {
            prompt_text: concat3(
                "Do you approve the promotion candidate '",
                q.candidate_id.as_str(),
                "'?",
            ),
            rationale: opt_clone(&q.rationale),
            rule_text: if approved {
                find_rule_text(c, q)
            } else {
                None
            },
            action_summary: if approved && workflow {
                opt_clone(&c.action_summary)
            } else {
                None
            },
        },
    )
}

// ---------------------------------------------------------------------------
// The records of a decision
// ---------------------------------------------------------------------------

/// When a decision was made.
pub open spec fn decision_time(q: DecideView, now: Seq<char>) -> Seq<char> {
    match q.transaction_time {
        Some(t) => t,
        None => now,
    }
}

/// The identifier of the prompt of a decision.
#[verifier::opaque]
pub open spec fn prompt_id_of(q: DecideView, at: Seq<char>) -> Seq<char> {
    user_context_id(seq!["prompt"@, parts_hash(seq![q.candidate_id, at, q.prompt_surface])])
}

/// The identifier of a decision.
#[verifier::opaque]
pub open spec fn decision_id_of(q: DecideView, at: Seq<char>) -> Seq<char> {
    user_context_id(
        seq![
            "decision"@,
            parts_hash(seq![q.candidate_id, prompt_id_of(q, at), at, q.outcome]),
        ],
    )
}

/// A user-context node.
#[verifier::opaque]
pub open spec fn user_context_node(
    id: Seq<char>,
    kind: NodeKind,
    summary: Seq<char>,
    at: Seq<char>,
    fields: UserContextView,
) -> NodeView {
    NodeView {
        domain: Some("user_context"@),
        valid_time: Some(at),
        valid_time_source: Some("inferred_from_transaction_time"@),
        user_context: fields,
        ..blank_node(id, kind, USER_CONTEXT_SCHEMA_VERSION, summary)
    }
}

fn make_user_context_node(
    id: String,
    kind: NodeKind,
    summary: String,
    at: &str,
    fields: UserContextFields,
) -> (r: NodeRecord)
    ensures
        r@ == user_context_node(id@, kind, summary@, at@, fields@),
{
    proof {
        reveal(user_context_node);
    }
    let mut n = NodeRecord::blank(id, kind, USER_CONTEXT_SCHEMA_VERSION, summary);
    n.domain = Some("user_context".to_owned());
    n.valid_time = Some(at.to_owned());
    n.valid_time_source = Some("inferred_from_transaction_time".to_owned());
    n.user_context = fields;
    n
}

/// The prompt of a decision.
#[verifier::opaque]
pub open spec fn prompt_node(q: DecideView, at: Seq<char>, texts: DecisionTextsView) -> NodeView {
    user_context_node(
        prompt_id_of(q, at),
        NodeKind::PromotionPrompt,
        "Prompt for candidate "@ + q.candidate_id,
        at,
        UserContextView {
            candidate_id: Some(q.candidate_id),
            prompt_surface: Some(q.prompt_surface),
            prompt_text: Some(texts.prompt_text),
            prompted_at: Some(at),
            prompted_to: Some(q.prompted_to),
            ..blank_user_context()
        },
    )
}

/// The decision, given the record that it made or retired and the edited text.
#[verifier::opaque]
pub open spec fn decision_node(
    q: DecideView,
    at: Seq<char>,
    texts: DecisionTextsView,
    made: Option<Seq<char>>,
    edited: Option<Seq<char>>,
) -> NodeView {
    user_context_node(
        decision_id_of(q, at),
        NodeKind::PromotionDecision,
        "Decision for candidate "@ + q.candidate_id,
        at,
        UserContextView {
            candidate_id: Some(q.candidate_id),
            prompt_id: Some(prompt_id_of(q, at)),
            outcome: Some(q.outcome),
            decided_at: Some(at),
            decided_by: Some(q.decided_by),
            decision_rationale: texts.rationale,
            materialized_record_id: made,
            edited_rule_text: edited,
            ..blank_user_context()
        },
    )
}

/// The scope of a candidate: everywhere, where none is given.
pub open spec fn candidate_scope(c: UserContextView) -> UserContextScopeView {
    match c.scope {
        Some(s) => s,
        None => UserContextScopeView {
            repo: None,
            path_glob: None,
            language: None,
            lifecycle_phase: None,
        },
    }
}

/// What identifies the record that a rule becomes.
pub open spec fn durable_parts(c: UserContextView, q: DecideView, at: Seq<char>) -> Seq<Seq<char>> {
    if durable_kind(c.proposed_rule_kind->0) == Some(NodeKind::NamingDecision) {
        seq![
            match c.entity_kind {
                Some(k) => k,
                None => "other"@,
            },
            match c.canonical_name {
                Some(n) => n,
                None => ""@,
            },
            scope_text(candidate_scope(c)),
            decision_id_of(q, at),
        ]
    } else {
        seq![rule_text_of(c, q)->0, scope_text(candidate_scope(c)), decision_id_of(q, at)]
    }
}

/// The identifier of the record that a rule becomes.
#[verifier::opaque]
pub open spec fn durable_id(c: UserContextView, q: DecideView, at: Seq<char>) -> Seq<char> {
    user_context_id(seq![c.proposed_rule_kind->0, parts_hash(durable_parts(c, q, at))])
}

/// The fields of the record that a rule becomes.
pub open spec fn durable_fields(
    c: UserContextView,
    q: DecideView,
    at: Seq<char>,
    texts: DecisionTextsView,
) -> UserContextView {
    let base = UserContextView {
        scope: Some(candidate_scope(c)),
        approval_decision_id: Some(decision_id_of(q, at)),
        active_from: Some(at),
        proposed_rule_kind: c.proposed_rule_kind,
        ..blank_user_context()
    };
    match durable_kind(c.proposed_rule_kind->0)->0 {
        NodeKind::Preference => UserContextView { rule_text: texts.rule_text, ..base },
        NodeKind::WorkflowRule => UserContextView {
            rule_text: texts.rule_text,
            triggers: c.triggers,
            action_summary: texts.action_summary,
            ..base
        },
        NodeKind::NamingDecision => UserContextView {
            entity_kind: c.entity_kind,
            canonical_name: if q.outcome == "edited_then_approved"@ {
                rule_text_of(c, q)
            } else {
                c.canonical_name
            },
            alternatives_rejected: c.alternatives_rejected,
            ..base
        },
        _ => UserContextView {
            constraint_text: texts.rule_text,
            enforcement_level: c.enforcement_level,
            ..base
        },
    }
}

/// The record that a rule becomes.
#[verifier::opaque]
pub open spec fn durable_node(
    c: UserContextView,
    q: DecideView,
    at: Seq<char>,
    texts: DecisionTextsView,
) -> NodeView {
    let kind = durable_kind(c.proposed_rule_kind->0)->0;
    user_context_node(
        durable_id(c, q, at),
        kind,
        "Materialized durable "@ + node_kind_name(kind),
        at,
        durable_fields(c, q, at, texts),
    )
}

/// The record as it is after a revocation: a node is active no longer.
#[verifier::opaque]
pub open spec fn retired(r: RecordView, at: Seq<char>) -> RecordView {
    match r {
        RecordView::Node(n) => RecordView::Node(
            NodeView {
                user_context: UserContextView { active_to: Some(at), ..n.user_context },
                ..n
            },
        ),
        _ => r,
    }
}

/// The records that an approval adds.
#[verifier::opaque]
pub open spec fn approval_records(
    records: Seq<GraphRecord>,
    q: DecideView,
    at: Seq<char>,
    texts: DecisionTextsView,
) -> Seq<RecordView> {
    let c = candidate_fields(records, q.candidate_id);
    let decision = decision_id_of(q, at);
    if c.proposed_rule_kind->0 == "revocation"@ {
        let id = revoked_id(c)->0;
        seq![
            retired(first_with_id(records, id)->0@, at),
            RecordView::Edge(
                user_context_edge_view(
                    EdgeLabel::RevokedBy,
                    id,
                    decision,
                    None,
                    "Durable record revoked by Decision"@,
                ),
            ),
        ]
    } else {
        seq![
            RecordView::Node(durable_node(c, q, at, texts)),
            RecordView::Edge(
                user_context_edge_view(
                    EdgeLabel::MaterializedAs,
                    decision,
                    durable_id(c, q, at),
                    None,
                    "Decision materialized durable user-context record"@,
                ),
            ),
        ]
    }
}

/// The record that an approval makes or retires.
#[verifier::opaque]
pub open spec fn approval_target(records: Seq<GraphRecord>, q: DecideView, at: Seq<char>) -> Seq<char> {
    let c = candidate_fields(records, q.candidate_id);
    if c.proposed_rule_kind->0 == "revocation"@ {
        revoked_id(c)->0
    } else {
        durable_id(c, q, at)
    }
}

/// The records of a decision: the prompt, what the approval adds, and the decision.
pub open spec fn decide_records(
    records: Seq<GraphRecord>,
    q: DecideView,
    at: Seq<char>,
    texts: DecisionTextsView,
) -> Seq<RecordView> {
    let prompt = seq![
        RecordView::Node(prompt_node(q, at, texts)),
        RecordView::Edge(
            user_context_edge_view(
                EdgeLabel::PromptedFor,
                prompt_id_of(q, at),
                q.candidate_id,
                None,
                "Prompt prompted for PromoteCandidate"@,
            ),
        ),
    ];
    let made = if approves(q.outcome) {
        Some(approval_target(records, q, at))
    } else {
        None
    };
    let edited = if q.outcome == "edited_then_approved"@ {
        texts.rule_text
    } else {
        None
    };
    let added = if approves(q.outcome) {
        approval_records(records, q, at, texts)
    } else {
        Seq::empty()
    };
    prompt + added + seq![
        RecordView::Node(decision_node(q, at, texts, made, edited)),
        RecordView::Edge(
            user_context_edge_view(
                EdgeLabel::DecidedOn,
                decision_id_of(q, at),
                q.candidate_id,
                None,
                "Decision decided on PromoteCandidate"@,
            ),
        ),
    ]
}

proof fn lemma_pushed<V>(a: V, b: V, added: Seq<V>, c: V, d: V)
    ensures
        added.len() == 0 ==> Seq::<V>::empty().push(a).push(b).push(c).push(d) == seq![a, b] + added
            + seq![c, d],
        added.len() == 2 ==> Seq::<V>::empty().push(a).push(b).push(added[0]).push(added[1]).push(
            c,
        ).push(d) == seq![a, b] + added + seq![c, d],
{
    if added.len() == 0 {
        assert(Seq::<V>::empty().push(a).push(b).push(c).push(d) =~= seq![a, b] + added + seq![c, d]);
    }
    if added.len() == 2 {
        assert(Seq::<V>::empty().push(a).push(b).push(added[0]).push(added[1]).push(c).push(d)
            =~= seq![a, b] + added + seq![c, d]);
    }
}

fn edge_record(label: EdgeLabel, source: &str, target: &str, summary: &str) -> (r: GraphRecord)
    ensures
        shown(r) == RecordView::Edge(
            user_context_edge_view(label, source@, target@, None, summary@),
        ),
{
    proof {
        reveal(shown);
    }
    user_context_edge(label, source, target, None, summary)
}

fn hash2(kind: &str, parts: &Vec<&str>) -> (r: String)
    ensures
        r@ == user_context_id(seq![kind@, parts_hash(str_views(parts@))]),
{
    let hash = blake3_hash_parts(parts);
    make_user_context_id(kind, hash.as_str())
}

fn make_prompt_id(q: &DecideRequest, at: &str) -> (r: String)
    ensures
        r@ == prompt_id_of(q@, at@),
{
    proof {
        reveal(prompt_id_of);
    }
    let mut parts: Vec<&str> = Vec::new();
    parts.push(q.candidate_id.as_str());
    parts.push(at);
    parts.push(q.prompt_surface.as_str());
    assert(str_views(parts@) =~= seq![q@.candidate_id, at@, q@.prompt_surface]);
    hash2("prompt", &parts)
}

fn make_decision_id(q: &DecideRequest, prompt_id: &str, at: &str) -> (r: String)
    requires
        prompt_id@ == prompt_id_of(q@, at@),
    ensures
        r@ == decision_id_of(q@, at@),
{
    proof {
        reveal(decision_id_of);
    }
    let mut parts: Vec<&str> = Vec::new();
    parts.push(q.candidate_id.as_str());
    parts.push(prompt_id);
    parts.push(at);
    parts.push(q.outcome.as_str());
    assert(str_views(parts@) =~= seq![q@.candidate_id, prompt_id@, at@, q@.outcome]);
    hash2("decision", &parts)
}

fn make_prompt_node(
    q: &DecideRequest,
    prompt_id: &str,
    at: &str,
    texts: &DecisionTexts,
) -> (r: GraphRecord)
    requires
        prompt_id@ == prompt_id_of(q@, at@),
    ensures
        shown(r) == RecordView::Node(prompt_node(q@, at@, texts@)),
{
    proof {
        reveal(prompt_node);
        reveal(shown);
    }
    let mut f = UserContextFields::empty();
    f.candidate_id = Some(q.candidate_id.clone());
    f.prompt_surface = Some(q.prompt_surface.clone());
    f.prompt_text = Some(texts.prompt_text.clone());
    f.prompted_at = Some(at.to_owned());
    f.prompted_to = Some(q.prompted_to.clone());
    let n = make_user_context_node(
        prompt_id.to_owned(),
        NodeKind::PromotionPrompt,
        concat2("Prompt for candidate ", q.candidate_id.as_str()),
        at,
        f,
    );
    GraphRecord::Node(n)
}

fn make_decision_node(
    q: &DecideRequest,
    prompt_id: &str,
    decision_id: &str,
    at: &str,
    texts: &DecisionTexts,
    made: Option<String>,
    edited: Option<String>,
) -> (r: GraphRecord)
    requires
        prompt_id@ == prompt_id_of(q@, at@),
        decision_id@ == decision_id_of(q@, at@),
    ensures
        shown(r) == RecordView::Node(
            decision_node(q@, at@, texts@, opt_view(made), opt_view(edited)),
        ),
{
    proof {
        reveal(decision_node);
        reveal(shown);
    }
    let mut f = UserContextFields::empty();
    f.candidate_id = Some(q.candidate_id.clone());
    f.prompt_id = Some(prompt_id.to_owned());
    f.outcome = Some(q.outcome.clone());
    f.decided_at = Some(at.to_owned());
    f.decided_by = Some(q.decided_by.clone());
    f.decision_rationale = opt_clone(&texts.rationale);
    f.materialized_record_id = made;
    f.edited_rule_text = edited;
    let n = make_user_context_node(
        decision_id.to_owned(),
        NodeKind::PromotionDecision,
        concat2("Decision for candidate ", q.candidate_id.as_str()),
        at,
        f,
    );
    GraphRecord::Node(n)
}

fn make_scope(c: &UserContextFields) -> (r: UserContextScope)
    ensures
        r@ == candidate_scope(c@),
{
    match &c.scope {
        Some(s) => s.copy(),
        None => UserContextScope {
            repo: None,
            path_glob: None,
            language: None,
            lifecycle_phase: None,
        },
    }
}

fn make_durable_id(
    c: &UserContextFields,
    q: &DecideRequest,
    decision_id: &str,
    rule_kind: &str,
    rule_text: &str,
    at: &str,
) -> (r: String)
    requires
        decision_id@ == decision_id_of(q@, at@),
        c@.proposed_rule_kind == Some(rule_kind@),
        rule_text_of(c@, q@) == Some(rule_text@),
    ensures
        r@ == durable_id(c@, q@, at@),
{
    proof {
        reveal(durable_id);
    }
    let scope = canonical_scope(&make_scope(c));
    let mut parts: Vec<&str> = Vec::new();
    let naming = match find_durable_kind(rule_kind) {
        Some(NodeKind::NamingDecision) => true,
        _ => false,
    };
    if naming {
        parts.push(
            match &c.entity_kind {
                Some(k) => k.as_str(),
                None => "other",
            },
        );
        parts.push(
            match &c.canonical_name {
                Some(n) => n.as_str(),
                None => "",
            },
        );
    } else {
        parts.push(rule_text);
    }
    parts.push(scope.as_str());
    parts.push(decision_id);
    assert(str_views(parts@) =~= durable_parts(c@, q@, at@));
    hash2(rule_kind, &parts)
}

fn make_durable_fields(
    c: &UserContextFields,
    q: &DecideRequest,
    decision_id: &str,
    kind: NodeKind,
    rule_text: &str,
    at: &str,
    texts: &DecisionTexts,
) -> (r: UserContextFields)
    requires
        decision_id@ == decision_id_of(q@, at@),
        c@.proposed_rule_kind is Some,
        durable_kind(c@.proposed_rule_kind->0) == Some(kind),
        rule_text_of(c@, q@) == Some(rule_text@),
    ensures
        r@ == durable_fields(c@, q@, at@, texts@),
{
    let mut f = UserContextFields::empty();
    f.scope = Some(make_scope(c));
    f.approval_decision_id = Some(decision_id.to_owned());
    f.active_from = Some(at.to_owned());
    f.proposed_rule_kind = opt_clone(&c.proposed_rule_kind);
    match kind {
        NodeKind::Preference => {
            f.rule_text = opt_clone(&texts.rule_text);
        },
        NodeKind::WorkflowRule => {
            f.rule_text = opt_clone(&texts.rule_text);
            f.triggers = opt_copy_strings(&c.triggers);
            f.action_summary = opt_clone(&texts.action_summary);
        },
        NodeKind::NamingDecision => {
            f.entity_kind = opt_clone(&c.entity_kind);
            f.canonical_name = if str_eq(q.outcome.as_str(), "edited_then_approved") {
                Some(rule_text.to_owned())
            } else {
                opt_clone(&c.canonical_name)
            };
            f.alternatives_rejected = opt_copy_strings(&c.alternatives_rejected);
        },
        _ => {
            f.constraint_text = opt_clone(&texts.rule_text);
            f.enforcement_level = opt_clone(&c.enforcement_level);
        },
    }
    f
}

fn make_durable_node(
    c: &UserContextFields,
    q: &DecideRequest,
    id: &str,
    decision_id: &str,
    kind: NodeKind,
    rule_text: &str,
    at: &str,
    texts: &DecisionTexts,
) -> (r: GraphRecord)
    requires
        id@ == durable_id(c@, q@, at@),
        decision_id@ == decision_id_of(q@, at@),
        c@.proposed_rule_kind is Some,
        durable_kind(c@.proposed_rule_kind->0) == Some(kind),
        rule_text_of(c@, q@) == Some(rule_text@),
    ensures
        shown(r) == RecordView::Node(durable_node(c@, q@, at@, texts@)),
{
    proof {
        reveal(durable_node);
        reveal(shown);
    }
    let fields = make_durable_fields(c, q, decision_id, kind, rule_text, at, texts);
    let n = make_user_context_node(
        id.to_owned(),
        kind,
        concat2("Materialized durable ", kind.as_str()),
        at,
        fields,
    );
    GraphRecord::Node(n)
}

fn retire(r: &GraphRecord, at: &str) -> (x: GraphRecord)
    ensures
        shown(x) == retired(r@, at@),
{
    proof {
        reveal(retired);
        reveal(shown);
    }
    match r {
        GraphRecord::Node(n) => {
            let mut c = n.copy();
            let mut f = c.user_context.copy();
            f.active_to = Some(at.to_owned());
            c.user_context = f;
            GraphRecord::Node(c)
        },
        _ => r.copy(),
    }
}

fn make_approval(
    records: &Vec<GraphRecord>,
    n: &NodeRecord,
    q: &DecideRequest,
    decision_id: &str,
    at: &str,
    texts: &DecisionTexts,
) -> (r: Result<(GraphRecord, GraphRecord, String), String>)
    requires
        request_error(records@, q@) is None,
        approves(q@.outcome),
        first_with_id(records@, q.candidate_id@) == Some(GraphRecord::Node(*n)),
        decision_id@ == decision_id_of(q@, at@),
    ensures
        match r {
            Ok((a, b, id)) => {
                &&& approval_error(records@, q@) is None
                &&& approval_records(records@, q@, at@, texts@).len() == 2
                &&& shown(a) == approval_records(records@, q@, at@, texts@)[0]
                &&& shown(b) == approval_records(records@, q@, at@, texts@)[1]
                &&& id@ == approval_target(records@, q@, at@)
            },
            Err(e) => approval_error(records@, q@) == Some(e@),
        },
{
    proof {
        reveal(request_error);
        reveal(approval_error);
        reveal(approval_records);
        reveal(approval_target);
    }
    let c = &n.user_context;
    let rule_text = match find_rule_text(c, q) {
        Some(t) => t,
        None => {
            return Err("Candidate proposed_rule_text is missing".to_owned());
        },
    };
    let kind = match &c.proposed_rule_kind {
        Some(k) => k.as_str(),
        None => {
            return Err("Candidate lacks proposed_rule_kind".to_owned());
        },
    };
    if str_eq(kind, "revocation") {
        let id = match find_revoked_id(c) {
            Some(id) => id,
            None => {
                return Err(
                    "Revocation candidate does not specify target record to revoke".to_owned(),
                );
            },
        };
        let target = match find_first(records, id.as_str()) {
            Some(t) => t,
            None => {
                return Err(concat3("Durable record '", id.as_str(), "' to revoke not found"));
            },
        };
        let record = retire(target, at);
        let edge = edge_record(
            EdgeLabel::RevokedBy,
            id.as_str(),
            decision_id,
            "Durable record revoked by Decision",
        );
        return Ok((record, edge, id));
    }
    let durable = match find_durable_kind(kind) {
        Some(k) => k,
        None => {
            return Err(concat3("Unsupported proposed rule kind '", kind, "'"));
        },
    };
    let id = make_durable_id(c, q, decision_id, kind, rule_text.as_str(), at);
    let node = make_durable_node(
        c,
        q,
        id.as_str(),
        decision_id,
        durable,
        rule_text.as_str(),
        at,
        texts,
    );
    let edge = edge_record(
        EdgeLabel::MaterializedAs,
        decision_id,
        id.as_str(),
        "Decision materialized durable user-context record",
    );
    Ok((node, edge, id))
}

/// Decides on a candidate: gives the records of the decision, or says why it cannot be
/// made. `now` is when it is made where the request fixes no time; `texts` are the
/// redacted texts of [`decision_texts`].
pub fn decide_candidate(
    records: &Vec<GraphRecord>,
    q: &DecideRequest,
    now: &str,
    texts: &DecisionTexts,
) -> (r: Result<Vec<GraphRecord>, String>)
    ensures
        match r {
            Ok(v) => decide_error(records@, q@) is None && record_views(v@) == decide_records(
                records@,
                q@,
                decision_time(q@, now@),
                texts@,
            ),
            Err(e) => decide_error(records@, q@) == Some(e@),
        },
{
    let n = match find_candidate(records, q) {
        Err(e) => {
            return Err(e);
        },
        Ok(n) => n,
    };
    let at = match &q.transaction_time {
        Some(t) => t.as_str(),
        None => now,
    };
    let prompt_id = make_prompt_id(q, at);
    let decision_id = make_decision_id(q, prompt_id.as_str(), at);
    let prompt = make_prompt_node(q, prompt_id.as_str(), at, texts);
    let prompt_edge = edge_record(
        EdgeLabel::PromptedFor,
        prompt_id.as_str(),
        q.candidate_id.as_str(),
        "Prompt prompted for PromoteCandidate",
    );
    let mut out: Vec<GraphRecord> = Vec::new();
    let ghost a = shown(prompt);
    let ghost b = shown(prompt_edge);
    proof {
        lemma_shown_none();
        lemma_shown_push(out@, prompt);
        lemma_shown_push(out@.push(prompt), prompt_edge);
    }
    out.push(prompt);
    out.push(prompt_edge);
    let mut made: Option<String> = None;
    let ghost mut added = Seq::<RecordView>::empty();
    if does_approve(q.outcome.as_str()) {
        match make_approval(records, n, q, decision_id.as_str(), at, texts) {
            Err(e) => {
                return Err(e);
            },
            Ok((x, y, id)) => {
                proof {
                    added = approval_records(records@, q@, at@, texts@);
                    lemma_shown_push(out@, x);
                    lemma_shown_push(out@.push(x), y);
                }
                out.push(x);
                out.push(y);
                made = Some(id);
            },
        }
    }
    let edited = if str_eq(q.outcome.as_str(), "edited_then_approved") {
        opt_clone(&texts.rule_text)
    } else {
        None
    };
    let decision = make_decision_node(
        q,
        prompt_id.as_str(),
        decision_id.as_str(),
        at,
        texts,
        made,
        edited,
    );
    let decision_edge = edge_record(
        EdgeLabel::DecidedOn,
        decision_id.as_str(),
        q.candidate_id.as_str(),
        "Decision decided on PromoteCandidate",
    );
    proof {
        lemma_shown_push(out@, decision);
        lemma_shown_push(out@.push(decision), decision_edge);
        lemma_pushed(a, b, added, shown(decision), shown(decision_edge));
    }
    out.push(decision);
    out.push(decision_edge);
    Ok(out)
}

// ---------------------------------------------------------------------------
// Laws
// ---------------------------------------------------------------------------

proof fn lemma_edge_head(label: EdgeLabel, source: Seq<char>, target: Seq<char>, summary: Seq<char>)
    ensures
        user_context_edge_view(label, source, target, None, summary).source == source,
        user_context_edge_view(label, source, target, None, summary).target == target,
        user_context_edge_view(label, source, target, None, summary).label == label,
{
    reveal(user_context_edge_view);
}

proof fn lemma_prompt_head(q: DecideView, at: Seq<char>, texts: DecisionTextsView)
    ensures
        prompt_node(q, at, texts).id == prompt_id_of(q, at),
        prompt_node(q, at, texts).kind == NodeKind::PromotionPrompt,
{
    reveal(prompt_node);
    reveal(user_context_node);
}

proof fn lemma_decision_head(
    q: DecideView,
    at: Seq<char>,
    texts: DecisionTextsView,
    made: Option<Seq<char>>,
    edited: Option<Seq<char>>,
)
    ensures
        decision_node(q, at, texts, made, edited).id == decision_id_of(q, at),
        decision_node(q, at, texts, made, edited).kind == NodeKind::PromotionDecision,
        decision_node(q, at, texts, made, edited).user_context.materialized_record_id == made,
        decision_node(q, at, texts, made, edited).user_context.outcome == Some(q.outcome),
{
    reveal(decision_node);
    reveal(user_context_node);
}

proof fn lemma_durable_head(
    c: UserContextView,
    q: DecideView,
    at: Seq<char>,
    texts: DecisionTextsView,
)
    ensures
        durable_node(c, q, at, texts).id == durable_id(c, q, at),
        durable_node(c, q, at, texts).user_context == durable_fields(c, q, at, texts),
{
    reveal(durable_node);
    reveal(user_context_node);
}

proof fn lemma_approval_len(
    records: Seq<GraphRecord>,
    q: DecideView,
    at: Seq<char>,
    texts: DecisionTextsView,
)
    ensures
        approval_records(records, q, at, texts).len() == 2,
{
    reveal(approval_records);
}

/// A decision that does not approve makes nothing durable: only the prompt and the
/// decision are recorded.
pub proof fn law_only_approval_materializes(
    records: Seq<GraphRecord>,
    q: DecideView,
    at: Seq<char>,
    texts: DecisionTextsView,
)
    requires
        decide_error(records, q) is None,
        !approves(q.outcome),
    ensures
        decide_records(records, q, at, texts).len() == 4,
        decide_records(records, q, at, texts)[2] == RecordView::Node(
            decision_node(q, at, texts, None, None),
        ),
{
}

/// Every decision is anchored: its first record is the prompt, its last but one the
/// decision, and the edges of both lead to the candidate.
pub proof fn law_decision_is_anchored(
    records: Seq<GraphRecord>,
    q: DecideView,
    at: Seq<char>,
    texts: DecisionTextsView,
)
    ensures
        ({
            let out = decide_records(records, q, at, texts);
            let n = out.len() as int;
            &&& n == (if approves(q.outcome) {
                6int
            } else {
                4int
            })
            &&& out[0] is Node && out[0]->Node_0.kind == NodeKind::PromotionPrompt
            &&& out[1] is Edge && out[1]->Edge_0.target == q.candidate_id && out[1]->Edge_0.source
                == out[0]->Node_0.id
            &&& out[n - 2] is Node && out[n - 2]->Node_0.kind == NodeKind::PromotionDecision
            &&& out[n - 1] is Edge && out[n - 1]->Edge_0.target == q.candidate_id
                && out[n - 1]->Edge_0.source == out[n - 2]->Node_0.id
        }),
{
    let made = if approves(q.outcome) {
        Some(approval_target(records, q, at))
    } else {
        None
    };
    let edited = if q.outcome == "edited_then_approved"@ {
        texts.rule_text
    } else {
        None
    };
    lemma_approval_len(records, q, at, texts);
    lemma_prompt_head(q, at, texts);
    lemma_decision_head(q, at, texts, made, edited);
    lemma_edge_head(
        EdgeLabel::PromptedFor,
        prompt_id_of(q, at),
        q.candidate_id,
        "Prompt prompted for PromoteCandidate"@,
    );
    lemma_edge_head(
        EdgeLabel::DecidedOn,
        decision_id_of(q, at),
        q.candidate_id,
        "Decision decided on PromoteCandidate"@,
    );
}

/// An approved rule points back at the decision that approved it, is active from then
/// on, and the decision points at the rule.
pub proof fn law_durable_record_names_its_decision(
    records: Seq<GraphRecord>,
    q: DecideView,
    at: Seq<char>,
    texts: DecisionTextsView,
)
    requires
        decide_error(records, q) is None,
        approves(q.outcome),
        candidate_fields(records, q.candidate_id).proposed_rule_kind->0 != "revocation"@,
    ensures
        ({
            let out = decide_records(records, q, at, texts);
            let rule = out[2]->Node_0;
            let decision = out[4]->Node_0;
            &&& out[2] is Node && out[4] is Node
            &&& rule.user_context.approval_decision_id == Some(decision.id)
            &&& decision.user_context.materialized_record_id == Some(rule.id)
            &&& rule.user_context.active_from == Some(at)
            &&& rule.user_context.active_to is None
        }),
{
    let c = candidate_fields(records, q.candidate_id);
    let edited = if q.outcome == "edited_then_approved"@ {
        texts.rule_text
    } else {
        None
    };
    reveal(approval_records);
    reveal(approval_target);
    lemma_decision_head(q, at, texts, Some(approval_target(records, q, at)), edited);
    lemma_durable_head(c, q, at, texts);
    lemma_durable_fields(c, q, at, texts);
    let out = decide_records(records, q, at, texts);
    assert(out[2] == approval_records(records, q, at, texts)[0]);
}

proof fn lemma_durable_fields(
    c: UserContextView,
    q: DecideView,
    at: Seq<char>,
    texts: DecisionTextsView,
)
    ensures
        durable_fields(c, q, at, texts).approval_decision_id == Some(decision_id_of(q, at)),
        durable_fields(c, q, at, texts).active_from == Some(at),
        durable_fields(c, q, at, texts).active_to is None,
{
}

/// A revocation ends the record that it names at the time of the decision and changes
/// nothing else of it.
pub proof fn law_revocation_only_ends_the_record(
    records: Seq<GraphRecord>,
    q: DecideView,
    at: Seq<char>,
    texts: DecisionTextsView,
)
    requires
        decide_error(records, q) is None,
        q.outcome == "approved"@,
        candidate_fields(records, q.candidate_id).proposed_rule_kind->0 == "revocation"@,
    ensures
        ({
            let id = revoked_id(candidate_fields(records, q.candidate_id))->0;
            let out = decide_records(records, q, at, texts);
            first_with_id(records, id) is Some && out[2] == retired(
                first_with_id(records, id)->0@,
                at,
            )
        }),
{
    reveal(request_error);
    reveal(approval_error);
    reveal(approval_records);
    let out = decide_records(records, q, at, texts);
    assert(out[2] == approval_records(records, q, at, texts)[0]);
}

} // verus!
