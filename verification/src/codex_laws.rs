//! What an import says of the calls of a session, said of the calls themselves.

use vstd::prelude::*;
use vstd::utf8::encode_utf8;

use crate::codex::{
    cost_records, gap_records, interruption_records, unknown_records,
    aborted_records, action_of, action_records, call_records, command_run_records,
    file_edit_records, gaps_records, head_records, import_ctx, import_edge, import_node,
    import_records, interruptions_records, patch_node_records, patch_records, redacted, run_node_id,
    surrogate, tool_call_records, turn_node_id, turn_node_records, turn_records, turns_records,
    unknowns_records, usage_records, verification_records, ActionView, DEFAULT_TIMESTAMP,
    ImportCtxView,
};
use crate::codex_events::{
    CodexInterrupted, CodexUsage,
    applies_patch, begins_like_tests, edits_file, grouping_step, last_file, runs_tests, tool_kind,
    CallPair, CodexEvent, CodexFunctionCall, CodexFunctionCallOutput, CodexMessage, GroupedView,
    GroupingView, SessionFlavor, TurnView,
};
use crate::embedding_laws::{law_trimming_strips_the_ends, stripped};
use crate::ir::{EdgeLabel, NodeKind, OutputHandleView, RecordView};
use crate::outside::{blake3_hex_of, json_i64_of, json_items_of, json_str_of, json_valid_of};
use crate::scan::{char_is_whitespace, trim_seq, words};
use crate::text::{decimal_seq, has_prefix, join_seq, opt_view};
use crate::text_laws::{law_words_are_parted_by_white_space, one_word};

verus! {

/// The exit code that the output of a call holds: where there is an output and it is JSON, what
/// stands under `exit_code`.
pub open spec fn exit_code_told(call: CallPair) -> Option<i64> {
    if call.1 is Some && call.1->0.output is Some && json_valid_of(call.1->0.output->0@) {
        json_i64_of(call.1->0.output->0@, "exit_code"@)
    } else {
        None
    }
}

/// Whether the status is the one of a call with the exit code: nil is success, any other code
/// failure, and without a code nothing is known.
pub open spec fn status_fits(status: Option<Seq<char>>, code: Option<i64>) -> bool {
    &&& code == Some(0i64) ==> status == Some("succeeded"@)
    &&& code is Some && code != Some(0i64) ==> status == Some("failed"@)
    &&& code is None ==> status == Some("unknown"@)
}

/// Whether the records from the `m`-th on are these.
pub open spec fn stands_at(all: Seq<RecordView>, m: int, part: Seq<RecordView>) -> bool {
    &&& 0 <= m && m + part.len() <= all.len()
    &&& forall|i: int| 0 <= i < part.len() ==> all[m + i] == #[trigger] part[i]
}

proof fn lemma_stands(all: Seq<RecordView>, m: int, part: Seq<RecordView>, n: int, inner: Seq<RecordView>)
    requires
        stands_at(all, m, part),
        stands_at(part, n, inner),
    ensures
        stands_at(all, m + n, inner),
{
    assert forall|i: int| 0 <= i < inner.len() implies all[m + n + i] == #[trigger] inner[i] by {
        assert(part[n + i] == inner[i]);
        assert(all[m + (n + i)] == part[n + i]);
    }
}

proof fn lemma_call_stands(
    turn_id: Seq<char>,
    t: TurnView,
    run_id: Seq<char>,
    c: ImportCtxView,
    table: Seq<(Seq<char>, Seq<char>)>,
    n: int,
    k: int,
) -> (m: int)
    requires
        0 <= k < n <= t.tool_calls.len(),
    ensures
        stands_at(
            call_records(turn_id, t, run_id, c, table, n),
            m,
            action_records(
                action_of(t.tool_calls[k], k as u64, turn_id, t.turn_index, run_id, table),
                c,
            ),
        ),
    decreases n,
{
    let before = call_records(turn_id, t, run_id, c, table, n - 1);
    if k == n - 1 {
        before.len() as int
    } else {
        lemma_call_stands(turn_id, t, run_id, c, table, n - 1, k)
    }
}

proof fn lemma_turn_stands(
    turns: Seq<TurnView>,
    run_id: Seq<char>,
    c: ImportCtxView,
    table: Seq<(Seq<char>, Seq<char>)>,
    n: int,
    t: int,
) -> (m: int)
    requires
        0 <= t < n <= turns.len(),
    ensures
        stands_at(
            turns_records(turns, run_id, c, table, n),
            m,
            turn_records(turns[t], run_id, c, table),
        ),
    decreases n,
{
    let before = turns_records(turns, run_id, c, table, n - 1);
    if t == n - 1 {
        before.len() as int
    } else {
        lemma_turn_stands(turns, run_id, c, table, n - 1, t)
    }
}

/// The records of every turn stand in the import, and among them those of every call of it, in
/// its place in the turn.
pub proof fn law_every_call_is_told(
    hash: Seq<char>,
    path: Seq<char>,
    g: GroupedView,
    table: Seq<(Seq<char>, Seq<char>)>,
    t: int,
    k: int,
) -> (m: int)
    requires
        0 <= t < g.turns.len(),
        0 <= k < g.turns[t].tool_calls.len(),
    ensures
        ({
            let c = import_ctx(hash, path, g.flavor);
            let run_id = run_node_id(c.session_id);
            let turn_id = turn_node_id(run_id, g.turns[t].turn_index);
            stands_at(
                import_records(hash, path, g, table),
                m,
                action_records(
                    action_of(
                        g.turns[t].tool_calls[k],
                        k as u64,
                        turn_id,
                        g.turns[t].turn_index,
                        run_id,
                        table,
                    ),
                    c,
                ),
            )
        }),
{
    let c = import_ctx(hash, path, g.flavor);
    let run_id = run_node_id(c.session_id);
    let turn = g.turns[t];
    let turn_id = turn_node_id(run_id, turn.turn_index);
    let n = turn.tool_calls.len() as int;
    let a = action_of(turn.tool_calls[k], k as u64, turn_id, turn.turn_index, run_id, table);
    let block = action_records(a, c);
    let calls = call_records(turn_id, turn, run_id, c, table, n);
    let in_calls = lemma_call_stands(turn_id, turn, run_id, c, table, n, k);
    let own = turn_node_records(turn_id, turn, run_id, c) + usage_records(turn_id, turn, c)
        + aborted_records(turn_id, turn, c);
    let whole = turn_records(turn, run_id, c, table);
    assert(whole == own + calls) by {
        reveal(turn_records);
    }
    assert(stands_at(whole, own.len() as int, calls));
    lemma_stands(whole, own.len() as int, calls, in_calls, block);
    let turns = turns_records(g.turns, run_id, c, table, g.turns.len() as int);
    let in_turns = lemma_turn_stands(g.turns, run_id, c, table, g.turns.len() as int, t);
    lemma_stands(turns, in_turns, whole, own.len() + in_calls, block);
    let head = head_records(g.flavor, c);
    let all = import_records(hash, path, g, table);
    assert(stands_at(all, head.len() as int, turns)) by {
        let p3 = interruptions_records(g.interruptions, run_id, c, g.interruptions.len() as int);
        let p4 = unknowns_records(g.unknown_indices, run_id, c, g.unknown_indices.len() as int);
        let p5 = gaps_records(g.gaps, run_id, c, g.gaps.len() as int);
        assert(all == head + turns + p3 + p4 + p5);
    }
    let m = in_turns + (own.len() + in_calls);
    lemma_stands(all, head.len() as int, turns, m, block);
    head.len() as int + m
}

/// In the records of an import every call has its node of a tool call, which belongs to its
/// turn, names its tool and says how it ended: with exit code nil it succeeded, with another it
/// failed, and without one that is not known. The node of its run holds the same exit code.
pub proof fn law_tool_call_says_how_it_ended(
    hash: Seq<char>,
    path: Seq<char>,
    g: GroupedView,
    table: Seq<(Seq<char>, Seq<char>)>,
    t: int,
    k: int,
)
    requires
        0 <= t < g.turns.len(),
        0 <= k < g.turns[t].tool_calls.len(),
    ensures
        ({
            let call = g.turns[t].tool_calls[k];
            let all = import_records(hash, path, g, table);
            let c = import_ctx(hash, path, g.flavor);
            let turn_id = turn_node_id(run_node_id(c.session_id), g.turns[t].turn_index);
            exists|m: int|
                0 <= m && m + 3 < all.len() && #[trigger] tells_call(
                    all,
                    m,
                    turn_id,
                    call.0.name@,
                    exit_code_told(call),
                )
        }),
{
    let c = import_ctx(hash, path, g.flavor);
    let run_id = run_node_id(c.session_id);
    let turn = g.turns[t];
    let turn_id = turn_node_id(run_id, turn.turn_index);
    let call = turn.tool_calls[k];
    let a = action_of(call, k as u64, turn_id, turn.turn_index, run_id, table);
    let m = law_every_call_is_told(hash, path, g, table, t, k);
    let block = action_records(a, c);
    let all = import_records(hash, path, g, table);
    law_action_says_how_it_ended(a, c);
    assert(all[m + 0] == block[0]);
    assert(all[m + 1] == block[1]);
    assert(all[m + 2] == block[2]);
    assert(all[m + 3] == block[3]);
    assert(a.exit_code == exit_code_told(call));
    assert(tells_call(all, m, turn_id, call.0.name@, exit_code_told(call)));
}

/// Whether the records from the `m`-th on tell of a call of the turn: the tool, how the call
/// ended, that it belongs to the turn, and the run of its command with the exit code.
pub open spec fn tells_call(
    all: Seq<RecordView>,
    m: int,
    turn_id: Seq<char>,
    tool: Seq<char>,
    code: Option<i64>,
) -> bool {
    let call = all[m]->Node_0;
    let run = all[m + 2]->Node_0;
    &&& all[m] is Node && call.kind == NodeKind::ToolCall
    &&& call.linked_turn_id == Some(turn_id)
    &&& call.tool_name == Some(tool)
    &&& status_fits(call.status, code)
    &&& code is Some <==> call.finished_at is Some
    &&& all[m + 1] is Edge && all[m + 1]->Edge_0.label == EdgeLabel::AuthoredBy
        && all[m + 1]->Edge_0.source == call.id && all[m + 1]->Edge_0.target == turn_id
    &&& all[m + 2] is Node && run.kind == NodeKind::CommandRun && run.exit_code == code
    &&& all[m + 3] is Edge && all[m + 3]->Edge_0.label == EdgeLabel::AuthoredBy
        && all[m + 3]->Edge_0.source == run.id && all[m + 3]->Edge_0.target == turn_id
}

/// The first records of a call are its node of a tool call and that of the run of its command.
pub proof fn law_action_says_how_it_ended(a: ActionView, c: ImportCtxView)
    ensures
        action_records(a, c).len() >= 4,
        tells_call(action_records(a, c), 0, a.turn_id, a.name, a.exit_code),
{
    reveal(action_records);
    reveal(import_node);
    reveal(import_edge);
    let all = action_records(a, c);
    let p1 = tool_call_records(a, c);
    let p2 = command_run_records(a, c);
    assert(all[0] == p1[0] && all[1] == p1[1] && all[2] == p2[0] && all[3] == p2[1]);
}

proof fn lemma_later_part(a: ActionView, c: ImportCtxView, i: int)
    requires
        4 <= i < action_records(a, c).len(),
    ensures
        ({
            let p3 = file_edit_records(a, c);
            let p4 = patch_records(a, c);
            let p5 = verification_records(a, c);
            let r = action_records(a, c)[i];
            ||| 0 <= i - 4 < p3.len() && r == p3[i - 4]
            ||| 0 <= i - 4 - p3.len() < p4.len() && r == p4[i - 4 - p3.len()]
            ||| 0 <= i - 4 - p3.len() - p4.len() < p5.len() && r == p5[i - 4 - p3.len() - p4.len()]
        }),
{
    reveal(action_records);
    let p1 = tool_call_records(a, c);
    let p2 = command_run_records(a, c);
    assert((p1 + p2).len() == 4);
}

/// A call that yields a verification has a node of a tool call that succeeded, and one that
/// yields a failure has one that failed.
pub proof fn law_verified_calls_succeeded(a: ActionView, c: ImportCtxView, i: int)
    requires
        0 <= i < action_records(a, c).len(),
        action_records(a, c)[i] is Node,
    ensures
        ({
            let n = action_records(a, c)[i]->Node_0;
            let call = action_records(a, c)[0]->Node_0;
            &&& n.kind == NodeKind::Verification ==> call.status == Some("succeeded"@)
                && n.exit_code == Some(0i64)
            &&& n.kind == NodeKind::Failure ==> call.status == Some("failed"@) && n.exit_code
                is Some && n.exit_code != Some(0i64)
        }),
{
    law_action_says_how_it_ended(a, c);
    reveal(import_node);
    if i >= 4 {
        lemma_later_part(a, c, i);
    } else {
        assert(tells_call(action_records(a, c), 0, a.turn_id, a.name, a.exit_code));
    }
}

/// The failure of a call says what failed: a patch that did not apply, and it is a failure of the
/// patch; else a command, and it is a failure of its run. A patch that did not apply is invalid,
/// any other is unverified.
pub proof fn law_failures_say_what_failed(a: ActionView, c: ImportCtxView)
    ensures
        ({
            let out = patch_records(a, c);
            let patch = out[0]->Node_0;
            let failed = a.exit_code is Some && a.exit_code != Some(0i64);
            &&& a.name == "shell"@ && applies_patch(a.parts) && failed ==> out.len() == 6
                && out[0] is Node && patch.kind == NodeKind::PatchArtifact && patch.patch_status
                == Some("invalid"@) && out[3] is Node && out[3]->Node_0.kind == NodeKind::Failure
                && out[3]->Node_0.failure_kind == Some("patch_invalid"@) && out[3]->Node_0.exit_code
                == a.exit_code && out[5] is Edge && out[5]->Edge_0.label == EdgeLabel::FailedOn
                && out[5]->Edge_0.source == out[3]->Node_0.id && out[5]->Edge_0.target == patch.id
            &&& a.name == "shell"@ && applies_patch(a.parts) && !failed ==> out.len() == 3
                && out[0] is Node && patch.kind == NodeKind::PatchArtifact && patch.patch_status
                == Some("unverified"@)
            &&& a.name == "shell"@ && applies_patch(a.parts) ==> out[2] is Edge
                && out[2]->Edge_0.label == EdgeLabel::ProducedPatch && out[2]->Edge_0.source
                == a.run_id && out[2]->Edge_0.target == patch.id
            &&& !applies_patch(a.parts) && failed ==> out.len() == 3 && out[0] is Node
                && patch.kind == NodeKind::Failure && patch.failure_kind == Some(
                "command_failure"@,
            ) && patch.exit_code == a.exit_code && out[2] is Edge && out[2]->Edge_0.label
                == EdgeLabel::FailedOn && out[2]->Edge_0.source == patch.id
                && out[2]->Edge_0.target == command_run_records(a, c)[0]->Node_0.id
            &&& !applies_patch(a.parts) && !failed ==> out.len() == 0
            &&& a.name != "shell"@ && applies_patch(a.parts) ==> out.len() == 0
        }),
{
    reveal(import_node);
    reveal(import_edge);
    let out = patch_records(a, c);
    let p = patch_node_records(a, c);
    if a.name == "shell"@ && applies_patch(a.parts) {
        assert(out[0] == p[0] && out[2] == p[2]);
    }
}

/// A call verifies something exactly where it is one of the shell, its command runs tests and the
/// exit code is nil; the verification then validates the run.
pub proof fn law_when_a_call_verifies(a: ActionView, c: ImportCtxView)
    ensures
        ({
            let out = verification_records(a, c);
            &&& a.name == "shell"@ && runs_tests(a.command) && a.exit_code == Some(0i64)
                ==> out.len() == 3 && out[0] is Node && out[0]->Node_0.kind
                == NodeKind::Verification && out[0]->Node_0.exit_code == Some(0i64)
                && out[0]->Node_0.text == Some(a.verified_summary) && out[2] is Edge
                && out[2]->Edge_0.label == EdgeLabel::ValidatedBy && out[2]->Edge_0.source
                == a.run_id && out[2]->Edge_0.target == out[0]->Node_0.id
            &&& a.name != "shell"@ || !runs_tests(a.command) || a.exit_code != Some(0i64)
                ==> out.len() == 0
        }),
{
    reveal(import_node);
    reveal(import_edge);
}

/// A command of the shell that edits a file has an edit of the last of its parts that looks like
/// a file; what it was before and after differ in name alone.
pub proof fn law_edits_name_their_file(a: ActionView, c: ImportCtxView)
    ensures
        ({
            let out = file_edit_records(a, c);
            let n = out[0]->Node_0;
            &&& a.name == "shell"@ && edits_file(a.parts) <==> out.len() == 2
            &&& out.len() == 2 ==> out[0] is Node && n.kind == NodeKind::FileEdit
                && n.repo_relative_path == last_file(a.parts) && n.edit_kind == Some("modify"@)
                && n.text == Some(a.redacted_command) && n.linked_turn_id == Some(a.turn_id)
                && n.hunk_count == Some(1u32)
            &&& out.len() == 2 && last_file(a.parts) is Some ==> n.before_hash == Some(
                surrogate(
                    c.source_artifact_hash,
                    last_file(a.parts)->0,
                    "before"@,
                    a.redacted_command,
                ),
            ) && n.after_hash == Some(
                surrogate(
                    c.source_artifact_hash,
                    last_file(a.parts)->0,
                    "after"@,
                    a.redacted_command,
                ),
            )
            &&& out.len() == 2 || out.len() == 0
        }),
{
    reveal(import_node);
}

proof fn lemma_last_file(parts: Seq<Seq<char>>)
    ensures
        last_file(parts) is Some ==> exists|i: int|
            0 <= i < parts.len() && #[trigger] parts[i] == last_file(parts)->0 && (
            parts[i].contains('/') || parts[i].contains('.')) && !has_prefix(parts[i], "-"@)
                && !has_prefix(parts[i], "s"@) && forall|j: int|
                i < j < parts.len() ==> has_prefix(#[trigger] parts[j], "-"@) || has_prefix(
                    parts[j],
                    "s"@,
                ) || !(parts[j].contains('/') || parts[j].contains('.')),
        last_file(parts) is None ==> forall|j: int|
            0 <= j < parts.len() ==> has_prefix(#[trigger] parts[j], "-"@) || has_prefix(
                parts[j],
                "s"@,
            ) || !(parts[j].contains('/') || parts[j].contains('.')),
    decreases parts.len(),
{
    if parts.len() > 0 {
        let rest = parts.drop_last();
        lemma_last_file(rest);
        if crate::codex_events::looks_like_file(parts.last()) {
            assert(parts[parts.len() - 1] == last_file(parts)->0);
        } else {
            assert(last_file(parts) == last_file(rest));
            if last_file(rest) is Some {
                let i = choose|i: int|
                    0 <= i < rest.len() && #[trigger] rest[i] == last_file(rest)->0 && (
                    rest[i].contains('/') || rest[i].contains('.')) && !has_prefix(rest[i], "-"@)
                        && !has_prefix(rest[i], "s"@) && forall|j: int|
                        i < j < rest.len() ==> has_prefix(#[trigger] rest[j], "-"@) || has_prefix(
                            rest[j],
                            "s"@,
                        ) || !(rest[j].contains('/') || rest[j].contains('.'));
                assert(parts[i] == rest[i]);
                assert forall|j: int| i < j < parts.len() implies has_prefix(
                    #[trigger] parts[j],
                    "-"@,
                ) || has_prefix(parts[j], "s"@) || !(parts[j].contains('/') || parts[j].contains(
                    '.',
                )) by {
                    if j < rest.len() {
                        assert(parts[j] == rest[j]);
                    }
                }
            } else {
                assert forall|j: int| 0 <= j < parts.len() implies has_prefix(
                    #[trigger] parts[j],
                    "-"@,
                ) || has_prefix(parts[j], "s"@) || !(parts[j].contains('/') || parts[j].contains(
                    '.',
                )) by {
                    if j < rest.len() {
                        assert(parts[j] == rest[j]);
                    }
                }
            }
        }
    }
}

/// The file that a command edits is the last of its parts with a slash or a dot that is neither an
/// option nor an editing expression, and there is none only where no part is such.
pub proof fn law_edited_file_is_the_last_path(parts: Seq<Seq<char>>)
    ensures
        last_file(parts) is Some ==> exists|i: int|
            0 <= i < parts.len() && #[trigger] parts[i] == last_file(parts)->0 && (
            parts[i].contains('/') || parts[i].contains('.')) && !has_prefix(parts[i], "-"@)
                && !has_prefix(parts[i], "s"@) && forall|j: int|
                i < j < parts.len() ==> has_prefix(#[trigger] parts[j], "-"@) || has_prefix(
                    parts[j],
                    "s"@,
                ) || !(parts[j].contains('/') || parts[j].contains('.')),
        last_file(parts) is None ==> forall|j: int|
            0 <= j < parts.len() ==> has_prefix(#[trigger] parts[j], "-"@) || has_prefix(
                parts[j],
                "s"@,
            ) || !(parts[j].contains('/') || parts[j].contains('.')),
{
    lemma_last_file(parts);
}

/// A command applies a patch exactly where it is `patch` or `git apply`; it edits a file where it
/// is `tee`, `sed` with `-i`, or `cat` with a redirection that something follows.
pub proof fn law_kinds_of_commands(parts: Seq<Seq<char>>, i: int)
    requires
        parts.len() > 0,
    ensures
        parts[0] == "patch"@ ==> applies_patch(parts),
        parts[0] == "git"@ && parts.len() > 1 && parts[1] == "apply"@ ==> applies_patch(parts),
        applies_patch(parts) && parts[0] != "patch"@ ==> parts[0] == "git"@ && parts.len() > 1
            && parts[1] == "apply"@,
        parts[0] == "tee"@ ==> edits_file(parts),
        parts[0] == "sed"@ && parts.contains("-i"@) ==> edits_file(parts),
        parts[0] == "cat"@ && 0 <= i < parts.len() - 1 && (parts[i] == ">"@ || parts[i] == ">>"@)
            ==> edits_file(parts),
        edits_file(parts) ==> parts[0] == "sed"@ || parts[0] == "tee"@ || parts[0] == "cat"@,
        edits_file(parts) && parts[0] == "sed"@ ==> parts.contains("-i"@),
        edits_file(parts) && parts[0] == "cat"@ ==> parts.contains(">"@) || parts.contains(">>"@),
{
    reveal_strlit("sed");
    reveal_strlit("tee");
    reveal_strlit("cat");
    reveal_strlit("patch");
    reveal_strlit("git");
    reveal_strlit("apply");
    assert("sed"@[0] == 's');
    assert("tee"@[0] == 't');
    assert("cat"@[0] == 'c');
    assert("apply"@.len() == 5);
}

/// The kind of a tool outside the shell is its name; in the shell a patch comes before an edit,
/// and an edit before tests.
pub proof fn law_tool_kinds(name: Seq<char>, parts: Seq<Seq<char>>)
    ensures
        name != "shell"@ ==> tool_kind(name, parts) == name,
        name == "shell"@ && applies_patch(parts) ==> tool_kind(name, parts) == "patch"@,
        name == "shell"@ && !applies_patch(parts) && edits_file(parts) ==> tool_kind(name, parts)
            == "file_edit"@,
        name == "shell"@ && !applies_patch(parts) && !edits_file(parts) && begins_like_tests(parts)
            ==> tool_kind(name, parts) == "test"@,
        name == "shell"@ && !applies_patch(parts) && !edits_file(parts) && !begins_like_tests(parts)
            ==> tool_kind(name, parts) == "shell"@,
{
}

/// A call is read from its arguments and its output: the name is the tool's, the command is what
/// the arguments hold under `cmd`, and the exit code and the texts are what the output holds under
/// `exit_code`, `stdout` and `stderr`. An output that is no JSON is what was written, whole. Only
/// redacted texts are handed on.
pub proof fn law_calls_are_read_from_their_fields(
    call: CallPair,
    index: u64,
    turn_id: Seq<char>,
    turn_index: u64,
    run_id: Seq<char>,
    table: Seq<(Seq<char>, Seq<char>)>,
)
    ensures
        ({
            let a = action_of(call, index, turn_id, turn_index, run_id, table);
            let raw = call.1->0.output->0@;
            let given = call.1 is Some && call.1->0.output is Some;
            &&& a.name == call.0.name@
            &&& a.exit_code == exit_code_told(call)
            &&& a.redacted_command == redacted(table, a.command)
            &&& a.turn_id == turn_id && a.run_id == run_id && a.index == index && a.turn_index
                == turn_index
            &&& call.0.arguments is Some && json_items_of(call.0.arguments->0@, "cmd"@) is None
                ==> a.command == call.0.arguments->0@ && a.parts == seq![call.0.arguments->0@]
            &&& given && !json_valid_of(raw) ==> a.stdout == Some(raw) && a.stderr is None
            &&& given && json_valid_of(raw) && json_str_of(raw, "stdout"@) is Some && json_str_of(
                raw,
                "stdout"@,
            )->0.len() > 0 ==> a.stdout == json_str_of(raw, "stdout"@)
            &&& given && json_valid_of(raw) && json_str_of(raw, "stderr"@) is Some && json_str_of(
                raw,
                "stderr"@,
            )->0.len() > 0 ==> a.stderr == json_str_of(raw, "stderr"@)
            &&& !given ==> a.stdout is None && a.stderr is None
            &&& a.stdout is Some ==> a.redacted_stdout == Some(redacted(table, a.stdout->0))
            &&& a.stderr is Some ==> a.redacted_stderr == Some(redacted(table, a.stderr->0))
            &&& a.stdout is None ==> a.redacted_stdout is None
            &&& a.stderr is None ==> a.redacted_stderr is None
        }),
{
}

/// A text is stored as the first entry of the table that lists it says, and as it is where none
/// lists it.
pub proof fn law_first_listing_redacts(
    table: Seq<(Seq<char>, Seq<char>)>,
    text: Seq<char>,
    i: int,
)
    requires
        0 <= i < table.len() ==> table[i].0 == text && forall|j: int|
            0 <= j < i ==> (#[trigger] table[j]).0 != text,
        !(0 <= i < table.len()) ==> forall|j: int|
            0 <= j < table.len() ==> (#[trigger] table[j]).0 != text,
    ensures
        0 <= i < table.len() ==> redacted(table, text) == table[i].1,
        !(0 <= i < table.len()) ==> redacted(table, text) == text,
{
    lemma_redacted_at(table, text, i, 0);
}

proof fn lemma_redacted_at(table: Seq<(Seq<char>, Seq<char>)>, text: Seq<char>, i: int, n: int)
    requires
        0 <= n <= table.len(),
        0 <= i < table.len() ==> n <= i && table[i].0 == text && forall|j: int|
            0 <= j < i ==> (#[trigger] table[j]).0 != text,
        !(0 <= i < table.len()) ==> forall|j: int|
            0 <= j < table.len() ==> (#[trigger] table[j]).0 != text,
    ensures
        0 <= i < table.len() ==> crate::codex::redacted_from(table, text, n) == table[i].1,
        !(0 <= i < table.len()) ==> crate::codex::redacted_from(table, text, n) == text,
    decreases table.len() - n,
{
    if n < table.len() && n != i {
        assert(table[n].0 != text);
        lemma_redacted_at(table, text, i, n + 1);
    }
}

/// A session and its run are headed by what the header says: the run names the model, both are
/// seen at the header's time, which is also the time of whatever has none of its own.
pub proof fn law_header_heads_the_session(f: SessionFlavor, hash: Seq<char>, path: Seq<char>)
    ensures
        ({
            let c = import_ctx(hash, path, f);
            let out = head_records(f, c);
            &&& out.len() == 3
            &&& out[0] is Node && out[0]->Node_0.kind == NodeKind::AgentSession
            &&& out[1] is Node && out[1]->Node_0.kind == NodeKind::AgentRun
            &&& out[0]->Node_0.observed_at == Some(c.default_timestamp)
            &&& out[1]->Node_0.observed_at == Some(c.default_timestamp)
            &&& out[2] is Edge && out[2]->Edge_0.label == EdgeLabel::SessionOf
                && out[2]->Edge_0.source == out[1]->Node_0.id && out[2]->Edge_0.target
                == out[0]->Node_0.id
            &&& f matches SessionFlavor::Session(h) ==> h.created_at is Some
                ==> c.default_timestamp == h.created_at->0@
            &&& f matches SessionFlavor::Rollout(h) ==> h.started_at is Some
                ==> c.default_timestamp == h.started_at->0@
            &&& f matches SessionFlavor::Session(h) ==> h.model is Some
                ==> out[1]->Node_0.summary == "AgentRun codex-"@ + "session"@ + " model="@
                + h.model->0@
            &&& f matches SessionFlavor::Rollout(h) ==> h.model is Some
                ==> out[1]->Node_0.summary == "AgentRun codex-"@ + "rollout"@ + " model="@
                + h.model->0@
            &&& f is Unknown ==> c.default_timestamp == DEFAULT_TIMESTAMP@
        }),
{
    reveal(head_records);
    reveal(import_node);
    reveal(import_edge);
}

/// A turn says where it stands and how it went; a turn of which the message is incomplete and
/// that made no call is a failure; its usage is told where the message gives it.
pub proof fn law_turns_say_how_they_went(
    t: TurnView,
    run_id: Seq<char>,
    c: ImportCtxView,
    table: Seq<(Seq<char>, Seq<char>)>,
)
    ensures
        ({
            let turn_id = turn_node_id(run_id, t.turn_index);
            let out = turn_records(t, run_id, c, table);
            let broke = aborted_records(turn_id, t, c);
            &&& out.len() >= 2
            &&& out[0] is Node && out[0]->Node_0.kind == NodeKind::AgentTurn && out[0]->Node_0.id
                == turn_id && out[0]->Node_0.turn_index == Some(t.turn_index)
                && out[0]->Node_0.status == opt_view(t.message.status)
            &&& out[1] is Edge && out[1]->Edge_0.source == turn_id && out[1]->Edge_0.target
                == run_id
            &&& broke.len() > 0 <==> t.message.status is Some && t.message.status->0@
                == "incomplete"@ && t.tool_calls.len() == 0
            &&& broke.len() > 0 ==> broke[0] is Node && broke[0]->Node_0.kind == NodeKind::Failure
                && broke[0]->Node_0.failure_kind == Some("aborted_turn"@) && broke[1] is Edge
                && broke[1]->Edge_0.target == turn_id
            &&& t.message.usage is Some <==> usage_records(turn_id, t, c).len() > 0
            &&& t.message.usage is Some ==> usage_records(turn_id, t, c)[0] is Node
                && usage_records(turn_id, t, c)[0]->Node_0.kind == NodeKind::CostUsage
                && usage_records(turn_id, t, c)[0]->Node_0.linked_turn_id == Some(turn_id)
        }),
{
    reveal(turn_records);
    reveal(import_node);
    reveal(import_edge);
    let turn_id = turn_node_id(run_id, t.turn_index);
    let p1 = turn_node_records(turn_id, t, run_id, c);
    let out = turn_records(t, run_id, c, table);
    assert(out[0] == p1[0] && out[1] == p1[1]);
}

/// An output goes to the open call that it names by its link, and to no other: where the links
/// differ the call keeps none and the line is noted. A call that is still open when another
/// begins stays in the turn without an output.
pub proof fn law_outputs_go_to_their_call(
    g: GroupingView,
    line: usize,
    t: TurnView,
    open: CodexFunctionCall,
    o: CodexFunctionCallOutput,
    next: CodexFunctionCall,
)
    requires
        g.current == Some(t),
        g.pending == Some(open),
    ensures
        ({
            let after = grouping_step(g, line, CodexEvent::FunctionCallOutput(o));
            let none: Option<CodexFunctionCallOutput> = None;
            &&& after.pending is None
            &&& after.current is Some
            &&& after.current->0.tool_calls.len() == t.tool_calls.len() + 1
            &&& after.current->0.tool_calls.last().0 == open
            &&& open.call_id@ == o.call_id@ ==> after.current->0.tool_calls.last().1 == Some(o)
                && after.done.unknown_indices == g.done.unknown_indices
            &&& open.call_id@ != o.call_id@ ==> after.current->0.tool_calls.last().1 == none
                && after.done.unknown_indices == g.done.unknown_indices.push(line)
            &&& after.done.turns == g.done.turns
        }),
        ({
            let after = grouping_step(g, line, CodexEvent::FunctionCall(next));
            let none: Option<CodexFunctionCallOutput> = None;
            &&& after.pending == Some(next)
            &&& after.current is Some
            &&& after.current->0.tool_calls == t.tool_calls.push((open, none))
        }),
{
}

/// A message of the assistant begins a turn, which stands behind those before it; the message of
/// anybody else changes no turn.
pub proof fn law_assistant_messages_begin_turns(
    g: GroupingView,
    line: usize,
    m: CodexMessage,
)
    requires
        g.pending is None,
    ensures
        ({
            let after = grouping_step(g, line, CodexEvent::Message(m));
            &&& m.role@ != "assistant"@ ==> after.current == g.current && after.done.turns
                == g.done.turns
            &&& m.role@ == "assistant"@ ==> after.current is Some && after.current->0.message == m
                && after.current->0.tool_calls.len() == 0 && after.current->0.turn_index
                == after.done.turns.len() as u64 && after.done.turns == (match g.current {
                Some(t) => g.done.turns.push(t),
                None => g.done.turns,
            })
        }),
{
}

// ---------------------------------------------------------------------------
// Commands that run tests
// ---------------------------------------------------------------------------

/// Whether the command is the pattern, with or without arguments behind it.
pub open spec fn is_or_begins(cmd: Seq<char>, pattern: Seq<char>) -> bool {
    cmd == pattern || exists|rest: Seq<char>| cmd == #[trigger] (pattern + " "@ + rest)
}

/// Whether the command is one that runs tests.
pub open spec fn test_command(cmd: Seq<char>) -> bool {
    ||| is_or_begins(cmd, "pytest"@)
    ||| is_or_begins(cmd, "python -m pytest"@)
    ||| is_or_begins(cmd, "python3 -m pytest"@)
    ||| is_or_begins(cmd, "cargo test"@)
    ||| is_or_begins(cmd, "npm test"@)
    ||| is_or_begins(cmd, "npm run test"@)
    ||| is_or_begins(cmd, "go test"@)
    ||| is_or_begins(cmd, "make test"@)
    ||| is_or_begins(cmd, "./gradlew test"@)
    ||| is_or_begins(cmd, "mvn test"@)
}

proof fn lemma_is_or_begins(cmd: Seq<char>, pattern: Seq<char>)
    ensures
        crate::codex_events::runs_pattern(cmd, pattern) <==> is_or_begins(cmd, pattern),
{
    let p = pattern + " "@;
    if has_prefix(cmd, p) {
        let rest = cmd.skip(p.len() as int);
        assert(cmd =~= pattern + " "@ + rest);
    }
    if exists|rest: Seq<char>| cmd == #[trigger] (pattern + " "@ + rest) {
        let rest = choose|rest: Seq<char>| cmd == #[trigger] (pattern + " "@ + rest);
        assert(cmd.take(p.len() as int) =~= p);
    }
}

proof fn lemma_stripped_once(t: Seq<char>, x: Seq<char>, y: Seq<char>)
    requires
        stripped(t, x),
        stripped(t, y),
    ensures
        x == y,
{
    let (a, b) = choose|a: int, b: int|
        0 <= a <= b <= t.len() && #[trigger] t.subrange(a, b) == x && (forall|i: int|
            0 <= i < a || b <= i < t.len() ==> char_is_whitespace(#[trigger] t[i])) && (a < b
            ==> !char_is_whitespace(t[a]) && !char_is_whitespace(t[b - 1]));
    let (c, d) = choose|c: int, d: int|
        0 <= c <= d <= t.len() && #[trigger] t.subrange(c, d) == y && (forall|i: int|
            0 <= i < c || d <= i < t.len() ==> char_is_whitespace(#[trigger] t[i])) && (c < d
            ==> !char_is_whitespace(t[c]) && !char_is_whitespace(t[d - 1]));
    if a < b {
        assert(!char_is_whitespace(t[a]));
        assert(c <= a < d);
        assert(!char_is_whitespace(t[c]));
        assert(!char_is_whitespace(t[b - 1]));
        assert(!char_is_whitespace(t[d - 1]));
        assert(a == c && b == d);
    } else if c < d {
        assert(!char_is_whitespace(t[c]));
    } else {
        assert(x =~= y);
    }
}

/// A command runs tests exactly where, without white space at its ends, it is one of those that
/// do, with or without arguments.
pub proof fn law_which_commands_run_tests(cmd: Seq<char>, body: Seq<char>)
    requires
        stripped(cmd, body),
    ensures
        runs_tests(cmd) <==> test_command(body),
{
    law_trimming_strips_the_ends(cmd);
    lemma_stripped_once(cmd, body, trim_seq(cmd));
    let ps = crate::codex_events::test_patterns();
    lemma_is_or_begins(body, "pytest"@);
    assert(ps[0] == "pytest"@);
    lemma_is_or_begins(body, "python -m pytest"@);
    assert(ps[1] == "python -m pytest"@);
    lemma_is_or_begins(body, "python3 -m pytest"@);
    assert(ps[2] == "python3 -m pytest"@);
    lemma_is_or_begins(body, "cargo test"@);
    assert(ps[3] == "cargo test"@);
    lemma_is_or_begins(body, "npm test"@);
    assert(ps[4] == "npm test"@);
    lemma_is_or_begins(body, "npm run test"@);
    assert(ps[5] == "npm run test"@);
    lemma_is_or_begins(body, "go test"@);
    assert(ps[6] == "go test"@);
    lemma_is_or_begins(body, "make test"@);
    assert(ps[7] == "make test"@);
    lemma_is_or_begins(body, "./gradlew test"@);
    assert(ps[8] == "./gradlew test"@);
    lemma_is_or_begins(body, "mvn test"@);
    assert(ps[9] == "mvn test"@);
}

proof fn lemma_first_word(w: Seq<char>, rest: Seq<char>)
    requires
        one_word(w),
    ensures
        words(w.push(' ') + rest).len() >= 1,
        words(w.push(' ') + rest)[0] == w,
        !char_is_whitespace((w.push(' ') + rest).last()) ==> words(w.push(' ') + rest).len() >= 2,
    decreases rest.len(),
{
    let t = w.push(' ') + rest;
    if rest.len() == 0 {
        assert(t =~= w.push(' '));
        law_words_are_parted_by_white_space(w, ' ', w);
    } else {
        let less = rest.drop_last();
        lemma_first_word(w, less);
        assert(t.drop_last() =~= w.push(' ') + less);
        assert(t.last() == rest.last());
        let before = words(t.drop_last());
        assert(t[t.len() - 2] == t.drop_last().last());
    }
}

proof fn lemma_test_words()
    ensures
        ({
            let ps = crate::codex_events::test_patterns();
            &&& crate::codex_events::first_word(ps[0]) == "pytest"@
            &&& crate::codex_events::first_word(ps[1]) == "python"@
            &&& crate::codex_events::first_word(ps[2]) == "python3"@
            &&& crate::codex_events::first_word(ps[3]) == "cargo"@
            &&& crate::codex_events::first_word(ps[4]) == "npm"@
            &&& crate::codex_events::first_word(ps[5]) == "npm"@
            &&& crate::codex_events::first_word(ps[6]) == "go"@
            &&& crate::codex_events::first_word(ps[7]) == "make"@
            &&& crate::codex_events::first_word(ps[8]) == "./gradlew"@
            &&& crate::codex_events::first_word(ps[9]) == "mvn"@
        }),
{
    let ps = crate::codex_events::test_patterns();
    reveal_strlit("pytest");
    assert(one_word("pytest"@)) by {
        assert forall|i: int| 0 <= i < "pytest"@.len() implies !char_is_whitespace(
            #[trigger] "pytest"@[i],
        ) by {
            assert(i == 0 || i == 1 || i == 2 || i == 3 || i == 4 || i == 5);
        }
    }
    law_words_are_parted_by_white_space(Seq::empty(), ' ', "pytest"@);
    assert(ps[0] == "pytest"@);
    reveal_strlit("python");
    assert(one_word("python"@)) by {
        assert forall|i: int| 0 <= i < "python"@.len() implies !char_is_whitespace(
            #[trigger] "python"@[i],
        ) by {
            assert(i == 0 || i == 1 || i == 2 || i == 3 || i == 4 || i == 5);
        }
    }
    reveal_strlit("python -m pytest");
    reveal_strlit("-m pytest");
    assert("python -m pytest"@ =~= "python"@.push(' ') + "-m pytest"@);
    lemma_first_word("python"@, "-m pytest"@);
    assert(ps[1] == "python -m pytest"@);
    reveal_strlit("python3");
    assert(one_word("python3"@)) by {
        assert forall|i: int| 0 <= i < "python3"@.len() implies !char_is_whitespace(
            #[trigger] "python3"@[i],
        ) by {
            assert(i == 0 || i == 1 || i == 2 || i == 3 || i == 4 || i == 5 || i == 6);
        }
    }
    reveal_strlit("python3 -m pytest");
    reveal_strlit("-m pytest");
    assert("python3 -m pytest"@ =~= "python3"@.push(' ') + "-m pytest"@);
    lemma_first_word("python3"@, "-m pytest"@);
    assert(ps[2] == "python3 -m pytest"@);
    reveal_strlit("cargo");
    assert(one_word("cargo"@)) by {
        assert forall|i: int| 0 <= i < "cargo"@.len() implies !char_is_whitespace(
            #[trigger] "cargo"@[i],
        ) by {
            assert(i == 0 || i == 1 || i == 2 || i == 3 || i == 4);
        }
    }
    reveal_strlit("cargo test");
    reveal_strlit("test");
    assert("cargo test"@ =~= "cargo"@.push(' ') + "test"@);
    lemma_first_word("cargo"@, "test"@);
    assert(ps[3] == "cargo test"@);
    reveal_strlit("npm");
    assert(one_word("npm"@)) by {
        assert forall|i: int| 0 <= i < "npm"@.len() implies !char_is_whitespace(
            #[trigger] "npm"@[i],
        ) by {
            assert(i == 0 || i == 1 || i == 2);
        }
    }
    reveal_strlit("npm test");
    reveal_strlit("test");
    assert("npm test"@ =~= "npm"@.push(' ') + "test"@);
    lemma_first_word("npm"@, "test"@);
    assert(ps[4] == "npm test"@);
    reveal_strlit("npm run test");
    reveal_strlit("run test");
    assert("npm run test"@ =~= "npm"@.push(' ') + "run test"@);
    lemma_first_word("npm"@, "run test"@);
    assert(ps[5] == "npm run test"@);
    reveal_strlit("go");
    assert(one_word("go"@)) by {
        assert forall|i: int| 0 <= i < "go"@.len() implies !char_is_whitespace(
            #[trigger] "go"@[i],
        ) by {
            assert(i == 0 || i == 1);
        }
    }
    reveal_strlit("go test");
    reveal_strlit("test");
    assert("go test"@ =~= "go"@.push(' ') + "test"@);
    lemma_first_word("go"@, "test"@);
    assert(ps[6] == "go test"@);
    reveal_strlit("make");
    assert(one_word("make"@)) by {
        assert forall|i: int| 0 <= i < "make"@.len() implies !char_is_whitespace(
            #[trigger] "make"@[i],
        ) by {
            assert(i == 0 || i == 1 || i == 2 || i == 3);
        }
    }
    reveal_strlit("make test");
    reveal_strlit("test");
    assert("make test"@ =~= "make"@.push(' ') + "test"@);
    lemma_first_word("make"@, "test"@);
    assert(ps[7] == "make test"@);
    reveal_strlit("./gradlew");
    assert(one_word("./gradlew"@)) by {
        assert forall|i: int| 0 <= i < "./gradlew"@.len() implies !char_is_whitespace(
            #[trigger] "./gradlew"@[i],
        ) by {
            assert(i == 0 || i == 1 || i == 2 || i == 3 || i == 4 || i == 5 || i == 6 || i == 7 || i == 8);
        }
    }
    reveal_strlit("./gradlew test");
    reveal_strlit("test");
    assert("./gradlew test"@ =~= "./gradlew"@.push(' ') + "test"@);
    lemma_first_word("./gradlew"@, "test"@);
    assert(ps[8] == "./gradlew test"@);
    reveal_strlit("mvn");
    assert(one_word("mvn"@)) by {
        assert forall|i: int| 0 <= i < "mvn"@.len() implies !char_is_whitespace(
            #[trigger] "mvn"@[i],
        ) by {
            assert(i == 0 || i == 1 || i == 2);
        }
    }
    reveal_strlit("mvn test");
    reveal_strlit("test");
    assert("mvn test"@ =~= "mvn"@.push(' ') + "test"@);
    lemma_first_word("mvn"@, "test"@);
    assert(ps[9] == "mvn test"@);
}

/// A command of the shell that is no patch and no edit is one of tests exactly where its first part
/// is a program that tests are run with.
pub proof fn law_which_programs_run_tests(parts: Seq<Seq<char>>)
    requires
        parts.len() > 0,
    ensures
        begins_like_tests(parts) <==> {
            ||| parts[0] == "pytest"@
            ||| parts[0] == "python"@
            ||| parts[0] == "python3"@
            ||| parts[0] == "cargo"@
            ||| parts[0] == "npm"@
            ||| parts[0] == "go"@
            ||| parts[0] == "make"@
            ||| parts[0] == "./gradlew"@
            ||| parts[0] == "mvn"@
        },
{
    lemma_test_words();
    let ps = crate::codex_events::test_patterns();
    assert(ps.len() == 10);
    if begins_like_tests(parts) {
        let i = choose|i: int|
            0 <= i < ps.len() && parts[0] == crate::codex_events::first_word(#[trigger] ps[i]);
        assert(i == 0 || i == 1 || i == 2 || i == 3 || i == 4 || i == 5 || i == 6 || i == 7 || i == 8 || i == 9);
    }
    if parts[0] == "pytest"@ {
        assert(parts[0] == crate::codex_events::first_word(ps[0]));
    }
    if parts[0] == "python"@ {
        assert(parts[0] == crate::codex_events::first_word(ps[1]));
    }
    if parts[0] == "python3"@ {
        assert(parts[0] == crate::codex_events::first_word(ps[2]));
    }
    if parts[0] == "cargo"@ {
        assert(parts[0] == crate::codex_events::first_word(ps[3]));
    }
    if parts[0] == "npm"@ {
        assert(parts[0] == crate::codex_events::first_word(ps[4]));
    }
    if parts[0] == "npm"@ {
        assert(parts[0] == crate::codex_events::first_word(ps[5]));
    }
    if parts[0] == "go"@ {
        assert(parts[0] == crate::codex_events::first_word(ps[6]));
    }
    if parts[0] == "make"@ {
        assert(parts[0] == crate::codex_events::first_word(ps[7]));
    }
    if parts[0] == "./gradlew"@ {
        assert(parts[0] == crate::codex_events::first_word(ps[8]));
    }
    if parts[0] == "mvn"@ {
        assert(parts[0] == crate::codex_events::first_word(ps[9]));
    }
}

/// A command given as a list of texts has those for its parts, and is the parts one behind the
/// other with a blank between them.
pub proof fn law_commands_are_read_from_lists(
    call: CallPair,
    index: u64,
    turn_id: Seq<char>,
    turn_index: u64,
    run_id: Seq<char>,
    table: Seq<(Seq<char>, Seq<char>)>,
    items: Seq<Option<Seq<char>>>,
)
    requires
        call.0.arguments is Some,
        json_items_of(call.0.arguments->0@, "cmd"@) == Some(items),
        items.len() > 0,
        forall|i: int| 0 <= i < items.len() ==> (#[trigger] items[i]) is Some,
    ensures
        ({
            let a = action_of(call, index, turn_id, turn_index, run_id, table);
            &&& a.parts.len() == items.len()
            &&& forall|i: int| 0 <= i < items.len() ==> #[trigger] a.parts[i] == items[i]->0
            &&& a.command == join_seq(a.parts, " "@)
        }),
{
    lemma_texts(items);
}

proof fn lemma_texts(items: Seq<Option<Seq<char>>>)
    requires
        forall|i: int| 0 <= i < items.len() ==> (#[trigger] items[i]) is Some,
    ensures
        crate::codex_events::texts_among(items).len() == items.len(),
        forall|i: int|
            0 <= i < items.len() ==> #[trigger] crate::codex_events::texts_among(items)[i]
                == items[i]->0,
    decreases items.len(),
{
    if items.len() > 0 {
        let rest = items.drop_last();
        assert forall|i: int| 0 <= i < rest.len() implies (#[trigger] rest[i]) is Some by {
            assert(rest[i] == items[i]);
        }
        lemma_texts(rest);
        assert(items[items.len() - 1] is Some);
        assert forall|i: int| 0 <= i < items.len() implies #[trigger]
            crate::codex_events::texts_among(items)[i] == items[i]->0 by {
            if i < rest.len() {
                assert(rest[i] == items[i]);
            }
        }
    }
}

/// Whether the handle stands for the content: by its hash and its size, and with the content
/// itself where that is at most 16 KiB.
pub open spec fn stands_for(h: OutputHandleView, content: Seq<char>) -> bool {
    &&& h.hash == blake3_hex_of(encode_utf8(content))
    &&& encode_utf8(content).len() <= 16384 ==> h.inline == Some(content) && h.bytes
        == encode_utf8(content).len()
    &&& encode_utf8(content).len() > 16384 ==> h.inline is None
}

/// The nodes of a call hold its redacted texts: the command, and what it wrote to either output.
/// A call ended where an exit code is known.
pub proof fn law_calls_keep_their_texts(a: ActionView, c: ImportCtxView)
    ensures
        ({
            let out = action_records(a, c);
            let call = out[0]->Node_0;
            let run = out[2]->Node_0;
            &&& out.len() >= 4 && out[0] is Node && out[2] is Node
            &&& call.text == Some(a.redacted_command)
            &&& call.arguments_summary == Some(a.redacted_command)
            &&& call.arguments_handle is Some && stands_for(
                call.arguments_handle->0,
                a.redacted_command,
            )
            &&& call.tool_name == Some(a.name)
            &&& call.tool_kind == Some(tool_kind(a.name, a.parts))
            &&& call.linked_turn_id == Some(a.turn_id)
            &&& call.finished_at is Some <==> a.exit_code is Some
            &&& run.text == Some(a.redacted_command)
            &&& run.stdout_handle is Some <==> a.redacted_stdout is Some
            &&& run.stderr_handle is Some <==> a.redacted_stderr is Some
            &&& a.redacted_stdout is Some ==> stands_for(
                run.stdout_handle->0,
                a.redacted_stdout->0,
            )
            &&& a.redacted_stderr is Some ==> stands_for(
                run.stderr_handle->0,
                a.redacted_stderr->0,
            )
        }),
{
    reveal(action_records);
    reveal(import_node);
    let all = action_records(a, c);
    let p1 = tool_call_records(a, c);
    let p2 = command_run_records(a, c);
    assert(all[0] == p1[0] && all[2] == p2[0]);
}

proof fn lemma_beginning(s: Seq<char>, max: nat, n: int)
    requires
        0 <= n <= s.len(),
    ensures
        exists|k: int|
            0 <= k <= n && crate::codex::beginning(s, max, n) == #[trigger] s.take(k) && (k == 0
                || encode_utf8(s.take(k)).len() <= max) && forall|j: int|
                k < j <= n ==> encode_utf8(#[trigger] s.take(j)).len() > max,
    decreases n,
{
    if n == 0 {
        assert(s.take(0) =~= Seq::<char>::empty());
    } else if encode_utf8(s.take(n)).len() <= max {
        assert(s.take(n) == crate::codex::beginning(s, max, n));
    } else {
        lemma_beginning(s, max, n - 1);
        let k = choose|k: int|
            0 <= k <= n - 1 && crate::codex::beginning(s, max, n - 1) == #[trigger] s.take(k) && (k
                == 0 || encode_utf8(s.take(k)).len() <= max) && forall|j: int|
                k < j <= n - 1 ==> encode_utf8(#[trigger] s.take(j)).len() > max;
        assert(crate::codex::beginning(s, max, n) == s.take(k));
    }
}

/// Whether the summary is the text, or where that is longer than 500 bytes as much of its
/// beginning as those hold, with a mark behind it.
pub open spec fn summarizes(summary: Seq<char>, text: Seq<char>) -> bool {
    &&& encode_utf8(text).len() <= 500 ==> summary == text
    &&& encode_utf8(text).len() > 500 ==> exists|k: int|
        0 <= k < text.len() && summary == #[trigger] text.take(k) + "…"@ && (k == 0 || encode_utf8(
            text.take(k),
        ).len() <= 500) && forall|j: int|
            k < j <= text.len() ==> encode_utf8(#[trigger] text.take(j)).len() > 500
}

proof fn lemma_summarizes(text: Seq<char>)
    requires
        encode_utf8(text).len() > 500,
    ensures
        summarizes(crate::codex::cut(text, 500) + "…"@, text),
{
    lemma_beginning(text, 500, text.len() as int);
    let k = choose|k: int|
        0 <= k <= text.len() && crate::codex::beginning(text, 500, text.len() as int)
            == #[trigger] text.take(k) && (k == 0 || encode_utf8(text.take(k)).len() <= 500)
            && forall|j: int|
            k < j <= text.len() ==> encode_utf8(#[trigger] text.take(j)).len() > 500;
    assert(text.take(text.len() as int) =~= text);
    if k == text.len() {
        assert(text.len() == 0);
        assert(text =~= Seq::<char>::empty());
        assert(encode_utf8(text).len() == 0);
    }
    assert(crate::codex::cut(text, 500) + "…"@ == text.take(k) + "…"@);
}

/// The summary of a call is of what it wrote: to both outputs, on lines of their own, or to the
/// one that it wrote to.
pub proof fn law_calls_are_summed_up(
    call: CallPair,
    index: u64,
    turn_id: Seq<char>,
    turn_index: u64,
    run_id: Seq<char>,
    table: Seq<(Seq<char>, Seq<char>)>,
)
    ensures
        ({
            let a = action_of(call, index, turn_id, turn_index, run_id, table);
            let o = a.stdout->0;
            let e = a.stderr->0;
            &&& a.stdout is Some && a.stderr is Some && e.len() > 0 ==> summarizes(
                a.raw_summary,
                o + "\n"@ + e,
            )
            &&& a.stdout is Some && a.stderr is None ==> summarizes(a.raw_summary, o)
            &&& a.stdout is None && a.stderr is Some ==> summarizes(a.raw_summary, e)
            &&& a.summary == redacted(table, a.raw_summary)
            &&& a.verified_summary == redacted(table, a.summary)
        }),
{
    let a = action_of(call, index, turn_id, turn_index, run_id, table);
    let o = a.stdout->0;
    let e = a.stderr->0;
    if a.stdout is Some && a.stderr is Some && e.len() > 0 {
        if encode_utf8(o + "\n"@ + e).len() > 500 {
            lemma_summarizes(o + "\n"@ + e);
        }
    } else if a.stdout is Some && a.stderr is None {
        if encode_utf8(o).len() > 500 {
            lemma_summarizes(o);
        }
    } else if a.stdout is None && a.stderr is Some {
        if encode_utf8(e).len() > 500 {
            lemma_summarizes(e);
        }
    }
}

/// What went wrong in a session is told in diagnostics of its run: an interruption with its reason
/// and its time, a line that is no event with its number, and a field that is missing with its
/// name and line.
pub proof fn law_diagnostics_say_what_went_wrong(
    index: u64,
    i: CodexInterrupted,
    line: usize,
    field: Seq<char>,
    run_id: Seq<char>,
    c: ImportCtxView,
)
    ensures
        ({
            let a = interruption_records(index, i, run_id, c);
            let b = unknown_records(line, run_id, c);
            let d = gap_records(line, field, run_id, c);
            &&& diagnoses(a, run_id) && diagnoses(b, run_id) && diagnoses(d, run_id)
            &&& i.reason is Some ==> a[0]->Node_0.summary == "Interrupted: reason="@ + i.reason->0@
            &&& i.reason is None ==> a[0]->Node_0.summary == "Interrupted: reason="@ + "unknown"@
            &&& i.at is Some ==> a[0]->Node_0.observed_at == Some(i.at->0@)
            &&& i.at is None ==> a[0]->Node_0.observed_at == Some(c.default_timestamp)
            &&& b[0]->Node_0.summary == "Unrecognized or malformed event at line "@ + decimal_seq(
                line as nat,
            )
            &&& d[0]->Node_0.summary == "Missing expected field "@ + field + " at line "@
                + decimal_seq(line as nat)
        }),
{
    reveal(import_node);
    reveal(import_edge);
}

/// Whether the records are a diagnostic and the edge that gives it to the run.
pub open spec fn diagnoses(out: Seq<RecordView>, run_id: Seq<char>) -> bool {
    &&& out.len() == 2 && out[0] is Node && out[0]->Node_0.kind == NodeKind::Diagnostic
    &&& out[1] is Edge && out[1]->Edge_0.label == EdgeLabel::AuthoredBy && out[1]->Edge_0.source
        == out[0]->Node_0.id && out[1]->Edge_0.target == run_id
}

/// The tokens that a turn took, nil where the number is not told.
pub open spec fn told_tokens(n: Option<u64>) -> nat {
    if n is Some {
        n->0 as nat
    } else {
        0
    }
}

/// What a turn took is told in a node of its own: the tokens that went in, those that came out and
/// all of them.
pub proof fn law_usage_is_told(u: CodexUsage, turn_id: Seq<char>, turn_index: u64, c: ImportCtxView)
    ensures
        ({
            let out = cost_records(u, turn_id, turn_index, c);
            let n = out[0]->Node_0;
            &&& out.len() == 2 && out[0] is Node && n.kind == NodeKind::CostUsage
            &&& n.linked_turn_id == Some(turn_id)
            &&& n.summary == "CostUsage turn="@ + decimal_seq(turn_index as nat) + " input="@
                + decimal_seq(told_tokens(u.input_tokens)) + " output="@ + decimal_seq(
                told_tokens(u.output_tokens),
            ) + " total="@ + decimal_seq(told_tokens(u.total_tokens))
            &&& u.input_tokens is Some && u.output_tokens is Some && u.total_tokens is Some
                ==> n.text == Some(
                "{\"input_tokens\":"@ + decimal_seq(u.input_tokens->0 as nat)
                    + ",\"output_tokens\":"@ + decimal_seq(u.output_tokens->0 as nat)
                    + ",\"total_tokens\":"@ + decimal_seq(u.total_tokens->0 as nat) + "}"@,
            )
            &&& out[1] is Edge && out[1]->Edge_0.label == EdgeLabel::AuthoredBy
                && out[1]->Edge_0.source == n.id && out[1]->Edge_0.target == turn_id
        }),
{
    reveal(import_node);
    reveal(import_edge);
}

/// The nodes of a call say where they are from: which agent made them, in which file with which
/// hash they were found, and when; those without a time of their own have that of the session.
pub proof fn law_nodes_say_where_they_are_from(a: ActionView, c: ImportCtxView)
    ensures
        ({
            let call = action_records(a, c)[0]->Node_0;
            let run = action_records(a, c)[2]->Node_0;
            &&& call.agent_kind == Some("codex"@) && run.agent_kind == Some("codex"@)
            &&& call.source_handle == Some(
                c.source_artifact_path + ":"@ + c.source_artifact_hash,
            )
            &&& run.source_handle == call.source_handle
            &&& call.observed_at == Some(c.default_timestamp) && call.ingested_at == Some(
                c.default_timestamp,
            ) && call.started_at == Some(c.default_timestamp)
            &&& run.observed_at == Some(c.default_timestamp) && run.ingested_at == Some(
                c.default_timestamp,
            )
            &&& call.session_id == Some(c.session_id) && run.session_id == Some(c.session_id)
            &&& call.source_artifact_path == Some(c.source_artifact_path)
            &&& call.source_artifact_hash == Some(c.source_artifact_hash)
            &&& a.exit_code is Some ==> call.finished_at == Some(c.default_timestamp)
        }),
{
    reveal(action_records);
    reveal(import_node);
    let all = action_records(a, c);
    let p1 = tool_call_records(a, c);
    let p2 = command_run_records(a, c);
    assert(all[0] == p1[0] && all[2] == p2[0]);
}

/// A session is named after its kind and the first 16 characters of the hash of its file.
pub proof fn law_sessions_are_named_after_their_file(f: SessionFlavor, hash: Seq<char>, path: Seq<char>)
    requires
        hash.len() >= 16,
    ensures
        ({
            let n = head_records(f, import_ctx(hash, path, f))[0]->Node_0;
            &&& n.name == Some(n.summary)
            &&& f is Session ==> n.summary == "AgentSession codex-"@ + "session"@ + " "@ + hash.take(
                16,
            )
            &&& f is Rollout ==> n.summary == "AgentSession codex-"@ + "rollout"@ + " "@ + hash.take(
                16,
            )
            &&& f is Unknown ==> n.summary == "AgentSession codex-"@ + "unknown"@ + " "@ + hash.take(
                16,
            )
        }),
{
    reveal(head_records);
    reveal(import_node);
    assert(hash.len() == 16 ==> hash.take(16) =~= hash);
}

/// A turn failed as one that was broken off exactly where its message is incomplete and it made no
/// call.
pub proof fn law_broken_off_turns(turn_id: Seq<char>, t: TurnView, c: ImportCtxView)
    ensures
        ({
            let out = aborted_records(turn_id, t, c);
            let off = t.message.status is Some && t.message.status->0@ == "incomplete"@
                && t.tool_calls.len() == 0;
            &&& off ==> out.len() == 2 && out[0] is Node && out[0]->Node_0.kind
                == NodeKind::Failure && out[0]->Node_0.failure_kind == Some("aborted_turn"@)
                && out[1] is Edge && out[1]->Edge_0.target == turn_id
            &&& !off ==> out.len() == 0
        }),
{
    reveal(import_node);
    reveal(import_edge);
}

} // verus!
