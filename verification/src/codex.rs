//! The records that a session of a coding agent becomes.

use vstd::prelude::*;
use vstd::string::*;
use vstd::utf8::{encode_scalar, encode_utf8};

use crate::codex_events::{
    applies_patch, command_parts, command_text, edits_file, extract_cmd_parts,
    extract_command_from_arguments, extract_target_file_from_parts, gap_views, gaps_of,
    group_events, grouped, is_file_edit_command_parts, is_patch_command_parts, is_test_command,
    last_file, law_absent_fields_are_noted, parse_output_field, parsed_output, runs_tests, tokens,
    tool_kind, tool_kind_for, turn_views, CallPair, CodexEvent, CodexFunctionCall,
    CodexFunctionCallOutput, CodexInterrupted, CodexUsage, GroupedEvents, GroupedView,
    ParsedOutput, ParsedOutputView, SessionFlavor, TurnData, TurnView,
};
use crate::evidence_synthesis::{agent_memory_edge_id, memory_edge_id};
use crate::ir::{
    blank_node, lemma_shown_none, lemma_shown_push, record_views, shown,
    AGENT_MEMORY_SCHEMA_VERSION, EdgeLabel, EdgeRecord, EdgeView, GraphRecord, NodeKind,
    NodeRecord, NodeView, OutputHandle, OutputHandleView, RecordView,
};
use crate::keys::{hash_text, lemma_utf8_concat, text_hash};
use crate::outside::{blake3_hex, blake3_hex_of, json_items_of};
use crate::requests::{agent_memory_stable_id, memory_id};
use crate::text::{
    byte_len, chars_of, concat2, concat3, concat4, concat6, concat7, decimal, decimal_seq,
    decimal_wide, opt_clone, opt_is, opt_view, push_line, str_eq, str_views, string_of, views,
};

verus! {

/// What names this importer in every record that it makes.
pub const IMPORTER_ID: &'static str = "codex-jsonl";

/// The version of this importer.
pub const IMPORTER_VERSION: &'static str = "0.1.0";

/// The domain of every record that this importer makes.
pub const DOMAIN: &'static str = "agent_memory";

/// The version of the format that is read.
pub const SOURCE_FORMAT_VERSION: &'static str = "codex-cli-1.0";

/// The time of what has none.
pub const DEFAULT_TIMESTAMP: &'static str = "1970-01-01T00:00:00Z";

/// The longest content, in bytes, that a handle holds itself.
pub const INLINE_PAYLOAD_CEILING: u64 = crate::record_rules::INLINE_PAYLOAD_CEILING;

/// The longest summary of an output, in bytes, before what marks that it was cut.
pub const SUMMARY_CEILING: u64 = 500;

/// Where the records of an import come from.
#[derive(Clone, Debug, PartialEq, Eq)]
pub struct ImportCtx {
    /// The path of the artifact.
    pub source_artifact_path: String,
    /// The hash of its bytes.
    pub source_artifact_hash: String,
    /// The identifier of the session.
    pub session_id: String,
    /// The time of what has none of its own.
    pub default_timestamp: String,
}

/// The view of a [`ImportCtx`].
#[verifier::ext_equal]
pub struct ImportCtxView {
    pub source_artifact_path: Seq<char>,
    pub source_artifact_hash: Seq<char>,
    pub session_id: Seq<char>,
    pub default_timestamp: Seq<char>,
}

impl View for ImportCtx {
    type V = ImportCtxView;

    open spec fn view(&self) -> ImportCtxView {
        ImportCtxView {
            source_artifact_path: self.source_artifact_path@,
            source_artifact_hash: self.source_artifact_hash@,
            session_id: self.session_id@,
            default_timestamp: self.default_timestamp@,
        }
    }
}

/// What a node has besides what every node of an import has.
#[derive(Clone, Debug, PartialEq, Eq)]
pub struct NodeExtra {
    pub repo_relative_path: Option<String>,
    pub observed_at: Option<String>,
    pub agent_kind: Option<String>,
    pub text: Option<String>,
    pub patch_status: Option<String>,
    pub failure_kind: Option<String>,
    pub exit_code: Option<i64>,
    pub turn_index: Option<u64>,
    pub edit_kind: Option<String>,
    pub before_hash: Option<String>,
    pub after_hash: Option<String>,
    pub hunk_count: Option<u32>,
    pub linked_turn_id: Option<String>,
    pub tool_name: Option<String>,
    pub tool_kind: Option<String>,
    pub arguments_summary: Option<String>,
    pub arguments_handle: Option<OutputHandle>,
    pub started_at: Option<String>,
    pub finished_at: Option<String>,
    pub status: Option<String>,
    pub stdout_handle: Option<OutputHandle>,
    pub stderr_handle: Option<OutputHandle>,
}

/// The view of a [`NodeExtra`].
#[verifier::ext_equal]
pub struct NodeExtraView {
    pub repo_relative_path: Option<Seq<char>>,
    pub observed_at: Option<Seq<char>>,
    pub agent_kind: Option<Seq<char>>,
    pub text: Option<Seq<char>>,
    pub patch_status: Option<Seq<char>>,
    pub failure_kind: Option<Seq<char>>,
    pub exit_code: Option<i64>,
    pub turn_index: Option<u64>,
    pub edit_kind: Option<Seq<char>>,
    pub before_hash: Option<Seq<char>>,
    pub after_hash: Option<Seq<char>>,
    pub hunk_count: Option<u32>,
    pub linked_turn_id: Option<Seq<char>>,
    pub tool_name: Option<Seq<char>>,
    pub tool_kind: Option<Seq<char>>,
    pub arguments_summary: Option<Seq<char>>,
    pub arguments_handle: Option<OutputHandleView>,
    pub started_at: Option<Seq<char>>,
    pub finished_at: Option<Seq<char>>,
    pub status: Option<Seq<char>>,
    pub stdout_handle: Option<OutputHandleView>,
    pub stderr_handle: Option<OutputHandleView>,
}

impl View for NodeExtra {
    type V = NodeExtraView;

    open spec fn view(&self) -> NodeExtraView {
        NodeExtraView {
            repo_relative_path: opt_view(self.repo_relative_path),
            observed_at: opt_view(self.observed_at),
            agent_kind: opt_view(self.agent_kind),
            text: opt_view(self.text),
            patch_status: opt_view(self.patch_status),
            failure_kind: opt_view(self.failure_kind),
            exit_code: self.exit_code,
            turn_index: self.turn_index,
            edit_kind: opt_view(self.edit_kind),
            before_hash: opt_view(self.before_hash),
            after_hash: opt_view(self.after_hash),
            hunk_count: self.hunk_count,
            linked_turn_id: opt_view(self.linked_turn_id),
            tool_name: opt_view(self.tool_name),
            tool_kind: opt_view(self.tool_kind),
            arguments_summary: opt_view(self.arguments_summary),
            arguments_handle: match self.arguments_handle {
                Some(x) => Some(x@),
                None => None,
            },
            started_at: opt_view(self.started_at),
            finished_at: opt_view(self.finished_at),
            status: opt_view(self.status),
            stdout_handle: match self.stdout_handle {
                Some(x) => Some(x@),
                None => None,
            },
            stderr_handle: match self.stderr_handle {
                Some(x) => Some(x@),
                None => None,
            },
        }
    }
}

/// Nothing more.
pub open spec fn no_extra() -> NodeExtraView {
    NodeExtraView {
        repo_relative_path: None,
        observed_at: None,
        agent_kind: None,
        text: None,
        patch_status: None,
        failure_kind: None,
        exit_code: None,
        turn_index: None,
        edit_kind: None,
        before_hash: None,
        after_hash: None,
        hunk_count: None,
        linked_turn_id: None,
        tool_name: None,
        tool_kind: None,
        arguments_summary: None,
        arguments_handle: None,
        started_at: None,
        finished_at: None,
        status: None,
        stdout_handle: None,
        stderr_handle: None,
    }
}

impl NodeExtra {
    /// Nothing more.
    pub fn blank() -> (r: NodeExtra)
        ensures
            r@ == no_extra(),
    {
        NodeExtra {
            repo_relative_path: None,
            observed_at: None,
            agent_kind: None,
            text: None,
            patch_status: None,
            failure_kind: None,
            exit_code: None,
            turn_index: None,
            edit_kind: None,
            before_hash: None,
            after_hash: None,
            hunk_count: None,
            linked_turn_id: None,
            tool_name: None,
            tool_kind: None,
            arguments_summary: None,
            arguments_handle: None,
            started_at: None,
            finished_at: None,
            status: None,
            stdout_handle: None,
            stderr_handle: None,
        }
    }
}

/// The call of a tool, read.
#[derive(Clone, Debug, PartialEq, Eq)]
pub struct ToolAction {
    /// The node of the turn.
    pub turn_id: String,
    /// The place of the turn.
    pub turn_index: u64,
    /// The place of the call in the turn.
    pub index: u64,
    /// The node of the run.
    pub run_id: String,
    /// The name of the tool.
    pub name: String,
    /// The parts of the command.
    pub parts: Vec<String>,
    /// The command.
    pub command: String,
    /// The command, redacted.
    pub redacted_command: String,
    /// The exit code, where one came.
    pub exit_code: Option<i64>,
    /// The standard output.
    pub stdout: Option<String>,
    /// The standard error.
    pub stderr: Option<String>,
    /// The standard output, redacted.
    pub redacted_stdout: Option<String>,
    /// The standard error, redacted.
    pub redacted_stderr: Option<String>,
    /// The summary of the output.
    pub raw_summary: String,
    /// The summary of the output, redacted.
    pub summary: String,
    /// The summary of the output, redacted once more.
    pub verified_summary: String,
}

/// The view of a [`ToolAction`].
#[verifier::ext_equal]
pub struct ActionView {
    pub turn_id: Seq<char>,
    pub turn_index: u64,
    pub index: u64,
    pub run_id: Seq<char>,
    pub name: Seq<char>,
    pub parts: Seq<Seq<char>>,
    pub command: Seq<char>,
    pub redacted_command: Seq<char>,
    pub exit_code: Option<i64>,
    pub stdout: Option<Seq<char>>,
    pub stderr: Option<Seq<char>>,
    pub redacted_stdout: Option<Seq<char>>,
    pub redacted_stderr: Option<Seq<char>>,
    pub raw_summary: Seq<char>,
    pub summary: Seq<char>,
    pub verified_summary: Seq<char>,
}

impl View for ToolAction {
    type V = ActionView;

    open spec fn view(&self) -> ActionView {
        ActionView {
            turn_id: self.turn_id@,
            turn_index: self.turn_index,
            index: self.index,
            run_id: self.run_id@,
            name: self.name@,
            parts: views(self.parts@),
            command: self.command@,
            redacted_command: self.redacted_command@,
            exit_code: self.exit_code,
            stdout: opt_view(self.stdout),
            stderr: opt_view(self.stderr),
            redacted_stdout: opt_view(self.redacted_stdout),
            redacted_stderr: opt_view(self.redacted_stderr),
            raw_summary: self.raw_summary@,
            summary: self.summary@,
            verified_summary: self.verified_summary@,
        }
    }
}

// ---------------------------------------------------------------------------
// Redaction
// ---------------------------------------------------------------------------

/// How an import treats free text.
#[derive(Clone, Debug, PartialEq, Eq)]
pub struct ImportOptions {
    /// Texts and what stands for each of them. A text that is not listed stands for
    /// itself.
    pub redactions: Vec<(String, String)>,
}

/// The views of pairs of texts.
pub open spec fn pair_views(s: Seq<(String, String)>) -> Seq<(Seq<char>, Seq<char>)> {
    s.map_values(|x: (String, String)| (x.0@, x.1@))
}

impl View for ImportOptions {
    type V = Seq<(Seq<char>, Seq<char>)>;

    open spec fn view(&self) -> Seq<(Seq<char>, Seq<char>)> {
        pair_views(self.redactions@)
    }
}

impl Default for ImportOptions {
    fn default() -> (r: ImportOptions)
        ensures
            r@.len() == 0,
    {
        ImportOptions { redactions: Vec::new() }
    }
}

/// What stands for a text: what the first pair from the `i`-th on that lists it gives,
/// or the text itself.
pub open spec fn redacted_from(
    table: Seq<(Seq<char>, Seq<char>)>,
    text: Seq<char>,
    i: int,
) -> Seq<char>
    decreases table.len() - i,
{
    if i < 0 || i >= table.len() {
        text
    } else if table[i].0 == text {
        table[i].1
    } else {
        redacted_from(table, text, i + 1)
    }
}

/// What stands for a text.
pub open spec fn redacted(table: Seq<(Seq<char>, Seq<char>)>, text: Seq<char>) -> Seq<char> {
    redacted_from(table, text, 0)
}

/// What stands for a text.
pub fn redact(value: &str, opts: &ImportOptions) -> (r: String)
    ensures
        r@ == redacted(opts@, value@),
{
    let mut i: usize = 0;
    while i < opts.redactions.len()
        invariant
            i <= opts.redactions@.len(),
            redacted(opts@, value@) == redacted_from(opts@, value@, i as int),
        decreases opts.redactions@.len() - i,
    {
        assert(opts@[i as int] == (opts.redactions@[i as int].0@, opts.redactions@[i as int].1@));
        if str_eq(opts.redactions[i].0.as_str(), value) {
            return opts.redactions[i].1.clone();
        }
        i = i + 1;
    }
    assert(opts@.len() == opts.redactions@.len());
    value.to_string()
}

/// What stands for a text, where there is one.
pub open spec fn opt_redacted(
    table: Seq<(Seq<char>, Seq<char>)>,
    text: Option<Seq<char>>,
) -> Option<Seq<char>> {
    match text {
        Some(x) => Some(redacted(table, x)),
        None => None,
    }
}

fn redact_opt(value: &Option<String>, opts: &ImportOptions) -> (r: Option<String>)
    ensures
        opt_view(r) == opt_redacted(opts@, opt_view(*value)),
{
    match value {
        Some(x) => Some(redact(x.as_str(), opts)),
        None => None,
    }
}

// ---------------------------------------------------------------------------
// Outputs
// ---------------------------------------------------------------------------

/// How many bytes a text has.
pub open spec fn width(s: Seq<char>) -> nat {
    encode_utf8(s).len()
}

/// The longest beginning of the first `n` characters of a text that has no more than
/// so many bytes.
pub open spec fn beginning(s: Seq<char>, max: nat, n: int) -> Seq<char>
    decreases n,
{
    if n <= 0 {
        Seq::empty()
    } else if width(s.take(n)) <= max {
        s.take(n)
    } else {
        beginning(s, max, n - 1)
    }
}

/// The longest beginning of a text that has no more than so many bytes.
pub open spec fn cut(s: Seq<char>, max: nat) -> Seq<char> {
    beginning(s, max, s.len() as int)
}

fn char_bytes(c: char) -> (n: u64)
    ensures
        n == encode_scalar(c as u32).len(),
        1 <= n <= 4,
{
    let v: u32 = c as u32;
    if v <= 0x7f {
        1
    } else if v <= 0x7ff {
        2
    } else if v <= 0xffff {
        3
    } else {
        4
    }
}

proof fn lemma_width_push(s: Seq<char>, k: int)
    requires
        0 <= k < s.len(),
    ensures
        width(s.take(k + 1)) == width(s.take(k)) + encode_scalar(s[k] as u32).len(),
{
    let one = seq![s[k]];
    assert(s.take(k + 1) =~= s.take(k) + one);
    lemma_utf8_concat(s.take(k), one);
    assert(one.drop_first() =~= Seq::<char>::empty());
    assert(encode_utf8(one) =~= encode_scalar(s[k] as u32) + encode_utf8(one.drop_first()));
    assert(encode_utf8(Seq::<char>::empty()).len() == 0);
}

proof fn lemma_width_grows(s: Seq<char>, k: int, n: int)
    requires
        0 <= k <= n <= s.len(),
    ensures
        width(s.take(k)) <= width(s.take(n)),
    decreases n - k,
{
    if k < n {
        lemma_width_push(s, k);
        lemma_width_grows(s, k + 1, n);
    }
}

proof fn lemma_beginning(s: Seq<char>, max: nat, k: int, n: int)
    requires
        0 <= k <= n <= s.len(),
        width(s.take(k)) <= max,
        k == s.len() || width(s.take(k + 1)) > max,
    ensures
        beginning(s, max, n) == s.take(k),
    decreases n - k,
{
    if n == k {
        if k == 0 {
            assert(s.take(0) =~= Seq::<char>::empty());
        }
    } else {
        lemma_width_grows(s, k + 1, n);
        lemma_beginning(s, max, k, n - 1);
    }
}

/// The longest beginning of a text that has no more than so many bytes.
pub fn safe_truncate(s: &str, max_bytes: u64) -> (r: String)
    ensures
        r@ == cut(s@, max_bytes as nat),
{
    let chars = chars_of(s);
    let mut k: usize = 0;
    let mut used: u64 = 0;
    assert(s@.take(0) =~= Seq::<char>::empty());
    while k < chars.len()
        invariant
            k <= chars@.len(),
            chars@ == s@,
            used == width(s@.take(k as int)),
            used <= max_bytes,
        decreases chars@.len() - k,
    {
        let more = char_bytes(chars[k]);
        proof {
            lemma_width_push(s@, k as int);
        }
        if more > max_bytes - used {
            proof {
                lemma_beginning(s@, max_bytes as nat, k as int, s@.len() as int);
            }
            let t = string_of(&chars, 0, k);
            assert(t@ =~= s@.take(k as int));
            return t;
        }
        used = used + more;
        k = k + 1;
    }
    proof {
        lemma_beginning(s@, max_bytes as nat, k as int, s@.len() as int);
        assert(s@.take(k as int) =~= s@);
    }
    s.to_string()
}

/// What a command wrote: the standard output, and behind a line feed the standard
/// error where there is any; a text that is longer than the ceiling is cut and ends in
/// an ellipsis.
pub open spec fn summary_text(stdout: Option<Seq<char>>, stderr: Option<Seq<char>>) -> Seq<char> {
    let combined = match (stdout, stderr) {
        (Some(o), Some(e)) => if e.len() > 0 {
            o + "\n"@ + e
        } else {
            o
        },
        (Some(o), None) => o,
        (None, Some(e)) => e,
        (None, None) => ""@,
    };
    if width(combined) > SUMMARY_CEILING {
        cut(combined, SUMMARY_CEILING as nat) + "…"@
    } else {
        combined
    }
}

fn raw_output_summary(stdout: &Option<String>, stderr: &Option<String>) -> (r: String)
    ensures
        r@ == summary_text(opt_view(*stdout), opt_view(*stderr)),
{
    let combined = match (stdout, stderr) {
        (Some(o), Some(e)) => {
            proof {
                reveal_strlit("");
                if e@.len() == 0 {
                    assert(e@ =~= ""@);
                }
            }
            if !str_eq(e.as_str(), "") {
                concat3(o.as_str(), "\n", e.as_str())
            } else {
                o.clone()
            }
        },
        (Some(o), None) => o.clone(),
        (None, Some(e)) => e.clone(),
        (None, None) => "".to_string(),
    };
    if byte_len(combined.as_str()) as u64 > SUMMARY_CEILING {
        let t = safe_truncate(combined.as_str(), SUMMARY_CEILING);
        concat2(t.as_str(), "…")
    } else {
        combined
    }
}

/// What a command wrote, cut and redacted.
pub fn build_output_summary(
    stdout: &Option<String>,
    stderr: &Option<String>,
    opts: &ImportOptions,
) -> (r: String)
    ensures
        r@ == redacted(opts@, summary_text(opt_view(*stdout), opt_view(*stderr))),
{
    let raw = raw_output_summary(stdout, stderr);
    redact(raw.as_str(), opts)
}

/// How a call ended.
pub open spec fn status_of(exit_code: Option<i64>) -> Seq<char> {
    match exit_code {
        Some(c) => if c == 0 {
            "succeeded"@
        } else {
            "failed"@
        },
        None => "unknown"@,
    }
}

/// How a call ended.
pub fn tool_status(exit_code: Option<i64>) -> (r: &'static str)
    ensures
        r@ == status_of(exit_code),
{
    match exit_code {
        Some(c) => if c == 0 {
            "succeeded"
        } else {
            "failed"
        },
        None => "unknown",
    }
}

/// The hash that stands for a file before or after a command, which the artifact does
/// not hold.
pub open spec fn surrogate(
    hash: Seq<char>,
    target: Seq<char>,
    phase: Seq<char>,
    cmd: Seq<char>,
) -> Seq<char> {
    text_hash(
        "codex-importer-v1\0"@ + hash + "\0"@ + target + "\0"@ + phase + "\0"@ + cmd,
    )
}

/// The hash that stands for a file before or after a command.
pub fn surrogate_hash(ctx: &ImportCtx, target: &str, phase: &str, cmd: &str) -> (r: String)
    ensures
        r@ == surrogate(ctx@.source_artifact_hash, target@, phase@, cmd@),
{
    let head = concat7(
        "codex-importer-v1\0",
        ctx.source_artifact_hash.as_str(),
        "\0",
        target,
        "\0",
        phase,
        "\0",
    );
    let whole = concat2(head.as_str(), cmd);
    proof {
        assert(whole@ =~= "codex-importer-v1\0"@ + ctx@.source_artifact_hash + "\0"@ + target@
            + "\0"@ + phase@ + "\0"@ + cmd@);
    }
    hash_text(whole.as_str())
}

/// The handle of a content: its hash and its length, and the content itself where that
/// is not over the ceiling.
pub open spec fn handle_of(content: Seq<char>) -> OutputHandleView {
    OutputHandleView {
        inline: if width(content) <= INLINE_PAYLOAD_CEILING {
            Some(content)
        } else {
            None
        },
        hash: text_hash(content),
        bytes: width(content) as u64,
    }
}

/// The handle of a content.
pub fn output_handle(content: &str) -> (r: OutputHandle)
    ensures
        r@ == handle_of(content@),
{
    let bytes: u64 = byte_len(content) as u64;
    OutputHandle {
        inline: if bytes <= INLINE_PAYLOAD_CEILING {
            Some(content.to_string())
        } else {
            None
        },
        hash: hash_text(content),
        bytes,
    }
}

/// The handle of a content, where there is one.
pub open spec fn opt_handle(content: Option<Seq<char>>) -> Option<OutputHandleView> {
    match content {
        Some(x) => Some(handle_of(x)),
        None => None,
    }
}

fn opt_output_handle(content: &Option<String>) -> (r: Option<OutputHandle>)
    ensures
        (match r {
            Some(x) => Some(x@),
            None => None,
        }) == opt_handle(opt_view(*content)),
{
    match content {
        Some(x) => Some(output_handle(x.as_str())),
        None => None,
    }
}

/// An integer in decimal, with its sign where it is negative.
pub open spec fn signed_seq(n: int) -> Seq<char> {
    if n < 0 {
        "-"@ + decimal_seq((-n) as nat)
    } else {
        decimal_seq(n as nat)
    }
}

/// An integer in decimal.
pub fn signed_decimal(n: i64) -> (r: String)
    ensures
        r@ == signed_seq(n as int),
{
    if n < 0 {
        let m: u128 = (-(n as i128)) as u128;
        concat2("-", decimal_wide(m).as_str())
    } else {
        decimal(n as u64)
    }
}

// ---------------------------------------------------------------------------
// Nodes and edges
// ---------------------------------------------------------------------------

/// The first text, or else the second.
pub open spec fn text_or(a: Option<Seq<char>>, b: Seq<char>) -> Seq<char> {
    match a {
        Some(x) => x,
        None => b,
    }
}

fn string_or(a: &Option<String>, b: &str) -> (r: String)
    ensures
        r@ == text_or(opt_view(*a), b@),
{
    match a {
        Some(x) => x.clone(),
        None => b.to_string(),
    }
}

/// A node of an import.
#[verifier::opaque]
pub open spec fn import_node(
    id: Seq<char>,
    kind: NodeKind,
    summary: Seq<char>,
    c: ImportCtxView,
    x: NodeExtraView,
) -> NodeView {
    NodeView {
        name: if kind == NodeKind::AgentSession {
            Some(summary)
        } else {
            None
        },
        repo_relative_path: x.repo_relative_path,
        text: x.text,
        agent_id: Some(IMPORTER_ID@),
        agent_kind: Some(text_or(x.agent_kind, "codex"@)),
        session_id: Some(c.session_id),
        observed_at: Some(text_or(x.observed_at, c.default_timestamp)),
        ingested_at: Some(c.default_timestamp),
        source_handle: Some(c.source_artifact_path + ":"@ + c.source_artifact_hash),
        domain: Some(DOMAIN@),
        importer_id: Some(IMPORTER_ID@),
        importer_version: Some(IMPORTER_VERSION@),
        source_artifact_path: Some(c.source_artifact_path),
        source_artifact_hash: Some(c.source_artifact_hash),
        patch_status: x.patch_status,
        edit_kind: x.edit_kind,
        before_hash: x.before_hash,
        after_hash: x.after_hash,
        hunk_count: x.hunk_count,
        linked_turn_id: x.linked_turn_id,
        tool_name: x.tool_name,
        tool_kind: x.tool_kind,
        arguments_summary: x.arguments_summary,
        arguments_handle: x.arguments_handle,
        started_at: Some(text_or(x.started_at, c.default_timestamp)),
        finished_at: x.finished_at,
        failure_kind: x.failure_kind,
        exit_code: x.exit_code,
        turn_index: x.turn_index,
        stdout_handle: x.stdout_handle,
        stderr_handle: x.stderr_handle,
        status: x.status,
        ..blank_node(id, kind, AGENT_MEMORY_SCHEMA_VERSION, summary)
    }
}

/// Makes a node of an import.
pub fn make_node(
    id: String,
    kind: NodeKind,
    summary: String,
    ctx: &ImportCtx,
    extra: NodeExtra,
) -> (r: GraphRecord)
    ensures
        shown(r) == RecordView::Node(import_node(id@, kind, summary@, ctx@, extra@)),
{
    let ghost x = extra@;
    let ghost idv = id@;
    let ghost sumv = summary@;
    let is_session = match kind {
        NodeKind::AgentSession => true,
        _ => false,
    };
    let name: Option<String> = if is_session {
        Some(summary.clone())
    } else {
        None
    };
    let mut n = NodeRecord::blank(id, kind, AGENT_MEMORY_SCHEMA_VERSION, summary);
    n.name = name;
    n.agent_id = Some(IMPORTER_ID.to_string());
    n.agent_kind = Some(string_or(&extra.agent_kind, "codex"));
    n.session_id = Some(ctx.session_id.clone());
    n.observed_at = Some(string_or(&extra.observed_at, ctx.default_timestamp.as_str()));
    n.ingested_at = Some(ctx.default_timestamp.clone());
    n.source_handle = Some(
        concat3(ctx.source_artifact_path.as_str(), ":", ctx.source_artifact_hash.as_str()),
    );
    n.domain = Some(DOMAIN.to_string());
    n.importer_id = Some(IMPORTER_ID.to_string());
    n.importer_version = Some(IMPORTER_VERSION.to_string());
    n.source_artifact_path = Some(ctx.source_artifact_path.clone());
    n.source_artifact_hash = Some(ctx.source_artifact_hash.clone());
    n.started_at = Some(string_or(&extra.started_at, ctx.default_timestamp.as_str()));
    n.repo_relative_path = extra.repo_relative_path;
    n.text = extra.text;
    n.patch_status = extra.patch_status;
    n.edit_kind = extra.edit_kind;
    n.before_hash = extra.before_hash;
    n.after_hash = extra.after_hash;
    n.hunk_count = extra.hunk_count;
    n.linked_turn_id = extra.linked_turn_id;
    n.tool_name = extra.tool_name;
    n.tool_kind = extra.tool_kind;
    n.arguments_summary = extra.arguments_summary;
    n.arguments_handle = extra.arguments_handle;
    n.finished_at = extra.finished_at;
    n.failure_kind = extra.failure_kind;
    n.exit_code = extra.exit_code;
    n.turn_index = extra.turn_index;
    n.stdout_handle = extra.stdout_handle;
    n.stderr_handle = extra.stderr_handle;
    n.status = extra.status;
    proof {
        reveal(import_node);
        reveal(shown);
        assert(n@ =~= import_node(idv, kind, sumv, ctx@, x));
    }
    GraphRecord::Node(n)
}

/// An edge of an import.
#[verifier::opaque]
pub open spec fn import_edge(
    label: EdgeLabel,
    source: Seq<char>,
    target: Seq<char>,
    summary: Seq<char>,
) -> EdgeView {
    EdgeView {
        rest: None,
        id: memory_edge_id(label, source, target),
        schema_version: AGENT_MEMORY_SCHEMA_VERSION,
        label,
        source,
        target,
        confidence: None,
        resolution: None,
        temporal: None,
        summary,
    }
}

/// Makes an edge of an import.
pub fn make_edge(label: EdgeLabel, source: &str, target: &str, summary: &str) -> (r: GraphRecord)
    ensures
        shown(r) == RecordView::Edge(import_edge(label, source@, target@, summary@)),
{
    let e = EdgeRecord {
        rest: None,
        id: agent_memory_edge_id(label, source, target),
        schema_version: AGENT_MEMORY_SCHEMA_VERSION,
        label,
        source: source.to_string(),
        target: target.to_string(),
        confidence: None,
        resolution: None,
        temporal: None,
        summary: summary.to_string(),
    };
    proof {
        reveal(import_edge);
        reveal(shown);
        assert(e@ =~= import_edge(label, source@, target@, summary@));
    }
    GraphRecord::Edge(e)
}

/// An edge, alone.
pub open spec fn linked(
    label: EdgeLabel,
    source: Seq<char>,
    target: Seq<char>,
    summary: Seq<char>,
) -> Seq<RecordView> {
    seq![RecordView::Edge(import_edge(label, source, target, summary))]
}

/// A node, and the edge by which it belongs to another.
pub open spec fn owned(
    id: Seq<char>,
    kind: NodeKind,
    summary: Seq<char>,
    c: ImportCtxView,
    x: NodeExtraView,
    owner: Seq<char>,
    edge_summary: Seq<char>,
) -> Seq<RecordView> {
    seq![
        RecordView::Node(import_node(id, kind, summary, c, x)),
        RecordView::Edge(import_edge(EdgeLabel::AuthoredBy, id, owner, edge_summary)),
    ]
}

proof fn lemma_append<V>(base: Seq<V>, a: Seq<V>, b: Seq<V>)
    ensures
        base + a + b == base + (a + b),
{
    assert(base + a + b =~= base + (a + b));
}

proof fn lemma_append_none<V>(base: Seq<V>)
    ensures
        base + Seq::<V>::empty() == base,
{
    assert(base + Seq::<V>::empty() =~= base);
}

proof fn lemma_one<V>(base: Seq<V>, a: V)
    ensures
        base.push(a) == base + seq![a],
{
    assert(base.push(a) =~= base + seq![a]);
}

proof fn lemma_two<V>(base: Seq<V>, a: V, b: V)
    ensures
        base.push(a).push(b) == base + seq![a, b],
{
    assert(base.push(a).push(b) =~= base + seq![a, b]);
}

fn emit_edge(
    out: &mut Vec<GraphRecord>,
    label: EdgeLabel,
    source: &str,
    target: &str,
    summary: &str,
)
    ensures
        record_views(final(out)@) == record_views(old(out)@) + linked(
            label,
            source@,
            target@,
            summary@,
        ),
{
    let e = make_edge(label, source, target, summary);
    proof {
        lemma_shown_push(out@, e);
        lemma_one(record_views(out@), shown(e));
    }
    out.push(e);
}

fn emit_owned(
    out: &mut Vec<GraphRecord>,
    id: &str,
    kind: NodeKind,
    summary: String,
    ctx: &ImportCtx,
    extra: NodeExtra,
    owner: &str,
    edge_summary: &str,
)
    ensures
        record_views(final(out)@) == record_views(old(out)@) + owned(
            id@,
            kind,
            summary@,
            ctx@,
            extra@,
            owner@,
            edge_summary@,
        ),
{
    let n = make_node(id.to_string(), kind, summary, ctx, extra);
    let e = make_edge(EdgeLabel::AuthoredBy, id, owner, edge_summary);
    proof {
        lemma_shown_push(out@, n);
        lemma_shown_push(out@.push(n), e);
        lemma_two(record_views(out@), shown(n), shown(e));
    }
    out.push(n);
    out.push(e);
}

// ---------------------------------------------------------------------------
// Calls
// ---------------------------------------------------------------------------

/// The identifier of a node of a call.
pub open spec fn action_node_id(what: Seq<char>, a: ActionView) -> Seq<char> {
    memory_id(seq!["node"@, what, a.turn_id, decimal_seq(a.index as nat)])
}

/// The identifier of the failure of a call.
pub open spec fn action_failure_id(what: Seq<char>, a: ActionView) -> Seq<char> {
    memory_id(seq!["node"@, "failure"@, what, a.turn_id, decimal_seq(a.index as nat)])
}

fn make_action_id(what: &str, a: &ToolAction) -> (r: String)
    ensures
        r@ == action_node_id(what@, a@),
{
    let index = decimal(a.index);
    let mut parts: Vec<&str> = Vec::new();
    parts.push("node");
    parts.push(what);
    parts.push(a.turn_id.as_str());
    parts.push(index.as_str());
    assert(str_views(parts@) =~= seq![
        "node"@,
        what@,
        a@.turn_id,
        decimal_seq(a@.index as nat),
    ]);
    agent_memory_stable_id(&parts)
}

fn make_failure_id(what: &str, a: &ToolAction) -> (r: String)
    ensures
        r@ == action_failure_id(what@, a@),
{
    let index = decimal(a.index);
    let mut parts: Vec<&str> = Vec::new();
    parts.push("node");
    parts.push("failure");
    parts.push(what);
    parts.push(a.turn_id.as_str());
    parts.push(index.as_str());
    assert(str_views(parts@) =~= seq![
        "node"@,
        "failure"@,
        what@,
        a@.turn_id,
        decimal_seq(a@.index as nat),
    ]);
    agent_memory_stable_id(&parts)
}

/// Whether a call ended with an exit code other than nil.
pub open spec fn action_failed(a: ActionView) -> bool {
    match a.exit_code {
        Some(c) => c != 0,
        None => false,
    }
}

/// Whether a call ran tests in the shell that passed.
pub open spec fn tests_passed(a: ActionView) -> bool {
    a.name == "shell"@ && runs_tests(a.command) && a.exit_code == Some(0i64)
}

/// What the node of a call has more.
pub open spec fn tool_call_extra(a: ActionView, c: ImportCtxView) -> NodeExtraView {
    NodeExtraView {
        observed_at: Some(c.default_timestamp),
        text: Some(a.redacted_command),
        linked_turn_id: Some(a.turn_id),
        tool_name: Some(a.name),
        tool_kind: Some(tool_kind(a.name, a.parts)),
        arguments_summary: Some(a.redacted_command),
        arguments_handle: Some(handle_of(a.redacted_command)),
        started_at: Some(c.default_timestamp),
        finished_at: match a.exit_code {
            Some(_) => Some(c.default_timestamp),
            None => None,
        },
        status: Some(status_of(a.exit_code)),
        agent_kind: Some("codex"@),
        ..no_extra()
    }
}

/// The node of a call, and that it belongs to the turn.
pub open spec fn tool_call_records(a: ActionView, c: ImportCtxView) -> Seq<RecordView> {
    owned(
        action_node_id("tool_call"@, a),
        NodeKind::ToolCall,
        "ToolCall "@ + a.name + " turn="@ + decimal_seq(a.turn_index as nat) + " action="@
            + decimal_seq(a.index as nat),
        c,
        tool_call_extra(a, c),
        a.turn_id,
        "ToolCall belongs to AgentTurn"@,
    )
}

fn emit_tool_call(out: &mut Vec<GraphRecord>, a: &ToolAction, ctx: &ImportCtx)
    ensures
        record_views(final(out)@) == record_views(old(out)@) + tool_call_records(a@, ctx@),
{
    let mut x = NodeExtra::blank();
    x.observed_at = Some(ctx.default_timestamp.clone());
    x.text = Some(a.redacted_command.clone());
    x.linked_turn_id = Some(a.turn_id.clone());
    x.tool_name = Some(a.name.clone());
    x.tool_kind = Some(tool_kind_for(a.name.as_str(), &a.parts));
    x.arguments_summary = Some(a.redacted_command.clone());
    x.arguments_handle = Some(output_handle(a.redacted_command.as_str()));
    x.started_at = Some(ctx.default_timestamp.clone());
    x.finished_at = match a.exit_code {
        Some(_) => Some(ctx.default_timestamp.clone()),
        None => None,
    };
    x.status = Some(tool_status(a.exit_code).to_string());
    x.agent_kind = Some("codex".to_string());
    assert(x@ =~= tool_call_extra(a@, ctx@));
    let id = make_action_id("tool_call", a);
    let turn = decimal(a.turn_index);
    let index = decimal(a.index);
    let summary = concat6(
        "ToolCall ",
        a.name.as_str(),
        " turn=",
        turn.as_str(),
        " action=",
        index.as_str(),
    );
    emit_owned(
        out,
        id.as_str(),
        NodeKind::ToolCall,
        summary,
        ctx,
        x,
        a.turn_id.as_str(),
        "ToolCall belongs to AgentTurn",
    );
}

/// What the node of a run of a command has more.
pub open spec fn command_run_extra(a: ActionView, c: ImportCtxView) -> NodeExtraView {
    NodeExtraView {
        observed_at: Some(c.default_timestamp),
        text: Some(a.redacted_command),
        exit_code: a.exit_code,
        stdout_handle: opt_handle(a.redacted_stdout),
        stderr_handle: opt_handle(a.redacted_stderr),
        agent_kind: Some("codex"@),
        ..no_extra()
    }
}

/// An exit code in decimal, or a question mark.
pub open spec fn exit_text(code: Option<i64>) -> Seq<char> {
    match code {
        Some(c) => signed_seq(c as int),
        None => "?"@,
    }
}

fn make_exit_text(code: Option<i64>) -> (r: String)
    ensures
        r@ == exit_text(code),
{
    match code {
        Some(c) => signed_decimal(c),
        None => "?".to_string(),
    }
}

/// The node of the run of the command, and that it belongs to the turn.
pub open spec fn command_run_records(a: ActionView, c: ImportCtxView) -> Seq<RecordView> {
    owned(
        action_node_id("command_run"@, a),
        NodeKind::CommandRun,
        "CommandRun exit="@ + exit_text(a.exit_code) + " turn="@ + decimal_seq(
            a.turn_index as nat,
        ),
        c,
        command_run_extra(a, c),
        a.turn_id,
        "CommandRun belongs to AgentTurn"@,
    )
}

fn emit_command_run(out: &mut Vec<GraphRecord>, a: &ToolAction, ctx: &ImportCtx)
    ensures
        record_views(final(out)@) == record_views(old(out)@) + command_run_records(a@, ctx@),
{
    let mut x = NodeExtra::blank();
    x.observed_at = Some(ctx.default_timestamp.clone());
    x.text = Some(a.redacted_command.clone());
    x.exit_code = a.exit_code;
    x.stdout_handle = opt_output_handle(&a.redacted_stdout);
    x.stderr_handle = opt_output_handle(&a.redacted_stderr);
    x.agent_kind = Some("codex".to_string());
    assert(x@ =~= command_run_extra(a@, ctx@));
    let id = make_action_id("command_run", a);
    let exit = make_exit_text(a.exit_code);
    let turn = decimal(a.turn_index);
    let summary = concat4("CommandRun exit=", exit.as_str(), " turn=", turn.as_str());
    emit_owned(
        out,
        id.as_str(),
        NodeKind::CommandRun,
        summary,
        ctx,
        x,
        a.turn_id.as_str(),
        "CommandRun belongs to AgentTurn",
    );
}

/// What the node of an edit has more.
pub open spec fn file_edit_extra(a: ActionView, c: ImportCtxView) -> NodeExtraView {
    let target = last_file(a.parts);
    NodeExtraView {
        observed_at: Some(c.default_timestamp),
        text: Some(a.redacted_command),
        repo_relative_path: target,
        edit_kind: Some("modify"@),
        before_hash: Some(
            surrogate(
                c.source_artifact_hash,
                text_or(target, ""@),
                "before"@,
                a.redacted_command,
            ),
        ),
        after_hash: Some(
            surrogate(c.source_artifact_hash, text_or(target, ""@), "after"@, a.redacted_command),
        ),
        hunk_count: Some(1u32),
        linked_turn_id: Some(a.turn_id),
        agent_kind: Some("codex"@),
        ..no_extra()
    }
}

/// The node of an edit, where the command edits a file, and that it belongs to the
/// turn.
pub open spec fn file_edit_records(a: ActionView, c: ImportCtxView) -> Seq<RecordView> {
    if a.name == "shell"@ && edits_file(a.parts) {
        owned(
            action_node_id("file_edit"@, a),
            NodeKind::FileEdit,
            "FileEdit "@ + text_or(last_file(a.parts), "unknown"@) + " turn="@ + decimal_seq(
                a.turn_index as nat,
            ),
            c,
            file_edit_extra(a, c),
            a.turn_id,
            "FileEdit belongs to AgentTurn"@,
        )
    } else {
        Seq::empty()
    }
}

fn emit_file_edit(out: &mut Vec<GraphRecord>, a: &ToolAction, ctx: &ImportCtx)
    ensures
        record_views(final(out)@) == record_views(old(out)@) + file_edit_records(a@, ctx@),
{
    if str_eq(a.name.as_str(), "shell") && is_file_edit_command_parts(&a.parts) {
        let target = extract_target_file_from_parts(&a.parts);
        let path = string_or(&target, "");
        let named = string_or(&target, "unknown");
        let mut x = NodeExtra::blank();
        x.observed_at = Some(ctx.default_timestamp.clone());
        x.text = Some(a.redacted_command.clone());
        x.edit_kind = Some("modify".to_string());
        x.before_hash = Some(
            surrogate_hash(ctx, path.as_str(), "before", a.redacted_command.as_str()),
        );
        x.after_hash = Some(
            surrogate_hash(ctx, path.as_str(), "after", a.redacted_command.as_str()),
        );
        x.hunk_count = Some(1);
        x.linked_turn_id = Some(a.turn_id.clone());
        x.agent_kind = Some("codex".to_string());
        x.repo_relative_path = target;
        assert(x@ =~= file_edit_extra(a@, ctx@));
        let id = make_action_id("file_edit", a);
        let turn = decimal(a.turn_index);
        let summary = concat4("FileEdit ", named.as_str(), " turn=", turn.as_str());
        emit_owned(
            out,
            id.as_str(),
            NodeKind::FileEdit,
            summary,
            ctx,
            x,
            a.turn_id.as_str(),
            "FileEdit belongs to AgentTurn",
        );
    } else {
        proof {
            lemma_append_none(record_views(out@));
        }
    }
}

/// What the node of a patch has more.
pub open spec fn patch_extra(a: ActionView, c: ImportCtxView) -> NodeExtraView {
    NodeExtraView {
        observed_at: Some(c.default_timestamp),
        text: Some(a.redacted_command),
        patch_status: Some(patch_status_of(a)),
        agent_kind: Some("codex"@),
        ..no_extra()
    }
}

/// What is known of a patch: that it did not apply, or nothing.
pub open spec fn patch_status_of(a: ActionView) -> Seq<char> {
    if action_failed(a) {
        "invalid"@
    } else {
        "unverified"@
    }
}

/// What the node of a failure has more.
pub open spec fn failure_extra(kind: Seq<char>, a: ActionView, c: ImportCtxView) -> NodeExtraView {
    NodeExtraView {
        observed_at: Some(c.default_timestamp),
        text: Some(a.summary),
        failure_kind: Some(kind),
        exit_code: a.exit_code,
        agent_kind: Some("codex"@),
        ..no_extra()
    }
}

/// A failure, that it belongs to the turn, and what it is a failure of.
pub open spec fn failure_records(
    kind: Seq<char>,
    summary: Seq<char>,
    failed: Seq<char>,
    edge_summary: Seq<char>,
    a: ActionView,
    c: ImportCtxView,
) -> Seq<RecordView> {
    owned(
        action_failure_id(kind, a),
        NodeKind::Failure,
        summary,
        c,
        failure_extra(kind, a, c),
        a.turn_id,
        "Failure belongs to AgentTurn"@,
    ) + linked(EdgeLabel::FailedOn, action_failure_id(kind, a), failed, edge_summary)
}

fn emit_failure(
    out: &mut Vec<GraphRecord>,
    kind: &str,
    summary: String,
    failed: &str,
    edge_summary: &str,
    a: &ToolAction,
    ctx: &ImportCtx,
)
    ensures
        record_views(final(out)@) == record_views(old(out)@) + failure_records(
            kind@,
            summary@,
            failed@,
            edge_summary@,
            a@,
            ctx@,
        ),
{
    let mut x = NodeExtra::blank();
    x.observed_at = Some(ctx.default_timestamp.clone());
    x.text = Some(a.summary.clone());
    x.failure_kind = Some(kind.to_string());
    x.exit_code = a.exit_code;
    x.agent_kind = Some("codex".to_string());
    assert(x@ =~= failure_extra(kind@, a@, ctx@));
    let id = make_failure_id(kind, a);
    let ghost base = record_views(out@);
    let ghost first = owned(
        id@,
        NodeKind::Failure,
        summary@,
        ctx@,
        x@,
        a@.turn_id,
        "Failure belongs to AgentTurn"@,
    );
    emit_owned(
        out,
        id.as_str(),
        NodeKind::Failure,
        summary,
        ctx,
        x,
        a.turn_id.as_str(),
        "Failure belongs to AgentTurn",
    );
    emit_edge(out, EdgeLabel::FailedOn, id.as_str(), failed, edge_summary);
    proof {
        lemma_append(base, first, linked(EdgeLabel::FailedOn, id@, failed@, edge_summary@));
    }
}

/// The node of a patch, that it belongs to the turn, and that the run made it.
pub open spec fn patch_node_records(a: ActionView, c: ImportCtxView) -> Seq<RecordView> {
    owned(
        action_node_id("patch_artifact"@, a),
        NodeKind::PatchArtifact,
        "PatchArtifact status="@ + patch_status_of(a) + " turn="@ + decimal_seq(
            a.turn_index as nat,
        ),
        c,
        patch_extra(a, c),
        a.turn_id,
        "PatchArtifact belongs to AgentTurn"@,
    ) + linked(
        EdgeLabel::ProducedPatch,
        a.run_id,
        action_node_id("patch_artifact"@, a),
        "AgentRun produced patch artifact"@,
    )
}

fn emit_patch_node(out: &mut Vec<GraphRecord>, failed: bool, a: &ToolAction, ctx: &ImportCtx)
    requires
        failed == action_failed(a@),
    ensures
        record_views(final(out)@) == record_views(old(out)@) + patch_node_records(a@, ctx@),
{
    let status = if failed {
        "invalid"
    } else {
        "unverified"
    };
    let mut x = NodeExtra::blank();
    x.observed_at = Some(ctx.default_timestamp.clone());
    x.text = Some(a.redacted_command.clone());
    x.patch_status = Some(status.to_string());
    x.agent_kind = Some("codex".to_string());
    assert(x@ =~= patch_extra(a@, ctx@));
    let id = make_action_id("patch_artifact", a);
    let turn = decimal(a.turn_index);
    let summary = concat4("PatchArtifact status=", status, " turn=", turn.as_str());
    let ghost base = record_views(out@);
    let ghost first = owned(
        id@,
        NodeKind::PatchArtifact,
        summary@,
        ctx@,
        x@,
        a@.turn_id,
        "PatchArtifact belongs to AgentTurn"@,
    );
    emit_owned(
        out,
        id.as_str(),
        NodeKind::PatchArtifact,
        summary,
        ctx,
        x,
        a.turn_id.as_str(),
        "PatchArtifact belongs to AgentTurn",
    );
    emit_edge(
        out,
        EdgeLabel::ProducedPatch,
        a.run_id.as_str(),
        id.as_str(),
        "AgentRun produced patch artifact",
    );
    proof {
        lemma_append(
            base,
            first,
            linked(
                EdgeLabel::ProducedPatch,
                a@.run_id,
                id@,
                "AgentRun produced patch artifact"@,
            ),
        );
    }
}

/// The patch that a command in the shell applies, with the failure where it did not
/// apply; for another command that failed and applies no patch, the failure.
pub open spec fn patch_records(a: ActionView, c: ImportCtxView) -> Seq<RecordView> {
    if a.name == "shell"@ && applies_patch(a.parts) {
        if action_failed(a) {
            patch_node_records(a, c) + failure_records(
                "patch_invalid"@,
                "Failure patch_invalid turn="@ + decimal_seq(a.turn_index as nat),
                action_node_id("patch_artifact"@, a),
                "Failure describes invalid PatchArtifact"@,
                a,
                c,
            )
        } else {
            patch_node_records(a, c)
        }
    } else if action_failed(a) && !applies_patch(a.parts) {
        failure_records(
            "command_failure"@,
            "Failure command_failure exit="@ + exit_text(a.exit_code) + " turn="@ + decimal_seq(
                a.turn_index as nat,
            ),
            action_node_id("command_run"@, a),
            "Failure describes failed CommandRun"@,
            a,
            c,
        )
    } else {
        Seq::empty()
    }
}

fn emit_patch(out: &mut Vec<GraphRecord>, a: &ToolAction, ctx: &ImportCtx)
    ensures
        record_views(final(out)@) == record_views(old(out)@) + patch_records(a@, ctx@),
{
    let failed = match a.exit_code {
        Some(c) => c != 0,
        None => false,
    };
    let patch = is_patch_command_parts(&a.parts);
    let turn = decimal(a.turn_index);
    if str_eq(a.name.as_str(), "shell") && patch {
        let ghost base = record_views(out@);
        emit_patch_node(out, failed, a, ctx);
        if failed {
            let target = make_action_id("patch_artifact", a);
            let summary = concat2("Failure patch_invalid turn=", turn.as_str());
            let ghost last = failure_records(
                "patch_invalid"@,
                summary@,
                target@,
                "Failure describes invalid PatchArtifact"@,
                a@,
                ctx@,
            );
            emit_failure(
                out,
                "patch_invalid",
                summary,
                target.as_str(),
                "Failure describes invalid PatchArtifact",
                a,
                ctx,
            );
            proof {
                lemma_append(base, patch_node_records(a@, ctx@), last);
            }
        }
    } else if failed && !patch {
        let target = make_action_id("command_run", a);
        let exit = make_exit_text(a.exit_code);
        let summary = concat4(
            "Failure command_failure exit=",
            exit.as_str(),
            " turn=",
            turn.as_str(),
        );
        emit_failure(
            out,
            "command_failure",
            summary,
            target.as_str(),
            "Failure describes failed CommandRun",
            a,
            ctx,
        );
    } else {
        proof {
            lemma_append_none(record_views(out@));
        }
    }
}

/// What the node of a verification has more.
pub open spec fn verification_extra(a: ActionView, c: ImportCtxView) -> NodeExtraView {
    NodeExtraView {
        observed_at: Some(c.default_timestamp),
        text: Some(a.verified_summary),
        exit_code: a.exit_code,
        agent_kind: Some("codex"@),
        ..no_extra()
    }
}

/// The verification, where the command ran tests that passed: that it belongs to the
/// turn, and that it validates the run.
pub open spec fn verification_records(a: ActionView, c: ImportCtxView) -> Seq<RecordView> {
    if tests_passed(a) {
        owned(
            action_node_id("verification"@, a),
            NodeKind::Verification,
            "Verification passed turn="@ + decimal_seq(a.turn_index as nat),
            c,
            verification_extra(a, c),
            a.turn_id,
            "Verification belongs to AgentTurn"@,
        ) + linked(
            EdgeLabel::ValidatedBy,
            a.run_id,
            action_node_id("verification"@, a),
            "AgentRun validated by test result"@,
        )
    } else {
        Seq::empty()
    }
}

fn passed_tests(a: &ToolAction) -> (r: bool)
    ensures
        r == tests_passed(a@),
{
    let zero = match a.exit_code {
        Some(c) => c == 0,
        None => false,
    };
    zero && str_eq(a.name.as_str(), "shell") && is_test_command(a.command.as_str())
}

fn emit_verification(out: &mut Vec<GraphRecord>, a: &ToolAction, ctx: &ImportCtx)
    ensures
        record_views(final(out)@) == record_views(old(out)@) + verification_records(a@, ctx@),
{
    if passed_tests(a) {
        let mut x = NodeExtra::blank();
        x.observed_at = Some(ctx.default_timestamp.clone());
        x.text = Some(a.verified_summary.clone());
        x.exit_code = a.exit_code;
        x.agent_kind = Some("codex".to_string());
        assert(x@ =~= verification_extra(a@, ctx@));
        let id = make_action_id("verification", a);
        let turn = decimal(a.turn_index);
        let summary = concat2("Verification passed turn=", turn.as_str());
        let ghost base = record_views(out@);
        let ghost first = owned(
            id@,
            NodeKind::Verification,
            summary@,
            ctx@,
            x@,
            a@.turn_id,
            "Verification belongs to AgentTurn"@,
        );
        emit_owned(
            out,
            id.as_str(),
            NodeKind::Verification,
            summary,
            ctx,
            x,
            a.turn_id.as_str(),
            "Verification belongs to AgentTurn",
        );
        emit_edge(
            out,
            EdgeLabel::ValidatedBy,
            a.run_id.as_str(),
            id.as_str(),
            "AgentRun validated by test result",
        );
        proof {
            lemma_append(
                base,
                first,
                linked(
                    EdgeLabel::ValidatedBy,
                    a@.run_id,
                    id@,
                    "AgentRun validated by test result"@,
                ),
            );
        }
    } else {
        proof {
            lemma_append_none(record_views(out@));
        }
    }
}

/// The records of a call: the call, the run of its command, the edit, the patch or the
/// failure, and the verification.
#[verifier::opaque]
pub open spec fn action_records(a: ActionView, c: ImportCtxView) -> Seq<RecordView> {
    tool_call_records(a, c) + command_run_records(a, c) + file_edit_records(a, c) + patch_records(
        a,
        c,
    ) + verification_records(a, c)
}

/// Appends the records of a call.
pub fn emit_tool_action(out: &mut Vec<GraphRecord>, a: &ToolAction, ctx: &ImportCtx)
    ensures
        record_views(final(out)@) == record_views(old(out)@) + action_records(a@, ctx@),
{
    let ghost base = record_views(out@);
    let ghost p1 = tool_call_records(a@, ctx@);
    let ghost p2 = command_run_records(a@, ctx@);
    let ghost p3 = file_edit_records(a@, ctx@);
    let ghost p4 = patch_records(a@, ctx@);
    let ghost p5 = verification_records(a@, ctx@);
    emit_tool_call(out, a, ctx);
    emit_command_run(out, a, ctx);
    emit_file_edit(out, a, ctx);
    emit_patch(out, a, ctx);
    emit_verification(out, a, ctx);
    proof {
        reveal(action_records);
        lemma_append(base, p1, p2);
        lemma_append(base, p1 + p2, p3);
        lemma_append(base, p1 + p2 + p3, p4);
        lemma_append(base, p1 + p2 + p3 + p4, p5);
    }
}

/// What a call gave back, read.
pub open spec fn call_output(o: Option<CodexFunctionCallOutput>) -> Option<ParsedOutputView> {
    match o {
        Some(x) => match opt_view(x.output) {
            Some(raw) => Some(parsed_output(raw)),
            None => None,
        },
        None => None,
    }
}

/// What a call gave back, where nothing came without exit code and texts.
pub open spec fn output_or_none(o: Option<ParsedOutputView>) -> ParsedOutputView {
    match o {
        Some(x) => x,
        None => ParsedOutputView { exit_code: None, stdout: None, stderr: None },
    }
}

fn read_call_output(o: &Option<CodexFunctionCallOutput>) -> (r: ParsedOutput)
    ensures
        r@ == output_or_none(call_output(*o)),
{
    if let Some(x) = o {
        if let Some(raw) = &x.output {
            return parse_output_field(raw.as_str());
        }
    }
    ParsedOutput { exit_code: None, stdout: None, stderr: None }
}

/// The arguments of a call.
pub open spec fn call_arguments(c: CodexFunctionCall) -> Seq<char> {
    text_or(opt_view(c.arguments), ""@)
}

/// A call, read: the command is what its arguments hold under `cmd`.
pub open spec fn action_of(
    call: CallPair,
    index: u64,
    turn_id: Seq<char>,
    turn_index: u64,
    run_id: Seq<char>,
    table: Seq<(Seq<char>, Seq<char>)>,
) -> ActionView {
    let arguments = call_arguments(call.0);
    let items = json_items_of(arguments, "cmd"@);
    let output = output_or_none(call_output(call.1));
    let raw = summary_text(output.stdout, output.stderr);
    ActionView {
        turn_id,
        turn_index,
        index,
        run_id,
        name: call.0.name@,
        parts: command_parts(arguments, items),
        command: command_text(arguments, items),
        redacted_command: redacted(table, command_text(arguments, items)),
        exit_code: output.exit_code,
        stdout: output.stdout,
        stderr: output.stderr,
        redacted_stdout: opt_redacted(table, output.stdout),
        redacted_stderr: opt_redacted(table, output.stderr),
        raw_summary: raw,
        summary: redacted(table, raw),
        verified_summary: redacted(table, redacted(table, raw)),
    }
}

/// Reads a call.
pub fn read_action(
    call: &(CodexFunctionCall, Option<CodexFunctionCallOutput>),
    index: u64,
    turn_id: &str,
    turn_index: u64,
    run_id: &str,
    opts: &ImportOptions,
) -> (r: ToolAction)
    ensures
        r@ == action_of(*call, index, turn_id@, turn_index, run_id@, opts@),
{
    let arguments = string_or(&call.0.arguments, "");
    let parts = extract_cmd_parts(arguments.as_str());
    let command = extract_command_from_arguments(arguments.as_str());
    let redacted_command = redact(command.as_str(), opts);
    let output = read_call_output(&call.1);
    let raw_summary = raw_output_summary(&output.stdout, &output.stderr);
    let summary = build_output_summary(&output.stdout, &output.stderr, opts);
    let verified_summary = redact(summary.as_str(), opts);
    let redacted_stdout = redact_opt(&output.stdout, opts);
    let redacted_stderr = redact_opt(&output.stderr, opts);
    let r = ToolAction {
        turn_id: turn_id.to_string(),
        turn_index,
        index,
        run_id: run_id.to_string(),
        name: call.0.name.clone(),
        parts,
        command,
        redacted_command,
        exit_code: output.exit_code,
        stdout: output.stdout,
        stderr: output.stderr,
        redacted_stdout,
        redacted_stderr,
        raw_summary,
        summary,
        verified_summary,
    };
    assert(r@ =~= action_of(*call, index, turn_id@, turn_index, run_id@, opts@));
    r
}

// ---------------------------------------------------------------------------
// Turns
// ---------------------------------------------------------------------------

/// The identifier of the node of a turn.
pub open spec fn turn_node_id(run_id: Seq<char>, index: u64) -> Seq<char> {
    memory_id(seq!["node"@, "agent_turn"@, run_id, decimal_seq(index as nat)])
}

fn make_turn_id(run_id: &str, index: u64) -> (r: String)
    ensures
        r@ == turn_node_id(run_id@, index),
{
    let n = decimal(index);
    let mut parts: Vec<&str> = Vec::new();
    parts.push("node");
    parts.push("agent_turn");
    parts.push(run_id);
    parts.push(n.as_str());
    assert(str_views(parts@) =~= seq![
        "node"@,
        "agent_turn"@,
        run_id@,
        decimal_seq(index as nat),
    ]);
    agent_memory_stable_id(&parts)
}

/// A number of tokens in JSON.
pub open spec fn tokens_json(n: Option<u64>) -> Seq<char> {
    match n {
        Some(x) => decimal_seq(x as nat),
        None => "null"@,
    }
}

fn make_tokens_json(n: Option<u64>) -> (r: String)
    ensures
        r@ == tokens_json(n),
{
    match n {
        Some(x) => decimal(x),
        None => "null".to_string(),
    }
}

/// A usage in JSON.
pub open spec fn usage_json(u: CodexUsage) -> Seq<char> {
    "{\"input_tokens\":"@ + tokens_json(u.input_tokens) + ",\"output_tokens\":"@ + tokens_json(
        u.output_tokens,
    ) + ",\"total_tokens\":"@ + tokens_json(u.total_tokens) + "}"@
}

/// The usage of a turn: how many tokens it took.
pub open spec fn cost_records(
    u: CodexUsage,
    turn_id: Seq<char>,
    turn_index: u64,
    c: ImportCtxView,
) -> Seq<RecordView> {
    owned(
        memory_id(seq!["node"@, "cost_usage"@, turn_id, decimal_seq(turn_index as nat)]),
        NodeKind::CostUsage,
        "CostUsage turn="@ + decimal_seq(turn_index as nat) + " input="@ + decimal_seq(
            tokens(u.input_tokens) as nat,
        ) + " output="@ + decimal_seq(tokens(u.output_tokens) as nat) + " total="@ + decimal_seq(
            tokens(u.total_tokens) as nat,
        ),
        c,
        NodeExtraView {
            observed_at: Some(c.default_timestamp),
            text: Some(usage_json(u)),
            linked_turn_id: Some(turn_id),
            agent_kind: Some("codex"@),
            ..no_extra()
        },
        turn_id,
        "CostUsage belongs to AgentTurn"@,
    )
}

/// Appends the usage of a turn.
pub fn emit_cost_usage(
    out: &mut Vec<GraphRecord>,
    turn_index: u64,
    turn_id: &str,
    usage: &CodexUsage,
    ctx: &ImportCtx,
)
    ensures
        record_views(final(out)@) == record_views(old(out)@) + cost_records(
            *usage,
            turn_id@,
            turn_index,
            ctx@,
        ),
{
    let turn = decimal(turn_index);
    let mut parts: Vec<&str> = Vec::new();
    parts.push("node");
    parts.push("cost_usage");
    parts.push(turn_id);
    parts.push(turn.as_str());
    assert(str_views(parts@) =~= seq![
        "node"@,
        "cost_usage"@,
        turn_id@,
        decimal_seq(turn_index as nat),
    ]);
    let id = agent_memory_stable_id(&parts);
    let input = decimal(usage.input());
    let output = decimal(usage.output());
    let total = decimal(usage.total());
    let head = concat6(
        "CostUsage turn=",
        turn.as_str(),
        " input=",
        input.as_str(),
        " output=",
        output.as_str(),
    );
    let summary = concat3(head.as_str(), " total=", total.as_str());
    let ji = make_tokens_json(usage.input_tokens);
    let jo = make_tokens_json(usage.output_tokens);
    let jt = make_tokens_json(usage.total_tokens);
    let text = concat7(
        "{\"input_tokens\":",
        ji.as_str(),
        ",\"output_tokens\":",
        jo.as_str(),
        ",\"total_tokens\":",
        jt.as_str(),
        "}",
    );
    let mut x = NodeExtra::blank();
    x.observed_at = Some(ctx.default_timestamp.clone());
    x.text = Some(text);
    x.linked_turn_id = Some(turn_id.to_string());
    x.agent_kind = Some("codex".to_string());
    emit_owned(
        out,
        id.as_str(),
        NodeKind::CostUsage,
        summary,
        ctx,
        x,
        turn_id,
        "CostUsage belongs to AgentTurn",
    );
}

/// Whether a turn broke off before any call.
pub open spec fn aborted(t: TurnView) -> bool {
    opt_view(t.message.status) == Some("incomplete"@) && t.tool_calls.len() == 0
}

/// The failure of a turn that broke off.
pub open spec fn aborted_records(turn_id: Seq<char>, t: TurnView, c: ImportCtxView) -> Seq<
    RecordView,
> {
    if aborted(t) {
        owned(
            memory_id(seq!["node"@, "failure"@, "aborted_turn"@, turn_id]),
            NodeKind::Failure,
            "Failure aborted_turn turn="@ + decimal_seq(t.turn_index as nat),
            c,
            NodeExtraView {
                observed_at: Some(c.default_timestamp),
                failure_kind: Some("aborted_turn"@),
                agent_kind: Some("codex"@),
                ..no_extra()
            },
            turn_id,
            "Failure belongs to AgentTurn"@,
        )
    } else {
        Seq::empty()
    }
}

fn emit_aborted(out: &mut Vec<GraphRecord>, turn_id: &str, t: &TurnData, ctx: &ImportCtx)
    ensures
        record_views(final(out)@) == record_views(old(out)@) + aborted_records(
            turn_id@,
            t@,
            ctx@,
        ),
{
    if t.tool_calls.len() == 0 && opt_is(&t.message.status, "incomplete") {
        let mut parts: Vec<&str> = Vec::new();
        parts.push("node");
        parts.push("failure");
        parts.push("aborted_turn");
        parts.push(turn_id);
        assert(str_views(parts@) =~= seq!["node"@, "failure"@, "aborted_turn"@, turn_id@]);
        let id = agent_memory_stable_id(&parts);
        let turn = decimal(t.turn_index);
        let summary = concat2("Failure aborted_turn turn=", turn.as_str());
        let mut x = NodeExtra::blank();
        x.observed_at = Some(ctx.default_timestamp.clone());
        x.failure_kind = Some("aborted_turn".to_string());
        x.agent_kind = Some("codex".to_string());
        emit_owned(
            out,
            id.as_str(),
            NodeKind::Failure,
            summary,
            ctx,
            x,
            turn_id,
            "Failure belongs to AgentTurn",
        );
    } else {
        proof {
            lemma_append_none(record_views(out@));
        }
    }
}

/// The usage of a turn, where one is given.
pub open spec fn usage_records(turn_id: Seq<char>, t: TurnView, c: ImportCtxView) -> Seq<
    RecordView,
> {
    match t.message.usage {
        Some(u) => cost_records(u, turn_id, t.turn_index, c),
        None => Seq::empty(),
    }
}

/// The records of the first `n` calls of a turn.
pub open spec fn call_records(
    turn_id: Seq<char>,
    t: TurnView,
    run_id: Seq<char>,
    c: ImportCtxView,
    table: Seq<(Seq<char>, Seq<char>)>,
    n: int,
) -> Seq<RecordView>
    decreases n,
{
    if n <= 0 {
        Seq::empty()
    } else {
        call_records(turn_id, t, run_id, c, table, n - 1) + action_records(
            action_of(t.tool_calls[n - 1], (n - 1) as u64, turn_id, t.turn_index, run_id, table),
            c,
        )
    }
}

/// What the node of a turn has more.
pub open spec fn turn_extra(t: TurnView, c: ImportCtxView) -> NodeExtraView {
    NodeExtraView {
        observed_at: Some(c.default_timestamp),
        turn_index: Some(t.turn_index),
        agent_kind: Some("codex"@),
        status: opt_view(t.message.status),
        ..no_extra()
    }
}

/// The node of a turn, and that it belongs to the run.
pub open spec fn turn_node_records(
    turn_id: Seq<char>,
    t: TurnView,
    run_id: Seq<char>,
    c: ImportCtxView,
) -> Seq<RecordView> {
    owned(
        turn_id,
        NodeKind::AgentTurn,
        "AgentTurn "@ + decimal_seq(t.turn_index as nat),
        c,
        turn_extra(t, c),
        run_id,
        "AgentTurn "@ + decimal_seq(t.turn_index as nat) + " belongs to AgentRun"@,
    )
}

/// The records of a turn: the turn, its usage, the failure where it broke off, and its
/// calls.
#[verifier::opaque]
pub open spec fn turn_records(
    t: TurnView,
    run_id: Seq<char>,
    c: ImportCtxView,
    table: Seq<(Seq<char>, Seq<char>)>,
) -> Seq<RecordView> {
    let turn_id = turn_node_id(run_id, t.turn_index);
    turn_node_records(turn_id, t, run_id, c) + usage_records(turn_id, t, c) + aborted_records(
        turn_id,
        t,
        c,
    ) + call_records(turn_id, t, run_id, c, table, t.tool_calls.len() as int)
}

fn emit_turn_node(
    out: &mut Vec<GraphRecord>,
    turn_id: &str,
    t: &TurnData,
    run_id: &str,
    ctx: &ImportCtx,
)
    ensures
        record_views(final(out)@) == record_views(old(out)@) + turn_node_records(
            turn_id@,
            t@,
            run_id@,
            ctx@,
        ),
{
    let n = decimal(t.turn_index);
    let mut x = NodeExtra::blank();
    x.observed_at = Some(ctx.default_timestamp.clone());
    x.turn_index = Some(t.turn_index);
    x.agent_kind = Some("codex".to_string());
    x.status = opt_clone(&t.message.status);
    assert(x@ =~= turn_extra(t@, ctx@));
    let summary = concat2("AgentTurn ", n.as_str());
    let edge_summary = concat3("AgentTurn ", n.as_str(), " belongs to AgentRun");
    emit_owned(
        out,
        turn_id,
        NodeKind::AgentTurn,
        summary,
        ctx,
        x,
        run_id,
        edge_summary.as_str(),
    );
}

fn emit_calls(
    out: &mut Vec<GraphRecord>,
    turn_id: &str,
    t: &TurnData,
    run_id: &str,
    ctx: &ImportCtx,
    opts: &ImportOptions,
)
    ensures
        record_views(final(out)@) == record_views(old(out)@) + call_records(
            turn_id@,
            t@,
            run_id@,
            ctx@,
            opts@,
            t@.tool_calls.len() as int,
        ),
{
    let ghost base = record_views(out@);
    let mut i: usize = 0;
    proof {
        lemma_append_none(base);
    }
    while i < t.tool_calls.len()
        invariant
            i <= t.tool_calls@.len(),
            t@.tool_calls == t.tool_calls@,
            record_views(out@) == base + call_records(
                turn_id@,
                t@,
                run_id@,
                ctx@,
                opts@,
                i as int,
            ),
        decreases t.tool_calls@.len() - i,
    {
        let a = read_action(&t.tool_calls[i], i as u64, turn_id, t.turn_index, run_id, opts);
        let ghost before = call_records(turn_id@, t@, run_id@, ctx@, opts@, i as int);
        emit_tool_action(out, &a, ctx);
        proof {
            lemma_append(base, before, action_records(a@, ctx@));
        }
        i = i + 1;
    }
}

/// Appends the records of a turn.
pub fn emit_turn(
    out: &mut Vec<GraphRecord>,
    turn: &TurnData,
    run_id: &str,
    ctx: &ImportCtx,
    opts: &ImportOptions,
)
    ensures
        record_views(final(out)@) == record_views(old(out)@) + turn_records(
            turn@,
            run_id@,
            ctx@,
            opts@,
        ),
{
    let turn_id = make_turn_id(run_id, turn.turn_index);
    let ghost base = record_views(out@);
    let ghost p1 = turn_node_records(turn_id@, turn@, run_id@, ctx@);
    let ghost p2 = usage_records(turn_id@, turn@, ctx@);
    let ghost p3 = aborted_records(turn_id@, turn@, ctx@);
    let ghost p4 = call_records(
        turn_id@,
        turn@,
        run_id@,
        ctx@,
        opts@,
        turn@.tool_calls.len() as int,
    );
    emit_turn_node(out, turn_id.as_str(), turn, run_id, ctx);
    match &turn.message.usage {
        Some(u) => {
            emit_cost_usage(out, turn.turn_index, turn_id.as_str(), u, ctx);
        },
        None => {
            proof {
                lemma_append_none(base + p1);
            }
        },
    }
    emit_aborted(out, turn_id.as_str(), turn, ctx);
    emit_calls(out, turn_id.as_str(), turn, run_id, ctx, opts);
    proof {
        reveal(turn_records);
        lemma_append(base, p1, p2);
        lemma_append(base, p1 + p2, p3);
        lemma_append(base, p1 + p2 + p3, p4);
    }
}

// ---------------------------------------------------------------------------
// Diagnostics
// ---------------------------------------------------------------------------

/// What is said of an interruption.
pub open spec fn interruption_records(
    index: u64,
    i: CodexInterrupted,
    run_id: Seq<char>,
    c: ImportCtxView,
) -> Seq<RecordView> {
    let reason = text_or(opt_view(i.reason), "unknown"@);
    owned(
        memory_id(
            seq![
                "node"@,
                "diagnostic"@,
                "interrupted"@,
                reason,
                decimal_seq(index as nat),
                run_id,
            ],
        ),
        NodeKind::Diagnostic,
        "Interrupted: reason="@ + reason,
        c,
        NodeExtraView {
            observed_at: Some(text_or(opt_view(i.at), c.default_timestamp)),
            ..no_extra()
        },
        run_id,
        "Interrupted Diagnostic belongs to AgentRun"@,
    )
}

/// Appends what is said of an interruption.
pub fn emit_interruption_diagnostic(
    out: &mut Vec<GraphRecord>,
    index: u64,
    interrupted: &CodexInterrupted,
    run_id: &str,
    ctx: &ImportCtx,
)
    ensures
        record_views(final(out)@) == record_views(old(out)@) + interruption_records(
            index,
            *interrupted,
            run_id@,
            ctx@,
        ),
{
    let reason = string_or(&interrupted.reason, "unknown");
    let n = decimal(index);
    let mut parts: Vec<&str> = Vec::new();
    parts.push("node");
    parts.push("diagnostic");
    parts.push("interrupted");
    parts.push(reason.as_str());
    parts.push(n.as_str());
    parts.push(run_id);
    assert(str_views(parts@) =~= seq![
        "node"@,
        "diagnostic"@,
        "interrupted"@,
        reason@,
        decimal_seq(index as nat),
        run_id@,
    ]);
    let id = agent_memory_stable_id(&parts);
    let summary = concat2("Interrupted: reason=", reason.as_str());
    let mut x = NodeExtra::blank();
    x.observed_at = Some(string_or(&interrupted.at, ctx.default_timestamp.as_str()));
    emit_owned(
        out,
        id.as_str(),
        NodeKind::Diagnostic,
        summary,
        ctx,
        x,
        run_id,
        "Interrupted Diagnostic belongs to AgentRun",
    );
}

/// What is said of an event that nothing is made of.
pub open spec fn unknown_records(line: usize, run_id: Seq<char>, c: ImportCtxView) -> Seq<
    RecordView,
> {
    owned(
        memory_id(
            seq![
                "node"@,
                "diagnostic"@,
                "unrecognized_event"@,
                decimal_seq(line as nat),
                run_id,
            ],
        ),
        NodeKind::Diagnostic,
        "Unrecognized or malformed event at line "@ + decimal_seq(line as nat),
        c,
        no_extra(),
        run_id,
        "Unrecognized event Diagnostic belongs to AgentRun"@,
    )
}

/// Appends what is said of an event that nothing is made of.
pub fn emit_unknown_event_diagnostic(
    out: &mut Vec<GraphRecord>,
    line: usize,
    run_id: &str,
    ctx: &ImportCtx,
)
    ensures
        record_views(final(out)@) == record_views(old(out)@) + unknown_records(
            line,
            run_id@,
            ctx@,
        ),
{
    let n = decimal(line as u64);
    let mut parts: Vec<&str> = Vec::new();
    parts.push("node");
    parts.push("diagnostic");
    parts.push("unrecognized_event");
    parts.push(n.as_str());
    parts.push(run_id);
    assert(str_views(parts@) =~= seq![
        "node"@,
        "diagnostic"@,
        "unrecognized_event"@,
        decimal_seq(line as nat),
        run_id@,
    ]);
    let id = agent_memory_stable_id(&parts);
    let summary = concat2("Unrecognized or malformed event at line ", n.as_str());
    let x = NodeExtra::blank();
    emit_owned(
        out,
        id.as_str(),
        NodeKind::Diagnostic,
        summary,
        ctx,
        x,
        run_id,
        "Unrecognized event Diagnostic belongs to AgentRun",
    );
}

/// What is said of an expected field that an event lacks.
pub open spec fn gap_records(
    line: usize,
    field: Seq<char>,
    run_id: Seq<char>,
    c: ImportCtxView,
) -> Seq<RecordView> {
    owned(
        memory_id(
            seq![
                "node"@,
                "diagnostic"@,
                "missing_field"@,
                field,
                decimal_seq(line as nat),
                run_id,
            ],
        ),
        NodeKind::Diagnostic,
        "Missing expected field "@ + field + " at line "@ + decimal_seq(line as nat),
        c,
        no_extra(),
        run_id,
        "Missing field Diagnostic belongs to AgentRun"@,
    )
}

/// Appends what is said of an expected field that an event lacks.
pub fn emit_gap_diagnostic(
    out: &mut Vec<GraphRecord>,
    line: usize,
    field: &str,
    run_id: &str,
    ctx: &ImportCtx,
)
    ensures
        record_views(final(out)@) == record_views(old(out)@) + gap_records(
            line,
            field@,
            run_id@,
            ctx@,
        ),
{
    let n = decimal(line as u64);
    let mut parts: Vec<&str> = Vec::new();
    parts.push("node");
    parts.push("diagnostic");
    parts.push("missing_field");
    parts.push(field);
    parts.push(n.as_str());
    parts.push(run_id);
    assert(str_views(parts@) =~= seq![
        "node"@,
        "diagnostic"@,
        "missing_field"@,
        field@,
        decimal_seq(line as nat),
        run_id@,
    ]);
    let id = agent_memory_stable_id(&parts);
    let summary = concat4("Missing expected field ", field, " at line ", n.as_str());
    let x = NodeExtra::blank();
    emit_owned(
        out,
        id.as_str(),
        NodeKind::Diagnostic,
        summary,
        ctx,
        x,
        run_id,
        "Missing field Diagnostic belongs to AgentRun",
    );
}

// ---------------------------------------------------------------------------
// The whole
// ---------------------------------------------------------------------------

/// The identifier of the session of an artifact: it depends on the hash of the bytes and
/// on this importer alone.
pub open spec fn session_node_id(hash: Seq<char>) -> Seq<char> {
    memory_id(seq!["node"@, "agent_session"@, IMPORTER_ID@, IMPORTER_VERSION@, hash])
}

/// The identifier of the run of a session.
pub open spec fn run_node_id(session_id: Seq<char>) -> Seq<char> {
    memory_id(seq!["node"@, "agent_run"@, session_id, "run-0"@])
}

/// The model, the time and the name of what a header heads.
pub open spec fn flavor_model(f: SessionFlavor) -> Option<Seq<char>> {
    match f {
        SessionFlavor::Session(h) => opt_view(h.model),
        SessionFlavor::Rollout(h) => opt_view(h.model),
        SessionFlavor::Unknown => None,
    }
}

/// The time that a header gives.
pub open spec fn flavor_time(f: SessionFlavor) -> Option<Seq<char>> {
    match f {
        SessionFlavor::Session(h) => opt_view(h.created_at),
        SessionFlavor::Rollout(h) => opt_view(h.started_at),
        SessionFlavor::Unknown => None,
    }
}

/// What a header heads.
pub open spec fn flavor_name(f: SessionFlavor) -> Seq<char> {
    match f {
        SessionFlavor::Session(_) => "session"@,
        SessionFlavor::Rollout(_) => "rollout"@,
        SessionFlavor::Unknown => "unknown"@,
    }
}

fn read_flavor(f: &SessionFlavor) -> (r: (Option<String>, Option<String>, &'static str))
    ensures
        opt_view(r.0) == flavor_model(*f),
        opt_view(r.1) == flavor_time(*f),
        r.2@ == flavor_name(*f),
{
    match f {
        SessionFlavor::Session(h) => (opt_clone(&h.model), opt_clone(&h.created_at), "session"),
        SessionFlavor::Rollout(h) => (opt_clone(&h.model), opt_clone(&h.started_at), "rollout"),
        SessionFlavor::Unknown => (None, None, "unknown"),
    }
}

/// Where the records of an artifact come from.
pub open spec fn import_ctx(hash: Seq<char>, path: Seq<char>, f: SessionFlavor) -> ImportCtxView {
    ImportCtxView {
        source_artifact_path: path,
        source_artifact_hash: hash,
        session_id: session_node_id(hash),
        default_timestamp: text_or(flavor_time(f), DEFAULT_TIMESTAMP@),
    }
}

/// The first characters of a hash.
pub open spec fn short_hash(hash: Seq<char>) -> Seq<char> {
    if hash.len() > 16 {
        hash.take(16)
    } else {
        hash
    }
}

fn shorten(hash: &str) -> (r: String)
    ensures
        r@ == short_hash(hash@),
{
    let v = chars_of(hash);
    if v.len() > 16 {
        let s = string_of(&v, 0, 16);
        assert(s@ =~= hash@.take(16));
        s
    } else {
        hash.to_string()
    }
}

/// What the nodes of a session and of its run have more.
pub open spec fn head_extra(f: SessionFlavor) -> NodeExtraView {
    NodeExtraView { observed_at: flavor_time(f), agent_kind: Some("codex"@), ..no_extra() }
}

/// The session, its run, and that the one belongs to the other.
#[verifier::opaque]
pub open spec fn head_records(f: SessionFlavor, c: ImportCtxView) -> Seq<RecordView> {
    seq![
        RecordView::Node(
            import_node(
                c.session_id,
                NodeKind::AgentSession,
                "AgentSession codex-"@ + flavor_name(f) + " "@ + short_hash(
                    c.source_artifact_hash,
                ),
                c,
                head_extra(f),
            ),
        ),
        RecordView::Node(
            import_node(
                run_node_id(c.session_id),
                NodeKind::AgentRun,
                "AgentRun codex-"@ + flavor_name(f) + " model="@ + text_or(
                    flavor_model(f),
                    "unknown"@,
                ),
                c,
                head_extra(f),
            ),
        ),
        RecordView::Edge(
            import_edge(
                EdgeLabel::SessionOf,
                run_node_id(c.session_id),
                c.session_id,
                "AgentRun belongs to AgentSession"@,
            ),
        ),
    ]
}

proof fn lemma_three<V>(a: V, b: V, c: V)
    ensures
        Seq::<V>::empty().push(a).push(b).push(c) == seq![a, b, c],
{
}

fn make_head(f: &SessionFlavor, run_id: &str, ctx: &ImportCtx) -> (out: Vec<GraphRecord>)
    requires
        run_id@ == run_node_id(ctx@.session_id),
    ensures
        record_views(out@) == head_records(*f, ctx@),
{
    let (model, time, name) = read_flavor(f);
    let short = shorten(ctx.source_artifact_hash.as_str());
    let session_summary = concat4("AgentSession codex-", name, " ", short.as_str());
    let mut x = NodeExtra::blank();
    x.observed_at = opt_clone(&time);
    x.agent_kind = Some("codex".to_string());
    assert(x@ =~= head_extra(*f));
    let session = make_node(
        ctx.session_id.clone(),
        NodeKind::AgentSession,
        session_summary,
        ctx,
        x,
    );
    let model = string_or(&model, "unknown");
    let run_summary = concat4("AgentRun codex-", name, " model=", model.as_str());
    let mut y = NodeExtra::blank();
    y.observed_at = time;
    y.agent_kind = Some("codex".to_string());
    assert(y@ =~= head_extra(*f));
    let run = make_node(run_id.to_string(), NodeKind::AgentRun, run_summary, ctx, y);
    let edge = make_edge(
        EdgeLabel::SessionOf,
        run_id,
        ctx.session_id.as_str(),
        "AgentRun belongs to AgentSession",
    );
    let mut out: Vec<GraphRecord> = Vec::new();
    proof {
        reveal(head_records);
        lemma_shown_none();
        lemma_shown_push(out@, session);
        lemma_shown_push(out@.push(session), run);
        lemma_shown_push(out@.push(session).push(run), edge);
        lemma_three(shown(session), shown(run), shown(edge));
    }
    out.push(session);
    out.push(run);
    out.push(edge);
    out
}

/// The records of the first `n` turns.
pub open spec fn turns_records(
    turns: Seq<TurnView>,
    run_id: Seq<char>,
    c: ImportCtxView,
    table: Seq<(Seq<char>, Seq<char>)>,
    n: int,
) -> Seq<RecordView>
    decreases n,
{
    if n <= 0 {
        Seq::empty()
    } else {
        turns_records(turns, run_id, c, table, n - 1) + turn_records(turns[n - 1], run_id, c, table)
    }
}

/// What is said of the first `n` interruptions.
pub open spec fn interruptions_records(
    s: Seq<CodexInterrupted>,
    run_id: Seq<char>,
    c: ImportCtxView,
    n: int,
) -> Seq<RecordView>
    decreases n,
{
    if n <= 0 {
        Seq::empty()
    } else {
        interruptions_records(s, run_id, c, n - 1) + interruption_records(
            (n - 1) as u64,
            s[n - 1],
            run_id,
            c,
        )
    }
}

/// What is said of the first `n` events that nothing is made of.
pub open spec fn unknowns_records(
    lines: Seq<usize>,
    run_id: Seq<char>,
    c: ImportCtxView,
    n: int,
) -> Seq<RecordView>
    decreases n,
{
    if n <= 0 {
        Seq::empty()
    } else {
        unknowns_records(lines, run_id, c, n - 1) + unknown_records(lines[n - 1], run_id, c)
    }
}

/// What is said of the first `n` expected fields that events lack.
pub open spec fn gaps_records(
    gaps: Seq<(usize, Seq<char>)>,
    run_id: Seq<char>,
    c: ImportCtxView,
    n: int,
) -> Seq<RecordView>
    decreases n,
{
    if n <= 0 {
        Seq::empty()
    } else {
        gaps_records(gaps, run_id, c, n - 1) + gap_records(gaps[n - 1].0, gaps[n - 1].1, run_id, c)
    }
}

/// The records of an artifact: the session and its run, the turns, the interruptions,
/// the events that nothing is made of, and the expected fields that events lack.
pub open spec fn import_records(
    hash: Seq<char>,
    path: Seq<char>,
    g: GroupedView,
    table: Seq<(Seq<char>, Seq<char>)>,
) -> Seq<RecordView> {
    let c = import_ctx(hash, path, g.flavor);
    let run_id = run_node_id(c.session_id);
    head_records(g.flavor, c) + turns_records(g.turns, run_id, c, table, g.turns.len() as int)
        + interruptions_records(g.interruptions, run_id, c, g.interruptions.len() as int)
        + unknowns_records(g.unknown_indices, run_id, c, g.unknown_indices.len() as int)
        + gaps_records(g.gaps, run_id, c, g.gaps.len() as int)
}

fn emit_turns(
    out: &mut Vec<GraphRecord>,
    turns: &Vec<TurnData>,
    run_id: &str,
    ctx: &ImportCtx,
    opts: &ImportOptions,
)
    ensures
        record_views(final(out)@) == record_views(old(out)@) + turns_records(
            turn_views(turns@),
            run_id@,
            ctx@,
            opts@,
            turns@.len() as int,
        ),
{
    let ghost base = record_views(out@);
    let mut i: usize = 0;
    proof {
        lemma_append_none(base);
    }
    while i < turns.len()
        invariant
            i <= turns@.len(),
            record_views(out@) == base + turns_records(
                turn_views(turns@),
                run_id@,
                ctx@,
                opts@,
                i as int,
            ),
        decreases turns@.len() - i,
    {
        let ghost before = turns_records(turn_views(turns@), run_id@, ctx@, opts@, i as int);
        assert(turn_views(turns@)[i as int] == turns@[i as int]@);
        emit_turn(out, &turns[i], run_id, ctx, opts);
        proof {
            lemma_append(base, before, turn_records(turns@[i as int]@, run_id@, ctx@, opts@));
        }
        i = i + 1;
    }
}

fn emit_interruptions(
    out: &mut Vec<GraphRecord>,
    s: &Vec<CodexInterrupted>,
    run_id: &str,
    ctx: &ImportCtx,
)
    ensures
        record_views(final(out)@) == record_views(old(out)@) + interruptions_records(
            s@,
            run_id@,
            ctx@,
            s@.len() as int,
        ),
{
    let ghost base = record_views(out@);
    let mut i: usize = 0;
    proof {
        lemma_append_none(base);
    }
    while i < s.len()
        invariant
            i <= s@.len(),
            record_views(out@) == base + interruptions_records(s@, run_id@, ctx@, i as int),
        decreases s@.len() - i,
    {
        let ghost before = interruptions_records(s@, run_id@, ctx@, i as int);
        emit_interruption_diagnostic(out, i as u64, &s[i], run_id, ctx);
        proof {
            lemma_append(
                base,
                before,
                interruption_records(i as u64, s@[i as int], run_id@, ctx@),
            );
        }
        i = i + 1;
    }
}

fn emit_unknowns(out: &mut Vec<GraphRecord>, lines: &Vec<usize>, run_id: &str, ctx: &ImportCtx)
    ensures
        record_views(final(out)@) == record_views(old(out)@) + unknowns_records(
            lines@,
            run_id@,
            ctx@,
            lines@.len() as int,
        ),
{
    let ghost base = record_views(out@);
    let mut i: usize = 0;
    proof {
        lemma_append_none(base);
    }
    while i < lines.len()
        invariant
            i <= lines@.len(),
            record_views(out@) == base + unknowns_records(lines@, run_id@, ctx@, i as int),
        decreases lines@.len() - i,
    {
        let ghost before = unknowns_records(lines@, run_id@, ctx@, i as int);
        emit_unknown_event_diagnostic(out, lines[i], run_id, ctx);
        proof {
            lemma_append(base, before, unknown_records(lines@[i as int], run_id@, ctx@));
        }
        i = i + 1;
    }
}

fn emit_gaps(
    out: &mut Vec<GraphRecord>,
    gaps: &Vec<(usize, &'static str)>,
    run_id: &str,
    ctx: &ImportCtx,
)
    ensures
        record_views(final(out)@) == record_views(old(out)@) + gaps_records(
            gap_views(gaps@),
            run_id@,
            ctx@,
            gaps@.len() as int,
        ),
{
    let ghost base = record_views(out@);
    let ghost all = gap_views(gaps@);
    let mut i: usize = 0;
    proof {
        lemma_append_none(base);
    }
    while i < gaps.len()
        invariant
            i <= gaps@.len(),
            all == gap_views(gaps@),
            record_views(out@) == base + gaps_records(all, run_id@, ctx@, i as int),
        decreases gaps@.len() - i,
    {
        let ghost before = gaps_records(all, run_id@, ctx@, i as int);
        assert(all[i as int] == (gaps@[i as int].0, gaps@[i as int].1@));
        emit_gap_diagnostic(out, gaps[i].0, gaps[i].1, run_id, ctx);
        proof {
            lemma_append(
                base,
                before,
                gap_records(all[i as int].0, all[i as int].1, run_id@, ctx@),
            );
        }
        i = i + 1;
    }
}

/// The records of grouped events, from an artifact whose bytes have the hash.
pub fn import_grouped(
    hash: &str,
    path: &str,
    events: &GroupedEvents,
    opts: &ImportOptions,
) -> (r: Vec<GraphRecord>)
    ensures
        record_views(r@) == import_records(hash@, path@, events@, opts@),
{
    let mut parts: Vec<&str> = Vec::new();
    parts.push("node");
    parts.push("agent_session");
    parts.push(IMPORTER_ID);
    parts.push(IMPORTER_VERSION);
    parts.push(hash);
    assert(str_views(parts@) =~= seq![
        "node"@,
        "agent_session"@,
        IMPORTER_ID@,
        IMPORTER_VERSION@,
        hash@,
    ]);
    let session_id = agent_memory_stable_id(&parts);
    let mut parts2: Vec<&str> = Vec::new();
    parts2.push("node");
    parts2.push("agent_run");
    parts2.push(session_id.as_str());
    parts2.push("run-0");
    assert(str_views(parts2@) =~= seq!["node"@, "agent_run"@, session_id@, "run-0"@]);
    let run_id = agent_memory_stable_id(&parts2);
    let (_, time, _) = read_flavor(&events.flavor);
    let ctx = ImportCtx {
        source_artifact_path: path.to_string(),
        source_artifact_hash: hash.to_string(),
        session_id,
        default_timestamp: string_or(&time, DEFAULT_TIMESTAMP),
    };
    assert(ctx@ =~= import_ctx(hash@, path@, events@.flavor));
    let mut out = make_head(&events.flavor, run_id.as_str(), &ctx);
    emit_turns(&mut out, &events.turns, run_id.as_str(), &ctx, opts);
    emit_interruptions(&mut out, &events.interruptions, run_id.as_str(), &ctx);
    emit_unknowns(&mut out, &events.unknown_indices, run_id.as_str(), &ctx);
    emit_gaps(&mut out, &events.gaps, run_id.as_str(), &ctx);
    assert(events@.turns.len() == events.turns@.len());
    assert(events@.gaps.len() == events.gaps@.len());
    out
}

/// Whether some line was read as an event, of whatever kind.
pub open spec fn says_something(events: Seq<(usize, CodexEvent)>) -> bool {
    exists|i: int| 0 <= i < events.len() && !((#[trigger] events[i]).1 is Unknown)
}

/// Why an artifact was not imported: none of its lines could be read as an event.
#[derive(Clone, Copy, Debug, PartialEq, Eq, Structural)]
pub struct NoEvents;

fn has_event(events: &Vec<(usize, CodexEvent)>) -> (r: bool)
    ensures
        r == says_something(events@),
{
    let mut i: usize = 0;
    while i < events.len()
        invariant
            i <= events@.len(),
            forall|k: int| 0 <= k < i ==> (#[trigger] events@[k]).1 is Unknown,
        decreases events@.len() - i,
    {
        match &events[i].1 {
            CodexEvent::Unknown => {},
            _ => {
                assert(!(events@[i as int].1 is Unknown));
                return true;
            },
        }
        i = i + 1;
    }
    false
}

/// The records of a session or a rollout: `raw` is the artifact, `events` what its lines
/// hold, each with the number of its line. An artifact of which no line could be read as an
/// event is refused.
pub fn import_events(
    raw: &Vec<u8>,
    path: &str,
    events: Vec<(usize, CodexEvent)>,
    opts: &ImportOptions,
) -> (r: Result<Vec<GraphRecord>, NoEvents>)
    ensures
        r is Ok <==> says_something(events@),
        r matches Ok(records) ==> record_views(records@) == import_records(
            blake3_hex_of(raw@),
            path@,
            grouped(events@),
            opts@,
        ),
{
    if !has_event(&events) {
        return Err(NoEvents);
    }
    let hash = blake3_hex(raw);
    let g = group_events(events);
    Ok(import_grouped(hash.as_str(), path, &g, opts))
}

/// A text, where there is one.
pub open spec fn listed(text: Option<Seq<char>>) -> Seq<Seq<char>> {
    match text {
        Some(x) => seq![x],
        None => Seq::empty(),
    }
}

/// The texts of a call that are redacted: the command, the summary of the output, the
/// output itself, and, where the call ran tests that passed, that summary once it is
/// redacted.
pub open spec fn call_texts(call: CallPair, table: Seq<(Seq<char>, Seq<char>)>) -> Seq<Seq<char>> {
    let a = action_of(call, 0, ""@, 0, ""@, table);
    seq![a.command, a.raw_summary] + listed(a.stdout) + listed(a.stderr) + (if tests_passed(a) {
        seq![a.summary]
    } else {
        Seq::empty()
    })
}

/// The texts of a call that are redacted.
pub fn texts_to_redact(
    call: &(CodexFunctionCall, Option<CodexFunctionCallOutput>),
    opts: &ImportOptions,
) -> (r: Vec<String>)
    ensures
        views(r@) == call_texts(*call, opts@),
{
    let a = read_action(call, 0, "", 0, "", opts);
    let passed = passed_tests(&a);
    let mut r: Vec<String> = Vec::new();
    push_line(&mut r, a.command);
    push_line(&mut r, a.raw_summary);
    if let Some(x) = a.stdout {
        push_line(&mut r, x);
    }
    if let Some(x) = a.stderr {
        push_line(&mut r, x);
    }
    if passed {
        push_line(&mut r, a.summary);
    }
    assert(views(r@) =~= call_texts(*call, opts@));
    r
}

// ---------------------------------------------------------------------------
// Laws
// ---------------------------------------------------------------------------

/// Whether a call ran tests in the shell that passed.
pub open spec fn call_passed(call: CallPair) -> bool {
    let arguments = call_arguments(call.0);
    &&& call.0.name@ == "shell"@
    &&& runs_tests(command_text(arguments, json_items_of(arguments, "cmd"@)))
    &&& output_or_none(call_output(call.1)).exit_code == Some(0i64)
}

spec fn holds(s: Seq<RecordView>, p: spec_fn(RecordView) -> bool) -> bool {
    forall|i: int| 0 <= i < s.len() ==> p(#[trigger] s[i])
}

/// Whether nothing of what a node has more is a free text.
pub open spec fn textless(x: NodeExtraView) -> bool {
    &&& x.text is None
    &&& x.arguments_summary is None
    &&& x.arguments_handle is None
    &&& x.stdout_handle is None
    &&& x.stderr_handle is None
}

spec fn admits_action(
    q: spec_fn(NodeKind, NodeExtraView) -> bool,
    a: ActionView,
    c: ImportCtxView,
) -> bool {
    &&& q(NodeKind::ToolCall, tool_call_extra(a, c))
    &&& q(NodeKind::CommandRun, command_run_extra(a, c))
    &&& q(NodeKind::FileEdit, file_edit_extra(a, c))
    &&& q(NodeKind::PatchArtifact, patch_extra(a, c))
    &&& forall|kind: Seq<char>| q(NodeKind::Failure, #[trigger] failure_extra(kind, a, c))
    &&& tests_passed(a) ==> q(NodeKind::Verification, verification_extra(a, c))
}

#[verifier::opaque]
spec fn admits(
    p: spec_fn(RecordView) -> bool,
    c: ImportCtxView,
    verification: bool,
    q: spec_fn(NodeKind, NodeExtraView) -> bool,
) -> bool {
    &&& forall|id: Seq<char>, kind: NodeKind, summary: Seq<char>, x: NodeExtraView|
        #![trigger import_node(id, kind, summary, c, x)]
        (verification || kind != NodeKind::Verification) && q(kind, x) ==> p(
            RecordView::Node(import_node(id, kind, summary, c, x)),
        )
    &&& forall|kind: NodeKind, x: NodeExtraView|
        textless(x) || kind == NodeKind::CostUsage ==> #[trigger] q(kind, x)
    &&& forall|label: EdgeLabel, source: Seq<char>, target: Seq<char>, summary: Seq<char>|
        #![trigger import_edge(label, source, target, summary)]
        p(RecordView::Edge(import_edge(label, source, target, summary)))
}

proof fn lemma_holds_append(a: Seq<RecordView>, b: Seq<RecordView>, p: spec_fn(RecordView) -> bool)
    requires
        holds(a, p),
        holds(b, p),
    ensures
        holds(a + b, p),
{
    assert forall|i: int| 0 <= i < (a + b).len() implies p(#[trigger] (a + b)[i]) by {
        if i < a.len() {
            assert((a + b)[i] == a[i]);
        } else {
            assert((a + b)[i] == b[i - a.len()]);
        }
    }
}

proof fn lemma_owned_holds(
    id: Seq<char>,
    kind: NodeKind,
    summary: Seq<char>,
    c: ImportCtxView,
    x: NodeExtraView,
    owner: Seq<char>,
    edge_summary: Seq<char>,
    p: spec_fn(RecordView) -> bool,
    v: bool,
    q: spec_fn(NodeKind, NodeExtraView) -> bool,
)
    requires
        admits(p, c, v, q),
        v || kind != NodeKind::Verification,
        q(kind, x),
    ensures
        holds(owned(id, kind, summary, c, x, owner, edge_summary), p),
{
    reveal(admits);
    let s = owned(id, kind, summary, c, x, owner, edge_summary);
    assert forall|i: int| 0 <= i < s.len() implies p(#[trigger] s[i]) by {
        if i == 0 {
            assert(s[i] == RecordView::Node(import_node(id, kind, summary, c, x)));
        } else {
            assert(s[i] == RecordView::Edge(
                import_edge(EdgeLabel::AuthoredBy, id, owner, edge_summary),
            ));
        }
    }
}

proof fn lemma_linked_holds(
    label: EdgeLabel,
    source: Seq<char>,
    target: Seq<char>,
    summary: Seq<char>,
    c: ImportCtxView,
    p: spec_fn(RecordView) -> bool,
    v: bool,
    q: spec_fn(NodeKind, NodeExtraView) -> bool,
)
    requires
        admits(p, c, v, q),
    ensures
        holds(linked(label, source, target, summary), p),
{
    reveal(admits);
    let s = linked(label, source, target, summary);
    assert(s[0] == RecordView::Edge(import_edge(label, source, target, summary)));
}

proof fn lemma_failure_holds(
    kind: Seq<char>,
    summary: Seq<char>,
    failed: Seq<char>,
    edge_summary: Seq<char>,
    a: ActionView,
    c: ImportCtxView,
    p: spec_fn(RecordView) -> bool,
    v: bool,
    q: spec_fn(NodeKind, NodeExtraView) -> bool,
)
    requires
        admits(p, c, v, q),
        q(NodeKind::Failure, failure_extra(kind, a, c)),
    ensures
        holds(failure_records(kind, summary, failed, edge_summary, a, c), p),
{
    let id = action_failure_id(kind, a);
    let x = failure_extra(kind, a, c);
    let edge = "Failure belongs to AgentTurn"@;
    lemma_owned_holds(id, NodeKind::Failure, summary, c, x, a.turn_id, edge, p, v, q);
    lemma_linked_holds(EdgeLabel::FailedOn, id, failed, edge_summary, c, p, v, q);
    lemma_holds_append(
        owned(id, NodeKind::Failure, summary, c, x, a.turn_id, edge),
        linked(EdgeLabel::FailedOn, id, failed, edge_summary),
        p,
    );
}

proof fn lemma_patch_holds(
    a: ActionView,
    c: ImportCtxView,
    p: spec_fn(RecordView) -> bool,
    v: bool,
    q: spec_fn(NodeKind, NodeExtraView) -> bool,
)
    requires
        admits(p, c, v, q),
        admits_action(q, a, c),
    ensures
        holds(patch_records(a, c), p),
{
    let id = action_node_id("patch_artifact"@, a);
    let summary = "PatchArtifact status="@ + patch_status_of(a) + " turn="@ + decimal_seq(
        a.turn_index as nat,
    );
    let edge = "PatchArtifact belongs to AgentTurn"@;
    let made = "AgentRun produced patch artifact"@;
    lemma_owned_holds(
        id,
        NodeKind::PatchArtifact,
        summary,
        c,
        patch_extra(a, c),
        a.turn_id,
        edge,
        p,
        v,
        q,
    );
    lemma_linked_holds(EdgeLabel::ProducedPatch, a.run_id, id, made, c, p, v, q);
    lemma_holds_append(
        owned(id, NodeKind::PatchArtifact, summary, c, patch_extra(a, c), a.turn_id, edge),
        linked(EdgeLabel::ProducedPatch, a.run_id, id, made),
        p,
    );
    let invalid = "Failure patch_invalid turn="@ + decimal_seq(a.turn_index as nat);
    let describes = "Failure describes invalid PatchArtifact"@;
    lemma_failure_holds("patch_invalid"@, invalid, id, describes, a, c, p, v, q);
    lemma_holds_append(
        patch_node_records(a, c),
        failure_records("patch_invalid"@, invalid, id, describes, a, c),
        p,
    );
    lemma_failure_holds(
        "command_failure"@,
        "Failure command_failure exit="@ + exit_text(a.exit_code) + " turn="@ + decimal_seq(
            a.turn_index as nat,
        ),
        action_node_id("command_run"@, a),
        "Failure describes failed CommandRun"@,
        a,
        c,
        p,
        v,
        q,
    );
}

proof fn lemma_verification_holds(
    a: ActionView,
    c: ImportCtxView,
    p: spec_fn(RecordView) -> bool,
    v: bool,
    q: spec_fn(NodeKind, NodeExtraView) -> bool,
)
    requires
        admits(p, c, v, q),
        tests_passed(a) ==> v,
        admits_action(q, a, c),
    ensures
        holds(verification_records(a, c), p),
{
    if tests_passed(a) {
        let id = action_node_id("verification"@, a);
        let summary = "Verification passed turn="@ + decimal_seq(a.turn_index as nat);
        let edge = "Verification belongs to AgentTurn"@;
        let validated = "AgentRun validated by test result"@;
        let x = verification_extra(a, c);
        lemma_owned_holds(id, NodeKind::Verification, summary, c, x, a.turn_id, edge, p, v, q);
        lemma_linked_holds(EdgeLabel::ValidatedBy, a.run_id, id, validated, c, p, v, q);
        lemma_holds_append(
            owned(id, NodeKind::Verification, summary, c, x, a.turn_id, edge),
            linked(EdgeLabel::ValidatedBy, a.run_id, id, validated),
            p,
        );
    }
}

proof fn lemma_action_holds(
    a: ActionView,
    c: ImportCtxView,
    p: spec_fn(RecordView) -> bool,
    v: bool,
    q: spec_fn(NodeKind, NodeExtraView) -> bool,
)
    requires
        admits(p, c, v, q),
        tests_passed(a) ==> v,
        admits_action(q, a, c),
    ensures
        holds(action_records(a, c), p),
{
    reveal(action_records);
    let p1 = tool_call_records(a, c);
    let p2 = command_run_records(a, c);
    let p3 = file_edit_records(a, c);
    let p4 = patch_records(a, c);
    let p5 = verification_records(a, c);
    lemma_owned_holds(
        action_node_id("tool_call"@, a),
        NodeKind::ToolCall,
        "ToolCall "@ + a.name + " turn="@ + decimal_seq(a.turn_index as nat) + " action="@
            + decimal_seq(a.index as nat),
        c,
        tool_call_extra(a, c),
        a.turn_id,
        "ToolCall belongs to AgentTurn"@,
        p,
        v,
        q,
    );
    lemma_owned_holds(
        action_node_id("command_run"@, a),
        NodeKind::CommandRun,
        "CommandRun exit="@ + exit_text(a.exit_code) + " turn="@ + decimal_seq(
            a.turn_index as nat,
        ),
        c,
        command_run_extra(a, c),
        a.turn_id,
        "CommandRun belongs to AgentTurn"@,
        p,
        v,
        q,
    );
    lemma_owned_holds(
        action_node_id("file_edit"@, a),
        NodeKind::FileEdit,
        "FileEdit "@ + text_or(last_file(a.parts), "unknown"@) + " turn="@ + decimal_seq(
            a.turn_index as nat,
        ),
        c,
        file_edit_extra(a, c),
        a.turn_id,
        "FileEdit belongs to AgentTurn"@,
        p,
        v,
        q,
    );
    lemma_patch_holds(a, c, p, v, q);
    lemma_verification_holds(a, c, p, v, q);
    lemma_holds_append(p1, p2, p);
    lemma_holds_append(p1 + p2, p3, p);
    lemma_holds_append(p1 + p2 + p3, p4, p);
    lemma_holds_append(p1 + p2 + p3 + p4, p5, p);
}

proof fn lemma_calls_hold(
    turn_id: Seq<char>,
    t: TurnView,
    run_id: Seq<char>,
    c: ImportCtxView,
    table: Seq<(Seq<char>, Seq<char>)>,
    n: int,
    p: spec_fn(RecordView) -> bool,
    v: bool,
    q: spec_fn(NodeKind, NodeExtraView) -> bool,
)
    requires
        admits(p, c, v, q),
        0 <= n <= t.tool_calls.len(),
        !v ==> forall|j: int| 0 <= j < t.tool_calls.len() ==> !call_passed(
            #[trigger] t.tool_calls[j],
        ),
        forall|j: int, k: u64|
            0 <= j < t.tool_calls.len() ==> admits_action(
                q,
                #[trigger] action_of(t.tool_calls[j], k, turn_id, t.turn_index, run_id, table),
                c,
            ),
    ensures
        holds(call_records(turn_id, t, run_id, c, table, n), p),
    decreases n,
{
    if n > 0 {
        lemma_calls_hold(turn_id, t, run_id, c, table, n - 1, p, v, q);
        let call = t.tool_calls[n - 1];
        let a = action_of(call, (n - 1) as u64, turn_id, t.turn_index, run_id, table);
        assert(tests_passed(a) == call_passed(call));
        lemma_action_holds(a, c, p, v, q);
        lemma_holds_append(
            call_records(turn_id, t, run_id, c, table, n - 1),
            action_records(a, c),
            p,
        );
    }
}

proof fn lemma_turn_holds(
    t: TurnView,
    run_id: Seq<char>,
    c: ImportCtxView,
    table: Seq<(Seq<char>, Seq<char>)>,
    p: spec_fn(RecordView) -> bool,
    v: bool,
    q: spec_fn(NodeKind, NodeExtraView) -> bool,
)
    requires
        admits(p, c, v, q),
        !v ==> forall|j: int| 0 <= j < t.tool_calls.len() ==> !call_passed(
            #[trigger] t.tool_calls[j],
        ),
        forall|call: CallPair, k: u64, turn_id: Seq<char>|
            t.tool_calls.contains(call) ==> admits_action(
                q,
                #[trigger] action_of(call, k, turn_id, t.turn_index, run_id, table),
                c,
            ),
    ensures
        holds(turn_records(t, run_id, c, table), p),
{
    reveal(turn_records);
    let turn_id = turn_node_id(run_id, t.turn_index);
    let p1 = turn_node_records(turn_id, t, run_id, c);
    let p2 = usage_records(turn_id, t, c);
    let p3 = aborted_records(turn_id, t, c);
    let p4 = call_records(turn_id, t, run_id, c, table, t.tool_calls.len() as int);
    assert(q(NodeKind::AgentTurn, turn_extra(t, c))) by {
        reveal(admits);
        assert(textless(turn_extra(t, c)));
    }
    lemma_owned_holds(
        turn_id,
        NodeKind::AgentTurn,
        "AgentTurn "@ + decimal_seq(t.turn_index as nat),
        c,
        turn_extra(t, c),
        run_id,
        "AgentTurn "@ + decimal_seq(t.turn_index as nat) + " belongs to AgentRun"@,
        p,
        v,
        q,
    );
    assert(holds(p2, p)) by {
        reveal(admits);
    }
    assert(holds(p3, p)) by {
        reveal(admits);
    }
    lemma_calls_hold(
        turn_id,
        t,
        run_id,
        c,
        table,
        t.tool_calls.len() as int,
        p,
        v,
        q,
    );
    lemma_holds_append(p1, p2, p);
    lemma_holds_append(p1 + p2, p3, p);
    lemma_holds_append(p1 + p2 + p3, p4, p);
}

proof fn lemma_turns_hold(
    turns: Seq<TurnView>,
    run_id: Seq<char>,
    c: ImportCtxView,
    table: Seq<(Seq<char>, Seq<char>)>,
    n: int,
    p: spec_fn(RecordView) -> bool,
    v: bool,
    q: spec_fn(NodeKind, NodeExtraView) -> bool,
)
    requires
        admits(p, c, v, q),
        0 <= n <= turns.len(),
        !v ==> forall|i: int, j: int|
            0 <= i < turns.len() && 0 <= j < turns[i].tool_calls.len() ==> !call_passed(
                #[trigger] turns[i].tool_calls[j],
            ),
        forall|i: int, call: CallPair, k: u64, turn_id: Seq<char>, n: u64, r: Seq<char>|
            0 <= i < turns.len() && (#[trigger] turns[i]).tool_calls.contains(call) ==> admits_action(
                q,
                #[trigger] action_of(call, k, turn_id, n, r, table),
                c,
            ),
    ensures
        holds(turns_records(turns, run_id, c, table, n), p),
    decreases n,
{
    if n > 0 {
        lemma_turns_hold(turns, run_id, c, table, n - 1, p, v, q);
        lemma_turn_holds(turns[n - 1], run_id, c, table, p, v, q);
        lemma_holds_append(
            turns_records(turns, run_id, c, table, n - 1),
            turn_records(turns[n - 1], run_id, c, table),
            p,
        );
    }
}

proof fn lemma_interruptions_hold(
    s: Seq<CodexInterrupted>,
    run_id: Seq<char>,
    c: ImportCtxView,
    n: int,
    p: spec_fn(RecordView) -> bool,
    v: bool,
    q: spec_fn(NodeKind, NodeExtraView) -> bool,
)
    requires
        admits(p, c, v, q),
        0 <= n <= s.len(),
    ensures
        holds(interruptions_records(s, run_id, c, n), p),
    decreases n,
{
    if n > 0 {
        lemma_interruptions_hold(s, run_id, c, n - 1, p, v, q);
        let one = interruption_records((n - 1) as u64, s[n - 1], run_id, c);
        assert(holds(one, p)) by {
            reveal(admits);
        }
        lemma_holds_append(interruptions_records(s, run_id, c, n - 1), one, p);
    }
}

proof fn lemma_unknowns_hold(
    lines: Seq<usize>,
    run_id: Seq<char>,
    c: ImportCtxView,
    n: int,
    p: spec_fn(RecordView) -> bool,
    v: bool,
    q: spec_fn(NodeKind, NodeExtraView) -> bool,
)
    requires
        admits(p, c, v, q),
        0 <= n <= lines.len(),
    ensures
        holds(unknowns_records(lines, run_id, c, n), p),
    decreases n,
{
    if n > 0 {
        lemma_unknowns_hold(lines, run_id, c, n - 1, p, v, q);
        let one = unknown_records(lines[n - 1], run_id, c);
        assert(holds(one, p)) by {
            reveal(admits);
        }
        lemma_holds_append(unknowns_records(lines, run_id, c, n - 1), one, p);
    }
}

proof fn lemma_gaps_hold(
    gaps: Seq<(usize, Seq<char>)>,
    run_id: Seq<char>,
    c: ImportCtxView,
    n: int,
    p: spec_fn(RecordView) -> bool,
    v: bool,
    q: spec_fn(NodeKind, NodeExtraView) -> bool,
)
    requires
        admits(p, c, v, q),
        0 <= n <= gaps.len(),
    ensures
        holds(gaps_records(gaps, run_id, c, n), p),
    decreases n,
{
    if n > 0 {
        lemma_gaps_hold(gaps, run_id, c, n - 1, p, v, q);
        let one = gap_records(gaps[n - 1].0, gaps[n - 1].1, run_id, c);
        assert(holds(one, p)) by {
            reveal(admits);
        }
        lemma_holds_append(gaps_records(gaps, run_id, c, n - 1), one, p);
    }
}

proof fn lemma_import_holds(
    hash: Seq<char>,
    path: Seq<char>,
    g: GroupedView,
    table: Seq<(Seq<char>, Seq<char>)>,
    p: spec_fn(RecordView) -> bool,
    v: bool,
    q: spec_fn(NodeKind, NodeExtraView) -> bool,
)
    requires
        admits(p, import_ctx(hash, path, g.flavor), v, q),
        !v ==> forall|i: int, j: int|
            0 <= i < g.turns.len() && 0 <= j < g.turns[i].tool_calls.len() ==> !call_passed(
                #[trigger] g.turns[i].tool_calls[j],
            ),
        forall|i: int, call: CallPair, k: u64, turn_id: Seq<char>, n: u64, r: Seq<char>|
            0 <= i < g.turns.len() && (#[trigger] g.turns[i]).tool_calls.contains(call) ==> admits_action(
                q,
                #[trigger] action_of(call, k, turn_id, n, r, table),
                import_ctx(hash, path, g.flavor),
            ),
    ensures
        holds(import_records(hash, path, g, table), p),
{
    let c = import_ctx(hash, path, g.flavor);
    let run_id = run_node_id(c.session_id);
    let p1 = head_records(g.flavor, c);
    let p2 = turns_records(g.turns, run_id, c, table, g.turns.len() as int);
    let p3 = interruptions_records(g.interruptions, run_id, c, g.interruptions.len() as int);
    let p4 = unknowns_records(g.unknown_indices, run_id, c, g.unknown_indices.len() as int);
    let p5 = gaps_records(g.gaps, run_id, c, g.gaps.len() as int);
    assert(holds(p1, p)) by {
        reveal(admits);
        reveal(head_records);
    }
    lemma_turns_hold(g.turns, run_id, c, table, g.turns.len() as int, p, v, q);
    lemma_interruptions_hold(g.interruptions, run_id, c, g.interruptions.len() as int, p, v, q);
    lemma_unknowns_hold(g.unknown_indices, run_id, c, g.unknown_indices.len() as int, p, v, q);
    lemma_holds_append(p1, p2, p);
    lemma_holds_append(p1 + p2, p3, p);
    lemma_gaps_hold(g.gaps, run_id, c, g.gaps.len() as int, p, v, q);
    lemma_holds_append(p1 + p2 + p3, p4, p);
    lemma_holds_append(p1 + p2 + p3 + p4, p5, p);
}

/// Every expected field that an event lacks becomes a diagnostic of the run.
pub proof fn law_absent_fields_become_diagnostics(
    hash: Seq<char>,
    path: Seq<char>,
    events: Seq<(usize, CodexEvent)>,
    table: Seq<(Seq<char>, Seq<char>)>,
    i: int,
    k: int,
)
    requires
        0 <= i < events.len(),
        0 <= k < gaps_of(events[i].1).len(),
    ensures
        ({
            let g = grouped(events);
            let c = import_ctx(hash, path, g.flavor);
            import_records(hash, path, g, table).contains(
                gap_records(
                    events[i].0,
                    gaps_of(events[i].1)[k],
                    run_node_id(c.session_id),
                    c,
                )[0],
            )
        }),
{
    law_absent_fields_are_noted(events, i, k);
    let g = grouped(events);
    let c = import_ctx(hash, path, g.flavor);
    let run_id = run_node_id(c.session_id);
    let x = (events[i].0, gaps_of(events[i].1)[k]);
    let j = choose|j: int| 0 <= j < g.gaps.len() && g.gaps[j] == x;
    let tail = gaps_records(g.gaps, run_id, c, g.gaps.len() as int);
    lemma_gap_told(g.gaps, run_id, c, g.gaps.len() as int, j);
    let one = gap_records(x.0, x.1, run_id, c)[0];
    let m = choose|m: int| 0 <= m < tail.len() && tail[m] == one;
    let all = import_records(hash, path, g, table);
    assert(all[all.len() - tail.len() + m] == one);
}

proof fn lemma_gap_told(
    gaps: Seq<(usize, Seq<char>)>,
    run_id: Seq<char>,
    c: ImportCtxView,
    n: int,
    j: int,
)
    requires
        0 <= j < n <= gaps.len(),
    ensures
        gaps_records(gaps, run_id, c, n).contains(
            gap_records(gaps[j].0, gaps[j].1, run_id, c)[0],
        ),
    decreases n,
{
    let before = gaps_records(gaps, run_id, c, n - 1);
    let here = gap_records(gaps[n - 1].0, gaps[n - 1].1, run_id, c);
    let one = gap_records(gaps[j].0, gaps[j].1, run_id, c)[0];
    assert(here.len() == 2);
    if j < n - 1 {
        lemma_gap_told(gaps, run_id, c, n - 1, j);
        let m = choose|m: int| 0 <= m < before.len() && before[m] == one;
        assert((before + here)[m] == one);
    } else {
        assert((before + here)[before.len() as int] == here[0]);
    }
}

/// Whether a node says which artifact it comes from, and what read it.
pub open spec fn names_artifact(n: NodeView, hash: Seq<char>, path: Seq<char>) -> bool {
    &&& n.domain == Some(DOMAIN@)
    &&& n.schema_version == AGENT_MEMORY_SCHEMA_VERSION
    &&& n.importer_id == Some(IMPORTER_ID@)
    &&& n.importer_version == Some(IMPORTER_VERSION@)
    &&& n.source_artifact_path == Some(path)
    &&& n.source_artifact_hash == Some(hash)
    &&& n.session_id == Some(session_node_id(hash))
}

/// Every node of an import says which artifact it comes from, and what read it.
pub proof fn law_every_node_names_its_artifact(
    hash: Seq<char>,
    path: Seq<char>,
    g: GroupedView,
    table: Seq<(Seq<char>, Seq<char>)>,
    i: int,
)
    requires
        0 <= i < import_records(hash, path, g, table).len(),
        import_records(hash, path, g, table)[i] is Node,
    ensures
        names_artifact(import_records(hash, path, g, table)[i]->Node_0, hash, path),
{
    let c = import_ctx(hash, path, g.flavor);
    let p = |r: RecordView|
        match r {
            RecordView::Node(n) => names_artifact(n, hash, path),
            _ => true,
        };
    let q = |kind: NodeKind, x: NodeExtraView| true;
    assert(admits(p, c, true, q)) by {
        reveal(admits);
        reveal(import_node);
    }
    lemma_import_holds(hash, path, g, table, p, true, q);
    assert(p(import_records(hash, path, g, table)[i]));
}

/// Only tests that passed verify anything: where no call of the shell ran tests and
/// ended with nil, no record is a verification, whatever the messages say.
pub proof fn law_only_passing_tests_verify(
    hash: Seq<char>,
    path: Seq<char>,
    g: GroupedView,
    table: Seq<(Seq<char>, Seq<char>)>,
    i: int,
)
    requires
        forall|t: int, j: int|
            0 <= t < g.turns.len() && 0 <= j < g.turns[t].tool_calls.len() ==> !call_passed(
                #[trigger] g.turns[t].tool_calls[j],
            ),
        0 <= i < import_records(hash, path, g, table).len(),
    ensures
        match import_records(hash, path, g, table)[i] {
            RecordView::Node(n) => n.kind != NodeKind::Verification,
            _ => true,
        },
{
    let c = import_ctx(hash, path, g.flavor);
    let p = |r: RecordView|
        match r {
            RecordView::Node(n) => n.kind != NodeKind::Verification,
            _ => true,
        };
    let q = |kind: NodeKind, x: NodeExtraView| true;
    assert(admits(p, c, false, q)) by {
        reveal(admits);
        reveal(import_node);
    }
    lemma_import_holds(hash, path, g, table, p, false, q);
    assert(p(import_records(hash, path, g, table)[i]));
}

/// Whether the table lists the text.
pub open spec fn lists(table: Seq<(Seq<char>, Seq<char>)>, text: Seq<char>) -> bool {
    exists|i: int| 0 <= i < table.len() && (#[trigger] table[i]).0 == text
}

/// Whether the text is what the table gives for some text.
pub open spec fn is_replacement(table: Seq<(Seq<char>, Seq<char>)>, text: Seq<char>) -> bool {
    exists|i: int| 0 <= i < table.len() && (#[trigger] table[i]).1 == text
}

/// Whether a content, where there is one, is held as the table gives it.
pub open spec fn holds_replacement(
    table: Seq<(Seq<char>, Seq<char>)>,
    h: Option<OutputHandleView>,
) -> bool {
    h is Some && h->0.inline is Some ==> is_replacement(table, h->0.inline->0)
}

/// Whether every free text of a node is one that the table gives.
pub open spec fn texts_redacted(table: Seq<(Seq<char>, Seq<char>)>, n: NodeView) -> bool {
    &&& n.text is Some ==> is_replacement(table, n.text->0)
    &&& n.arguments_summary is Some ==> is_replacement(table, n.arguments_summary->0)
    &&& holds_replacement(table, n.arguments_handle)
    &&& holds_replacement(table, n.stdout_handle)
    &&& holds_replacement(table, n.stderr_handle)
}

spec fn extra_redacted(table: Seq<(Seq<char>, Seq<char>)>, x: NodeExtraView) -> bool {
    &&& x.text is Some ==> is_replacement(table, x.text->0)
    &&& x.arguments_summary is Some ==> is_replacement(table, x.arguments_summary->0)
    &&& holds_replacement(table, x.arguments_handle)
    &&& holds_replacement(table, x.stdout_handle)
    &&& holds_replacement(table, x.stderr_handle)
}

proof fn lemma_redacted_listed(table: Seq<(Seq<char>, Seq<char>)>, text: Seq<char>, i: int)
    requires
        0 <= i <= table.len(),
        exists|k: int| i <= k < table.len() && (#[trigger] table[k]).0 == text,
    ensures
        is_replacement(table, redacted_from(table, text, i)),
    decreases table.len() - i,
{
    let k = choose|k: int| i <= k < table.len() && (#[trigger] table[k]).0 == text;
    if table[i].0 != text {
        assert(i + 1 <= k);
        lemma_redacted_listed(table, text, i + 1);
    } else {
        assert(table[i].1 == redacted_from(table, text, i));
    }
}

proof fn lemma_action_redacted(
    call: CallPair,
    k: u64,
    turn_id: Seq<char>,
    n: u64,
    run_id: Seq<char>,
    table: Seq<(Seq<char>, Seq<char>)>,
    c: ImportCtxView,
    q: spec_fn(NodeKind, NodeExtraView) -> bool,
)
    requires
        forall|t: Seq<char>| call_texts(call, table).contains(t) ==> #[trigger] lists(table, t),
        forall|kind: NodeKind, x: NodeExtraView|
            extra_redacted(table, x) ==> #[trigger] q(kind, x),
    ensures
        admits_action(q, action_of(call, k, turn_id, n, run_id, table), c),
{
    let b = action_of(call, 0, ""@, 0, ""@, table);
    let a = action_of(call, k, turn_id, n, run_id, table);
    let ts = call_texts(call, table);
    let first = seq![b.command, b.raw_summary];
    let mid = first + listed(b.stdout) + listed(b.stderr);
    assert(ts[0] == b.command);
    assert(ts[1] == b.raw_summary);
    assert(lists(table, b.command));
    assert(lists(table, b.raw_summary));
    lemma_redacted_listed(table, b.command, 0);
    lemma_redacted_listed(table, b.raw_summary, 0);
    if b.stdout is Some {
        assert(ts[2] == b.stdout->0);
        assert(lists(table, b.stdout->0));
        lemma_redacted_listed(table, b.stdout->0, 0);
    }
    if b.stderr is Some {
        let at = first.len() + listed(b.stdout).len();
        assert(ts[at as int] == b.stderr->0);
        assert(lists(table, b.stderr->0));
        lemma_redacted_listed(table, b.stderr->0, 0);
    }
    if tests_passed(a) {
        assert(tests_passed(b));
        assert(ts[mid.len() as int] == b.summary);
        assert(lists(table, b.summary));
        lemma_redacted_listed(table, b.summary, 0);
    }
    assert(extra_redacted(table, tool_call_extra(a, c)));
    assert(extra_redacted(table, command_run_extra(a, c)));
    assert(extra_redacted(table, file_edit_extra(a, c)));
    assert(extra_redacted(table, patch_extra(a, c)));
    assert forall|kind: Seq<char>| q(
        NodeKind::Failure,
        #[trigger] failure_extra(kind, a, c),
    ) by {
        assert(extra_redacted(table, failure_extra(kind, a, c)));
    }
    if tests_passed(a) {
        assert(extra_redacted(table, verification_extra(a, c)));
    }
}

/// Commands and outputs are stored only as they were redacted: where the table lists every
/// text that is offered for redaction, each free text of each node but the counts of
/// tokens is one that the table gives.
pub proof fn law_texts_are_stored_redacted(
    hash: Seq<char>,
    path: Seq<char>,
    g: GroupedView,
    table: Seq<(Seq<char>, Seq<char>)>,
    i: int,
)
    requires
        forall|t: int, j: int, x: Seq<char>|
            0 <= t < g.turns.len() && 0 <= j < g.turns[t].tool_calls.len() && #[trigger] call_texts(
                g.turns[t].tool_calls[j],
                table,
            ).contains(x) ==> lists(table, x),
        0 <= i < import_records(hash, path, g, table).len(),
    ensures
        match import_records(hash, path, g, table)[i] {
            RecordView::Node(n) => n.kind == NodeKind::CostUsage || texts_redacted(table, n),
            _ => true,
        },
{
    let c = import_ctx(hash, path, g.flavor);
    let p = |r: RecordView|
        match r {
            RecordView::Node(n) => n.kind == NodeKind::CostUsage || texts_redacted(table, n),
            _ => true,
        };
    let q = |kind: NodeKind, x: NodeExtraView|
        kind == NodeKind::CostUsage || extra_redacted(table, x);
    assert(admits(p, c, true, q)) by {
        reveal(admits);
        reveal(import_node);
    }
    assert forall|t: int, call: CallPair, k: u64, turn_id: Seq<char>, n: u64, r: Seq<char>|
        0 <= t < g.turns.len() && (#[trigger] g.turns[t]).tool_calls.contains(
            call,
        ) implies admits_action(q, #[trigger] action_of(call, k, turn_id, n, r, table), c) by {
        let j = choose|j: int|
            0 <= j < g.turns[t].tool_calls.len() && g.turns[t].tool_calls[j] == call;
        assert forall|x: Seq<char>| call_texts(call, table).contains(x) implies #[trigger] lists(
            table,
            x,
        ) by {
            assert(call_texts(g.turns[t].tool_calls[j], table).contains(x));
        }
        lemma_action_redacted(call, k, turn_id, n, r, table, c, q);
    }
    lemma_import_holds(hash, path, g, table, p, true, q);
    assert(p(import_records(hash, path, g, table)[i]));
}

/// What a call gave back reaches no record but through redaction: two actions that differ
/// only in the output and its summary as they were before redaction become the same
/// records.
pub proof fn law_raw_output_reaches_no_record(
    a: ActionView,
    c: ImportCtxView,
    stdout: Option<Seq<char>>,
    stderr: Option<Seq<char>>,
    raw_summary: Seq<char>,
)
    ensures
        action_records(ActionView { stdout, stderr, raw_summary, ..a }, c) == action_records(a, c),
{
    reveal(action_records);
    let b = ActionView { stdout, stderr, raw_summary, ..a };
    assert(tool_call_records(b, c) == tool_call_records(a, c));
    assert(command_run_records(b, c) == command_run_records(a, c));
    assert(file_edit_records(b, c) == file_edit_records(a, c));
    assert(patch_records(b, c) == patch_records(a, c));
    assert(verification_records(b, c) == verification_records(a, c));
}

/// The session of an artifact is the same whenever, from wherever and however often its
/// bytes are imported.
pub proof fn law_same_bytes_same_session(
    hash: Seq<char>,
    path: Seq<char>,
    other_path: Seq<char>,
    g: GroupedView,
    h: GroupedView,
    table: Seq<(Seq<char>, Seq<char>)>,
    other_table: Seq<(Seq<char>, Seq<char>)>,
)
    ensures
        import_records(hash, path, g, table).len() > 0,
        import_records(hash, path, g, table)[0] is Node,
        import_records(hash, path, g, table)[0]->Node_0.kind == NodeKind::AgentSession,
        import_records(hash, path, g, table)[0]->Node_0.id == session_node_id(hash),
        import_records(hash, other_path, h, other_table)[0]->Node_0.id == import_records(
            hash,
            path,
            g,
            table,
        )[0]->Node_0.id,
{
    lemma_first_record(hash, path, g, table);
    lemma_first_record(hash, other_path, h, other_table);
}

proof fn lemma_first_record(
    hash: Seq<char>,
    path: Seq<char>,
    g: GroupedView,
    table: Seq<(Seq<char>, Seq<char>)>,
)
    ensures
        import_records(hash, path, g, table).len() > 0,
        import_records(hash, path, g, table)[0] is Node,
        import_records(hash, path, g, table)[0]->Node_0.kind == NodeKind::AgentSession,
        import_records(hash, path, g, table)[0]->Node_0.id == session_node_id(hash),
{
    reveal(head_records);
    reveal(import_node);
    let c = import_ctx(hash, path, g.flavor);
    assert(import_records(hash, path, g, table)[0] == head_records(g.flavor, c)[0]);
}

/// A content over the ceiling is held by its hash alone.
pub proof fn law_long_contents_are_not_held(content: Seq<char>)
    ensures
        handle_of(content).inline is Some <==> width(content) <= INLINE_PAYLOAD_CEILING,
        handle_of(content).hash == text_hash(content),
{
}

} // verus!
