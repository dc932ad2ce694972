//! What a session of a coding agent wrote down: its events, its commands and their
//! grouping into turns.

use vstd::prelude::*;
use vstd::string::*;

use crate::collections::contains_string;
use crate::outside::{
    json_i64_at, json_i64_of, json_is_valid, json_items_at, json_items_of, json_str_at,
    json_str_of, json_valid_of,
};
use crate::scan::{is_blank, split_whitespace, trim, trim_seq, words};
use crate::text::{
    concat2, contains_char, ends_with, has_prefix, item_views, join, join_seq, opt_item_views,
    opt_str_view, opt_view, split, split_seq, starts_with, str_eq, views,
};

verus! {

// ---------------------------------------------------------------------------
// Events
// ---------------------------------------------------------------------------

/// The header of a session.
#[derive(Clone, Debug, PartialEq, Eq, Default)]
pub struct CodexSessionHeader {
    /// The identifier of the session.
    pub id: Option<String>,
    /// The model.
    pub model: Option<String>,
    /// When the session was made.
    pub created_at: Option<String>,
    /// The instructions of the session. No record holds them.
    pub instructions: Option<String>,
}

/// The header of a rollout.
#[derive(Clone, Debug, PartialEq, Eq, Default)]
pub struct CodexRolloutHeader {
    /// The identifier of the run.
    pub run_id: Option<String>,
    /// The identifier of the session.
    pub session_id: Option<String>,
    /// The model.
    pub model: Option<String>,
    /// When the run began.
    pub started_at: Option<String>,
}

/// A block of a message.
#[derive(Clone, Debug, PartialEq, Eq, Default)]
pub struct ContentBlock {
    /// The kind of block, such as `input_text`.
    pub block_type: String,
    /// The text.
    pub text: Option<String>,
}

/// How many tokens a message took.
#[derive(Clone, Copy, Debug, PartialEq, Eq, Default)]
pub struct CodexUsage {
    pub input_tokens: Option<u64>,
    pub output_tokens: Option<u64>,
    pub total_tokens: Option<u64>,
}

/// A number of tokens, where none is given nil.
pub open spec fn tokens(n: Option<u64>) -> u64 {
    match n {
        Some(x) => x,
        None => 0,
    }
}

fn token_count(n: Option<u64>) -> (r: u64)
    ensures
        r == tokens(n),
{
    match n {
        Some(x) => x,
        None => 0,
    }
}

impl CodexUsage {
    /// The tokens read.
    pub fn input(&self) -> (r: u64)
        ensures
            r == tokens(self.input_tokens),
    {
        token_count(self.input_tokens)
    }

    /// The tokens written.
    pub fn output(&self) -> (r: u64)
        ensures
            r == tokens(self.output_tokens),
    {
        token_count(self.output_tokens)
    }

    /// The tokens in all.
    pub fn total(&self) -> (r: u64)
        ensures
            r == tokens(self.total_tokens),
    {
        token_count(self.total_tokens)
    }
}

/// A message of the user or of the assistant.
#[derive(Clone, Debug, PartialEq, Eq)]
pub struct CodexMessage {
    /// Who speaks: `user` or `assistant`.
    pub role: String,
    /// What is said. No record holds it.
    pub content: Vec<ContentBlock>,
    /// The identifier of the message.
    pub id: Option<String>,
    /// Whether the message is `completed` or `incomplete`.
    pub status: Option<String>,
    /// The tokens it took.
    pub usage: Option<CodexUsage>,
}

/// The call of a tool.
#[derive(Clone, Debug, PartialEq, Eq)]
pub struct CodexFunctionCall {
    /// What links the call to its output.
    pub call_id: String,
    /// The name of the tool, such as `shell`.
    pub name: String,
    /// The arguments, as JSON.
    pub arguments: Option<String>,
    /// The identifier of the call.
    pub id: Option<String>,
    /// Whether the call is complete.
    pub status: Option<String>,
}

/// What a tool gave back.
#[derive(Clone, Debug, PartialEq, Eq)]
pub struct CodexFunctionCallOutput {
    /// What links the output to its call.
    pub call_id: String,
    /// The output, as JSON or as plain text.
    pub output: Option<String>,
}

/// The interruption of a session.
#[derive(Clone, Debug, PartialEq, Eq, Default)]
pub struct CodexInterrupted {
    /// Why.
    pub reason: Option<String>,
    /// When.
    pub at: Option<String>,
}

/// One event of a session or a rollout.
#[derive(Clone, Debug, PartialEq, Eq)]
pub enum CodexEvent {
    /// The header of a session.
    Session(CodexSessionHeader),
    /// The header of a rollout.
    Rollout(CodexRolloutHeader),
    /// A message.
    Message(CodexMessage),
    /// The call of a tool.
    FunctionCall(CodexFunctionCall),
    /// What a tool gave back.
    FunctionCallOutput(CodexFunctionCallOutput),
    /// An interruption.
    Interrupted(CodexInterrupted),
    /// An event of another kind.
    Other,
    /// What could not be read as an event.
    Unknown,
}

// ---------------------------------------------------------------------------
// Fields
// ---------------------------------------------------------------------------

/// The field that an event must have and that a line lacks: every event names its type, a
/// message its role, a call its link and its tool, and an output its link. A line that is
/// no JSON lacks nothing, since it is no event.
pub open spec fn lacking(line: Seq<char>) -> Option<Seq<char>> {
    let t = json_str_of(line, "type"@);
    if !json_valid_of(line) {
        None
    } else if t is None {
        Some("type"@)
    } else if t == Some("message"@) && json_str_of(line, "role"@) is None {
        Some("role"@)
    } else if (t == Some("function_call"@) || t == Some("function_call_output"@)) && json_str_of(
        line,
        "call_id"@,
    ) is None {
        Some("call_id"@)
    } else if t == Some("function_call"@) && json_str_of(line, "name"@) is None {
        Some("name"@)
    } else {
        None
    }
}

/// The field that an event must have and that a line lacks, where it lacks one.
pub fn lacking_field(line: &str) -> (r: Option<&'static str>)
    ensures
        opt_str_view(r) == lacking(line@),
{
    if !json_is_valid(line) {
        return None;
    }
    let kind = match json_str_at(line, "type") {
        None => {
            return Some("type");
        },
        Some(t) => t,
    };
    let message = str_eq(kind.as_str(), "message");
    let call = str_eq(kind.as_str(), "function_call");
    let output = str_eq(kind.as_str(), "function_call_output");
    if message && json_str_at(line, "role").is_none() {
        Some("role")
    } else if (call || output) && json_str_at(line, "call_id").is_none() {
        Some("call_id")
    } else if call && json_str_at(line, "name").is_none() {
        Some("name")
    } else {
        None
    }
}

/// The first of the lines, from the `i`-th on, that lacks a field that an event must have,
/// and that field.
pub open spec fn first_lacking(lines: Seq<(usize, Seq<char>)>, i: int) -> Option<
    (usize, Seq<char>),
>
    decreases lines.len() - i,
{
    if i < 0 || i >= lines.len() {
        None
    } else {
        match lacking(lines[i].1) {
            Some(f) => Some((lines[i].0, f)),
            None => first_lacking(lines, i + 1),
        }
    }
}

/// A line that lacks a field that an event must have.
#[derive(Clone, Copy, Debug, PartialEq, Eq)]
pub struct LackingField {
    /// The number of the line.
    pub line: usize,
    /// The field.
    pub field: &'static str,
}

/// Checks that no line lacks a field that an event must have.
pub fn check_required(lines: &Vec<(usize, String)>) -> (r: Result<(), LackingField>)
    ensures
        (match r {
            Ok(_) => None,
            Err(e) => Some((e.line, e.field@)),
        }) == first_lacking(line_views(lines@), 0),
{
    let ghost s = line_views(lines@);
    let mut i: usize = 0;
    while i < lines.len()
        invariant
            i <= lines@.len(),
            s == line_views(lines@),
            first_lacking(s, 0) == first_lacking(s, i as int),
        decreases lines@.len() - i,
    {
        assert(s[i as int] == (lines@[i as int].0, lines@[i as int].1@));
        if let Some(field) = lacking_field(lines[i].1.as_str()) {
            return Err(LackingField { line: lines[i].0, field });
        }
        i = i + 1;
    }
    assert(s.len() == lines@.len());
    Ok(())
}

/// A field, where it is absent.
pub open spec fn gap(absent: bool, field: Seq<char>) -> Seq<Seq<char>> {
    if absent {
        seq![field]
    } else {
        Seq::empty()
    }
}

/// The fields that an event is expected to have and that it lacks: of a message its
/// content, its identifier and its status, of a call its arguments, of an output the output
/// itself, and of an output that is JSON the exit code and what was written.
pub open spec fn gaps_of(e: CodexEvent) -> Seq<Seq<char>> {
    match e {
        CodexEvent::Message(m) => gap(m.content@.len() == 0, "content"@) + gap(m.id is None, "id"@)
            + gap(m.status is None, "status"@),
        CodexEvent::FunctionCall(c) => gap(c.arguments is None, "arguments"@),
        CodexEvent::FunctionCallOutput(o) => match o.output {
            None => seq!["output"@],
            Some(x) => if json_valid_of(x@) {
                gap(json_i64_of(x@, "exit_code"@) is None, "exit_code"@) + gap(
                    json_str_of(x@, "stdout"@) is None,
                    "stdout"@,
                ) + gap(json_str_of(x@, "stderr"@) is None, "stderr"@)
            } else {
                Seq::empty()
            },
        },
        _ => Seq::empty(),
    }
}

/// Fields, each with the number of a line.
pub open spec fn on_line(line: usize, fields: Seq<Seq<char>>) -> Seq<(usize, Seq<char>)> {
    fields.map_values(|f: Seq<char>| (line, f))
}

/// The views of fields with the numbers of their lines.
pub open spec fn gap_views(s: Seq<(usize, &'static str)>) -> Seq<(usize, Seq<char>)> {
    s.map_values(|x: (usize, &'static str)| (x.0, x.1@))
}

fn push_gap(out: &mut Vec<(usize, &'static str)>, line: usize, absent: bool, field: &'static str)
    ensures
        gap_views(final(out)@) == gap_views(old(out)@) + on_line(line, gap(absent, field@)),
{
    let ghost before = gap_views(out@);
    if absent {
        out.push((line, field));
        assert(on_line(line, gap(absent, field@)) =~= seq![(line, field@)]);
        assert(gap_views(out@) =~= before + seq![(line, field@)]);
    } else {
        assert(on_line(line, gap(absent, field@)) =~= Seq::empty());
        assert(before + Seq::<(usize, Seq<char>)>::empty() =~= before);
    }
}

proof fn lemma_on_line(line: usize, a: Seq<Seq<char>>, b: Seq<Seq<char>>)
    ensures
        on_line(line, a + b) == on_line(line, a) + on_line(line, b),
{
    assert(on_line(line, a + b) =~= on_line(line, a) + on_line(line, b));
}

/// Notes the fields that an event is expected to have and that it lacks.
fn push_gaps(out: &mut Vec<(usize, &'static str)>, line: usize, e: &CodexEvent)
    ensures
        gap_views(final(out)@) == gap_views(old(out)@) + on_line(line, gaps_of(*e)),
{
    let ghost before = gap_views(out@);
    match e {
        CodexEvent::Message(m) => {
            push_gap(out, line, m.content.len() == 0, "content");
            push_gap(out, line, m.id.is_none(), "id");
            push_gap(out, line, m.status.is_none(), "status");
            proof {
                let a = gap(m.content@.len() == 0, "content"@);
                let b = gap(m.id is None, "id"@);
                let c = gap(m.status is None, "status"@);
                lemma_on_line(line, a, b);
                lemma_on_line(line, a + b, c);
                assert(gap_views(out@) =~= before + on_line(line, a + b + c));
            }
        },
        CodexEvent::FunctionCall(c) => {
            push_gap(out, line, c.arguments.is_none(), "arguments");
        },
        CodexEvent::FunctionCallOutput(o) => match &o.output {
            None => {
                push_gap(out, line, true, "output");
            },
            Some(x) => {
                if json_is_valid(x.as_str()) {
                    let code = json_i64_at(x.as_str(), "exit_code");
                    let stdout = json_str_at(x.as_str(), "stdout");
                    let stderr = json_str_at(x.as_str(), "stderr");
                    push_gap(out, line, code.is_none(), "exit_code");
                    push_gap(out, line, stdout.is_none(), "stdout");
                    push_gap(out, line, stderr.is_none(), "stderr");
                    proof {
                        let a = gap(code is None, "exit_code"@);
                        let b = gap(stdout is None, "stdout"@);
                        let c = gap(stderr is None, "stderr"@);
                        lemma_on_line(line, a, b);
                        lemma_on_line(line, a + b, c);
                        assert(gap_views(out@) =~= before + on_line(line, a + b + c));
                    }
                } else {
                    assert(gap_views(out@) =~= before + on_line(line, gaps_of(*e)));
                }
            },
        },
        _ => {
            assert(gap_views(out@) =~= before + on_line(line, gaps_of(*e)));
        },
    }
}

// ---------------------------------------------------------------------------
// Lines
// ---------------------------------------------------------------------------

/// A line without the carriage return at its end.
pub open spec fn line_body(line: Seq<char>) -> Seq<char> {
    if line.len() > 0 && line.last() == '\r' {
        line.drop_last()
    } else {
        line
    }
}

/// The lines of a text: what stands between line feeds, without the carriage return
/// before the line feed. What follows the last line feed is a line where it is not
/// empty.
pub open spec fn line_at(parts: Seq<Seq<char>>, i: int) -> Seq<char> {
    if i + 1 == parts.len() {
        parts[i]
    } else {
        line_body(parts[i])
    }
}

/// The first `n` parts of a text that are lines and not blank, each with its number.
pub open spec fn lines_upto(parts: Seq<Seq<char>>, n: int) -> Seq<(usize, Seq<char>)>
    decreases n,
{
    if n <= 0 {
        Seq::empty()
    } else if crate::scan::blank(line_at(parts, n - 1)) {
        lines_upto(parts, n - 1)
    } else {
        lines_upto(parts, n - 1).push(((n - 1) as usize, line_at(parts, n - 1)))
    }
}

/// The views of numbered lines.
pub open spec fn line_views(s: Seq<(usize, String)>) -> Seq<(usize, Seq<char>)> {
    s.map_values(|x: (usize, String)| (x.0, x.1@))
}

/// The lines of a text that hold an event: those that are not blank, each with the
/// number of the line, counted from nil.
pub fn event_lines(text: &str) -> (r: Vec<(usize, String)>)
    ensures
        line_views(r@) == lines_upto(split_seq(text@, '\n'), split_seq(text@, '\n').len() as int),
{
    let parts = split(text, '\n');
    let mut r: Vec<(usize, String)> = Vec::new();
    let mut i: usize = 0;
    assert(line_views(r@) =~= lines_upto(views(parts@), 0));
    while i < parts.len()
        invariant
            i <= parts@.len(),
            line_views(r@) == lines_upto(views(parts@), i as int),
        decreases parts@.len() - i,
    {
        let line = body_of(parts[i].as_str(), i + 1 == parts.len());
        assert(line@ == line_at(views(parts@), i as int));
        let ghost before = r@;
        if !is_blank(line.as_str()) {
            r.push((i, line));
            assert(line_views(r@) =~= line_views(before).push((i, line@)));
        }
        i = i + 1;
    }
    r
}

fn body_of(part: &str, last: bool) -> (r: String)
    ensures
        r@ == (if last {
            part@
        } else {
            line_body(part@)
        }),
{
    if !last && ends_with(part, "\r") {
        proof {
            reveal_strlit("\r");
            assert(part@.last() == part@.skip(part@.len() - 1)[0]);
        }
        let v = crate::text::chars_of(part);
        let s = crate::text::string_of(&v, 0, v.len() - 1);
        assert(s@ =~= line_body(part@));
        s
    } else {
        proof {
            reveal_strlit("\r");
            if !last && part@.len() > 0 && part@.last() == '\r' {
                assert(part@.skip(part@.len() - 1) =~= "\r"@);
            }
        }
        part.to_string()
    }
}

// ---------------------------------------------------------------------------
// Outputs and arguments
// ---------------------------------------------------------------------------

/// What a command gave back.
#[derive(Clone, Debug, PartialEq, Eq)]
pub struct ParsedOutput {
    /// The exit code, where one is given.
    pub exit_code: Option<i64>,
    /// What was written to the standard output.
    pub stdout: Option<String>,
    /// What was written to the standard error.
    pub stderr: Option<String>,
}

/// The view of a [`ParsedOutput`].
#[verifier::ext_equal]
pub struct ParsedOutputView {
    pub exit_code: Option<i64>,
    pub stdout: Option<Seq<char>>,
    pub stderr: Option<Seq<char>>,
}

impl View for ParsedOutput {
    type V = ParsedOutputView;

    open spec fn view(&self) -> ParsedOutputView {
        ParsedOutputView {
            exit_code: self.exit_code,
            stdout: opt_view(self.stdout),
            stderr: opt_view(self.stderr),
        }
    }
}

/// A text, where there is one and it is not empty.
pub open spec fn filled_text(s: Option<Seq<char>>) -> Option<Seq<char>> {
    match s {
        Some(x) => if x.len() > 0 {
            Some(x)
        } else {
            None
        },
        None => None,
    }
}

fn keep_filled(s: Option<String>) -> (r: Option<String>)
    ensures
        opt_view(r) == filled_text(opt_view(s)),
{
    match s {
        Some(x) => if is_empty(x.as_str()) {
            None
        } else {
            Some(x)
        },
        None => None,
    }
}

fn is_empty(s: &str) -> (r: bool)
    ensures
        r == (s@.len() == 0),
{
    proof {
        reveal_strlit("");
        if s@.len() == 0 {
            assert(s@ =~= ""@);
        }
    }
    str_eq(s, "")
}

/// What a command gave back, where its raw output is `raw`, and, if that is JSON, the
/// exit code and the two texts read from it are the others.
pub open spec fn output_reading(
    raw: Seq<char>,
    json: bool,
    exit_code: Option<i64>,
    stdout: Option<Seq<char>>,
    stderr: Option<Seq<char>>,
) -> ParsedOutputView {
    if json {
        ParsedOutputView { exit_code, stdout: filled_text(stdout), stderr: filled_text(stderr) }
    } else {
        ParsedOutputView { exit_code: None, stdout: Some(raw), stderr: None }
    }
}

/// Reads an output: JSON by its fields, an empty text counting as none; anything else
/// is the standard output itself.
pub fn read_output(
    raw: &str,
    json: bool,
    exit_code: Option<i64>,
    stdout: Option<String>,
    stderr: Option<String>,
) -> (r: ParsedOutput)
    ensures
        r@ == output_reading(raw@, json, exit_code, opt_view(stdout), opt_view(stderr)),
{
    if json {
        ParsedOutput { exit_code, stdout: keep_filled(stdout), stderr: keep_filled(stderr) }
    } else {
        ParsedOutput { exit_code: None, stdout: Some(raw.to_string()), stderr: None }
    }
}

/// The reading of a raw output.
pub open spec fn parsed_output(raw: Seq<char>) -> ParsedOutputView {
    output_reading(
        raw,
        json_valid_of(raw),
        json_i64_of(raw, "exit_code"@),
        json_str_of(raw, "stdout"@),
        json_str_of(raw, "stderr"@),
    )
}

/// Reads a raw output.
pub fn parse_output_field(raw: &str) -> (r: ParsedOutput)
    ensures
        r@ == parsed_output(raw@),
{
    if json_is_valid(raw) {
        read_output(
            raw,
            true,
            json_i64_at(raw, "exit_code"),
            json_str_at(raw, "stdout"),
            json_str_at(raw, "stderr"),
        )
    } else {
        read_output(raw, false, None, None, None)
    }
}

/// The texts among the items.
pub open spec fn texts_among(items: Seq<Option<Seq<char>>>) -> Seq<Seq<char>>
    decreases items.len(),
{
    if items.len() == 0 {
        Seq::empty()
    } else {
        match items.last() {
            Some(x) => texts_among(items.drop_last()).push(x),
            None => texts_among(items.drop_last()),
        }
    }
}

fn keep_texts(items: Vec<Option<String>>) -> (r: Vec<String>)
    ensures
        views(r@) == texts_among(item_views(items@)),
{
    let mut r: Vec<String> = Vec::new();
    let mut i: usize = 0;
    assert(item_views(items@).take(0) =~= Seq::empty());
    assert(views(r@) =~= Seq::empty());
    while i < items.len()
        invariant
            i <= items@.len(),
            views(r@) == texts_among(item_views(items@).take(i as int)),
        decreases items@.len() - i,
    {
        let ghost t = item_views(items@).take(i + 1);
        assert(t.drop_last() =~= item_views(items@).take(i as int));
        assert(t.last() == opt_view(items@[i as int]));
        if let Some(x) = &items[i] {
            let ghost before = r@;
            r.push(x.clone());
            assert(views(r@) =~= views(before).push(x@));
        }
        i = i + 1;
    }
    assert(item_views(items@).take(i as int) =~= item_views(items@));
    r
}

/// The parts of a command: the texts of the list, where the arguments hold one; else
/// the arguments themselves.
pub open spec fn command_parts(
    arguments: Seq<char>,
    items: Option<Seq<Option<Seq<char>>>>,
) -> Seq<Seq<char>> {
    match items {
        Some(x) => texts_among(x),
        None => seq![arguments],
    }
}

/// The command as one text: its parts with blanks between them, where the arguments
/// hold a list with a text in it; else the arguments themselves.
pub open spec fn command_text(
    arguments: Seq<char>,
    items: Option<Seq<Option<Seq<char>>>>,
) -> Seq<char> {
    match items {
        Some(x) => if texts_among(x).len() > 0 {
            join_seq(texts_among(x), " "@)
        } else {
            arguments
        },
        None => arguments,
    }
}

/// The parts of a command, from the arguments and the list read from them.
pub fn read_command_parts(arguments: &str, items: Option<Vec<Option<String>>>) -> (r: Vec<String>)
    ensures
        views(r@) == command_parts(arguments@, opt_item_views(items)),
{
    match items {
        Some(x) => keep_texts(x),
        None => {
            let mut r: Vec<String> = Vec::new();
            r.push(arguments.to_string());
            assert(views(r@) =~= seq![arguments@]);
            r
        },
    }
}

/// The command as one text, from the arguments and the list read from them.
pub fn read_command_text(arguments: &str, items: Option<Vec<Option<String>>>) -> (r: String)
    ensures
        r@ == command_text(arguments@, opt_item_views(items)),
{
    match items {
        Some(x) => {
            let parts = keep_texts(x);
            assert(views(parts@).len() == parts@.len());
            if parts.len() > 0 {
                join(&parts, " ")
            } else {
                arguments.to_string()
            }
        },
        None => arguments.to_string(),
    }
}

/// The parts of the command that the arguments of a call hold under `cmd`.
pub fn extract_cmd_parts(arguments: &str) -> (r: Vec<String>)
    ensures
        views(r@) == command_parts(arguments@, json_items_of(arguments@, "cmd"@)),
{
    read_command_parts(arguments, json_items_at(arguments, "cmd"))
}

/// The command that the arguments of a call hold under `cmd`, as one text.
pub fn extract_command_from_arguments(arguments: &str) -> (r: String)
    ensures
        r@ == command_text(arguments@, json_items_of(arguments@, "cmd"@)),
{
    read_command_text(arguments, json_items_at(arguments, "cmd"))
}

// ---------------------------------------------------------------------------
// Kinds of commands
// ---------------------------------------------------------------------------

/// The commands that run tests.
pub open spec fn test_patterns() -> Seq<Seq<char>> {
    seq![
        "pytest"@,
        "python -m pytest"@,
        "python3 -m pytest"@,
        "cargo test"@,
        "npm test"@,
        "npm run test"@,
        "go test"@,
        "make test"@,
        "./gradlew test"@,
        "mvn test"@,
    ]
}

fn pattern_list() -> (r: Vec<String>)
    ensures
        views(r@) == test_patterns(),
{
    let mut r: Vec<String> = Vec::new();
    r.push("pytest".to_string());
    r.push("python -m pytest".to_string());
    r.push("python3 -m pytest".to_string());
    r.push("cargo test".to_string());
    r.push("npm test".to_string());
    r.push("npm run test".to_string());
    r.push("go test".to_string());
    r.push("make test".to_string());
    r.push("./gradlew test".to_string());
    r.push("mvn test".to_string());
    assert(views(r@) =~= test_patterns());
    r
}

/// Whether a command is the pattern, alone or followed by arguments.
pub open spec fn runs_pattern(cmd: Seq<char>, pattern: Seq<char>) -> bool {
    cmd == pattern || has_prefix(cmd, pattern + " "@)
}

/// Whether a command runs tests.
pub open spec fn runs_tests(cmd: Seq<char>) -> bool {
    exists|i: int|
        0 <= i < test_patterns().len() && runs_pattern(trim_seq(cmd), #[trigger] test_patterns()[i])
}

/// Whether a command runs tests.
pub fn is_test_command(cmd: &str) -> (r: bool)
    ensures
        r == runs_tests(cmd@),
{
    let trimmed = trim(cmd);
    let patterns = pattern_list();
    let mut i: usize = 0;
    while i < patterns.len()
        invariant
            i <= patterns@.len(),
            views(patterns@) == test_patterns(),
            trimmed@ == trim_seq(cmd@),
            forall|k: int|
                0 <= k < i ==> !runs_pattern(trimmed@, #[trigger] test_patterns()[k]),
        decreases patterns@.len() - i,
    {
        assert(patterns@[i as int]@ == test_patterns()[i as int]);
        let followed = concat2(patterns[i].as_str(), " ");
        if str_eq(trimmed.as_str(), patterns[i].as_str()) || starts_with(
            trimmed.as_str(),
            followed.as_str(),
        ) {
            assert(runs_pattern(trimmed@, test_patterns()[i as int]));
            return true;
        }
        i = i + 1;
    }
    assert(patterns@.len() == test_patterns().len());
    false
}

/// The part at a place, where there is one; else nothing.
pub open spec fn part_at(parts: Seq<Seq<char>>, i: int) -> Seq<char> {
    if 0 <= i < parts.len() {
        parts[i]
    } else {
        Seq::empty()
    }
}

fn part_is(parts: &Vec<String>, i: usize, s: &str) -> (r: bool)
    requires
        s@.len() > 0,
    ensures
        r == (part_at(views(parts@), i as int) == s@),
{
    if i < parts.len() {
        assert(views(parts@)[i as int] == parts@[i as int]@);
        str_eq(parts[i].as_str(), s)
    } else {
        false
    }
}

/// Whether a command applies a patch: `patch`, or `git apply`.
pub open spec fn applies_patch(parts: Seq<Seq<char>>) -> bool {
    part_at(parts, 0) == "patch"@ || (part_at(parts, 0) == "git"@ && part_at(parts, 1) == "apply"@)
}

/// Whether a command applies a patch.
pub fn is_patch_command_parts(parts: &Vec<String>) -> (r: bool)
    ensures
        r == applies_patch(views(parts@)),
{
    proof {
        reveal_strlit("patch");
        reveal_strlit("git");
        reveal_strlit("apply");
    }
    part_is(parts, 0, "patch") || (part_is(parts, 0, "git") && part_is(parts, 1, "apply"))
}

/// Whether a part other than the last is a redirection.
pub open spec fn redirects(parts: Seq<Seq<char>>) -> bool {
    exists|i: int|
        0 <= i < parts.len() - 1 && (#[trigger] parts[i] == ">"@ || parts[i] == ">>"@)
}

/// Whether a command edits a file: `sed -i`, `tee`, or `cat` with a redirection.
pub open spec fn edits_file(parts: Seq<Seq<char>>) -> bool {
    ||| part_at(parts, 0) == "sed"@ && parts.contains("-i"@)
    ||| part_at(parts, 0) == "tee"@
    ||| part_at(parts, 0) == "cat"@ && redirects(parts)
}

fn has_redirection(parts: &Vec<String>) -> (r: bool)
    ensures
        r == redirects(views(parts@)),
{
    let mut i: usize = 0;
    while i < parts.len()
        invariant
            i <= parts@.len(),
            forall|k: int|
                0 <= k < i && k < parts@.len() - 1 ==> !(#[trigger] views(parts@)[k] == ">"@
                    || views(parts@)[k] == ">>"@),
        decreases parts@.len() - i,
    {
        assert(views(parts@)[i as int] == parts@[i as int]@);
        if i < parts.len() - 1 && (str_eq(parts[i].as_str(), ">") || str_eq(
            parts[i].as_str(),
            ">>",
        )) {
            return true;
        }
        i = i + 1;
    }
    assert(views(parts@).len() == parts@.len());
    false
}

/// Whether a command edits a file.
pub fn is_file_edit_command_parts(parts: &Vec<String>) -> (r: bool)
    ensures
        r == edits_file(views(parts@)),
{
    proof {
        reveal_strlit("sed");
        reveal_strlit("tee");
        reveal_strlit("cat");
    }
    (part_is(parts, 0, "sed") && contains_string(parts, "-i")) || part_is(parts, 0, "tee") || (
    part_is(parts, 0, "cat") && has_redirection(parts))
}

/// The first word of a text, or nothing.
pub open spec fn first_word(s: Seq<char>) -> Seq<char> {
    part_at(words(s), 0)
}

/// Whether the first part of a command is the first word of one that runs tests.
pub open spec fn begins_like_tests(parts: Seq<Seq<char>>) -> bool {
    exists|i: int|
        0 <= i < test_patterns().len() && part_at(parts, 0) == first_word(
            #[trigger] test_patterns()[i],
        )
}

fn may_run_tests(parts: &Vec<String>) -> (r: bool)
    ensures
        r == begins_like_tests(views(parts@)),
{
    let patterns = pattern_list();
    let first = first_part(parts);
    let mut i: usize = 0;
    while i < patterns.len()
        invariant
            i <= patterns@.len(),
            views(patterns@) == test_patterns(),
            first@ == part_at(views(parts@), 0),
            forall|k: int|
                0 <= k < i ==> part_at(views(parts@), 0) != first_word(
                    #[trigger] test_patterns()[k],
                ),
        decreases patterns@.len() - i,
    {
        assert(patterns@[i as int]@ == test_patterns()[i as int]);
        let w = split_whitespace(patterns[i].as_str());
        let head = first_part(&w);
        if str_eq(first.as_str(), head.as_str()) {
            return true;
        }
        i = i + 1;
    }
    assert(patterns@.len() == test_patterns().len());
    false
}

fn first_part(parts: &Vec<String>) -> (r: String)
    ensures
        r@ == part_at(views(parts@), 0),
{
    if parts.len() > 0 {
        assert(views(parts@)[0] == parts@[0]@);
        parts[0].clone()
    } else {
        proof {
            reveal_strlit("");
            assert(""@ =~= Seq::<char>::empty());
        }
        "".to_string()
    }
}

/// The kind of tool that a call uses.
pub open spec fn tool_kind(name: Seq<char>, parts: Seq<Seq<char>>) -> Seq<char> {
    if name != "shell"@ {
        name
    } else if applies_patch(parts) {
        "patch"@
    } else if edits_file(parts) {
        "file_edit"@
    } else if begins_like_tests(parts) {
        "test"@
    } else {
        "shell"@
    }
}

/// The kind of tool that a call uses.
pub fn tool_kind_for(tool_name: &str, cmd_parts: &Vec<String>) -> (r: String)
    ensures
        r@ == tool_kind(tool_name@, views(cmd_parts@)),
{
    if !str_eq(tool_name, "shell") {
        tool_name.to_string()
    } else if is_patch_command_parts(cmd_parts) {
        "patch".to_string()
    } else if is_file_edit_command_parts(cmd_parts) {
        "file_edit".to_string()
    } else if may_run_tests(cmd_parts) {
        "test".to_string()
    } else {
        "shell".to_string()
    }
}

/// Whether a part looks like the path of a file: it is no option and no editing
/// expression, and has a slash or a dot.
pub open spec fn looks_like_file(p: Seq<char>) -> bool {
    !has_prefix(p, "-"@) && (p.contains('/') || p.contains('.')) && !has_prefix(p, "s"@)
}

/// The last part that looks like the path of a file.
pub open spec fn last_file(parts: Seq<Seq<char>>) -> Option<Seq<char>>
    decreases parts.len(),
{
    if parts.len() == 0 {
        None
    } else if looks_like_file(parts.last()) {
        Some(parts.last())
    } else {
        last_file(parts.drop_last())
    }
}

/// The file that a command edits, as far as its parts show it.
pub fn extract_target_file_from_parts(parts: &Vec<String>) -> (r: Option<String>)
    ensures
        opt_view(r) == last_file(views(parts@)),
{
    let mut n: usize = parts.len();
    assert(views(parts@).take(n as int) =~= views(parts@));
    while n > 0
        invariant
            n <= parts@.len(),
            last_file(views(parts@)) == last_file(views(parts@).take(n as int)),
        decreases n,
    {
        let ghost t = views(parts@).take(n as int);
        assert(t.last() == parts@[n - 1]@);
        assert(t.drop_last() =~= views(parts@).take(n - 1));
        let p = parts[n - 1].as_str();
        if !starts_with(p, "-") && (contains_char(p, '/') || contains_char(p, '.')) && !starts_with(
            p,
            "s",
        ) {
            return Some(parts[n - 1].clone());
        }
        n = n - 1;
    }
    None
}

// ---------------------------------------------------------------------------
// Turns
// ---------------------------------------------------------------------------

/// A call, with its output where that came.
pub type CallPair = (CodexFunctionCall, Option<CodexFunctionCallOutput>);

/// A turn of the agent: a message of the assistant and the calls that followed it.
#[derive(Clone, Debug, PartialEq, Eq)]
pub struct TurnData {
    /// The place of the turn, counted from nil.
    pub turn_index: u64,
    /// The message.
    pub message: CodexMessage,
    /// The calls, in order.
    pub tool_calls: Vec<(CodexFunctionCall, Option<CodexFunctionCallOutput>)>,
}

/// The view of a [`TurnData`].
#[verifier::ext_equal]
pub struct TurnView {
    pub turn_index: u64,
    pub message: CodexMessage,
    pub tool_calls: Seq<CallPair>,
}

impl View for TurnData {
    type V = TurnView;

    open spec fn view(&self) -> TurnView {
        TurnView {
            turn_index: self.turn_index,
            message: self.message,
            tool_calls: self.tool_calls@,
        }
    }
}

/// The views of turns.
pub open spec fn turn_views(s: Seq<TurnData>) -> Seq<TurnView> {
    s.map_values(|t: TurnData| t@)
}

/// What the header of a file says that it is.
#[derive(Clone, Debug, PartialEq, Eq)]
pub enum SessionFlavor {
    /// A session.
    Session(CodexSessionHeader),
    /// A rollout.
    Rollout(CodexRolloutHeader),
    /// Nothing: there is no header.
    Unknown,
}

/// Events, grouped.
#[derive(Clone, Debug, PartialEq, Eq)]
pub struct GroupedEvents {
    /// The last header.
    pub flavor: SessionFlavor,
    /// The turns, in order.
    pub turns: Vec<TurnData>,
    /// The lines of events that nothing is made of.
    pub unknown_indices: Vec<usize>,
    /// The interruptions, in order.
    pub interruptions: Vec<CodexInterrupted>,
    /// The expected fields that events lack, each with the line of the event.
    pub gaps: Vec<(usize, &'static str)>,
}

/// The view of [`GroupedEvents`].
#[verifier::ext_equal]
pub struct GroupedView {
    pub flavor: SessionFlavor,
    pub turns: Seq<TurnView>,
    pub unknown_indices: Seq<usize>,
    pub interruptions: Seq<CodexInterrupted>,
    pub gaps: Seq<(usize, Seq<char>)>,
}

impl View for GroupedEvents {
    type V = GroupedView;

    open spec fn view(&self) -> GroupedView {
        GroupedView {
            flavor: self.flavor,
            turns: turn_views(self.turns@),
            unknown_indices: self.unknown_indices@,
            interruptions: self.interruptions@,
            gaps: gap_views(self.gaps@),
        }
    }
}

/// Where the grouping stands: what is done, the turn and the call that are open.
#[verifier::ext_equal]
pub struct GroupingView {
    pub done: GroupedView,
    pub current: Option<TurnView>,
    pub pending: Option<CodexFunctionCall>,
}

/// Before the first event.
pub open spec fn grouping_start() -> GroupingView {
    GroupingView {
        done: GroupedView {
            flavor: SessionFlavor::Unknown,
            turns: Seq::empty(),
            unknown_indices: Seq::empty(),
            interruptions: Seq::empty(),
            gaps: Seq::empty(),
        },
        current: None,
        pending: None,
    }
}

/// A turn with one more call.
pub open spec fn with_call(t: TurnView, c: CallPair) -> TurnView {
    TurnView { tool_calls: t.tool_calls.push(c), ..t }
}

/// The open turn, with the open call where there is one.
pub open spec fn current_with_pending(g: GroupingView) -> Option<TurnView> {
    match (g.current, g.pending) {
        (Some(t), Some(c)) => Some(with_call(t, (c, None))),
        (t, _) => t,
    }
}

/// The turns done, with one more call in the last of them, where there is one.
pub open spec fn last_with_call(turns: Seq<TurnView>, c: CallPair) -> Seq<TurnView> {
    if turns.len() > 0 {
        turns.drop_last().push(with_call(turns.last(), c))
    } else {
        turns
    }
}

/// The turns done, and the open turn where there is one.
pub open spec fn turns_closed(turns: Seq<TurnView>, current: Option<TurnView>) -> Seq<TurnView> {
    match current {
        Some(t) => turns.push(t),
        None => turns,
    }
}

/// After the fields were noted that an event is expected to have and that it lacks.
pub open spec fn with_gaps(g: GroupingView, line: usize, e: CodexEvent) -> GroupingView {
    GroupingView {
        done: GroupedView { gaps: g.done.gaps + on_line(line, gaps_of(e)), ..g.done },
        ..g
    }
}

/// After one event.
///
/// A message of the assistant closes the open turn and opens one; a call that is still
/// open then belongs to the turn before. A call opens; one that was open keeps no
/// output. An output closes the open call, and is its output where the two are linked;
/// else its line is noted, as is that of an output without a call and of an event that
/// is not known. The expected fields that the event lacks are noted in any case.
pub open spec fn grouping_step(g: GroupingView, line: usize, e: CodexEvent) -> GroupingView {
    group_event(with_gaps(g, line, e), line, e)
}

/// After one event whose missing fields are noted.
pub open spec fn group_event(g: GroupingView, line: usize, e: CodexEvent) -> GroupingView {
    let noted = GroupedView { unknown_indices: g.done.unknown_indices.push(line), ..g.done };
    match e {
        CodexEvent::Session(h) => GroupingView {
            done: GroupedView { flavor: SessionFlavor::Session(h), ..g.done },
            ..g
        },
        CodexEvent::Rollout(h) => GroupingView {
            done: GroupedView { flavor: SessionFlavor::Rollout(h), ..g.done },
            ..g
        },
        CodexEvent::Message(m) => if m.role@ == "assistant"@ {
            let closed = turns_closed(g.done.turns, g.current);
            let turns = match g.pending {
                Some(c) => last_with_call(closed, (c, None)),
                None => closed,
            };
            GroupingView {
                done: GroupedView { turns, ..g.done },
                current: Some(
                    TurnView {
                        turn_index: turns.len() as u64,
                        message: m,
                        tool_calls: Seq::empty(),
                    },
                ),
                pending: None,
            }
        } else {
            g
        },
        CodexEvent::FunctionCall(c) => GroupingView {
            current: current_with_pending(g),
            pending: Some(c),
            ..g
        },
        CodexEvent::FunctionCallOutput(o) => match g.pending {
            Some(c) => {
                let linked = c.call_id@ == o.call_id@;
                let pair: CallPair = (
                    c,
                    if linked {
                        Some(o)
                    } else {
                        None
                    },
                );
                let done = if linked {
                    g.done
                } else {
                    noted
                };
                match g.current {
                    Some(t) => GroupingView { done, current: Some(with_call(t, pair)), pending: None },
                    None => GroupingView {
                        done: GroupedView { turns: last_with_call(done.turns, pair), ..done },
                        current: None,
                        pending: None,
                    },
                }
            },
            None => GroupingView { done: noted, ..g },
        },
        CodexEvent::Interrupted(i) => GroupingView {
            done: GroupedView { interruptions: g.done.interruptions.push(i), ..g.done },
            ..g
        },
        CodexEvent::Other | CodexEvent::Unknown => GroupingView { done: noted, ..g },
    }
}

/// After some events.
pub open spec fn grouping_after(events: Seq<(usize, CodexEvent)>) -> GroupingView
    decreases events.len(),
{
    if events.len() == 0 {
        grouping_start()
    } else {
        grouping_step(
            grouping_after(events.drop_last()),
            events.last().0,
            events.last().1,
        )
    }
}

/// Events, grouped: the open turn is the last one.
pub open spec fn grouped(events: Seq<(usize, CodexEvent)>) -> GroupedView {
    let g = grouping_after(events);
    GroupedView { turns: turns_closed(g.done.turns, current_with_pending(g)), ..g.done }
}

struct Grouping {
    done: GroupedEvents,
    current: Option<TurnData>,
    pending: Option<CodexFunctionCall>,
}

spec fn opt_turn(t: Option<TurnData>) -> Option<TurnView> {
    match t {
        Some(x) => Some(x@),
        None => None,
    }
}

impl Grouping {
    spec fn seen(&self) -> GroupingView {
        GroupingView {
            done: self.done@,
            current: opt_turn(self.current),
            pending: self.pending,
        }
    }
}

fn push_turn(turns: &mut Vec<TurnData>, t: TurnData)
    ensures
        turn_views(final(turns)@) == turn_views(old(turns)@).push(t@),
{
    turns.push(t);
    assert(turn_views(turns@) =~= turn_views(old(turns)@).push(t@));
}

fn add_to_last(turns: &mut Vec<TurnData>, c: (CodexFunctionCall, Option<CodexFunctionCallOutput>))
    ensures
        turn_views(final(turns)@) == last_with_call(turn_views(old(turns)@), c),
{
    match turns.pop() {
        Some(t) => {
            let ghost rest = turns@;
            assert(turn_views(old(turns)@).drop_last() =~= turn_views(rest));
            assert(turn_views(old(turns)@).last() == t@);
            let mut t = t;
            t.tool_calls.push(c);
            turns.push(t);
            assert(turn_views(turns@) =~= turn_views(rest).push(t@));
        },
        None => {
            assert(turn_views(turns@) =~= turn_views(old(turns)@));
        },
    }
}

fn close_call(current: Option<TurnData>, pending: Option<CodexFunctionCall>) -> (r: Option<
    TurnData,
>)
    ensures
        opt_turn(r) == (match (opt_turn(current), pending) {
            (Some(t), Some(c)) => Some(with_call(t, (c, None))),
            (t, _) => t,
        }),
{
    match (current, pending) {
        (Some(t), Some(c)) => {
            let mut t = t;
            t.tool_calls.push((c, None));
            Some(t)
        },
        (t, _) => t,
    }
}

fn group_step(g: Grouping, line: usize, e: CodexEvent) -> (r: Grouping)
    ensures
        r.seen() == grouping_step(g.seen(), line, e),
{
    let mut g = g;
    let ghost before = g.seen();
    push_gaps(&mut g.done.gaps, line, &e);
    assert(g.seen() =~= with_gaps(before, line, e));
    match e {
        CodexEvent::Session(h) => {
            g.done.flavor = SessionFlavor::Session(h);
            g
        },
        CodexEvent::Rollout(h) => {
            g.done.flavor = SessionFlavor::Rollout(h);
            g
        },
        CodexEvent::Message(m) => {
            if str_eq(m.role.as_str(), "assistant") {
                let Grouping { mut done, current, pending } = g;
                if let Some(t) = current {
                    push_turn(&mut done.turns, t);
                }
                if let Some(c) = pending {
                    add_to_last(&mut done.turns, (c, None));
                }
                assert(turn_views(done.turns@).len() == done.turns@.len());
                let turn = TurnData {
                    turn_index: done.turns.len() as u64,
                    message: m,
                    tool_calls: Vec::new(),
                };
                Grouping { done, current: Some(turn), pending: None }
            } else {
                g
            }
        },
        CodexEvent::FunctionCall(c) => {
            let Grouping { done, current, pending } = g;
            let current = close_call(current, pending);
            Grouping { done, current, pending: Some(c) }
        },
        CodexEvent::FunctionCallOutput(o) => {
            let Grouping { mut done, current, pending } = g;
            match pending {
                Some(c) => {
                    let output = if str_eq(c.call_id.as_str(), o.call_id.as_str()) {
                        Some(o)
                    } else {
                        done.unknown_indices.push(line);
                        None
                    };
                    match current {
                        Some(t) => {
                            let mut t = t;
                            t.tool_calls.push((c, output));
                            Grouping { done, current: Some(t), pending: None }
                        },
                        None => {
                            add_to_last(&mut done.turns, (c, output));
                            Grouping { done, current: None, pending: None }
                        },
                    }
                },
                None => {
                    done.unknown_indices.push(line);
                    Grouping { done, current, pending: None }
                },
            }
        },
        CodexEvent::Interrupted(i) => {
            g.done.interruptions.push(i);
            g
        },
        CodexEvent::Other | CodexEvent::Unknown => {
            g.done.unknown_indices.push(line);
            g
        },
    }
}

/// Groups events into turns.
pub fn group_events(events: Vec<(usize, CodexEvent)>) -> (r: GroupedEvents)
    ensures
        r@ == grouped(events@),
{
    let mut g = Grouping {
        done: GroupedEvents {
            flavor: SessionFlavor::Unknown,
            turns: Vec::new(),
            unknown_indices: Vec::new(),
            interruptions: Vec::new(),
            gaps: Vec::new(),
        },
        current: None,
        pending: None,
    };
    assert(turn_views(g.done.turns@) =~= Seq::empty());
    assert(gap_views(g.done.gaps@) =~= Seq::empty());
    assert(events@.take(0) =~= Seq::empty());
    assert(g.seen() =~= grouping_start());
    let ghost all = events@;
    for e in it: events
        invariant
            it.seq() == all,
            g.seen() == grouping_after(all.take(it.index() as int)),
    {
        proof {
            let n = it.index() as int;
            assert(all.take(n + 1).drop_last() =~= all.take(n));
            assert(all.take(n + 1).last() == all[n]);
        }
        let (line, event) = e;
        g = group_step(g, line, event);
    }
    assert(all.take(all.len() as int) =~= all);
    let ghost end = g.seen();
    let Grouping { mut done, current, pending } = g;
    let current = close_call(current, pending);
    if let Some(t) = current {
        push_turn(&mut done.turns, t);
    }
    assert(done@ =~= grouped(all));
    done
}

// ---------------------------------------------------------------------------
// Laws
// ---------------------------------------------------------------------------

/// Whether the outputs of a turn belong to their calls.
pub open spec fn outputs_linked(t: TurnView) -> bool {
    forall|i: int| #![trigger t.tool_calls[i]]
        0 <= i < t.tool_calls.len() ==> match t.tool_calls[i].1 {
            Some(o) => o.call_id@ == t.tool_calls[i].0.call_id@,
            None => true,
        }
}

spec fn grouping_sound(g: GroupingView) -> bool {
    &&& forall|i: int| #![trigger g.done.turns[i]]
        0 <= i < g.done.turns.len() ==> g.done.turns[i].turn_index == i as u64 && outputs_linked(
            g.done.turns[i],
        ) && g.done.turns[i].message.role@ == "assistant"@
    &&& match g.current {
        Some(t) => t.turn_index == g.done.turns.len() as u64 && outputs_linked(t)
            && t.message.role@ == "assistant"@,
        None => g.done.turns.len() == 0,
    }
}

proof fn lemma_with_call(t: TurnView, c: CallPair)
    requires
        outputs_linked(t),
        match c.1 {
            Some(o) => o.call_id@ == c.0.call_id@,
            None => true,
        },
    ensures
        outputs_linked(with_call(t, c)),
{
    assert forall|i: int| #![trigger with_call(t, c).tool_calls[i]]
        0 <= i < with_call(t, c).tool_calls.len() implies match with_call(t, c).tool_calls[i].1 {
        Some(o) => o.call_id@ == with_call(t, c).tool_calls[i].0.call_id@,
        None => true,
    } by {
        if i < t.tool_calls.len() {
            assert(with_call(t, c).tool_calls[i] == t.tool_calls[i]);
        }
    }
}

proof fn lemma_step_sound(g: GroupingView, line: usize, e: CodexEvent)
    requires
        grouping_sound(g),
    ensures
        grouping_sound(grouping_step(g, line, e)),
{
    match e {
        CodexEvent::Message(m) => {
            if m.role@ == "assistant"@ {
                let closed = turns_closed(g.done.turns, g.current);
                if let Some(c) = g.pending {
                    if closed.len() > 0 {
                        assert(closed.last() == closed[closed.len() - 1]);
                        assert(outputs_linked(closed.last())) by {
                            match g.current {
                                Some(t) => {
                                    assert(closed.last() == t);
                                },
                                None => {},
                            }
                        }
                        lemma_with_call(closed.last(), (c, None));
                    }
                }
            }
        },
        CodexEvent::FunctionCall(_) => {
            if let Some(t) = g.current {
                if let Some(c) = g.pending {
                    lemma_with_call(t, (c, None));
                }
            }
        },
        CodexEvent::FunctionCallOutput(o) => {
            if let Some(c) = g.pending {
                let pair: CallPair = (
                    c,
                    if c.call_id@ == o.call_id@ {
                        Some(o)
                    } else {
                        None
                    },
                );
                if let Some(t) = g.current {
                    lemma_with_call(t, pair);
                }
            }
        },
        _ => {},
    }
}

proof fn lemma_grouping_sound(events: Seq<(usize, CodexEvent)>)
    ensures
        grouping_sound(grouping_after(events)),
    decreases events.len(),
{
    if events.len() > 0 {
        lemma_grouping_sound(events.drop_last());
        lemma_step_sound(grouping_after(events.drop_last()), events.last().0, events.last().1);
    }
}

/// Every turn stands at the place that it names, begins with a message of the
/// assistant, and gives a call no output but its own.
pub proof fn law_turns_are_in_place(events: Seq<(usize, CodexEvent)>, i: int)
    requires
        0 <= i < grouped(events).turns.len(),
    ensures
        grouped(events).turns[i].turn_index == i as u64,
        grouped(events).turns[i].message.role@ == "assistant"@,
        outputs_linked(grouped(events).turns[i]),
{
    lemma_grouping_sound(events);
    let g = grouping_after(events);
    if i == g.done.turns.len() {
        if let Some(t) = g.current {
            if let Some(c) = g.pending {
                lemma_with_call(t, (c, None));
            }
        }
    }
}

/// An event that is not known is noted by its line, after the lines noted before it, and so
/// is what could not be read as an event.
pub proof fn law_unknown_events_are_noted(events: Seq<(usize, CodexEvent)>, line: usize)
    ensures
        grouped(events.push((line, CodexEvent::Unknown))).unknown_indices == grouped(
            events,
        ).unknown_indices.push(line),
        grouped(events.push((line, CodexEvent::Other))).unknown_indices == grouped(
            events,
        ).unknown_indices.push(line),
{
    assert(events.push((line, CodexEvent::Unknown)).drop_last() =~= events);
    assert(events.push((line, CodexEvent::Other)).drop_last() =~= events);
}

/// Every expected field that an event lacks is noted by its line.
pub proof fn law_absent_fields_are_noted(events: Seq<(usize, CodexEvent)>, i: int, k: int)
    requires
        0 <= i < events.len(),
        0 <= k < gaps_of(events[i].1).len(),
    ensures
        grouped(events).gaps.contains((events[i].0, gaps_of(events[i].1)[k])),
{
    lemma_gaps_noted(events, i, k);
}

proof fn lemma_gaps_noted(events: Seq<(usize, CodexEvent)>, i: int, k: int)
    requires
        0 <= i < events.len(),
        0 <= k < gaps_of(events[i].1).len(),
    ensures
        grouping_after(events).done.gaps.contains((events[i].0, gaps_of(events[i].1)[k])),
    decreases events.len(),
{
    let before = grouping_after(events.drop_last()).done.gaps;
    let here = on_line(events.last().0, gaps_of(events.last().1));
    let x = (events[i].0, gaps_of(events[i].1)[k]);
    assert(grouping_after(events).done.gaps == before + here);
    if i < events.len() - 1 {
        assert(events.drop_last()[i] == events[i]);
        lemma_gaps_noted(events.drop_last(), i, k);
        let j = choose|j: int| 0 <= j < before.len() && before[j] == x;
        assert((before + here)[j] == x);
    } else {
        assert(here[k] == x);
        assert((before + here)[before.len() + k] == x);
    }
}

} // verus!
