//! What the editor does with messages from a language server: diagnostics
//! turned into the editor's own and sorted, progress reports turned into a
//! status line, replies to requests it cannot serve, and the documents a
//! server's start or exit concerns.

use vstd::prelude::*;

use serde_json::Value;

use crate::strings::{decimal, push_char, push_decimal, push_str};

verus! {

#[verifier::external_type_specification]
#[verifier::external_body]
pub struct ExJsonValue(Value);

/// The member `key` of the JSON value `value`: `Value::get` with a string
/// key, which is the member of that name when `value` is an object that has
/// one, and nothing otherwise. A function of the value and the key alone.
pub uninterp spec fn json_member(value: Value, key: Seq<char>) -> Option<Value>;

/// `Value::get` with the string key `key`. Claimed: the result is
/// `json_member(*value, key@)`.
#[verifier::external_body]
fn json_get<'a>(value: &'a Value, key: &str) -> (r: Option<&'a Value>)
    ensures
        match r {
            Some(m) => json_member(*value, key@) == Some(*m),
            None => json_member(*value, key@) is None,
        },
{
    value.get(key)
}

/// `Value::clone`: a copy of the JSON value.
#[verifier::external_body]
fn clone_json_value(v: &Value) -> (r: Value)
    ensures
        r == *v,
{
    v.clone()
}

/// How severe a diagnostic of the editor is, from least to most.
#[derive(Clone, Copy, PartialEq, Eq, Debug, Structural)]
pub enum Severity {
    Hint,
    Info,
    Warning,
    Error,
}

/// The rank of a severity: hints lowest, errors highest.
pub open spec fn severity_rank(s: Severity) -> nat {
    match s {
        Severity::Hint => 0,
        Severity::Info => 1,
        Severity::Warning => 2,
        Severity::Error => 3,
    }
}

fn rank(s: Severity) -> (r: u8)
    ensures
        r == severity_rank(s),
{
    match s {
        Severity::Hint => 0,
        Severity::Info => 1,
        Severity::Warning => 2,
        Severity::Error => 3,
    }
}

/// The editor's severity for a protocol severity (1 error, 2 warning,
/// 3 information, 4 hint).
pub open spec fn severity_of(lsp: i32) -> Severity {
    if lsp == 1 {
        Severity::Error
    } else if lsp == 2 {
        Severity::Warning
    } else if lsp == 3 {
        Severity::Info
    } else {
        Severity::Hint
    }
}

/// A tag of a diagnostic of the editor.
#[derive(Clone, Copy, PartialEq, Eq, Debug, Structural)]
pub enum DiagnosticTag {
    Unnecessary,
    Deprecated,
}

/// The editor's tag for a protocol tag (1 unnecessary, 2 deprecated); other
/// tags are dropped.
pub open spec fn tag_of(lsp: i32) -> Option<DiagnosticTag> {
    if lsp == 1 {
        Some(DiagnosticTag::Unnecessary)
    } else if lsp == 2 {
        Some(DiagnosticTag::Deprecated)
    } else {
        None
    }
}

/// A diagnostic code, or a progress token: a number or a string.
#[derive(Debug)]
pub enum NumberOrString {
    Number(i32),
    String(String),
}

/// A position in a document as the protocol gives it.
#[derive(Clone, Copy, PartialEq, Eq, Debug, Structural)]
pub struct LspPosition {
    pub line: u32,
    pub character: u32,
}

/// A diagnostic as the protocol gives it.
pub struct LspDiagnostic {
    pub start: LspPosition,
    pub end: LspPosition,
    pub severity: Option<i32>,
    pub code: Option<NumberOrString>,
    pub source: Option<String>,
    pub message: String,
    pub tags: Option<Vec<i32>>,
    pub data: Option<Value>,
}

/// A diagnostic of the editor: a range of characters of the document, the
/// line it starts on, and what the server said.
pub struct Diagnostic {
    pub start: usize,
    pub end: usize,
    pub line: usize,
    pub message: String,
    pub severity: Option<Severity>,
    pub code: Option<NumberOrString>,
    pub tags: Vec<DiagnosticTag>,
    pub source: Option<String>,
    pub data: Option<Value>,
}

/// The editor's tags for the protocol tags `tags`, in order.
pub open spec fn tags_of(tags: Seq<i32>) -> Seq<DiagnosticTag>
    decreases tags.len(),
{
    if tags.len() == 0 {
        Seq::empty()
    } else {
        let rest = tags_of(tags.drop_last());
        match tag_of(tags.last()) {
            Some(t) => rest.push(t),
            None => rest,
        }
    }
}

/// Whether two codes are the same.
pub open spec fn same_code(a: Option<NumberOrString>, b: Option<NumberOrString>) -> bool {
    match (a, b) {
        (None, None) => true,
        (Some(NumberOrString::Number(x)), Some(NumberOrString::Number(y))) => x == y,
        (Some(NumberOrString::String(x)), Some(NumberOrString::String(y))) => x@ == y@,
        _ => false,
    }
}

/// Whether two optional texts are the same.
pub open spec fn same_text(a: Option<String>, b: Option<String>) -> bool {
    match (a, b) {
        (None, None) => true,
        (Some(x), Some(y)) => x@ == y@,
        _ => false,
    }
}

/// Whether a diagnostic is kept: the server is initialized, both ends have a
/// position in the document, and it is not less severe than the language
/// asks for.
pub open spec fn diagnostic_kept(d: LspDiagnostic, server_initialized: bool, start: Option<usize>, end: Option<usize>,
    min_severity: Option<Severity>) -> bool
{
    &&& server_initialized
    &&& start is Some
    &&& end is Some
    &&& !(min_severity matches Some(min) && d.severity matches Some(s)
        && severity_rank(severity_of(s)) < severity_rank(min))
}

/// `c` is the editor's diagnostic for `d` at the characters `start` to `end`.
pub open spec fn converted(d: LspDiagnostic, start: usize, end: usize, c: Diagnostic) -> bool {
    &&& c.start == start
    &&& c.end == end
    &&& c.line == d.start.line
    &&& c.message@ == d.message@
    &&& c.severity == match d.severity {
        Some(s) => Some(severity_of(s)),
        None => None,
    }
    &&& same_code(c.code, d.code)
    &&& c.tags@ == match d.tags {
        Some(t) => tags_of(t@),
        None => Seq::empty(),
    }
    &&& same_text(c.source, d.source)
    &&& c.data == d.data
}

/// A converted diagnostic has the severity that the protocol numbers give:
/// 1 error, 2 warning, 3 information, 4 hint; so its rank falls by one with
/// each step up in the protocol's number, and no severity comes from nothing.
pub proof fn lemma_converted_severity(d: LspDiagnostic, start: usize, end: usize, c: Diagnostic)
    requires
        converted(d, start, end, c),
        severity_known(d),
    ensures
        d.severity is None <==> c.severity is None,
        d.severity == Some(1i32) ==> c.severity == Some(Severity::Error),
        d.severity == Some(2i32) ==> c.severity == Some(Severity::Warning),
        d.severity == Some(3i32) ==> c.severity == Some(Severity::Info),
        d.severity == Some(4i32) ==> c.severity == Some(Severity::Hint),
        d.severity matches Some(s) ==> (c.severity matches Some(v) && severity_rank(v) + s == 4),
{
}

/// With a least severity asked for, a diagnostic of a known protocol
/// severity `s` is kept exactly when the rank `4 - s` (error 3 down to hint 0)
/// reaches the rank of that least severity.
pub proof fn lemma_kept_by_protocol_severity(d: LspDiagnostic, start: usize, end: usize, min: Severity)
    requires
        d.severity matches Some(s) && 1 <= s <= 4,
    ensures
        diagnostic_kept(d, true, Some(start), Some(end), Some(min)) <==> 4 - d.severity->0 >= severity_rank(min),
{
}

/// The protocol severities that the editor knows: 1 to 4.
pub open spec fn severity_known(d: LspDiagnostic) -> bool {
    d.severity matches Some(s) ==> 1 <= s <= 4
}

fn copy_text(s: &Option<String>) -> (r: Option<String>)
    ensures
        same_text(r, *s),
{
    match s {
        Some(t) => Some(t.clone()),
        None => None,
    }
}

fn copy_code(c: &Option<NumberOrString>) -> (r: Option<NumberOrString>)
    ensures
        same_code(r, *c),
{
    match c {
        Some(NumberOrString::Number(x)) => Some(NumberOrString::Number(*x)),
        Some(NumberOrString::String(x)) => Some(NumberOrString::String(x.clone())),
        None => None,
    }
}

/// The editor's tags for the protocol tags `tags`.
pub fn convert_tags(tags: &Vec<i32>) -> (r: Vec<DiagnosticTag>)
    ensures
        r@ == tags_of(tags@),
{
    let mut r: Vec<DiagnosticTag> = Vec::new();
    let mut i: usize = 0;
    while i < tags.len()
        invariant
            i <= tags@.len(),
            r@ == tags_of(tags@.take(i as int)),
        decreases tags@.len() - i,
    {
        proof {
            assert(tags@.take(i + 1).drop_last() =~= tags@.take(i as int));
        }
        let t = tags[i];
        if t == 1 {
            r.push(DiagnosticTag::Unnecessary);
        } else if t == 2 {
            r.push(DiagnosticTag::Deprecated);
        }
        i = i + 1;
    }
    proof {
        assert(tags@.take(tags@.len() as int) =~= tags@);
    }
    r
}

/// The editor's diagnostic for `diagnostic`, whose ends are at the
/// characters `start` and `end` of the document (none where the position is
/// outside it); none when it is not kept (see `diagnostic_kept`).
pub fn convert_diagnostic(diagnostic: &LspDiagnostic, server_initialized: bool, start: Option<usize>,
    end: Option<usize>, min_severity: Option<Severity>) -> (r: Option<Diagnostic>)
    requires
        server_initialized && start is Some && end is Some ==> severity_known(*diagnostic),
    ensures
        r is Some <==> diagnostic_kept(*diagnostic, server_initialized, start, end, min_severity),
        r matches Some(c) ==> converted(*diagnostic, start->0, end->0, c),
{
    if !server_initialized {
        return None;
    }
    let start = match start {
        Some(s) => s,
        None => return None,
    };
    let end = match end {
        Some(e) => e,
        None => return None,
    };
    let severity = match diagnostic.severity {
        Some(s) => Some(
            if s == 1 {
                Severity::Error
            } else if s == 2 {
                Severity::Warning
            } else if s == 3 {
                Severity::Info
            } else {
                Severity::Hint
            },
        ),
        None => None,
    };
    if let Some(min) = min_severity {
        if let Some(sev) = severity {
            if rank(sev) < rank(min) {
                return None;
            }
        }
    }
    let tags = match &diagnostic.tags {
        Some(t) => convert_tags(t),
        None => Vec::new(),
    };
    let data = match &diagnostic.data {
        Some(v) => Some(clone_json_value(v)),
        None => None,
    };
    Some(Diagnostic {
        start,
        end,
        line: diagnostic.start.line as usize,
        message: diagnostic.message.clone(),
        severity,
        code: copy_code(&diagnostic.code),
        tags,
        source: copy_text(&diagnostic.source),
        data,
    })
}

/// Whether a diagnostics notification for document version `version` (if
/// it names one) applies to a document at version `doc_version`.
pub open spec fn version_applies(version: Option<i32>, doc_version: usize) -> bool {
    version matches Some(v) ==> v == doc_version as i32
}

/// Whether a diagnostics notification applies to the document; see
/// `version_applies`.
pub fn publish_applies(version: Option<i32>, doc_version: usize) -> (r: bool)
    ensures
        r == version_applies(version, doc_version),
{
    match version {
        Some(v) => v == doc_version as i32,
        None => true,
    }
}

/// The editor's diagnostics for `diagnostics` in order, where `positions`
/// gives the characters of their ends; those not kept are left out.
pub open spec fn converted_all(diagnostics: Seq<LspDiagnostic>, positions: Seq<(Option<usize>, Option<usize>)>,
    server_initialized: bool, min_severity: Option<Severity>, r: Seq<Diagnostic>) -> bool
    decreases diagnostics.len(),
{
    if diagnostics.len() == 0 {
        r.len() == 0
    } else {
        let d = diagnostics.last();
        let p = positions[diagnostics.len() - 1];
        if diagnostic_kept(d, server_initialized, p.0, p.1, min_severity) {
            &&& r.len() > 0
            &&& converted(d, p.0->0, p.1->0, r.last())
            &&& converted_all(diagnostics.drop_last(), positions, server_initialized, min_severity, r.drop_last())
        } else {
            converted_all(diagnostics.drop_last(), positions, server_initialized, min_severity, r)
        }
    }
}

/// The editor's diagnostics for `diagnostics`; see `convert_diagnostic`.
pub fn convert_diagnostics(diagnostics: &Vec<LspDiagnostic>, positions: &Vec<(Option<usize>, Option<usize>)>,
    server_initialized: bool, min_severity: Option<Severity>) -> (r: Vec<Diagnostic>)
    requires
        positions@.len() == diagnostics@.len(),
        forall|i: int| 0 <= i < diagnostics@.len() && server_initialized && (#[trigger] positions@[i]).0 is Some
            && positions@[i].1 is Some ==> severity_known(diagnostics@[i]),
    ensures
        converted_all(diagnostics@, positions@, server_initialized, min_severity, r@),
{
    let mut r: Vec<Diagnostic> = Vec::new();
    let mut i: usize = 0;
    while i < diagnostics.len()
        invariant
            i <= diagnostics@.len(),
            positions@.len() == diagnostics@.len(),
            forall|k: int| 0 <= k < diagnostics@.len() && server_initialized && (#[trigger] positions@[k]).0 is Some
                && positions@[k].1 is Some ==> severity_known(diagnostics@[k]),
            converted_all(diagnostics@.take(i as int), positions@, server_initialized, min_severity, r@),
        decreases diagnostics@.len() - i,
    {
        proof {
            assert(diagnostics@.take(i + 1).drop_last() =~= diagnostics@.take(i as int));
            assert(diagnostics@.take(i + 1).last() == diagnostics@[i as int]);
        }
        let (start, end) = positions[i];
        let ghost before = r@;
        match convert_diagnostic(&diagnostics[i], server_initialized, start, end, min_severity) {
            Some(c) => {
                r.push(c);
                proof {
                    assert(r@.drop_last() =~= before);
                }
            },
            None => {},
        }
        i = i + 1;
    }
    proof {
        assert(diagnostics@.take(diagnostics@.len() as int) =~= diagnostics@);
    }
    r
}

/// The order in which diagnostics are kept: by severity (none first), then
/// by start position.
pub open spec fn diagnostic_key_le(a: LspDiagnostic, b: LspDiagnostic) -> bool {
    let sa: int = match a.severity { Some(s) => s as int, None => -0x1_0000_0000 };
    let sb: int = match b.severity { Some(s) => s as int, None => -0x1_0000_0000 };
    sa < sb || (sa == sb && (a.start.line < b.start.line || (a.start.line == b.start.line
        && a.start.character <= b.start.character)))
}

/// `slice::sort_unstable_by_key` with the key (severity, start line, start
/// character). Claimed, as std documents: the diagnostics afterwards are the
/// same ones, ordered by the key (severity `None` before any severity); the
/// order of diagnostics with equal keys is not stated.
#[verifier::external_body]
fn sort_diagnostics(diagnostics: &mut Vec<LspDiagnostic>)
    ensures
        final(diagnostics)@.to_multiset() == old(diagnostics)@.to_multiset(),
        forall|i: int, j: int| 0 <= i < j < final(diagnostics)@.len()
            ==> diagnostic_key_le(#[trigger] final(diagnostics)@[i], #[trigger] final(diagnostics)@[j]),
{
    diagnostics.sort_unstable_by_key(|d| (d.severity, d.start.line, d.start.character));
}

/// The diagnostics are in order of (severity, start line, start character).
pub open spec fn diagnostics_sorted(ds: Seq<LspDiagnostic>) -> bool {
    forall|i: int, j: int| 0 <= i < j < ds.len() ==> diagnostic_key_le(#[trigger] ds[i], #[trigger] ds[j])
}

/// Handles diagnostics a server published for a document. The document's
/// own diagnostics are replaced (`Some`) when it is open (`doc_version` is
/// its version) and the notification's version, if any, is that version;
/// they are the converted ones (see `convert_diagnostics`, with `positions`
/// the characters of each diagnostic's ends). Either way the published
/// diagnostics, which the editor keeps for the document's path, are sorted
/// by severity and start.
pub fn publish_diagnostics(
    diagnostics: &mut Vec<LspDiagnostic>,
    version: Option<i32>,
    doc_version: Option<usize>,
    positions: &Vec<(Option<usize>, Option<usize>)>,
    server_initialized: bool,
    min_severity: Option<Severity>,
) -> (r: Option<Vec<Diagnostic>>)
    requires
        positions@.len() == old(diagnostics)@.len(),
        doc_version matches Some(v) && version_applies(version, v) ==> forall|i: int| 0 <= i < old(diagnostics)@.len()
            && server_initialized && (#[trigger] positions@[i]).0 is Some && positions@[i].1 is Some ==> severity_known(
            old(diagnostics)@[i]),
    ensures
        r is Some <==> (doc_version matches Some(v) && version_applies(version, v)),
        r matches Some(converted) ==> converted_all(old(diagnostics)@, positions@, server_initialized, min_severity, converted@),
        final(diagnostics)@.to_multiset() == old(diagnostics)@.to_multiset(),
        diagnostics_sorted(final(diagnostics)@),
{
    let converted = match doc_version {
        Some(v) => if publish_applies(version, v) {
            Some(convert_diagnostics(diagnostics, positions, server_initialized, min_severity))
        } else {
            None
        },
        None => None,
    };
    sort_diagnostics(diagnostics);
    converted
}

/// The work-done progress a server reports: its start (with a title), a
/// report, or its end.
pub enum WorkDoneProgress {
    Begin { title: String, message: Option<String>, percentage: Option<u32> },
    Report { message: Option<String>, percentage: Option<u32> },
    End { message: Option<String> },
}

/// The status text of a progress report: the token in brackets, then the
/// percentage, the title, and the message (after ` - ` when there is a
/// title), each where present.
pub open spec fn progress_text(token: Seq<char>, title: Option<Seq<char>>, message: Option<Seq<char>>,
    percentage: Option<u32>) -> Seq<char>
{
    seq!['['] + token + seq![']']
        + (match percentage { Some(p) => seq![' '] + decimal(p as nat) + seq!['%'], None => Seq::empty() })
        + (match title { Some(t) => seq![' '] + t, None => Seq::empty() })
        + (match message {
            Some(m) => (if title is Some { seq![' ', '-', ' '] } else { seq![' '] }) + m,
            None => Seq::empty(),
        })
}

/// The text of a progress token: the number in decimal, or the string.
pub open spec fn token_text(token: NumberOrString) -> Seq<char> {
    match token {
        NumberOrString::Number(n) => if n < 0 { seq!['-'] + decimal((-n) as nat) } else { decimal(n as nat) },
        NumberOrString::String(s) => s@,
    }
}

/// Appends the text of `token` to `s`.
fn push_token(s: &mut String, token: &NumberOrString)
    ensures
        final(s)@ == old(s)@ + token_text(*token),
{
    match token {
        NumberOrString::Number(n) => {
            if *n < 0 {
                push_char(s, '-');
                let m: i64 = -(*n as i64);
                push_decimal(s, m as u64);
                proof {
                    assert(old(s)@ + token_text(*token) =~= old(s)@.push('-') + decimal(m as nat));
                }
            } else {
                push_decimal(s, *n as u64);
            }
        },
        NumberOrString::String(t) => push_str(s, t.as_str()),
    }
}

/// What the editor does with a progress report: end the progress (and stop
/// the spinner when nothing else progresses), and the status line to show
/// (none when the report is shown quietly); `clear_status` when an end
/// without message clears the status line.
pub struct ProgressOutcome {
    pub end_progress: bool,
    pub status: Option<String>,
    pub clear_status: bool,
}

/// The title, message and percentage of a report to show; none for an end
/// without message.
pub open spec fn progress_parts(work: WorkDoneProgress) -> Option<(Option<Seq<char>>, Option<Seq<char>>, Option<u32>)> {
    match work {
        WorkDoneProgress::Begin { title, message, percentage } =>
            Some((Some(title@), match message { Some(m) => Some(m@), None => None }, percentage)),
        WorkDoneProgress::Report { message, percentage } =>
            Some((None, match message { Some(m) => Some(m@), None => None }, percentage)),
        WorkDoneProgress::End { message } => match message {
            Some(m) => Some((None, Some(m@), None)),
            None => None,
        },
    }
}

/// What the editor does with the progress report `work` for `token`: an end
/// without message ends the progress and clears the status line; any other
/// report shows its text (when messages are displayed), and an end ends the
/// progress.
pub fn progress_update(token: &NumberOrString, work: &WorkDoneProgress, display_messages: bool)
    -> (out: ProgressOutcome)
    ensures
        match progress_parts(*work) {
            None => out.end_progress && out.clear_status && out.status is None,
            Some((title, message, percentage)) => {
                &&& out.end_progress == (work is End)
                &&& !out.clear_status
                &&& if display_messages {
                    out.status matches Some(s) && s@ == progress_text(token_text(*token), title, message, percentage)
                } else {
                    out.status is None
                }
            },
        },
{
    let (title, message, percentage): (Option<&String>, Option<&String>, Option<u32>) = match work {
        WorkDoneProgress::Begin { title, message, percentage } => (Some(title), message.as_ref(), *percentage),
        WorkDoneProgress::Report { message, percentage } => (None, message.as_ref(), *percentage),
        WorkDoneProgress::End { message } => match message {
            Some(m) => (None, Some(m), None),
            None => {
                return ProgressOutcome { end_progress: true, status: None, clear_status: true };
            },
        },
    };
    let is_end = match work {
        WorkDoneProgress::End { .. } => true,
        _ => false,
    };
    if !display_messages {
        return ProgressOutcome { end_progress: is_end, status: None, clear_status: false };
    }
    let mut status = String::new();
    push_char(&mut status, '[');
    push_token(&mut status, token);
    push_char(&mut status, ']');
    let ghost head = status@;
    if let Some(p) = percentage {
        push_char(&mut status, ' ');
        push_decimal(&mut status, p as u64);
        push_char(&mut status, '%');
    }
    let ghost with_percentage = status@;
    if let Some(t) = title {
        push_char(&mut status, ' ');
        push_str(&mut status, t.as_str());
    }
    let ghost with_title = status@;
    if let Some(m) = message {
        if title.is_some() {
            proof {
                reveal_strlit(" - ");
            }
            push_str(&mut status, " - ");
        } else {
            push_char(&mut status, ' ');
        }
        push_str(&mut status, m.as_str());
    }
    proof {
        let title_v = match title { Some(t) => Some(t@), None => None::<Seq<char>> };
        let message_v = match message { Some(m) => Some(m@), None => None::<Seq<char>> };
        let pct = match percentage { Some(p) => seq![' '] + decimal(p as nat) + seq!['%'], None => Seq::<char>::empty() };
        let ttl = match title_v { Some(t) => seq![' '] + t, None => Seq::<char>::empty() };
        let msg = match message_v {
            Some(m) => (if title_v is Some { seq![' ', '-', ' '] } else { seq![' '] }) + m,
            None => Seq::<char>::empty(),
        };
        assert(head =~= seq!['['] + token_text(*token) + seq![']']);
        assert(with_percentage =~= head + pct);
        assert(with_title =~= with_percentage + ttl);
        assert(status@ =~= with_title + msg);
        assert(progress_parts(*work) == Some((title_v, message_v, percentage)));
    }
    ProgressOutcome { end_progress: is_end, status: Some(status), clear_status: false }
}

/// The JSON-RPC error codes the editor replies with.
#[derive(Clone, Copy, PartialEq, Eq, Debug, Structural)]
pub enum ErrorCode {
    ParseError,
    MethodNotFound,
}

impl ErrorCode {
    /// The code's number: -32700 for a parse error, -32601 for a method not found.
    pub fn code(&self) -> (r: i64)
        ensures
            r == match self {
                ErrorCode::ParseError => -32700int,
                ErrorCode::MethodNotFound => -32601int,
            },
    {
        match self {
            ErrorCode::ParseError => -32700,
            ErrorCode::MethodNotFound => -32601,
        }
    }
}

/// Why a request of the server could not be served: the editor does not
/// handle the method, or the request was malformed.
#[derive(Clone, Copy, PartialEq, Eq, Debug, Structural)]
pub enum MethodCallFailure {
    Unhandled,
    Malformed,
}

/// A JSON-RPC error reply.
pub struct JsonRpcError {
    pub code: ErrorCode,
    pub message: String,
}

/// The error reply to a request for `method` that could not be served: a
/// method not found for an unhandled method, a parse error otherwise.
pub fn method_call_error(failure: MethodCallFailure, method: &str) -> (r: JsonRpcError)
    ensures
        r.code == match failure {
            MethodCallFailure::Unhandled => ErrorCode::MethodNotFound,
            MethodCallFailure::Malformed => ErrorCode::ParseError,
        },
        r.message@ == match failure {
            MethodCallFailure::Unhandled => "Method not found: "@ + method@,
            MethodCallFailure::Malformed => "Malformed method call: "@ + method@,
        },
{
    match failure {
        MethodCallFailure::Unhandled => {
            let mut message = "Method not found: ".to_string();
            push_str(&mut message, method);
            JsonRpcError { code: ErrorCode::MethodNotFound, message }
        },
        MethodCallFailure::Malformed => {
            let mut message = "Malformed method call: ".to_string();
            push_str(&mut message, method);
            JsonRpcError { code: ErrorCode::ParseError, message }
        },
    }
}

/// The reply to a request to apply a workspace edit.
pub struct ApplyWorkspaceEditResponse {
    pub applied: bool,
    pub failure_reason: Option<String>,
    pub failed_change: Option<u32>,
}

/// The reply to a workspace edit that was applied (`Ok`) or failed with a
/// reason at the change of some index (`Err`).
pub fn workspace_edit_response(result: &Result<(), (String, usize)>) -> (r: ApplyWorkspaceEditResponse)
    ensures
        r.applied == result is Ok,
        match result {
            Ok(_) => r.failure_reason is None && r.failed_change is None,
            Err((reason, index)) => r.failure_reason matches Some(f) && f@ == reason@
                && r.failed_change == Some(*index as u32),
        },
{
    match result {
        Ok(_) => ApplyWorkspaceEditResponse { applied: true, failure_reason: None, failed_change: None },
        Err((reason, index)) => ApplyWorkspaceEditResponse {
            applied: false,
            failure_reason: Some(reason.clone()),
            failed_change: Some(*index as u32),
        },
    }
}

/// What the server logic reads of an open document: the id of its language
/// server, if any, and whether it has a URL.
#[derive(Clone, Copy, PartialEq, Eq, Debug, Structural)]
pub struct DocumentServer {
    pub server_id: Option<usize>,
    pub has_url: bool,
}

/// The indices of the documents served by `server_id` (with a URL, when
/// `with_url` is asked for), in order.
pub open spec fn served_documents(docs: Seq<DocumentServer>, server_id: usize, with_url: bool) -> Seq<usize>
    decreases docs.len(),
{
    if docs.len() == 0 {
        Seq::empty()
    } else {
        let rest = served_documents(docs.drop_last(), server_id, with_url);
        let d = docs.last();
        if d.server_id == Some(server_id) && (d.has_url || !with_url) {
            rest.push((docs.len() - 1) as usize)
        } else {
            rest
        }
    }
}

/// The documents of `server_id`, in order: once it is initialized, those
/// with a URL are opened on it (`with_url`); when it exits, all of them lose
/// their diagnostics.
pub fn documents_of_server(docs: &Vec<DocumentServer>, server_id: usize, with_url: bool) -> (r: Vec<usize>)
    ensures
        r@ == served_documents(docs@, server_id, with_url),
{
    let mut r: Vec<usize> = Vec::new();
    let mut i: usize = 0;
    while i < docs.len()
        invariant
            i <= docs@.len(),
            r@ == served_documents(docs@.take(i as int), server_id, with_url),
        decreases docs@.len() - i,
    {
        proof {
            assert(docs@.take(i + 1).drop_last() =~= docs@.take(i as int));
            assert(docs@.take(i + 1).last() == docs@[i as int]);
        }
        let d = docs[i];
        if d.server_id == Some(server_id) && (d.has_url || !with_url) {
            r.push(i);
        }
        i = i + 1;
    }
    proof {
        assert(docs@.take(docs@.len() as int) =~= docs@);
    }
    r
}

/// An open document as a server's exit concerns it: the id of its language
/// server, its URL (if it has one), and its diagnostics.
pub struct ServedDocument {
    pub server_id: Option<usize>,
    pub url: Option<String>,
    pub diagnostics: Vec<Diagnostic>,
}

/// The URLs of the documents served by `server_id`, in order.
pub open spec fn exited_urls(docs: Seq<ServedDocument>, server_id: usize) -> Seq<Seq<char>>
    decreases docs.len(),
{
    if docs.len() == 0 {
        Seq::empty()
    } else {
        let rest = exited_urls(docs.drop_last(), server_id);
        let d = docs.last();
        if d.server_id == Some(server_id) && d.url is Some {
            rest.push(d.url->0@)
        } else {
            rest
        }
    }
}

/// Whether a stored list of diagnostics stays after the exit: its URL is
/// not that of a document of the server.
pub open spec fn stored_kept(urls: Seq<Seq<char>>) -> spec_fn((String, Vec<LspDiagnostic>)) -> bool {
    |e: (String, Vec<LspDiagnostic>)| !urls.contains(e.0@)
}

/// Whether a server stays registered: it is not the one that exited.
pub open spec fn server_kept(server_id: usize) -> spec_fn(usize) -> bool {
    |s: usize| s != server_id
}

fn contains_url(urls: &Vec<String>, url: &String) -> (r: bool)
    ensures
        r == urls@.map_values(|u: String| u@).contains(url@),
{
    let mut i: usize = 0;
    while i < urls.len()
        invariant
            i <= urls@.len(),
            forall|k: int| 0 <= k < i ==> (#[trigger] urls@[k])@ != url@,
        decreases urls@.len() - i,
    {
        if urls[i] == *url {
            assert(urls@.map_values(|u: String| u@)[i as int] == url@);
            return true;
        }
        i = i + 1;
    }
    proof {
        let views = urls@.map_values(|u: String| u@);
        if views.contains(url@) {
            let k = choose|k: int| 0 <= k < views.len() && #[trigger] views[k] == url@;
            assert(urls@[k]@ == url@);
        }
    }
    false
}

proof fn lemma_filter_next<A>(s: Seq<A>, j: int, pred: spec_fn(A) -> bool)
    requires
        0 <= j < s.len(),
    ensures
        s.subrange(0, j + 1).filter(pred) == if pred(s[j]) {
            s.subrange(0, j).filter(pred).push(s[j])
        } else {
            s.subrange(0, j).filter(pred)
        },
{
    reveal(Seq::filter);
    assert(s.subrange(0, j + 1).drop_last() =~= s.subrange(0, j));
}

/// What the editor does when language server `server_id` exits: the status
/// line says "Language server exited" (the text returned); every document of
/// the server loses its diagnostics, the others keep theirs; the diagnostics
/// stored for the URLs of the server's documents are dropped, the others
/// kept in order; and the server leaves the registry.
pub fn server_exited(
    documents: &mut Vec<ServedDocument>,
    stored: &mut Vec<(String, Vec<LspDiagnostic>)>,
    servers: &mut Vec<usize>,
    server_id: usize,
) -> (status: String)
    ensures
        status@ == "Language server exited"@,
        final(documents)@.len() == old(documents)@.len(),
        forall|i: int| 0 <= i < old(documents)@.len() ==> {
            &&& (#[trigger] final(documents)@[i]).server_id == old(documents)@[i].server_id
            &&& final(documents)@[i].url == old(documents)@[i].url
            &&& if old(documents)@[i].server_id == Some(server_id) {
                final(documents)@[i].diagnostics@.len() == 0
            } else {
                final(documents)@[i].diagnostics@ == old(documents)@[i].diagnostics@
            }
        },
        final(stored)@ == old(stored)@.filter(stored_kept(exited_urls(old(documents)@, server_id))),
        final(servers)@ == old(servers)@.filter(server_kept(server_id)),
{
    let status = "Language server exited".to_string();
    let ghost docs0 = documents@;
    let mut urls: Vec<String> = Vec::new();
    let mut i: usize = 0;
    while i < documents.len()
        invariant
            i <= docs0.len(),
            documents@.len() == docs0.len(),
            urls@.map_values(|u: String| u@) == exited_urls(docs0.take(i as int), server_id),
            forall|k: int| 0 <= k < docs0.len() ==> {
                &&& (#[trigger] documents@[k]).server_id == docs0[k].server_id
                &&& documents@[k].url == docs0[k].url
                &&& if k < i && docs0[k].server_id == Some(server_id) {
                    documents@[k].diagnostics@.len() == 0
                } else {
                    documents@[k].diagnostics@ == docs0[k].diagnostics@
                }
            },
        decreases docs0.len() - i,
    {
        proof {
            assert(docs0.take(i + 1).drop_last() =~= docs0.take(i as int));
            assert(docs0.take(i + 1).last() == docs0[i as int]);
        }
        if documents[i].server_id == Some(server_id) {
            let ghost before = documents@;
            let mut d = documents.remove(i);
            d.diagnostics = Vec::new();
            if let Some(u) = &d.url {
                urls.push(u.clone());
            }
            documents.insert(i, d);
            proof {
                assert forall|k: int| 0 <= k < docs0.len() && k != i implies #[trigger] documents@[k] == before[k] by {}
            }
        }
        i = i + 1;
        proof {
            assert(urls@.map_values(|u: String| u@) =~= exited_urls(docs0.take(i as int), server_id));
        }
    }
    proof {
        assert(docs0.take(docs0.len() as int) =~= docs0);
    }
    let ghost gone = exited_urls(docs0, server_id);

    let ghost stored0 = stored@;
    let ghost m = stored0.len();
    let mut i: usize = 0;
    let ghost mut j: int = 0;
    while i < stored.len()
        invariant
            0 <= j <= m,
            m == stored0.len(),
            urls@.map_values(|u: String| u@) == gone,
            stored@ == stored0.subrange(0, j).filter(stored_kept(gone)) + stored0.subrange(j, m as int),
            i == stored0.subrange(0, j).filter(stored_kept(gone)).len(),
        decreases m - j,
    {
        proof {
            lemma_filter_next(stored0, j, stored_kept(gone));
            assert(stored@[i as int] == stored0[j]);
        }
        if contains_url(&urls, &stored[i].0) {
            stored.remove(i);
        } else {
            i = i + 1;
        }
        proof {
            assert(stored@ =~= stored0.subrange(0, j + 1).filter(stored_kept(gone)) + stored0.subrange(j + 1, m as int));
            j = j + 1;
        }
    }
    proof {
        assert(stored0.subrange(0, j) =~= stored0);
        assert(stored0.subrange(j, m as int) =~= Seq::<(String, Vec<LspDiagnostic>)>::empty());
        assert(stored@ =~= stored0.filter(stored_kept(gone)));
    }

    let ghost servers0 = servers@;
    let ghost n = servers0.len();
    let mut i: usize = 0;
    let ghost mut j: int = 0;
    while i < servers.len()
        invariant
            0 <= j <= n,
            n == servers0.len(),
            servers@ == servers0.subrange(0, j).filter(server_kept(server_id)) + servers0.subrange(j, n as int),
            i == servers0.subrange(0, j).filter(server_kept(server_id)).len(),
        decreases n - j,
    {
        proof {
            lemma_filter_next(servers0, j, server_kept(server_id));
            assert(servers@[i as int] == servers0[j]);
        }
        if servers[i] == server_id {
            servers.remove(i);
        } else {
            i = i + 1;
        }
        proof {
            assert(servers@ =~= servers0.subrange(0, j + 1).filter(server_kept(server_id)) + servers0.subrange(j + 1, n as int));
            j = j + 1;
        }
    }
    proof {
        assert(servers0.subrange(0, j) =~= servers0);
        assert(servers0.subrange(j, n as int) =~= Seq::<usize>::empty());
        assert(servers@ =~= servers0.filter(server_kept(server_id)));
    }
    status
}

/// The parts of a dotted configuration section, as `str::split('.')` gives
/// them: the text between dots, empty parts included ("" gives one empty
/// part).
pub open spec fn section_parts(section: Seq<char>) -> Seq<Seq<char>>
    decreases section.len(),
{
    if section.len() == 0 {
        seq![Seq::empty()]
    } else {
        let init = section_parts(section.drop_last());
        if section.last() == '.' {
            init.push(Seq::empty())
        } else {
            init.update(init.len() - 1, init.last().push(section.last()))
        }
    }
}

proof fn lemma_section_parts_nonempty(section: Seq<char>)
    ensures
        section_parts(section).len() > 0,
    decreases section.len(),
{
    if section.len() > 0 {
        lemma_section_parts_nonempty(section.drop_last());
    }
}

/// The value reached from `value` by taking member after member for `parts`,
/// if every one is there.
pub open spec fn walk_members(value: Value, parts: Seq<Seq<char>>) -> Option<Value>
    decreases parts.len(),
{
    if parts.len() == 0 {
        Some(value)
    } else {
        match json_member(value, parts[0]) {
            Some(m) => walk_members(m, parts.drop_first()),
            None => None,
        }
    }
}

/// The configuration a server asks for with a `workspace/configuration`
/// item: nothing without a configuration; the whole configuration without a
/// section; otherwise the value reached by following the section's dotted
/// parts member by member (see `section_parts`), nothing when one is missing.
pub open spec fn configuration_item(config: Option<Value>, section: Option<Seq<char>>) -> Option<Value> {
    match config {
        None => None,
        Some(c) => match section {
            None => Some(c),
            Some(sec) => walk_members(c, section_parts(sec)),
        },
    }
}

/// Splits a dotted section into its parts; see `section_parts`.
pub fn split_section(section: &str) -> (r: Vec<String>)
    ensures
        r@.map_values(|p: String| p@) == section_parts(section@),
{
    let mut parts: Vec<String> = Vec::new();
    parts.push(String::new());
    let n = section.unicode_len();
    let mut i: usize = 0;
    while i < n
        invariant
            n == section@.len(),
            i <= n,
            parts@.map_values(|p: String| p@) == section_parts(section@.take(i as int)),
            parts@.len() > 0,
        decreases n - i,
    {
        let c = section.get_char(i);
        proof {
            assert(section@.take(i + 1).drop_last() =~= section@.take(i as int));
            assert(section@.take(i + 1).last() == c);
        }
        if c == '.' {
            parts.push(String::new());
        } else {
            let last = parts.len() - 1;
            let mut p = parts.remove(last);
            push_char(&mut p, c);
            parts.push(p);
        }
        i = i + 1;
        proof {
            assert(parts@.map_values(|p: String| p@) =~= section_parts(section@.take(i as int)));
        }
    }
    proof {
        assert(section@.take(n as int) =~= section@);
    }
    parts
}

/// The answer to one `workspace/configuration` item; see
/// `configuration_item`.
pub fn configuration_for<'a>(config: Option<&'a Value>, section: Option<&str>) -> (r: Option<Value>)
    ensures
        r == configuration_item(
            match config { Some(c) => Some(*c), None => None },
            match section { Some(s) => Some(s@), None => None },
        ),
{
    let mut current = match config {
        Some(c) => c,
        None => return None,
    };
    let sec = match section {
        Some(s) => s,
        None => return Some(clone_json_value(current)),
    };
    let parts = split_section(sec);
    let ghost all = parts@.map_values(|p: String| p@);
    let ghost base = *current;
    proof {
        assert(all.skip(0) =~= all);
    }
    let mut i: usize = 0;
    while i < parts.len()
        invariant
            i <= parts@.len(),
            all == parts@.map_values(|p: String| p@),
            all == section_parts(sec@),
            config matches Some(c) && *c == base,
            section matches Some(t) && t@ == sec@,
            walk_members(base, all) == walk_members(*current, all.skip(i as int)),
        decreases parts@.len() - i,
    {
        proof {
            assert(all.skip(i as int).drop_first() =~= all.skip(i + 1));
            assert(all.skip(i as int)[0] == parts@[i as int]@);
        }
        match json_get(current, parts[i].as_str()) {
            Some(m) => {
                current = m;
            },
            None => {
                proof {
                    assert(walk_members(*current, all.skip(i as int)) is None);
                    assert(walk_members(base, all) is None);
                }
                return None;
            },
        }
        i = i + 1;
    }
    proof {
        assert(all.skip(i as int) =~= Seq::<Seq<char>>::empty());
    }
    Some(clone_json_value(current))
}

/// The status after a document is written: its path (relative, as the
/// editor shows it) in quotes, then its lines and bytes.
pub open spec fn written_status_text(path: Seq<char>, lines: nat, bytes: nat) -> Seq<char> {
    "'"@ + path + "' written, "@ + decimal(lines) + "L "@ + decimal(bytes) + "B"@
}

/// The status after a document is written; see `written_status_text`.
pub fn written_status(path: &str, lines: usize, bytes: usize) -> (r: String)
    ensures
        r@ == written_status_text(path@, lines as nat, bytes as nat),
{
    let mut status = "'".to_string();
    push_str(&mut status, path);
    push_str(&mut status, "' written, ");
    push_decimal(&mut status, lines as u64);
    push_str(&mut status, "L ");
    push_decimal(&mut status, bytes as u64);
    push_str(&mut status, "B");
    status
}

} // verus!
