//! Editor-facing protocol payloads, and the JSON text of the parameters of
//! each request the client sends.

use crate::text::{decimal, push_decimal};
use vstd::prelude::*;

verus! {

/// Names a document by its URI.
#[derive(Debug, Clone)]
pub struct TextDocumentIdentifier {
    pub uri: String,
}

/// A zero-based line and character offset in a document.
#[derive(Debug, Clone, Copy, PartialEq, Eq, Structural)]
pub struct Position {
    pub line: u32,
    pub character: u32,
}

/// A span between two positions.
#[derive(Debug, Clone, Copy, PartialEq, Eq, Structural)]
pub struct Range {
    pub start: Position,
    pub end: Position,
}

/// One completion proposal.
#[derive(Debug, Clone)]
pub struct CompletionItem {
    pub label: String,
    pub kind: Option<u32>,
    pub detail: Option<String>,
}

/// One problem the server reports in a document.
#[derive(Debug, Clone)]
pub struct Diagnostic {
    pub range: Range,
    pub severity: Option<u32>,
    pub message: String,
}

/// A request the client sends, by method.
#[derive(Debug, Clone)]
pub enum LSPRequest {
    Initialize { process_id: Option<u32>, root_path: Option<String>, root_uri: Option<String> },
    Completion { text_document: TextDocumentIdentifier, position: Position },
    Definition { text_document: TextDocumentIdentifier, position: Position },
    Diagnostic { text_document: TextDocumentIdentifier },
}

/// The JSON string literal for `s`, quotes and escapes included.
pub uninterp spec fn json_string(s: Seq<char>) -> Seq<char>;

/// Relies on serde_json::to_string applied to a `&str`: it writes the string
/// as one JSON string literal, which depends on the characters alone. Writing
/// into memory cannot fail.
#[verifier::external_body]
fn quote(s: &str) -> (r: String)
    ensures
        r@ == json_string(s@),
{
    match serde_json::to_string(s) {
        Ok(t) => t,
        Err(_) => String::new(),
    }
}

/// `null`, or the JSON text of the number.
pub open spec fn opt_number(n: Option<u32>) -> Seq<char> {
    match n {
        Some(v) => decimal(v as nat),
        None => "null"@,
    }
}

/// `null`, or the JSON string literal.
pub open spec fn opt_string(s: Option<String>) -> Seq<char> {
    match s {
        Some(v) => json_string(v@),
        None => "null"@,
    }
}

pub open spec fn document_json(uri: Seq<char>) -> Seq<char> {
    "{\"uri\":"@ + json_string(uri) + "}"@
}

pub open spec fn position_json(p: Position) -> Seq<char> {
    "{\"line\":"@ + decimal(p.line as nat) + ",\"character\":"@ + decimal(p.character as nat) + "}"@
}

/// Parameters naming a document and a position in it.
pub open spec fn located_params(uri: Seq<char>, p: Position) -> Seq<char> {
    "{\"textDocument\":"@ + document_json(uri) + ",\"position\":"@ + position_json(p) + "}"@
}

/// Parameters naming a document.
pub open spec fn document_params(uri: Seq<char>) -> Seq<char> {
    "{\"textDocument\":"@ + document_json(uri) + "}"@
}

/// Parameters of the initialization request.
pub open spec fn initialize_params(
    process_id: Option<u32>,
    root_path: Option<String>,
    root_uri: Option<String>,
) -> Seq<char> {
    "{\"processId\":"@ + opt_number(process_id) + ",\"rootPath\":"@ + opt_string(root_path)
        + ",\"rootUri\":"@ + opt_string(root_uri) + ",\"capabilities\":{}}"@
}

/// The method name of a request.
pub open spec fn method_of(r: LSPRequest) -> Seq<char> {
    match r {
        LSPRequest::Initialize { .. } => "initialize"@,
        LSPRequest::Completion { .. } => "textDocument/completion"@,
        LSPRequest::Definition { .. } => "textDocument/definition"@,
        LSPRequest::Diagnostic { .. } => "textDocument/diagnostic"@,
    }
}

/// The JSON text of a request's parameters.
pub open spec fn params_of(r: LSPRequest) -> Seq<char> {
    match r {
        LSPRequest::Initialize { process_id, root_path, root_uri } => initialize_params(
            process_id,
            root_path,
            root_uri,
        ),
        LSPRequest::Completion { text_document, position } => located_params(
            text_document.uri@,
            position,
        ),
        LSPRequest::Definition { text_document, position } => located_params(
            text_document.uri@,
            position,
        ),
        LSPRequest::Diagnostic { text_document } => document_params(text_document.uri@),
    }
}

fn push_opt_number(s: &mut String, n: Option<u32>)
    ensures
        final(s)@ == old(s)@ + opt_number(n),
{
    match n {
        Some(v) => push_decimal(s, v as u64),
        None => s.append("null"),
    }
}

fn push_opt_string(s: &mut String, v: &Option<String>)
    ensures
        final(s)@ == old(s)@ + opt_string(*v),
{
    match v {
        Some(t) => {
            let q = quote(t.as_str());
            s.append(q.as_str());
        },
        None => s.append("null"),
    }
}

fn push_document(s: &mut String, d: &TextDocumentIdentifier)
    ensures
        final(s)@ == old(s)@ + document_json(d.uri@),
{
    s.append("{\"uri\":");
    let q = quote(d.uri.as_str());
    s.append(q.as_str());
    s.append("}");
    assert(final(s)@ =~= old(s)@ + document_json(d.uri@));
}

fn push_position(s: &mut String, p: Position)
    ensures
        final(s)@ == old(s)@ + position_json(p),
{
    s.append("{\"line\":");
    push_decimal(s, p.line as u64);
    s.append(",\"character\":");
    push_decimal(s, p.character as u64);
    s.append("}");
    assert(final(s)@ =~= old(s)@ + position_json(p));
}

impl LSPRequest {
    /// The protocol method name of this request.
    pub fn method(&self) -> (m: String)
        ensures
            m@ == method_of(*self),
    {
        match self {
            LSPRequest::Initialize { .. } => String::from_str("initialize"),
            LSPRequest::Completion { .. } => String::from_str("textDocument/completion"),
            LSPRequest::Definition { .. } => String::from_str("textDocument/definition"),
            LSPRequest::Diagnostic { .. } => String::from_str("textDocument/diagnostic"),
        }
    }

    /// The JSON text of this request's parameters.
    pub fn params(&self) -> (p: String)
        ensures
            p@ == params_of(*self),
    {
        match self {
            LSPRequest::Initialize { process_id, root_path, root_uri } => {
                let mut s = String::from_str("{\"processId\":");
                push_opt_number(&mut s, *process_id);
                s.append(",\"rootPath\":");
                push_opt_string(&mut s, root_path);
                s.append(",\"rootUri\":");
                push_opt_string(&mut s, root_uri);
                s.append(",\"capabilities\":{}}");
                assert(s@ =~= params_of(*self));
                s
            },
            LSPRequest::Completion { text_document, position } => {
                let mut s = String::from_str("{\"textDocument\":");
                push_document(&mut s, text_document);
                s.append(",\"position\":");
                push_position(&mut s, *position);
                s.append("}");
                assert(s@ =~= params_of(*self));
                s
            },
            LSPRequest::Definition { text_document, position } => {
                let mut s = String::from_str("{\"textDocument\":");
                push_document(&mut s, text_document);
                s.append(",\"position\":");
                push_position(&mut s, *position);
                s.append("}");
                assert(s@ =~= params_of(*self));
                s
            },
            LSPRequest::Diagnostic { text_document } => {
                let mut s = String::from_str("{\"textDocument\":");
                push_document(&mut s, text_document);
                s.append("}");
                assert(s@ =~= params_of(*self));
                s
            },
        }
    }
}

} // verus!
