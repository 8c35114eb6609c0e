//! Source snippets for single tokens.

use crate::make::NodeKind;
use crate::text::{same_text, trim, trimmed};
use vstd::prelude::*;
use vstd::string::StringExecFns;

verus! {

/// A source text together with the kind of node whose first token is
/// wanted.
#[derive(Debug, Clone, PartialEq, Eq)]
pub struct TokenSnippet {
    /// The kind of the node that the token begins: the first of its kind in
    /// the text.
    pub within: NodeKind,
    /// The text to parse.
    pub source: String,
}

/// `snippet` asks for the first token of the first node of kind `within`
/// in the text `source`.
pub open spec fn asks_token(snippet: TokenSnippet, within: NodeKind, source: Seq<char>) -> bool {
    snippet.within == within && snippet.source@ == source
}

/// The token of the given white space. The text holds nothing else.
pub fn whitespace(text: &str) -> (snippet: TokenSnippet)
    requires
        trimmed(text@).len() == 0,
    ensures
        asks_token(snippet, NodeKind::SourceFile, text@),
{
    TokenSnippet { within: NodeKind::SourceFile, source: String::from_str(text) }
}

/// The token of the given white space, or nothing where the text holds
/// anything else.
pub fn try_whitespace(text: &str) -> (snippet: Option<TokenSnippet>)
    ensures
        snippet.is_some() <==> trimmed(text@).len() == 0,
        snippet matches Some(s) ==> asks_token(s, NodeKind::SourceFile, text@),
{
    if trim(text).is_empty() {
        Some(whitespace(text))
    } else {
        None
    }
}

/// The token of the given comment. The text holds more than white space.
pub fn doc_comment(text: &str) -> (snippet: TokenSnippet)
    requires
        trimmed(text@).len() != 0,
    ensures
        asks_token(snippet, NodeKind::SourceFile, text@),
{
    TokenSnippet { within: NodeKind::SourceFile, source: String::from_str(text) }
}

/// The token of the given comment, or nothing where the text holds only
/// white space.
pub fn try_doc_comment(text: &str) -> (snippet: Option<TokenSnippet>)
    ensures
        snippet.is_some() <==> trimmed(text@).len() != 0,
        snippet matches Some(s) ==> asks_token(s, NodeKind::SourceFile, text@),
{
    if !trim(text).is_empty() {
        Some(doc_comment(text))
    } else {
        None
    }
}

/// The token of the given literal. The text has no white space at its start
/// or its end.
pub fn literal(text: &str) -> (snippet: TokenSnippet)
    requires
        trimmed(text@) == text@,
    ensures
        asks_token(snippet, NodeKind::Literal, "fn f() { let _ = "@ + text@ + "; }"@),
{
    let mut source = String::from_str("fn f() { let _ = ");
    source.append(text);
    source.append("; }");
    TokenSnippet { within: NodeKind::Literal, source }
}

/// The token of the given literal, or nothing where the text has white
/// space at its start or its end.
pub fn try_literal(text: &str) -> (snippet: Option<TokenSnippet>)
    ensures
        snippet.is_some() <==> trimmed(text@) == text@,
        snippet matches Some(s) ==> asks_token(
            s,
            NodeKind::Literal,
            "fn f() { let _ = "@ + text@ + "; }"@,
        ),
{
    if same_text(trim(text), text) {
        Some(literal(text))
    } else {
        None
    }
}

/// A text kept for the white space token that it begins with.
#[derive(Debug, Clone, PartialEq, Eq)]
pub struct WsBuilder(String);

impl View for WsBuilder {
    type V = Seq<char>;

    /// The text that is kept.
    closed spec fn view(&self) -> Seq<char> {
        self.0@
    }
}

impl WsBuilder {
    /// Keeps the text.
    pub fn new(text: &str) -> (builder: WsBuilder)
        ensures
            builder@ == text@,
    {
        WsBuilder(String::from_str(text))
    }

    /// The first token of the text.
    pub fn ws(&self) -> (snippet: TokenSnippet)
        ensures
            asks_token(snippet, NodeKind::SourceFile, self@),
    {
        TokenSnippet { within: NodeKind::SourceFile, source: self.0.clone() }
    }
}

} // verus!
