//! The outside engines: tree-sitter's tag queries and its highlighter, each
//! run on a query or a list of scope names and a source text. Nothing here is
//! proved: an answer gets a name, and each item says what it takes on trust.

use vstd::prelude::*;
use tree_sitter_highlight::{HighlightConfiguration, HighlightEvent, Highlighter};
use tree_sitter_tags::{TagsConfiguration, TagsContext};
use crate::render::ScopeEvent;

verus! {

/// A tag as the tag engine reports it: the zero-based row and column where
/// the name starts, the byte span of the whole tagged node, and whether the
/// clause that found it is a definition.
#[derive(Clone, Copy, Debug, PartialEq, Eq)]
pub struct RawTag {
    pub row: usize,
    pub column: usize,
    pub start: usize,
    pub end: usize,
    pub is_definition: bool,
}

/// Where an engine gave no answer: its query did not build against the
/// grammar, or the query built and the run over the source failed.
#[derive(Clone, Copy, Debug, PartialEq, Eq)]
pub enum EngineFailure {
    Query,
    Run,
}

/// The error of a query that does not build.
#[verifier::external_type_specification]
#[verifier::external_body]
pub struct ExQueryError(tree_sitter::QueryError);

/// The error of the highlighter.
#[verifier::external_type_specification]
#[verifier::external_body]
pub struct ExHighlightError(tree_sitter_highlight::Error);

/// The error of the tag engine.
#[verifier::external_type_specification]
#[verifier::external_body]
pub struct ExTagsError(tree_sitter_tags::Error);

/// What the tag engine answers for a query over a Python source: the items
/// in its order, an item on which it failed as `None`.
pub uninterp spec fn python_tags_found(query: Seq<char>, source: Seq<u8>) -> Result<Seq<Option<RawTag>>, EngineFailure>;

/// What the tag engine answers for a query over a Rust source.
pub uninterp spec fn rust_tags_found(query: Seq<char>, source: Seq<u8>) -> Result<Seq<Option<RawTag>>, EngineFailure>;

/// The scope events that the highlighter answers for a Python source, a
/// scope's id being the place of its name in `names`.
pub uninterp spec fn python_events_found(names: Seq<Seq<char>>, source: Seq<u8>) -> Result<Seq<ScopeEvent>, EngineFailure>;

/// The scope events that the highlighter answers for a Rust source.
pub uninterp spec fn rust_events_found(names: Seq<Seq<char>>, source: Seq<u8>) -> Result<Seq<ScopeEvent>, EngineFailure>;

/// The items of a tag run as plain values: a tag, or `None` where the engine
/// failed on the item.
pub open spec fn reported(raw: Seq<Result<RawTag, tree_sitter_tags::Error>>) -> Seq<Option<RawTag>> {
    Seq::new(
        raw.len(),
        |i: int|
            match raw[i] {
                Ok(tag) => Some(tag),
                Err(_) => None,
            },
    )
}

/// A tag run as a plain value: the outer error is a query that did not
/// build, the inner one a run that failed.
pub open spec fn tags_answer(
    answer: Result<
        Result<Vec<Result<RawTag, tree_sitter_tags::Error>>, tree_sitter_tags::Error>,
        tree_sitter_tags::Error,
    >,
) -> Result<Seq<Option<RawTag>>, EngineFailure> {
    match answer {
        Err(_) => Err(EngineFailure::Query),
        Ok(Err(_)) => Err(EngineFailure::Run),
        Ok(Ok(raw)) => Ok(reported(raw@)),
    }
}

/// The texts of a list of names.
pub open spec fn name_texts(names: Seq<String>) -> Seq<Seq<char>> {
    Seq::new(names.len(), |i: int| names[i]@)
}

/// A highlighter run as a plain value: the outer error is a query that did
/// not build, the inner one a run that failed.
pub open spec fn events_answer(
    answer: Result<Result<Vec<ScopeEvent>, tree_sitter_highlight::Error>, tree_sitter::QueryError>,
) -> Result<Seq<ScopeEvent>, EngineFailure> {
    match answer {
        Err(_) => Err(EngineFailure::Query),
        Ok(Err(_)) => Err(EngineFailure::Run),
        Ok(Ok(events)) => Ok(events@),
    }
}

/// Trusted: builds `query` against the Python grammar with
/// `TagsConfiguration::new` (no query for locals) and runs it over `source`
/// with `TagsContext::generate_tags` on a fresh context, without a
/// cancellation flag; the items are handed out in the engine's order, each
/// tag as the plain numbers it holds. The claim is that the answer depends
/// on the query and the source alone.
#[verifier::external_body]
pub(crate) fn python_tags(query: &str, source: &[u8]) -> (answer: Result<
    Result<Vec<Result<RawTag, tree_sitter_tags::Error>>, tree_sitter_tags::Error>,
    tree_sitter_tags::Error,
>)
    ensures
        tags_answer(answer) == python_tags_found(query@, source@),
{
    let config = TagsConfiguration::new(tree_sitter_python::LANGUAGE.into(), query, "")?;
    let mut context = TagsContext::new();
    let found = context.generate_tags(&config, source, None).map(|(tags, _)| tags.map(|tag| tag.map(|t| RawTag {
        row: t.span.start.row,
        column: t.span.start.column,
        start: t.range.start,
        end: t.range.end,
        is_definition: t.is_definition,
    })).collect());
    Ok(found)
}

/// Trusted: the same for the Rust grammar.
#[verifier::external_body]
pub(crate) fn rust_tags(query: &str, source: &[u8]) -> (answer: Result<
    Result<Vec<Result<RawTag, tree_sitter_tags::Error>>, tree_sitter_tags::Error>,
    tree_sitter_tags::Error,
>)
    ensures
        tags_answer(answer) == rust_tags_found(query@, source@),
{
    let config = TagsConfiguration::new(tree_sitter_rust::LANGUAGE.into(), query, "")?;
    let mut context = TagsContext::new();
    let found = context.generate_tags(&config, source, None).map(|(tags, _)| tags.map(|tag| tag.map(|t| RawTag {
        row: t.span.start.row,
        column: t.span.start.column,
        start: t.range.start,
        end: t.range.end,
        is_definition: t.is_definition,
    })).collect());
    Ok(found)
}

/// Trusted: builds the highlight query that comes with the Python grammar
/// with `HighlightConfiguration::new` (no injections, no locals), sets the
/// scope names with `configure`, and runs `Highlighter::highlight` on a
/// fresh highlighter over `source`, without a cancellation flag or injected
/// languages; the events are handed out in the engine's order, one for one.
/// The claim is that the answer depends on the names and the source alone.
#[verifier::external_body]
pub(crate) fn python_scope_events(names: &Vec<String>, source: &[u8]) -> (answer: Result<
    Result<Vec<ScopeEvent>, tree_sitter_highlight::Error>,
    tree_sitter::QueryError,
>)
    ensures
        events_answer(answer) == python_events_found(name_texts(names@), source@),
{
    let grammar = tree_sitter_python::LANGUAGE.into();
    let mut config = HighlightConfiguration::new(grammar, "source", tree_sitter_python::HIGHLIGHTS_QUERY, "", "")?;
    config.configure(names);
    let mut highlighter = Highlighter::new();
    let found = highlighter.highlight(&config, source, None, None, |_| None);
    Ok(found.and_then(|events| events.map(|event| event.map(|e| match e {
        HighlightEvent::Source { start, end } => ScopeEvent::SourceRun { start, end },
        HighlightEvent::HighlightStart(h) => ScopeEvent::ScopeStart(h.0),
        HighlightEvent::HighlightEnd => ScopeEvent::ScopeEnd,
    })).collect()))
}

/// Trusted: the same for the Rust grammar and its highlight query.
#[verifier::external_body]
pub(crate) fn rust_scope_events(names: &Vec<String>, source: &[u8]) -> (answer: Result<
    Result<Vec<ScopeEvent>, tree_sitter_highlight::Error>,
    tree_sitter::QueryError,
>)
    ensures
        events_answer(answer) == rust_events_found(name_texts(names@), source@),
{
    let grammar = tree_sitter_rust::LANGUAGE.into();
    let mut config = HighlightConfiguration::new(grammar, "source", tree_sitter_rust::HIGHLIGHTS_QUERY, "", "")?;
    config.configure(names);
    let mut highlighter = Highlighter::new();
    let found = highlighter.highlight(&config, source, None, None, |_| None);
    Ok(found.and_then(|events| events.map(|event| event.map(|e| match e {
        HighlightEvent::Source { start, end } => ScopeEvent::SourceRun { start, end },
        HighlightEvent::HighlightStart(h) => ScopeEvent::ScopeStart(h.0),
        HighlightEvent::HighlightEnd => ScopeEvent::ScopeEnd,
    })).collect()))
}

/// Trusted: the message of a tag engine error, as its `Display` writes it.
#[verifier::external_body]
pub(crate) fn tags_error_text(error: &tree_sitter_tags::Error) -> (text: String) {
    error.to_string()
}

/// Trusted: the message of a query error, as its `Display` writes it.
#[verifier::external_body]
pub(crate) fn query_error_text(error: &tree_sitter::QueryError) -> (text: String) {
    error.to_string()
}

/// Trusted: the message of a highlighter error, as its `Display` writes it.
#[verifier::external_body]
pub(crate) fn highlight_error_text(error: &tree_sitter_highlight::Error) -> (text: String) {
    error.to_string()
}

} // verus!
