//! The tag extractor: runs a compiled query over a source text and turns what
//! the engine reports into located matches.

use vstd::prelude::*;
use crate::engine::{
    python_tags, python_tags_found, reported, rust_tags, rust_tags_found, tags_answer, tags_error_text, EngineFailure,
    RawTag,
};
use crate::language::{resolve, resolve_spec, Lang};
use crate::query::{clause_count_spec, compile, compiled};

verus! {

/// Whether a match declares a name or calls it.
#[derive(Clone, Copy, Debug, PartialEq, Eq, Structural)]
pub enum TagKind {
    Definition,
    Reference,
}

/// A located match: the line and column where the name starts, both counted
/// from one, and the bytes `start..end` of the source that the match spans.
#[derive(Clone, Copy, Debug, PartialEq, Eq)]
pub struct TagMatch {
    pub line: usize,
    pub column: usize,
    pub start: usize,
    pub end: usize,
    pub kind: TagKind,
}

/// Why a single match was not located.
#[derive(Debug)]
pub enum TagError {
    /// The engine reported a span or a position that the source does not have.
    OutOfText,
    /// The engine failed on this match; its message.
    Engine(String),
}

/// Why a file gave no matches at all.
#[derive(Debug)]
pub enum ConfigError {
    /// The compiled query does not build against the grammar; the engine's message.
    Query(String),
    /// The engine could not read the source; its message.
    Engine(String),
}

/// A raw tag can be located in a text of `len` bytes: its span lies inside
/// the text, and its row and column can be counted from one.
pub open spec fn placeable(tag: RawTag, len: nat) -> bool {
    &&& tag.start <= tag.end <= len
    &&& tag.row < usize::MAX
    &&& tag.column < usize::MAX
}

/// The match of a raw tag: row and column counted from one, the span kept.
pub open spec fn placed(tag: RawTag) -> TagMatch {
    TagMatch {
        line: (tag.row + 1) as usize,
        column: (tag.column + 1) as usize,
        start: tag.start,
        end: tag.end,
        kind: if tag.is_definition {
            TagKind::Definition
        } else {
            TagKind::Reference
        },
    }
}

/// A match lies inside a text of `len` bytes and has a position.
pub open spec fn within(m: TagMatch, len: nat) -> bool {
    &&& m.start <= m.end <= len
    &&& m.line >= 1
    &&& m.column >= 1
}

/// Position `a` is not behind position `b`: by line first, then by column.
pub open spec fn not_behind(a: (int, int), b: (int, int)) -> bool {
    a.0 < b.0 || (a.0 == b.0 && a.1 <= b.1)
}

/// Locating keeps the order of positions: of two tags that can be located,
/// one that the engine reports not behind the other gives a match that is
/// not behind the other's match, by line and then by column.
pub proof fn lemma_place_keeps_order(a: RawTag, b: RawTag, len: nat)
    requires
        placeable(a, len),
        placeable(b, len),
        not_behind((a.row as int, a.column as int), (b.row as int, b.column as int)),
    ensures
        not_behind(
            (placed(a).line as int, placed(a).column as int),
            (placed(b).line as int, placed(b).column as int),
        ),
        within(placed(a), len),
        within(placed(b), len),
{
}

/// Locates one raw tag in a source of `source_len` bytes.
pub fn place(tag: &RawTag, source_len: usize) -> (located: Result<TagMatch, TagError>)
    ensures
        placeable(*tag, source_len as nat) ==> located == Ok::<TagMatch, TagError>(placed(*tag)),
        !placeable(*tag, source_len as nat) ==> located == Err::<TagMatch, TagError>(TagError::OutOfText),
{
    if tag.start > tag.end || tag.end > source_len || tag.row == usize::MAX || tag.column == usize::MAX {
        return Err(TagError::OutOfText);
    }
    let kind = if tag.is_definition {
        TagKind::Definition
    } else {
        TagKind::Reference
    };
    Ok(TagMatch { line: tag.row + 1, column: tag.column + 1, start: tag.start, end: tag.end, kind })
}

/// What locating gives for one raw tag.
pub open spec fn place_spec(tag: RawTag, len: nat) -> Result<TagMatch, TagError> {
    if placeable(tag, len) {
        Ok(placed(tag))
    } else {
        Err(TagError::OutOfText)
    }
}

/// `tags` is what the engine's items give in a source of `len` bytes: one
/// result for each item and in the same order, a tag located as `place`
/// does, and an item on which the engine failed as an error of the engine.
pub open spec fn located(items: Seq<Option<RawTag>>, tags: Seq<Result<TagMatch, TagError>>, len: nat) -> bool {
    &&& tags.len() == items.len()
    &&& forall|i: int|
        #![trigger tags[i]]
        0 <= i < items.len() ==> match items[i] {
            Some(tag) => tags[i] == place_spec(tag, len),
            None => tags[i] is Err && tags[i]->Err_0 is Engine,
        }
}

/// Every match that was located lies inside a text of `len` bytes.
pub open spec fn all_within(tags: Seq<Result<TagMatch, TagError>>, len: nat) -> bool {
    forall|i: int| 0 <= i < tags.len() ==> match #[trigger] tags[i] {
        Ok(m) => within(m, len),
        Err(_) => true,
    }
}

/// What is located lies inside the source.
pub proof fn lemma_located_within(items: Seq<Option<RawTag>>, tags: Seq<Result<TagMatch, TagError>>, len: nat)
    requires
        located(items, tags, len),
    ensures
        all_within(tags, len),
{
    assert forall|i: int| 0 <= i < tags.len() implies match #[trigger] tags[i] {
        Ok(m) => within(m, len),
        Err(_) => true,
    } by {
        let item = items[i];
    }
}

/// Locating keeps the engine's order: of two items that are located, the
/// earlier one comes first among the results, and where the engine reports
/// it not behind the later one, its match is not behind the later match, by
/// line and then by column.
pub proof fn lemma_located_keeps_order(
    items: Seq<Option<RawTag>>,
    tags: Seq<Result<TagMatch, TagError>>,
    len: nat,
    i: int,
    j: int,
)
    requires
        located(items, tags, len),
        0 <= i <= j < items.len(),
        tags[i] is Ok,
        tags[j] is Ok,
        items[i] is Some && items[j] is Some ==> not_behind(
            (items[i]->Some_0.row as int, items[i]->Some_0.column as int),
            (items[j]->Some_0.row as int, items[j]->Some_0.column as int),
        ),
    ensures
        not_behind(
            (tags[i]->Ok_0.line as int, tags[i]->Ok_0.column as int),
            (tags[j]->Ok_0.line as int, tags[j]->Ok_0.column as int),
        ),
{
    let a = items[i];
    let b = items[j];
    assert(a is Some && b is Some);
    assert(tags[i] == place_spec(a->Some_0, len));
    assert(tags[j] == place_spec(b->Some_0, len));
    lemma_place_keeps_order(a->Some_0, b->Some_0, len);
}

/// Locates what the engine reported, one result for each item and in the
/// engine's order: a tag is located as `place` does, and an item on which
/// the engine failed becomes an error of its own, so that the items behind
/// it are still located.
pub fn locate(raw: &Vec<Result<RawTag, tree_sitter_tags::Error>>, source_len: usize) -> (out: Vec<Result<TagMatch, TagError>>)
    ensures
        located(reported(raw@), out@, source_len as nat),
{
    let mut out: Vec<Result<TagMatch, TagError>> = Vec::new();
    let mut i: usize = 0;
    while i < raw.len()
        invariant
            i <= raw@.len(),
            out@.len() == i,
            forall|j: int|
                #![trigger out@[j]]
                0 <= j < i ==> match reported(raw@)[j] {
                    Some(tag) => out@[j] == place_spec(tag, source_len as nat),
                    None => out@[j] is Err && out@[j]->Err_0 is Engine,
                },
        decreases raw@.len() - i,
    {
        let item = match &raw[i] {
            Ok(tag) => place(tag, source_len),
            Err(error) => Err(TagError::Engine(tags_error_text(error))),
        };
        out.push(item);
        i += 1;
    }
    out
}

/// What the tag engine answers for a query of `lang` over a source.
pub open spec fn tags_found(lang: Lang, query: Seq<char>, source: Seq<u8>) -> Result<Seq<Option<RawTag>>, EngineFailure> {
    match lang {
        Lang::Python => python_tags_found(query, source),
        Lang::Rust => rust_tags_found(query, source),
    }
}

/// `found` is what a query of `lang` gives over `source`: where the engine
/// answers, its items located in its order; where the query does not build,
/// `ConfigError::Query`, and where the run fails, `ConfigError::Engine`.
pub open spec fn extracted(
    lang: Lang,
    query: Seq<char>,
    source: Seq<u8>,
    found: Result<Vec<Result<TagMatch, TagError>>, ConfigError>,
) -> bool {
    match tags_found(lang, query, source) {
        Ok(items) => found is Ok && located(items, found->Ok_0@, source.len()),
        Err(EngineFailure::Query) => found is Err && found->Err_0 is Query,
        Err(EngineFailure::Run) => found is Err && found->Err_0 is Engine,
    }
}

/// Runs a query of `lang` over `source` and locates what the engine finds,
/// in the engine's order. A query that does not build against the grammar is
/// `ConfigError::Query` and gives no matches; a failure on one match is an
/// error in its place and does not end the list. Every located match lies
/// inside the source.
pub fn extract_with(lang: Lang, query: &str, source: &[u8]) -> (found: Result<Vec<Result<TagMatch, TagError>>, ConfigError>)
    ensures
        extracted(lang, query@, source@, found),
        found matches Ok(tags) ==> all_within(tags@, source@.len()),
{
    let answer = match lang {
        Lang::Python => python_tags(query, source),
        Lang::Rust => rust_tags(query, source),
    };
    assert(tags_answer(answer) == tags_found(lang, query@, source@));
    match answer {
        Err(error) => Err(ConfigError::Query(tags_error_text(&error))),
        Ok(Err(error)) => Err(ConfigError::Engine(tags_error_text(&error))),
        Ok(Ok(raw)) => {
            let tags = locate(&raw, source.len());
            proof {
                lemma_located_within(reported(raw@), tags@, source@.len());
            }
            Ok(tags)
        },
    }
}

/// Finds in `source` the definitions and calls of `lang` whose name holds
/// `term`, whatever the case of its letters: compiles the language's query
/// for the term and runs it.
pub fn extract(lang: Lang, term: &str, source: &[u8]) -> (found: Result<Vec<Result<TagMatch, TagError>>, ConfigError>)
    ensures
        extracted(lang, compiled(lang, term@, clause_count_spec(lang)), source@, found),
        found matches Ok(tags) ==> all_within(tags@, source@.len()),
{
    let query = compile(lang, term);
    extract_with(lang, query.as_str(), source)
}

/// Searches one file, given its extension and its text. A file whose
/// extension names no language is skipped: it has no matches and no error.
/// A file of a language gives what `extract` gives for that language.
pub fn scan(extension: &str, term: &str, source: &[u8]) -> (found: Result<Vec<Result<TagMatch, TagError>>, ConfigError>)
    ensures
        match resolve_spec(extension@) {
            None => found is Ok && found->Ok_0@.len() == 0,
            Some(lang) => extracted(lang, compiled(lang, term@, clause_count_spec(lang)), source@, found),
        },
        found matches Ok(tags) ==> all_within(tags@, source@.len()),
{
    match resolve(extension) {
        None => Ok(Vec::new()),
        Some(lang) => extract(lang, term, source),
    }
}

} // verus!
