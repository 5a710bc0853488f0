//! Highlighting a piece of source text: the engine's scope events, checked
//! and rendered in the theme's colours.

use vstd::prelude::*;
use vstd::slice::slice_subrange;
use crate::engine::{
    events_answer, highlight_error_text, name_texts, python_events_found, python_scope_events, query_error_text,
    rust_events_found, rust_scope_events, EngineFailure,
};
use crate::language::Lang;
use crate::render::{check_events, render, renderable, rendered, tiles, ScopeEvent};
use crate::tags::TagMatch;
use crate::theme::{Rgb, Theme};
use crate::unstyled::{escape_free, lemma_unstyled_is_source, unstyled};

verus! {

/// Why a text was not highlighted.
#[derive(Debug)]
pub enum HighlightError {
    /// The language's highlight query does not build; the engine's message.
    Query(String),
    /// The engine failed on the text; its message.
    Engine(String),
    /// The engine's events are not well nested or do not read the text from
    /// end to end.
    Malformed,
    /// The span to highlight does not lie inside the source.
    OutOfText,
}

/// The style of each scope id under a theme: the colour of the entry at that
/// position.
pub open spec fn theme_styles(entries: Seq<(Seq<char>, Rgb)>) -> Seq<Option<Rgb>> {
    Seq::new(entries.len(), |i: int| Some(entries[i].1))
}

/// The scope names of a theme, in the entries' order.
pub open spec fn theme_names(entries: Seq<(Seq<char>, Rgb)>) -> Seq<Seq<char>> {
    Seq::new(entries.len(), |i: int| entries[i].0)
}

/// The scope events that the highlighter answers for a source of `lang`, a
/// scope's id being the place of its name in `names`.
pub open spec fn events_found(lang: Lang, names: Seq<Seq<char>>, source: Seq<u8>) -> Result<Seq<ScopeEvent>, EngineFailure> {
    match lang {
        Lang::Python => python_events_found(names, source),
        Lang::Rust => rust_events_found(names, source),
    }
}

/// `found` is what the highlighter gives for `input`: the engine's events
/// where it answers with events that are well nested and read the input from
/// end to end; `Malformed` where its events are not so; `Query` where its
/// query does not build, and `Engine` where its run fails.
pub open spec fn events_given(
    lang: Lang,
    names: Seq<Seq<char>>,
    input: Seq<u8>,
    found: Result<Vec<ScopeEvent>, HighlightError>,
) -> bool {
    match events_found(lang, names, input) {
        Ok(events) => if renderable(events, input.len()) {
            found is Ok && found->Ok_0@ == events
        } else {
            found is Err && found->Err_0 is Malformed
        },
        Err(EngineFailure::Query) => found is Err && found->Err_0 is Query,
        Err(EngineFailure::Run) => found is Err && found->Err_0 is Engine,
    }
}

/// `out` is `input` highlighted: the text rendered from the engine's events
/// in `styles` where the engine answers with events that can be rendered,
/// and else the error that `events_given` tells.
pub open spec fn highlighted(
    lang: Lang,
    names: Seq<Seq<char>>,
    styles: Seq<Option<Rgb>>,
    input: Seq<u8>,
    out: Result<Vec<u8>, HighlightError>,
) -> bool {
    match events_found(lang, names, input) {
        Ok(events) => if renderable(events, input.len()) {
            out is Ok && out->Ok_0@ == rendered(input, events, styles, events.len())
        } else {
            out is Err && out->Err_0 is Malformed
        },
        Err(EngineFailure::Query) => out is Err && out->Err_0 is Query,
        Err(EngineFailure::Run) => out is Err && out->Err_0 is Engine,
    }
}

/// Asks the highlighter for the scope events of `input`, with a scope's id
/// being the position of its name in `names`. Events that are not well
/// nested, or whose runs do not read the input from end to end, are refused
/// as `HighlightError::Malformed`.
pub fn highlight_events(input: &[u8], lang: Lang, names: &Vec<String>) -> (found: Result<Vec<ScopeEvent>, HighlightError>)
    ensures
        events_given(lang, name_texts(names@), input@, found),
        found matches Ok(events) ==> renderable(events@, input@.len()),
{
    let answer = match lang {
        Lang::Python => python_scope_events(names, input),
        Lang::Rust => rust_scope_events(names, input),
    };
    assert(events_answer(answer) == events_found(lang, name_texts(names@), input@));
    match answer {
        Err(error) => Err(HighlightError::Query(query_error_text(&error))),
        Ok(Err(error)) => Err(HighlightError::Engine(highlight_error_text(&error))),
        Ok(Ok(events)) => {
            if check_events(&events, input.len()) && tiles(&events, input.len()) {
                Ok(events)
            } else {
                Err(HighlightError::Malformed)
            }
        },
    }
}

/// Highlights `input` as source text of `lang` in the colours of `theme`:
/// the text rendered under the scope events that the highlighter finds. With
/// the styling codes taken out again, it is the input (of an input that
/// holds escape bytes itself this cannot be said).
pub fn highlight(input: &[u8], lang: Lang, theme: &Theme) -> (out: Result<Vec<u8>, HighlightError>)
    ensures
        highlighted(lang, theme_names(theme@), theme_styles(theme@), input@, out),
        out matches Ok(text) ==> (escape_free(input@) ==> unstyled(text@) == input@),
{
    let names = theme.scope_names();
    let styles = theme.styles();
    assert(styles@ =~= theme_styles(theme@));
    assert(name_texts(names@) =~= theme_names(theme@));
    match highlight_events(input, lang, &names) {
        Ok(events) => {
            let text = render(input, &events, &styles);
            proof {
                if escape_free(input@) {
                    lemma_unstyled_is_source(input@, events@, styles@);
                }
            }
            Ok(text)
        },
        Err(error) => Err(error),
    }
}

/// Highlights the part of `source` that a match spans. A match whose span
/// does not lie inside the source is refused as `HighlightError::OutOfText`.
pub fn render_match(source: &[u8], tag: &TagMatch, lang: Lang, theme: &Theme) -> (out: Result<Vec<u8>, HighlightError>)
    ensures
        if tag.start <= tag.end <= source@.len() {
            highlighted(
                lang,
                theme_names(theme@),
                theme_styles(theme@),
                source@.subrange(tag.start as int, tag.end as int),
                out,
            )
        } else {
            out is Err && out->Err_0 is OutOfText
        },
        out matches Ok(text) ==> (escape_free(source@.subrange(tag.start as int, tag.end as int)) ==> unstyled(text@)
            == source@.subrange(tag.start as int, tag.end as int)),
{
    if tag.start > tag.end || tag.end > source.len() {
        return Err(HighlightError::OutOfText);
    }
    highlight(slice_subrange(source, tag.start, tag.end), lang, theme)
}

} // verus!
