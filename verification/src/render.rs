//! The highlight renderer: turns a stream of nested scope events over a piece
//! of source text into text wrapped in terminal styling.

use vstd::prelude::*;
use vstd::slice::{slice_subrange, slice_to_vec};
use crate::ansi::{end_code, start_code, style_end, style_start};
use crate::theme::Rgb;

verus! {

/// One step of a highlighted text: a run of source bytes, the start of a
/// scope (by its id), or the end of the innermost open scope.
#[derive(Clone, Copy, Debug, PartialEq, Eq)]
pub enum ScopeEvent {
    SourceRun { start: usize, end: usize },
    ScopeStart(usize),
    ScopeEnd,
}

/// The style of a scope id: its entry in `styles`, and the plain style for an
/// id that `styles` does not know.
pub open spec fn style_of(styles: Seq<Option<Rgb>>, id: usize) -> Option<Rgb> {
    if id < styles.len() {
        styles[id as int]
    } else {
        None
    }
}

/// The nesting depth after the first `n` events, the base counted as one.
pub open spec fn depth_at(events: Seq<ScopeEvent>, n: nat) -> int
    decreases n,
{
    if n == 0 || n > events.len() {
        1
    } else {
        let below = depth_at(events, (n - 1) as nat);
        match events[n - 1] {
            ScopeEvent::SourceRun { .. } => below,
            ScopeEvent::ScopeStart(_) => below + 1,
            ScopeEvent::ScopeEnd => below - 1,
        }
    }
}

/// The style stack after the first `n` events: the plain style at the bottom,
/// the style in force on top.
pub open spec fn stack_at(events: Seq<ScopeEvent>, styles: Seq<Option<Rgb>>, n: nat) -> Seq<Option<Rgb>>
    decreases n,
{
    if n == 0 || n > events.len() {
        seq![None]
    } else {
        let below = stack_at(events, styles, (n - 1) as nat);
        match events[n - 1] {
            ScopeEvent::SourceRun { .. } => below,
            ScopeEvent::ScopeStart(id) => below.push(style_of(styles, id)),
            ScopeEvent::ScopeEnd => below.drop_last(),
        }
    }
}

/// No scope end comes without an open scope: the depth never falls below the
/// base.
pub open spec fn well_nested(events: Seq<ScopeEvent>) -> bool {
    forall|n: nat| n <= events.len() ==> #[trigger] depth_at(events, n) >= 1
}

/// A source run lies inside a text of `len` bytes.
pub open spec fn run_fits(event: ScopeEvent, len: nat) -> bool {
    match event {
        ScopeEvent::SourceRun { start, end } => start <= end <= len,
        _ => true,
    }
}

/// Every source run lies inside a text of `len` bytes.
pub open spec fn runs_in_bounds(events: Seq<ScopeEvent>, len: nat) -> bool {
    forall|i: int| 0 <= i < events.len() ==> run_fits(#[trigger] events[i], len)
}

/// A piece of text between the codes that switch its style on and off.
pub open spec fn styled_run(style: Option<Rgb>, text: Seq<u8>) -> Seq<u8> {
    start_code(style) + text + end_code(style)
}

/// The styled text of the first `n` events: each source run in the style on
/// top of the stack at that point, the runs in the events' order.
pub open spec fn rendered(source: Seq<u8>, events: Seq<ScopeEvent>, styles: Seq<Option<Rgb>>, n: nat) -> Seq<u8>
    decreases n,
{
    if n == 0 || n > events.len() {
        Seq::empty()
    } else {
        let before = rendered(source, events, styles, (n - 1) as nat);
        match events[n - 1] {
            ScopeEvent::SourceRun { start, end } => before + styled_run(
                stack_at(events, styles, (n - 1) as nat).last(),
                source.subrange(start as int, end as int),
            ),
            _ => before,
        }
    }
}

/// The text of the first `n` events without any styling: the source runs one
/// after the other.
pub open spec fn plain(source: Seq<u8>, events: Seq<ScopeEvent>, n: nat) -> Seq<u8>
    decreases n,
{
    if n == 0 || n > events.len() {
        Seq::empty()
    } else {
        let before = plain(source, events, (n - 1) as nat);
        match events[n - 1] {
            ScopeEvent::SourceRun { start, end } => before + source.subrange(start as int, end as int),
            _ => before,
        }
    }
}

/// Where the first `n` events have read the source up to: the end of the last
/// run among them.
pub open spec fn covered(events: Seq<ScopeEvent>, n: nat) -> int
    decreases n,
{
    if n == 0 || n > events.len() {
        0
    } else {
        match events[n - 1] {
            ScopeEvent::SourceRun { start, end } => end as int,
            _ => covered(events, (n - 1) as nat),
        }
    }
}

/// The source runs follow one another without gap or overlap, from the first
/// byte on.
pub open spec fn contiguous(events: Seq<ScopeEvent>) -> bool {
    forall|i: int| 0 <= i < events.len() ==> match #[trigger] events[i] {
        ScopeEvent::SourceRun { start, end } => start as int == covered(events, i as nat),
        _ => true,
    }
}

/// The style stack has one entry for each level of depth, so under
/// well-nested events it never loses its base entry.
pub proof fn lemma_stack_keeps_base(events: Seq<ScopeEvent>, styles: Seq<Option<Rgb>>, n: nat)
    requires
        well_nested(events),
        n <= events.len(),
    ensures
        stack_at(events, styles, n).len() == depth_at(events, n),
        stack_at(events, styles, n).len() >= 1,
        stack_at(events, styles, n)[0] == None::<Rgb>,
    decreases n,
{
    if n > 0 {
        lemma_stack_keeps_base(events, styles, (n - 1) as nat);
        assert(depth_at(events, (n - 1) as nat) >= 1);
        assert(depth_at(events, n) >= 1);
    } else {
        assert(depth_at(events, 0) >= 1);
    }
}

/// Where no scope that starts has a style, every level of the stack is plain.
proof fn lemma_plain_stack(events: Seq<ScopeEvent>, styles: Seq<Option<Rgb>>, n: nat)
    requires
        well_nested(events),
        n <= events.len(),
        forall|i: int| 0 <= i < events.len() ==> match #[trigger] events[i] {
            ScopeEvent::ScopeStart(id) => style_of(styles, id) is None,
            _ => true,
        },
    ensures
        forall|k: int| 0 <= k < stack_at(events, styles, n).len() ==> stack_at(events, styles, n)[k] == None::<Rgb>,
    decreases n,
{
    if n > 0 {
        lemma_plain_stack(events, styles, (n - 1) as nat);
        lemma_stack_keeps_base(events, styles, (n - 1) as nat);
        lemma_stack_keeps_base(events, styles, n);
        let ev = events[n - 1];
        assert(match ev {
            ScopeEvent::ScopeStart(id) => style_of(styles, id) is None,
            _ => true,
        });
    }
}

/// Scopes without a style leave the text as it is: where every scope that
/// starts is unknown to `styles` (or there is no scope at all), the styled
/// text is the source runs themselves, with no code added.
pub proof fn lemma_unstyled_scopes_add_nothing(source: Seq<u8>, events: Seq<ScopeEvent>, styles: Seq<Option<Rgb>>, n: nat)
    requires
        well_nested(events),
        n <= events.len(),
        forall|i: int| 0 <= i < events.len() ==> match #[trigger] events[i] {
            ScopeEvent::ScopeStart(id) => style_of(styles, id) is None,
            _ => true,
        },
    ensures
        rendered(source, events, styles, n) == plain(source, events, n),
    decreases n,
{
    if n > 0 {
        lemma_unstyled_scopes_add_nothing(source, events, styles, (n - 1) as nat);
        lemma_plain_stack(events, styles, (n - 1) as nat);
        lemma_stack_keeps_base(events, styles, (n - 1) as nat);
        match events[n - 1] {
            ScopeEvent::SourceRun { start, end } => {
                let top = stack_at(events, styles, (n - 1) as nat).last();
                assert(top == None::<Rgb>);
                let text = source.subrange(start as int, end as int);
                assert(styled_run(top, text) =~= text);
            },
            _ => {},
        }
    }
}

/// Without scopes there is no styling: a stream of source runs alone is well
/// nested, and its rendered text is the runs themselves, in the base style,
/// which adds no code. Where the runs read all of the source, the rendered
/// text is the source.
pub proof fn lemma_runs_alone_are_plain(source: Seq<u8>, events: Seq<ScopeEvent>, styles: Seq<Option<Rgb>>)
    requires
        forall|i: int| 0 <= i < events.len() ==> #[trigger] events[i] is SourceRun,
    ensures
        well_nested(events),
        rendered(source, events, styles, events.len()) == plain(source, events, events.len()),
        renderable(events, source.len()) ==> rendered(source, events, styles, events.len()) == source,
{
    assert forall|n: nat| n <= events.len() implies #[trigger] depth_at(events, n) >= 1 by {
        lemma_runs_keep_depth(events, n);
    }
    lemma_unstyled_scopes_add_nothing(source, events, styles, events.len());
    if renderable(events, source.len()) {
        lemma_round_trip(source, events);
    }
}

/// Source runs do not change the depth.
proof fn lemma_runs_keep_depth(events: Seq<ScopeEvent>, n: nat)
    requires
        forall|i: int| 0 <= i < events.len() ==> #[trigger] events[i] is SourceRun,
        n <= events.len(),
    ensures
        depth_at(events, n) == 1,
    decreases n,
{
    if n > 0 {
        lemma_runs_keep_depth(events, (n - 1) as nat);
        assert(events[n - 1] is SourceRun);
    }
}

/// Runs that follow one another from the first byte on give back the source
/// they have read: without styling, the text of the first `n` events is the
/// source up to where they have come.
pub proof fn lemma_plain_is_source(source: Seq<u8>, events: Seq<ScopeEvent>, n: nat)
    requires
        runs_in_bounds(events, source.len()),
        contiguous(events),
        n <= events.len(),
    ensures
        0 <= covered(events, n) <= source.len(),
        plain(source, events, n) == source.subrange(0, covered(events, n)),
    decreases n,
{
    if n > 0 {
        lemma_plain_is_source(source, events, (n - 1) as nat);
        let ev = events[n - 1];
        assert(run_fits(ev, source.len()));
        match ev {
            ScopeEvent::SourceRun { start, end } => {
                assert(start as int == covered(events, (n - 1) as nat));
                assert(plain(source, events, n) =~= source.subrange(0, end as int));
            },
            _ => {},
        }
    } else {
        assert(plain(source, events, 0) =~= source.subrange(0, 0));
    }
}

/// Tells whether a stream of events can be rendered over a text of `len`
/// bytes: no scope end without an open scope, and every run inside the text.
pub fn check_events(events: &Vec<ScopeEvent>, len: usize) -> (ok: bool)
    ensures
        ok == (well_nested(events@) && runs_in_bounds(events@, len as nat)),
{
    let mut open: usize = 0;
    let mut i: usize = 0;
    while i < events.len()
        invariant
            i <= events@.len(),
            open + 1 == depth_at(events@, i as nat),
            open <= i,
            forall|n: nat| n <= i ==> #[trigger] depth_at(events@, n) >= 1,
            forall|j: int| 0 <= j < i ==> run_fits(#[trigger] events@[j], len as nat),
        decreases events@.len() - i,
    {
        match events[i] {
            ScopeEvent::SourceRun { start, end } => {
                if start > end || end > len {
                    assert(!run_fits(events@[i as int], len as nat));
                    return false;
                }
            },
            ScopeEvent::ScopeStart(_) => {
                open += 1;
            },
            ScopeEvent::ScopeEnd => {
                if open == 0 {
                    assert(depth_at(events@, (i + 1) as nat) == 0);
                    return false;
                }
                open -= 1;
            },
        }
        i += 1;
    }
    true
}

/// Tells whether the source runs of a stream read a text of `len` bytes from
/// its first byte to its last, one run where the one before ended.
pub fn tiles(events: &Vec<ScopeEvent>, len: usize) -> (ok: bool)
    ensures
        ok == (contiguous(events@) && covered(events@, events@.len()) == len),
{
    let mut pos: usize = 0;
    let mut i: usize = 0;
    while i < events.len()
        invariant
            i <= events@.len(),
            pos == covered(events@, i as nat),
            forall|j: int| 0 <= j < i ==> match #[trigger] events@[j] {
                ScopeEvent::SourceRun { start, end } => start as int == covered(events@, j as nat),
                _ => true,
            },
        decreases events@.len() - i,
    {
        match events[i] {
            ScopeEvent::SourceRun { start, end } => {
                if start != pos {
                    assert(!contiguous(events@)) by {
                        let ev = events@[i as int];
                    }
                    return false;
                }
                pos = end;
            },
            _ => {},
        }
        i += 1;
    }
    pos == len
}

/// The events can be rendered over a text of `len` bytes and read all of it:
/// they are well nested, and their runs go through the text from its first
/// byte to its last without gap or overlap.
pub open spec fn renderable(events: Seq<ScopeEvent>, len: nat) -> bool {
    &&& well_nested(events)
    &&& runs_in_bounds(events, len)
    &&& contiguous(events)
    &&& covered(events, events.len()) == len
}

/// Nothing is lost and nothing is added: with the styling left out, the text
/// rendered from events that read all of the source is the source itself.
pub proof fn lemma_round_trip(source: Seq<u8>, events: Seq<ScopeEvent>)
    requires
        renderable(events, source.len()),
    ensures
        plain(source, events, events.len()) == source,
{
    lemma_plain_is_source(source, events, events.len());
    assert(source.subrange(0, source.len() as int) =~= source);
}

/// Renders `source` under `events`: each source run is written in the style
/// of the innermost scope open at that point, between that style's start and
/// end codes, and the runs follow in the events' order. `styles` gives the
/// style of each scope id; an id beyond it is rendered plain.
pub fn render(source: &[u8], events: &Vec<ScopeEvent>, styles: &Vec<Option<Rgb>>) -> (out: Vec<u8>)
    requires
        well_nested(events@),
        runs_in_bounds(events@, source@.len()),
    ensures
        out@ == rendered(source@, events@, styles@, events@.len()),
{
    let mut stack: Vec<Option<Rgb>> = Vec::new();
    stack.push(None);
    let mut out: Vec<u8> = Vec::new();
    let mut i: usize = 0;
    while i < events.len()
        invariant
            i <= events@.len(),
            well_nested(events@),
            runs_in_bounds(events@, source@.len()),
            stack@ == stack_at(events@, styles@, i as nat),
            out@ == rendered(source@, events@, styles@, i as nat),
        decreases events@.len() - i,
    {
        proof {
            lemma_stack_keeps_base(events@, styles@, i as nat);
            lemma_stack_keeps_base(events@, styles@, (i + 1) as nat);
        }
        match events[i] {
            ScopeEvent::SourceRun { start, end } => {
                assert(run_fits(events@[i as int], source@.len()));
                let style = stack[stack.len() - 1];
                let mut head = style_start(style);
                let mut text = slice_to_vec(slice_subrange(source, start, end));
                let mut tail = style_end(style);
                let ghost before = out@;
                out.append(&mut head);
                out.append(&mut text);
                out.append(&mut tail);
                assert(out@ =~= before + styled_run(style, source@.subrange(start as int, end as int)));
            },
            ScopeEvent::ScopeStart(id) => {
                let style = if id < styles.len() {
                    styles[id]
                } else {
                    None
                };
                stack.push(style);
            },
            ScopeEvent::ScopeEnd => {
                stack.pop();
            },
        }
        i += 1;
    }
    out
}

} // verus!
