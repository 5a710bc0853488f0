//! Taking the styling out of rendered text, and the proof that what is left
//! is the source.

use vstd::prelude::*;
use crate::ansi::{decimal, end_code, start_code};
use crate::render::{
    lemma_round_trip, plain, renderable, rendered, run_fits, runs_in_bounds, stack_at, styled_run, ScopeEvent,
};
use crate::theme::Rgb;

verus! {

/// The byte that opens an escape code.
pub const ESCAPE: u8 = 27;

/// The byte that closes a styling code.
pub const CODE_END: u8 = 109;

/// Whether the reader is inside an escape code after the byte `b`.
pub open spec fn step(inside: bool, b: u8) -> bool {
    if inside {
        b != CODE_END
    } else {
        b == ESCAPE
    }
}

/// Whether the reader is inside an escape code at the end of `s`.
pub open spec fn state_after(s: Seq<u8>, inside: bool) -> bool
    decreases s.len(),
{
    if s.len() == 0 {
        inside
    } else {
        state_after(s.drop_first(), step(inside, s[0]))
    }
}

/// The bytes of `s` outside escape codes. A code goes from an escape byte to
/// the next `m`, both included.
pub open spec fn strip_from(s: Seq<u8>, inside: bool) -> Seq<u8>
    decreases s.len(),
{
    if s.len() == 0 {
        Seq::empty()
    } else if inside || s[0] == ESCAPE {
        strip_from(s.drop_first(), step(inside, s[0]))
    } else {
        seq![s[0]] + strip_from(s.drop_first(), false)
    }
}

/// The text without its styling codes.
pub open spec fn unstyled(s: Seq<u8>) -> Seq<u8> {
    strip_from(s, false)
}

/// No byte of the text opens an escape code.
pub open spec fn escape_free(s: Seq<u8>) -> bool {
    forall|i: int| 0 <= i < s.len() ==> #[trigger] s[i] != ESCAPE
}

/// Stripping goes through a text piece by piece.
pub proof fn lemma_strip_concat(x: Seq<u8>, y: Seq<u8>, inside: bool)
    ensures
        strip_from(x + y, inside) == strip_from(x, inside) + strip_from(y, state_after(x, inside)),
        state_after(x + y, inside) == state_after(y, state_after(x, inside)),
    decreases x.len(),
{
    if x.len() == 0 {
        assert(x + y =~= y);
        assert(strip_from(x + y, inside) =~= strip_from(x, inside) + strip_from(y, state_after(x, inside)));
    } else {
        assert((x + y).drop_first() =~= x.drop_first() + y);
        assert((x + y)[0] == x[0]);
        lemma_strip_concat(x.drop_first(), y, step(inside, x[0]));
        assert(strip_from(x + y, inside) =~= strip_from(x, inside) + strip_from(y, state_after(x, inside)));
    }
}

/// A text without escape bytes is left as it is.
pub proof fn lemma_strip_text(t: Seq<u8>)
    requires
        escape_free(t),
    ensures
        strip_from(t, false) == t,
        !state_after(t, false),
    decreases t.len(),
{
    if t.len() > 0 {
        assert(t[0] != ESCAPE);
        assert(escape_free(t.drop_first())) by {
            assert forall|i: int| 0 <= i < t.drop_first().len() implies #[trigger] t.drop_first()[i] != ESCAPE by {
                assert(t.drop_first()[i] == t[i + 1]);
            }
        }
        lemma_strip_text(t.drop_first());
        assert(seq![t[0]] + t.drop_first() =~= t);
    } else {
        assert(strip_from(t, false) =~= t);
    }
}

/// Inside a code, everything up to the first `m` is left out.
proof fn lemma_strip_code_rest(s: Seq<u8>)
    requires
        s.len() >= 1,
        s.last() == CODE_END,
        forall|i: int| 0 <= i < s.len() - 1 ==> #[trigger] s[i] != CODE_END,
    ensures
        strip_from(s, true) == Seq::<u8>::empty(),
        !state_after(s, true),
    decreases s.len(),
{
    let rest = s.drop_first();
    if s.len() == 1 {
        assert(s[0] == CODE_END);
        assert(strip_from(rest, false) == Seq::<u8>::empty());
        assert(!state_after(rest, false));
        assert(strip_from(s, true) == strip_from(rest, false));
        assert(state_after(s, true) == state_after(rest, false));
    } else {
        assert(s[0] != CODE_END);
        assert(strip_from(s, true) == strip_from(rest, true));
        assert(state_after(s, true) == state_after(rest, true));
        assert(rest.last() == s.last());
        assert forall|i: int| 0 <= i < rest.len() - 1 implies #[trigger] rest[i] != CODE_END by {
            assert(rest[i] == s[i + 1]);
        }
        lemma_strip_code_rest(rest);
    }
}

/// The digits of a byte in decimal are digits.
proof fn lemma_decimal_digits(v: u8)
    ensures
        1 <= decimal(v).len() <= 3,
        forall|i: int| 0 <= i < decimal(v).len() ==> 48 <= #[trigger] decimal(v)[i] <= 57,
{
    assert(v / 100 <= 2 && (v / 10) % 10 <= 9 && v % 10 <= 9 && (v < 100 ==> v / 10 <= 9));
}

/// The codes of a style hold no text: stripped, nothing is left of them.
pub proof fn lemma_codes_strip_to_nothing(style: Option<Rgb>)
    ensures
        strip_from(start_code(style), false) == Seq::<u8>::empty(),
        !state_after(start_code(style), false),
        strip_from(end_code(style), false) == Seq::<u8>::empty(),
        !state_after(end_code(style), false),
{
    match style {
        None => {},
        Some(c) => {
            let head = seq![27u8, 91u8, 51u8, 56u8, 59u8, 50u8, 59u8];
            let code = start_code(style);
            lemma_decimal_digits(c.r);
            lemma_decimal_digits(c.g);
            lemma_decimal_digits(c.b);
            let a = head + decimal(c.r);
            let b = a + seq![59u8];
            let d = b + decimal(c.g);
            let e = d + seq![59u8];
            let f = e + decimal(c.b);
            assert(code == f + seq![109u8]);
            assert forall|i: int| 0 <= i < f.len() implies f[i] != CODE_END by {
                if i < e.len() {
                    if i < d.len() {
                        if i < b.len() {
                            if i < a.len() {
                                if i < head.len() {
                                    assert(f[i] == head[i]);
                                } else {
                                    assert(f[i] == decimal(c.r)[i - head.len()]);
                                }
                            } else {
                                assert(f[i] == 59u8);
                            }
                        } else {
                            assert(f[i] == decimal(c.g)[i - b.len()]);
                        }
                    } else {
                        assert(f[i] == 59u8);
                    }
                } else {
                    assert(f[i] == decimal(c.b)[i - e.len()]);
                }
            }
            assert(code[0] == ESCAPE);
            let rest = code.drop_first();
            assert(rest.last() == CODE_END);
            assert forall|i: int| 0 <= i < rest.len() - 1 implies #[trigger] rest[i] != CODE_END by {
                assert(rest[i] == f[i + 1]);
            }
            lemma_strip_code_rest(rest);
            let off = end_code(style);
            assert(off[0] == ESCAPE);
            let off_rest = off.drop_first();
            assert(off_rest =~= seq![91u8, 48u8, 109u8]);
            lemma_strip_code_rest(off_rest);
        },
    }
}

/// A styled run, stripped, is its text.
pub proof fn lemma_strip_styled_run(style: Option<Rgb>, text: Seq<u8>)
    requires
        escape_free(text),
    ensures
        strip_from(styled_run(style, text), false) == text,
        !state_after(styled_run(style, text), false),
{
    lemma_codes_strip_to_nothing(style);
    lemma_strip_text(text);
    lemma_strip_concat(start_code(style), text, false);
    lemma_strip_concat(start_code(style) + text, end_code(style), false);
    assert(Seq::<u8>::empty() + text =~= text);
    assert(text + Seq::<u8>::empty() =~= text);
}

/// Styling adds nothing but codes: with the codes taken out, the text
/// rendered from the first `n` events is the source runs they hold, for a
/// source without escape bytes.
pub proof fn lemma_unstyled_is_plain(source: Seq<u8>, events: Seq<ScopeEvent>, styles: Seq<Option<Rgb>>, n: nat)
    requires
        runs_in_bounds(events, source.len()),
        escape_free(source),
        n <= events.len(),
    ensures
        unstyled(rendered(source, events, styles, n)) == plain(source, events, n),
        !state_after(rendered(source, events, styles, n), false),
    decreases n,
{
    if n > 0 {
        lemma_unstyled_is_plain(source, events, styles, (n - 1) as nat);
        let ev = events[n - 1];
        match ev {
            ScopeEvent::SourceRun { start, end } => {
                assert(run_fits(ev, source.len()));
                let text = source.subrange(start as int, end as int);
                assert(escape_free(text)) by {
                    assert forall|i: int| 0 <= i < text.len() implies #[trigger] text[i] != ESCAPE by {
                        assert(text[i] == source[start + i]);
                    }
                }
                let style = stack_at(events, styles, (n - 1) as nat).last();
                lemma_strip_styled_run(style, text);
                lemma_strip_concat(rendered(source, events, styles, (n - 1) as nat), styled_run(style, text), false);
            },
            _ => {},
        }
    }
}

/// Nothing is lost and nothing is added: for a source without escape bytes
/// and events that read all of it, the rendered text with its styling codes
/// taken out is the source itself.
pub proof fn lemma_unstyled_is_source(source: Seq<u8>, events: Seq<ScopeEvent>, styles: Seq<Option<Rgb>>)
    requires
        renderable(events, source.len()),
        escape_free(source),
    ensures
        unstyled(rendered(source, events, styles, events.len())) == source,
{
    lemma_unstyled_is_plain(source, events, styles, events.len());
    lemma_round_trip(source, events);
}

/// Takes the styling codes out of a text: every escape byte and what follows
/// it up to the next `m` is left out, and the other bytes stay in their order.
pub fn unstyle(text: &[u8]) -> (out: Vec<u8>)
    ensures
        out@ == unstyled(text@),
{
    let mut out: Vec<u8> = Vec::new();
    let mut inside = false;
    let mut i: usize = 0;
    proof {
        assert(text@.subrange(0, text@.len() as int) =~= text@);
        assert(out@ + strip_from(text@, false) =~= strip_from(text@, false));
    }
    while i < text.len()
        invariant
            i <= text@.len(),
            unstyled(text@) == out@ + strip_from(text@.subrange(i as int, text@.len() as int), inside),
        decreases text@.len() - i,
    {
        let b = text[i];
        proof {
            let rest = text@.subrange(i as int, text@.len() as int);
            assert(rest[0] == b);
            assert(rest.drop_first() =~= text@.subrange(i + 1, text@.len() as int));
        }
        let ghost before = out@;
        if inside {
            inside = b != CODE_END;
        } else if b == ESCAPE {
            inside = true;
        } else {
            out.push(b);
            assert(out@ + strip_from(text@.subrange(i + 1, text@.len() as int), false) =~= before + (seq![b]
                + strip_from(text@.subrange(i + 1, text@.len() as int), false)));
        }
        i += 1;
    }
    proof {
        assert(text@.subrange(i as int, text@.len() as int).len() == 0);
        assert(out@ + Seq::<u8>::empty() =~= out@);
    }
    out
}

} // verus!
