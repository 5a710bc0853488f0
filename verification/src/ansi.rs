//! Terminal escape codes of a style, produced by `anstyle`.

use vstd::prelude::*;
use crate::theme::Rgb;

verus! {

/// The ASCII digit for `d`, which is below ten.
pub open spec fn digit(d: u8) -> u8 {
    (48 + d) as u8
}

/// A byte in decimal, without leading zeros.
pub open spec fn decimal(v: u8) -> Seq<u8> {
    if v >= 100 {
        seq![digit(v / 100), digit((v / 10) % 10), digit(v % 10)]
    } else if v >= 10 {
        seq![digit(v / 10), digit(v % 10)]
    } else {
        seq![digit(v)]
    }
}

/// The bytes that switch a style on: nothing for the plain style, and for a
/// colour the sequence `ESC [ 38 ; 2 ; r ; g ; b m`.
pub open spec fn start_code(style: Option<Rgb>) -> Seq<u8> {
    match style {
        None => Seq::empty(),
        Some(c) => seq![27u8, 91u8, 51u8, 56u8, 59u8, 50u8, 59u8] + decimal(c.r) + seq![59u8]
            + decimal(c.g) + seq![59u8] + decimal(c.b) + seq![109u8],
    }
}

/// The bytes that switch a style off: nothing for the plain style, and
/// `ESC [ 0 m` for a colour.
pub open spec fn end_code(style: Option<Rgb>) -> Seq<u8> {
    match style {
        None => Seq::empty(),
        Some(_) => seq![27u8, 91u8, 48u8, 109u8],
    }
}

/// Trusted: formats an `anstyle::Style` whose only setting is the foreground
/// colour with `{}`. For a style without settings `anstyle` writes nothing;
/// for an RGB foreground it writes `ESC [ 38 ; 2 ;`, the three channels in
/// decimal separated by `;`, and `m`.
#[verifier::external_body]
pub(crate) fn style_start(style: Option<Rgb>) -> (code: Vec<u8>)
    ensures
        code@ == start_code(style),
{
    let fg = style.map(|c| anstyle::Color::Rgb(anstyle::RgbColor(c.r, c.g, c.b)));
    let shown = anstyle::Style::new().fg_color(fg);
    format!("{shown}").into_bytes()
}

/// Trusted: formats the same `anstyle::Style` with `{:#}`, which writes the
/// reset code `ESC [ 0 m` unless the style has no settings, and then nothing.
#[verifier::external_body]
pub(crate) fn style_end(style: Option<Rgb>) -> (code: Vec<u8>)
    ensures
        code@ == end_code(style),
{
    let fg = style.map(|c| anstyle::Color::Rgb(anstyle::RgbColor(c.r, c.g, c.b)));
    let shown = anstyle::Style::new().fg_color(fg);
    format!("{shown:#}").into_bytes()
}

} // verus!
