use tagsearch::render::{check_events, render, tiles, ScopeEvent};
use tagsearch::theme::{Rgb, Theme};

fn run(start: usize, end: usize) -> ScopeEvent {
    ScopeEvent::SourceRun { start, end }
}

#[test]
fn runs_alone_give_the_text_back() {
    let events = vec![run(0, 3), run(3, 5)];
    let out = render(b"hello", &events, &Vec::new());
    assert_eq!(out, b"hello".to_vec());
}

#[test]
fn no_events_give_nothing() {
    let out = render(b"hello", &Vec::new(), &Vec::new());
    assert_eq!(out, Vec::<u8>::new());
}

#[test]
fn nested_scopes_restore_the_outer_style() {
    let styles = vec![Some(Rgb { r: 1, g: 2, b: 3 }), Some(Rgb { r: 255, g: 135, b: 0 })];
    let events = vec![
        ScopeEvent::ScopeStart(0),
        run(0, 2),
        ScopeEvent::ScopeStart(1),
        run(2, 4),
        ScopeEvent::ScopeEnd,
        run(4, 6),
        ScopeEvent::ScopeEnd,
        run(6, 7),
    ];
    assert!(check_events(&events, 7));
    assert!(tiles(&events, 7));
    let out = render(b"abcdefg", &events, &styles);
    let expected = "\x1b[38;2;1;2;3mab\x1b[0m\x1b[38;2;255;135;0mcd\x1b[0m\x1b[38;2;1;2;3mef\x1b[0mg";
    assert_eq!(String::from_utf8(out).unwrap(), expected);
}

#[test]
fn consecutive_runs_are_styled_one_by_one() {
    let styles = vec![Some(Rgb { r: 10, g: 99, b: 100 })];
    let events = vec![ScopeEvent::ScopeStart(0), run(0, 1), run(1, 2), ScopeEvent::ScopeEnd];
    let out = render(b"xy", &events, &styles);
    let expected = "\x1b[38;2;10;99;100mx\x1b[0m\x1b[38;2;10;99;100my\x1b[0m";
    assert_eq!(String::from_utf8(out).unwrap(), expected);
}

#[test]
fn channels_are_written_in_decimal_without_leading_zeros() {
    let styles = vec![Some(Rgb { r: 0, g: 7, b: 200 })];
    let events = vec![ScopeEvent::ScopeStart(0), run(0, 1), ScopeEvent::ScopeEnd];
    let out = render(b"z", &events, &styles);
    assert_eq!(String::from_utf8(out).unwrap(), "\x1b[38;2;0;7;200mz\x1b[0m");
}

#[test]
fn unknown_scope_id_is_rendered_plain() {
    let styles = vec![Some(Rgb { r: 1, g: 2, b: 3 })];
    let events = vec![ScopeEvent::ScopeStart(5), run(0, 4), ScopeEvent::ScopeEnd];
    let out = render(b"text", &events, &styles);
    assert_eq!(out, b"text".to_vec());
}

#[test]
fn unknown_scope_inside_known_scope_hides_the_outer_colour() {
    let styles = vec![Some(Rgb { r: 1, g: 2, b: 3 })];
    let events = vec![
        ScopeEvent::ScopeStart(0),
        ScopeEvent::ScopeStart(9),
        run(0, 1),
        ScopeEvent::ScopeEnd,
        run(1, 2),
        ScopeEvent::ScopeEnd,
    ];
    let out = render(b"ab", &events, &styles);
    assert_eq!(String::from_utf8(out).unwrap(), "a\x1b[38;2;1;2;3mb\x1b[0m");
}

#[test]
fn scope_end_without_scope_is_refused() {
    assert!(!check_events(&vec![ScopeEvent::ScopeEnd], 0));
    assert!(!check_events(&vec![ScopeEvent::ScopeStart(0), ScopeEvent::ScopeEnd, ScopeEvent::ScopeEnd], 0));
    assert!(check_events(&vec![ScopeEvent::ScopeStart(0), ScopeEvent::ScopeEnd], 0));
    assert!(check_events(&vec![ScopeEvent::ScopeStart(0)], 0));
}

#[test]
fn run_outside_the_text_is_refused() {
    assert!(!check_events(&vec![run(0, 6)], 5));
    assert!(!check_events(&vec![run(3, 2)], 5));
    assert!(check_events(&vec![run(0, 5)], 5));
    assert!(check_events(&vec![run(2, 2)], 5));
}

#[test]
fn tiling_wants_every_byte_once() {
    assert!(tiles(&vec![run(0, 2), ScopeEvent::ScopeStart(0), run(2, 5)], 5));
    assert!(!tiles(&vec![run(0, 2), run(3, 5)], 5));
    assert!(!tiles(&vec![run(0, 2), run(1, 5)], 5));
    assert!(!tiles(&vec![run(0, 4)], 5));
    assert!(!tiles(&vec![run(1, 5)], 5));
    assert!(tiles(&Vec::new(), 0));
    assert!(!tiles(&Vec::new(), 1));
}

#[test]
fn standard_theme_has_its_entries() {
    let theme = Theme::standard();
    assert_eq!(theme.entries.len(), 19);
    assert_eq!(theme.entries[0].scope, "attribute");
    assert_eq!(theme.entries[18].scope, "variable.parameter");
    assert_eq!(theme.color("keyword"), Some(Rgb { r: 175, g: 215, b: 0 }));
    assert_eq!(theme.color("function"), Some(Rgb { r: 247, g: 187, b: 59 }));
    assert_eq!(theme.color("type.builtin"), Some(Rgb { r: 26, g: 188, b: 156 }));
    assert_eq!(theme.color("variable.parameter"), Some(Rgb { r: 97, g: 175, b: 239 }));
}

#[test]
fn unknown_scope_name_has_no_colour() {
    let theme = Theme::standard();
    assert_eq!(theme.color("comment"), None);
    assert_eq!(theme.color(""), None);
    assert_eq!(Theme::empty().color("keyword"), None);
}

#[test]
fn first_entry_of_a_name_wins() {
    let theme = Theme::empty().with("a", 1, 1, 1).with("b", 2, 2, 2).with("a", 3, 3, 3);
    assert_eq!(theme.color("a"), Some(Rgb { r: 1, g: 1, b: 1 }));
    assert_eq!(theme.color("b"), Some(Rgb { r: 2, g: 2, b: 2 }));
}

#[test]
fn names_and_styles_follow_the_entries() {
    let theme = Theme::empty().with("a", 1, 2, 3).with("b.c", 4, 5, 6);
    assert_eq!(theme.scope_names(), vec![String::from("a"), String::from("b.c")]);
    assert_eq!(theme.styles(), vec![Some(Rgb { r: 1, g: 2, b: 3 }), Some(Rgb { r: 4, g: 5, b: 6 })]);
}
