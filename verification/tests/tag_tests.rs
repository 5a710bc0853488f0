use tagsearch::engine::RawTag;
use tagsearch::highlight::{highlight, highlight_events, render_match, HighlightError};
use tagsearch::language::Lang;
use tagsearch::render::{check_events, tiles, ScopeEvent};
use tagsearch::tags::{extract, extract_with, locate, place, scan, ConfigError, TagError, TagKind, TagMatch};
use tagsearch::theme::Theme;
use tagsearch::unstyled::unstyle;

fn found(lang: Lang, term: &str, source: &str) -> Vec<TagMatch> {
    let tags = extract(lang, term, source.as_bytes()).unwrap();
    tags.into_iter().map(|t| t.unwrap()).collect()
}

fn strip(styled: &[u8]) -> Vec<u8> {
    unstyle(styled)
}

#[test]
fn place_counts_from_one_and_keeps_the_span() {
    let raw = RawTag { row: 0, column: 4, start: 0, end: 20, is_definition: true };
    let m = place(&raw, 20).unwrap();
    assert_eq!(m, TagMatch { line: 1, column: 5, start: 0, end: 20, kind: TagKind::Definition });
    let raw = RawTag { row: 7, column: 0, start: 3, end: 3, is_definition: false };
    let m = place(&raw, 10).unwrap();
    assert_eq!(m, TagMatch { line: 8, column: 1, start: 3, end: 3, kind: TagKind::Reference });
}

#[test]
fn place_refuses_what_the_source_does_not_have() {
    let beyond = RawTag { row: 0, column: 0, start: 0, end: 21, is_definition: true };
    assert!(matches!(place(&beyond, 20), Err(TagError::OutOfText)));
    let reversed = RawTag { row: 0, column: 0, start: 5, end: 4, is_definition: true };
    assert!(matches!(place(&reversed, 20), Err(TagError::OutOfText)));
    let ignored = RawTag { row: 0, column: 0, start: usize::MAX, end: usize::MAX, is_definition: true };
    assert!(matches!(place(&ignored, 20), Err(TagError::OutOfText)));
    let last_row = RawTag { row: usize::MAX, column: 0, start: 0, end: 1, is_definition: true };
    assert!(matches!(place(&last_row, 20), Err(TagError::OutOfText)));
    let last_column = RawTag { row: 0, column: usize::MAX, start: 0, end: 1, is_definition: true };
    assert!(matches!(place(&last_column, 20), Err(TagError::OutOfText)));
}

#[test]
fn locate_goes_on_after_a_failed_match() {
    let raw = vec![
        Ok(RawTag { row: 0, column: 0, start: 0, end: 2, is_definition: true }),
        Err(tree_sitter_tags::Error::Cancelled),
        Ok(RawTag { row: 1, column: 2, start: 4, end: 6, is_definition: false }),
        Ok(RawTag { row: 2, column: 0, start: 4, end: 60, is_definition: false }),
    ];
    let out = locate(&raw, 10);
    assert_eq!(out.len(), 4);
    assert_eq!(*out[0].as_ref().unwrap(), TagMatch { line: 1, column: 1, start: 0, end: 2, kind: TagKind::Definition });
    match &out[1] {
        Err(TagError::Engine(text)) => assert_eq!(text, "Cancelled"),
        _ => panic!("the engine's failure was lost"),
    }
    assert_eq!(*out[2].as_ref().unwrap(), TagMatch { line: 2, column: 3, start: 4, end: 6, kind: TagKind::Reference });
    assert!(matches!(out[3], Err(TagError::OutOfText)));
}

#[test]
fn python_definition_and_call_are_found() {
    let source = "def foo_bar(x): pass\nfoo_bar(1)\n";
    let tags = found(Lang::Python, "foo", source);
    assert_eq!(tags.len(), 2);
    assert_eq!(tags[0], TagMatch { line: 1, column: 5, start: 0, end: 20, kind: TagKind::Definition });
    assert_eq!(tags[1], TagMatch { line: 2, column: 1, start: 21, end: 31, kind: TagKind::Reference });
    assert_eq!(&source[tags[0].start..tags[0].end], "def foo_bar(x): pass");
    assert_eq!(&source[tags[1].start..tags[1].end], "foo_bar(1)");
}

#[test]
fn python_method_call_is_found_by_its_attribute() {
    let source = "obj.foo_bar(1)\nother(2)\n";
    let tags = found(Lang::Python, "foo", source);
    assert_eq!(tags.len(), 1);
    assert_eq!(tags[0], TagMatch { line: 1, column: 5, start: 0, end: 14, kind: TagKind::Reference });
}

#[test]
fn letter_case_does_not_matter() {
    let source = "def FooBar(x): pass\n";
    for term in ["foobar", "FOOBAR", "oba", "FooBar"] {
        let tags = found(Lang::Python, term, source);
        assert_eq!(tags.len(), 1);
        assert_eq!(tags[0], TagMatch { line: 1, column: 5, start: 0, end: 19, kind: TagKind::Definition });
    }
    assert_eq!(found(Lang::Python, "baz", source).len(), 0);
}

#[test]
fn rust_definition_and_call_are_found() {
    let source = "fn helper() {}\nfn main() {\n    helper();\n    other();\n}\n";
    let tags = found(Lang::Rust, "help", source);
    assert_eq!(tags.len(), 2);
    assert_eq!(tags[0], TagMatch { line: 1, column: 4, start: 0, end: 14, kind: TagKind::Definition });
    assert_eq!(tags[1], TagMatch { line: 3, column: 5, start: 31, end: 39, kind: TagKind::Reference });
    assert_eq!(&source[tags[1].start..tags[1].end], "helper()");
}

#[test]
fn rust_term_matches_inside_longer_names() {
    let source = "fn help_text() {}\nfn unrelated() {}\n";
    let tags = found(Lang::Rust, "help", source);
    assert_eq!(tags.len(), 1);
    assert_eq!(tags[0].line, 1);
    assert_eq!(tags[0].column, 4);
    assert_eq!(tags[0].kind, TagKind::Definition);
}

#[test]
fn matches_come_in_source_order() {
    let source = "foo_a(1)\ndef foo_b(x): pass\nfoo_c(2); foo_d(3)\n";
    let tags = found(Lang::Python, "foo", source);
    assert_eq!(tags.len(), 4);
    for pair in tags.windows(2) {
        assert!((pair[0].line, pair[0].column) <= (pair[1].line, pair[1].column));
    }
    assert_eq!(tags[1].kind, TagKind::Definition);
    assert_eq!((tags[3].line, tags[3].column), (3, 11));
}

#[test]
fn spans_lie_inside_the_source() {
    let source = "def foo(x): pass\nfoo(1)\nclass A:\n    def foo2(self): pass\n";
    let tags = found(Lang::Python, "foo", source);
    assert_eq!(tags.len(), 3);
    for m in tags {
        assert!(m.start <= m.end && m.end <= source.len());
        assert!(m.line >= 1 && m.column >= 1);
    }
}

#[test]
fn unknown_extension_is_skipped() {
    let tags = scan("md", "foo", b"def foo(): pass\n").unwrap();
    assert!(tags.is_empty());
    let tags = scan("", "foo", b"def foo(): pass\n").unwrap();
    assert!(tags.is_empty());
}

#[test]
fn known_extension_is_searched() {
    let tags = scan("py", "foo", b"def foo(): pass\n").unwrap();
    assert_eq!(tags.len(), 1);
    let tags = scan("rs", "foo", b"fn foo() {}\n").unwrap();
    assert_eq!(tags.len(), 1);
}

#[test]
fn broken_query_is_a_configuration_error() {
    match extract_with(Lang::Python, "((no_such_node) @definition.function", b"x = 1\n") {
        Err(ConfigError::Query(text)) => assert!(!text.is_empty()),
        _ => panic!("a broken query was accepted"),
    }
    match extract(Lang::Python, "\"", b"def foo(): pass\n") {
        Err(ConfigError::Query(text)) => assert!(!text.is_empty()),
        _ => panic!("a broken query was accepted"),
    }
    assert_eq!(extract(Lang::Python, "foo", b"def foo(): pass\n").unwrap().len(), 1);
}

#[test]
fn highlight_colours_python_keywords() {
    let source = b"def foo_bar(x): pass";
    let out = highlight(source, Lang::Python, &Theme::standard()).unwrap();
    let text = String::from_utf8(out.clone()).unwrap();
    assert!(text.starts_with("\x1b[38;2;175;215;0mdef\x1b[0m"));
    assert!(text.contains("\x1b[38;2;247;187;59mfoo_bar\x1b[0m"));
    assert!(text.contains("\x1b[38;2;175;215;0mpass\x1b[0m"));
    assert_eq!(strip(&out), source.to_vec());
}

#[test]
fn highlight_without_theme_is_the_text() {
    let source = b"def foo_bar(x): pass";
    let out = highlight(source, Lang::Python, &Theme::empty()).unwrap();
    assert_eq!(out, source.to_vec());
    let out = highlight(b"", Lang::Rust, &Theme::standard()).unwrap();
    assert_eq!(out, Vec::<u8>::new());
}

#[test]
fn highlight_with_unknown_scopes_only_is_the_text() {
    let theme = Theme::empty().with("no.such.scope", 1, 2, 3);
    let source = b"fn helper() {}";
    let out = highlight(source, Lang::Rust, &theme).unwrap();
    assert_eq!(out, source.to_vec());
}

#[test]
fn engine_events_are_nested_and_read_the_whole_text() {
    let source = b"fn helper() { helper(); }";
    let names = Theme::standard().scope_names();
    let events = highlight_events(source, Lang::Rust, &names).unwrap();
    assert!(check_events(&events, source.len()));
    assert!(tiles(&events, source.len()));
    assert!(events.iter().any(|e| matches!(e, ScopeEvent::ScopeStart(_))));
    for e in &events {
        if let ScopeEvent::ScopeStart(id) = e {
            assert!(*id < names.len());
        }
    }
}

#[test]
fn rendered_match_is_its_span_when_stripped() {
    let source = "x = 1\ndef foo_bar(x): pass\nfoo_bar(1)\n";
    let theme = Theme::standard();
    let tags = found(Lang::Python, "foo", source);
    assert_eq!(tags.len(), 2);
    for m in tags {
        let out = render_match(source.as_bytes(), &m, Lang::Python, &theme).unwrap();
        assert_eq!(strip(&out), source.as_bytes()[m.start..m.end].to_vec());
    }
}

#[test]
fn match_outside_the_source_is_not_rendered() {
    let m = TagMatch { line: 1, column: 1, start: 2, end: 50, kind: TagKind::Definition };
    let out = render_match(b"short", &m, Lang::Python, &Theme::standard());
    assert!(matches!(out, Err(HighlightError::OutOfText)));
    let m = TagMatch { line: 1, column: 1, start: 4, end: 2, kind: TagKind::Definition };
    let out = render_match(b"short", &m, Lang::Python, &Theme::standard());
    assert!(matches!(out, Err(HighlightError::OutOfText)));
}

#[test]
fn unstyle_takes_the_codes_out() {
    assert_eq!(unstyle(b"\x1b[38;2;1;2;3mab\x1b[0mcd"), b"abcd".to_vec());
    assert_eq!(unstyle(b"plain"), b"plain".to_vec());
    assert_eq!(unstyle(b""), Vec::<u8>::new());
    assert_eq!(unstyle(b"a\x1b[0"), b"a".to_vec());
    assert_eq!(unstyle(b"\x1b[0mm"), b"m".to_vec());
}

#[test]
fn rendered_matches_carry_the_theme_colours() {
    let source = "def foo_bar(x): pass\nfoo_bar(1)\n";
    let theme = Theme::standard();
    let tags = found(Lang::Python, "foo", source);
    assert_eq!(tags.len(), 2);
    let definition = render_match(source.as_bytes(), &tags[0], Lang::Python, &theme).unwrap();
    let definition = String::from_utf8(definition).unwrap();
    assert!(definition.starts_with("\x1b[38;2;175;215;0mdef\x1b[0m "));
    assert!(definition.ends_with("\x1b[38;2;175;215;0mpass\x1b[0m"));
    assert!(definition.contains("\x1b[38;2;247;187;59mfoo_bar\x1b[0m"));
    let call = render_match(source.as_bytes(), &tags[1], Lang::Python, &theme).unwrap();
    let call = String::from_utf8(call).unwrap();
    assert!(call.starts_with("\x1b[38;2;247;187;59mfoo_bar\x1b[0m"));
    assert_eq!(unstyle(call.as_bytes()), b"foo_bar(1)".to_vec());
}

#[test]
fn source_with_escape_bytes_is_still_rendered() {
    let source = b"x = '\x1b[0m'";
    let out = highlight(source, Lang::Python, &Theme::empty()).unwrap();
    assert_eq!(out, source.to_vec());
}

#[test]
fn broken_query_of_one_language_leaves_the_other_alone() {
    let python = extract_with(Lang::Python, "((function_definition name: (nothing) @name) @definition.function)", b"def foo(): pass\n");
    assert!(matches!(python, Err(ConfigError::Query(_))));
    let theme = Theme::standard();
    let source = b"fn foo() {}\n";
    let tags = scan("rs", "foo", source).unwrap();
    assert_eq!(tags.len(), 1);
    let found = *tags[0].as_ref().unwrap();
    assert_eq!(found, TagMatch { line: 1, column: 4, start: 0, end: 11, kind: TagKind::Definition });
    let shown = render_match(source, &found, Lang::Rust, &theme).unwrap();
    assert_eq!(shown, highlight(b"fn foo() {}", Lang::Rust, &theme).unwrap());
    assert_eq!(unstyle(&shown), b"fn foo() {}".to_vec());
}

#[test]
fn the_same_call_gives_the_same_answer() {
    let source = b"def foo(): pass\nfoo()\n";
    let first: Vec<TagMatch> = extract(Lang::Python, "foo", source).unwrap().into_iter().map(|t| t.unwrap()).collect();
    let second: Vec<TagMatch> = extract(Lang::Python, "foo", source).unwrap().into_iter().map(|t| t.unwrap()).collect();
    assert_eq!(first, second);
    let names = Theme::standard().scope_names();
    assert_eq!(
        highlight_events(source, Lang::Python, &names).unwrap(),
        highlight_events(source, Lang::Python, &names).unwrap()
    );
    assert!(highlight_events(source, Lang::Python, &Vec::new()).unwrap().iter().all(|e| matches!(e, ScopeEvent::SourceRun { .. })));
}
