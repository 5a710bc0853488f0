use tagsearch::language::{resolve, Lang};
use tagsearch::query::{clause_count, clause_kind, clause_pattern, compile, ClauseKind};
use tagsearch::report::{decimal, location_line};
use tagsearch::tags::{TagKind, TagMatch};

#[test]
fn extensions_choose_the_language() {
    assert_eq!(resolve("py"), Some(Lang::Python));
    assert_eq!(resolve("rs"), Some(Lang::Rust));
}

#[test]
fn other_extensions_have_no_language() {
    assert_eq!(resolve("md"), None);
    assert_eq!(resolve(""), None);
    assert_eq!(resolve("PY"), None);
    assert_eq!(resolve("rst"), None);
}

#[test]
fn python_query_holds_the_term_in_both_clauses() {
    let expected = "((function_definition name: (identifier) @name parameters: (parameters) return_type: (type)?) @definition.function (#match? @name \"(?i).*foo.*\"))\n\
((call function: [(identifier) @name (attribute attribute: (identifier) @name)]) @reference.call (#match? @name \"(?i).*foo.*\"))\n";
    assert_eq!(compile(Lang::Python, "foo"), expected);
}

#[test]
fn rust_query_holds_the_term_in_every_clause() {
    let query = compile(Lang::Rust, "help");
    assert_eq!(query.matches("(#match? @name \"(?i).*help.*\")").count(), 5);
    assert_eq!(query.lines().count(), 5);
    assert!(query.starts_with("((function_item name: (identifier) @name) @definition.function (#match? @name \"(?i).*help.*\"))\n"));
    assert!(query.ends_with("((call_expression function: (field_expression field: (field_identifier) @name)) @reference.call (#match? @name \"(?i).*help.*\"))\n"));
}

#[test]
fn term_is_embedded_as_it_is() {
    let query = compile(Lang::Python, "a.b");
    assert_eq!(query.matches("(?i).*a.b.*").count(), 2);
    let empty = compile(Lang::Python, "");
    assert_eq!(empty.matches("\"(?i).*.*\"").count(), 2);
}

#[test]
fn clauses_are_definitions_then_references() {
    assert_eq!(clause_count(Lang::Python), 2);
    assert_eq!(clause_count(Lang::Rust), 5);
    assert_eq!(clause_kind(Lang::Python, 0), ClauseKind::Definition);
    assert_eq!(clause_kind(Lang::Python, 1), ClauseKind::Reference);
    assert_eq!(clause_kind(Lang::Rust, 1), ClauseKind::Definition);
    assert_eq!(clause_kind(Lang::Rust, 2), ClauseKind::Reference);
    assert_eq!(clause_kind(Lang::Rust, 4), ClauseKind::Reference);
    assert!(clause_pattern(Lang::Rust, 2).contains("scoped_identifier"));
    assert!(clause_pattern(Lang::Rust, 4).contains("field_identifier"));
    assert!(clause_pattern(Lang::Python, 0).ends_with("@definition.function"));
}

#[test]
fn numbers_are_written_in_decimal() {
    assert_eq!(decimal(0), "0");
    assert_eq!(decimal(9), "9");
    assert_eq!(decimal(10), "10");
    assert_eq!(decimal(105), "105");
    assert_eq!(decimal(9000), "9000");
    assert_eq!(decimal(usize::MAX), usize::MAX.to_string());
}

#[test]
fn location_is_path_line_and_column() {
    let m = TagMatch { line: 3, column: 12, start: 40, end: 60, kind: TagKind::Reference };
    assert_eq!(location_line("src/a.py", &m), "src/a.py:3:12");
    let m = TagMatch { line: 1, column: 1, start: 0, end: 0, kind: TagKind::Definition };
    assert_eq!(location_line("", &m), ":1:1");
}
