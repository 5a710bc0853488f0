//! The tag query compiler: a language's clauses and a search term become one
//! structural query.

use vstd::prelude::*;
use vstd::string::StringExecFns;
use crate::language::Lang;

verus! {

/// What a clause finds: a declaration of a function or method, or a call.
#[derive(Clone, Copy, Debug, PartialEq, Eq, Structural)]
pub enum ClauseKind {
    Definition,
    Reference,
}

pub const PYTHON_DEFINITION: &'static str =
    "(function_definition name: (identifier) @name parameters: (parameters) return_type: (type)?) @definition.function";

pub const PYTHON_CALL: &'static str =
    "(call function: [(identifier) @name (attribute attribute: (identifier) @name)]) @reference.call";

pub const RUST_FUNCTION: &'static str = "(function_item name: (identifier) @name) @definition.function";

pub const RUST_METHOD: &'static str =
    "(declaration_list (function_item name: (identifier) @name)) @definition.method";

pub const RUST_SCOPED_CALL: &'static str = "(call_expression function: (scoped_identifier) @name) @reference.call";

pub const RUST_PLAIN_CALL: &'static str = "(call_expression function: (identifier) @name) @reference.call";

pub const RUST_METHOD_CALL: &'static str =
    "(call_expression function: (field_expression field: (field_identifier) @name)) @reference.call";

/// What stands before the search term in a clause's name predicate: the name
/// must match, whatever the case of its letters, anything followed by the term.
pub const PREDICATE_OPEN: &'static str = " (#match? @name \"(?i).*";

/// What stands behind the search term: anything may follow it.
pub const PREDICATE_CLOSE: &'static str = ".*\"))\n";

/// The number of clauses of a language.
pub open spec fn clause_count_spec(lang: Lang) -> nat {
    match lang {
        Lang::Python => 2,
        Lang::Rust => 5,
    }
}

/// The structural pattern of clause `i` of a language.
pub open spec fn pattern_spec(lang: Lang, i: int) -> Seq<char> {
    match lang {
        Lang::Python => if i == 0 {
            PYTHON_DEFINITION@
        } else {
            PYTHON_CALL@
        },
        Lang::Rust => if i == 0 {
            RUST_FUNCTION@
        } else if i == 1 {
            RUST_METHOD@
        } else if i == 2 {
            RUST_SCOPED_CALL@
        } else if i == 3 {
            RUST_PLAIN_CALL@
        } else {
            RUST_METHOD_CALL@
        },
    }
}

/// The kind of clause `i` of a language: definitions come first.
pub open spec fn kind_spec(lang: Lang, i: int) -> ClauseKind {
    match lang {
        Lang::Python => if i == 0 {
            ClauseKind::Definition
        } else {
            ClauseKind::Reference
        },
        Lang::Rust => if i <= 1 {
            ClauseKind::Definition
        } else {
            ClauseKind::Reference
        },
    }
}

/// A clause with the term embedded: an opening bracket, the pattern, and the
/// name predicate around the term.
pub open spec fn clause_text(lang: Lang, i: int, term: Seq<char>) -> Seq<char> {
    "("@ + pattern_spec(lang, i) + PREDICATE_OPEN@ + term + PREDICATE_CLOSE@
}

/// The first `n` clauses of a language with the term embedded in each.
pub open spec fn compiled(lang: Lang, term: Seq<char>, n: nat) -> Seq<char>
    decreases n,
{
    if n == 0 {
        Seq::empty()
    } else {
        compiled(lang, term, (n - 1) as nat) + clause_text(lang, n - 1, term)
    }
}

/// The number of clauses of a language.
pub fn clause_count(lang: Lang) -> (n: usize)
    ensures
        n == clause_count_spec(lang),
{
    match lang {
        Lang::Python => 2,
        Lang::Rust => 5,
    }
}

/// The structural pattern of clause `i` of a language.
pub fn clause_pattern(lang: Lang, i: usize) -> (pattern: &'static str)
    requires
        i < clause_count_spec(lang),
    ensures
        pattern@ == pattern_spec(lang, i as int),
{
    match lang {
        Lang::Python => if i == 0 {
            PYTHON_DEFINITION
        } else {
            PYTHON_CALL
        },
        Lang::Rust => if i == 0 {
            RUST_FUNCTION
        } else if i == 1 {
            RUST_METHOD
        } else if i == 2 {
            RUST_SCOPED_CALL
        } else if i == 3 {
            RUST_PLAIN_CALL
        } else {
            RUST_METHOD_CALL
        },
    }
}

/// The kind of clause `i` of a language.
pub fn clause_kind(lang: Lang, i: usize) -> (kind: ClauseKind)
    requires
        i < clause_count_spec(lang),
    ensures
        kind == kind_spec(lang, i as int),
{
    match lang {
        Lang::Python => if i == 0 {
            ClauseKind::Definition
        } else {
            ClauseKind::Reference
        },
        Lang::Rust => if i <= 1 {
            ClauseKind::Definition
        } else {
            ClauseKind::Reference
        },
    }
}

/// Compiles the tag query of a language for a search term: all clauses of the
/// language, definitions and calls, each with the term embedded in its name
/// predicate. The term is embedded as it is, so what it holds of regular
/// expression syntax keeps that meaning.
pub fn compile(lang: Lang, term: &str) -> (query: String)
    ensures
        query@ == compiled(lang, term@, clause_count_spec(lang)),
{
    let count = clause_count(lang);
    let mut query = String::new();
    let mut i: usize = 0;
    while i < count
        invariant
            i <= count,
            count == clause_count_spec(lang),
            query@ == compiled(lang, term@, i as nat),
        decreases count - i,
    {
        query.append("(");
        query.append(clause_pattern(lang, i));
        query.append(PREDICATE_OPEN);
        query.append(term);
        query.append(PREDICATE_CLOSE);
        i += 1;
    }
    query
}

} // verus!
