//! The supported languages, chosen by file extension.

use vstd::prelude::*;
use vstd::string::StringExecFns;

verus! {

/// A language that can be searched. The set is closed.
#[derive(Clone, Copy, Debug, PartialEq, Eq, Structural)]
pub enum Lang {
    Python,
    Rust,
}

/// The language of a file extension (written without its dot), if any.
pub open spec fn resolve_spec(extension: Seq<char>) -> Option<Lang> {
    if extension == "py"@ {
        Some(Lang::Python)
    } else if extension == "rs"@ {
        Some(Lang::Rust)
    } else {
        None
    }
}

/// The language of a file extension: `py` is Python, `rs` is Rust, and any
/// other extension, the empty one too, has none.
pub fn resolve(extension: &str) -> (lang: Option<Lang>)
    ensures
        lang == resolve_spec(extension@),
{
    let ext = String::from_str(extension);
    if ext == String::from_str("py") {
        Some(Lang::Python)
    } else if ext == String::from_str("rs") {
        Some(Lang::Rust)
    } else {
        None
    }
}

} // verus!
