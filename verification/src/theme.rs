//! The colour theme: which colour each highlight scope is shown in.

use vstd::prelude::*;
use vstd::string::StringExecFns;

verus! {

/// A 24-bit colour.
#[derive(Clone, Copy, Debug, PartialEq, Eq, Structural)]
pub struct Rgb {
    pub r: u8,
    pub g: u8,
    pub b: u8,
}

/// One line of a theme: a scope name and the colour of its text.
pub struct ThemeEntry {
    pub scope: String,
    pub color: Rgb,
}

/// A list of scope names with their colours. The position of an entry is the
/// scope id that the highlighting engine reports for its name.
pub struct Theme {
    pub entries: Vec<ThemeEntry>,
}

/// The entries of the built-in theme.
pub open spec fn standard_entries() -> Seq<(Seq<char>, Rgb)> {
    seq![
        ("attribute"@, Rgb { r: 187, g: 194, b: 207 }),
        ("constant"@, Rgb { r: 255, g: 135, b: 0 }),
        ("function.builtin"@, Rgb { r: 247, g: 187, b: 59 }),
        ("function"@, Rgb { r: 247, g: 187, b: 59 }),
        ("keyword"@, Rgb { r: 175, g: 215, b: 0 }),
        ("operator"@, Rgb { r: 209, g: 109, b: 158 }),
        ("property"@, Rgb { r: 198, g: 120, b: 221 }),
        ("punctuation"@, Rgb { r: 128, g: 160, b: 194 }),
        ("punctuation.bracket"@, Rgb { r: 128, g: 160, b: 194 }),
        ("punctuation.delimiter"@, Rgb { r: 128, g: 160, b: 194 }),
        ("punctuation.special"@, Rgb { r: 128, g: 160, b: 194 }),
        ("string"@, Rgb { r: 250, g: 183, b: 149 }),
        ("string.special"@, Rgb { r: 250, g: 183, b: 149 }),
        ("tag"@, Rgb { r: 255, g: 135, b: 0 }),
        ("type"@, Rgb { r: 233, g: 86, b: 120 }),
        ("type.builtin"@, Rgb { r: 26, g: 188, b: 156 }),
        ("variable"@, Rgb { r: 242, g: 242, b: 191 }),
        ("variable.builtin"@, Rgb { r: 242, g: 242, b: 191 }),
        ("variable.parameter"@, Rgb { r: 97, g: 175, b: 239 }),
    ]
}

/// No scope name stands twice in the list.
pub open spec fn distinct_names(entries: Seq<(Seq<char>, Rgb)>) -> bool {
    forall|i: int, j: int| 0 <= i < j < entries.len() ==> (#[trigger] entries[i]).0 != (#[trigger] entries[j]).0
}

/// The built-in theme names each scope once.
pub proof fn lemma_standard_names_distinct()
    ensures
        distinct_names(standard_entries()),
{
    reveal_strlit("attribute");
    reveal_strlit("constant");
    reveal_strlit("function.builtin");
    reveal_strlit("function");
    reveal_strlit("keyword");
    reveal_strlit("operator");
    reveal_strlit("property");
    reveal_strlit("punctuation");
    reveal_strlit("punctuation.bracket");
    reveal_strlit("punctuation.delimiter");
    reveal_strlit("punctuation.special");
    reveal_strlit("string");
    reveal_strlit("string.special");
    reveal_strlit("tag");
    reveal_strlit("type");
    reveal_strlit("type.builtin");
    reveal_strlit("variable");
    reveal_strlit("variable.builtin");
    reveal_strlit("variable.parameter");
    let e = standard_entries();
    assert(e.len() == 19);
    assert forall|i: int, j: int| 0 <= i < j < e.len() implies (#[trigger] e[i]).0 != (#[trigger] e[j]).0 by {
        let a = e[i].0;
        let b = e[j].0;
        if a.len() == b.len() {
            assert(a[0] != b[0] || a[1] != b[1] || a[a.len() - 1] != b[b.len() - 1] || a[a.len() - 2] != b[b.len() - 2]);
        }
    }
}

/// The colour of the first entry named `name` among the first `n` entries.
pub open spec fn lookup(entries: Seq<(Seq<char>, Rgb)>, name: Seq<char>, n: nat) -> Option<Rgb>
    decreases n,
{
    if n == 0 || n > entries.len() {
        None
    } else {
        match lookup(entries, name, (n - 1) as nat) {
            Some(c) => Some(c),
            None => if entries[n - 1].0 == name {
                Some(entries[n - 1].1)
            } else {
                None
            },
        }
    }
}

/// A name that no entry carries has no colour.
pub proof fn lemma_unknown_scope_has_no_color(entries: Seq<(Seq<char>, Rgb)>, name: Seq<char>, n: nat)
    requires
        n <= entries.len(),
        forall|i: int| 0 <= i < n ==> (#[trigger] entries[i]).0 != name,
    ensures
        lookup(entries, name, n) is None,
    decreases n,
{
    if n > 0 {
        lemma_unknown_scope_has_no_color(entries, name, (n - 1) as nat);
    }
}

/// A colour found among the first `k` entries stays the answer for any
/// longer part of the theme.
pub proof fn lemma_first_entry_wins(entries: Seq<(Seq<char>, Rgb)>, name: Seq<char>, k: nat, n: nat)
    requires
        k <= n <= entries.len(),
        lookup(entries, name, k) is Some,
    ensures
        lookup(entries, name, n) == lookup(entries, name, k),
    decreases n,
{
    if n > k {
        lemma_first_entry_wins(entries, name, k, (n - 1) as nat);
    }
}

impl View for Theme {
    type V = Seq<(Seq<char>, Rgb)>;

    open spec fn view(&self) -> Seq<(Seq<char>, Rgb)> {
        Seq::new(self.entries@.len(), |i: int| (self.entries@[i].scope@, self.entries@[i].color))
    }
}

/// A name without a colour among all entries stands in none of them.
pub proof fn lemma_no_color_no_entry(entries: Seq<(Seq<char>, Rgb)>, name: Seq<char>, n: nat)
    requires
        n <= entries.len(),
        lookup(entries, name, n) is None,
    ensures
        forall|i: int| 0 <= i < n ==> (#[trigger] entries[i]).0 != name,
    decreases n,
{
    if n > 0 {
        lemma_no_color_no_entry(entries, name, (n - 1) as nat);
    }
}

impl Theme {
    /// The theme is a mapping: no scope name stands in it twice.
    pub open spec fn well_formed(&self) -> bool {
        distinct_names(self@)
    }

    /// A theme without entries: everything is shown unstyled.
    pub fn empty() -> (theme: Theme)
        ensures
            theme@ == Seq::<(Seq<char>, Rgb)>::empty(),
            theme.well_formed(),
    {
        let theme = Theme { entries: Vec::new() };
        assert(theme@ =~= Seq::<(Seq<char>, Rgb)>::empty());
        theme
    }

    /// Adds an entry behind the others. The theme stays a mapping where the
    /// name is new to it; a name that it already holds keeps its first colour.
    pub fn with(self, scope: &str, r: u8, g: u8, b: u8) -> (theme: Theme)
        ensures
            theme@ == self@.push((scope@, Rgb { r, g, b })),
            self.well_formed() && lookup(self@, scope@, self@.len()) is None ==> theme.well_formed(),
    {
        let ghost before = self@;
        let mut entries = self.entries;
        entries.push(ThemeEntry { scope: String::from_str(scope), color: Rgb { r, g, b } });
        let theme = Theme { entries };
        assert(theme@ =~= before.push((scope@, Rgb { r, g, b })));
        proof {
            if distinct_names(before) && lookup(before, scope@, before.len()) is None {
                lemma_no_color_no_entry(before, scope@, before.len());
            }
        }
        theme
    }

    /// The built-in theme.
    pub fn standard() -> (theme: Theme)
        ensures
            theme@ == standard_entries(),
            theme.well_formed(),
    {
        let theme = Theme::empty()
            .with("attribute", 187, 194, 207)
            .with("constant", 255, 135, 0)
            .with("function.builtin", 247, 187, 59)
            .with("function", 247, 187, 59)
            .with("keyword", 175, 215, 0)
            .with("operator", 209, 109, 158)
            .with("property", 198, 120, 221)
            .with("punctuation", 128, 160, 194)
            .with("punctuation.bracket", 128, 160, 194)
            .with("punctuation.delimiter", 128, 160, 194)
            .with("punctuation.special", 128, 160, 194)
            .with("string", 250, 183, 149)
            .with("string.special", 250, 183, 149)
            .with("tag", 255, 135, 0)
            .with("type", 233, 86, 120)
            .with("type.builtin", 26, 188, 156)
            .with("variable", 242, 242, 191)
            .with("variable.builtin", 242, 242, 191)
            .with("variable.parameter", 97, 175, 239);
        assert(theme@ =~= standard_entries());
        proof {
            lemma_standard_names_distinct();
        }
        theme
    }

    /// The scope names, in the entries' order.
    pub fn scope_names(&self) -> (names: Vec<String>)
        ensures
            names@.len() == self@.len(),
            forall|i: int| 0 <= i < names@.len() ==> (#[trigger] names@[i])@ == self@[i].0,
    {
        let mut names: Vec<String> = Vec::new();
        let mut i: usize = 0;
        while i < self.entries.len()
            invariant
                i <= self.entries@.len(),
                names@.len() == i,
                forall|j: int| 0 <= j < i ==> (#[trigger] names@[j])@ == self.entries@[j].scope@,
            decreases self.entries@.len() - i,
        {
            names.push(self.entries[i].scope.clone());
            i += 1;
        }
        names
    }

    /// The style of each scope id: the colour of the entry at that position.
    pub fn styles(&self) -> (styles: Vec<Option<Rgb>>)
        ensures
            styles@.len() == self@.len(),
            forall|i: int| 0 <= i < styles@.len() ==> #[trigger] styles@[i] == Some(self@[i].1),
    {
        let mut styles: Vec<Option<Rgb>> = Vec::new();
        let mut i: usize = 0;
        while i < self.entries.len()
            invariant
                i <= self.entries@.len(),
                styles@.len() == i,
                forall|j: int| 0 <= j < i ==> #[trigger] styles@[j] == Some(self.entries@[j].color),
            decreases self.entries@.len() - i,
        {
            styles.push(Some(self.entries[i].color));
            i += 1;
        }
        styles
    }

    /// The colour of a scope name: that of the first entry with this name, and
    /// none for a name that the theme does not know.
    pub fn color(&self, name: &str) -> (color: Option<Rgb>)
        ensures
            color == lookup(self@, name@, self@.len()),
    {
        let wanted = String::from_str(name);
        let mut i: usize = 0;
        while i < self.entries.len()
            invariant
                i <= self.entries@.len(),
                wanted@ == name@,
                lookup(self@, name@, i as nat) is None,
            decreases self.entries@.len() - i,
        {
            if self.entries[i].scope == wanted {
                proof {
                    assert(self@[i as int].0 == name@);
                    assert(lookup(self@, name@, (i + 1) as nat) == Some(self@[i as int].1));
                    lemma_first_entry_wins(self@, name@, (i + 1) as nat, self@.len());
                }
                return Some(self.entries[i].color);
            }
            i += 1;
        }
        None
    }
}

} // verus!
