//! What a caller configures once and hands to the components that need it:
//! the table of commit types, and the template to use where none is asked for.

use vstd::prelude::*;
use vstd::string::*;
use crate::commit::text_views;
use crate::render::{TemplateSelector, SelectorView};

verus! {

/// A commit type and the title of its section in a changelog.
#[derive(Clone, Debug, PartialEq, Eq)]
pub struct CommitType {
    pub name: String,
    pub title: String,
}

/// What a [`CommitType`] holds, with texts as sequences of characters.
pub struct CommitTypeView {
    pub name: Seq<char>,
    pub title: Seq<char>,
}

impl View for CommitType {
    type V = CommitTypeView;

    open spec fn view(&self) -> CommitTypeView {
        CommitTypeView { name: self.name@, title: self.title@ }
    }
}

/// The views of the items of a list, in its order.
pub open spec fn type_views(ts: Seq<CommitType>) -> Seq<CommitTypeView> {
    Seq::new(ts.len(), |i: int| ts[i]@)
}

/// The names of a table of types, in its order.
pub open spec fn names_of(table: Seq<CommitTypeView>) -> Seq<Seq<char>> {
    Seq::new(table.len(), |i: int| table[i].name)
}

/// The title of the section for type `t`: that of the last entry of the
/// table with this name, or the name itself where the table has none.
pub open spec fn title_of(table: Seq<CommitTypeView>, t: Seq<char>) -> Seq<char>
    decreases table.len(),
{
    if table.len() == 0 {
        t
    } else if table.last().name == t {
        table.last().title
    } else {
        title_of(table.drop_last(), t)
    }
}

/// The built-in types, in the order in which a changelog lists their sections.
pub open spec fn builtin_table() -> Seq<CommitTypeView> {
    seq![
        CommitTypeView { name: "feat"@, title: "Features"@ },
        CommitTypeView { name: "fix"@, title: "Bug Fixes"@ },
        CommitTypeView { name: "perf"@, title: "Performance Improvements"@ },
        CommitTypeView { name: "revert"@, title: "Revert"@ },
        CommitTypeView { name: "docs"@, title: "Documentation"@ },
        CommitTypeView { name: "style"@, title: "Style"@ },
        CommitTypeView { name: "refactor"@, title: "Refactoring"@ },
        CommitTypeView { name: "test"@, title: "Tests"@ },
        CommitTypeView { name: "build"@, title: "Build system"@ },
        CommitTypeView { name: "ci"@, title: "Continuous Integration"@ },
        CommitTypeView { name: "chore"@, title: "Miscellaneous Chores"@ },
    ]
}

impl CommitType {
    /// A type with its name and the title of its section.
    pub fn new(name: &str, title: &str) -> (r: CommitType)
        ensures
            r@ == (CommitTypeView { name: name@, title: title@ }),
    {
        CommitType { name: name.to_owned(), title: title.to_owned() }
    }

    /// A copy that holds the same values.
    pub fn duplicate(&self) -> (r: CommitType)
        ensures
            r@ == self@,
    {
        CommitType { name: self.name.clone(), title: self.title.clone() }
    }
}

/// The table of the built-in types.
pub fn builtin_types() -> (r: Vec<CommitType>)
    ensures
        type_views(r@) == builtin_table(),
{
    let mut r: Vec<CommitType> = Vec::new();
    r.push(CommitType::new("feat", "Features"));
    r.push(CommitType::new("fix", "Bug Fixes"));
    r.push(CommitType::new("perf", "Performance Improvements"));
    r.push(CommitType::new("revert", "Revert"));
    r.push(CommitType::new("docs", "Documentation"));
    r.push(CommitType::new("style", "Style"));
    r.push(CommitType::new("refactor", "Refactoring"));
    r.push(CommitType::new("test", "Tests"));
    r.push(CommitType::new("build", "Build system"));
    r.push(CommitType::new("ci", "Continuous Integration"));
    r.push(CommitType::new("chore", "Miscellaneous Chores"));
    assert(type_views(r@) =~= builtin_table());
    r
}

/// The built-in types followed by the types that the caller declares, in
/// the order of their declaration. A declared type with the name of a
/// built-in one gives that one's section a new title and leaves its place.
pub fn type_table(declared: &Vec<CommitType>) -> (r: Vec<CommitType>)
    ensures
        type_views(r@) == builtin_table() + type_views(declared@),
{
    let mut r = builtin_types();
    let mut i: usize = 0;
    assert(type_views(r@) =~= builtin_table() + type_views(declared@).take(0));
    while i < declared.len()
        invariant
            i <= declared.len(),
            type_views(r@) == builtin_table() + type_views(declared@).take(i as int),
        decreases declared.len() - i,
    {
        let ghost before = type_views(r@);
        r.push(declared[i].duplicate());
        assert(type_views(r@) =~= before.push(declared@[i as int]@));
        assert(type_views(declared@).take(i + 1) =~= type_views(declared@).take(i as int).push(
            declared@[i as int]@,
        ));
        i += 1;
    }
    assert(type_views(declared@).take(declared.len() as int) =~= type_views(declared@));
    r
}

/// The names of a table, for the parser.
pub fn type_names(table: &Vec<CommitType>) -> (r: Vec<String>)
    ensures
        text_views(r@) == names_of(type_views(table@)),
{
    let mut r: Vec<String> = Vec::new();
    let mut i: usize = 0;
    while i < table.len()
        invariant
            i <= table.len(),
            r.len() == i,
            forall|j: int| 0 <= j < i ==> (#[trigger] r@[j])@ == table@[j].name@,
        decreases table.len() - i,
    {
        r.push(table[i].name.clone());
        i += 1;
    }
    assert(text_views(r@) =~= names_of(type_views(table@)));
    r
}

/// Looks up the title of the section for a type.
pub fn title_for(table: &Vec<CommitType>, t: &String) -> (r: String)
    ensures
        r@ == title_of(type_views(table@), t@),
{
    let ghost all = type_views(table@);
    let mut i: usize = table.len();
    assert(all.take(i as int) =~= all);
    while i > 0
        invariant
            i <= table.len(),
            all == type_views(table@),
            title_of(all, t@) == title_of(all.take(i as int), t@),
        decreases i,
    {
        proof {
            assert(all.take(i as int).last() == table@[i - 1]@);
            assert(all.take(i as int).drop_last() =~= all.take(i - 1));
        }
        if table[i - 1].name == *t {
            return table[i - 1].title.clone();
        }
        i -= 1;
    }
    t.clone()
}

/// The configuration of a run: made once, read by every component after that.
#[derive(Clone, Debug, PartialEq, Eq)]
pub struct Config {
    /// The table of commit types: the built-in ones, then the declared ones.
    pub types: Vec<CommitType>,
    /// The template to write a changelog with where none is asked for.
    pub default_template: TemplateSelector,
}

/// What a [`Config`] holds, with texts as sequences of characters.
pub struct ConfigView {
    pub types: Seq<CommitTypeView>,
    pub default_template: SelectorView,
}

impl View for Config {
    type V = ConfigView;

    open spec fn view(&self) -> ConfigView {
        ConfigView { types: type_views(self.types@), default_template: self.default_template@ }
    }
}

impl Config {
    /// The configuration with the declared types after the built-in ones.
    pub fn new(declared: &Vec<CommitType>, default_template: TemplateSelector) -> (c: Config)
        ensures
            c@ == (ConfigView {
                types: builtin_table() + type_views(declared@),
                default_template: default_template@,
            }),
    {
        Config { types: type_table(declared), default_template }
    }

    /// The configuration with the built-in types and the built-in template.
    pub fn standard() -> (c: Config)
        ensures
            c@ == (ConfigView {
                types: builtin_table(),
                default_template: SelectorView::Default,
            }),
    {
        Config { types: builtin_types(), default_template: TemplateSelector::Default }
    }

    /// The names of the recognized types, for the parser.
    pub fn recognized_types(&self) -> (r: Vec<String>)
        ensures
            text_views(r@) == names_of(self@.types),
    {
        type_names(&self.types)
    }

    /// The template to use: the one that is asked for, or else the configured one.
    pub fn template_or_default(&self, requested: Option<TemplateSelector>) -> (r: TemplateSelector)
        ensures
            r@ == match requested {
                Some(t) => t@,
                None => self@.default_template,
            },
    {
        match requested {
            Some(t) => t,
            None => self.default_template.duplicate(),
        }
    }
}

} // verus!
