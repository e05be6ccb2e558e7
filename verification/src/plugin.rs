//! Plugins: the snippets of one source, as a map from names to snippets
//! that keeps the order in which the names first came.

use crate::catalog::entry_of;
use crate::codec::separable;
use crate::snippet::{CommandSnippet, SnippetView};
use crate::text::same_text;
use vstd::prelude::*;

verus! {

/// A snippet under its name.
#[derive(Debug, Clone, PartialEq, Eq)]
pub struct NamedSnippet {
    pub name: String,
    pub snippet: CommandSnippet,
}

/// The snippets of one source: a map from names to snippets, kept in the
/// order in which the names first came. No name occurs twice.
#[derive(Debug, Clone, PartialEq, Eq)]
pub struct Plugin {
    /// The directory of the source file, against which entry points are
    /// resolved.
    pub plugin_dir: String,
    /// The source file.
    pub config_file: String,
    pub commands: Vec<NamedSnippet>,
}

/// What a [`Plugin`] holds.
pub struct PluginView {
    pub plugin_dir: Seq<char>,
    pub config_file: Seq<char>,
    pub commands: Seq<(Seq<char>, SnippetView)>,
}

/// The names and snippets of `v`.
pub open spec fn named(v: Seq<NamedSnippet>) -> Seq<(Seq<char>, SnippetView)> {
    v.map_values(|n: NamedSnippet| (n.name@, n.snippet@))
}

/// Whether no name occurs twice in `entries`.
pub open spec fn distinct_names(entries: Seq<(Seq<char>, SnippetView)>) -> bool {
    forall|i: int, j: int|
        0 <= i < j < entries.len() ==> (#[trigger] entries[i]).0 != (#[trigger] entries[j]).0
}

impl View for Plugin {
    type V = PluginView;

    open spec fn view(&self) -> PluginView {
        PluginView {
            plugin_dir: self.plugin_dir@,
            config_file: self.config_file@,
            commands: named(self.commands@),
        }
    }
}

/// Whether the line of every entry of `plugin` has fields that can be told
/// apart.
pub open spec fn presentable(plugin: PluginView) -> bool {
    forall|i: int|
        0 <= i < plugin.commands.len() ==> separable(
            entry_of((#[trigger] plugin.commands[i]).0, plugin.config_file, plugin.commands[i].1),
        )
}

/// What holds of a plugin that was loaded: it has a snippet, no name
/// occurs twice, and the fields of every entry can be told apart.
pub open spec fn lawful(plugin: PluginView) -> bool {
    plugin.commands.len() > 0 && distinct_names(plugin.commands) && presentable(plugin)
}

impl Plugin {
    /// Whether this plugin is as a loaded one is.
    pub open spec fn well_formed(&self) -> bool {
        lawful(self@)
    }
}

/// The views of the plugins `v`.
pub open spec fn plugin_views(v: Seq<Plugin>) -> Seq<PluginView> {
    v.map_values(|p: Plugin| p@)
}

/// The position of the entry named `name` in `entries`; their number where
/// there is none.
pub open spec fn position_of(entries: Seq<(Seq<char>, SnippetView)>, name: Seq<char>) -> int
    decreases entries.len(),
{
    if entries.len() == 0 || entries[0].0 == name {
        0
    } else {
        1 + position_of(entries.drop_first(), name)
    }
}

/// `entries` with `snippet` under `name`: in place of the entry of that
/// name where there is one, at the end where there is none.
pub open spec fn inserted(
    entries: Seq<(Seq<char>, SnippetView)>,
    name: Seq<char>,
    snippet: SnippetView,
) -> Seq<(Seq<char>, SnippetView)> {
    if position_of(entries, name) < entries.len() {
        entries.update(position_of(entries, name), (name, snippet))
    } else {
        entries.push((name, snippet))
    }
}

/// Where a name is first found: at a position among the entries or at their
/// end, under that name if among them, and under no name before.
pub proof fn lemma_position_is_first(entries: Seq<(Seq<char>, SnippetView)>, name: Seq<char>)
    ensures
        0 <= position_of(entries, name) <= entries.len(),
        position_of(entries, name) < entries.len() ==> entries[position_of(entries, name)].0
            == name,
        forall|j: int| 0 <= j < position_of(entries, name) ==> (#[trigger] entries[j]).0 != name,
    decreases entries.len(),
{
    if entries.len() == 0 || entries[0].0 == name {
    } else {
        let rest = entries.drop_first();
        lemma_position_is_first(rest, name);
        assert forall|j: int| 0 <= j < position_of(entries, name) implies (
        #[trigger] entries[j]).0 != name by {
            if j > 0 {
                assert(entries[j] == rest[j - 1]);
            }
        }
    }
}

/// The position of a name, from where it is first found.
pub proof fn lemma_position(entries: Seq<(Seq<char>, SnippetView)>, name: Seq<char>, at: int)
    requires
        0 <= at <= entries.len(),
        forall|j: int| 0 <= j < at ==> (#[trigger] entries[j]).0 != name,
        at < entries.len() ==> entries[at].0 == name,
    ensures
        position_of(entries, name) == at,
    decreases at,
{
    if at > 0 {
        let rest = entries.drop_first();
        lemma_position(rest, name, at - 1);
    }
}

/// Inserting keeps a map a map, never empties it, puts the snippet under
/// the name, and holds nothing else that was not there.
pub proof fn lemma_inserted(
    entries: Seq<(Seq<char>, SnippetView)>,
    name: Seq<char>,
    snippet: SnippetView,
)
    requires
        distinct_names(entries),
    ensures
        distinct_names(inserted(entries, name, snippet)),
        inserted(entries, name, snippet).len() > 0,
        inserted(entries, name, snippet)[position_of(entries, name)] == (name, snippet),
        forall|i: int|
            0 <= i < inserted(entries, name, snippet).len() ==> i == position_of(entries, name)
                || (i < entries.len() && #[trigger] inserted(entries, name, snippet)[i]
                == entries[i]),
{
    lemma_position_is_first(entries, name);
}

/// Puts `snippet` under `name`: in place of the entry of that name where
/// there is one, at the end where there is none.
pub fn insert(commands: &mut Vec<NamedSnippet>, name: String, snippet: CommandSnippet)
    ensures
        named(final(commands)@) == inserted(named(old(commands)@), name@, snippet@),
{
    let ghost before = named(commands@);
    let mut i: usize = 0;
    while i < commands.len()
        invariant
            i <= commands.len(),
            named(commands@) == before,
            before == named(old(commands)@),
            forall|j: int| 0 <= j < i ==> (#[trigger] before[j]).0 != name@,
        decreases commands.len() - i,
    {
        if same_text(commands[i].name.as_str(), name.as_str()) {
            proof {
                lemma_position(before, name@, i as int);
            }
            commands.set(i, NamedSnippet { name, snippet });
            return ;
        }
        i = i + 1;
    }
    proof {
        lemma_position(before, name@, before.len() as int);
    }
    commands.push(NamedSnippet { name, snippet });
}

} // verus!
