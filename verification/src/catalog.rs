//! The catalog: every snippet of every source, flattened into one ordered
//! list whose positions are the indices that the selector protocol uses.

use crate::paths::{config_dir, get_plugins_dir, plugins_dir, simple_command_file};
use crate::snippet::{complete_command, optional_text, CommandSnippet, SnippetView};
use crate::codec::separable;
use crate::plugin::{plugin_views, presentable, Plugin, PluginView};
use crate::store::{
    load_plugins, load_simple_plugin, loading, note, notice_views, notices_of, plugin_notices,
    plugin_of, plugins_of, simple_label, Loaded, LoadedPlugins, Notice, NoticeView, PluginEntry,
    SourceFile,
};
use crate::text::texts;
use vstd::prelude::*;

verus! {

/// One entry of the catalog: a snippet with its name, the file that defines
/// it, and its complete command.
#[derive(Debug, Clone, PartialEq, Eq)]
pub struct FullCommandSnippet {
    pub name: String,
    pub complete_command: String,
    pub config_file: String,
    pub labels: Vec<String>,
    pub description: Option<String>,
    pub executable: Option<String>,
    pub entry_point: Option<String>,
    pub args: Vec<String>,
    pub if_shell: bool,
}

/// What a [`FullCommandSnippet`] holds.
pub struct EntryView {
    pub name: Seq<char>,
    pub complete_command: Seq<char>,
    pub config_file: Seq<char>,
    pub snippet: SnippetView,
}

impl View for FullCommandSnippet {
    type V = EntryView;

    open spec fn view(&self) -> EntryView {
        EntryView {
            name: self.name@,
            complete_command: self.complete_command@,
            config_file: self.config_file@,
            snippet: SnippetView {
                labels: texts(self.labels@),
                description: optional_text(self.description),
                executable: optional_text(self.executable),
                entry_point: optional_text(self.entry_point),
                args: texts(self.args@),
                if_shell: self.if_shell,
            },
        }
    }
}

/// The catalog entry of the snippet `snippet`, named `name` in the source
/// file `config_file`.
pub open spec fn entry_of(name: Seq<char>, config_file: Seq<char>, snippet: SnippetView) -> EntryView {
    EntryView {
        name,
        complete_command: complete_command(snippet.executable, snippet.entry_point, snippet.args),
        config_file,
        snippet,
    }
}

impl FullCommandSnippet {
    /// The catalog entry of `snippet`, named `name` in the source file
    /// `config_file`, with its complete command composed.
    pub fn new(name: &str, config_file: &str, snippet: &CommandSnippet) -> (entry: FullCommandSnippet)
        ensures
            entry@ == entry_of(name@, config_file@, snippet@),
    {
        let copy = snippet.duplicate();
        FullCommandSnippet {
            name: name.to_owned(),
            complete_command: snippet.complete_command(),
            config_file: config_file.to_owned(),
            labels: copy.labels,
            description: copy.description,
            executable: copy.executable,
            entry_point: copy.entry_point,
            args: copy.args,
            if_shell: copy.if_shell,
        }
    }
}

/// The catalog.
#[derive(Debug, Clone, PartialEq, Eq)]
pub struct AllCommandSnippets {
    pub commands: Vec<FullCommandSnippet>,
}

/// The views of the entries `v`.
pub open spec fn entries(v: Seq<FullCommandSnippet>) -> Seq<EntryView> {
    v.map_values(|e: FullCommandSnippet| e@)
}

impl View for AllCommandSnippets {
    type V = Seq<EntryView>;

    open spec fn view(&self) -> Seq<EntryView> {
        entries(self.commands@)
    }
}

impl AllCommandSnippets {
    /// The empty catalog.
    pub fn new() -> (catalog: AllCommandSnippets)
        ensures
            catalog@ == Seq::<EntryView>::empty(),
    {
        AllCommandSnippets { commands: Vec::new() }
    }
}

impl Default for AllCommandSnippets {
    fn default() -> (catalog: AllCommandSnippets)
        ensures
            catalog@ == Seq::<EntryView>::empty(),
    {
        AllCommandSnippets::new()
    }
}

/// The catalog entries of one plugin: one for each of its snippets, in
/// order, each with the plugin's source file and its complete command.
pub open spec fn entries_of(plugin: PluginView) -> Seq<EntryView> {
    plugin.commands.map_values(
        |named: (Seq<char>, SnippetView)| entry_of(named.0, plugin.config_file, named.1),
    )
}

/// The catalog of `plugins`: the entries of the first, then those of the
/// second, and so on.
pub open spec fn catalog_of(plugins: Seq<PluginView>) -> Seq<EntryView>
    decreases plugins.len(),
{
    if plugins.len() == 0 {
        Seq::empty()
    } else {
        catalog_of(plugins.drop_last()) + entries_of(plugins.last())
    }
}

/// The plugins of all sources below the home directory `home`: that of the
/// simple commands first, then those of the plugins directory in the order
/// of its `entries`. A source that gives no plugin adds nothing.
pub open spec fn sources(home: Seq<char>, simple: SourceFile, entries: Seq<PluginEntry>) -> Seq<
    PluginView,
> {
    plugin_of(Some(loading(simple_command_file(home), Some(config_dir(home)), simple)))
        + plugins_of(plugins_dir(home), entries)
}

/// What is reported of all sources: of the simple commands first, then of
/// the entries of the plugins directory.
pub open spec fn all_notices(home: Seq<char>, simple: SourceFile, entries: Seq<PluginEntry>) -> Seq<
    NoticeView,
> {
    notices_of(simple_label(), loading(simple_command_file(home), Some(config_dir(home)), simple))
        + plugin_notices(plugins_dir(home), entries)
}

/// Whether the complete command of `entry` is the one composed of its
/// executable, entry point and arguments.
pub open spec fn composed(entry: EntryView) -> bool {
    entry.complete_command == complete_command(
        entry.snippet.executable,
        entry.snippet.entry_point,
        entry.snippet.args,
    )
}

/// Every entry of a catalog carries the command composed of its parts.
pub proof fn lemma_catalog_is_composed(plugins: Seq<PluginView>)
    ensures
        forall|i: int| 0 <= i < catalog_of(plugins).len() ==> composed(#[trigger] catalog_of(plugins)[i]),
    decreases plugins.len(),
{
    if plugins.len() > 0 {
        lemma_catalog_is_composed(plugins.drop_last());
        assert(catalog_of(plugins) == catalog_of(plugins.drop_last()) + entries_of(
            plugins.last(),
        ));
    }
}

/// The fields of every entry of a catalog can be told apart, where that
/// holds of the plugins it is made of.
pub proof fn lemma_catalog_is_separable(plugins: Seq<PluginView>)
    requires
        forall|k: int| 0 <= k < plugins.len() ==> presentable(#[trigger] plugins[k]),
    ensures
        forall|i: int| 0 <= i < catalog_of(plugins).len() ==> separable(#[trigger] catalog_of(plugins)[i]),
    decreases plugins.len(),
{
    if plugins.len() > 0 {
        lemma_catalog_is_separable(plugins.drop_last());
        assert(presentable(plugins.last()));
        assert(catalog_of(plugins) == catalog_of(plugins.drop_last()) + entries_of(
            plugins.last(),
        ));
    }
}

/// The catalog grows source by source: that of one more plugin is the
/// catalog so far, followed by the entries of that plugin.
pub proof fn lemma_catalog_appends(plugins: Seq<PluginView>, more: Seq<PluginView>)
    ensures
        catalog_of(plugins + more) == catalog_of(plugins) + catalog_of(more),
    decreases more.len(),
{
    if more.len() > 0 {
        lemma_catalog_appends(plugins, more.drop_last());
        assert((plugins + more).drop_last() == plugins + more.drop_last());
    }
}

/// The catalog with its warnings.
#[derive(Debug, Clone, PartialEq, Eq)]
pub struct Gathered {
    pub catalog: AllCommandSnippets,
    pub notices: Vec<Notice>,
}

/// Adds the entries of `plugin` to `commands`.
fn add_entries(commands: &mut Vec<FullCommandSnippet>, plugin: &Plugin)
    ensures
        entries(final(commands)@) == entries(old(commands)@) + entries_of(plugin@),
{
    let ghost before = entries(commands@);
    let ghost added = entries_of(plugin@);
    let mut i: usize = 0;
    while i < plugin.commands.len()
        invariant
            i <= plugin.commands.len(),
            added == entries_of(plugin@),
            added.len() == plugin.commands.len(),
            entries(commands@) == before + added.take(i as int),
        decreases plugin.commands.len() - i,
    {
        let entry = FullCommandSnippet::new(
            plugin.commands[i].name.as_str(),
            plugin.config_file.as_str(),
            &plugin.commands[i].snippet,
        );
        assert(entries(commands@.push(entry)) =~= entries(commands@).push(entry@));
        commands.push(entry);
        i = i + 1;
    }
}

/// The catalog of `plugins`: every snippet of every plugin, in order.
pub fn flatten(plugins: &Vec<Plugin>) -> (catalog: AllCommandSnippets)
    ensures
        catalog@ == catalog_of(plugin_views(plugins@)),
        forall|i: int| 0 <= i < catalog@.len() ==> composed(#[trigger] catalog@[i]),
        (forall|k: int| 0 <= k < plugins.len() ==> (#[trigger] plugins[k]).well_formed())
            ==> forall|i: int| 0 <= i < catalog@.len() ==> separable(#[trigger] catalog@[i]),
{
    proof {
        lemma_catalog_is_composed(plugin_views(plugins@));
        if forall|k: int| 0 <= k < plugins.len() ==> (#[trigger] plugins[k]).well_formed() {
            lemma_catalog_is_separable(plugin_views(plugins@));
        }
    }
    let mut commands: Vec<FullCommandSnippet> = Vec::new();
    let mut i: usize = 0;
    while i < plugins.len()
        invariant
            i <= plugins.len(),
            entries(commands@) == catalog_of(plugin_views(plugins@).take(i as int)),
        decreases plugins.len() - i,
    {
        assert(plugin_views(plugins@).take(i + 1).drop_last() == plugin_views(plugins@).take(
            i as int,
        ));
        add_entries(&mut commands, &plugins[i]);
        i = i + 1;
    }
    assert(plugin_views(plugins@).take(i as int) == plugin_views(plugins@));
    AllCommandSnippets { commands }
}

/// Builds the catalog of all sources below the home directory `home`:
/// `simple` is what was found at the path of the simple commands, `entries`
/// are the entries of the plugins directory. No source makes the catalog
/// fail; at worst the catalog is empty.
pub fn load_commands(home: &str, simple: &SourceFile, entries: &Vec<PluginEntry>) -> (gathered:
    Gathered)
    ensures
        gathered.catalog@ == catalog_of(sources(home@, *simple, entries@)),
        notice_views(gathered.notices@) == all_notices(home@, *simple, entries@),
        forall|i: int| 0 <= i < gathered.catalog@.len() ==> composed(#[trigger] gathered.catalog@[i]),
        forall|i: int| 0 <= i < gathered.catalog@.len() ==> separable(#[trigger] gathered.catalog@[i]),
{
    let outcome = load_simple_plugin(home, simple);
    let mut notices: Vec<Notice> = Vec::new();
    note("simple commands", &outcome, &mut notices);
    let mut all: Vec<Plugin> = Vec::new();
    match outcome {
        Ok(Loaded { plugin: Some(plugin), warnings: _ }) => {
            all.push(plugin);
        },
        _ => {},
    }
    assert(plugin_views(all@) =~= plugin_of(
        Some(loading(simple_command_file(home@), Some(config_dir(home@)), *simple)),
    ));
    let directory = get_plugins_dir(home);
    let LoadedPlugins { plugins: mut more, notices: mut reported } = load_plugins(
        directory.as_str(),
        entries,
    );
    proof {
        assert(plugin_views(all@ + more@) =~= plugin_views(all@) + plugin_views(more@));
    }
    all.append(&mut more);
    notices.append(&mut reported);
    Gathered { catalog: flatten(&all), notices }
}

} // verus!
