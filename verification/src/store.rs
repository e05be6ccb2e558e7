//! Sources: one JSON file defines the snippets of one plugin. A source is
//! read entry by entry. An entry that is no snippet is skipped with a
//! warning, and so is one that could not be written as a line for the
//! selector: one with a line feed or a delimiter where a field would seem to
//! end. A source without an entry that is accepted is no source, and so is
//! a file that is missing, cannot be read or holds no JSON: each gives no
//! plugin and a warning. The load of a source fails only where the file has
//! no directory against which its entry points could be resolved. The files
//! themselves are read by the caller, who hands over what was found.

use crate::catalog::{entry_of, FullCommandSnippet};
use crate::codec::{is_separable, separable};
use crate::decode::{decode_snippet, snippet_of};
use crate::json::{json_document, parse_json, Json};
use crate::paths::{
    config_dir, get_config_dir, get_plugin_dir, get_plugin_file, get_simple_command_file,
    is_absolute, join_path, path_joined, plugin_dir, plugin_file, simple_command_file,
};
use crate::plugin::{
    distinct_names, insert, inserted, lawful, lemma_inserted, named, plugin_views, NamedSnippet,
    Plugin, PluginView,
};
use crate::snippet::{CommandSnippet, SnippetView};
use crate::text::owned;
use vstd::prelude::*;

verus! {

/// `snippet` with its entry point resolved against `directory`: a relative
/// entry point is adjoined to the directory, an absolute one stays, and so
/// does the executable, which is looked up by the system.
pub open spec fn resolved(directory: Seq<char>, snippet: SnippetView) -> SnippetView {
    SnippetView {
        labels: snippet.labels,
        description: snippet.description,
        executable: snippet.executable,
        entry_point: match snippet.entry_point {
            Some(path) => Some(path_joined(directory, path)),
            None => None,
        },
        args: snippet.args,
        if_shell: snippet.if_shell,
    }
}

/// What a member of the source file `config_file` in `directory` gives:
/// its snippet, resolved against the directory, or the warning with which it
/// is skipped. It is skipped where it is no snippet, and where the fields of
/// its line could not be told apart.
pub open spec fn accepted(
    config_file: Seq<char>,
    directory: Seq<char>,
    member: (String, Json),
) -> Result<SnippetView, WarningView> {
    match snippet_of(member.1) {
        None => Err(WarningView::InvalidEntry(member.0@)),
        Some(snippet) => if separable(entry_of(member.0@, config_file, snippet)) {
            Ok(resolved(directory, snippet))
        } else {
            Err(WarningView::Ambiguous(member.0@))
        },
    }
}

/// The snippets that the members of a source define. A member that is
/// skipped defines nothing.
pub open spec fn named_snippets(
    members: Seq<(String, Json)>,
    config_file: Seq<char>,
    directory: Seq<char>,
) -> Seq<(Seq<char>, SnippetView)>
    decreases members.len(),
{
    if members.len() == 0 {
        Seq::empty()
    } else {
        let before = named_snippets(members.drop_last(), config_file, directory);
        match accepted(config_file, directory, members.last()) {
            Ok(snippet) => inserted(before, members.last().0@, snippet),
            Err(_) => before,
        }
    }
}

/// What was found at the path of a source.
#[derive(Debug, Clone, PartialEq, Eq)]
pub enum SourceFile {
    /// Nothing exists at the path.
    Missing,
    /// Something exists there that is no regular file.
    NotAFile,
    /// A file that could not be read as text.
    Unreadable,
    /// The text of the file.
    Text(String),
}

/// Why a source file could not be loaded. Only the first is an error of
/// the load; the others are reported as warnings of a source that gives
/// nothing.
#[derive(Debug, Clone, Copy, PartialEq, Eq)]
pub enum LoadError {
    /// The source file has no directory against which to resolve entry points.
    NoDirectory,
    /// The file could not be read.
    Unreadable,
    /// The text of the file is no JSON.
    InvalidJson,
}

/// What is reported of a source that was loaded.
#[derive(Debug, Clone, PartialEq, Eq)]
pub enum Warning {
    /// The source file does not exist.
    Missing,
    /// The source is no regular file.
    NotAFile,
    /// The document is no object.
    NotAnObject,
    /// The entry of this name is no snippet and was skipped.
    InvalidEntry(String),
    /// The entry of this name holds a delimiter or a line feed where the
    /// selector would mistake it for the end of a field, and was skipped.
    Ambiguous(String),
    /// No entry of the source was accepted.
    NoValidCommands,
    /// The source file could not be loaded, for this reason.
    Failed(LoadError),
}

/// What a [`Warning`] holds.
pub enum WarningView {
    Missing,
    NotAFile,
    NotAnObject,
    InvalidEntry(Seq<char>),
    Ambiguous(Seq<char>),
    NoValidCommands,
    Failed(LoadError),
}

impl View for Warning {
    type V = WarningView;

    open spec fn view(&self) -> WarningView {
        match self {
            Warning::Missing => WarningView::Missing,
            Warning::NotAFile => WarningView::NotAFile,
            Warning::NotAnObject => WarningView::NotAnObject,
            Warning::InvalidEntry(name) => WarningView::InvalidEntry(name@),
            Warning::Ambiguous(name) => WarningView::Ambiguous(name@),
            Warning::NoValidCommands => WarningView::NoValidCommands,
            Warning::Failed(error) => WarningView::Failed(*error),
        }
    }
}

/// The views of the warnings `v`.
pub open spec fn warning_views(v: Seq<Warning>) -> Seq<WarningView> {
    v.map_values(|w: Warning| w@)
}

/// A source that was loaded: its plugin, where it defines a snippet, and
/// what is reported of it.
#[derive(Debug, Clone, PartialEq, Eq)]
pub struct Loaded {
    pub plugin: Option<Plugin>,
    pub warnings: Vec<Warning>,
}

/// What a [`Loaded`] holds.
pub struct LoadedView {
    pub plugin: Option<PluginView>,
    pub warnings: Seq<WarningView>,
}

impl View for Loaded {
    type V = LoadedView;

    open spec fn view(&self) -> LoadedView {
        LoadedView {
            plugin: match self.plugin {
                Some(plugin) => Some(plugin@),
                None => None,
            },
            warnings: warning_views(self.warnings@),
        }
    }
}

/// The warnings of the members of a source: one for each that is
/// skipped, with its name, in order.
pub open spec fn entry_warnings(
    members: Seq<(String, Json)>,
    config_file: Seq<char>,
    directory: Seq<char>,
) -> Seq<WarningView>
    decreases members.len(),
{
    if members.len() == 0 {
        Seq::empty()
    } else {
        let before = entry_warnings(members.drop_last(), config_file, directory);
        match accepted(config_file, directory, members.last()) {
            Ok(_) => before,
            Err(warning) => before.push(warning),
        }
    }
}

/// No source, with one warning.
pub open spec fn nothing_but(warning: WarningView) -> LoadedView {
    LoadedView { plugin: None, warnings: seq![warning] }
}

/// What the document of the source file `config_file` in `directory`
/// gives. A document that is no object gives no plugin. An object gives
/// the plugin of its members that are accepted, and a warning for each
/// that is skipped; where none is accepted, it gives no plugin and says so.
pub open spec fn loaded_from(config_file: Seq<char>, directory: Seq<char>, document: Json) -> LoadedView {
    match document {
        Json::Object(members) => if named_snippets(members@, config_file, directory).len() == 0 {
            LoadedView {
                plugin: None,
                warnings: entry_warnings(members@, config_file, directory).push(
                    WarningView::NoValidCommands,
                ),
            }
        } else {
            LoadedView {
                plugin: Some(
                    PluginView {
                        plugin_dir: directory,
                        config_file,
                        commands: named_snippets(members@, config_file, directory),
                    },
                ),
                warnings: entry_warnings(members@, config_file, directory),
            }
        },
        _ => nothing_but(WarningView::NotAnObject),
    }
}

/// What the load of the source file `config_file` gives, from what was
/// found at its path. A missing file and one that is no regular file are no
/// source. A file that is there needs a directory: without one the load
/// fails. With one, a file that cannot be read and a text that is no JSON
/// are no source either, each with its warning; a document decides.
pub open spec fn loading(
    config_file: Seq<char>,
    directory: Option<Seq<char>>,
    found: SourceFile,
) -> Result<LoadedView, LoadError> {
    match found {
        SourceFile::Missing => Ok(nothing_but(WarningView::Missing)),
        SourceFile::NotAFile => Ok(nothing_but(WarningView::NotAFile)),
        SourceFile::Unreadable => if directory is None {
            Err(LoadError::NoDirectory)
        } else {
            Ok(nothing_but(WarningView::Failed(LoadError::Unreadable)))
        },
        SourceFile::Text(text) => match directory {
            None => Err(LoadError::NoDirectory),
            Some(dir) => match json_document(text@) {
                None => Ok(nothing_but(WarningView::Failed(LoadError::InvalidJson))),
                Some(document) => Ok(loaded_from(config_file, dir, document)),
            },
        },
    }
}

/// Whether something that is a file was found.
pub open spec fn is_present(found: SourceFile) -> bool {
    found is Unreadable || found is Text
}

/// Only a missing directory fails a load: the load of a source fails
/// exactly where a file is there and has no directory, and then for that
/// reason. Whatever else is wrong with the file, it gives no plugin and a
/// warning.
pub proof fn lemma_only_a_missing_directory_fails(
    config_file: Seq<char>,
    directory: Option<Seq<char>>,
    found: SourceFile,
)
    ensures
        loading(config_file, directory, found) is Err <==> is_present(found) && directory is None,
        loading(config_file, directory, found) matches Err(error) ==> error
            == LoadError::NoDirectory,
        directory is Some && found is Unreadable ==> loading(config_file, directory, found) == Ok::<
            LoadedView,
            LoadError,
        >(nothing_but(WarningView::Failed(LoadError::Unreadable))),
        directory is Some && (found matches SourceFile::Text(text) && json_document(text@) is None)
            ==> loading(config_file, directory, found) == Ok::<LoadedView, LoadError>(
            nothing_but(WarningView::Failed(LoadError::InvalidJson)),
        ),
{
}

/// The view of the outcome of a load.
pub open spec fn outcome_view(outcome: Result<Loaded, LoadError>) -> Result<LoadedView, LoadError> {
    match outcome {
        Ok(loaded) => Ok(loaded@),
        Err(error) => Err(error),
    }
}

/// The view of a text that may be absent.
pub open spec fn optional_str(s: Option<&str>) -> Option<Seq<char>> {
    match s {
        Some(text) => Some(text@),
        None => None,
    }
}

/// Resolution settles: a snippet whose entry point is absolute, or was
/// resolved against an absolute directory, stays as it is when it is
/// resolved again, against any directory.
pub proof fn lemma_resolution_settles(directory: Seq<char>, other: Seq<char>, snippet: SnippetView)
    ensures
        (snippet.entry_point matches Some(path) ==> is_absolute(path)) ==> resolved(
            directory,
            snippet,
        ) == snippet,
        is_absolute(directory) ==> resolved(other, resolved(directory, snippet)) == resolved(
            directory,
            snippet,
        ),
{
}

/// The snippets of a source are a map, and the fields of each of their
/// entries can be told apart.
pub proof fn lemma_named_snippets_lawful(
    members: Seq<(String, Json)>,
    config_file: Seq<char>,
    directory: Seq<char>,
)
    ensures
        distinct_names(named_snippets(members, config_file, directory)),
        forall|i: int|
            0 <= i < named_snippets(members, config_file, directory).len() ==> separable(
                entry_of(
                    (#[trigger] named_snippets(members, config_file, directory)[i]).0,
                    config_file,
                    named_snippets(members, config_file, directory)[i].1,
                ),
            ),
    decreases members.len(),
{
    if members.len() > 0 {
        let before = named_snippets(members.drop_last(), config_file, directory);
        lemma_named_snippets_lawful(members.drop_last(), config_file, directory);
        match accepted(config_file, directory, members.last()) {
            Ok(snippet) => {
                lemma_inserted(before, members.last().0@, snippet);
            },
            Err(_) => {},
        }
    }
}

/// Isolation: a member that is skipped changes nothing. The snippets of a
/// source are those of the source without that member, wherever it stands.
pub proof fn lemma_invalid_entry_is_skipped(
    before: Seq<(String, Json)>,
    bad: (String, Json),
    after: Seq<(String, Json)>,
    config_file: Seq<char>,
    directory: Seq<char>,
)
    requires
        accepted(config_file, directory, bad) is Err,
    ensures
        named_snippets(before.push(bad) + after, config_file, directory) == named_snippets(
            before + after,
            config_file,
            directory,
        ),
    decreases after.len(),
{
    if after.len() == 0 {
        assert(before.push(bad).drop_last() == before);
    } else {
        lemma_invalid_entry_is_skipped(before, bad, after.drop_last(), config_file, directory);
        assert((before.push(bad) + after).drop_last() == before.push(bad) + after.drop_last());
        assert((before + after).drop_last() == before + after.drop_last());
    }
}

/// Isolation, for the plugin: two documents that differ in one member
/// that is skipped give the same plugin, or both none; so the catalog, which
/// is made of the plugins, is the same with and without that member.
pub proof fn lemma_skipped_member_leaves_plugin(
    config_file: Seq<char>,
    directory: Seq<char>,
    with: Json,
    without: Json,
    before: Seq<(String, Json)>,
    bad: (String, Json),
    after: Seq<(String, Json)>,
)
    requires
        with matches Json::Object(members) && members@ == before.push(bad) + after,
        without matches Json::Object(members) && members@ == before + after,
        accepted(config_file, directory, bad) is Err,
    ensures
        loaded_from(config_file, directory, with).plugin == loaded_from(
            config_file,
            directory,
            without,
        ).plugin,
{
    lemma_invalid_entry_is_skipped(before, bad, after, config_file, directory);
}

/// A value that is no snippet is skipped, under any name and in any source.
pub proof fn lemma_no_snippet_is_skipped(
    config_file: Seq<char>,
    directory: Seq<char>,
    member: (String, Json),
)
    requires
        snippet_of(member.1) is None,
    ensures
        accepted(config_file, directory, member) == Err::<SnippetView, WarningView>(
            WarningView::InvalidEntry(member.0@),
        ),
{
}

/// A source has snippets exactly where one of its members is accepted.
pub proof fn lemma_snippets_iff_accepted_member(
    members: Seq<(String, Json)>,
    config_file: Seq<char>,
    directory: Seq<char>,
)
    ensures
        named_snippets(members, config_file, directory).len() > 0 <==> exists|i: int|
            0 <= i < members.len() && accepted(config_file, directory, #[trigger] members[i]) is Ok,
    decreases members.len(),
{
    if members.len() > 0 {
        let front = members.drop_last();
        lemma_snippets_iff_accepted_member(front, config_file, directory);
        lemma_named_snippets_lawful(front, config_file, directory);
        match accepted(config_file, directory, members.last()) {
            Ok(snippet) => {
                lemma_inserted(
                    named_snippets(front, config_file, directory),
                    members.last().0@,
                    snippet,
                );
            },
            Err(_) => {
                if named_snippets(front, config_file, directory).len() > 0 {
                    let i = choose|i: int|
                        0 <= i < front.len() && accepted(
                            config_file,
                            directory,
                            #[trigger] front[i],
                        ) is Ok;
                    assert(members[i] == front[i]);
                } else {
                    assert forall|i: int| 0 <= i < members.len() implies !(accepted(
                        config_file,
                        directory,
                        #[trigger] members[i],
                    ) is Ok) by {
                        if i < front.len() {
                            assert(members[i] == front[i]);
                        }
                    }
                }
            },
        }
    }
}

/// No valid entry, no source: a document gives a plugin exactly where it is
/// an object of which a member is accepted; the plugin then is as a loaded
/// one is: it holds a snippet, no name twice, and its entries can be
/// written as lines.
pub proof fn lemma_plugin_iff_accepted_member(
    config_file: Seq<char>,
    directory: Seq<char>,
    document: Json,
)
    ensures
        loaded_from(config_file, directory, document).plugin is Some <==> (document matches Json::Object(
            members,
        ) && exists|i: int|
            0 <= i < members@.len() && accepted(config_file, directory, #[trigger] members@[i])
                is Ok),
        loaded_from(config_file, directory, document).plugin matches Some(plugin) ==> lawful(plugin),
{
    match document {
        Json::Object(members) => {
            lemma_snippets_iff_accepted_member(members@, config_file, directory);
            lemma_named_snippets_lawful(members@, config_file, directory);
        },
        _ => {},
    }
}

/// `snippet` with its entry point resolved against `directory`.
pub fn resolve(directory: &str, snippet: CommandSnippet) -> (settled: CommandSnippet)
    ensures
        settled@ == resolved(directory@, snippet@),
{
    let entry_point = match &snippet.entry_point {
        Some(path) => Some(join_path(directory, path.as_str())),
        None => None,
    };
    CommandSnippet {
        labels: snippet.labels,
        description: snippet.description,
        executable: snippet.executable,
        entry_point,
        args: snippet.args,
        if_shell: snippet.if_shell,
    }
}

fn nothing(warning: Warning) -> (loaded: Loaded)
    ensures
        loaded@ == nothing_but(warning@),
{
    let mut warnings: Vec<Warning> = Vec::new();
    warnings.push(warning);
    let loaded = Loaded { plugin: None, warnings };
    assert(loaded@.warnings =~= seq![warning@]);
    loaded
}

/// The view of what a member gives.
pub open spec fn verdict_view(verdict: Result<CommandSnippet, Warning>) -> Result<
    SnippetView,
    WarningView,
> {
    match verdict {
        Ok(snippet) => Ok(snippet@),
        Err(warning) => Err(warning@),
    }
}

/// What the member `name` with the value `json` gives in the source file
/// `config_file` in `directory`: its snippet, resolved, or the warning with
/// which it is skipped.
pub fn accept(config_file: &str, directory: &str, name: &String, json: &Json) -> (verdict: Result<
    CommandSnippet,
    Warning,
>)
    ensures
        verdict_view(verdict) == accepted(config_file@, directory@, (*name, *json)),
{
    match decode_snippet(json) {
        None => Err(Warning::InvalidEntry(name.clone())),
        Some(snippet) => {
            let entry = FullCommandSnippet::new(name.as_str(), config_file, &snippet);
            if is_separable(&entry) {
                Ok(resolve(directory, snippet))
            } else {
                Err(Warning::Ambiguous(name.clone()))
            }
        },
    }
}

/// What the document of the source file `config_file` in `directory`
/// gives: the plugin of its snippets, where it has one, and the warnings.
pub fn plugin_from_document(config_file: &str, directory: &str, document: &Json) -> (loaded: Loaded)
    ensures
        loaded@ == loaded_from(config_file@, directory@, *document),
        loaded.plugin matches Some(plugin) ==> plugin.well_formed(),
{
    match document {
        Json::Object(members) => {
            let mut commands: Vec<NamedSnippet> = Vec::new();
            let mut warnings: Vec<Warning> = Vec::new();
            let mut i: usize = 0;
            while i < members.len()
                invariant
                    i <= members.len(),
                    named(commands@) == named_snippets(
                        members@.take(i as int),
                        config_file@,
                        directory@,
                    ),
                    warning_views(warnings@) == entry_warnings(
                        members@.take(i as int),
                        config_file@,
                        directory@,
                    ),
                decreases members.len() - i,
            {
                assert(members@.take(i + 1).drop_last() == members@.take(i as int));
                match accept(config_file, directory, &members[i].0, &members[i].1) {
                    Ok(snippet) => {
                        insert(&mut commands, members[i].0.clone(), snippet);
                    },
                    Err(warning) => {
                        warnings.push(warning);
                    },
                }
                i = i + 1;
            }
            assert(members@.take(i as int) == members@);
            proof {
                lemma_named_snippets_lawful(members@, config_file@, directory@);
            }
            if commands.len() == 0 {
                assert(warning_views(warnings@.push(Warning::NoValidCommands)) =~= warning_views(
                    warnings@,
                ).push(WarningView::NoValidCommands));
                warnings.push(Warning::NoValidCommands);
                Loaded { plugin: None, warnings }
            } else {
                Loaded {
                    plugin: Some(
                        Plugin {
                            plugin_dir: owned(directory),
                            config_file: owned(config_file),
                            commands,
                        },
                    ),
                    warnings,
                }
            }
        },
        _ => nothing(Warning::NotAnObject),
    }
}

/// Loads the source file `config_file`, whose directory is `directory`,
/// from what was found at its path. The load fails only for a file that is
/// there and has no directory.
pub fn load_commands_from_config(
    config_file: &str,
    directory: Option<&str>,
    found: &SourceFile,
) -> (outcome: Result<Loaded, LoadError>)
    ensures
        outcome_view(outcome) == loading(config_file@, optional_str(directory), *found),
        outcome matches Ok(loaded) ==> (loaded.plugin matches Some(plugin) ==> plugin.well_formed()),
{
    match found {
        SourceFile::Missing => Ok(nothing(Warning::Missing)),
        SourceFile::NotAFile => Ok(nothing(Warning::NotAFile)),
        SourceFile::Unreadable => match directory {
            None => Err(LoadError::NoDirectory),
            Some(_) => Ok(nothing(Warning::Failed(LoadError::Unreadable))),
        },
        SourceFile::Text(text) => match directory {
            None => Err(LoadError::NoDirectory),
            Some(dir) => match parse_json(text.as_str()) {
                None => Ok(nothing(Warning::Failed(LoadError::InvalidJson))),
                Some(document) => Ok(plugin_from_document(config_file, dir, &document)),
            },
        },
    }
}

/// Loads the source of the simple commands below the home directory
/// `home`, from what was found at its path. The file has its directory, so
/// the load does not fail.
pub fn load_simple_plugin(home: &str, found: &SourceFile) -> (outcome: Result<Loaded, LoadError>)
    ensures
        outcome_view(outcome) == loading(
            simple_command_file(home@),
            Some(config_dir(home@)),
            *found,
        ),
        outcome is Ok,
        outcome matches Ok(loaded) ==> (loaded.plugin matches Some(plugin) ==> plugin.well_formed()),
{
    let file = get_simple_command_file(home);
    let directory = get_config_dir(home);
    load_commands_from_config(file.as_str(), Some(directory.as_str()), found)
}

/// An entry of the plugins directory: its name, whether it is a directory,
/// and what was found at the path of its source file.
#[derive(Debug, Clone, PartialEq, Eq)]
pub struct PluginEntry {
    pub name: String,
    pub is_dir: bool,
    pub found: SourceFile,
}

/// What the load of the plugin of `entry` gives. An entry that is no
/// directory is no plugin.
pub open spec fn plugin_loading(plugins: Seq<char>, entry: PluginEntry) -> Option<
    Result<LoadedView, LoadError>,
> {
    if entry.is_dir {
        Some(
            loading(
                plugin_file(plugins, entry.name@),
                Some(plugin_dir(plugins, entry.name@)),
                entry.found,
            ),
        )
    } else {
        None
    }
}

/// The plugin of an outcome, where it has one.
pub open spec fn plugin_of(outcome: Option<Result<LoadedView, LoadError>>) -> Seq<PluginView> {
    match outcome {
        Some(Ok(loaded)) => match loaded.plugin {
            Some(plugin) => seq![plugin],
            None => Seq::empty(),
        },
        _ => Seq::empty(),
    }
}

/// The plugins of the entries of the plugins directory `plugins`, in
/// order. An entry whose source gives no plugin adds nothing.
pub open spec fn plugins_of(plugins: Seq<char>, entries: Seq<PluginEntry>) -> Seq<PluginView>
    decreases entries.len(),
{
    if entries.len() == 0 {
        Seq::empty()
    } else {
        plugins_of(plugins, entries.drop_last()) + plugin_of(
            plugin_loading(plugins, entries.last()),
        )
    }
}

/// Loads the plugin of `entry`, an entry of the plugins directory `plugins`.
pub fn load_plugin(plugins: &str, entry: &PluginEntry) -> (outcome: Option<Result<Loaded, LoadError>>)
    ensures
        match outcome {
            Some(loaded) => plugin_loading(plugins@, *entry) == Some(outcome_view(loaded))
                && loaded is Ok,
            None => plugin_loading(plugins@, *entry) is None,
        },
        outcome matches Some(Ok(loaded)) ==> (loaded.plugin matches Some(plugin)
            ==> plugin.well_formed()),
{
    if !entry.is_dir {
        return None;
    }
    let file = get_plugin_file(plugins, entry.name.as_str());
    let directory = get_plugin_dir(plugins, entry.name.as_str());
    Some(load_commands_from_config(file.as_str(), Some(directory.as_str()), &entry.found))
}

/// A warning with the source that it is about.
#[derive(Debug, Clone, PartialEq, Eq)]
pub struct Notice {
    /// What the source is called in reports.
    pub source: String,
    pub warning: Warning,
}

/// What a [`Notice`] holds.
pub struct NoticeView {
    pub source: Seq<char>,
    pub warning: WarningView,
}

impl View for Notice {
    type V = NoticeView;

    open spec fn view(&self) -> NoticeView {
        NoticeView { source: self.source@, warning: self.warning@ }
    }
}

/// The views of the notices `v`.
pub open spec fn notice_views(v: Seq<Notice>) -> Seq<NoticeView> {
    v.map_values(|n: Notice| n@)
}

/// What is reported of the load of the source called `label`: its
/// warnings in order, or its failure.
pub open spec fn notices_of(label: Seq<char>, outcome: Result<LoadedView, LoadError>) -> Seq<
    NoticeView,
> {
    match outcome {
        Ok(loaded) => loaded.warnings.map_values(
            |w: WarningView| NoticeView { source: label, warning: w },
        ),
        Err(error) => seq![NoticeView { source: label, warning: WarningView::Failed(error) }],
    }
}

/// What the source of the simple commands is called in reports.
pub open spec fn simple_label() -> Seq<char> {
    "simple commands"@
}

/// What the source of the plugin `name` is called in reports.
pub open spec fn plugin_label(name: Seq<char>) -> Seq<char> {
    "plugin "@ + name
}

/// What is reported of one entry of the plugins directory.
pub open spec fn entry_notices(plugins: Seq<char>, entry: PluginEntry) -> Seq<NoticeView> {
    match plugin_loading(plugins, entry) {
        Some(outcome) => notices_of(plugin_label(entry.name@), outcome),
        None => Seq::empty(),
    }
}

/// What is reported of the entries of the plugins directory, in order.
pub open spec fn plugin_notices(plugins: Seq<char>, entries: Seq<PluginEntry>) -> Seq<NoticeView>
    decreases entries.len(),
{
    if entries.len() == 0 {
        Seq::empty()
    } else {
        plugin_notices(plugins, entries.drop_last()) + entry_notices(plugins, entries.last())
    }
}

/// The plugins that were loaded, and what is reported of their sources.
#[derive(Debug, Clone, PartialEq, Eq)]
pub struct LoadedPlugins {
    pub plugins: Vec<Plugin>,
    pub notices: Vec<Notice>,
}

fn copy_warning(warning: &Warning) -> (copy: Warning)
    ensures
        copy@ == warning@,
{
    match warning {
        Warning::Missing => Warning::Missing,
        Warning::NotAFile => Warning::NotAFile,
        Warning::NotAnObject => Warning::NotAnObject,
        Warning::InvalidEntry(name) => Warning::InvalidEntry(name.clone()),
        Warning::Ambiguous(name) => Warning::Ambiguous(name.clone()),
        Warning::NoValidCommands => Warning::NoValidCommands,
        Warning::Failed(error) => Warning::Failed(*error),
    }
}

/// Adds to `notices` what is reported of the load of the source called
/// `label`.
pub fn note(label: &str, outcome: &Result<Loaded, LoadError>, notices: &mut Vec<Notice>)
    ensures
        notice_views(final(notices)@) == notice_views(old(notices)@) + notices_of(
            label@,
            outcome_view(*outcome),
        ),
{
    let ghost before = notice_views(notices@);
    match outcome {
        Ok(loaded) => {
            let ghost all = notices_of(label@, Ok(loaded@));
            let mut i: usize = 0;
            while i < loaded.warnings.len()
                invariant
                    i <= loaded.warnings.len(),
                    all == notices_of(label@, Ok(loaded@)),
                    all.len() == loaded.warnings.len(),
                    notice_views(notices@) == before + all.take(i as int),
                decreases loaded.warnings.len() - i,
            {
                let notice = Notice { source: owned(label), warning: copy_warning(&loaded.warnings[i]) };
                assert(notice_views(notices@.push(notice)) =~= notice_views(notices@).push(notice@));
                notices.push(notice);
                i = i + 1;
            }
        },
        Err(error) => {
            let notice = Notice { source: owned(label), warning: Warning::Failed(*error) };
            notices.push(notice);
        },
    }
}

/// What the source of the plugin `name` is called in reports.
pub fn plugin_source_name(name: &str) -> (label: String)
    ensures
        label@ == plugin_label(name@),
{
    let mut label = owned("plugin ");
    label.append(name);
    label
}

/// Loads the plugins of the entries of the plugins directory `plugins`,
/// in order. No entry makes the others fail: one that is no directory adds
/// nothing, one whose load gives no plugin adds what is reported of it.
pub fn load_plugins(plugins: &str, entries: &Vec<PluginEntry>) -> (loaded: LoadedPlugins)
    ensures
        plugin_views(loaded.plugins@) == plugins_of(plugins@, entries@),
        notice_views(loaded.notices@) == plugin_notices(plugins@, entries@),
        forall|i: int|
            0 <= i < loaded.plugins.len() ==> (#[trigger] loaded.plugins[i]).well_formed(),
{
    let mut found: Vec<Plugin> = Vec::new();
    let mut notices: Vec<Notice> = Vec::new();
    let mut i: usize = 0;
    while i < entries.len()
        invariant
            i <= entries.len(),
            plugin_views(found@) == plugins_of(plugins@, entries@.take(i as int)),
            notice_views(notices@) == plugin_notices(plugins@, entries@.take(i as int)),
            forall|k: int|
                0 <= k < found.len() ==> (#[trigger] found[k]).well_formed(),
        decreases entries.len() - i,
    {
        assert(entries@.take(i + 1).drop_last() == entries@.take(i as int));
        match load_plugin(plugins, &entries[i]) {
            Some(outcome) => {
                let label = plugin_source_name(entries[i].name.as_str());
                note(label.as_str(), &outcome, &mut notices);
                match outcome {
                    Ok(Loaded { plugin: Some(plugin), warnings: _ }) => {
                        found.push(plugin);
                    },
                    _ => {},
                }
            },
            None => {},
        }
        i = i + 1;
    }
    assert(entries@.take(i as int) == entries@);
    LoadedPlugins { plugins: found, notices }
}

} // verus!
