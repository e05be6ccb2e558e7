//! Paths, held as text with `/` between their components, and the places of
//! the tool's files below the user's home directory.

use crate::text::{chars_of, owned};
use vstd::prelude::*;

verus! {

/// Whether `path` is absolute: it begins at the root.
pub open spec fn is_absolute(path: Seq<char>) -> bool {
    path.len() > 0 && path[0] == '/'
}

/// `path` adjoined to `base`. An absolute `path` replaces `base`. A
/// relative one follows `base` and one separator, which is not added where
/// `base` is empty or ends with one.
pub open spec fn path_joined(base: Seq<char>, path: Seq<char>) -> Seq<char> {
    if is_absolute(path) {
        path
    } else if base.len() == 0 || base.last() == '/' {
        base + path
    } else {
        base + seq!['/'] + path
    }
}

/// The directory of the tool's files, below the home directory `home`.
pub open spec fn config_dir(home: Seq<char>) -> Seq<char> {
    path_joined(home, ".config/yk"@)
}

/// The file of the settings.
pub open spec fn config_file(home: Seq<char>) -> Seq<char> {
    path_joined(config_dir(home), "config.json"@)
}

/// The directory that holds one directory for each plugin.
pub open spec fn plugins_dir(home: Seq<char>) -> Seq<char> {
    path_joined(config_dir(home), "plugins"@)
}

/// The source file of the simple commands.
pub open spec fn simple_command_file(home: Seq<char>) -> Seq<char> {
    path_joined(config_dir(home), "simple_commands.json"@)
}

/// The directory of the plugin `name` in the plugins directory `plugins`.
pub open spec fn plugin_dir(plugins: Seq<char>, name: Seq<char>) -> Seq<char> {
    path_joined(plugins, name)
}

/// The source file of the plugin `name`: the file in its directory that
/// is named after it.
pub open spec fn plugin_file(plugins: Seq<char>, name: Seq<char>) -> Seq<char> {
    path_joined(plugin_dir(plugins, name), name + ".json"@)
}

/// Joining is idempotent on absolute paths: an absolute path stays as it
/// is under any base, and so does a path that was joined to an absolute
/// base when it is joined to a base once more.
pub proof fn lemma_join_settles(base: Seq<char>, other: Seq<char>, path: Seq<char>)
    ensures
        is_absolute(path) ==> path_joined(base, path) == path,
        is_absolute(base) ==> is_absolute(path_joined(base, path)),
        is_absolute(base) ==> path_joined(other, path_joined(base, path)) == path_joined(
            base,
            path,
        ),
{
}

/// Whether `path` is absolute.
pub fn absolute(path: &str) -> (yes: bool)
    ensures
        yes == is_absolute(path@),
{
    let chars = chars_of(path);
    chars.len() > 0 && chars[0] == '/'
}

/// `path` adjoined to `base`.
pub fn join_path(base: &str, path: &str) -> (whole: String)
    ensures
        whole@ == path_joined(base@, path@),
{
    if absolute(path) {
        return owned(path);
    }
    let front = chars_of(base);
    let mut whole = owned(base);
    if front.len() > 0 && front[front.len() - 1] != '/' {
        proof {
            reveal_strlit("/");
        }
        whole.append("/");
    }
    whole.append(path);
    whole
}

/// The directory of the tool's files, below the home directory `home`.
pub fn get_config_dir(home: &str) -> (dir: String)
    ensures
        dir@ == config_dir(home@),
{
    join_path(home, ".config/yk")
}

/// The file of the settings.
pub fn get_config_file(home: &str) -> (file: String)
    ensures
        file@ == config_file(home@),
{
    join_path(get_config_dir(home).as_str(), "config.json")
}

/// The directory that holds one directory for each plugin.
pub fn get_plugins_dir(home: &str) -> (dir: String)
    ensures
        dir@ == plugins_dir(home@),
{
    join_path(get_config_dir(home).as_str(), "plugins")
}

/// The source file of the simple commands.
pub fn get_simple_command_file(home: &str) -> (file: String)
    ensures
        file@ == simple_command_file(home@),
{
    join_path(get_config_dir(home).as_str(), "simple_commands.json")
}

/// The directory of the plugin `name` in the plugins directory `plugins`.
pub fn get_plugin_dir(plugins: &str, name: &str) -> (dir: String)
    ensures
        dir@ == plugin_dir(plugins@, name@),
{
    join_path(plugins, name)
}

/// The source file of the plugin `name` in the plugins directory `plugins`.
pub fn get_plugin_file(plugins: &str, name: &str) -> (file: String)
    ensures
        file@ == plugin_file(plugins@, name@),
{
    let mut file_name = owned(name);
    file_name.append(".json");
    join_path(get_plugin_dir(plugins, name).as_str(), file_name.as_str())
}

} // verus!
