//! The settings of the tool, and the arguments that configure the selector.

use crate::codec::{delimiter, delimiter_text};
use crate::text::{owned, texts};
use vstd::prelude::*;

verus! {

/// The settings: the programs to call, and what is done with a chosen
/// command.
#[derive(Debug, Clone, PartialEq, Eq)]
pub struct YkConfig {
    /// The selector.
    pub fzf_executable: String,
    /// The program that highlights the preview.
    pub rg_executable: String,
    /// The editor that opens a source file.
    pub editor: String,
    /// Whether a chosen command is run.
    pub if_run: bool,
    /// Whether the user is asked before a command is run.
    pub if_run_confirm: bool,
    /// Whether a chosen command is copied to the clipboard.
    pub if_yank: bool,
}

/// What a [`YkConfig`] holds.
pub struct ConfigView {
    pub fzf_executable: Seq<char>,
    pub rg_executable: Seq<char>,
    pub editor: Seq<char>,
    pub if_run: bool,
    pub if_run_confirm: bool,
    pub if_yank: bool,
}

impl View for YkConfig {
    type V = ConfigView;

    open spec fn view(&self) -> ConfigView {
        ConfigView {
            fzf_executable: self.fzf_executable@,
            rg_executable: self.rg_executable@,
            editor: self.editor@,
            if_run: self.if_run,
            if_run_confirm: self.if_run_confirm,
            if_yank: self.if_yank,
        }
    }
}

/// The settings of a fresh installation: `fzf` selects, `rg` highlights,
/// `hx` edits; commands are copied, and run after the user has confirmed.
pub open spec fn default_settings() -> ConfigView {
    ConfigView {
        fzf_executable: "fzf"@,
        rg_executable: "rg"@,
        editor: "hx"@,
        if_run: true,
        if_run_confirm: true,
        if_yank: true,
    }
}

impl Default for YkConfig {
    fn default() -> (config: YkConfig)
        ensures
            config@ == default_settings(),
    {
        YkConfig {
            fzf_executable: owned("fzf"),
            rg_executable: owned("rg"),
            editor: owned("hx"),
            if_run: true,
            if_run_confirm: true,
            if_yank: true,
        }
    }
}

/// The command that the selector runs to preview a line: the highlighter
/// `highlighter` searches the source file, the fourth field, for the name,
/// the second.
pub open spec fn preview_command(highlighter: Seq<char>) -> Seq<char> {
    highlighter + " --color=always -A 20 {2} {4}"@
}

/// The arguments of the selector: the delimiter of the fields; the first
/// three fields shown and searched; a border; a list that wraps around; the
/// prompt; the preview and its window; escape and interrupt abort.
pub open spec fn selector_arguments(config: ConfigView) -> Seq<Seq<char>> {
    seq![
        "--delimiter="@ + delimiter(),
        "--with-nth=1,2,3"@,
        "--border"@,
        "--cycle"@,
        "--prompt=Select a command \u{1F50D}: "@,
        "--preview="@ + preview_command(config.rg_executable),
        "--preview-window=right:45%"@,
        "--bind=esc:abort,ctrl-c:abort"@,
    ]
}

impl YkConfig {
    /// The arguments with which the selector is started.
    pub fn selector_arguments(&self) -> (arguments: Vec<String>)
        ensures
            texts(arguments@) == selector_arguments(self@),
    {
        let mut delimiter_argument = owned("--delimiter=");
        delimiter_argument.append(delimiter_text());
        let mut preview_argument = owned("--preview=");
        preview_argument.append(self.rg_executable.as_str());
        preview_argument.append(" --color=always -A 20 {2} {4}");
        assert(preview_argument@ =~= "--preview="@ + preview_command(self@.rg_executable));
        let mut arguments: Vec<String> = Vec::new();
        arguments.push(delimiter_argument);
        arguments.push(owned("--with-nth=1,2,3"));
        arguments.push(owned("--border"));
        arguments.push(owned("--cycle"));
        arguments.push(owned("--prompt=Select a command \u{1F50D}: "));
        arguments.push(preview_argument);
        arguments.push(owned("--preview-window=right:45%"));
        arguments.push(owned("--bind=esc:abort,ctrl-c:abort"));
        arguments
    }
}

} // verus!
