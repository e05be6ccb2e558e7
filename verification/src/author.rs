//! Authoring a simple command from the lines that the user typed.

use crate::dispatch::{confirmed, confirms};
use crate::snippet::{CommandSnippet, SnippetView};
use crate::text::{owned, split_words, trim, trimmed, words};
use vstd::prelude::*;

verus! {

/// The text of an answer: the line trimmed, or none where nothing is left.
pub open spec fn answered_text(line: Seq<char>) -> Option<Seq<char>> {
    if trimmed(line).len() == 0 {
        None
    } else {
        Some(trimmed(line))
    }
}

/// The snippet that the answers define: the words of the first line are
/// its labels, the trimmed second and third its description and
/// executable, as far as anything was typed, the words of the fourth its
/// arguments, and the fifth, where it confirms, makes it a shell command.
/// A simple command has no entry point.
pub open spec fn answered_snippet(
    labels: Seq<char>,
    description: Seq<char>,
    executable: Seq<char>,
    args: Seq<char>,
    shell: Seq<char>,
) -> SnippetView {
    SnippetView {
        labels: words(labels),
        description: answered_text(description),
        executable: answered_text(executable),
        entry_point: None,
        args: words(args),
        if_shell: confirmed(shell),
    }
}

/// The text of an answer: the line trimmed, or none where nothing is left.
pub fn answer_text(line: &str) -> (text: Option<String>)
    ensures
        crate::snippet::optional_text(text) == answered_text(line@),
{
    let bare = trim(line);
    if bare.is_empty() {
        None
    } else {
        Some(owned(bare))
    }
}

/// The name of a command from the line typed for it: the line trimmed. A
/// command needs a name: none is given where nothing is left.
pub fn command_name(line: &str) -> (name: Option<String>)
    ensures
        crate::snippet::optional_text(name) == answered_text(line@),
{
    answer_text(line)
}

/// The snippet that the answers define.
pub fn snippet_from_answers(
    labels: &str,
    description: &str,
    executable: &str,
    args: &str,
    shell: &str,
) -> (snippet: CommandSnippet)
    ensures
        snippet@ == answered_snippet(labels@, description@, executable@, args@, shell@),
{
    CommandSnippet {
        labels: split_words(labels),
        description: answer_text(description),
        executable: answer_text(executable),
        entry_point: None,
        args: split_words(args),
        if_shell: confirms(shell),
    }
}

} // verus!
