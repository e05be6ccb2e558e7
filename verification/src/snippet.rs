//! Command snippets as a source file defines them, and the command line that
//! a snippet stands for.

use crate::text::{clone_optional, clone_texts, join, joined, lemma_texts_push, texts};
use vstd::prelude::*;

verus! {

/// A named, reusable command: a program, an entry-point script, arguments,
/// and what is shown of it. Paths are held as text.
#[derive(Debug, Clone, PartialEq, Eq)]
pub struct CommandSnippet {
    pub labels: Vec<String>,
    pub description: Option<String>,
    pub executable: Option<String>,
    pub entry_point: Option<String>,
    pub args: Vec<String>,
    pub if_shell: bool,
}

/// What a [`CommandSnippet`] holds.
pub struct SnippetView {
    pub labels: Seq<Seq<char>>,
    pub description: Option<Seq<char>>,
    pub executable: Option<Seq<char>>,
    pub entry_point: Option<Seq<char>>,
    pub args: Seq<Seq<char>>,
    pub if_shell: bool,
}

/// The view of a text that may be absent.
pub open spec fn optional_text(s: Option<String>) -> Option<Seq<char>> {
    match s {
        Some(text) => Some(text@),
        None => None,
    }
}

impl View for CommandSnippet {
    type V = SnippetView;

    open spec fn view(&self) -> SnippetView {
        SnippetView {
            labels: texts(self.labels@),
            description: optional_text(self.description),
            executable: optional_text(self.executable),
            entry_point: optional_text(self.entry_point),
            args: texts(self.args@),
            if_shell: self.if_shell,
        }
    }
}

/// A sequence of one text where there is one, of none where there is not.
pub open spec fn one_or_none(s: Option<Seq<char>>) -> Seq<Seq<char>> {
    match s {
        Some(text) => seq![text],
        None => Seq::<Seq<char>>::empty(),
    }
}

/// The parts of a command line: the executable and the entry point, as far
/// as they are present, then the arguments.
pub open spec fn command_parts(
    executable: Option<Seq<char>>,
    entry_point: Option<Seq<char>>,
    args: Seq<Seq<char>>,
) -> Seq<Seq<char>> {
    one_or_none(executable) + one_or_none(entry_point) + args
}

/// The complete command: the parts joined by single spaces; the empty text
/// where there is no part.
pub open spec fn complete_command(
    executable: Option<Seq<char>>,
    entry_point: Option<Seq<char>>,
    args: Seq<Seq<char>>,
) -> Seq<char> {
    joined(command_parts(executable, entry_point, args), seq![' '])
}

impl CommandSnippet {
    /// The complete command of this snippet.
    pub open spec fn command(&self) -> Seq<char> {
        complete_command(self@.executable, self@.entry_point, self@.args)
    }

    /// A copy of this snippet.
    pub fn duplicate(&self) -> (copy: CommandSnippet)
        ensures
            copy@ == self@,
    {
        CommandSnippet {
            labels: clone_texts(&self.labels),
            description: clone_optional(&self.description),
            executable: clone_optional(&self.executable),
            entry_point: clone_optional(&self.entry_point),
            args: clone_texts(&self.args),
            if_shell: self.if_shell,
        }
    }

    /// The complete command of this snippet: executable, entry point and
    /// arguments, as far as present, joined by single spaces.
    pub fn complete_command(&self) -> (command: String)
        ensures
            command@ == self.command(),
    {
        let mut parts: Vec<String> = Vec::new();
        if let Some(executable) = &self.executable {
            parts.push(executable.clone());
        }
        if let Some(entry_point) = &self.entry_point {
            parts.push(entry_point.clone());
        }
        assert(texts(parts@) == one_or_none(self@.executable) + one_or_none(self@.entry_point));
        let mut i: usize = 0;
        let ghost head = texts(parts@);
        while i < self.args.len()
            invariant
                i <= self.args.len(),
                texts(parts@) == head + texts(self.args@).take(i as int),
            decreases self.args.len() - i,
        {
            proof {
                lemma_texts_push(parts@, self.args@[i as int]);
            }
            parts.push(self.args[i].clone());
            i = i + 1;
        }
        assert(texts(self.args@).take(i as int) == texts(self.args@));
        proof {
            reveal_strlit(" ");
            assert(" "@ == seq![' ']);
        }
        join(&parts, " ")
    }
}

} // verus!
