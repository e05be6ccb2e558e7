//! Dispatch: what is done with the chosen entry. The decisions are a state
//! machine; each step names one request to the outside (a file to look for,
//! a program to run, a text to copy, a question to ask), and the outside
//! answers with one event.

use crate::catalog::{AllCommandSnippets, EntryView, FullCommandSnippet};
use crate::codec::{Reply, ReplyView};
use crate::settings::{ConfigView, YkConfig};
use crate::text::{owned, same_text, split_words, texts, trim, trimmed, words};
use vstd::prelude::*;

verus! {

/// How a command is executed.
#[derive(Debug, Clone, PartialEq, Eq)]
pub enum Execution {
    /// The whole command is handed to the platform's command interpreter as
    /// one argument.
    Shell(String),
    /// The program is started directly with these arguments, no shell between.
    Direct { program: String, args: Vec<String> },
}

/// What an [`Execution`] holds.
pub enum ExecutionView {
    Shell(Seq<char>),
    Direct { program: Seq<char>, args: Seq<Seq<char>> },
}

impl View for Execution {
    type V = ExecutionView;

    open spec fn view(&self) -> ExecutionView {
        match self {
            Execution::Shell(command) => ExecutionView::Shell(command@),
            Execution::Direct { program, args } => ExecutionView::Direct {
                program: program@,
                args: texts(args@),
            },
        }
    }
}

/// How `command` is executed. In shell mode it goes whole to the
/// interpreter. Otherwise it is split at white space: the first word is the
/// program, the others its arguments; a command without a word names the
/// empty program, which cannot be started.
pub open spec fn execution_of(command: Seq<char>, shell: bool) -> ExecutionView {
    if shell {
        ExecutionView::Shell(command)
    } else if words(command).len() == 0 {
        ExecutionView::Direct { program: Seq::<char>::empty(), args: Seq::<Seq<char>>::empty() }
    } else {
        ExecutionView::Direct { program: words(command)[0], args: words(command).skip(1) }
    }
}

/// Whether `answer` confirms: trimmed, it is the letter `y`, small or capital.
pub open spec fn confirmed(answer: Seq<char>) -> bool {
    trimmed(answer) == seq!['y'] || trimmed(answer) == seq!['Y']
}

/// Where the dispatch of one entry stands.
#[derive(Debug, Clone, Copy, PartialEq, Eq)]
pub enum Stage {
    /// Edit branch: waiting to hear whether the source file exists.
    CheckingSource,
    /// Edit branch: waiting for the editor to end.
    Editing,
    /// Waiting to hear whether the command was copied to the clipboard.
    Copying,
    /// Waiting for the user's answer to the question whether to run.
    Confirming,
    /// Waiting for the command to end.
    Running,
    /// Nothing more is done.
    Finished,
}

/// How a dispatch ended.
#[derive(Debug, Clone, Copy, PartialEq, Eq)]
pub enum Outcome {
    /// The reply chose no entry.
    NoSelection,
    /// The source file of the entry does not exist.
    SourceMissing,
    /// The editor ended with success.
    EditorClosed,
    /// The editor could not be started or ended without success.
    EditorFailed,
    /// The command could not be copied to the clipboard; it was not run.
    ClipboardFailed,
    /// The settings do not ask for the command to be run.
    RunDisabled,
    /// The user did not confirm.
    Declined,
    /// The command ended with success.
    Succeeded,
    /// The command could not be started or ended without success.
    Failed,
    /// An event came that the stage had not asked for.
    OutOfTurn,
}

/// What the dispatcher asks of the outside.
#[derive(Debug, Clone, PartialEq, Eq)]
pub enum Request {
    /// Say whether this file exists.
    CheckSource(String),
    /// Run the editor on the file and wait for it.
    OpenEditor { editor: String, file: String },
    /// Write this text to the clipboard.
    Copy(String),
    /// Ask the user whether this command is to be run.
    Confirm(String),
    /// Execute the command and wait for it.
    Run(Execution),
    /// Nothing more: report the outcome.
    Finish(Outcome),
}

/// What a [`Request`] holds.
pub enum RequestView {
    CheckSource(Seq<char>),
    OpenEditor { editor: Seq<char>, file: Seq<char> },
    Copy(Seq<char>),
    Confirm(Seq<char>),
    Run(ExecutionView),
    Finish(Outcome),
}

impl View for Request {
    type V = RequestView;

    open spec fn view(&self) -> RequestView {
        match self {
            Request::CheckSource(file) => RequestView::CheckSource(file@),
            Request::OpenEditor { editor, file } => RequestView::OpenEditor {
                editor: editor@,
                file: file@,
            },
            Request::Copy(text) => RequestView::Copy(text@),
            Request::Confirm(command) => RequestView::Confirm(command@),
            Request::Run(execution) => RequestView::Run(execution@),
            Request::Finish(outcome) => RequestView::Finish(*outcome),
        }
    }
}

/// What the outside answers.
#[derive(Debug, Clone, PartialEq, Eq)]
pub enum Event {
    /// Whether the file exists.
    SourceFound(bool),
    /// The program ran to its end, with or without success.
    Exited { success: bool },
    /// The program could not be started.
    NotStarted,
    /// Whether the text was written to the clipboard.
    Copied(bool),
    /// The line that the user typed.
    Answered(String),
}

/// What an [`Event`] holds.
pub enum EventView {
    SourceFound(bool),
    Exited { success: bool },
    NotStarted,
    Copied(bool),
    Answered(Seq<char>),
}

impl View for Event {
    type V = EventView;

    open spec fn view(&self) -> EventView {
        match self {
            Event::SourceFound(found) => EventView::SourceFound(*found),
            Event::Exited { success } => EventView::Exited { success: *success },
            Event::NotStarted => EventView::NotStarted,
            Event::Copied(done) => EventView::Copied(*done),
            Event::Answered(answer) => EventView::Answered(answer@),
        }
    }
}

/// One step of a dispatch: the stage reached and the request made.
#[derive(Debug, Clone, PartialEq, Eq)]
pub struct Step {
    pub stage: Stage,
    pub request: Request,
}

/// What a [`Step`] holds.
pub struct StepView {
    pub stage: Stage,
    pub request: RequestView,
}

impl View for Step {
    type V = StepView;

    open spec fn view(&self) -> StepView {
        StepView { stage: self.stage, request: self.request@ }
    }
}

/// The last step, with its outcome.
pub open spec fn finished(outcome: Outcome) -> StepView {
    StepView { stage: Stage::Finished, request: RequestView::Finish(outcome) }
}

/// The step that executes the command of `entry`, in the mode that the
/// entry asks for.
pub open spec fn launched(entry: EntryView) -> StepView {
    StepView {
        stage: Stage::Running,
        request: RequestView::Run(execution_of(entry.complete_command, entry.snippet.if_shell)),
    }
}

/// The step after the clipboard: nothing more where the settings do not
/// run commands, a question where they ask first, else the execution.
pub open spec fn run_step(entry: EntryView, config: ConfigView) -> StepView {
    if !config.if_run {
        finished(Outcome::RunDisabled)
    } else if config.if_run_confirm {
        StepView { stage: Stage::Confirming, request: RequestView::Confirm(entry.complete_command) }
    } else {
        launched(entry)
    }
}

/// The first step for `entry`. With `edit` it looks for the source file.
/// Without, it copies the command where the settings say so, and else goes
/// on to run it.
pub open spec fn started(entry: EntryView, config: ConfigView, edit: bool) -> StepView {
    if edit {
        StepView { stage: Stage::CheckingSource, request: RequestView::CheckSource(entry.config_file) }
    } else if config.if_yank {
        StepView { stage: Stage::Copying, request: RequestView::Copy(entry.complete_command) }
    } else {
        run_step(entry, config)
    }
}

/// The step that follows `event` at `stage`.
///
/// Edit branch: a source file that exists is opened in the editor, and the
/// dispatch ends when the editor does, or at once where the file is
/// missing. Otherwise: a clipboard that failed ends the dispatch, and the
/// command is not run; one that took the command leads on to the run step.
/// An answer that confirms starts the command; any other ends the dispatch.
/// The dispatch ends when the command does. An event that the stage did not
/// ask for ends it too.
pub open spec fn advanced(
    entry: EntryView,
    config: ConfigView,
    stage: Stage,
    event: EventView,
) -> StepView {
    match (stage, event) {
        (Stage::CheckingSource, EventView::SourceFound(found)) => if found {
            StepView {
                stage: Stage::Editing,
                request: RequestView::OpenEditor { editor: config.editor, file: entry.config_file },
            }
        } else {
            finished(Outcome::SourceMissing)
        },
        (Stage::Editing, EventView::Exited { success }) => if success {
            finished(Outcome::EditorClosed)
        } else {
            finished(Outcome::EditorFailed)
        },
        (Stage::Editing, EventView::NotStarted) => finished(Outcome::EditorFailed),
        (Stage::Copying, EventView::Copied(done)) => if done {
            run_step(entry, config)
        } else {
            finished(Outcome::ClipboardFailed)
        },
        (Stage::Confirming, EventView::Answered(answer)) => if confirmed(answer) {
            launched(entry)
        } else {
            finished(Outcome::Declined)
        },
        (Stage::Running, EventView::Exited { success }) => if success {
            finished(Outcome::Succeeded)
        } else {
            finished(Outcome::Failed)
        },
        (Stage::Running, EventView::NotStarted) => finished(Outcome::Failed),
        _ => finished(Outcome::OutOfTurn),
    }
}

/// The first step after the selector's reply: the first step for the
/// chosen entry, or the end at once where the reply chose none.
pub open spec fn begun(
    catalog: Seq<EntryView>,
    reply: ReplyView,
    config: ConfigView,
    edit: bool,
) -> StepView {
    match reply {
        ReplyView::Chosen(index) => if index < catalog.len() {
            started(catalog[index as int], config, edit)
        } else {
            finished(Outcome::NoSelection)
        },
        _ => finished(Outcome::NoSelection),
    }
}

/// The requests of a dispatch that stands at `step` and then meets
/// `events`, one after the other: that of `step`, then one for each event.
pub open spec fn requests_from(
    entry: EntryView,
    config: ConfigView,
    step: StepView,
    events: Seq<EventView>,
) -> Seq<RequestView>
    decreases events.len(),
{
    if events.len() == 0 {
        seq![step.request]
    } else {
        seq![step.request] + requests_from(
            entry,
            config,
            advanced(entry, config, step.stage, events[0]),
            events.drop_first(),
        )
    }
}

/// Every request of the dispatch of `entry` that meets `events`.
pub open spec fn session(
    entry: EntryView,
    config: ConfigView,
    edit: bool,
    events: Seq<EventView>,
) -> Seq<RequestView> {
    requests_from(entry, config, started(entry, config, edit), events)
}

/// Whether a request acts on the command: copies it, asks whether to run
/// it, or runs it.
pub open spec fn acts_on_command(request: RequestView) -> bool {
    request is Copy || request is Confirm || request is Run
}

/// Whether a stage belongs to the edit branch, or is the end.
pub open spec fn edit_stage(stage: Stage) -> bool {
    stage == Stage::CheckingSource || stage == Stage::Editing || stage == Stage::Finished
}

proof fn lemma_edit_stays_in_branch(
    entry: EntryView,
    config: ConfigView,
    step: StepView,
    events: Seq<EventView>,
)
    requires
        edit_stage(step.stage),
        !acts_on_command(step.request),
    ensures
        forall|i: int|
            0 <= i < requests_from(entry, config, step, events).len() ==> !acts_on_command(
                #[trigger] requests_from(entry, config, step, events)[i],
            ),
    decreases events.len(),
{
    if events.len() > 0 {
        let next = advanced(entry, config, step.stage, events[0]);
        lemma_edit_stays_in_branch(entry, config, next, events.drop_first());
        assert(requests_from(entry, config, step, events) == seq![step.request] + requests_from(
            entry,
            config,
            next,
            events.drop_first(),
        ));
    }
}

/// Edit is exclusive: a dispatch that was started to edit never copies the
/// command, never asks whether to run it and never runs it, whatever the
/// settings say and whatever events it meets.
pub proof fn lemma_edit_is_exclusive(entry: EntryView, config: ConfigView, events: Seq<EventView>)
    ensures
        forall|i: int|
            0 <= i < session(entry, config, true, events).len() ==> !acts_on_command(
                #[trigger] session(entry, config, true, events)[i],
            ),
{
    lemma_edit_stays_in_branch(entry, config, started(entry, config, true), events);
}

/// The end is final: after the last step every event is answered by the
/// end again, and nothing is asked of the outside.
pub proof fn lemma_finished_stays_finished(
    entry: EntryView,
    config: ConfigView,
    outcome: Outcome,
    events: Seq<EventView>,
)
    ensures
        forall|i: int|
            0 <= i < requests_from(entry, config, finished(outcome), events).len()
                ==> #[trigger] requests_from(entry, config, finished(outcome), events)[i] is Finish,
    decreases events.len(),
{
    if events.len() > 0 {
        lemma_finished_stays_finished(entry, config, Outcome::OutOfTurn, events.drop_first());
        assert(requests_from(entry, config, finished(outcome), events) == seq![
            RequestView::Finish(outcome),
        ] + requests_from(entry, config, finished(Outcome::OutOfTurn), events.drop_first()));
    }
}

/// No selection, no action: where the selector was aborted or printed
/// nothing, or its reply was no index of the catalog, the dispatch ends at
/// once.
pub proof fn lemma_no_selection_no_action(
    catalog: Seq<EntryView>,
    reply: ReplyView,
    config: ConfigView,
    edit: bool,
)
    requires
        !(reply is Chosen),
    ensures
        begun(catalog, reply, config, edit) == finished(Outcome::NoSelection),
{
}

/// Whether `answer` confirms: trimmed, it is the letter `y`, small or capital.
pub fn confirms(answer: &str) -> (yes: bool)
    ensures
        yes == confirmed(answer@),
{
    proof {
        reveal_strlit("y");
        reveal_strlit("Y");
        assert("y"@ =~= seq!['y']);
        assert("Y"@ =~= seq!['Y']);
    }
    let bare = trim(answer);
    same_text(bare, "y") || same_text(bare, "Y")
}

/// How `command` is executed: whole by the shell, or split into a program
/// and its arguments.
pub fn plan_execution(command: &str, shell: bool) -> (plan: Execution)
    ensures
        plan@ == execution_of(command@, shell),
{
    if shell {
        Execution::Shell(owned(command))
    } else {
        let mut found = split_words(command);
        if found.len() == 0 {
            assert(texts(found@) =~= Seq::<Seq<char>>::empty());
            Execution::Direct { program: String::new(), args: found }
        } else {
            let ghost all = found@;
            let program = found.remove(0);
            assert(texts(found@) =~= texts(all).skip(1));
            Execution::Direct { program, args: found }
        }
    }
}

fn finish(outcome: Outcome) -> (step: Step)
    ensures
        step@ == finished(outcome),
{
    Step { stage: Stage::Finished, request: Request::Finish(outcome) }
}

fn launch(entry: &FullCommandSnippet) -> (step: Step)
    ensures
        step@ == launched(entry@),
{
    Step {
        stage: Stage::Running,
        request: Request::Run(plan_execution(entry.complete_command.as_str(), entry.if_shell)),
    }
}

fn run_or_finish(entry: &FullCommandSnippet, config: &YkConfig) -> (step: Step)
    ensures
        step@ == run_step(entry@, config@),
{
    if !config.if_run {
        finish(Outcome::RunDisabled)
    } else if config.if_run_confirm {
        Step { stage: Stage::Confirming, request: Request::Confirm(entry.complete_command.clone()) }
    } else {
        launch(entry)
    }
}

/// The first step of the dispatch of `entry`.
pub fn start(entry: &FullCommandSnippet, config: &YkConfig, edit: bool) -> (step: Step)
    ensures
        step@ == started(entry@, config@, edit),
{
    if edit {
        Step { stage: Stage::CheckingSource, request: Request::CheckSource(entry.config_file.clone()) }
    } else if config.if_yank {
        Step { stage: Stage::Copying, request: Request::Copy(entry.complete_command.clone()) }
    } else {
        run_or_finish(entry, config)
    }
}

/// The step that follows `event` at `stage` of the dispatch of `entry`.
pub fn advance(entry: &FullCommandSnippet, config: &YkConfig, stage: Stage, event: &Event) -> (step:
    Step)
    ensures
        step@ == advanced(entry@, config@, stage, event@),
{
    match stage {
        Stage::CheckingSource => match event {
            Event::SourceFound(found) => if *found {
                Step {
                    stage: Stage::Editing,
                    request: Request::OpenEditor {
                        editor: config.editor.clone(),
                        file: entry.config_file.clone(),
                    },
                }
            } else {
                finish(Outcome::SourceMissing)
            },
            _ => finish(Outcome::OutOfTurn),
        },
        Stage::Editing => match event {
            Event::Exited { success } => if *success {
                finish(Outcome::EditorClosed)
            } else {
                finish(Outcome::EditorFailed)
            },
            Event::NotStarted => finish(Outcome::EditorFailed),
            _ => finish(Outcome::OutOfTurn),
        },
        Stage::Copying => match event {
            Event::Copied(done) => if *done {
                run_or_finish(entry, config)
            } else {
                finish(Outcome::ClipboardFailed)
            },
            _ => finish(Outcome::OutOfTurn),
        },
        Stage::Confirming => match event {
            Event::Answered(answer) => if confirms(answer.as_str()) {
                launch(entry)
            } else {
                finish(Outcome::Declined)
            },
            _ => finish(Outcome::OutOfTurn),
        },
        Stage::Running => match event {
            Event::Exited { success } => if *success {
                finish(Outcome::Succeeded)
            } else {
                finish(Outcome::Failed)
            },
            Event::NotStarted => finish(Outcome::Failed),
            _ => finish(Outcome::OutOfTurn),
        },
        Stage::Finished => finish(Outcome::OutOfTurn),
    }
}

/// The first step after the selector's reply: the first step for the
/// chosen entry, or the end at once where the reply chose none.
pub fn begin(catalog: &AllCommandSnippets, reply: &Reply, config: &YkConfig, edit: bool) -> (step:
    Step)
    ensures
        step@ == begun(catalog@, reply@, config@, edit),
{
    match reply {
        Reply::Chosen(index) => if *index < catalog.commands.len() {
            start(&catalog.commands[*index], config, edit)
        } else {
            finish(Outcome::NoSelection)
        },
        _ => finish(Outcome::NoSelection),
    }
}

} // verus!
