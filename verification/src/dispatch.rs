//! Per-turn dispatch: interprets a classified intent and decides, from the
//! operator's choices, what runs in the subshell, what synthetic note joins
//! the history, and whether the session ends.
//!
//! The decisions are pure functions; the surrounding program shows the
//! prompts, runs the chosen command, and feeds the choices back.

use vstd::prelude::*;

use crate::history::{Message, Role};
use crate::parse::{IntentView, ParsedIntent};

verus! {

/// The operator's choice when a command intent is presented.
#[derive(Clone, Copy, PartialEq, Eq, Structural, Debug)]
pub enum ActionChoice {
    Execute,
    FollowUp,
    Quit,
}

/// The operator's choice after a command was executed.
#[derive(Clone, Copy, PartialEq, Eq, Structural, Debug)]
pub enum FollowChoice {
    Continue,
    Quit,
}

/// What a turn does first, by intent: present a command for confirmation, or
/// display the model's text and go on.
#[derive(Debug, Clone, PartialEq, Eq)]
pub enum DispatchStep {
    AskAction { command: String },
    ShowQuestion { question: String },
    ShowAnswer { answer: String },
}

/// The outcome of the operator's first choice on a command.
#[derive(Debug, Clone, PartialEq, Eq)]
pub enum CommandOutcome {
    /// Run the command in a subshell, then ask whether to continue.
    Run { command: String },
    /// Skip execution; the note joins the history and the loop goes on.
    Skip { note: Message },
    /// End the session cleanly.
    Quit,
}

/// The outcome of the operator's choice after an execution.
#[derive(Debug, Clone, PartialEq, Eq)]
pub enum RunFollowUp {
    /// The note joins the history and the loop goes on.
    Note { note: Message },
    /// End the session cleanly.
    Quit,
}

/// The abstract form of a `DispatchStep`.
pub enum StepView {
    AskAction(Seq<char>),
    ShowQuestion(Seq<char>),
    ShowAnswer(Seq<char>),
}

/// The abstract form of a `CommandOutcome`.
pub enum OutcomeView {
    Run(Seq<char>),
    Skip((Role, Seq<char>)),
    Quit,
}

/// The abstract form of a `RunFollowUp`.
pub enum FollowView {
    Note((Role, Seq<char>)),
    Quit,
}

impl View for DispatchStep {
    type V = StepView;

    open spec fn view(&self) -> StepView {
        match self {
            DispatchStep::AskAction { command } => StepView::AskAction(command@),
            DispatchStep::ShowQuestion { question } => StepView::ShowQuestion(question@),
            DispatchStep::ShowAnswer { answer } => StepView::ShowAnswer(answer@),
        }
    }
}

impl View for CommandOutcome {
    type V = OutcomeView;

    open spec fn view(&self) -> OutcomeView {
        match self {
            CommandOutcome::Run { command } => OutcomeView::Run(command@),
            CommandOutcome::Skip { note } => OutcomeView::Skip(note@),
            CommandOutcome::Quit => OutcomeView::Quit,
        }
    }
}

impl View for RunFollowUp {
    type V = FollowView;

    open spec fn view(&self) -> FollowView {
        match self {
            RunFollowUp::Note { note } => FollowView::Note(note@),
            RunFollowUp::Quit => FollowView::Quit,
        }
    }
}

/// What each intent asks of the operator: a command awaits confirmation, a
/// question or an answer is only displayed.
pub open spec fn dispatch_step_spec(iv: IntentView) -> StepView {
    match iv {
        IntentView::Command(c) => StepView::AskAction(c),
        IntentView::Question(q) => StepView::ShowQuestion(q),
        IntentView::Answer(a) => StepView::ShowAnswer(a),
    }
}

/// What the first choice on a command decides: `Execute` runs exactly that
/// command, `FollowUp` only notes that it was not run, `Quit` ends the
/// session.
pub open spec fn action_outcome_spec(command: Seq<char>, choice: ActionChoice) -> OutcomeView {
    match choice {
        ActionChoice::Execute => OutcomeView::Run(command),
        ActionChoice::FollowUp => OutcomeView::Skip((Role::User, "User did not execute command"@)),
        ActionChoice::Quit => OutcomeView::Quit,
    }
}

/// What the choice after an execution decides: `Continue` notes the
/// execution and goes on, `Quit` ends the session without a note.
pub open spec fn follow_outcome_spec(choice: FollowChoice) -> FollowView {
    match choice {
        FollowChoice::Continue => FollowView::Note((Role::User, "User executed command"@)),
        FollowChoice::Quit => FollowView::Quit,
    }
}

/// Turns a classified intent into the first step of its dispatch.
pub fn dispatch_intent(intent: ParsedIntent) -> (r: DispatchStep)
    ensures
        r@ == dispatch_step_spec(intent@),
{
    match intent {
        ParsedIntent::Command { command } => DispatchStep::AskAction { command },
        ParsedIntent::Question { question } => DispatchStep::ShowQuestion { question },
        ParsedIntent::Answer { answer } => DispatchStep::ShowAnswer { answer },
    }
}

/// Applies the operator's first choice to a presented command.
pub fn on_action_choice(command: String, choice: ActionChoice) -> (r: CommandOutcome)
    ensures
        r@ == action_outcome_spec(command@, choice),
{
    match choice {
        ActionChoice::Execute => CommandOutcome::Run { command },
        ActionChoice::FollowUp => CommandOutcome::Skip {
            note: Message { role: Role::User, content: "User did not execute command".to_owned() },
        },
        ActionChoice::Quit => CommandOutcome::Quit,
    }
}

/// Applies the operator's choice made after a command was executed.
pub fn after_execution(choice: FollowChoice) -> (r: RunFollowUp)
    ensures
        r@ == follow_outcome_spec(choice),
{
    match choice {
        FollowChoice::Continue => RunFollowUp::Note {
            note: Message { role: Role::User, content: "User executed command".to_owned() },
        },
        FollowChoice::Quit => RunFollowUp::Quit,
    }
}

/// The commands one turn hands to the subshell, in order, when the operator
/// answers the prompts with `first` and, after an execution, `second`.
pub open spec fn turn_runs(iv: IntentView, first: ActionChoice, second: FollowChoice) -> Seq<
    Seq<char>,
> {
    match dispatch_step_spec(iv) {
        StepView::AskAction(c) => match action_outcome_spec(c, first) {
            OutcomeView::Run(cmd) => seq![cmd],
            OutcomeView::Skip(_) => seq![],
            OutcomeView::Quit => seq![],
        },
        StepView::ShowQuestion(_) => seq![],
        StepView::ShowAnswer(_) => seq![],
    }
}

/// The synthetic notes one turn appends to the history, in order.
pub open spec fn turn_notes(iv: IntentView, first: ActionChoice, second: FollowChoice) -> Seq<
    (Role, Seq<char>),
> {
    match dispatch_step_spec(iv) {
        StepView::AskAction(c) => match action_outcome_spec(c, first) {
            OutcomeView::Run(_) => match follow_outcome_spec(second) {
                FollowView::Note(note) => seq![note],
                FollowView::Quit => seq![],
            },
            OutcomeView::Skip(note) => seq![note],
            OutcomeView::Quit => seq![],
        },
        StepView::ShowQuestion(_) => seq![],
        StepView::ShowAnswer(_) => seq![],
    }
}

/// Whether one turn ends the session.
pub open spec fn turn_quits(iv: IntentView, first: ActionChoice, second: FollowChoice) -> bool {
    match dispatch_step_spec(iv) {
        StepView::AskAction(c) => match action_outcome_spec(c, first) {
            OutcomeView::Run(_) => follow_outcome_spec(second) is Quit,
            OutcomeView::Skip(_) => false,
            OutcomeView::Quit => true,
        },
        StepView::ShowQuestion(_) => false,
        StepView::ShowAnswer(_) => false,
    }
}

/// Law: dispatching a question only displays it. Whatever the operator's
/// choices would be, nothing runs in the subshell, no note joins the
/// history, and the session goes on. An answer behaves the same way.
pub proof fn lemma_question_only_displays(q: Seq<char>, first: ActionChoice, second: FollowChoice)
    ensures
        dispatch_step_spec(IntentView::Question(q)) == StepView::ShowQuestion(q),
        turn_runs(IntentView::Question(q), first, second) =~= Seq::<Seq<char>>::empty(),
        turn_notes(IntentView::Question(q), first, second) =~= Seq::<(Role, Seq<char>)>::empty(),
        !turn_quits(IntentView::Question(q), first, second),
        turn_runs(IntentView::Answer(q), first, second) =~= Seq::<Seq<char>>::empty(),
        turn_notes(IntentView::Answer(q), first, second) =~= Seq::<(Role, Seq<char>)>::empty(),
        !turn_quits(IntentView::Answer(q), first, second),
{
}

/// Law: on a command intent, choosing `Execute` and then `Quit` hands the
/// subshell exactly that command, exactly once; no note is appended after
/// the termination, and the session ends.
pub proof fn lemma_execute_then_quit(c: Seq<char>)
    ensures
        turn_runs(IntentView::Command(c), ActionChoice::Execute, FollowChoice::Quit) =~= seq![c],
        turn_notes(IntentView::Command(c), ActionChoice::Execute, FollowChoice::Quit) =~= Seq::<
            (Role, Seq<char>),
        >::empty(),
        turn_quits(IntentView::Command(c), ActionChoice::Execute, FollowChoice::Quit),
{
}

} // verus!
