use aia::dispatch::{
    after_execution, dispatch_intent, on_action_choice, ActionChoice, CommandOutcome,
    DispatchStep, FollowChoice, RunFollowUp,
};
use aia::history::{Message, Role};
use aia::parse::ParsedIntent;

#[test]
fn question_only_displays() {
    let step = dispatch_intent(ParsedIntent::Question { question: "Which file?".to_string() });
    assert_eq!(step, DispatchStep::ShowQuestion { question: "Which file?".to_string() });
}

#[test]
fn answer_only_displays() {
    let step = dispatch_intent(ParsedIntent::Answer { answer: "use grep".to_string() });
    assert_eq!(step, DispatchStep::ShowAnswer { answer: "use grep".to_string() });
}

#[test]
fn command_awaits_confirmation() {
    let step = dispatch_intent(ParsedIntent::Command { command: "ls -la".to_string() });
    assert_eq!(step, DispatchStep::AskAction { command: "ls -la".to_string() });
}

#[test]
fn execute_then_quit_runs_once_and_ends() {
    // The operator confirms execution: exactly the presented command is run.
    let outcome = on_action_choice("ls".to_string(), ActionChoice::Execute);
    assert_eq!(outcome, CommandOutcome::Run { command: "ls".to_string() });
    // After the run the operator quits: no note is appended, the session ends.
    let follow = after_execution(FollowChoice::Quit);
    assert_eq!(follow, RunFollowUp::Quit);
}

#[test]
fn execute_then_continue_notes_the_execution() {
    let follow = after_execution(FollowChoice::Continue);
    assert_eq!(
        follow,
        RunFollowUp::Note {
            note: Message { role: Role::User, content: "User executed command".to_string() }
        }
    );
}

#[test]
fn follow_up_skips_execution_and_notes_it() {
    let outcome = on_action_choice("rm -rf /tmp/x".to_string(), ActionChoice::FollowUp);
    assert_eq!(
        outcome,
        CommandOutcome::Skip {
            note: Message { role: Role::User, content: "User did not execute command".to_string() }
        }
    );
}

#[test]
fn quit_at_the_first_choice_ends_cleanly() {
    let outcome = on_action_choice("ls".to_string(), ActionChoice::Quit);
    assert_eq!(outcome, CommandOutcome::Quit);
}
