use eclipse_core::callback::Callback;
use eclipse_core::environment::{set_all, EnvOp};
use eclipse_core::turn::{turn_command, Turn, TurnAction, TurnEvent, TurnPhase, TurnStep};
use std::collections::BTreeMap;

fn strings(list: &[&str]) -> Vec<String> {
    list.iter().map(|s| s.to_string()).collect()
}

fn assign(name: &str, value: &str) -> EnvOp {
    EnvOp::Assign(name.to_string(), value.to_string())
}

fn remove(name: &str) -> EnvOp {
    EnvOp::Remove(name.to_string())
}

fn error(s: &str) -> Callback {
    Callback::Error(s.to_string())
}

fn line(s: &str) -> TurnEvent {
    TurnEvent::Line(false, Some(s.to_string()))
}

fn step(callbacks: Vec<Callback>, action: TurnAction) -> TurnStep {
    TurnStep { callbacks, action }
}

fn reading() -> Turn {
    let (mut turn, _) = Turn::begin("helper".to_string());
    turn.step(TurnEvent::Launched);
    turn
}

#[test]
fn the_first_turn_starts_a_conversation() {
    let shell = vec![("PATH".to_string(), "/opt/bin".to_string())];
    let command = turn_command("hi \"there\"", "helper", "/work", 8080, "secret", false, &shell);
    assert_eq!(command.program, "helper");
    assert_eq!(command.cwd, "/work");
    assert_eq!(
        command.args,
        strings(&["-p", "hi \"there\"", "--output-format", "stream-json", "--verbose"])
    );
    assert_eq!(
        command.env,
        vec![
            assign("PATH", "/opt/bin"),
            assign("CLAUDE_CODE_SSE_PORT", "8080"),
            assign("CLAUDE_IDE_PORT", "8080"),
            assign("CLAUDE_IDE_AUTH_TOKEN", "secret"),
            assign("CLAUDE_IDE_NAME", "Eclipse"),
        ]
    );
}

#[test]
fn a_later_turn_continues_the_conversation() {
    let command = turn_command("go on", "helper", "/work", 0, "secret", true, &vec![]);
    assert_eq!(
        command.args,
        strings(&["-p", "go on", "--output-format", "stream-json", "--verbose", "-c"])
    );
}

#[test]
fn without_a_server_its_variables_are_removed() {
    let removed = vec![
        remove("CLAUDE_CODE_SSE_PORT"),
        remove("CLAUDE_IDE_PORT"),
        remove("CLAUDE_IDE_AUTH_TOKEN"),
        remove("CLAUDE_IDE_NAME"),
    ];
    assert_eq!(turn_command("m", "p", "w", 0, "secret", false, &vec![]).env, removed);
    assert_eq!(turn_command("m", "p", "w", 8080, "", false, &vec![]).env, removed);
}

fn applied(base: &[(&str, &str)], ops: &[EnvOp]) -> BTreeMap<String, String> {
    let mut env: BTreeMap<String, String> =
        base.iter().map(|(k, v)| (k.to_string(), v.to_string())).collect();
    for op in ops {
        match op {
            EnvOp::Assign(name, value) => {
                env.insert(name.clone(), value.clone());
            }
            EnvOp::Remove(name) => {
                env.remove(name);
            }
        }
    }
    env
}

#[test]
fn the_server_of_this_instance_is_found() {
    let inherited = [("CLAUDE_IDE_PORT", "1"), ("HOME", "/home/me")];
    let shell = vec![("CLAUDE_CODE_SSE_PORT".to_string(), "2".to_string())];
    let with = turn_command("m", "p", "w", 8080, "secret", false, &shell);
    let env = applied(&inherited, &with.env);
    assert_eq!(env["CLAUDE_CODE_SSE_PORT"], "8080");
    assert_eq!(env["CLAUDE_IDE_PORT"], "8080");
    assert_eq!(env["CLAUDE_IDE_AUTH_TOKEN"], "secret");
    assert_eq!(env["CLAUDE_IDE_NAME"], "Eclipse");
    assert_eq!(env["HOME"], "/home/me");
    let without = turn_command("m", "p", "w", 0, "", false, &shell);
    let env = applied(&inherited, &without.env);
    assert_eq!(env.len(), 1);
    assert_eq!(env["HOME"], "/home/me");
}

#[test]
fn variables_are_set_in_order() {
    let mut ops = vec![remove("A")];
    let list = vec![
        ("B".to_string(), "1".to_string()),
        ("A".to_string(), "2".to_string()),
    ];
    set_all(&mut ops, &list);
    assert_eq!(ops, vec![remove("A"), assign("B", "1"), assign("A", "2")]);
}

#[test]
fn a_turn_runs_from_start_to_end() {
    let (mut turn, first) = Turn::begin("helper".to_string());
    assert_eq!(first, step(vec![Callback::StreamStart], TurnAction::Launch));
    assert_eq!(turn.phase(), TurnPhase::Launching);
    assert_eq!(turn.step(TurnEvent::Launched), step(vec![], TurnAction::ReadLine));
    assert_eq!(
        turn.step(line(r#"{"type":"system","subtype":"init"}"#)),
        step(vec![Callback::System("Connected".to_string())], TurnAction::ReadLine)
    );
    assert_eq!(turn.step(line("")), step(vec![], TurnAction::ReadLine));
    assert_eq!(turn.step(TurnEvent::Line(false, None)), step(vec![], TurnAction::ReadLine));
    assert_eq!(
        turn.step(line(
            r#"{"type":"assistant","partial":true,"message":{"content":[{"type":"text","text":"He"}]}}"#
        )),
        step(vec![Callback::Text("He".to_string())], TurnAction::ReadLine)
    );
    assert_eq!(
        turn.step(line(
            r#"{"type":"assistant","message":{"content":[{"type":"text","text":"Hey"}]}}"#
        )),
        step(vec![Callback::Text("y".to_string())], TurnAction::ReadLine)
    );
    assert_eq!(turn.step(TurnEvent::OutputEnded), step(vec![], TurnAction::CheckCancel));
    assert_eq!(turn.step(TurnEvent::CancelChecked(false)), step(vec![], TurnAction::Wait));
    assert_eq!(
        turn.step(TurnEvent::Exited(true)),
        step(vec![Callback::StreamEnd], TurnAction::Finish(true))
    );
    assert_eq!(turn.phase(), TurnPhase::Finished(true));
}

#[test]
fn a_failed_launch_is_reported() {
    let (mut turn, _) = Turn::begin("helper".to_string());
    assert_eq!(
        turn.step(TurnEvent::LaunchFailed("no such file".to_string())),
        step(
            vec![error("Failed to launch helper: no such file"), Callback::StreamEnd],
            TurnAction::Finish(false)
        )
    );
}

#[test]
fn other_lines_are_passed_over() {
    let partial =
        r#"{"type":"assistant","partial":true,"message":{"content":[{"type":"text","text":"He"}]}}"#;
    let full = r#"{"type":"assistant","message":{"content":[{"type":"text","text":"Hey"}]}}"#;
    let events = [
        TurnEvent::Line(false, None),
        line(partial),
        line(""),
        line("not json"),
        line("{\"type\":"),
        TurnEvent::Line(false, None),
        line(full),
        line(" "),
    ];
    let mut turn = reading();
    let mut said = vec![];
    for event in events {
        let step = turn.step(event);
        assert_eq!(step.action, TurnAction::ReadLine);
        said.extend(step.callbacks);
    }
    assert_eq!(said, vec![Callback::Text("He".to_string()), Callback::Text("y".to_string())]);
}

#[test]
fn a_cancelled_turn_kills_the_command() {
    let mut turn = reading();
    assert_eq!(
        turn.step(TurnEvent::Line(true, Some("{}".to_string()))),
        step(vec![], TurnAction::CheckCancel)
    );
    assert_eq!(turn.step(TurnEvent::CancelChecked(true)), step(vec![], TurnAction::Kill));
    assert_eq!(
        turn.step(TurnEvent::ErrorOutput("".to_string())),
        step(vec![Callback::StreamEnd], TurnAction::Finish(false))
    );
}

#[test]
fn a_failed_turn_shows_its_error_output() {
    let mut turn = reading();
    turn.step(TurnEvent::OutputEnded);
    turn.step(TurnEvent::CancelChecked(false));
    assert_eq!(turn.step(TurnEvent::Exited(false)), step(vec![], TurnAction::CollectErrors));
    assert_eq!(
        turn.step(TurnEvent::ErrorOutput("\n  bad key \n".to_string())),
        step(vec![error("bad key"), Callback::StreamEnd], TurnAction::Finish(false))
    );
}

#[test]
fn a_turn_is_given_up_where_a_text_cannot_be_cut() {
    let mut turn = reading();
    turn.step(line(
        r#"{"type":"assistant","partial":true,"message":{"content":[{"type":"text","text":"ab"}]}}"#,
    ));
    assert_eq!(
        turn.step(line(
            r#"{"type":"assistant","partial":true,"message":{"content":[{"type":"text","text":"aé"}]}}"#
        )),
        step(vec![], TurnAction::Abort)
    );
    assert_eq!(turn.phase(), TurnPhase::Aborted);
    assert!(!turn.accepts(&TurnEvent::OutputEnded));
}

#[test]
fn a_turn_takes_only_events_that_it_waits_for() {
    let events = || {
        [
            TurnEvent::Launched,
            TurnEvent::LaunchFailed(String::new()),
            TurnEvent::Line(false, None),
            TurnEvent::OutputEnded,
            TurnEvent::CancelChecked(false),
            TurnEvent::Exited(false),
            TurnEvent::ErrorOutput(String::new()),
        ]
    };
    let accepted = |turn: &Turn| -> Vec<bool> { events().iter().map(|e| turn.accepts(e)).collect() };
    let (mut turn, _) = Turn::begin("helper".to_string());
    assert_eq!(accepted(&turn), [true, true, false, false, false, false, false]);
    turn.step(TurnEvent::Launched);
    assert_eq!(accepted(&turn), [false, false, true, true, false, false, false]);
    turn.step(TurnEvent::OutputEnded);
    assert_eq!(accepted(&turn), [false, false, false, false, true, false, false]);
    turn.step(TurnEvent::CancelChecked(false));
    assert_eq!(accepted(&turn), [false, false, false, false, false, true, false]);
    turn.step(TurnEvent::Exited(false));
    assert_eq!(accepted(&turn), [false, false, false, false, false, false, true]);
    turn.step(TurnEvent::ErrorOutput(String::new()));
    assert_eq!(accepted(&turn), [false; 7]);
}
