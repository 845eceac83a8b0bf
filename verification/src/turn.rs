//! One conversation turn: the command that is launched, and the steps from its launch to its end.
//!
//! A turn runs the assistant once. Whatever has to be done outside (launching, reading a line,
//! waiting) is asked for by a [`TurnAction`]; what came of it is handed back as a [`TurnEvent`].

use crate::callback::{Callback, CallbackView, calls};
use crate::environment::{
    CommandPlan, CommandView, EnvOp, EnvOpView, changes, env_after, env_after_concat,
    env_keeps_others, env_last_change_wins, set_all, settings, settings_give_their_values, value_in,
    value_of,
};
use crate::events::{
    event_run, events_report_only, events_run, is_event_call, line_run, process_event,
};
use crate::json::{JsonView, json_text};
use crate::text::{
    decimal, decimal_text, is_white_space, pairs, texts, trim_text, trimmed,
    trimmed_text_has_bare_ends, trimming_takes_only_white_space,
};
use vstd::prelude::*;
use vstd::string::*;

verus! {

// ---------------------------------------------------------------------------
// The command
// ---------------------------------------------------------------------------

/// The arguments of a turn: the message, the streaming output format, and `-c` to continue the
/// conversation where there is one.
pub open spec fn turn_args(message: Seq<char>, has_session: bool) -> Seq<Seq<char>> {
    let args = seq!["-p"@, message, "--output-format"@, "stream-json"@, "--verbose"@];
    if has_session {
        args.push("-c"@)
    } else {
        args
    }
}

/// The variables that connect the assistant to a tool server of this instance: set where a server
/// runs, and removed where none does.
pub open spec fn server_changes(port: u16, token: Seq<char>) -> Seq<EnvOpView> {
    if port > 0 && token.len() > 0 {
        seq![
            EnvOpView::Assign("CLAUDE_CODE_SSE_PORT"@, decimal(port as nat)),
            EnvOpView::Assign("CLAUDE_IDE_PORT"@, decimal(port as nat)),
            EnvOpView::Assign("CLAUDE_IDE_AUTH_TOKEN"@, token),
            EnvOpView::Assign("CLAUDE_IDE_NAME"@, "Eclipse"@),
        ]
    } else {
        seq![
            EnvOpView::Remove("CLAUDE_CODE_SSE_PORT"@),
            EnvOpView::Remove("CLAUDE_IDE_PORT"@),
            EnvOpView::Remove("CLAUDE_IDE_AUTH_TOKEN"@),
            EnvOpView::Remove("CLAUDE_IDE_NAME"@),
        ]
    }
}

/// The command of a turn: the variables of the login shell come first, so that those of the tool
/// server have the last word.
pub open spec fn turn_command_view(
    message: Seq<char>,
    program: Seq<char>,
    workspace_root: Seq<char>,
    port: u16,
    token: Seq<char>,
    has_session: bool,
    shell_env: Seq<(Seq<char>, Seq<char>)>,
) -> CommandView {
    CommandView {
        program,
        args: turn_args(message, has_session),
        cwd: workspace_root,
        env: settings(shell_env) + server_changes(port, token),
    }
}

fn server_ops(port: u16, token: &str) -> (ops: Vec<EnvOp>)
    ensures
        changes(ops@) == server_changes(port, token@),
{
    let mut ops: Vec<EnvOp> = Vec::new();
    if port > 0 && !token.is_empty() {
        ops.push(EnvOp::Assign("CLAUDE_CODE_SSE_PORT".to_owned(), decimal_text(port)));
        ops.push(EnvOp::Assign("CLAUDE_IDE_PORT".to_owned(), decimal_text(port)));
        ops.push(EnvOp::Assign("CLAUDE_IDE_AUTH_TOKEN".to_owned(), token.to_owned()));
        ops.push(EnvOp::Assign("CLAUDE_IDE_NAME".to_owned(), "Eclipse".to_owned()));
    } else {
        ops.push(EnvOp::Remove("CLAUDE_CODE_SSE_PORT".to_owned()));
        ops.push(EnvOp::Remove("CLAUDE_IDE_PORT".to_owned()));
        ops.push(EnvOp::Remove("CLAUDE_IDE_AUTH_TOKEN".to_owned()));
        ops.push(EnvOp::Remove("CLAUDE_IDE_NAME".to_owned()));
    }
    assert(changes(ops@) =~= server_changes(port, token@));
    ops
}

/// The command that runs one turn.
pub fn turn_command(
    message: &str,
    program: &str,
    workspace_root: &str,
    mcp_port: u16,
    mcp_auth_token: &str,
    has_session: bool,
    shell_env: &Vec<(String, String)>,
) -> (command: CommandPlan)
    ensures
        command@ == turn_command_view(
            message@,
            program@,
            workspace_root@,
            mcp_port,
            mcp_auth_token@,
            has_session,
            pairs(shell_env@),
        ),
{
    let mut args: Vec<String> = Vec::new();
    args.push("-p".to_owned());
    args.push(message.to_owned());
    args.push("--output-format".to_owned());
    args.push("stream-json".to_owned());
    args.push("--verbose".to_owned());
    if has_session {
        args.push("-c".to_owned());
    }
    assert(texts(args@) =~= turn_args(message@, has_session));
    let mut env: Vec<EnvOp> = Vec::new();
    set_all(&mut env, shell_env);
    let ghost shell = env@;
    assert(changes(shell) =~= settings(pairs(shell_env@)));
    let mut server = server_ops(mcp_port, mcp_auth_token);
    let ghost ops = server@;
    env.append(&mut server);
    assert(changes(env@) =~= changes(shell) + changes(ops));
    CommandPlan { program: program.to_owned(), args, cwd: workspace_root.to_owned(), env }
}

proof fn server_names_differ()
    ensures
        "CLAUDE_CODE_SSE_PORT"@ != "CLAUDE_IDE_PORT"@,
        "CLAUDE_CODE_SSE_PORT"@ != "CLAUDE_IDE_AUTH_TOKEN"@,
        "CLAUDE_CODE_SSE_PORT"@ != "CLAUDE_IDE_NAME"@,
        "CLAUDE_IDE_PORT"@ != "CLAUDE_IDE_AUTH_TOKEN"@,
        "CLAUDE_IDE_PORT"@ != "CLAUDE_IDE_NAME"@,
        "CLAUDE_IDE_AUTH_TOKEN"@ != "CLAUDE_IDE_NAME"@,
{
    reveal_strlit("CLAUDE_CODE_SSE_PORT");
    reveal_strlit("CLAUDE_IDE_PORT");
    reveal_strlit("CLAUDE_IDE_AUTH_TOKEN");
    reveal_strlit("CLAUDE_IDE_NAME");
    assert("CLAUDE_CODE_SSE_PORT"@[7] != "CLAUDE_IDE_AUTH_TOKEN"@[7]);
    assert("CLAUDE_IDE_PORT"@[11] != "CLAUDE_IDE_NAME"@[11]);
}

/// Where a tool server runs, the assistant finds exactly this server in its environment, whatever
/// it inherited and whatever the login shell sets.
pub proof fn server_is_announced(
    base: Map<Seq<char>, Seq<char>>,
    shell_env: Seq<(Seq<char>, Seq<char>)>,
    port: u16,
    token: Seq<char>,
)
    requires
        port > 0,
        token.len() > 0,
    ensures
        ({
            let env = env_after(base, settings(shell_env) + server_changes(port, token));
            &&& env.contains_key("CLAUDE_CODE_SSE_PORT"@)
            &&& env["CLAUDE_CODE_SSE_PORT"@] == decimal(port as nat)
            &&& env.contains_key("CLAUDE_IDE_PORT"@)
            &&& env["CLAUDE_IDE_PORT"@] == decimal(port as nat)
            &&& env.contains_key("CLAUDE_IDE_AUTH_TOKEN"@)
            &&& env["CLAUDE_IDE_AUTH_TOKEN"@] == token
            &&& env.contains_key("CLAUDE_IDE_NAME"@)
            &&& env["CLAUDE_IDE_NAME"@] == "Eclipse"@
        }),
{
    let inherited = env_after(base, settings(shell_env));
    let ops = server_changes(port, token);
    env_after_concat(base, settings(shell_env), ops);
    server_names_differ();
    env_last_change_wins(inherited, ops, 0);
    env_last_change_wins(inherited, ops, 1);
    env_last_change_wins(inherited, ops, 2);
    env_last_change_wins(inherited, ops, 3);
}

/// Where no tool server runs, the assistant finds none in its environment, not even one that was
/// inherited from another instance or that the login shell sets.
pub proof fn no_other_server_is_found(
    base: Map<Seq<char>, Seq<char>>,
    shell_env: Seq<(Seq<char>, Seq<char>)>,
    port: u16,
    token: Seq<char>,
)
    requires
        port == 0 || token.len() == 0,
    ensures
        ({
            let env = env_after(base, settings(shell_env) + server_changes(port, token));
            &&& !env.contains_key("CLAUDE_CODE_SSE_PORT"@)
            &&& !env.contains_key("CLAUDE_IDE_PORT"@)
            &&& !env.contains_key("CLAUDE_IDE_AUTH_TOKEN"@)
            &&& !env.contains_key("CLAUDE_IDE_NAME"@)
        }),
{
    let inherited = env_after(base, settings(shell_env));
    let ops = server_changes(port, token);
    env_after_concat(base, settings(shell_env), ops);
    server_names_differ();
    env_last_change_wins(inherited, ops, 0);
    env_last_change_wins(inherited, ops, 1);
    env_last_change_wins(inherited, ops, 2);
    env_last_change_wins(inherited, ops, 3);
}

// ---------------------------------------------------------------------------
// The steps
// ---------------------------------------------------------------------------

/// Where a turn stands.
#[derive(Debug, Clone, Copy, PartialEq, Eq, Structural)]
pub enum TurnPhase {
    /// The command is being launched.
    Launching,
    /// The command's output is being read, line by line.
    Reading,
    /// Reading has ended; whether the turn was cancelled is to be found out.
    Stopping,
    /// The command is about to exit by itself.
    Waiting,
    /// The turn has failed; what the command wrote to its error output is to be reported.
    Collecting,
    /// The turn is over; the flag says whether it succeeded.
    Finished(bool),
    /// The output could not be followed any further.
    Aborted,
}

/// What came of the last action.
#[derive(Debug)]
pub enum TurnEvent {
    /// The command runs.
    Launched,
    /// The command could not be launched, for the given reason.
    LaunchFailed(String),
    /// A line was read, or could not be read; the flag says whether the turn is cancelled.
    Line(bool, Option<String>),
    /// There are no more lines.
    OutputEnded,
    /// Whether the turn is cancelled.
    CancelChecked(bool),
    /// The command has exited; the flag says whether it reported success.
    Exited(bool),
    /// What the command has written to its error output.
    ErrorOutput(String),
}

/// What came of the last action, mathematically.
pub enum TurnEventView {
    Launched,
    LaunchFailed(Seq<char>),
    Line(bool, Option<Seq<char>>),
    OutputEnded,
    CancelChecked(bool),
    Exited(bool),
    ErrorOutput(Seq<char>),
}

impl View for TurnEvent {
    type V = TurnEventView;

    open spec fn view(&self) -> TurnEventView {
        match *self {
            TurnEvent::Launched => TurnEventView::Launched,
            TurnEvent::LaunchFailed(reason) => TurnEventView::LaunchFailed(reason@),
            TurnEvent::Line(cancelled, line) => TurnEventView::Line(
                cancelled,
                match line {
                    Some(s) => Some(s@),
                    None => None,
                },
            ),
            TurnEvent::OutputEnded => TurnEventView::OutputEnded,
            TurnEvent::CancelChecked(cancelled) => TurnEventView::CancelChecked(cancelled),
            TurnEvent::Exited(success) => TurnEventView::Exited(success),
            TurnEvent::ErrorOutput(text) => TurnEventView::ErrorOutput(text@),
        }
    }
}

/// What is to be done next.
#[derive(Debug, Clone, Copy, PartialEq, Eq, Structural)]
pub enum TurnAction {
    /// Launch the command.
    Launch,
    /// Read a line, then look up whether the turn is cancelled.
    ReadLine,
    /// Look up whether the turn is cancelled.
    CheckCancel,
    /// Kill the command, then collect its error output.
    Kill,
    /// Wait for the command to exit.
    Wait,
    /// Collect the command's error output.
    CollectErrors,
    /// Nothing: the turn is over.
    Finish(bool),
    /// Give up at once, without ending the stream.
    Abort,
}

/// A turn, mathematically.
pub struct TurnView {
    /// What the assistant is called in messages.
    pub assistant: Seq<char>,
    pub phase: TurnPhase,
    /// The bytes of the current message's text that were passed on.
    pub seen: nat,
}

impl TurnView {
    /// Whether the event can come of the action that the turn is waiting for.
    pub open spec fn accepts(self, event: TurnEventView) -> bool {
        match event {
            TurnEventView::Launched => self.phase == TurnPhase::Launching,
            TurnEventView::LaunchFailed(_) => self.phase == TurnPhase::Launching,
            TurnEventView::Line(_, _) => self.phase == TurnPhase::Reading,
            TurnEventView::OutputEnded => self.phase == TurnPhase::Reading,
            TurnEventView::CancelChecked(_) => self.phase == TurnPhase::Stopping,
            TurnEventView::Exited(_) => self.phase == TurnPhase::Waiting,
            TurnEventView::ErrorOutput(_) => self.phase == TurnPhase::Collecting,
        }
    }

    /// The same turn in another phase.
    pub open spec fn to(self, phase: TurnPhase) -> TurnView {
        TurnView { phase, ..self }
    }

    /// The turn after an event.
    pub open spec fn after(self, event: TurnEventView) -> TurnView {
        match event {
            TurnEventView::Launched => self.to(TurnPhase::Reading),
            TurnEventView::LaunchFailed(_) => self.to(TurnPhase::Finished(false)),
            TurnEventView::Line(cancelled, line) => if cancelled {
                self.to(TurnPhase::Stopping)
            } else {
                match line {
                    Some(s) => if s.len() == 0 {
                        self
                    } else {
                        let p = line_run(s, self.seen);
                        TurnView {
                            phase: if p.fault {
                                TurnPhase::Aborted
                            } else {
                                TurnPhase::Reading
                            },
                            seen: p.seen,
                            ..self
                        }
                    },
                    None => self,
                }
            },
            TurnEventView::OutputEnded => self.to(TurnPhase::Stopping),
            TurnEventView::CancelChecked(cancelled) => if cancelled {
                self.to(TurnPhase::Collecting)
            } else {
                self.to(TurnPhase::Waiting)
            },
            TurnEventView::Exited(success) => if success {
                self.to(TurnPhase::Finished(true))
            } else {
                self.to(TurnPhase::Collecting)
            },
            TurnEventView::ErrorOutput(_) => self.to(TurnPhase::Finished(false)),
        }
    }

    /// The callbacks that an event gives rise to.
    pub open spec fn calls_of(self, event: TurnEventView) -> Seq<CallbackView> {
        match event {
            TurnEventView::LaunchFailed(reason) => seq![
                CallbackView::Error("Failed to launch "@ + self.assistant + ": "@ + reason),
                CallbackView::StreamEnd,
            ],
            TurnEventView::Line(cancelled, Some(s)) => if cancelled || s.len() == 0 {
                Seq::empty()
            } else {
                line_run(s, self.seen).calls
            },
            TurnEventView::Exited(true) => seq![CallbackView::StreamEnd],
            TurnEventView::ErrorOutput(text) => if trimmed(text).len() > 0 {
                seq![CallbackView::Error(trimmed(text)), CallbackView::StreamEnd]
            } else {
                seq![CallbackView::StreamEnd]
            },
            _ => Seq::empty(),
        }
    }

    /// What is to be done once a turn has come here by the given event.
    pub open spec fn action_after(self, event: TurnEventView) -> TurnAction {
        match self.after(event).phase {
            TurnPhase::Launching => TurnAction::Launch,
            TurnPhase::Reading => TurnAction::ReadLine,
            TurnPhase::Stopping => TurnAction::CheckCancel,
            TurnPhase::Waiting => TurnAction::Wait,
            TurnPhase::Collecting => if event is CancelChecked {
                TurnAction::Kill
            } else {
                TurnAction::CollectErrors
            },
            TurnPhase::Finished(success) => TurnAction::Finish(success),
            TurnPhase::Aborted => TurnAction::Abort,
        }
    }
}

/// One conversation turn.
#[derive(Debug)]
pub struct Turn {
    assistant: String,
    phase: TurnPhase,
    last_text_len: usize,
}

/// What a step of a turn asks for: first the callbacks, in order, then the action.
#[derive(Debug, PartialEq, Eq)]
pub struct TurnStep {
    pub callbacks: Vec<Callback>,
    pub action: TurnAction,
}

impl View for Turn {
    type V = TurnView;

    closed spec fn view(&self) -> TurnView {
        TurnView {
            assistant: self.assistant@,
            phase: self.phase,
            seen: self.last_text_len as nat,
        }
    }
}

/// A turn that has just begun.
pub open spec fn new_turn(assistant: Seq<char>) -> TurnView {
    TurnView { assistant, phase: TurnPhase::Launching, seen: 0 }
}

impl Turn {
    /// Begins a turn: the host is told that the stream starts, and the command is to be launched.
    /// In messages the assistant goes by the given name, which is up to the caller.
    pub fn begin(assistant: String) -> (begun: (Turn, TurnStep))
        ensures
            begun.0@ == new_turn(assistant@),
            calls(begun.1.callbacks@) == seq![CallbackView::StreamStart],
            begun.1.action == TurnAction::Launch,
    {
        let mut callbacks: Vec<Callback> = Vec::new();
        callbacks.push(Callback::StreamStart);
        assert(calls(callbacks@) =~= seq![CallbackView::StreamStart]);
        (
            Turn { assistant, phase: TurnPhase::Launching, last_text_len: 0 },
            TurnStep { callbacks, action: TurnAction::Launch },
        )
    }

    /// Where the turn stands.
    pub fn phase(&self) -> (phase: TurnPhase)
        ensures
            phase == self@.phase,
    {
        self.phase
    }

    /// Whether the event can come of the action that the turn is waiting for.
    pub fn accepts(&self, event: &TurnEvent) -> (yes: bool)
        ensures
            yes == self@.accepts(event@),
    {
        match event {
            TurnEvent::Launched => self.phase == TurnPhase::Launching,
            TurnEvent::LaunchFailed(_) => self.phase == TurnPhase::Launching,
            TurnEvent::Line(_, _) => self.phase == TurnPhase::Reading,
            TurnEvent::OutputEnded => self.phase == TurnPhase::Reading,
            TurnEvent::CancelChecked(_) => self.phase == TurnPhase::Stopping,
            TurnEvent::Exited(_) => self.phase == TurnPhase::Waiting,
            TurnEvent::ErrorOutput(_) => self.phase == TurnPhase::Collecting,
        }
    }

    /// Takes a turn one step further.
    pub fn step(&mut self, event: TurnEvent) -> (step: TurnStep)
        requires
            old(self)@.accepts(event@),
        ensures
            final(self)@ == old(self)@.after(event@),
            calls(step.callbacks@) == old(self)@.calls_of(event@),
            step.action == old(self)@.action_after(event@),
    {
        let mut callbacks: Vec<Callback> = Vec::new();
        assert(calls(callbacks@) =~= Seq::empty());
        let ghost seen = event@;
        let action = match event {
            TurnEvent::Launched => {
                self.phase = TurnPhase::Reading;
                TurnAction::ReadLine
            },
            TurnEvent::LaunchFailed(reason) => {
                let mut message = "Failed to launch ".to_owned();
                message.append(self.assistant.as_str());
                message.append(": ");
                message.append(reason.as_str());
                callbacks.push(Callback::Error(message));
                callbacks.push(Callback::StreamEnd);
                self.phase = TurnPhase::Finished(false);
                assert(calls(callbacks@) =~= old(self)@.calls_of(seen));
                TurnAction::Finish(false)
            },
            TurnEvent::Line(cancelled, line) => if cancelled {
                self.phase = TurnPhase::Stopping;
                TurnAction::CheckCancel
            } else {
                match line {
                    Some(text) => if text.as_str().is_empty() {
                        TurnAction::ReadLine
                    } else {
                        match process_event(text.as_str(), &mut self.last_text_len) {
                            Ok(fired) => {
                                callbacks = fired;
                                TurnAction::ReadLine
                            },
                            Err(cut) => {
                                callbacks = cut.fired;
                                self.phase = TurnPhase::Aborted;
                                TurnAction::Abort
                            },
                        }
                    },
                    None => TurnAction::ReadLine,
                }
            },
            TurnEvent::OutputEnded => {
                self.phase = TurnPhase::Stopping;
                TurnAction::CheckCancel
            },
            TurnEvent::CancelChecked(cancelled) => if cancelled {
                self.phase = TurnPhase::Collecting;
                TurnAction::Kill
            } else {
                self.phase = TurnPhase::Waiting;
                TurnAction::Wait
            },
            TurnEvent::Exited(success) => if success {
                callbacks.push(Callback::StreamEnd);
                self.phase = TurnPhase::Finished(true);
                assert(calls(callbacks@) =~= old(self)@.calls_of(seen));
                TurnAction::Finish(true)
            } else {
                self.phase = TurnPhase::Collecting;
                TurnAction::CollectErrors
            },
            TurnEvent::ErrorOutput(text) => {
                let reason = trim_text(text.as_str());
                if !reason.as_str().is_empty() {
                    callbacks.push(Callback::Error(reason));
                }
                callbacks.push(Callback::StreamEnd);
                self.phase = TurnPhase::Finished(false);
                assert(calls(callbacks@) =~= old(self)@.calls_of(seen));
                TurnAction::Finish(false)
            },
        };
        TurnStep { callbacks, action }
    }
}

// ---------------------------------------------------------------------------
// Laws
// ---------------------------------------------------------------------------

impl TurnView {
    /// The turn after a run of events.
    pub open spec fn after_all(self, events: Seq<TurnEventView>) -> TurnView
        decreases events.len(),
    {
        if events.len() == 0 {
            self
        } else {
            self.after_all(events.drop_last()).after(events.last())
        }
    }

    /// Whether each of a run of events can come of the action that the turn is then waiting for.
    pub open spec fn accepts_all(self, events: Seq<TurnEventView>) -> bool
        decreases events.len(),
    {
        events.len() > 0 ==> {
            &&& self.accepts_all(events.drop_last())
            &&& self.after_all(events.drop_last()).accepts(events.last())
        }
    }

    /// The callbacks that a run of events gives rise to.
    pub open spec fn calls_of_all(self, events: Seq<TurnEventView>) -> Seq<CallbackView>
        decreases events.len(),
    {
        if events.len() == 0 {
            Seq::empty()
        } else {
            self.calls_of_all(events.drop_last()) + self.after_all(events.drop_last()).calls_of(
                events.last(),
            )
        }
    }

    /// Whether the turn is over.
    pub open spec fn is_over(self) -> bool {
        self.phase is Finished || self.phase == TurnPhase::Aborted
    }
}

/// All the callbacks of a turn, from its beginning on.
pub open spec fn turn_calls(assistant: Seq<char>, events: Seq<TurnEventView>) -> Seq<CallbackView> {
    seq![CallbackView::StreamStart] + new_turn(assistant).calls_of_all(events)
}

/// What is reported while a turn is running: nothing but what the event stream reports.
proof fn running_turn_reports_events(assistant: Seq<char>, events: Seq<TurnEventView>)
    requires
        new_turn(assistant).accepts_all(events),
    ensures
        ({
            let turn = new_turn(assistant).after_all(events);
            let fired = new_turn(assistant).calls_of_all(events);
            let n = fired.len();
            &&& !(turn.phase is Finished) ==> forall|i: int|
                0 <= i < n ==> is_event_call(#[trigger] fired[i])
            &&& turn.phase is Finished ==> {
                &&& n > 0
                &&& fired[n - 1] == CallbackView::StreamEnd
                &&& forall|i: int| 0 <= i < n - 2 ==> is_event_call(#[trigger] fired[i])
                &&& n > 1 ==> is_event_call(fired[n - 2]) || (fired[n - 2] is Error
                    && turn.phase == TurnPhase::Finished(false))
            }
        }),
    decreases events.len(),
{
    if events.len() > 0 {
        let earlier = events.drop_last();
        running_turn_reports_events(assistant, earlier);
        let before = new_turn(assistant).after_all(earlier);
        match events.last() {
            TurnEventView::Line(_, Some(line)) => match json_text(line) {
                Some(event) => events_report_only(event, before.seen),
                None => {},
            },
            _ => {},
        }
    }
}

/// The stream of a turn is framed: it starts with the start of the stream, and the end of the
/// stream comes last, exactly when the turn is finished.
pub proof fn stream_is_framed(assistant: Seq<char>, events: Seq<TurnEventView>)
    requires
        new_turn(assistant).accepts_all(events),
    ensures
        ({
            let turn = new_turn(assistant).after_all(events);
            let fired = turn_calls(assistant, events);
            &&& fired.len() > 0
            &&& fired[0] == CallbackView::StreamStart
            &&& forall|i: int|
                0 < i < fired.len() ==> #[trigger] fired[i] != CallbackView::StreamStart
            &&& forall|i: int|
                0 <= i < fired.len() && #[trigger] fired[i] == CallbackView::StreamEnd ==> i
                    == fired.len() - 1
            &&& fired.last() == CallbackView::StreamEnd <==> turn.phase is Finished
        }),
{
    running_turn_reports_events(assistant, events);
    let fired = turn_calls(assistant, events);
    let inner = new_turn(assistant).calls_of_all(events);
    assert forall|i: int| 0 < i < fired.len() implies #[trigger] fired[i]
        != CallbackView::StreamStart by {
        assert(fired[i] == inner[i - 1]);
    }
    assert forall|i: int|
        0 <= i < fired.len() && #[trigger] fired[i] == CallbackView::StreamEnd implies i
        == fired.len() - 1 by {
        assert(fired[i] == inner[i - 1]);
    }
    if inner.len() > 0 {
        assert(fired.last() == inner.last());
    }
}

/// An error is reported at most once, right before the end of the stream, and only of a turn that
/// failed: warnings that the assistant writes in a turn that succeeds are not shown.
pub proof fn errors_end_a_failed_turn(assistant: Seq<char>, events: Seq<TurnEventView>, at: int)
    requires
        new_turn(assistant).accepts_all(events),
        0 <= at < turn_calls(assistant, events).len(),
        turn_calls(assistant, events)[at] is Error,
    ensures
        new_turn(assistant).after_all(events).phase == TurnPhase::Finished(false),
        at == turn_calls(assistant, events).len() - 2,
{
    running_turn_reports_events(assistant, events);
    let inner = new_turn(assistant).calls_of_all(events);
    assert(turn_calls(assistant, events)[at] == inner[at - 1]);
}

/// A turn that is over takes no further events.
pub proof fn finished_turn_is_final(turn: TurnView, event: TurnEventView)
    requires
        turn.is_over(),
    ensures
        !turn.accepts(event),
{
}

/// A turn succeeds exactly when its command has exited with success.
pub proof fn success_is_a_successful_exit(assistant: Seq<char>, events: Seq<TurnEventView>)
    requires
        new_turn(assistant).accepts_all(events),
    ensures
        new_turn(assistant).after_all(events).phase == TurnPhase::Finished(true) <==> events.len()
            > 0 && events.last() == TurnEventView::Exited(true),
{
    if events.len() > 0 {
        let before = new_turn(assistant).after_all(events.drop_last());
        assert(before.accepts(events.last()));
    }
}

/// A turn that was found cancelled, or whose command could not be launched, does not succeed.
pub proof fn cancelled_turn_does_not_succeed(
    assistant: Seq<char>,
    events: Seq<TurnEventView>,
    at: int,
)
    requires
        new_turn(assistant).accepts_all(events),
        0 <= at < events.len(),
        events[at] == TurnEventView::CancelChecked(true) || events[at] is LaunchFailed,
    ensures
        ({
            let phase = new_turn(assistant).after_all(events).phase;
            phase == TurnPhase::Collecting || phase == TurnPhase::Finished(false)
        }),
    decreases events.len(),
{
    if at < events.len() - 1 {
        assert(events.drop_last()[at] == events[at]);
        cancelled_turn_does_not_succeed(assistant, events.drop_last(), at);
    }
}

/// A command that could not be launched is reported, with the reason, between the start and the end
/// of the stream, and the turn has failed.
pub proof fn failed_launch_is_reported(assistant: Seq<char>, reason: Seq<char>)
    ensures
        ({
            let events = seq![TurnEventView::LaunchFailed(reason)];
            &&& new_turn(assistant).accepts_all(events)
            &&& turn_calls(assistant, events) == seq![
                CallbackView::StreamStart,
                CallbackView::Error("Failed to launch "@ + assistant + ": "@ + reason),
                CallbackView::StreamEnd,
            ]
            &&& new_turn(assistant).after_all(events).phase == TurnPhase::Finished(false)
        }),
{
    let events = seq![TurnEventView::LaunchFailed(reason)];
    reveal_with_fuel(TurnView::after_all, 2);
    reveal_with_fuel(TurnView::accepts_all, 2);
    reveal_with_fuel(TurnView::calls_of_all, 2);
    assert(events.drop_last() =~= Seq::empty());
}

/// The events of reading the given lines in a turn that is not cancelled.
pub open spec fn read_lines(lines: Seq<Seq<char>>) -> Seq<TurnEventView> {
    Seq::new(lines.len(), |i: int| TurnEventView::Line(false, Some(lines[i])))
}

/// The events of reading output in a turn that is not cancelled, where some lines may not be
/// readable.
pub open spec fn read_output(output: Seq<Option<Seq<char>>>) -> Seq<TurnEventView> {
    Seq::new(output.len(), |i: int| TurnEventView::Line(false, output[i]))
}

/// The lines of output that hold an event: those that can be read, are not empty and are JSON.
pub open spec fn event_lines(output: Seq<Option<Seq<char>>>) -> Seq<Seq<char>>
    decreases output.len(),
{
    if output.len() == 0 {
        Seq::empty()
    } else {
        let earlier = event_lines(output.drop_last());
        match output.last() {
            Some(line) => if line.len() > 0 && json_text(line) is Some {
                earlier.push(line)
            } else {
                earlier
            },
            None => earlier,
        }
    }
}

/// Lines that are empty, cannot be read or are not JSON are passed over: the turn goes on, and
/// reports what it would report of the other lines alone.
pub proof fn other_lines_are_passed_over(turn: TurnView, output: Seq<Option<Seq<char>>>)
    requires
        turn.accepts_all(read_output(output)),
    ensures
        turn.accepts_all(read_lines(event_lines(output))),
        turn.after_all(read_output(output)) == turn.after_all(read_lines(event_lines(output))),
        turn.calls_of_all(read_output(output)) == turn.calls_of_all(
            read_lines(event_lines(output)),
        ),
    decreases output.len(),
{
    if output.len() > 0 {
        let (read, kept) = (read_output(output), event_lines(output));
        let earlier = output.drop_last();
        assert(read.drop_last() =~= read_output(earlier));
        other_lines_are_passed_over(turn, earlier);
        if kept.len() > event_lines(earlier).len() {
            assert(read_lines(kept).drop_last() =~= read_lines(event_lines(earlier)));
        } else {
            assert(kept == event_lines(earlier));
            let before = turn.after_all(read_output(earlier));
            assert(before.accepts(read.last()));
            assert(before.after(read.last()) == before);
            assert(turn.calls_of_all(read) =~= turn.calls_of_all(read_output(earlier)));
        }
    }
}

/// While a turn is reading, output is handled as the events that its lines hold, one after the
/// other, whatever other lines stand in between.
pub proof fn output_is_handled_as_events(
    turn: TurnView,
    output: Seq<Option<Seq<char>>>,
    events: Seq<JsonView>,
)
    requires
        turn.phase == TurnPhase::Reading,
        event_lines(output).len() == events.len(),
        forall|i: int|
            0 <= i < events.len() ==> json_text(#[trigger] event_lines(output)[i]) == Some(events[i]),
        !events_run(events, turn.seen).fault,
    ensures
        ({
            let read = read_output(output);
            let p = events_run(events, turn.seen);
            &&& turn.accepts_all(read)
            &&& turn.after_all(read) == (TurnView { seen: p.seen, ..turn })
            &&& turn.calls_of_all(read) == p.calls
        }),
    decreases output.len(),
{
    if output.len() > 0 {
        let (read, kept) = (read_output(output), event_lines(output));
        let earlier = output.drop_last();
        assert(read.drop_last() =~= read_output(earlier));
        if kept.len() > event_lines(earlier).len() {
            let first = events.drop_last();
            assert(kept.last() == kept[events.len() - 1]);
            assert forall|i: int| 0 <= i < first.len() implies json_text(
                #[trigger] event_lines(earlier)[i],
            ) == Some(first[i]) by {
                assert(event_lines(earlier)[i] == kept[i]);
            }
            output_is_handled_as_events(turn, earlier, first);
        } else {
            output_is_handled_as_events(turn, earlier, events);
            assert(turn.calls_of_all(read) =~= turn.calls_of_all(read_output(earlier)));
        }
    }
}

// ---------------------------------------------------------------------------
// Laws on the command
// ---------------------------------------------------------------------------

/// A turn's command runs the program in the workspace. It is handed the message and asked for the
/// event stream, and goes on with the conversation exactly where there is one.
pub proof fn command_hands_over_the_message(
    message: Seq<char>,
    program: Seq<char>,
    workspace_root: Seq<char>,
    port: u16,
    token: Seq<char>,
    has_session: bool,
    shell_env: Seq<(Seq<char>, Seq<char>)>,
)
    ensures
        ({
            let command = turn_command_view(
                message,
                program,
                workspace_root,
                port,
                token,
                has_session,
                shell_env,
            );
            &&& command.program == program
            &&& command.cwd == workspace_root
            &&& command.args.len() == if has_session {
                6int
            } else {
                5
            }
            &&& command.args[0] == "-p"@
            &&& command.args[1] == message
            &&& command.args[2] == "--output-format"@
            &&& command.args[3] == "stream-json"@
            &&& command.args[4] == "--verbose"@
            &&& has_session ==> command.args[5] == "-c"@
        }),
{
}

/// What every variable is for a turn's command, whichever turn of a conversation it is. Those of
/// the tool server are the server's where one runs, and are not set where none does. The others are
/// the login shell's where it sets them, and the inherited ones where it does not.
pub proof fn command_finds_its_variables(
    base: Map<Seq<char>, Seq<char>>,
    message: Seq<char>,
    program: Seq<char>,
    workspace_root: Seq<char>,
    port: u16,
    token: Seq<char>,
    has_session: bool,
    shell_env: Seq<(Seq<char>, Seq<char>)>,
    name: Seq<char>,
)
    ensures
        ({
            let command = turn_command_view(
                message,
                program,
                workspace_root,
                port,
                token,
                has_session,
                shell_env,
            );
            let server_runs = port > 0 && token.len() > 0;
            value_of(env_after(base, command.env), name) == if name == "CLAUDE_CODE_SSE_PORT"@
                || name == "CLAUDE_IDE_PORT"@ {
                if server_runs {
                    Some(decimal(port as nat))
                } else {
                    None
                }
            } else if name == "CLAUDE_IDE_AUTH_TOKEN"@ {
                if server_runs {
                    Some(token)
                } else {
                    None
                }
            } else if name == "CLAUDE_IDE_NAME"@ {
                if server_runs {
                    Some("Eclipse"@)
                } else {
                    None
                }
            } else {
                match value_in(shell_env, name) {
                    Some(value) => Some(value),
                    None => value_of(base, name),
                }
            }
        }),
{
    let inherited = env_after(base, settings(shell_env));
    let ops = server_changes(port, token);
    env_after_concat(base, settings(shell_env), ops);
    settings_give_their_values(base, shell_env, name);
    server_names_differ();
    env_last_change_wins(inherited, ops, 0);
    env_last_change_wins(inherited, ops, 1);
    env_last_change_wins(inherited, ops, 2);
    env_last_change_wins(inherited, ops, 3);
    if name != "CLAUDE_CODE_SSE_PORT"@ && name != "CLAUDE_IDE_PORT"@ && name
        != "CLAUDE_IDE_AUTH_TOKEN"@ && name != "CLAUDE_IDE_NAME"@ {
        env_keeps_others(inherited, ops, name);
    }
}

// ---------------------------------------------------------------------------
// Laws on the steps
// ---------------------------------------------------------------------------

/// A turn begins under the given name, with the launch, and with no text passed on.
pub proof fn turns_begin_afresh(assistant: Seq<char>)
    ensures
        new_turn(assistant).assistant == assistant,
        new_turn(assistant).phase == TurnPhase::Launching,
        new_turn(assistant).seen == 0,
{
}

/// A turn keeps its name, and only lines that are read change how much text was passed on.
pub proof fn turns_keep_their_name(turn: TurnView, event: TurnEventView)
    ensures
        turn.after(event).assistant == turn.assistant,
        !(event is Line) ==> turn.after(event).seen == turn.seen,
{
}

/// Each action is answered by the events that can come of it, and by no others.
pub proof fn actions_are_answered(
    assistant: Seq<char>,
    turn: TurnView,
    event: TurnEventView,
    next: TurnEventView,
)
    requires
        turn.accepts(event),
    ensures
        new_turn(assistant).accepts(next) <==> next is Launched || next is LaunchFailed,
        turn.after(event).accepts(next) <==> match turn.action_after(event) {
            TurnAction::Launch => next is Launched || next is LaunchFailed,
            TurnAction::ReadLine => next is Line || next is OutputEnded,
            TurnAction::CheckCancel => next is CancelChecked,
            TurnAction::Kill => next is ErrorOutput,
            TurnAction::Wait => next is Exited,
            TurnAction::CollectErrors => next is ErrorOutput,
            TurnAction::Finish(_) => false,
            TurnAction::Abort => false,
        },
{
}

/// A command that was launched is read from its first line on.
pub proof fn launched_command_is_read(turn: TurnView)
    requires
        turn.phase == TurnPhase::Launching,
    ensures
        turn.after(TurnEventView::Launched).phase == TurnPhase::Reading,
        turn.action_after(TurnEventView::Launched) == TurnAction::ReadLine,
        turn.calls_of(TurnEventView::Launched) == Seq::<CallbackView>::empty(),
{
}

/// A command that could not be launched ends the turn, with the reason as the error.
pub proof fn launch_failure_ends_the_turn(turn: TurnView, reason: Seq<char>)
    requires
        turn.phase == TurnPhase::Launching,
    ensures
        ({
            let event = TurnEventView::LaunchFailed(reason);
            &&& turn.after(event).phase == TurnPhase::Finished(false)
            &&& turn.action_after(event) == TurnAction::Finish(false)
            &&& turn.calls_of(event).len() == 2
            &&& turn.calls_of(event)[0] == CallbackView::Error(
                "Failed to launch "@ + turn.assistant + ": "@ + reason,
            )
            &&& turn.calls_of(event)[1] == CallbackView::StreamEnd
        }),
{
}

/// In a turn that was cancelled, reading stops with the next line, whatever it holds: the line is
/// dropped, and nothing is reported of it.
pub proof fn cancelled_turn_stops_reading(turn: TurnView, line: Option<Seq<char>>)
    requires
        turn.phase == TurnPhase::Reading,
    ensures
        ({
            let event = TurnEventView::Line(true, line);
            &&& turn.accepts(event)
            &&& turn.after(event).phase == TurnPhase::Stopping
            &&& turn.after(event).seen == turn.seen
            &&& turn.action_after(event) == TurnAction::CheckCancel
            &&& turn.calls_of(event) == Seq::<CallbackView>::empty()
        }),
{
}

/// From the first line on that is read in a cancelled turn, and from the end of the output on, the
/// event stream is not followed any more: what is still reported is no text, tool or message.
pub proof fn stopped_turn_follows_no_events(turn: TurnView, events: Seq<TurnEventView>, at: int)
    requires
        turn.accepts_all(events),
        0 <= at < events.len(),
        events[at] is OutputEnded || (events[at] is Line && events[at]->Line_0),
    ensures
        ({
            let before = turn.calls_of_all(events.take(at));
            let fired = turn.calls_of_all(events);
            &&& before.len() <= fired.len()
            &&& fired.take(before.len() as int) == before
            &&& forall|i: int|
                before.len() <= i < fired.len() ==> !is_event_call(#[trigger] fired[i])
            &&& forall|i: int| at < i < events.len() ==> !(#[trigger] events[i] is Line)
        }),
        ({
            let phase = turn.after_all(events).phase;
            phase != TurnPhase::Launching && phase != TurnPhase::Reading
        }),
    decreases events.len(),
{
    let earlier = events.drop_last();
    let before = turn.calls_of_all(events.take(at));
    let fired = turn.calls_of_all(events);
    if at < earlier.len() {
        assert(earlier[at] == events[at]);
        assert(earlier.take(at) =~= events.take(at));
        stopped_turn_follows_no_events(turn, earlier, at);
        let so_far = turn.calls_of_all(earlier);
        assert(fired.take(before.len() as int) =~= so_far.take(before.len() as int));
        assert forall|i: int| before.len() <= i < fired.len() implies !is_event_call(
            #[trigger] fired[i],
        ) by {
            if i < so_far.len() {
                assert(fired[i] == so_far[i]);
            }
        }
        assert forall|i: int| at < i < events.len() implies !(#[trigger] events[i] is Line) by {
            if i < earlier.len() {
                assert(events[i] == earlier[i]);
            }
        }
    } else {
        assert(earlier =~= events.take(at));
        assert(fired =~= before);
    }
}

/// A line that is read in a turn that is not cancelled is handled as the event that it holds. Where
/// a text in it cannot be cut, the turn is given up.
pub proof fn line_is_followed(turn: TurnView, line: Seq<char>, event: JsonView)
    requires
        turn.phase == TurnPhase::Reading,
        line.len() > 0,
        json_text(line) == Some(event),
    ensures
        ({
            let read = TurnEventView::Line(false, Some(line));
            let p = event_run(event, turn.seen);
            &&& turn.calls_of(read) == p.calls
            &&& turn.after(read).seen == p.seen
            &&& p.fault ==> turn.after(read).phase == TurnPhase::Aborted && turn.action_after(read)
                == TurnAction::Abort
            &&& !p.fault ==> turn.after(read).phase == TurnPhase::Reading && turn.action_after(read)
                == TurnAction::ReadLine
        }),
{
}

/// A line that holds no event changes nothing, and the next one is read.
pub proof fn other_line_changes_nothing(turn: TurnView, line: Option<Seq<char>>)
    requires
        turn.phase == TurnPhase::Reading,
        line is Some ==> line->0.len() == 0 || json_text(line->0) is None,
    ensures
        turn.after(TurnEventView::Line(false, line)) == turn,
        turn.action_after(TurnEventView::Line(false, line)) == TurnAction::ReadLine,
        turn.calls_of(TurnEventView::Line(false, line)) == Seq::<CallbackView>::empty(),
{
}

/// When the output has ended, whether the turn is cancelled decides: a cancelled command is killed,
/// and another one is waited for. Nothing is reported by that.
pub proof fn cancelled_command_is_killed(turn: TurnView, cancelled: bool)
    requires
        turn.phase == TurnPhase::Reading,
    ensures
        ({
            let ended = turn.after(TurnEventView::OutputEnded);
            let checked = TurnEventView::CancelChecked(cancelled);
            &&& ended.phase == TurnPhase::Stopping
            &&& turn.action_after(TurnEventView::OutputEnded) == TurnAction::CheckCancel
            &&& turn.calls_of(TurnEventView::OutputEnded) == Seq::<CallbackView>::empty()
            &&& ended.action_after(checked) == if cancelled {
                TurnAction::Kill
            } else {
                TurnAction::Wait
            }
            &&& ended.after(checked).phase == if cancelled {
                TurnPhase::Collecting
            } else {
                TurnPhase::Waiting
            }
            &&& ended.calls_of(checked) == Seq::<CallbackView>::empty()
        }),
{
}

/// A command that exits with success ends the stream and the turn, which has succeeded. Of one that
/// does not, the error output is asked for first.
pub proof fn exit_decides(turn: TurnView)
    requires
        turn.phase == TurnPhase::Waiting,
    ensures
        turn.after(TurnEventView::Exited(true)).phase == TurnPhase::Finished(true),
        turn.action_after(TurnEventView::Exited(true)) == TurnAction::Finish(true),
        turn.calls_of(TurnEventView::Exited(true)).len() == 1,
        turn.calls_of(TurnEventView::Exited(true))[0] == CallbackView::StreamEnd,
        turn.after(TurnEventView::Exited(false)).phase == TurnPhase::Collecting,
        turn.action_after(TurnEventView::Exited(false)) == TurnAction::CollectErrors,
        turn.calls_of(TurnEventView::Exited(false)) == Seq::<CallbackView>::empty(),
{
}

/// What a failed command wrote to its error output is reported before the stream ends, without the
/// white space around it; there is no error where it wrote nothing else. The result says where the
/// reported part of the error output begins and ends.
pub proof fn error_output_is_reported(turn: TurnView, text: Seq<char>) -> (kept: (int, int))
    requires
        turn.phase == TurnPhase::Collecting,
    ensures
        0 <= kept.0 <= kept.1 <= text.len(),
        forall|i: int| 0 <= i < kept.0 ==> is_white_space(#[trigger] text[i]),
        forall|i: int| kept.1 <= i < text.len() ==> is_white_space(#[trigger] text[i]),
        kept.0 < kept.1 ==> !is_white_space(text[kept.0]) && !is_white_space(text[kept.1 - 1]),
        ({
            let event = TurnEventView::ErrorOutput(text);
            let fired = turn.calls_of(event);
            &&& turn.after(event).phase == TurnPhase::Finished(false)
            &&& turn.action_after(event) == TurnAction::Finish(false)
            &&& fired.len() == if kept.0 < kept.1 {
                2int
            } else {
                1
            }
            &&& fired.last() == CallbackView::StreamEnd
            &&& kept.0 < kept.1 ==> fired[0] == CallbackView::Error(
                text.subrange(kept.0, kept.1),
            )
        }),
{
    let kept = trimming_takes_only_white_space(text);
    trimmed_text_has_bare_ends(text);
    if kept.0 < kept.1 {
        assert(trimmed(text)[0] == text[kept.0]);
        assert(trimmed(text).last() == text[kept.1 - 1]);
    }
    kept
}

/// What came of an action is taken as it was told.
pub proof fn turn_events_are_taken_literally(text: String, flag: bool)
    ensures
        TurnEvent::Launched@ == TurnEventView::Launched,
        TurnEvent::LaunchFailed(text)@ == TurnEventView::LaunchFailed(text@),
        TurnEvent::Line(flag, Some(text))@ == TurnEventView::Line(flag, Some(text@)),
        TurnEvent::Line(flag, None)@ == TurnEventView::Line(flag, None),
        TurnEvent::OutputEnded@ == TurnEventView::OutputEnded,
        TurnEvent::CancelChecked(flag)@ == TurnEventView::CancelChecked(flag),
        TurnEvent::Exited(flag)@ == TurnEventView::Exited(flag),
        TurnEvent::ErrorOutput(text)@ == TurnEventView::ErrorOutput(text@),
{
}

} // verus!
