//! Terminal sessions: the launch of a command on a pseudo-terminal, the loop that reads its
//! output, resizing, and the end of a session.
//!
//! The pseudo-terminal itself lives outside. A [`PtySession`] keeps track of which of its parts are
//! there and says what is to be done with them.

use crate::callback::{Callback, CallbackView, Report, calls, reports};
use crate::environment::{
    CommandPlan, CommandView, EnvOp, EnvOpView, changes, env_after, env_after_concat,
    env_last_change_wins, set_all, settings, settings_give_their_values, value_in, value_of,
};
use crate::text::{pairs, texts};
use vstd::prelude::*;
use vstd::string::*;

verus! {

// ---------------------------------------------------------------------------
// Sizes
// ---------------------------------------------------------------------------

/// Packs a size into one number: columns in the high half, rows in the low half.
pub fn pack_size(cols: u16, rows: u16) -> (v: u32)
    ensures
        v == cols * 0x1_0000 + rows,
{
    let (c, r) = (cols as u32, rows as u32);
    assert((c << 16) | r == c * 0x1_0000 + r) by (bit_vector)
        requires
            c <= 0xFFFF,
            r <= 0xFFFF,
    ;
    (c << 16) | r
}

/// Takes a packed size apart: columns, then rows.
pub fn unpack_size(v: u32) -> (size: (u16, u16))
    ensures
        size.0 == v / 0x1_0000,
        size.1 == v % 0x1_0000,
{
    assert(v >> 16 == v / 0x1_0000) by (bit_vector);
    assert(v & 0xFFFF == v % 0x1_0000) by (bit_vector);
    ((v >> 16) as u16, (v & 0xFFFF) as u16)
}

/// A size as one number: columns in the high half, rows in the low half.
pub open spec fn packed(cols: u16, rows: u16) -> int {
    cols * 0x1_0000 + rows
}

/// Packing loses nothing, and every number is the packed form of one size.
pub proof fn packing_is_lossless(cols: u16, rows: u16, v: u32)
    ensures
        0 <= packed(cols, rows) <= u32::MAX,
        packed(cols, rows) / 0x1_0000 == cols,
        packed(cols, rows) % 0x1_0000 == rows,
        packed((v / 0x1_0000) as u16, (v % 0x1_0000) as u16) == v,
{
}

/// Only the size without columns and rows packs to zero, which stands for "no size".
pub proof fn only_the_empty_size_is_zero(cols: u16, rows: u16)
    ensures
        packed(cols, rows) == 0 <==> cols == 0 && rows == 0,
{
}

/// The size of a terminal.
#[derive(Debug, Clone, Copy, PartialEq, Eq, Structural)]
pub struct TermSize {
    pub cols: u16,
    pub rows: u16,
}

// ---------------------------------------------------------------------------
// Sessions
// ---------------------------------------------------------------------------

/// A terminal session.
#[derive(Debug)]
pub struct PtySession {
    master: bool,
    writer: bool,
    killer: bool,
    callbacks: Option<u64>,
    cancelled: bool,
    pending_size: u32,
}

/// A terminal session, mathematically.
pub struct PtyView {
    /// Whether the terminal is open, and can be resized.
    pub master: bool,
    /// Whether there is somewhere to write input to.
    pub writer: bool,
    /// Whether there is a command that can be killed.
    pub killer: bool,
    /// The callbacks that were registered last.
    pub callbacks: Option<u64>,
    /// Whether the session was ended.
    pub cancelled: bool,
    /// The size that the reader of the output is still to take over: none if both are zero.
    pub pending: TermSize,
}

impl View for PtySession {
    type V = PtyView;

    closed spec fn view(&self) -> PtyView {
        PtyView {
            master: self.master,
            writer: self.writer,
            killer: self.killer,
            callbacks: self.callbacks,
            cancelled: self.cancelled,
            pending: TermSize {
                cols: (self.pending_size / 0x1_0000) as u16,
                rows: (self.pending_size % 0x1_0000) as u16,
            },
        }
    }
}

/// No size at all.
pub open spec fn no_size() -> TermSize {
    TermSize { cols: 0, rows: 0 }
}

/// The outside work of a launch, in order.
#[derive(Debug, Clone, Copy, PartialEq, Eq, Structural)]
pub enum LaunchStage {
    Open,
    Spawn,
    TakeWriter,
    CloneReader,
}

impl LaunchStage {
    /// What comes after a stage that went well.
    pub open spec fn next(self) -> Option<LaunchStage> {
        match self {
            LaunchStage::Open => Some(LaunchStage::Spawn),
            LaunchStage::Spawn => Some(LaunchStage::TakeWriter),
            LaunchStage::TakeWriter => Some(LaunchStage::CloneReader),
            LaunchStage::CloneReader => None,
        }
    }

    /// How the failure of a stage is announced.
    pub open spec fn complaint(self) -> Seq<char> {
        match self {
            LaunchStage::Open => "openpty failed: "@,
            LaunchStage::Spawn => "spawn failed: "@,
            LaunchStage::TakeWriter => "take_writer failed: "@,
            LaunchStage::CloneReader => "try_clone_reader failed: "@,
        }
    }
}

/// Where a launch stands.
#[derive(Debug, Clone, Copy, PartialEq, Eq, Structural)]
pub enum LaunchPhase {
    /// The stage is under way.
    At(LaunchStage),
    /// All stages went well: the command runs.
    Running,
    /// A stage failed.
    Failed,
}

/// What is to be done after a stage of a launch.
#[derive(Debug, PartialEq, Eq)]
pub enum LaunchStep {
    /// The next stage.
    Next(LaunchStage),
    /// The command runs, and its output is to be read.
    Running(OutputReader),
    /// The launch is over; the failure is to be reported.
    Failed(Option<Report>),
}

/// A launch: the size of the terminal to open, the command to run on it, and how far it has come.
#[derive(Debug)]
pub struct PtyLaunch {
    size: TermSize,
    command: CommandPlan,
    phase: LaunchPhase,
}

/// A launch, mathematically.
pub struct LaunchView {
    pub size: TermSize,
    pub command: CommandView,
    pub phase: LaunchPhase,
}

impl View for PtyLaunch {
    type V = LaunchView;

    closed spec fn view(&self) -> LaunchView {
        LaunchView { size: self.size, command: self.command@, phase: self.phase }
    }
}

/// What came of a stage, with the reason of a failure as text.
pub open spec fn outcome_text(outcome: Result<(), String>) -> Result<(), Seq<char>> {
    match outcome {
        Ok(_) => Ok(()),
        Err(reason) => Err(reason@),
    }
}

/// Where the reading of output stands.
#[derive(Debug, Clone, Copy, PartialEq, Eq, Structural)]
pub enum ReaderPhase {
    /// Nothing was done yet.
    Starting,
    /// Whether reading goes on is to be found out.
    Idle,
    /// Output is being read.
    Reading,
    /// Bytes that were read are being processed.
    Processing,
    /// Reading has ended.
    Done,
}

/// What came of reading output.
#[derive(Debug, Clone, Copy, PartialEq, Eq, Structural)]
pub enum ReadOutcome {
    /// That many bytes were read.
    Bytes(usize),
    /// Reading failed.
    Failed,
}

/// What came of the last action of a reader.
#[derive(Debug)]
pub enum ReadEvent {
    /// The reader starts.
    Begin,
    /// What was asked for is done, and reading may go on.
    Ready,
    /// Output was read.
    Read(ReadOutcome),
    /// The bytes were processed; the screen is given where it changed.
    Processed(Option<String>),
}

/// What came of the last action of a reader, mathematically.
pub enum ReadEventView {
    Begin,
    Ready,
    Read(ReadOutcome),
    Processed(Option<Seq<char>>),
}

impl View for ReadEvent {
    type V = ReadEventView;

    open spec fn view(&self) -> ReadEventView {
        match *self {
            ReadEvent::Begin => ReadEventView::Begin,
            ReadEvent::Ready => ReadEventView::Ready,
            ReadEvent::Read(outcome) => ReadEventView::Read(outcome),
            ReadEvent::Processed(screen) => ReadEventView::Processed(
                match screen {
                    Some(s) => Some(s@),
                    None => None,
                },
            ),
        }
    }
}

/// What a reader is to do next.
#[derive(Debug, Clone, Copy, PartialEq, Eq, Structural)]
pub enum ReadAction {
    /// Set up a screen of the given size.
    Open(TermSize),
    /// Read output.
    Read,
    /// Give the screen the size, if there is one, then process that many bytes.
    Process(Option<TermSize>, usize),
    /// Go on.
    GoOn,
    /// Nothing: reading has ended.
    Finish,
}

/// What a step of a reader asks for: first the report, then the action.
#[derive(Debug, PartialEq, Eq)]
pub struct ReadStep {
    pub report: Option<Report>,
    pub action: ReadAction,
}

/// A reader of the output of one launched command.
#[derive(Debug, PartialEq, Eq)]
pub struct OutputReader {
    phase: ReaderPhase,
}

impl View for OutputReader {
    type V = ReaderPhase;

    closed spec fn view(&self) -> ReaderPhase {
        self.phase
    }
}

// ---------------------------------------------------------------------------
// Error screens
// ---------------------------------------------------------------------------

/// How a character is written into the text of an error screen: a quote is escaped, a carriage
/// return is dropped, and a line feed becomes a space.
pub open spec fn screen_char(c: char) -> Seq<char> {
    if c == '"' {
        seq!['\\', '"']
    } else if c == '\r' {
        Seq::empty()
    } else if c == '\n' {
        seq![' ']
    } else {
        seq![c]
    }
}

/// How a text is written into an error screen.
pub open spec fn screen_text(text: Seq<char>) -> Seq<char>
    decreases text.len(),
{
    if text.len() == 0 {
        Seq::empty()
    } else {
        screen_text(text.drop_last()) + screen_char(text.last())
    }
}

/// The screen that shows an error: one row with the message in it.
pub open spec fn error_screen(message: Seq<char>) -> Seq<char> {
    "{\"rows\":1,\"cols\":80,\"cy\":0,\"cx\":0,\"cv\":true,\"lines\":[{\"t\":\""@ + screen_text(
        "\r\nError: "@ + message + "\r\n"@,
    ) + "\",\"s\":[]}]}"@
}

fn write_screen_text(text: &str, out: &mut String)
    ensures
        final(out)@ == old(out)@ + screen_text(text@),
{
    let ghost before = out@;
    for c in it: text.chars()
        invariant
            it.seq() == text@,
            out@ == before + screen_text(text@.take(it.index())),
    {
        assert(text@.take(it.index() + 1).drop_last() =~= text@.take(it.index()));
        let ghost so_far = out@;
        if c == '"' {
            out.push('\\');
            out.push('"');
        } else if c == '\r' {
        } else if c == '\n' {
            out.push(' ');
        } else {
            out.push(c);
        }
        assert(out@ =~= so_far + screen_char(c));
    }
    assert(text@.take(text@.len() as int) =~= text@);
}

/// The screen that shows an error: one row with the message in it.
pub fn error_screen_json(message: &str) -> (json: String)
    ensures
        json@ == error_screen(message@),
{
    let mut text = "\r\nError: ".to_owned();
    text.append(message);
    text.append("\r\n");
    let mut json =
        "{\"rows\":1,\"cols\":80,\"cy\":0,\"cx\":0,\"cv\":true,\"lines\":[{\"t\":\"".to_owned();
    write_screen_text(text.as_str(), &mut json);
    json.append("\",\"s\":[]}]}");
    json
}

// ---------------------------------------------------------------------------
// What a session does
// ---------------------------------------------------------------------------

/// A change to a session.
pub enum PtyOp {
    /// Callbacks are registered.
    Register(u64),
    /// A command was launched on a terminal of the given size.
    Launched(TermSize),
    /// The terminal is given another size.
    Resize(TermSize),
    /// The reader of the output takes over the pending size.
    TakeSize,
    /// The session is ended.
    Kill,
}

impl PtyView {
    /// A session after a change.
    pub open spec fn after(self, op: PtyOp) -> PtyView {
        match op {
            PtyOp::Register(target) => PtyView { callbacks: Some(target), ..self },
            PtyOp::Launched(size) => PtyView {
                master: true,
                writer: true,
                killer: true,
                pending: size,
                ..self
            },
            PtyOp::Resize(size) => PtyView { pending: size, ..self },
            PtyOp::TakeSize => PtyView { pending: no_size(), ..self },
            PtyOp::Kill => PtyView { cancelled: true, master: false, ..self },
        }
    }

    /// A session after a run of changes.
    pub open spec fn after_all(self, ops: Seq<PtyOp>) -> PtyView
        decreases ops.len(),
    {
        if ops.len() == 0 {
            self
        } else {
            self.after_all(ops.drop_last()).after(ops.last())
        }
    }

    /// The size that the reader is to take over, if there is one.
    pub open spec fn pending_size(self) -> Option<TermSize> {
        if self.pending == no_size() {
            None
        } else {
            Some(self.pending)
        }
    }
}

/// A session on which nothing was done yet.
pub open spec fn new_session() -> PtyView {
    PtyView {
        master: false,
        writer: false,
        killer: false,
        callbacks: None,
        cancelled: false,
        pending: no_size(),
    }
}

/// The command of a terminal session: the variables of the login shell are set after the others.
pub open spec fn pty_command_view(
    program: Seq<char>,
    args: Seq<Seq<char>>,
    extra_env: Seq<(Seq<char>, Seq<char>)>,
    cwd: Seq<char>,
    shell_env: Seq<(Seq<char>, Seq<char>)>,
) -> CommandView {
    CommandView { program, args, cwd, env: settings(extra_env) + settings(shell_env) }
}

/// A launch that has just been planned.
pub open spec fn new_launch(size: TermSize, command: CommandView) -> LaunchView {
    LaunchView { size, command, phase: LaunchPhase::At(LaunchStage::Open) }
}

impl LaunchView {
    /// The launch after its current stage had the given outcome.
    pub open spec fn after(self, outcome: Result<(), Seq<char>>) -> LaunchView {
        let phase = match self.phase {
            LaunchPhase::At(stage) => match outcome {
                Ok(_) => match stage.next() {
                    Some(next) => LaunchPhase::At(next),
                    None => LaunchPhase::Running,
                },
                Err(_) => LaunchPhase::Failed,
            },
            over => over,
        };
        LaunchView { phase, ..self }
    }

    /// The changes to the session that an outcome of the current stage gives rise to: none but
    /// once all stages went well.
    pub open spec fn changes_of(self, outcome: Result<(), Seq<char>>) -> Seq<PtyOp> {
        if self.phase is At && self.after(outcome).phase == LaunchPhase::Running {
            seq![PtyOp::Launched(self.size)]
        } else {
            Seq::empty()
        }
    }

    /// The callbacks that an outcome of the current stage gives rise to.
    pub open spec fn calls_of(self, outcome: Result<(), Seq<char>>) -> Seq<CallbackView> {
        match (self.phase, outcome) {
            (LaunchPhase::At(stage), Err(reason)) => failure_calls(stage.complaint() + reason),
            _ => Seq::empty(),
        }
    }
}

/// A session together with a reader of its output.
pub struct ReadingView {
    pub session: PtyView,
    pub phase: ReaderPhase,
}

impl ReaderPhase {
    /// Whether the event can come of the action that a reader in this phase is waiting for.
    pub open spec fn accepts(self, event: ReadEventView) -> bool {
        match event {
            ReadEventView::Begin => self == ReaderPhase::Starting,
            ReadEventView::Ready => self == ReaderPhase::Idle,
            ReadEventView::Read(_) => self == ReaderPhase::Reading,
            ReadEventView::Processed(_) => self == ReaderPhase::Processing,
        }
    }
}

impl ReadingView {
    /// What becomes of both by an event. A pending size is taken over at the start, and with each
    /// output that was read.
    pub open spec fn after(self, event: ReadEventView) -> ReadingView {
        match event {
            ReadEventView::Begin => ReadingView {
                session: self.session.after(PtyOp::TakeSize),
                phase: ReaderPhase::Idle,
            },
            ReadEventView::Ready => ReadingView {
                phase: if self.session.cancelled {
                    ReaderPhase::Done
                } else {
                    ReaderPhase::Reading
                },
                ..self
            },
            ReadEventView::Read(outcome) => if outcome.is_end() {
                ReadingView { phase: ReaderPhase::Done, ..self }
            } else {
                ReadingView {
                    session: self.session.after(PtyOp::TakeSize),
                    phase: ReaderPhase::Processing,
                }
            },
            ReadEventView::Processed(_) => ReadingView { phase: ReaderPhase::Idle, ..self },
        }
    }

    /// What is to be done after an event. A size that was set while output was awaited is taken
    /// over before the bytes are processed, so that they are processed at that size.
    pub open spec fn action_after(self, event: ReadEventView) -> ReadAction {
        match event {
            ReadEventView::Begin => ReadAction::Open(self.session.pending),
            ReadEventView::Ready => if self.session.cancelled {
                ReadAction::Finish
            } else {
                ReadAction::Read
            },
            ReadEventView::Read(ReadOutcome::Bytes(n)) => if n == 0 {
                ReadAction::Finish
            } else {
                ReadAction::Process(self.session.pending_size(), n)
            },
            ReadEventView::Read(ReadOutcome::Failed) => ReadAction::Finish,
            ReadEventView::Processed(_) => ReadAction::GoOn,
        }
    }

    /// The call that an event gives rise to: a screen that changed is shown, and the end of the
    /// output is reported unless the session was ended from this side.
    pub open spec fn call_of(self, event: ReadEventView) -> Option<CallbackView> {
        match event {
            ReadEventView::Processed(Some(screen)) => Some(CallbackView::ScreenUpdate(screen)),
            ReadEventView::Read(outcome) => if outcome.is_end() && !self.session.cancelled {
                Some(CallbackView::Exit)
            } else {
                None
            },
            _ => None,
        }
    }
}

impl ReadOutcome {
    /// Whether there is no more output.
    pub open spec fn is_end(self) -> bool {
        match self {
            ReadOutcome::Bytes(n) => n == 0,
            ReadOutcome::Failed => true,
        }
    }
}

/// What is reported of a session that could not be launched: the message, and that it is over.
pub open spec fn failure_calls(message: Seq<char>) -> Seq<CallbackView> {
    seq![CallbackView::ScreenUpdate(error_screen(message)), CallbackView::Exit]
}

impl PtySession {
    /// A session on which nothing was done yet.
    pub fn new() -> (session: PtySession)
        ensures
            session@ == new_session(),
    {
        PtySession {
            master: false,
            writer: false,
            killer: false,
            callbacks: None,
            cancelled: false,
            pending_size: 0,
        }
    }

    /// Registers the object that is called back, by a number under which it is found again.
    pub fn register_callbacks(&mut self, target: u64)
        ensures
            final(self)@ == old(self)@.after(PtyOp::Register(target)),
    {
        self.callbacks = Some(target);
    }

    /// Plans the launch of a command. What comes of each stage of the launch, from opening the
    /// terminal on, is then handed to [`PtyLaunch::step`].
    pub fn start(
        &self,
        cmd: String,
        args: Vec<String>,
        extra_env: &Vec<(String, String)>,
        cwd: String,
        cols: u16,
        rows: u16,
        shell_env: &Vec<(String, String)>,
    ) -> (launch: PtyLaunch)
        ensures
            launch@ == new_launch(
                TermSize { cols, rows },
                pty_command_view(
                    cmd@,
                    texts(args@),
                    pairs(extra_env@),
                    cwd@,
                    pairs(shell_env@),
                ),
            ),
    {
        let mut env: Vec<EnvOp> = Vec::new();
        assert(changes(env@) =~= Seq::empty());
        set_all(&mut env, extra_env);
        assert(changes(env@) =~= settings(pairs(extra_env@)));
        set_all(&mut env, shell_env);
        PtyLaunch {
            size: TermSize { cols, rows },
            command: CommandPlan { program: cmd, args, cwd, env },
            phase: LaunchPhase::At(LaunchStage::Open),
        }
    }

    /// Reports one call.
    fn report(&self, call: Callback) -> (report: Option<Report>)
        ensures
            reports(report, self@.callbacks, seq![call@]),
    {
        match self.callbacks {
            Some(target) => {
                let ghost made = call@;
                let mut callbacks: Vec<Callback> = Vec::new();
                callbacks.push(call);
                assert(calls(callbacks@) =~= seq![made]);
                Some(Report { target, callbacks })
            },
            None => None,
        }
    }

    /// Reports an error as a screen of its own, and that the session is over.
    pub fn write_error(&self, msg: &str) -> (report: Option<Report>)
        ensures
            reports(report, self@.callbacks, failure_calls(msg@)),
    {
        match self.callbacks {
            Some(target) => {
                let mut callbacks: Vec<Callback> = Vec::new();
                callbacks.push(Callback::ScreenUpdate(error_screen_json(msg)));
                callbacks.push(Callback::Exit);
                assert(calls(callbacks@) =~= failure_calls(msg@));
                Some(Report { target, callbacks })
            },
            None => None,
        }
    }

    /// The input that is to be written and flushed: all of it, if there is somewhere to write to.
    pub fn write_input<'a>(&self, data: &'a [u8]) -> (input: Option<&'a [u8]>)
        ensures
            input == (if self@.writer {
                Some(data)
            } else {
                None
            }),
    {
        if self.writer {
            Some(data)
        } else {
            None
        }
    }

    /// Gives the terminal another size. The result is the size that an open terminal is to be
    /// given.
    pub fn resize(&mut self, cols: u16, rows: u16) -> (size: Option<TermSize>)
        ensures
            final(self)@ == old(self)@.after(PtyOp::Resize(TermSize { cols, rows })),
            size == (if old(self)@.master {
                Some(TermSize { cols, rows })
            } else {
                None
            }),
    {
        self.pending_size = pack_size(cols, rows);
        if self.master {
            Some(TermSize { cols, rows })
        } else {
            None
        }
    }

    /// Ends the session; its terminal is to be closed. The result says whether there is a command
    /// to kill.
    pub fn kill(&mut self) -> (kill: bool)
        ensures
            final(self)@ == old(self)@.after(PtyOp::Kill),
            kill == old(self)@.killer,
    {
        self.cancelled = true;
        self.master = false;
        self.killer
    }
}

impl PtyLaunch {
    /// The size of the terminal to open.
    pub fn size(&self) -> (size: TermSize)
        ensures
            size == self@.size,
    {
        self.size
    }

    /// The command to run.
    pub fn command(&self) -> (command: &CommandPlan)
        ensures
            command@ == self@.command,
    {
        &self.command
    }

    /// Where the launch stands.
    pub fn phase(&self) -> (phase: LaunchPhase)
        ensures
            phase == self@.phase,
    {
        self.phase
    }

    /// Goes on after the stage that is under way. The session changes only once all stages went
    /// well; the first failure ends the launch and is reported.
    pub fn step(&mut self, session: &mut PtySession, outcome: Result<(), String>) -> (step:
        LaunchStep)
        requires
            old(self)@.phase is At,
        ensures
            final(self)@ == old(self)@.after(outcome_text(outcome)),
            final(session)@ == old(session)@.after_all(
                old(self)@.changes_of(outcome_text(outcome)),
            ),
            match final(self)@.phase {
                LaunchPhase::At(stage) => step == LaunchStep::Next(stage),
                LaunchPhase::Running => step is Running && step->Running_0@
                    == ReaderPhase::Starting,
                LaunchPhase::Failed => step is Failed && reports(
                    step->Failed_0,
                    old(session)@.callbacks,
                    old(self)@.calls_of(outcome_text(outcome)),
                ),
            },
    {
        let ghost ops = self@.changes_of(outcome_text(outcome));
        proof {
            reveal_with_fuel(PtyView::after_all, 2);
            assert(ops.len() > 0 ==> ops.drop_last() =~= Seq::empty());
        }
        let stage = match self.phase {
            LaunchPhase::At(stage) => stage,
            // A launch that is over takes no outcome.
            _ => LaunchStage::Open,
        };
        match outcome {
            Ok(_) => {
                let next = match stage {
                    LaunchStage::Open => LaunchStage::Spawn,
                    LaunchStage::Spawn => LaunchStage::TakeWriter,
                    LaunchStage::TakeWriter => LaunchStage::CloneReader,
                    LaunchStage::CloneReader => {
                        session.master = true;
                        session.writer = true;
                        session.killer = true;
                        session.pending_size = pack_size(self.size.cols, self.size.rows);
                        self.phase = LaunchPhase::Running;
                        return LaunchStep::Running(OutputReader { phase: ReaderPhase::Starting });
                    },
                };
                self.phase = LaunchPhase::At(next);
                LaunchStep::Next(next)
            },
            Err(reason) => {
                let complaint = match stage {
                    LaunchStage::Open => "openpty failed: ",
                    LaunchStage::Spawn => "spawn failed: ",
                    LaunchStage::TakeWriter => "take_writer failed: ",
                    LaunchStage::CloneReader => "try_clone_reader failed: ",
                };
                let mut message = complaint.to_owned();
                message.append(reason.as_str());
                self.phase = LaunchPhase::Failed;
                LaunchStep::Failed(session.write_error(message.as_str()))
            },
        }
    }
}

impl OutputReader {
    /// Where reading stands.
    pub fn phase(&self) -> (phase: ReaderPhase)
        ensures
            phase == self@,
    {
        self.phase
    }

    /// Whether the event can come of the action that the reader is waiting for.
    pub fn accepts(&self, event: &ReadEvent) -> (yes: bool)
        ensures
            yes == self@.accepts(event@),
    {
        match event {
            ReadEvent::Begin => self.phase == ReaderPhase::Starting,
            ReadEvent::Ready => self.phase == ReaderPhase::Idle,
            ReadEvent::Read(_) => self.phase == ReaderPhase::Reading,
            ReadEvent::Processed(_) => self.phase == ReaderPhase::Processing,
        }
    }

    /// Takes the reading of a session's output one step further.
    pub fn step(&mut self, session: &mut PtySession, event: ReadEvent) -> (step: ReadStep)
        requires
            old(self)@.accepts(event@),
        ensures
            ({
                let before = ReadingView { session: old(session)@, phase: old(self)@ };
                let after = ReadingView { session: final(session)@, phase: final(self)@ };
                &&& after == before.after(event@)
                &&& step.action == before.action_after(event@)
                &&& match before.call_of(event@) {
                    Some(call) => reports(step.report, old(session)@.callbacks, seq![call]),
                    None => step.report is None,
                }
            }),
    {
        match event {
            ReadEvent::Begin => {
                let (cols, rows) = unpack_size(session.pending_size);
                session.pending_size = 0;
                self.phase = ReaderPhase::Idle;
                ReadStep { report: None, action: ReadAction::Open(TermSize { cols, rows }) }
            },
            ReadEvent::Ready => if session.cancelled {
                self.phase = ReaderPhase::Done;
                ReadStep { report: None, action: ReadAction::Finish }
            } else {
                self.phase = ReaderPhase::Reading;
                ReadStep { report: None, action: ReadAction::Read }
            },
            ReadEvent::Read(outcome) => {
                let n: usize = match outcome {
                    ReadOutcome::Bytes(n) => n,
                    ReadOutcome::Failed => 0,
                };
                if n == 0 {
                    self.phase = ReaderPhase::Done;
                    let report = if session.cancelled {
                        None
                    } else {
                        session.report(Callback::Exit)
                    };
                    ReadStep { report, action: ReadAction::Finish }
                } else {
                    let packed_size: u32 = session.pending_size;
                    session.pending_size = 0;
                    self.phase = ReaderPhase::Processing;
                    let size = if packed_size != 0 {
                        let (cols, rows) = unpack_size(packed_size);
                        Some(TermSize { cols, rows })
                    } else {
                        None
                    };
                    ReadStep { report: None, action: ReadAction::Process(size, n) }
                }
            },
            ReadEvent::Processed(screen) => {
                self.phase = ReaderPhase::Idle;
                let report = match screen {
                    Some(json) => session.report(Callback::ScreenUpdate(json)),
                    None => None,
                };
                ReadStep { report, action: ReadAction::GoOn }
            },
        }
    }
}

// ---------------------------------------------------------------------------
// Laws
// ---------------------------------------------------------------------------

/// The reader takes over the size that was set last, once, and no size where none was set.
pub proof fn last_resize_is_taken(session: PtyView, ops: Seq<PtyOp>, size: TermSize)
    requires
        ops.len() > 0,
        ops.last() == PtyOp::Resize(size) || ops.last() == PtyOp::Launched(size),
    ensures
        session.after_all(ops).pending == size,
        size != no_size() ==> session.after_all(ops).pending_size() == Some(size),
        size == no_size() ==> session.after_all(ops).pending_size() is None,
        session.after_all(ops).after(PtyOp::TakeSize).pending_size() is None,
{
}

/// A session that was ended stays ended, whatever is done with it afterwards.
pub proof fn ended_stays_ended(session: PtyView, ops: Seq<PtyOp>)
    requires
        session.cancelled || exists|i: int| 0 <= i < ops.len() && ops[i] == PtyOp::Kill,
    ensures
        session.after_all(ops).cancelled,
    decreases ops.len(),
{
    if ops.len() > 0 && ops.last() != PtyOp::Kill {
        if !session.cancelled {
            let i = choose|i: int| 0 <= i < ops.len() && ops[i] == PtyOp::Kill;
            assert(ops.drop_last()[i] == PtyOp::Kill);
        }
        ended_stays_ended(session, ops.drop_last());
    }
}

/// A session that nobody ended is not ended.
pub proof fn only_kill_ends(session: PtyView, ops: Seq<PtyOp>)
    requires
        !session.cancelled,
        forall|i: int| 0 <= i < ops.len() ==> #[trigger] ops[i] != PtyOp::Kill,
    ensures
        !session.after_all(ops).cancelled,
    decreases ops.len(),
{
    if ops.len() > 0 {
        assert(ops.last() != PtyOp::Kill);
        assert forall|i: int| 0 <= i < ops.drop_last().len() implies #[trigger] ops.drop_last()[i]
            != PtyOp::Kill by {
            assert(ops.drop_last()[i] == ops[i]);
        }
        only_kill_ends(session, ops.drop_last());
    }
}

impl LaunchView {
    /// The launch after a run of outcomes.
    pub open spec fn after_all(self, outcomes: Seq<Result<(), Seq<char>>>) -> LaunchView
        decreases outcomes.len(),
    {
        if outcomes.len() == 0 {
            self
        } else {
            self.after_all(outcomes.drop_last()).after(outcomes.last())
        }
    }

    /// Whether a stage is under way for each of a run of outcomes.
    pub open spec fn accepts_all(self, outcomes: Seq<Result<(), Seq<char>>>) -> bool
        decreases outcomes.len(),
    {
        outcomes.len() > 0 ==> {
            &&& self.accepts_all(outcomes.drop_last())
            &&& self.after_all(outcomes.drop_last()).phase is At
        }
    }

    /// The changes to the session that a run of outcomes gives rise to.
    pub open spec fn changes_of_all(self, outcomes: Seq<Result<(), Seq<char>>>) -> Seq<PtyOp>
        decreases outcomes.len(),
    {
        if outcomes.len() == 0 {
            Seq::empty()
        } else {
            self.changes_of_all(outcomes.drop_last()) + self.after_all(
                outcomes.drop_last(),
            ).changes_of(outcomes.last())
        }
    }

    /// The callbacks that a run of outcomes gives rise to.
    pub open spec fn calls_of_all(self, outcomes: Seq<Result<(), Seq<char>>>) -> Seq<CallbackView>
        decreases outcomes.len(),
    {
        if outcomes.len() == 0 {
            Seq::empty()
        } else {
            self.calls_of_all(outcomes.drop_last()) + self.after_all(outcomes.drop_last()).calls_of(
                outcomes.last(),
            )
        }
    }
}

/// The stages of a launch, in order.
pub open spec fn launch_stages() -> Seq<LaunchStage> {
    seq![
        LaunchStage::Open,
        LaunchStage::Spawn,
        LaunchStage::TakeWriter,
        LaunchStage::CloneReader,
    ]
}

/// A launch goes through its stages in order, as long as each goes well; nothing is reported, and
/// the session stays as it is, until the last one did. Then the session changes, once.
pub proof fn launch_changes_the_session_at_its_end(
    launch: LaunchView,
    outcomes: Seq<Result<(), Seq<char>>>,
)
    requires
        launch == new_launch(launch.size, launch.command),
        launch.accepts_all(outcomes),
        forall|i: int| 0 <= i < outcomes.len() ==> #[trigger] outcomes[i] is Ok,
    ensures
        outcomes.len() <= launch_stages().len(),
        launch.after_all(outcomes) == (LaunchView {
            phase: if outcomes.len() < launch_stages().len() {
                LaunchPhase::At(launch_stages()[outcomes.len() as int])
            } else {
                LaunchPhase::Running
            },
            ..launch
        }),
        launch.changes_of_all(outcomes) == (if outcomes.len() < launch_stages().len() {
            Seq::<PtyOp>::empty()
        } else {
            seq![PtyOp::Launched(launch.size)]
        }),
        launch.calls_of_all(outcomes) == Seq::<CallbackView>::empty(),
    decreases outcomes.len(),
{
    if outcomes.len() > 0 {
        assert(outcomes.last() is Ok);
        assert forall|i: int| 0 <= i < outcomes.drop_last().len() implies
            #[trigger] outcomes.drop_last()[i] is Ok by {
            assert(outcomes.drop_last()[i] == outcomes[i]);
        }
        launch_changes_the_session_at_its_end(launch, outcomes.drop_last());
    }
}

/// The first stage that fails ends the launch: the failure of this stage is all that is reported,
/// the session stays as it is, and no further stage is gone through.
pub proof fn first_failure_ends_a_launch(
    launch: LaunchView,
    outcomes: Seq<Result<(), Seq<char>>>,
    at: int,
)
    requires
        launch == new_launch(launch.size, launch.command),
        launch.accepts_all(outcomes),
        0 <= at < outcomes.len(),
        outcomes[at] is Err,
    ensures
        at == outcomes.len() - 1,
        at < launch_stages().len(),
        launch.after_all(outcomes).phase == LaunchPhase::Failed,
        launch.changes_of_all(outcomes) == Seq::<PtyOp>::empty(),
        launch.calls_of_all(outcomes) == failure_calls(
            launch_stages()[at].complaint() + outcomes[at]->Err_0,
        ),
        forall|i: int| 0 <= i < at ==> #[trigger] outcomes[i] is Ok,
    decreases outcomes.len(),
{
    let earlier = outcomes.drop_last();
    if at < earlier.len() {
        assert(earlier[at] == outcomes[at]);
        first_failure_ends_a_launch(launch, earlier, at);
    } else {
        assert forall|i: int| 0 <= i < earlier.len() implies #[trigger] earlier[i] is Ok by {
            if earlier[i] is Err {
                first_failure_ends_a_launch(launch, earlier, i);
            }
        }
        assert forall|i: int| 0 <= i < at implies #[trigger] outcomes[i] is Ok by {
            assert(earlier[i] == outcomes[i]);
        }
        launch_changes_the_session_at_its_end(launch, earlier);
        assert(launch.calls_of_all(outcomes) =~= failure_calls(
            launch_stages()[at].complaint() + outcomes[at]->Err_0,
        ));
    }
}

/// What happens while output is read: a step of the reader, or a change to the session from
/// elsewhere.
pub enum Moment {
    Reader(ReadEventView),
    Session(PtyOp),
}

impl ReadingView {
    /// What becomes of both by what happens.
    pub open spec fn after_moment(self, moment: Moment) -> ReadingView {
        match moment {
            Moment::Reader(event) => self.after(event),
            Moment::Session(op) => ReadingView { session: self.session.after(op), ..self },
        }
    }

    /// The calls that the reader makes thereby, each with the object that it is made on.
    pub open spec fn made(self, moment: Moment) -> Seq<(u64, CallbackView)> {
        match moment {
            Moment::Reader(event) => match (self.call_of(event), self.session.callbacks) {
                (Some(call), Some(target)) => seq![(target, call)],
                _ => Seq::empty(),
            },
            Moment::Session(_) => Seq::empty(),
        }
    }

    /// What becomes of both by a run of moments.
    pub open spec fn after_all(self, moments: Seq<Moment>) -> ReadingView
        decreases moments.len(),
    {
        if moments.len() == 0 {
            self
        } else {
            self.after_all(moments.drop_last()).after_moment(moments.last())
        }
    }

    /// Whether the reader is waiting for each of its events in a run of moments. The session may
    /// change at any time.
    pub open spec fn accepts_all(self, moments: Seq<Moment>) -> bool
        decreases moments.len(),
    {
        moments.len() > 0 ==> {
            &&& self.accepts_all(moments.drop_last())
            &&& moments.last() matches Moment::Reader(event) ==> self.after_all(
                moments.drop_last(),
            ).phase.accepts(event)
        }
    }

    /// The calls that the reader makes in a run of moments.
    pub open spec fn made_all(self, moments: Seq<Moment>) -> Seq<(u64, CallbackView)>
        decreases moments.len(),
    {
        if moments.len() == 0 {
            Seq::empty()
        } else {
            self.made_all(moments.drop_last()) + self.after_all(moments.drop_last()).made(
                moments.last(),
            )
        }
    }
}

/// A reader reports screens and, at most once and after all of them, the exit; once it did, it has
/// ended.
pub proof fn exit_comes_once_and_last(reading: ReadingView, moments: Seq<Moment>)
    requires
        reading.phase == ReaderPhase::Starting,
        reading.accepts_all(moments),
    ensures
        ({
            let made = reading.made_all(moments);
            forall|i: int|
                0 <= i < made.len() ==> {
                    ||| (#[trigger] made[i]).1 is ScreenUpdate
                    ||| made[i].1 == CallbackView::Exit && i == made.len() - 1 && reading.after_all(
                        moments,
                    ).phase == ReaderPhase::Done
                }
        }),
    decreases moments.len(),
{
    if moments.len() > 0 {
        let earlier = moments.drop_last();
        exit_comes_once_and_last(reading, earlier);
        let (before, made) = (reading.made_all(earlier), reading.made_all(moments));
        assert forall|i: int| 0 <= i < made.len() implies {
            ||| (#[trigger] made[i]).1 is ScreenUpdate
            ||| made[i].1 == CallbackView::Exit && i == made.len() - 1 && reading.after_all(
                moments,
            ).phase == ReaderPhase::Done
        } by {
            if i < before.len() {
                assert(made[i] == before[i]);
            }
        }
    }
}

/// A reader that has ended stays so and makes no more calls.
proof fn ended_reader_is_silent(reading: ReadingView, moments: Seq<Moment>, at: int)
    requires
        reading.accepts_all(moments),
        0 <= at <= moments.len(),
        reading.after_all(moments.take(at)).phase == ReaderPhase::Done,
    ensures
        reading.after_all(moments).phase == ReaderPhase::Done,
        reading.made_all(moments) == reading.made_all(moments.take(at)),
    decreases moments.len(),
{
    if at < moments.len() {
        assert(moments.drop_last().take(at) =~= moments.take(at));
        ended_reader_is_silent(reading, moments.drop_last(), at);
        assert(moments.last() is Session);
    } else {
        assert(moments.take(at) =~= moments);
    }
}

/// When reading ends, the exit is reported to whoever is registered then, exactly where the session
/// is not ended from this side by then.
pub proof fn exit_is_reported_unless_ended(reading: ReadingView, moments: Seq<Moment>, at: int)
    requires
        reading.phase == ReaderPhase::Starting,
        reading.accepts_all(moments),
        0 <= at < moments.len(),
        reading.after_all(moments.take(at)).phase != ReaderPhase::Done,
        reading.after_all(moments.take(at + 1)).phase == ReaderPhase::Done,
    ensures
        ({
            let found = reading.after_all(moments.take(at)).session;
            let made = reading.made_all(moments);
            if found.cancelled || found.callbacks is None {
                forall|i: int| 0 <= i < made.len() ==> (#[trigger] made[i]).1 is ScreenUpdate
            } else {
                made.len() > 0 && made.last() == (found.callbacks->0, CallbackView::Exit)
            }
        }),
{
    let seen = moments.take(at + 1);
    accepted_run_has_accepted_parts(reading, moments, at + 1);
    accepted_run_has_accepted_parts(reading, moments, at);
    assert(seen.drop_last() =~= moments.take(at));
    ended_reader_is_silent(reading, moments, at + 1);
    exit_comes_once_and_last(reading, moments.take(at));
    let (before, made) = (reading.made_all(moments.take(at)), reading.made_all(moments));
    let found = reading.after_all(moments.take(at)).session;
    if found.cancelled || found.callbacks is None {
        assert(made =~= before);
    }
}

proof fn accepted_run_has_accepted_parts(reading: ReadingView, moments: Seq<Moment>, n: int)
    requires
        reading.accepts_all(moments),
        0 <= n <= moments.len(),
    ensures
        reading.accepts_all(moments.take(n)),
    decreases moments.len(),
{
    if n < moments.len() {
        assert(moments.drop_last().take(n) =~= moments.take(n));
        accepted_run_has_accepted_parts(reading, moments.drop_last(), n);
    } else {
        assert(moments.take(n) =~= moments);
    }
}

/// Where the session is ended before reading is, no exit is reported.
pub proof fn ended_session_reports_no_exit(reading: ReadingView, moments: Seq<Moment>, at: int)
    requires
        reading.phase == ReaderPhase::Starting,
        reading.accepts_all(moments),
        0 <= at < moments.len(),
        moments[at] == Moment::Session(PtyOp::Kill),
        reading.after_all(moments.take(at)).phase != ReaderPhase::Done,
    ensures
        forall|i: int|
            0 <= i < reading.made_all(moments).len() ==> (#[trigger] reading.made_all(
                moments,
            )[i]).1 is ScreenUpdate,
        reading.after_all(moments).session.cancelled,
    decreases moments.len(),
{
    let earlier = moments.drop_last();
    let (before, made) = (reading.made_all(earlier), reading.made_all(moments));
    if at < earlier.len() {
        assert(earlier[at] == moments[at]);
        assert(earlier.take(at) =~= moments.take(at));
        ended_session_reports_no_exit(reading, earlier, at);
    } else {
        assert(earlier =~= moments.take(at));
        exit_comes_once_and_last(reading, earlier);
    }
    assert forall|i: int| 0 <= i < made.len() implies (#[trigger] made[i]).1 is ScreenUpdate by {
        if i < before.len() {
            assert(made[i] == before[i]);
        }
    }
}

/// Where nobody ends the session and someone is registered, the exit is reported, last, as soon as
/// reading has ended.
pub proof fn exit_is_reported_at_the_end(reading: ReadingView, moments: Seq<Moment>)
    requires
        reading.phase == ReaderPhase::Starting,
        !reading.session.cancelled,
        reading.session.callbacks is Some,
        reading.accepts_all(moments),
        forall|i: int|
            0 <= i < moments.len() ==> #[trigger] moments[i] != Moment::Session(PtyOp::Kill),
    ensures
        !reading.after_all(moments).session.cancelled,
        reading.after_all(moments).session.callbacks is Some,
        reading.after_all(moments).phase == ReaderPhase::Done ==> reading.made_all(moments).len()
            > 0 && reading.made_all(moments).last().1 == CallbackView::Exit,
    decreases moments.len(),
{
    if moments.len() > 0 {
        let earlier = moments.drop_last();
        assert(moments.last() != Moment::Session(PtyOp::Kill));
        assert forall|i: int| 0 <= i < earlier.len() implies #[trigger] earlier[i]
            != Moment::Session(PtyOp::Kill) by {
            assert(earlier[i] == moments[i]);
        }
        exit_is_reported_at_the_end(reading, earlier);
        if reading.after_all(earlier).phase == ReaderPhase::Done {
            assert(moments.last() is Session);
            assert(reading.made_all(moments) =~= reading.made_all(earlier));
        }
    }
}

/// Where the login shell sets a variable, the terminal's command sees the shell's value, whatever
/// else is set or inherited.
pub proof fn shell_variables_win(
    base: Map<Seq<char>, Seq<char>>,
    extra_env: Seq<(Seq<char>, Seq<char>)>,
    shell_env: Seq<(Seq<char>, Seq<char>)>,
    at: int,
)
    requires
        0 <= at < shell_env.len(),
        forall|i: int|
            at < i < shell_env.len() ==> (#[trigger] shell_env[i]).0 != shell_env[at].0,
    ensures
        ({
            let env = env_after(base, settings(extra_env) + settings(shell_env));
            &&& env.contains_key(shell_env[at].0)
            &&& env[shell_env[at].0] == shell_env[at].1
        }),
{
    let ops = settings(extra_env) + settings(shell_env);
    let k = extra_env.len() + at;
    assert(ops[k] == EnvOpView::Assign(shell_env[at].0, shell_env[at].1));
    assert forall|i: int| k < i < ops.len() implies (#[trigger] ops[i]).name() != ops[k].name() by {
        assert(ops[i] == settings(shell_env)[i - extra_env.len()]);
        assert(shell_env[i - extra_env.len()].0 != shell_env[at].0);
    }
    env_last_change_wins(base, ops, k);
}

/// The text of an error screen stays on one line.
pub proof fn screen_text_is_one_line(text: Seq<char>)
    ensures
        forall|i: int|
            0 <= i < screen_text(text).len() ==> #[trigger] screen_text(text)[i] != '\r'
                && screen_text(text)[i] != '\n',
    decreases text.len(),
{
    if text.len() > 0 {
        let head = screen_text(text.drop_last());
        screen_text_is_one_line(text.drop_last());
        assert forall|i: int| 0 <= i < screen_text(text).len() implies #[trigger] screen_text(
            text,
        )[i] != '\r' && screen_text(text)[i] != '\n' by {
            if i < head.len() {
                assert(head[i] != '\r' && head[i] != '\n');
            } else {
                assert(screen_text(text)[i] == screen_char(text.last())[i - head.len()]);
            }
        }
    }
}

/// A backslash stands before every quote in the text of an error screen.
pub proof fn screen_text_quotes_are_escaped(text: Seq<char>)
    ensures
        forall|i: int|
            0 <= i < screen_text(text).len() && #[trigger] screen_text(text)[i] == '"' ==> i > 0
                && screen_text(text)[i - 1] == '\\',
    decreases text.len(),
{
    if text.len() > 0 {
        let head = screen_text(text.drop_last());
        screen_text_quotes_are_escaped(text.drop_last());
        assert forall|i: int|
            0 <= i < screen_text(text).len() && #[trigger] screen_text(text)[i] == '"' implies i > 0
            && screen_text(text)[i - 1] == '\\' by {
            if i < head.len() {
                assert(head[i] == '"');
            } else {
                assert(screen_char(text.last())[i - head.len()] == '"');
            }
        }
    }
}

/// Whether the character after the given part of a quoted text is escaped: it follows a backslash
/// that is not escaped itself.
pub open spec fn escapes_next(part: Seq<char>) -> bool
    decreases part.len(),
{
    part.len() > 0 && part.last() == '\\' && !escapes_next(part.drop_last())
}

/// Where a message holds no backslash, every quote in the text of its error screen is escaped, and
/// what comes after the text is not: a quoted text ends where the text does, and not earlier.
pub proof fn screen_text_ends_where_it_should(text: Seq<char>)
    requires
        forall|i: int| 0 <= i < text.len() ==> #[trigger] text[i] != '\\',
    ensures
        !escapes_next(screen_text(text)),
        forall|i: int|
            0 <= i < screen_text(text).len() && #[trigger] screen_text(text)[i] == '"'
                ==> escapes_next(screen_text(text).take(i)),
    decreases text.len(),
{
    let whole = screen_text(text);
    if text.len() > 0 {
        let head = screen_text(text.drop_last());
        let c = text.last();
        assert(c == text[text.len() - 1]);
        assert forall|i: int| 0 <= i < text.drop_last().len() implies #[trigger] text.drop_last()[i]
            != '\\' by {
            assert(text.drop_last()[i] == text[i]);
        }
        screen_text_ends_where_it_should(text.drop_last());
        if c == '"' {
            assert(whole.drop_last() =~= head.push('\\'));
            assert(head.push('\\').drop_last() =~= head);
            assert(escapes_next(whole.drop_last()));
        } else if c == '\r' {
            assert(whole =~= head);
        }
        assert forall|i: int| 0 <= i < whole.len() && #[trigger] whole[i] == '"' implies escapes_next(
            whole.take(i),
        ) by {
            if i < head.len() {
                assert(whole.take(i) =~= head.take(i));
                assert(head[i] == '"');
            } else {
                assert(screen_char(c)[i - head.len()] == '"');
                assert(whole.take(i) =~= whole.drop_last());
            }
        }
    }
}

/// A text without quotes and line breaks is shown as it is.
pub proof fn plain_text_is_kept(text: Seq<char>)
    requires
        forall|i: int|
            0 <= i < text.len() ==> #[trigger] text[i] != '"' && text[i] != '\r' && text[i] != '\n',
    ensures
        screen_text(text) == text,
    decreases text.len(),
{
    if text.len() > 0 {
        assert(text.last() == text[text.len() - 1]);
        assert forall|i: int| 0 <= i < text.drop_last().len() implies #[trigger] text.drop_last()[i]
            != '"' && text.drop_last()[i] != '\r' && text.drop_last()[i] != '\n' by {
            assert(text.drop_last()[i] == text[i]);
        }
        plain_text_is_kept(text.drop_last());
        assert(screen_text(text) =~= text);
    }
}

// ---------------------------------------------------------------------------
// Laws on the command and on error screens
// ---------------------------------------------------------------------------

/// The command of a terminal is run as it was asked for, in the directory that was asked for. A
/// variable has the value that the login shell gives it; where that gives none, the value that was
/// asked for; and where there is none either, the inherited one.
pub proof fn terminal_command_finds_its_variables(
    base: Map<Seq<char>, Seq<char>>,
    program: Seq<char>,
    args: Seq<Seq<char>>,
    extra_env: Seq<(Seq<char>, Seq<char>)>,
    cwd: Seq<char>,
    shell_env: Seq<(Seq<char>, Seq<char>)>,
    name: Seq<char>,
)
    ensures
        ({
            let command = pty_command_view(program, args, extra_env, cwd, shell_env);
            &&& command.program == program
            &&& command.args == args
            &&& command.cwd == cwd
            &&& value_of(env_after(base, command.env), name) == match value_in(shell_env, name) {
                Some(value) => Some(value),
                None => match value_in(extra_env, name) {
                    Some(value) => Some(value),
                    None => value_of(base, name),
                },
            }
        }),
{
    env_after_concat(base, settings(extra_env), settings(shell_env));
    settings_give_their_values(base, extra_env, name);
    settings_give_their_values(env_after(base, settings(extra_env)), shell_env, name);
}

/// A launch starts with opening a terminal of the size that was asked for, for the command that was
/// asked for.
pub proof fn launches_start_with_opening(size: TermSize, command: CommandView)
    ensures
        new_launch(size, command).size == size,
        new_launch(size, command).command == command,
        new_launch(size, command).phase == LaunchPhase::At(LaunchStage::Open),
{
}

/// A text is written into an error screen part by part.
pub proof fn screen_texts_add_up(first: Seq<char>, rest: Seq<char>)
    ensures
        screen_text(first + rest) == screen_text(first) + screen_text(rest),
    decreases rest.len(),
{
    if rest.len() == 0 {
        assert(first + rest =~= first);
        assert(screen_text(first) + screen_text(rest) =~= screen_text(first));
    } else {
        screen_texts_add_up(first, rest.drop_last());
        assert((first + rest).drop_last() =~= first + rest.drop_last());
        assert(screen_text(first + rest) =~= screen_text(first) + screen_text(rest));
    }
}

/// A character is written into an error screen as it is, but for quotes and line breaks: a
/// backslash is put before a quote, a line feed becomes a space, and a carriage return is dropped.
pub proof fn screen_characters(c: char)
    ensures
        screen_text(seq!['"']) == seq!['\\', '"'],
        screen_text(seq!['\n']) == seq![' '],
        screen_text(seq!['\r']) == Seq::<char>::empty(),
        c != '"' && c != '\n' && c != '\r' ==> screen_text(seq![c]) == seq![c],
{
    reveal_with_fuel(screen_text, 2);
    assert(seq!['"'].drop_last() =~= Seq::empty());
    assert(seq!['\n'].drop_last() =~= Seq::empty());
    assert(seq!['\r'].drop_last() =~= Seq::empty());
    assert(seq![c].drop_last() =~= Seq::empty());
    assert(screen_text(seq!['"']) =~= seq!['\\', '"']);
    assert(screen_text(seq!['\n']) =~= seq![' ']);
    assert(screen_text(seq!['\r']) =~= Seq::<char>::empty());
    if c != '"' && c != '\n' && c != '\r' {
        assert(screen_text(seq![c]) =~= seq![c]);
    }
}

/// An error screen is one row of eighty columns with a visible cursor at its start, and all of the
/// message stands in it.
pub proof fn error_screens_show_the_message(message: Seq<char>)
    ensures
        error_screen(message)
            == "{\"rows\":1,\"cols\":80,\"cy\":0,\"cx\":0,\"cv\":true,\"lines\":[{\"t\":\" Error: "@
            + screen_text(message) + " \",\"s\":[]}]}"@,
{
    reveal_strlit("\r\nError: ");
    reveal_strlit("\r\n");
    reveal_strlit("Error: ");
    reveal_strlit(" Error: ");
    reveal_strlit("\",\"s\":[]}]}");
    reveal_strlit(" \",\"s\":[]}]}");
    reveal_strlit("{\"rows\":1,\"cols\":80,\"cy\":0,\"cx\":0,\"cv\":true,\"lines\":[{\"t\":\"");
    reveal_strlit(
        "{\"rows\":1,\"cols\":80,\"cy\":0,\"cx\":0,\"cv\":true,\"lines\":[{\"t\":\" Error: ",
    );
    screen_texts_add_up("\r\nError: "@ + message, "\r\n"@);
    screen_texts_add_up("\r\nError: "@, message);
    screen_characters('\r');
    assert("\r\n"@ =~= seq!['\r'] + seq!['\n']);
    screen_texts_add_up(seq!['\r'], seq!['\n']);
    assert(screen_text("\r\n"@) =~= seq![' ']);
    assert("\r\nError: "@ =~= "\r\n"@ + "Error: "@);
    screen_texts_add_up("\r\n"@, "Error: "@);
    plain_text_is_kept("Error: "@);
    assert(screen_text("\r\nError: "@) =~= " Error: "@);
    let open = "{\"rows\":1,\"cols\":80,\"cy\":0,\"cx\":0,\"cv\":true,\"lines\":[{\"t\":\""@;
    let open_error =
        "{\"rows\":1,\"cols\":80,\"cy\":0,\"cx\":0,\"cv\":true,\"lines\":[{\"t\":\" Error: "@;
    assert(open + " Error: "@ =~= open_error);
    assert(" \",\"s\":[]}]}"@ =~= seq![' '] + "\",\"s\":[]}]}"@);
    assert(error_screen(message) =~= open_error + screen_text(message) + " \",\"s\":[]}]}"@);
}

/// An error is shown on a screen of its own, and then the session is over.
pub proof fn errors_are_shown_before_the_exit(message: Seq<char>)
    ensures
        failure_calls(message).len() == 2,
        failure_calls(message)[0] == CallbackView::ScreenUpdate(error_screen(message)),
        failure_calls(message)[1] == CallbackView::Exit,
{
}

/// A stage that fails is shown with what it was about and with the whole reason.
pub proof fn failed_stages_are_shown(launch: LaunchView, stage: LaunchStage, reason: Seq<char>)
    requires
        launch.phase == LaunchPhase::At(stage),
    ensures
        ({
            let about = match stage {
                LaunchStage::Open => "openpty failed: "@,
                LaunchStage::Spawn => "spawn failed: "@,
                LaunchStage::TakeWriter => "take_writer failed: "@,
                LaunchStage::CloneReader => "try_clone_reader failed: "@,
            };
            let fired = launch.calls_of(Err(reason));
            &&& fired.len() == 2
            &&& fired[0] == CallbackView::ScreenUpdate(error_screen(about + reason))
            &&& fired[1] == CallbackView::Exit
            &&& launch.after(Err(reason)).phase == LaunchPhase::Failed
            &&& launch.changes_of(Err(reason)) == Seq::<PtyOp>::empty()
        }),
{
}

// ---------------------------------------------------------------------------
// Laws on what has happened to a session
// ---------------------------------------------------------------------------

/// The callbacks that were registered last are those of the session.
pub proof fn latest_listener_counts(session: PtyView, ops: Seq<PtyOp>, at: int, target: u64)
    requires
        0 <= at < ops.len(),
        ops[at] == PtyOp::Register(target),
        forall|j: int| at < j < ops.len() ==> !(#[trigger] ops[j] is Register),
    ensures
        session.after_all(ops).callbacks == Some(target),
    decreases ops.len(),
{
    let earlier = ops.drop_last();
    if at < earlier.len() {
        assert(earlier[at] == ops[at]);
        assert(!(ops[ops.len() - 1] is Register));
        assert forall|j: int| at < j < earlier.len() implies !(#[trigger] earlier[j] is Register) by {
            assert(earlier[j] == ops[j]);
        }
        latest_listener_counts(session, earlier, at, target);
    }
}

/// Where no callbacks are registered, those of the session stay as they are.
pub proof fn listeners_stay(session: PtyView, ops: Seq<PtyOp>)
    requires
        forall|j: int| 0 <= j < ops.len() ==> !(#[trigger] ops[j] is Register),
    ensures
        session.after_all(ops).callbacks == session.callbacks,
    decreases ops.len(),
{
    if ops.len() > 0 {
        let earlier = ops.drop_last();
        assert(!(ops[ops.len() - 1] is Register));
        assert forall|j: int| 0 <= j < earlier.len() implies !(#[trigger] earlier[j] is Register) by {
            assert(earlier[j] == ops[j]);
        }
        listeners_stay(session, earlier);
    }
}

/// Once a command was launched, there is somewhere to write to and something to kill, whatever
/// happens afterwards. Its terminal can be resized until the session is ended.
pub proof fn launched_session_can_be_used(session: PtyView, ops: Seq<PtyOp>, at: int)
    requires
        0 <= at < ops.len(),
        ops[at] is Launched,
    ensures
        session.after_all(ops).writer,
        session.after_all(ops).killer,
        (forall|j: int| at < j < ops.len() ==> #[trigger] ops[j] != PtyOp::Kill)
            ==> session.after_all(ops).master,
    decreases ops.len(),
{
    let earlier = ops.drop_last();
    if at < earlier.len() {
        assert(earlier[at] == ops[at]);
        launched_session_can_be_used(session, earlier, at);
        if forall|j: int| at < j < ops.len() ==> #[trigger] ops[j] != PtyOp::Kill {
            assert(ops[ops.len() - 1] != PtyOp::Kill);
            assert forall|j: int| at < j < earlier.len() implies #[trigger] earlier[j]
                != PtyOp::Kill by {
                assert(earlier[j] == ops[j]);
            }
        }
    }
}

/// Where nothing was launched, there is nowhere to write to and nothing to kill, and no terminal to
/// resize. After the session was ended there is no terminal either, until the next launch.
pub proof fn other_session_cannot_be_used(session: PtyView, ops: Seq<PtyOp>)
    requires
        forall|j: int| 0 <= j < ops.len() ==> !(#[trigger] ops[j] is Launched),
    ensures
        new_session().after_all(ops).writer == false,
        new_session().after_all(ops).killer == false,
        new_session().after_all(ops).master == false,
        session.after(PtyOp::Kill).after_all(ops).master == false,
    decreases ops.len(),
{
    if ops.len() > 0 {
        let earlier = ops.drop_last();
        assert(!(ops[ops.len() - 1] is Launched));
        assert forall|j: int| 0 <= j < earlier.len() implies !(#[trigger] earlier[j] is Launched) by {
            assert(earlier[j] == ops[j]);
        }
        other_session_cannot_be_used(session, earlier);
    }
}

/// A new session has no listener, is not ended, and has no size to take over.
pub proof fn new_session_is_bare()
    ensures
        new_session().callbacks is None,
        !new_session().cancelled,
        new_session().pending.cols == 0 && new_session().pending.rows == 0,
{
}

/// A size is kept until the next one is set or the reader takes it over: registering callbacks and
/// ending the session do not touch it.
pub proof fn sizes_are_kept(session: PtyView, ops: Seq<PtyOp>)
    requires
        forall|j: int|
            0 <= j < ops.len() ==> #[trigger] ops[j] is Register || ops[j] is Kill,
    ensures
        session.after_all(ops).pending == session.pending,
    decreases ops.len(),
{
    if ops.len() > 0 {
        let earlier = ops.drop_last();
        assert(ops[ops.len() - 1] is Register || ops[ops.len() - 1] is Kill);
        assert forall|j: int| 0 <= j < earlier.len() implies #[trigger] earlier[j] is Register
            || earlier[j] is Kill by {
            assert(earlier[j] == ops[j]);
        }
        sizes_are_kept(session, earlier);
    }
}

/// A size is taken over exactly where it has columns or rows.
pub proof fn only_real_sizes_are_taken(session: PtyView)
    ensures
        session.pending_size() == (if session.pending.cols == 0 && session.pending.rows == 0 {
            None
        } else {
            Some(session.pending)
        }),
{
}

// ---------------------------------------------------------------------------
// Laws on the steps of a reader
// ---------------------------------------------------------------------------

/// Each action of a reader is answered by the event that comes of it, and by no other; a new reader
/// waits to begin.
pub proof fn reader_actions_are_answered(
    reading: ReadingView,
    event: ReadEventView,
    next: ReadEventView,
)
    requires
        reading.phase.accepts(event),
    ensures
        ReaderPhase::Starting.accepts(next) <==> next is Begin,
        reading.after(event).phase.accepts(next) <==> match reading.action_after(event) {
            ReadAction::Open(_) => next is Ready,
            ReadAction::Read => next is Read,
            ReadAction::Process(_, _) => next is Processed,
            ReadAction::GoOn => next is Ready,
            ReadAction::Finish => false,
        },
{
}

/// A reader changes nothing of a session but the size that it takes over.
pub proof fn readers_leave_the_session_alone(reading: ReadingView, event: ReadEventView)
    ensures
        ({
            let (before, after) = (reading.session, reading.after(event).session);
            &&& after.master == before.master
            &&& after.writer == before.writer
            &&& after.killer == before.killer
            &&& after.callbacks == before.callbacks
            &&& after.cancelled == before.cancelled
            &&& event is Ready || event is Processed ==> after.pending == before.pending
        }),
{
}

/// A reader begins with a screen of the size that is pending then, and takes that size over.
pub proof fn reader_begins_at_the_pending_size(reading: ReadingView)
    requires
        reading.phase == ReaderPhase::Starting,
    ensures
        reading.action_after(ReadEventView::Begin) == ReadAction::Open(reading.session.pending),
        reading.after(ReadEventView::Begin).session.pending == (TermSize { cols: 0, rows: 0 }),
        reading.call_of(ReadEventView::Begin) is None,
{
}

/// A reader goes on exactly as long as the session is not ended, and says nothing by that.
pub proof fn reader_goes_on_until_ended(reading: ReadingView)
    requires
        reading.phase == ReaderPhase::Idle,
    ensures
        reading.action_after(ReadEventView::Ready) == (if reading.session.cancelled {
            ReadAction::Finish
        } else {
            ReadAction::Read
        }),
        reading.call_of(ReadEventView::Ready) is None,
{
}

/// All the bytes that were read are processed, at the size that was set last where it was not taken
/// over yet; nothing is reported before they were.
pub proof fn bytes_are_processed_at_the_latest_size(reading: ReadingView, n: usize)
    requires
        reading.phase == ReaderPhase::Reading,
        n > 0,
    ensures
        ({
            let event = ReadEventView::Read(ReadOutcome::Bytes(n));
            let pending = reading.session.pending;
            &&& reading.action_after(event) == ReadAction::Process(
                if pending.cols == 0 && pending.rows == 0 {
                    None
                } else {
                    Some(pending)
                },
                n,
            )
            &&& reading.after(event).session.pending == (TermSize { cols: 0, rows: 0 })
            &&& reading.call_of(event) is None
        }),
{
}

/// Where there is no more output, or reading fails, reading ends, and the exit is reported unless
/// the session was ended.
pub proof fn reading_ends_with_the_output(reading: ReadingView, outcome: ReadOutcome)
    requires
        reading.phase == ReaderPhase::Reading,
        outcome == ReadOutcome::Bytes(0) || outcome == ReadOutcome::Failed,
    ensures
        ({
            let event = ReadEventView::Read(outcome);
            &&& reading.action_after(event) == ReadAction::Finish
            &&& reading.after(event).phase == ReaderPhase::Done
            &&& reading.after(event).session.pending == reading.session.pending
            &&& reading.call_of(event) == (if reading.session.cancelled {
                None
            } else {
                Some(CallbackView::Exit)
            })
        }),
{
}

/// The screens that changed, in order.
pub open spec fn changed_screens(moments: Seq<Moment>) -> Seq<Seq<char>>
    decreases moments.len(),
{
    if moments.len() == 0 {
        Seq::empty()
    } else {
        match moments.last() {
            Moment::Reader(ReadEventView::Processed(Some(screen))) => changed_screens(
                moments.drop_last(),
            ).push(screen),
            _ => changed_screens(moments.drop_last()),
        }
    }
}

/// The screens that are reported, in order.
pub open spec fn shown_screens(made: Seq<(u64, CallbackView)>) -> Seq<Seq<char>>
    decreases made.len(),
{
    if made.len() == 0 {
        Seq::empty()
    } else {
        match made.last().1 {
            CallbackView::ScreenUpdate(screen) => shown_screens(made.drop_last()).push(screen),
            _ => shown_screens(made.drop_last()),
        }
    }
}

/// As long as somebody listens, every screen that changed is reported, once and in order, even
/// where the session was ended while it was made.
pub proof fn every_changed_screen_is_shown(reading: ReadingView, moments: Seq<Moment>)
    requires
        reading.session.callbacks is Some,
    ensures
        shown_screens(reading.made_all(moments)) == changed_screens(moments),
        reading.after_all(moments).session.callbacks is Some,
    decreases moments.len(),
{
    if moments.len() > 0 {
        let earlier = moments.drop_last();
        every_changed_screen_is_shown(reading, earlier);
        let (before, made) = (reading.made_all(earlier), reading.made_all(moments));
        let added = reading.after_all(earlier).made(moments.last());
        if added.len() > 0 {
            assert(made.drop_last() =~= before);
        } else {
            assert(made =~= before);
        }
    }
}

/// What came of an action, and of a stage of a launch, is taken as it was told.
pub proof fn read_events_are_taken_literally(text: String, outcome: ReadOutcome)
    ensures
        ReadEvent::Begin@ == ReadEventView::Begin,
        ReadEvent::Ready@ == ReadEventView::Ready,
        ReadEvent::Read(outcome)@ == ReadEventView::Read(outcome),
        ReadEvent::Processed(Some(text))@ == ReadEventView::Processed(Some(text@)),
        ReadEvent::Processed(None)@ == ReadEventView::Processed(None),
        outcome_text(Ok(())) == Ok::<(), Seq<char>>(()),
        outcome_text(Err(text)) == Err::<(), Seq<char>>(text@),
{
}

} // verus!
