//! The chat: which turn is running, which turns were cancelled, and whether there is a
//! conversation to continue.

use crate::callback::{Callback, CallbackView, Report, calls, reports};
use crate::environment::CommandPlan;
use crate::text::pairs;
use crate::turn::{turn_command, turn_command_view};
use vstd::prelude::*;

verus! {

/// The state of a chat.
#[derive(Debug)]
pub struct ChatManager {
    has_session: bool,
    awaiting: bool,
    callbacks: Option<u64>,
    /// The cancel flags of the earlier turns.
    earlier: Vec<bool>,
    /// The cancel flag of the latest turn.
    cancel: bool,
}

/// The state of a chat, mathematically.
pub struct ChatView {
    /// Whether there is a conversation to continue.
    pub has_session: bool,
    /// Whether a turn is running, as far as the chat knows.
    pub awaiting: bool,
    /// The callbacks that were registered last.
    pub callbacks: Option<u64>,
    /// The cancel flag of every turn, by the turn's token; the last one is that of the latest turn.
    /// A flag that belongs to no turn comes first.
    pub cancelled: Seq<bool>,
}

impl View for ChatManager {
    type V = ChatView;

    closed spec fn view(&self) -> ChatView {
        ChatView {
            has_session: self.has_session,
            awaiting: self.awaiting,
            callbacks: self.callbacks,
            cancelled: self.earlier@.push(self.cancel),
        }
    }
}

/// A turn that is to be run.
#[derive(Debug)]
pub struct TurnRequest {
    /// The number under which the turn's cancel flag is found.
    pub token: usize,
    /// The callbacks that were registered when the turn was started.
    pub target: u64,
    pub message: String,
    pub program: String,
    pub workspace_root: String,
    pub mcp_port: u16,
    pub mcp_auth_token: String,
    /// Whether the turn continues a conversation.
    pub has_session: bool,
}

impl TurnRequest {
    /// The command that runs the turn, in addition to whose environment the login shell's
    /// variables are given.
    pub fn command(&self, shell_env: &Vec<(String, String)>) -> (command: CommandPlan)
        ensures
            command@ == turn_command_view(
                self.message@,
                self.program@,
                self.workspace_root@,
                self.mcp_port,
                self.mcp_auth_token@,
                self.has_session,
                pairs(shell_env@),
            ),
    {
        turn_command(
            self.message.as_str(),
            self.program.as_str(),
            self.workspace_root.as_str(),
            self.mcp_port,
            self.mcp_auth_token.as_str(),
            self.has_session,
            shell_env,
        )
    }
}

/// A change to a chat.
pub enum ChatOp {
    /// Callbacks are registered.
    Register(u64),
    /// A message is sent.
    Send,
    /// A turn is over; the flag says whether it succeeded.
    Finish(bool),
    /// The latest turn is cancelled.
    Cancel,
    /// The conversation is given up.
    Reset,
}

impl ChatView {
    /// Whether a message that is sent now starts a turn.
    pub open spec fn takes_message(self) -> bool {
        !self.awaiting && self.callbacks is Some
    }

    /// A chat after a change.
    pub open spec fn after(self, op: ChatOp) -> ChatView {
        match op {
            ChatOp::Register(target) => ChatView { callbacks: Some(target), ..self },
            ChatOp::Send => if self.takes_message() {
                ChatView { awaiting: true, cancelled: self.cancelled.push(false), ..self }
            } else {
                self
            },
            ChatOp::Finish(success) => ChatView {
                awaiting: false,
                has_session: self.has_session || success,
                ..self
            },
            ChatOp::Cancel => ChatView { cancelled: self.cancelled.drop_last().push(true), ..self },
            ChatOp::Reset => ChatView {
                has_session: false,
                awaiting: false,
                cancelled: self.cancelled.drop_last().push(true),
                ..self
            },
        }
    }

    /// A chat after a run of changes.
    pub open spec fn after_all(self, ops: Seq<ChatOp>) -> ChatView
        decreases ops.len(),
    {
        if ops.len() == 0 {
            self
        } else {
            self.after_all(ops.drop_last()).after(ops.last())
        }
    }
}

/// A chat in which nothing was said yet.
pub open spec fn new_chat() -> ChatView {
    ChatView { has_session: false, awaiting: false, callbacks: None, cancelled: seq![false] }
}

impl ChatManager {
    /// A chat in which nothing was said yet.
    pub fn new() -> (chat: ChatManager)
        ensures
            chat@ == new_chat(),
    {
        let chat = ChatManager {
            has_session: false,
            awaiting: false,
            callbacks: None,
            earlier: Vec::new(),
            cancel: false,
        };
        assert(chat@.cancelled =~= new_chat().cancelled);
        chat
    }

    /// Registers the object that is called back, by a number under which it is found again.
    pub fn register_callbacks(&mut self, target: u64)
        ensures
            final(self)@ == old(self)@.after(ChatOp::Register(target)),
    {
        self.callbacks = Some(target);
    }

    /// Sends a message. It is dropped where a turn is running or nobody is listening; otherwise a
    /// turn is to be run, with a cancel flag of its own.
    pub fn send_message(
        &mut self,
        message: String,
        program: String,
        workspace_root: String,
        mcp_port: u16,
        mcp_auth_token: String,
    ) -> (request: Option<TurnRequest>)
        ensures
            final(self)@ == old(self)@.after(ChatOp::Send),
            request is Some <==> old(self)@.takes_message(),
            match request {
                Some(turn) => {
                    &&& turn.token == old(self)@.cancelled.len()
                    &&& old(self)@.callbacks == Some(turn.target)
                    &&& turn.has_session == old(self)@.has_session
                    &&& turn.message == message
                    &&& turn.program == program
                    &&& turn.workspace_root == workspace_root
                    &&& turn.mcp_port == mcp_port
                    &&& turn.mcp_auth_token == mcp_auth_token
                },
                None => true,
            },
    {
        if self.awaiting {
            return None;
        }
        match self.callbacks {
            Some(target) => {
                self.earlier.push(self.cancel);
                self.cancel = false;
                self.awaiting = true;
                Some(
                    TurnRequest {
                        token: self.earlier.len(),
                        target,
                        message,
                        program,
                        workspace_root,
                        mcp_port,
                        mcp_auth_token,
                        has_session: self.has_session,
                    },
                )
            },
            None => None,
        }
    }

    /// Notes that a turn is over. After a turn that succeeded there is a conversation to continue.
    pub fn finish_turn(&mut self, success: bool)
        ensures
            final(self)@ == old(self)@.after(ChatOp::Finish(success)),
    {
        self.awaiting = false;
        if success {
            self.has_session = true;
        }
    }

    /// Whether a turn was cancelled. There is no answer for a token that was not given out.
    pub fn is_cancelled(&self, token: usize) -> (cancelled: Option<bool>)
        ensures
            cancelled == (if token < self@.cancelled.len() {
                Some(self@.cancelled[token as int])
            } else {
                None
            }),
    {
        if token < self.earlier.len() {
            Some(self.earlier[token])
        } else if token == self.earlier.len() {
            Some(self.cancel)
        } else {
            None
        }
    }

    /// Cancels the latest turn.
    pub fn cancel(&mut self)
        ensures
            final(self)@ == old(self)@.after(ChatOp::Cancel),
    {
        self.cancel = true;
        assert(self@.cancelled =~= old(self)@.cancelled.drop_last().push(true));
    }

    /// Gives up the conversation: the latest turn is cancelled, and the next message starts anew.
    pub fn reset_session(&mut self) -> (report: Option<Report>)
        ensures
            final(self)@ == old(self)@.after(ChatOp::Reset),
            reports(
                report,
                old(self)@.callbacks,
                seq![CallbackView::System("Session reset."@)],
            ),
    {
        self.cancel();
        self.has_session = false;
        self.awaiting = false;
        self.emit_system("Session reset.")
    }

    /// Reports a message of the plug-in itself.
    pub fn emit_system(&self, msg: &str) -> (report: Option<Report>)
        ensures
            reports(report, self@.callbacks, seq![CallbackView::System(msg@)]),
    {
        match self.callbacks {
            Some(target) => {
                let mut callbacks: Vec<Callback> = Vec::new();
                callbacks.push(Callback::System(msg.to_owned()));
                assert(calls(callbacks@) =~= seq![CallbackView::System(msg@)]);
                Some(Report { target, callbacks })
            },
            None => None,
        }
    }
}

// ---------------------------------------------------------------------------
// Laws
// ---------------------------------------------------------------------------

/// The number of turns that were started but are not over.
pub open spec fn running(chat: ChatView, ops: Seq<ChatOp>) -> int
    decreases ops.len(),
{
    if ops.len() == 0 {
        0
    } else {
        let before = ops.drop_last();
        running(chat, before) + match ops.last() {
            ChatOp::Send => if chat.after_all(before).takes_message() {
                1int
            } else {
                0
            },
            ChatOp::Finish(_) => -1,
            _ => 0,
        }
    }
}

/// Whether turns end only where one is running.
pub open spec fn turns_end_once(chat: ChatView, ops: Seq<ChatOp>) -> bool
    decreases ops.len(),
{
    ops.len() > 0 ==> {
        &&& turns_end_once(chat, ops.drop_last())
        &&& ops.last() is Finish ==> running(chat, ops.drop_last()) > 0
    }
}

/// As long as the conversation is not given up, at most one turn is running at any time, and the
/// chat knows whether one is.
pub proof fn one_turn_at_a_time(chat: ChatView, ops: Seq<ChatOp>)
    requires
        !chat.awaiting,
        turns_end_once(chat, ops),
        forall|i: int| 0 <= i < ops.len() ==> !(#[trigger] ops[i] is Reset),
    ensures
        0 <= running(chat, ops) <= 1,
        chat.after_all(ops).awaiting <==> running(chat, ops) == 1,
    decreases ops.len(),
{
    if ops.len() > 0 {
        assert(!(ops.last() is Reset));
        assert forall|i: int| 0 <= i < ops.drop_last().len() implies !(
        #[trigger] ops.drop_last()[i] is Reset) by {
            assert(ops.drop_last()[i] == ops[i]);
        }
        one_turn_at_a_time(chat, ops.drop_last());
    }
}

/// Sending a message while a turn is running, or while nobody is listening, changes nothing.
pub proof fn refused_message_changes_nothing(chat: ChatView)
    requires
        chat.awaiting || chat.callbacks is None,
    ensures
        chat.after(ChatOp::Send) == chat,
{
}

/// A turn starts uncancelled, even right after a cancellation, and starting it leaves the flags of
/// the turns before it as they are.
pub proof fn turn_starts_uncancelled(chat: ChatView)
    requires
        chat.takes_message(),
    ensures
        chat.after(ChatOp::Send).cancelled.len() == chat.cancelled.len() + 1,
        !chat.after(ChatOp::Send).cancelled.last(),
        chat.after(ChatOp::Send).cancelled.drop_last() == chat.cancelled,
{
    assert(chat.cancelled.push(false).drop_last() =~= chat.cancelled);
}

/// A turn that was cancelled stays cancelled, and only the latest turn can be cancelled: the flags
/// of the turns before it do not change any more.
pub proof fn cancellation_is_final(chat: ChatView, ops: Seq<ChatOp>, token: int)
    requires
        0 <= token < chat.cancelled.len(),
    ensures
        chat.cancelled.len() <= chat.after_all(ops).cancelled.len(),
        chat.cancelled[token] ==> chat.after_all(ops).cancelled[token],
        token < chat.cancelled.len() - 1 ==> chat.after_all(ops).cancelled[token]
            == chat.cancelled[token],
    decreases ops.len(),
{
    if ops.len() > 0 {
        cancellation_is_final(chat, ops.drop_last(), token);
    }
}

/// Every chat has a flag to cancel, even before its first turn.
pub proof fn chat_has_a_flag(chat: &ChatManager)
    ensures
        chat@.cancelled.len() > 0,
{
}

/// Cancelling, or giving up the conversation, cancels the latest turn.
pub proof fn cancel_reaches_the_latest_turn(chat: ChatView)
    requires
        chat.cancelled.len() > 0,
    ensures
        chat.after(ChatOp::Cancel).cancelled.last(),
        chat.after(ChatOp::Reset).cancelled.last(),
        chat.after(ChatOp::Cancel).cancelled.len() == chat.cancelled.len(),
        chat.after(ChatOp::Reset).cancelled.len() == chat.cancelled.len(),
{
}

/// Once the conversation was given up, messages are taken again and start anew, until a turn
/// succeeds.
pub proof fn reset_starts_anew(chat: ChatView, ops: Seq<ChatOp>)
    requires
        forall|i: int| 0 <= i < ops.len() ==> #[trigger] ops[i] != ChatOp::Finish(true),
    ensures
        !chat.after(ChatOp::Reset).after_all(ops).has_session,
        chat.after(ChatOp::Reset).takes_message() <==> chat.callbacks is Some,
    decreases ops.len(),
{
    if ops.len() > 0 {
        assert(ops.last() != ChatOp::Finish(true));
        assert forall|i: int| 0 <= i < ops.drop_last().len() implies #[trigger] ops.drop_last()[i]
            != ChatOp::Finish(true) by {
            assert(ops.drop_last()[i] == ops[i]);
        }
        reset_starts_anew(chat, ops.drop_last());
    }
}

/// After a turn that succeeded, the conversation is continued until it is given up.
pub proof fn success_is_continued(chat: ChatView, ops: Seq<ChatOp>)
    requires
        forall|i: int| 0 <= i < ops.len() ==> !(#[trigger] ops[i] is Reset),
    ensures
        chat.after(ChatOp::Finish(true)).after_all(ops).has_session,
    decreases ops.len(),
{
    if ops.len() > 0 {
        assert(!(ops.last() is Reset));
        assert forall|i: int| 0 <= i < ops.drop_last().len() implies !(
        #[trigger] ops.drop_last()[i] is Reset) by {
            assert(ops.drop_last()[i] == ops[i]);
        }
        success_is_continued(chat, ops.drop_last());
    }
}

// ---------------------------------------------------------------------------
// Laws on what has happened in a chat
// ---------------------------------------------------------------------------

/// Whether callbacks were registered.
pub open spec fn somebody_listens(ops: Seq<ChatOp>) -> bool {
    exists|i: int| 0 <= i < ops.len() && #[trigger] ops[i] is Register
}

/// Whether the message that was sent at the given place reached a listener, and neither the end of
/// a turn nor a reset came after it.
pub open spec fn is_unanswered(ops: Seq<ChatOp>, at: int) -> bool {
    &&& 0 <= at < ops.len()
    &&& ops[at] is Send
    &&& somebody_listens(ops.take(at))
    &&& forall|j: int|
        at < j < ops.len() ==> !(#[trigger] ops[j] is Finish) && !(ops[j] is Reset)
}

/// Whether some message is not answered yet.
pub open spec fn is_busy(ops: Seq<ChatOp>) -> bool {
    exists|at: int| is_unanswered(ops, at)
}

proof fn listening_so_far(ops: Seq<ChatOp>)
    requires
        ops.len() > 0,
    ensures
        somebody_listens(ops) <==> somebody_listens(ops.drop_last()) || ops.last() is Register,
{
    let earlier = ops.drop_last();
    if somebody_listens(earlier) {
        let i = choose|i: int| 0 <= i < earlier.len() && #[trigger] earlier[i] is Register;
        assert(ops[i] is Register);
    }
    if ops.last() is Register {
        assert(ops[ops.len() - 1] is Register);
    }
    if somebody_listens(ops) && !(ops.last() is Register) {
        let i = choose|i: int| 0 <= i < ops.len() && #[trigger] ops[i] is Register;
        assert(earlier[i] is Register);
    }
}

proof fn busy_so_far(ops: Seq<ChatOp>)
    requires
        ops.len() > 0,
    ensures
        is_busy(ops) <==> match ops.last() {
            ChatOp::Send => is_busy(ops.drop_last()) || somebody_listens(ops.drop_last()),
            ChatOp::Finish(_) => false,
            ChatOp::Reset => false,
            _ => is_busy(ops.drop_last()),
        },
{
    let earlier = ops.drop_last();
    let n = earlier.len() as int;
    assert(ops.last() == ops[n]);
    if is_busy(ops) {
        let at = choose|at: int| is_unanswered(ops, at);
        if at < n {
            assert(ops.take(at) =~= earlier.take(at));
            assert forall|j: int| at < j < n implies !(#[trigger] earlier[j] is Finish) && !(
            earlier[j] is Reset) by {
                assert(ops[j] == earlier[j]);
            }
            assert(is_unanswered(earlier, at));
        } else {
            assert(ops.take(at) =~= earlier);
        }
    }
    if is_busy(earlier) && !(ops.last() is Finish) && !(ops.last() is Reset) {
        let at = choose|at: int| is_unanswered(earlier, at);
        assert(ops.take(at) =~= earlier.take(at));
        assert forall|j: int| at < j < ops.len() implies !(#[trigger] ops[j] is Finish) && !(
        ops[j] is Reset) by {
            if j < n {
                assert(ops[j] == earlier[j]);
            }
        }
        assert(is_unanswered(ops, at));
    }
    if ops.last() is Send && somebody_listens(earlier) {
        assert(ops.take(n) =~= earlier);
        assert(is_unanswered(ops, n));
    }
}

/// A message is taken exactly where somebody listens and no earlier message is still waiting for
/// the end of its turn, whatever else has happened: what was cancelled, how turns ended, and
/// whether there is a conversation does not matter.
pub proof fn messages_are_taken_when_free(ops: Seq<ChatOp>)
    ensures
        new_chat().after_all(ops).takes_message() <==> somebody_listens(ops) && !is_busy(ops),
        new_chat().after_all(ops).awaiting <==> is_busy(ops),
        new_chat().after_all(ops).callbacks is Some <==> somebody_listens(ops),
    decreases ops.len(),
{
    if ops.len() > 0 {
        messages_are_taken_when_free(ops.drop_last());
        listening_so_far(ops);
        busy_so_far(ops);
    }
}

/// Where turns end once and the conversation is not given up, a chat in which no turn is running
/// takes the next message, as soon as callbacks were registered.
pub proof fn free_chat_takes_messages(chat: ChatView, ops: Seq<ChatOp>)
    requires
        !chat.awaiting,
        turns_end_once(chat, ops),
        forall|i: int| 0 <= i < ops.len() ==> !(#[trigger] ops[i] is Reset),
        somebody_listens(ops),
        running(chat, ops) == 0,
    ensures
        chat.after_all(ops).takes_message(),
        chat.after_all(ops).after(ChatOp::Send).awaiting,
{
    one_turn_at_a_time(chat, ops);
    listeners_stay(chat, ops);
}

proof fn listeners_stay(chat: ChatView, ops: Seq<ChatOp>)
    ensures
        somebody_listens(ops) ==> chat.after_all(ops).callbacks is Some,
    decreases ops.len(),
{
    if ops.len() > 0 {
        listeners_stay(chat, ops.drop_last());
        listening_so_far(ops);
    }
}

/// A message that is taken starts a turn with a flag of its own, and nothing else does.
pub proof fn flags_count_turns(chat: ChatView, op: ChatOp)
    requires
        chat.cancelled.len() > 0,
    ensures
        chat.after(op).cancelled.len() == chat.cancelled.len() + if op is Send && !chat.awaiting
            && chat.callbacks is Some {
            1int
        } else {
            0
        },
{
}

/// The callbacks that were registered last are those of the chat.
pub proof fn latest_listener_counts(chat: ChatView, ops: Seq<ChatOp>, at: int, target: u64)
    requires
        0 <= at < ops.len(),
        ops[at] == ChatOp::Register(target),
        forall|j: int| at < j < ops.len() ==> !(#[trigger] ops[j] is Register),
    ensures
        chat.after_all(ops).callbacks == Some(target),
    decreases ops.len(),
{
    let earlier = ops.drop_last();
    if at < earlier.len() {
        assert(earlier[at] == ops[at]);
        assert(!(ops[ops.len() - 1] is Register));
        assert forall|j: int| at < j < earlier.len() implies !(#[trigger] earlier[j] is Register) by {
            assert(earlier[j] == ops[j]);
        }
        latest_listener_counts(chat, earlier, at, target);
    }
}

/// Whether a turn succeeded at the given place, and the conversation was not given up after it.
pub open spec fn succeeded_for_good(ops: Seq<ChatOp>, at: int) -> bool {
    &&& 0 <= at < ops.len()
    &&& ops[at] == ChatOp::Finish(true)
    &&& forall|j: int| at < j < ops.len() ==> !(#[trigger] ops[j] is Reset)
}

/// There is a conversation to continue exactly where a turn succeeded since the conversation was
/// last given up. Nothing that happens to later turns ends it.
pub proof fn conversations_last_until_reset(ops: Seq<ChatOp>)
    ensures
        new_chat().after_all(ops).has_session <==> exists|at: int| succeeded_for_good(ops, at),
    decreases ops.len(),
{
    if ops.len() > 0 {
        let earlier = ops.drop_last();
        let n = earlier.len() as int;
        conversations_last_until_reset(earlier);
        assert(ops.last() == ops[n]);
        if exists|at: int| succeeded_for_good(ops, at) {
            let at = choose|at: int| succeeded_for_good(ops, at);
            if at < n {
                assert forall|j: int| at < j < n implies !(#[trigger] earlier[j] is Reset) by {
                    assert(earlier[j] == ops[j]);
                }
                assert(succeeded_for_good(earlier, at));
            }
        }
        if (exists|at: int| succeeded_for_good(earlier, at)) && !(ops.last() is Reset) {
            let at = choose|at: int| succeeded_for_good(earlier, at);
            assert forall|j: int| at < j < ops.len() implies !(#[trigger] ops[j] is Reset) by {
                if j < n {
                    assert(earlier[j] == ops[j]);
                }
            }
            assert(succeeded_for_good(ops, at));
        }
        if ops.last() == ChatOp::Finish(true) {
            assert(succeeded_for_good(ops, n));
        }
    }
}

/// Whether a cancellation came at the given place, while the turn with the given token was the
/// latest one.
pub open spec fn cancels(ops: Seq<ChatOp>, at: int, token: int) -> bool {
    &&& 0 <= at < ops.len()
    &&& ops[at] is Cancel || ops[at] is Reset
    &&& new_chat().after_all(ops.take(at)).cancelled.len() == token + 1
}

/// Whether the turn with the given token was cancelled.
pub open spec fn was_cancelled(ops: Seq<ChatOp>, token: int) -> bool {
    exists|at: int| cancels(ops, at, token)
}

proof fn cancelled_so_far(ops: Seq<ChatOp>, token: int)
    requires
        ops.len() > 0,
    ensures
        was_cancelled(ops, token) <==> {
            ||| was_cancelled(ops.drop_last(), token)
            ||| (ops.last() is Cancel || ops.last() is Reset) && new_chat().after_all(
                ops.drop_last(),
            ).cancelled.len() == token + 1
        },
{
    let earlier = ops.drop_last();
    let n = earlier.len() as int;
    assert(ops.take(n) =~= earlier);
    if was_cancelled(earlier, token) {
        let at = choose|at: int| cancels(earlier, at, token);
        assert(ops.take(at) =~= earlier.take(at));
        assert(cancels(ops, at, token));
    }
    if was_cancelled(ops, token) {
        let at = choose|at: int| cancels(ops, at, token);
        if at < n {
            assert(ops.take(at) =~= earlier.take(at));
            assert(cancels(earlier, at, token));
        }
    }
    if (ops.last() is Cancel || ops.last() is Reset) && new_chat().after_all(earlier).cancelled.len()
        == token + 1 {
        assert(cancels(ops, n, token));
    }
}

proof fn later_turn_was_not_cancelled(ops: Seq<ChatOp>, token: int)
    requires
        token >= new_chat().after_all(ops).cancelled.len(),
    ensures
        !was_cancelled(ops, token),
{
    if was_cancelled(ops, token) {
        let at = choose|at: int| cancels(ops, at, token);
        flags_do_not_go(ops, at);
    }
}

/// A turn is cancelled exactly where a cancellation, or the end of the conversation, came while it
/// was the latest turn.
pub proof fn turns_are_cancelled_while_latest(ops: Seq<ChatOp>, token: int)
    requires
        0 <= token < new_chat().after_all(ops).cancelled.len(),
    ensures
        new_chat().after_all(ops).cancelled[token] <==> was_cancelled(ops, token),
    decreases ops.len(),
{
    if ops.len() > 0 {
        let earlier = ops.drop_last();
        flags_are_there(earlier);
        cancelled_so_far(ops, token);
        if token < new_chat().after_all(earlier).cancelled.len() {
            turns_are_cancelled_while_latest(earlier, token);
        } else {
            later_turn_was_not_cancelled(earlier, token);
        }
    }
}

proof fn flags_are_there(ops: Seq<ChatOp>)
    ensures
        new_chat().after_all(ops).cancelled.len() > 0,
    decreases ops.len(),
{
    if ops.len() > 0 {
        flags_are_there(ops.drop_last());
    }
}

proof fn flags_do_not_go(ops: Seq<ChatOp>, at: int)
    requires
        0 <= at <= ops.len(),
    ensures
        new_chat().after_all(ops.take(at)).cancelled.len() <= new_chat().after_all(
            ops,
        ).cancelled.len(),
    decreases ops.len(),
{
    if at < ops.len() {
        assert(ops.drop_last().take(at) =~= ops.take(at));
        flags_do_not_go(ops.drop_last(), at);
        flags_are_there(ops.drop_last());
    } else {
        assert(ops.take(at) =~= ops);
    }
}

} // verus!
