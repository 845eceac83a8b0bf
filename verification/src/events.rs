//! The assistant's event stream: one JSON document per line, turned into callbacks.
//!
//! Partial events repeat the text of the message so far. Only what a text adds to the bytes that
//! were already passed on is reported, so that the host sees every piece once.

use crate::callback::{Callback, CallbackView, calls};
use crate::json::{Json, JsonView, json_text, parse_json};
use crate::text::{
    byte_len, byte_length, cut_at_prefix, cut_front, cuts_fall_between_characters, same_text,
    splits_at, tail_from,
};
use vstd::prelude::*;

verus! {

/// How far the handling of an event has come.
pub struct Progress {
    /// The callbacks made so far.
    pub calls: Seq<CallbackView>,
    /// The bytes of the current message's text that were passed on.
    pub seen: nat,
    /// Whether a text was to be cut inside a character. Nothing is handled after that.
    pub fault: bool,
}

/// A text was to be cut inside one of its characters: it does not continue the text before it.
#[derive(Debug, PartialEq, Eq)]
pub struct CutInsideCharacter {
    /// The callbacks of the event's blocks before that text.
    pub fired: Vec<Callback>,
}

/// The part of a text that its first `seen` bytes do not cover.
pub open spec fn unseen(text: Seq<char>, seen: nat) -> Seq<char> {
    tail_from(text, covered(text, seen))
}

/// How many of a text's bytes the first `seen` bytes cover.
pub open spec fn covered(text: Seq<char>, seen: nat) -> int {
    if seen <= byte_len(text) {
        seen as int
    } else {
        byte_len(text) as int
    }
}

/// Handling one block of a message.
pub open spec fn block_step(block: JsonView, partial: bool, p: Progress) -> Progress {
    let kind = block.at("type"@).as_text();
    if p.fault {
        p
    } else if kind == Some("text"@) {
        match block.at("text"@).as_text() {
            Some(text) => if splits_at(text, covered(text, p.seen)) {
                let added = unseen(text, p.seen);
                Progress {
                    calls: if added.len() > 0 {
                        p.calls.push(CallbackView::Text(added))
                    } else {
                        p.calls
                    },
                    seen: byte_len(text),
                    fault: false,
                }
            } else {
                Progress { fault: true, ..p }
            },
            None => p,
        }
    } else if kind == Some("tool_use"@) && !partial {
        let name = match block.at("name"@).as_text() {
            Some(name) => name,
            None => "tool"@,
        };
        Progress { calls: p.calls.push(CallbackView::ToolStart(name)), ..p }
    } else {
        p
    }
}

/// Handling the blocks of a message, from the first to the last.
pub open spec fn blocks_run(blocks: Seq<JsonView>, partial: bool, p: Progress) -> Progress
    decreases blocks.len(),
{
    if blocks.len() == 0 {
        p
    } else {
        block_step(blocks.last(), partial, blocks_run(blocks.drop_last(), partial, p))
    }
}

/// Whether an event repeats a message that is still being written.
pub open spec fn is_partial(event: JsonView) -> bool {
    match event.get("partial"@) {
        Some(flag) => flag.as_bool() == Some(true),
        None => false,
    }
}

/// Handling one event.
pub open spec fn event_run(event: JsonView, seen: nat) -> Progress {
    let kind = event.at("type"@).as_text();
    let start = Progress { calls: Seq::empty(), seen, fault: false };
    if kind == Some("system"@) {
        if event.at("subtype"@).as_text() == Some("init"@) {
            let message = match event.at("message"@).as_text() {
                Some(message) => message,
                None => "Connected"@,
            };
            Progress { calls: seq![CallbackView::System(message)], ..start }
        } else {
            start
        }
    } else if kind == Some("assistant"@) {
        let p = match event.at("message"@).at("content"@).as_array() {
            Some(blocks) => blocks_run(blocks, is_partial(event), start),
            None => start,
        };
        if is_partial(event) || p.fault {
            p
        } else {
            Progress { seen: 0, ..p }
        }
    } else {
        start
    }
}

/// Handling one line of output: a line that is not JSON is passed over.
pub open spec fn line_run(line: Seq<char>, seen: nat) -> Progress {
    match json_text(line) {
        Some(event) => event_run(event, seen),
        None => Progress { calls: Seq::empty(), seen, fault: false },
    }
}

/// The characters of the string member with the given name.
fn text_at<'a>(value: &'a Json, name: &str) -> (text: Option<&'a str>)
    ensures
        match text {
            Some(s) => value@.at(name@).as_text() == Some(s@),
            None => value@.at(name@).as_text() is None,
        },
{
    match value.get(name) {
        Some(inner) => inner.as_text(),
        None => None,
    }
}

/// Whether the string member with the given name holds the given text.
fn text_is(value: &Json, name: &str, text: &str) -> (same: bool)
    ensures
        same == (value@.at(name@).as_text() == Some(text@)),
{
    match text_at(value, name) {
        Some(s) => same_text(s, text),
        None => false,
    }
}

fn partial_flag(event: &Json) -> (partial: bool)
    ensures
        partial == is_partial(event@),
{
    match event.get("partial") {
        Some(flag) => match flag.as_bool() {
            Some(b) => b,
            None => false,
        },
        None => false,
    }
}

/// Handles one block of a message; the result says whether its text could not be cut.
fn run_block(block: &Json, partial: bool, fired: &mut Vec<Callback>, seen: &mut usize) -> (fault:
    bool)
    ensures
        ({
            let p = block_step(
                block@,
                partial,
                Progress { calls: calls(old(fired)@), seen: *old(seen) as nat, fault: false },
            );
            &&& calls(final(fired)@) == p.calls
            &&& *final(seen) == p.seen
            &&& fault == p.fault
        }),
{
    let ghost before = fired@;
    if text_is(block, "type", "text") {
        match text_at(block, "text") {
            Some(text) => {
                let len = byte_length(text);
                let start = if *seen < len {
                    *seen
                } else {
                    len
                };
                assert(start == covered(text@, *seen as nat));
                if !text.is_char_boundary(start) {
                    return true;
                }
                let added = cut_front(text, start);
                if !added.is_empty() {
                    fired.push(Callback::Text(added.to_owned()));
                    assert(calls(fired@) =~= calls(before).push(CallbackView::Text(added@)));
                }
                *seen = len;
            },
            None => {},
        }
    } else if text_is(block, "type", "tool_use") && !partial {
        let name = match text_at(block, "name") {
            Some(name) => name,
            None => "tool",
        };
        fired.push(Callback::ToolStart(name.to_owned()));
        assert(calls(fired@) =~= calls(before).push(CallbackView::ToolStart(name@)));
    }
    false
}

/// Handles one event; the result says whether some text could not be cut.
fn run_event(event: &Json, seen: &mut usize) -> (result: (Vec<Callback>, bool))
    ensures
        ({
            let p = event_run(event@, *old(seen) as nat);
            &&& calls(result.0@) == p.calls
            &&& *final(seen) == p.seen
            &&& result.1 == p.fault
        }),
{
    let mut fired: Vec<Callback> = Vec::new();
    assert(calls(fired@) =~= Seq::empty());
    if text_is(event, "type", "system") {
        if text_is(event, "subtype", "init") {
            let message = match text_at(event, "message") {
                Some(message) => message,
                None => "Connected",
            };
            fired.push(Callback::System(message.to_owned()));
            assert(calls(fired@) =~= seq![CallbackView::System(message@)]);
        }
    } else if text_is(event, "type", "assistant") {
        let partial = partial_flag(event);
        let content = match event.get("message") {
            Some(message) => match message.get("content") {
                Some(content) => content.as_array(),
                None => None,
            },
            None => None,
        };
        match content {
            Some(blocks) => {
                let ghost list = Seq::new(blocks@.len(), |i: int| blocks@[i]@);
                let ghost start = Progress {
                    calls: Seq::empty(),
                    seen: *seen as nat,
                    fault: false,
                };
                let mut i: usize = 0;
                assert(list.take(0) =~= Seq::empty());
                while i < blocks.len()
                    invariant
                        i <= blocks@.len(),
                        list == Seq::new(blocks@.len(), |i: int| blocks@[i]@),
                        blocks_run(list.take(i as int), partial, start) == (Progress {
                            calls: calls(fired@),
                            seen: *seen as nat,
                            fault: false,
                        }),
                        event@.at("type"@).as_text() == Some("assistant"@),
                        event@.at("type"@).as_text() != Some("system"@),
                        event@.at("message"@).at("content"@).as_array() == Some(list),
                        partial == is_partial(event@),
                        start == (Progress {
                            calls: Seq::empty(),
                            seen: *old(seen) as nat,
                            fault: false,
                        }),
                    decreases blocks@.len() - i,
                {
                    assert(list.take(i + 1).drop_last() =~= list.take(i as int));
                    assert(list.take(i + 1).last() == blocks@[i as int]@);
                    if run_block(&blocks[i], partial, &mut fired, seen) {
                        proof {
                            fault_is_final(list, i + 1, partial, start);
                        }
                        return (fired, true);
                    }
                    i += 1;
                }
                assert(list.take(list.len() as int) =~= list);
            },
            None => {},
        }
        if !partial {
            *seen = 0;
        }
    }
    (fired, false)
}

/// Once a text could not be cut, the blocks after it change nothing.
proof fn fault_is_final(blocks: Seq<JsonView>, upto: int, partial: bool, p: Progress)
    requires
        0 <= upto <= blocks.len(),
        blocks_run(blocks.take(upto), partial, p).fault,
    ensures
        blocks_run(blocks, partial, p) == blocks_run(blocks.take(upto), partial, p),
    decreases blocks.len() - upto,
{
    if upto == blocks.len() {
        assert(blocks.take(upto) =~= blocks);
    } else {
        assert(blocks.take(upto + 1).drop_last() =~= blocks.take(upto));
        fault_is_final(blocks, upto + 1, partial, p);
    }
}

/// Handles one parsed event: the callbacks it gives rise to, with `last_text_len` counting the
/// bytes of the current message's text that were passed on.
pub fn handle_event(event: &Json, last_text_len: &mut usize) -> (fired: Vec<Callback>)
    requires
        !event_run(event@, *old(last_text_len) as nat).fault,
    ensures
        calls(fired@) == event_run(event@, *old(last_text_len) as nat).calls,
        *final(last_text_len) == event_run(event@, *old(last_text_len) as nat).seen,
{
    run_event(event, last_text_len).0
}

/// Handles one line of output. Fails exactly where a text would have to be cut inside one of its
/// characters.
pub fn process_event(line: &str, last_text_len: &mut usize) -> (result: Result<
    Vec<Callback>,
    CutInsideCharacter,
>)
    ensures
        ({
            let p = line_run(line@, *old(last_text_len) as nat);
            &&& *final(last_text_len) == p.seen
            &&& match result {
                Ok(fired) => !p.fault && calls(fired@) == p.calls,
                Err(cut) => p.fault && calls(cut.fired@) == p.calls,
            }
        }),
{
    match parse_json(line) {
        Some(event) => {
            let (fired, fault) = run_event(&event, last_text_len);
            if fault {
                Err(CutInsideCharacter { fired })
            } else {
                Ok(fired)
            }
        },
        None => {
            let fired: Vec<Callback> = Vec::new();
            assert(calls(fired@) =~= Seq::empty());
            Ok(fired)
        },
    }
}

// ---------------------------------------------------------------------------
// Laws
// ---------------------------------------------------------------------------

/// What an event stream can report: messages of the assistant's own, text, and tools.
pub open spec fn is_event_call(call: CallbackView) -> bool {
    call is System || call is Text || call is ToolStart
}

proof fn blocks_report_only(blocks: Seq<JsonView>, partial: bool, p: Progress)
    requires
        forall|i: int|
            0 <= i < p.calls.len() ==> is_event_call(#[trigger] p.calls[i]) && (
            p.calls[i] is Text ==> p.calls[i]->Text_0.len() > 0) && (partial ==> !(
            p.calls[i] is ToolStart)),
    ensures
        ({
            let q = blocks_run(blocks, partial, p);
            forall|i: int|
                0 <= i < q.calls.len() ==> is_event_call(#[trigger] q.calls[i]) && (
                q.calls[i] is Text ==> q.calls[i]->Text_0.len() > 0) && (partial ==> !(
                q.calls[i] is ToolStart))
        }),
    decreases blocks.len(),
{
    if blocks.len() > 0 {
        blocks_report_only(blocks.drop_last(), partial, p);
    }
}

/// An event reports nothing but messages, text and tools, and never an empty text. An event that
/// repeats an unfinished message reports no tool.
pub proof fn events_report_only(event: JsonView, seen: nat)
    ensures
        ({
            let fired = event_run(event, seen).calls;
            forall|i: int|
                0 <= i < fired.len() ==> is_event_call(#[trigger] fired[i]) && (fired[i] is Text
                    ==> fired[i]->Text_0.len() > 0) && (is_partial(event) ==> !(
                fired[i] is ToolStart))
        }),
{
    let start = Progress { calls: Seq::empty(), seen, fault: false };
    match event.at("message"@).at("content"@).as_array() {
        Some(blocks) => blocks_report_only(blocks, is_partial(event), start),
        None => {},
    }
}

/// After an event with a finished message, the text of the next message is passed on from its
/// beginning.
pub proof fn finished_message_starts_anew(event: JsonView, seen: nat)
    requires
        is_message(event),
        !is_partial(event),
        !event_run(event, seen).fault,
    ensures
        event_run(event, seen).seen == 0,
{
    assert("assistant"@ != "system"@) by {
        reveal_strlit("assistant");
        reveal_strlit("system");
        assert("assistant"@.len() != "system"@.len());
    }
}

/// Handling a run of events, one after the other.
pub open spec fn events_run(events: Seq<JsonView>, seen: nat) -> Progress
    decreases events.len(),
{
    if events.len() == 0 {
        Progress { calls: Seq::empty(), seen, fault: false }
    } else {
        let p = events_run(events.drop_last(), seen);
        if p.fault {
            p
        } else {
            let q = event_run(events.last(), p.seen);
            Progress { calls: p.calls + q.calls, seen: q.seen, fault: q.fault }
        }
    }
}

/// All the text that was reported, put together.
pub open spec fn spoken(list: Seq<CallbackView>) -> Seq<char>
    decreases list.len(),
{
    if list.len() == 0 {
        Seq::empty()
    } else {
        spoken(list.drop_last()) + match list.last() {
            CallbackView::Text(text) => text,
            _ => Seq::empty(),
        }
    }
}

/// The text of a text block.
pub open spec fn block_text(block: JsonView) -> Option<Seq<char>> {
    if block.at("type"@).as_text() == Some("text"@) {
        block.at("text"@).as_text()
    } else {
        None
    }
}

/// Whether the block at the given place holds the given text, and no other block holds any.
pub open spec fn only_text(blocks: Seq<JsonView>, at: int, text: Seq<char>) -> bool {
    &&& 0 <= at < blocks.len()
    &&& block_text(blocks[at]) == Some(text)
    &&& forall|i: int|
        0 <= i < blocks.len() && i != at ==> block_text(#[trigger] blocks[i]) is None
}

/// Whether an event carries a message of the assistant.
pub open spec fn is_message(event: JsonView) -> bool {
    event.at("type"@).as_text() == Some("assistant"@)
}

/// The blocks of an event's message: none where it has no list of blocks.
pub open spec fn blocks_of(event: JsonView) -> Seq<JsonView> {
    match event.at("message"@).at("content"@).as_array() {
        Some(blocks) => blocks,
        None => Seq::empty(),
    }
}

/// Whether an event carries a message with the given text in a single block.
pub open spec fn says(event: JsonView, text: Seq<char>) -> bool {
    &&& is_message(event)
    &&& exists|at: int| #[trigger] only_text(blocks_of(event), at, text)
}

/// Whether an event carries no text at all.
pub open spec fn is_quiet(event: JsonView) -> bool {
    is_message(event) ==> forall|i: int|
        0 <= i < blocks_of(event).len() ==> block_text(#[trigger] blocks_of(event)[i]) is None
}

/// Whether an event leaves the message that is being written unfinished.
pub open spec fn leaves_open(event: JsonView) -> bool {
    is_message(event) ==> is_partial(event)
}

/// Whether an event takes the text of a message from `before` to `now`: it repeats the text and
/// continues it, or it carries no text.
pub open spec fn continues(event: JsonView, before: Seq<char>, now: Seq<char>) -> bool {
    ||| says(event, now) && before.len() <= now.len() && now.take(before.len() as int) == before
    ||| is_quiet(event) && now == before
}

proof fn spoken_concat(a: Seq<CallbackView>, b: Seq<CallbackView>)
    ensures
        spoken(a + b) == spoken(a) + spoken(b),
    decreases b.len(),
{
    if b.len() == 0 {
        assert(a + b =~= a);
        assert(spoken(a) + spoken(b) =~= spoken(a));
    } else {
        spoken_concat(a, b.drop_last());
        assert((a + b).drop_last() =~= a + b.drop_last());
        assert(spoken(a + b) =~= spoken(a) + spoken(b));
    }
}

proof fn block_adds(
    block: JsonView,
    partial: bool,
    p: Progress,
    before: Seq<char>,
    added: Seq<char>,
)
    requires
        !p.fault,
        p.seen == byte_len(before),
        block_text(block) == Some(before + added),
    ensures
        ({
            let q = block_step(block, partial, p);
            &&& !q.fault
            &&& q.seen == byte_len(before + added)
            &&& spoken(q.calls) == spoken(p.calls) + added
        }),
{
    cut_at_prefix(before, added);
    let q = block_step(block, partial, p);
    if added.len() > 0 {
        assert(q.calls.drop_last() =~= p.calls);
    } else {
        assert(spoken(p.calls) + added =~= spoken(p.calls));
    }
}

proof fn quiet_block_adds_nothing(block: JsonView, partial: bool, p: Progress)
    requires
        !p.fault,
        block_text(block) is None,
    ensures
        ({
            let q = block_step(block, partial, p);
            &&& !q.fault
            &&& q.seen == p.seen
            &&& spoken(q.calls) == spoken(p.calls)
        }),
{
    let q = block_step(block, partial, p);
    if q.calls.len() > p.calls.len() {
        assert(q.calls.drop_last() =~= p.calls);
        assert(spoken(q.calls) =~= spoken(p.calls));
    }
}

proof fn blocks_add(
    blocks: Seq<JsonView>,
    upto: int,
    at: int,
    partial: bool,
    p: Progress,
    before: Seq<char>,
    added: Seq<char>,
)
    requires
        only_text(blocks, at, before + added),
        0 <= upto <= blocks.len(),
        !p.fault,
        p.seen == byte_len(before),
    ensures
        ({
            let q = blocks_run(blocks.take(upto), partial, p);
            &&& !q.fault
            &&& q.seen == if upto <= at {
                byte_len(before)
            } else {
                byte_len(before + added)
            }
            &&& spoken(q.calls) == if upto <= at {
                spoken(p.calls)
            } else {
                spoken(p.calls) + added
            }
        }),
    decreases upto,
{
    if upto > 0 {
        blocks_add(blocks, upto - 1, at, partial, p, before, added);
        let q = blocks_run(blocks.take(upto - 1), partial, p);
        let block = blocks[upto - 1];
        assert(blocks.take(upto).drop_last() =~= blocks.take(upto - 1));
        assert(blocks.take(upto).last() == block);
        if upto - 1 == at {
            block_adds(block, partial, q, before, added);
        } else {
            quiet_block_adds_nothing(block, partial, q);
        }
    }
}

proof fn quiet_blocks_add_nothing(blocks: Seq<JsonView>, partial: bool, p: Progress)
    requires
        forall|i: int| 0 <= i < blocks.len() ==> block_text(#[trigger] blocks[i]) is None,
        !p.fault,
    ensures
        ({
            let q = blocks_run(blocks, partial, p);
            &&& !q.fault
            &&& q.seen == p.seen
            &&& spoken(q.calls) == spoken(p.calls)
        }),
    decreases blocks.len(),
{
    if blocks.len() > 0 {
        assert(block_text(blocks.last()) is None);
        assert forall|i: int| 0 <= i < blocks.drop_last().len() implies block_text(
            #[trigger] blocks.drop_last()[i],
        ) is None by {
            assert(blocks.drop_last()[i] == blocks[i]);
        }
        quiet_blocks_add_nothing(blocks.drop_last(), partial, p);
        let q = blocks_run(blocks.drop_last(), partial, p);
        quiet_block_adds_nothing(blocks.last(), partial, q);
    }
}

/// An event that takes the text of a message further reports exactly what is new, and an event
/// without text reports none.
pub proof fn continued_text_reports_what_is_new(
    event: JsonView,
    before: Seq<char>,
    now: Seq<char>,
)
    requires
        continues(event, before, now),
    ensures
        ({
            let p = event_run(event, byte_len(before));
            &&& !p.fault
            &&& before + spoken(p.calls) == now
            &&& p.seen == if leaves_open(event) {
                byte_len(now)
            } else {
                0
            }
        }),
{
    assert("assistant"@ != "system"@) by {
        reveal_strlit("assistant");
        reveal_strlit("system");
        assert("assistant"@.len() != "system"@.len());
    }
    let blocks = blocks_of(event);
    let start = Progress { calls: Seq::empty(), seen: byte_len(before), fault: false };
    let p = event_run(event, byte_len(before));
    if !is_message(event) {
        assert(spoken(p.calls) =~= Seq::empty()) by {
            reveal_with_fuel(spoken, 2);
        }
        assert(before + spoken(p.calls) =~= now);
    } else if is_quiet(event) && now == before {
        quiet_blocks_add_nothing(blocks, is_partial(event), start);
        assert(before + spoken(p.calls) =~= now);
    } else {
        let added = now.skip(before.len() as int);
        assert(before + added =~= now);
        let at = choose|at: int| #[trigger] only_text(blocks, at, now);
        blocks_add(blocks, blocks.len() as int, at, is_partial(event), start, before, added);
        assert(blocks.take(blocks.len() as int) =~= blocks);
        assert(spoken(start.calls) + added =~= added);
    }
}

/// The text of a message before the event at the given place.
pub open spec fn text_before(said: Seq<Seq<char>>, at: int) -> Seq<char> {
    if at == 0 {
        Seq::empty()
    } else {
        said[at - 1]
    }
}

/// Every piece of a message is passed on once: where each event takes the text of the message
/// further, from nothing on, the texts that are reported put together are the text of the message.
pub proof fn growing_text_is_passed_on_once(events: Seq<JsonView>, said: Seq<Seq<char>>)
    requires
        events.len() > 0,
        said.len() == events.len(),
        forall|i: int|
            0 <= i < events.len() ==> continues(
                #[trigger] events[i],
                text_before(said, i),
                said[i],
            ),
        forall|i: int| 0 <= i < events.len() - 1 ==> leaves_open(#[trigger] events[i]),
    ensures
        !events_run(events, 0).fault,
        spoken(events_run(events, 0).calls) == said.last(),
        events_run(events, 0).seen == if leaves_open(events.last()) {
            byte_len(said.last())
        } else {
            0
        },
    decreases events.len(),
{
    let n = events.len() - 1;
    let earlier = events.drop_last();
    let p = events_run(earlier, 0);
    let before = text_before(said, n);
    if n > 0 {
        let said_earlier = said.drop_last();
        assert forall|i: int| 0 <= i < earlier.len() implies continues(
            #[trigger] earlier[i],
            text_before(said_earlier, i),
            said_earlier[i],
        ) by {
            assert(earlier[i] == events[i]);
            assert(text_before(said_earlier, i) == text_before(said, i));
        }
        assert forall|i: int| 0 <= i < earlier.len() - 1 implies leaves_open(
            #[trigger] earlier[i],
        ) by {
            assert(earlier[i] == events[i]);
        }
        growing_text_is_passed_on_once(earlier, said_earlier);
        assert(leaves_open(events[n - 1]));
    }
    assert(spoken(p.calls) =~= before);
    assert(p.seen == byte_len(before));
    assert(continues(events[n], before, said[n]));
    continued_text_reports_what_is_new(events[n], before, said[n]);
    spoken_concat(p.calls, event_run(events[n], p.seen).calls);
}

/// Handling two runs of events one after the other is handling them all: what comes after a
/// finished message is a stream of its own.
pub proof fn streams_follow_each_other(first: Seq<JsonView>, second: Seq<JsonView>, seen: nat)
    requires
        !events_run(first, seen).fault,
    ensures
        ({
            let p = events_run(first, seen);
            let q = events_run(second, p.seen);
            events_run(first + second, seen) == (Progress {
                calls: p.calls + q.calls,
                seen: q.seen,
                fault: q.fault,
            })
        }),
    decreases second.len(),
{
    let p = events_run(first, seen);
    if second.len() == 0 {
        assert(first + second =~= first);
        assert(p.calls + Seq::<CallbackView>::empty() =~= p.calls);
    } else {
        streams_follow_each_other(first, second.drop_last(), seen);
        assert((first + second).drop_last() =~= first + second.drop_last());
        let q = events_run(second.drop_last(), p.seen);
        if !q.fault {
            let r = event_run(second.last(), q.seen);
            assert((p.calls + q.calls) + r.calls =~= p.calls + (q.calls + r.calls));
        }
    }
}

// ---------------------------------------------------------------------------
// Laws on the blocks of a message
// ---------------------------------------------------------------------------

/// The name of the tool that a block uses: a tool without a name is called `tool`.
pub open spec fn block_tool(block: JsonView) -> Option<Seq<char>> {
    if block.at("type"@) == JsonView::Text("tool_use"@) {
        match block.at("name"@) {
            JsonView::Text(name) => Some(name),
            _ => Some("tool"@),
        }
    } else {
        None
    }
}

/// The tools that a list of blocks uses, in order.
pub open spec fn tools_used(blocks: Seq<JsonView>) -> Seq<Seq<char>>
    decreases blocks.len(),
{
    if blocks.len() == 0 {
        Seq::empty()
    } else {
        match block_tool(blocks.last()) {
            Some(name) => tools_used(blocks.drop_last()).push(name),
            None => tools_used(blocks.drop_last()),
        }
    }
}

/// The tools that are announced, in order.
pub open spec fn tools_announced(list: Seq<CallbackView>) -> Seq<Seq<char>>
    decreases list.len(),
{
    if list.len() == 0 {
        Seq::empty()
    } else {
        match list.last() {
            CallbackView::ToolStart(name) => tools_announced(list.drop_last()).push(name),
            _ => tools_announced(list.drop_last()),
        }
    }
}

/// Whether an event says that its message is still being written.
pub open spec fn is_unfinished(event: JsonView) -> bool {
    event.get("partial"@) == Some(JsonView::Bool(true))
}

proof fn kinds_differ()
    ensures
        "assistant"@ != "system"@,
        "text"@ != "tool_use"@,
{
    reveal_strlit("assistant");
    reveal_strlit("system");
    reveal_strlit("text");
    reveal_strlit("tool_use");
    assert("assistant"@.len() != "system"@.len());
    assert("text"@.len() != "tool_use"@.len());
}

proof fn blocks_announce_their_tools(blocks: Seq<JsonView>, p: Progress)
    requires
        !p.fault,
        !blocks_run(blocks, false, p).fault,
    ensures
        tools_announced(blocks_run(blocks, false, p).calls) == tools_announced(p.calls)
            + tools_used(blocks),
    decreases blocks.len(),
{
    kinds_differ();
    if blocks.len() == 0 {
        assert(tools_announced(p.calls) + tools_used(blocks) =~= tools_announced(p.calls));
    } else {
        let before = blocks_run(blocks.drop_last(), false, p);
        let after = blocks_run(blocks, false, p);
        blocks_announce_their_tools(blocks.drop_last(), p);
        if after.calls.len() > before.calls.len() {
            assert(after.calls.drop_last() =~= before.calls);
        }
        assert(tools_announced(after.calls) =~= tools_announced(p.calls) + tools_used(blocks));
    }
}

/// A finished message announces each of the tools that its blocks use, once and in order, whatever
/// texts stand between them.
pub proof fn every_tool_is_announced(event: JsonView, seen: nat)
    requires
        is_message(event),
        !is_unfinished(event),
        !event_run(event, seen).fault,
    ensures
        tools_announced(event_run(event, seen).calls) == tools_used(blocks_of(event)),
{
    kinds_differ();
    let start = Progress { calls: Seq::empty(), seen, fault: false };
    blocks_announce_their_tools(blocks_of(event), start);
    assert(tools_announced(start.calls) + tools_used(blocks_of(event)) =~= tools_used(
        blocks_of(event),
    ));
}

/// The bytes of text that count as passed on when a block is reached: those of the latest text
/// before it in the message, or those from before the event where there is none.
pub open spec fn passed_on(blocks: Seq<JsonView>, upto: int, seen: nat) -> nat
    decreases upto,
{
    if upto <= 0 {
        seen
    } else {
        match block_text(blocks[upto - 1]) {
            Some(text) => byte_len(text),
            None => passed_on(blocks, upto - 1, seen),
        }
    }
}

/// Whether a text falls into a part that was passed on and a part that is new: the first has the
/// bytes that were passed on, or is the whole text where it has fewer.
pub open spec fn falls_into(text: Seq<char>, passed: nat, old_part: Seq<char>, new_part: Seq<char>)
    -> bool {
    &&& text == old_part + new_part
    &&& byte_len(old_part) == if passed <= byte_len(text) {
        passed
    } else {
        byte_len(text)
    }
}

/// Whether a text can be told apart into what was passed on and what is new.
pub open spec fn can_be_cut(text: Seq<char>, passed: nat) -> bool {
    exists|old_part: Seq<char>, new_part: Seq<char>| falls_into(text, passed, old_part, new_part)
}

/// Whether the calls are those of a block: the new part of its text, or its tool where the message
/// is finished.
pub open spec fn is_piece(
    block: JsonView,
    finished: bool,
    passed: nat,
    piece: Seq<CallbackView>,
) -> bool {
    match (block_text(block), block_tool(block)) {
        (Some(text), _) => exists|old_part: Seq<char>, new_part: Seq<char>|
            #[trigger] falls_into(text, passed, old_part, new_part) && piece == (if new_part.len()
                == 0 {
                Seq::empty()
            } else {
                seq![CallbackView::Text(new_part)]
            }),
        (None, Some(name)) => piece == (if finished {
            seq![CallbackView::ToolStart(name)]
        } else {
            Seq::empty()
        }),
        (None, None) => piece == Seq::<CallbackView>::empty(),
    }
}

/// Runs of calls, one after the other.
pub open spec fn joined(pieces: Seq<Seq<CallbackView>>) -> Seq<CallbackView>
    decreases pieces.len(),
{
    if pieces.len() == 0 {
        Seq::empty()
    } else {
        joined(pieces.drop_last()) + pieces.last()
    }
}

proof fn text_can_be_cut(text: Seq<char>, passed: nat) -> (parts: (Seq<char>, Seq<char>))
    requires
        splits_at(text, covered(text, passed)),
    ensures
        falls_into(text, passed, parts.0, parts.1),
        parts.1 == unseen(text, passed),
{
    let count = cuts_fall_between_characters(text, covered(text, passed));
    assert(text == text.take(count) + text.skip(count));
    (text.take(count), text.skip(count))
}

proof fn text_cannot_be_cut(text: Seq<char>, passed: nat)
    requires
        !splits_at(text, covered(text, passed)),
    ensures
        !can_be_cut(text, passed),
{
    if can_be_cut(text, passed) {
        let (old_part, new_part) = choose|old_part: Seq<char>, new_part: Seq<char>|
            falls_into(text, passed, old_part, new_part);
        cut_at_prefix(old_part, new_part);
    }
}

proof fn blocks_make_their_pieces(blocks: Seq<JsonView>, upto: int, partial: bool, seen: nat)
    -> (pieces: Seq<Seq<CallbackView>>)
    requires
        0 <= upto <= blocks.len(),
    ensures
        ({
            let start = Progress { calls: Seq::empty(), seen, fault: false };
            let p = blocks_run(blocks.take(upto), partial, start);
            let n = pieces.len() as int;
            &&& n <= upto
            &&& p.calls == joined(pieces)
            &&& forall|i: int|
                0 <= i < n ==> is_piece(
                    blocks[i],
                    !partial,
                    passed_on(blocks, i, seen),
                    #[trigger] pieces[i],
                )
            &&& !p.fault ==> n == upto && p.seen == passed_on(blocks, upto, seen)
            &&& p.fault ==> n < upto && block_text(blocks[n]) is Some && !can_be_cut(
                block_text(blocks[n])->0,
                passed_on(blocks, n, seen),
            )
        }),
    decreases upto,
{
    kinds_differ();
    let start = Progress { calls: Seq::empty(), seen, fault: false };
    if upto == 0 {
        assert(blocks.take(0) =~= Seq::empty());
        Seq::empty()
    } else {
        let earlier = blocks_make_their_pieces(blocks, upto - 1, partial, seen);
        let before = blocks_run(blocks.take(upto - 1), partial, start);
        let after = blocks_run(blocks.take(upto), partial, start);
        let block = blocks[upto - 1];
        assert(blocks.take(upto).drop_last() =~= blocks.take(upto - 1));
        assert(blocks.take(upto).last() == block);
        assert(after == block_step(block, partial, before));
        if before.fault {
            earlier
        } else if after.fault {
            text_cannot_be_cut(block_text(block)->0, before.seen);
            earlier
        } else {
            let piece = after.calls.skip(before.calls.len() as int);
            match block_text(block) {
                Some(text) => {
                    let (old_part, new_part) = text_can_be_cut(text, before.seen);
                    assert(falls_into(text, before.seen, old_part, new_part));
                    if new_part.len() == 0 {
                        assert(piece =~= Seq::empty());
                    } else {
                        assert(piece =~= seq![CallbackView::Text(new_part)]);
                    }
                },
                None => {
                    if after.calls.len() > before.calls.len() {
                        assert(piece =~= seq![CallbackView::ToolStart(block_tool(block)->0)]);
                    } else {
                        assert(piece =~= Seq::empty());
                    }
                },
            }
            let pieces = earlier.push(piece);
            assert(pieces.drop_last() =~= earlier);
            assert(after.calls =~= joined(earlier) + piece);
            assert forall|i: int| 0 <= i < pieces.len() implies is_piece(
                blocks[i],
                !partial,
                passed_on(blocks, i, seen),
                #[trigger] pieces[i],
            ) by {
                if i < upto - 1 {
                    assert(pieces[i] == earlier[i]);
                }
            }
            pieces
        }
    }
}

/// A message is reported block by block, in order: of each text what is new, and of a finished
/// message each tool. Where a text cannot be told apart into what was passed on and what is new,
/// the blocks before it are all that is reported. The result holds what each block gives rise to.
pub proof fn messages_are_reported_block_by_block(event: JsonView, seen: nat) -> (pieces: Seq<
    Seq<CallbackView>,
>)
    requires
        is_message(event),
    ensures
        ({
            let p = event_run(event, seen);
            let blocks = blocks_of(event);
            let n = pieces.len() as int;
            &&& n <= blocks.len()
            &&& p.calls == joined(pieces)
            &&& forall|i: int|
                0 <= i < n ==> is_piece(
                    blocks[i],
                    !is_unfinished(event),
                    passed_on(blocks, i, seen),
                    #[trigger] pieces[i],
                )
            &&& !p.fault ==> n == blocks.len()
            &&& p.fault ==> n < blocks.len() && block_text(blocks[n]) is Some && !can_be_cut(
                block_text(blocks[n])->0,
                passed_on(blocks, n, seen),
            )
        }),
{
    kinds_differ();
    let blocks = blocks_of(event);
    assert(is_partial(event) == is_unfinished(event));
    assert(blocks.take(blocks.len() as int) =~= blocks);
    blocks_make_their_pieces(blocks, blocks.len() as int, is_unfinished(event), seen)
}

/// Handling an event goes wrong exactly where it carries a message with a text that cannot be told
/// apart into what was passed on and what is new.
pub proof fn faults_are_texts_that_cannot_be_cut(event: JsonView, seen: nat)
    ensures
        event_run(event, seen).fault <==> is_message(event) && exists|i: int|
            0 <= i < blocks_of(event).len() && block_text(#[trigger] blocks_of(event)[i]) is Some
                && !can_be_cut(
                block_text(blocks_of(event)[i])->0,
                passed_on(blocks_of(event), i, seen),
            ),
{
    kinds_differ();
    if is_message(event) {
        let blocks = blocks_of(event);
        let pieces = messages_are_reported_block_by_block(event, seen);
        if !event_run(event, seen).fault {
            assert forall|i: int|
                0 <= i < blocks.len() && block_text(#[trigger] blocks[i]) is Some implies can_be_cut(
                block_text(blocks[i])->0,
                passed_on(blocks, i, seen),
            ) by {
                assert(is_piece(
                    blocks[i],
                    !is_unfinished(event),
                    passed_on(blocks, i, seen),
                    pieces[i],
                ));
            }
        } else {
            assert(block_text(blocks[pieces.len() as int]) is Some);
        }
    }
}

/// After an unfinished message the bytes of its latest text count as passed on, and after a
/// finished one none do. Events of other kinds leave the count as it is.
pub proof fn passed_on_bytes_are_counted(event: JsonView, seen: nat)
    requires
        !event_run(event, seen).fault,
    ensures
        event_run(event, seen).seen == if !is_message(event) {
            seen
        } else if is_unfinished(event) {
            passed_on(blocks_of(event), blocks_of(event).len() as int, seen)
        } else {
            0
        },
{
    kinds_differ();
    if is_message(event) {
        let blocks = blocks_of(event);
        assert(blocks.take(blocks.len() as int) =~= blocks);
        let pieces = blocks_make_their_pieces(
            blocks,
            blocks.len() as int,
            is_unfinished(event),
            seen,
        );
    }
}

/// The first event of a connection is reported with its message, or with a message of its own where
/// it has none.
pub proof fn connections_are_reported(event: JsonView, seen: nat)
    requires
        event.at("type"@) == JsonView::Text("system"@),
        event.at("subtype"@) == JsonView::Text("init"@),
    ensures
        ({
            let fired = event_run(event, seen).calls;
            &&& fired.len() == 1
            &&& fired[0] is System
            &&& match event.at("message"@) {
                JsonView::Text(message) => fired[0]->System_0 == message,
                _ => fired[0]->System_0 == "Connected"@,
            }
        }),
{
}

/// Nothing is reported of an event that carries neither a message nor a connection.
pub proof fn other_events_are_silent(event: JsonView, seen: nat)
    requires
        event.at("type"@) != JsonView::Text("assistant"@),
        event.at("type"@) != JsonView::Text("system"@) || event.at("subtype"@) != JsonView::Text(
            "init"@,
        ),
    ensures
        event_run(event, seen).calls == Seq::<CallbackView>::empty(),
        event_run(event, seen).seen == seen,
{
}

/// A line is handled as the event that it holds, and nothing comes of a line that holds none.
pub proof fn lines_are_their_events(line: Seq<char>, event: JsonView, seen: nat)
    ensures
        json_text(line) == Some(event) ==> line_run(line, seen) == event_run(event, seen),
        json_text(line) is None ==> line_run(line, seen).calls == Seq::<CallbackView>::empty()
            && line_run(line, seen).seen == seen && !line_run(line, seen).fault,
{
}

} // verus!
