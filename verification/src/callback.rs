//! What the plug-in reports back to its host: named callbacks with an optional text.

use vstd::prelude::*;

verus! {

/// One call to a callback method of the host.
#[derive(Debug, PartialEq, Eq)]
pub enum Callback {
    StreamStart,
    StreamEnd,
    System(String),
    Text(String),
    ToolStart(String),
    Error(String),
    ScreenUpdate(String),
    Exit,
}

/// One call to a callback method of the host, mathematically.
pub enum CallbackView {
    StreamStart,
    StreamEnd,
    System(Seq<char>),
    Text(Seq<char>),
    ToolStart(Seq<char>),
    Error(Seq<char>),
    ScreenUpdate(Seq<char>),
    Exit,
}

impl View for Callback {
    type V = CallbackView;

    open spec fn view(&self) -> CallbackView {
        match *self {
            Callback::StreamStart => CallbackView::StreamStart,
            Callback::StreamEnd => CallbackView::StreamEnd,
            Callback::System(s) => CallbackView::System(s@),
            Callback::Text(s) => CallbackView::Text(s@),
            Callback::ToolStart(s) => CallbackView::ToolStart(s@),
            Callback::Error(s) => CallbackView::Error(s@),
            Callback::ScreenUpdate(s) => CallbackView::ScreenUpdate(s@),
            Callback::Exit => CallbackView::Exit,
        }
    }
}

/// A run of callbacks, in the order in which they are made.
pub open spec fn calls(list: Seq<Callback>) -> Seq<CallbackView> {
    Seq::new(list.len(), |i: int| list[i]@)
}

impl CallbackView {
    /// The name of the method that is called.
    pub open spec fn method(self) -> Seq<char> {
        match self {
            CallbackView::StreamStart => "onStreamStart"@,
            CallbackView::StreamEnd => "onStreamEnd"@,
            CallbackView::System(_) => "onSystem"@,
            CallbackView::Text(_) => "onText"@,
            CallbackView::ToolStart(_) => "onToolStart"@,
            CallbackView::Error(_) => "onError"@,
            CallbackView::ScreenUpdate(_) => "onScreenUpdate"@,
            CallbackView::Exit => "onExit"@,
        }
    }

    /// The text that is passed, for the methods that take one.
    pub open spec fn argument(self) -> Option<Seq<char>> {
        match self {
            CallbackView::System(s) => Some(s),
            CallbackView::Text(s) => Some(s),
            CallbackView::ToolStart(s) => Some(s),
            CallbackView::Error(s) => Some(s),
            CallbackView::ScreenUpdate(s) => Some(s),
            _ => None,
        }
    }

    /// The method's type descriptor: one string, or no argument at all, and no result.
    pub open spec fn descriptor(self) -> Seq<char> {
        match self.argument() {
            Some(_) => "(Ljava/lang/String;)V"@,
            None => "()V"@,
        }
    }
}

impl Callback {
    /// The name of the method that is called.
    pub fn method(&self) -> (name: &'static str)
        ensures
            name@ == self@.method(),
    {
        match self {
            Callback::StreamStart => "onStreamStart",
            Callback::StreamEnd => "onStreamEnd",
            Callback::System(_) => "onSystem",
            Callback::Text(_) => "onText",
            Callback::ToolStart(_) => "onToolStart",
            Callback::Error(_) => "onError",
            Callback::ScreenUpdate(_) => "onScreenUpdate",
            Callback::Exit => "onExit",
        }
    }

    /// The text that is passed, for the methods that take one.
    pub fn argument(&self) -> (text: Option<&str>)
        ensures
            match text {
                Some(s) => self@.argument() == Some(s@),
                None => self@.argument() is None,
            },
    {
        match self {
            Callback::System(s) => Some(s.as_str()),
            Callback::Text(s) => Some(s.as_str()),
            Callback::ToolStart(s) => Some(s.as_str()),
            Callback::Error(s) => Some(s.as_str()),
            Callback::ScreenUpdate(s) => Some(s.as_str()),
            _ => None,
        }
    }

    /// The method's type descriptor: one string, or no argument at all, and no result.
    pub fn descriptor(&self) -> (descriptor: &'static str)
        ensures
            descriptor@ == self@.descriptor(),
    {
        match self.argument() {
            Some(_) => "(Ljava/lang/String;)V",
            None => "()V",
        }
    }
}

/// Callbacks to be made on a registered object, in order.
#[derive(Debug, PartialEq, Eq)]
pub struct Report {
    pub target: u64,
    pub callbacks: Vec<Callback>,
}

/// Whether a report makes exactly the given calls on the registered object: there is none where
/// nothing is registered.
pub open spec fn reports(
    report: Option<Report>,
    target: Option<u64>,
    wanted: Seq<CallbackView>,
) -> bool {
    match target {
        Some(t) => report is Some && report->0.target == t && calls(report->0.callbacks@) == wanted,
        None => report is None,
    }
}

/// A call is determined by the method and the text that goes with it: no two different calls look
/// alike to the host.
pub proof fn calls_are_told_apart(a: CallbackView, b: CallbackView)
    requires
        a.method() == b.method(),
        a.argument() == b.argument(),
    ensures
        a == b,
{
    reveal_strlit("onStreamStart");
    reveal_strlit("onStreamEnd");
    reveal_strlit("onSystem");
    reveal_strlit("onText");
    reveal_strlit("onToolStart");
    reveal_strlit("onError");
    reveal_strlit("onScreenUpdate");
    reveal_strlit("onExit");
    let (m, n) = (a.method(), b.method());
    assert(m.len() == n.len());
    assert(m.len() > 6 ==> m[2] == n[2] && m[3] == n[3]);
}

/// A run of callbacks keeps every call, in its place.
pub proof fn calls_keep_their_places(list: Seq<Callback>)
    ensures
        calls(list).len() == list.len(),
        forall|i: int| 0 <= i < list.len() ==> #[trigger] calls(list)[i] == list[i]@,
{
}

/// A report is made exactly where something is registered, for what is registered, and it makes
/// exactly the wanted calls.
pub proof fn reports_go_to_the_registered(
    report: Option<Report>,
    target: Option<u64>,
    wanted: Seq<CallbackView>,
)
    ensures
        reports(report, target, wanted) <==> {
            &&& report is Some <==> target is Some
            &&& report is Some ==> report->0.target == target->0
            &&& report is Some ==> report->0.callbacks@.len() == wanted.len()
            &&& report is Some ==> forall|i: int|
                0 <= i < wanted.len() ==> (#[trigger] report->0.callbacks@[i])@ == wanted[i]
        },
{
    if report is Some && target is Some {
        let made = calls(report->0.callbacks@);
        assert(made.len() == wanted.len() && (forall|i: int|
            0 <= i < wanted.len() ==> (#[trigger] report->0.callbacks@[i])@ == wanted[i])
            ==> made =~= wanted);
        assert(made == wanted ==> forall|i: int|
            0 <= i < wanted.len() ==> (#[trigger] report->0.callbacks@[i])@ == made[i]);
    }
}

/// Calls that show something take it as their text, and the others take none.
pub proof fn texts_are_passed(call: CallbackView, text: Seq<char>)
    ensures
        CallbackView::System(text).argument() == Some(text),
        CallbackView::Text(text).argument() == Some(text),
        CallbackView::ToolStart(text).argument() == Some(text),
        CallbackView::Error(text).argument() == Some(text),
        CallbackView::ScreenUpdate(text).argument() == Some(text),
        call is StreamStart || call is StreamEnd || call is Exit <==> call.argument() is None,
        call.argument() is Some <==> call.descriptor() == "(Ljava/lang/String;)V"@,
        call.argument() is None <==> call.descriptor() == "()V"@,
{
    reveal_strlit("(Ljava/lang/String;)V");
    reveal_strlit("()V");
    assert("()V"@.len() != "(Ljava/lang/String;)V"@.len());
}

/// Each kind of call goes to the host's method of its own, whatever the text.
pub proof fn kinds_have_their_methods(text: Seq<char>)
    ensures
        CallbackView::StreamStart.method() == "onStreamStart"@,
        CallbackView::StreamEnd.method() == "onStreamEnd"@,
        CallbackView::System(text).method() == "onSystem"@,
        CallbackView::Text(text).method() == "onText"@,
        CallbackView::ToolStart(text).method() == "onToolStart"@,
        CallbackView::Error(text).method() == "onError"@,
        CallbackView::ScreenUpdate(text).method() == "onScreenUpdate"@,
        CallbackView::Exit.method() == "onExit"@,
{
}

/// A call is taken as it is.
pub proof fn calls_are_taken_literally(text: String)
    ensures
        Callback::StreamStart@ == CallbackView::StreamStart,
        Callback::StreamEnd@ == CallbackView::StreamEnd,
        Callback::System(text)@ == CallbackView::System(text@),
        Callback::Text(text)@ == CallbackView::Text(text@),
        Callback::ToolStart(text)@ == CallbackView::ToolStart(text@),
        Callback::Error(text)@ == CallbackView::Error(text@),
        Callback::ScreenUpdate(text)@ == CallbackView::ScreenUpdate(text@),
        Callback::Exit@ == CallbackView::Exit,
{
}

} // verus!
