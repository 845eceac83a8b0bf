//! Waking up the keyboard input of an embedded browser window.
//!
//! The browser's rendering surface is the innermost window of a chain of child windows. It takes
//! no keyboard input until it has seen a key, so it is given focus and a tap on the shift key.

use vstd::prelude::*;

verus! {

/// A walk down a chain of child windows.
#[derive(Debug)]
pub struct ChildWalk {
    current: i64,
}

impl View for ChildWalk {
    type V = i64;

    closed spec fn view(&self) -> i64 {
        self.current
    }
}

/// What is to be done next on a walk.
#[derive(Debug, Clone, Copy, PartialEq, Eq, Structural)]
pub enum WalkStep {
    /// Look up the first child of this window.
    Descend(i64),
    /// This window has no child: it is the innermost one.
    Found(i64),
}

/// What is to be done after looking up the first child of the current window: zero stands for none.
pub open spec fn walk_step(current: i64, child: i64) -> WalkStep {
    if child == 0 {
        WalkStep::Found(current)
    } else {
        WalkStep::Descend(child)
    }
}

/// Where a walk stands after looking up the first child of the current window.
pub open spec fn walk_to(current: i64, child: i64) -> i64 {
    if child == 0 {
        current
    } else {
        child
    }
}

impl ChildWalk {
    /// Starts at the given window, whose first child is to be looked up.
    pub fn new(hwnd: i64) -> (walk: ChildWalk)
        ensures
            walk@ == hwnd,
    {
        ChildWalk { current: hwnd }
    }

    /// Goes on with the first child of the current window, or zero where it has none.
    pub fn step(&mut self, child: i64) -> (step: WalkStep)
        ensures
            step == walk_step(old(self)@, child),
            final(self)@ == walk_to(old(self)@, child),
    {
        if child == 0 {
            WalkStep::Found(self.current)
        } else {
            self.current = child;
            WalkStep::Descend(child)
        }
    }
}

/// A message to a window.
#[derive(Debug, Clone, Copy, PartialEq, Eq, Structural)]
pub struct WindowMessage {
    pub msg: u32,
    pub wparam: u64,
    pub lparam: i64,
}

/// A key goes down.
pub const WM_KEYDOWN: u32 = 0x0100;

/// A key comes up.
pub const WM_KEYUP: u32 = 0x0101;

/// The shift key.
pub const VK_SHIFT: u64 = 0x10;

/// The keyboard's code for the left shift key.
pub const SHIFT_SCAN_CODE: i64 = 0x2A;

/// What goes with the press of a key: it is pressed once, and its code stands from bit sixteen on.
pub open spec fn key_down_details(scan_code: int) -> int {
    scan_code * 0x1_0000 + 1
}

/// What goes with the release of a key: as its press, with the two highest of thirty-two bits set,
/// since the key was down and is being released.
pub open spec fn key_up_details(scan_code: int) -> int {
    key_down_details(scan_code) + 0xC000_0000
}

/// The messages of a tap on the shift key, which does nothing by itself: press, then release.
pub fn shift_tap() -> (tap: (WindowMessage, WindowMessage))
    ensures
        tap.0 == (WindowMessage {
            msg: WM_KEYDOWN,
            wparam: VK_SHIFT,
            lparam: key_down_details(SHIFT_SCAN_CODE as int) as i64,
        }),
        tap.1 == (WindowMessage {
            msg: WM_KEYUP,
            wparam: VK_SHIFT,
            lparam: key_up_details(SHIFT_SCAN_CODE as int) as i64,
        }),
{
    let down: i64 = (SHIFT_SCAN_CODE << 16) | 1;
    let up: i64 = down | (3i64 << 30);
    assert((0x2Ai64 << 16) | 1 == 0x2A_0001i64) by (bit_vector);
    assert(0x2A_0001i64 | (3i64 << 30) == 0xC02A_0001i64) by (bit_vector);
    (
        WindowMessage { msg: WM_KEYDOWN, wparam: VK_SHIFT, lparam: down },
        WindowMessage { msg: WM_KEYUP, wparam: VK_SHIFT, lparam: up },
    )
}

/// The window that is reached from a window by going to the first child a number of times.
pub open spec fn descendant(first_child: spec_fn(i64) -> i64, hwnd: i64, depth: nat) -> i64
    decreases depth,
{
    if depth == 0 {
        hwnd
    } else {
        first_child(descendant(first_child, hwnd, (depth - 1) as nat))
    }
}

/// Where a walk stands after a number of steps, each of which is told the current window's first
/// child.
pub open spec fn position(first_child: spec_fn(i64) -> i64, hwnd: i64, steps: nat) -> i64
    decreases steps,
{
    if steps == 0 {
        hwnd
    } else {
        let current = position(first_child, hwnd, (steps - 1) as nat);
        walk_to(current, first_child(current))
    }
}

/// A walk finds the innermost window: the first one of the chain that has no child, which is the
/// window it started at where that one has none.
pub proof fn innermost_window_is_found(
    first_child: spec_fn(i64) -> i64,
    hwnd: i64,
    depth: nat,
)
    requires
        forall|d: nat| d < depth ==> first_child(#[trigger] descendant(first_child, hwnd, d)) != 0,
        first_child(descendant(first_child, hwnd, depth)) == 0,
    ensures
        position(first_child, hwnd, depth) == descendant(first_child, hwnd, depth),
        walk_step(
            position(first_child, hwnd, depth),
            first_child(position(first_child, hwnd, depth)),
        ) == WalkStep::Found(descendant(first_child, hwnd, depth)),
        forall|d: nat|
            d < depth ==> walk_step(
                #[trigger] position(first_child, hwnd, d),
                first_child(position(first_child, hwnd, d)),
            ) is Descend,
{
    assert forall|d: nat| d <= depth implies #[trigger] position(first_child, hwnd, d)
        == descendant(first_child, hwnd, d) by {
        position_is_descendant(first_child, hwnd, depth, d);
    }
}

proof fn position_is_descendant(
    first_child: spec_fn(i64) -> i64,
    hwnd: i64,
    depth: nat,
    d: nat,
)
    requires
        d <= depth,
        forall|d: nat| d < depth ==> first_child(#[trigger] descendant(first_child, hwnd, d)) != 0,
    ensures
        position(first_child, hwnd, d) == descendant(first_child, hwnd, d),
    decreases d,
{
    if d > 0 {
        position_is_descendant(first_child, hwnd, depth, (d - 1) as nat);
    }
}

} // verus!
