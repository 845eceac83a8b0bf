use eclipse_core::window::{shift_tap, ChildWalk, WalkStep, WindowMessage};

#[test]
fn the_innermost_window_is_reached() {
    let mut walk = ChildWalk::new(10);
    assert_eq!(walk.step(20), WalkStep::Descend(20));
    assert_eq!(walk.step(30), WalkStep::Descend(30));
    assert_eq!(walk.step(0), WalkStep::Found(30));
}

#[test]
fn a_window_without_children_is_the_innermost_one() {
    assert_eq!(ChildWalk::new(10).step(0), WalkStep::Found(10));
}

#[test]
fn shift_is_pressed_and_released() {
    let (down, up) = shift_tap();
    assert_eq!(down, WindowMessage { msg: 0x0100, wparam: 0x10, lparam: 0x002A_0001 });
    assert_eq!(up, WindowMessage { msg: 0x0101, wparam: 0x10, lparam: 0xC02A_0001 });
}
