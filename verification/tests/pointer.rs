use srs2dge_gui::event::pointer::{MouseButton, PointerState};
use srs2dge_gui::event::simple::PointerState as SimplePointer;
use srs2dge_gui::event::{GuiEvent, GuiEventTy};

#[test]
fn press_move_release_update() {
    let mut p = PointerState::Hover { now: (1, 1) };
    p.pressed(MouseButton::Left);
    assert_eq!(p, PointerState::Press { button: MouseButton::Left, now: (1, 1) });
    p.moved((4, 5));
    assert_eq!(p, PointerState::Hold { button: MouseButton::Left, initial: (1, 1), now: (4, 5) });
    p.moved((6, 7));
    assert_eq!(p, PointerState::Hold { button: MouseButton::Left, initial: (1, 1), now: (6, 7) });
    p.released(MouseButton::Left);
    assert_eq!(p, PointerState::Release { button: MouseButton::Left, initial: (1, 1), now: (6, 7) });
    p.update();
    assert_eq!(p, PointerState::Hover { now: (6, 7) });
    p.update();
    assert_eq!(p, PointerState::Hover { now: (6, 7) });
}

#[test]
fn press_then_update_holds() {
    let mut p = PointerState::Hover { now: 3 };
    p.pressed(MouseButton::Right);
    p.update();
    assert_eq!(p, PointerState::Hold { button: MouseButton::Right, initial: 3, now: 3 });
    p.pressed(MouseButton::Middle);
    assert_eq!(p, PointerState::Hold { button: MouseButton::Middle, initial: 3, now: 3 });
}

#[test]
fn release_without_press() {
    let mut p = PointerState::Hover { now: 9 };
    p.released(MouseButton::Other(4));
    assert_eq!(p, PointerState::Release { button: MouseButton::Other(4), initial: 9, now: 9 });
    p.moved(10);
    assert_eq!(p, PointerState::Hover { now: 10 });
    let mut q = PointerState::Press { button: MouseButton::Left, now: 2 };
    q.released(MouseButton::Left);
    assert_eq!(q, PointerState::Release { button: MouseButton::Left, initial: 2, now: 2 });
    let mut r = PointerState::Release { button: MouseButton::Left, initial: 1, now: 2 };
    r.pressed(MouseButton::Right);
    assert_eq!(r, PointerState::Hold { button: MouseButton::Right, initial: 1, now: 2 });
}

#[test]
fn simple_pointer() {
    let mut p = SimplePointer::Hover { now: 0 };
    p.pressed();
    assert_eq!(p, SimplePointer::Hold { initial: 0, now: 0 });
    p.moved(5);
    assert_eq!(p, SimplePointer::Hold { initial: 0, now: 5 });
    p.released();
    assert_eq!(p, SimplePointer::Release { initial: 0, now: 5 });
    p.released();
    assert_eq!(p, SimplePointer::Release { initial: 0, now: 5 });
    p.update();
    assert_eq!(p, SimplePointer::Hover { now: 5 });
    p.released();
    assert_eq!(p, SimplePointer::Release { initial: 5, now: 5 });
    p.moved(8);
    assert_eq!(p, SimplePointer::Hover { now: 8 });
}

#[test]
fn events() {
    let e: GuiEvent<i32, ()> = GuiEvent::new(GuiEventTy::Text('x'));
    assert!(!e.blocked);
    assert_eq!(e.ty, GuiEventTy::Text('x'));
    let d: GuiEvent<i32, ()> = GuiEvent::default();
    assert_eq!(d.ty, GuiEventTy::Cleared);
    assert!(!d.blocked);
}

use srs2dge_gui::event::input::{GuiInput, RawInput};

#[test]
fn input_tracks_each_device() {
    let mut input: GuiInput<i32> = GuiInput::new(0);
    assert_eq!(input.pointer(7), PointerState::Hover { now: 0 });
    let e = input.event::<()>(RawInput::CursorMoved { device: 7, position: 5 }).unwrap();
    assert_eq!(e.ty, GuiEventTy::Pointer(PointerState::Hover { now: 5 }));
    assert!(!e.blocked);
    let e = input.event::<()>(RawInput::Pressed { device: 7, button: MouseButton::Left }).unwrap();
    assert_eq!(e.ty, GuiEventTy::Pointer(PointerState::Press { button: MouseButton::Left, now: 5 }));
    // another device has its own pointer
    let e = input.event::<()>(RawInput::Released { device: 8, button: MouseButton::Right }).unwrap();
    assert_eq!(
        e.ty,
        GuiEventTy::Pointer(PointerState::Release { button: MouseButton::Right, initial: 0, now: 0 })
    );
    input.update_pointers();
    assert_eq!(input.pointer(7), PointerState::Hold { button: MouseButton::Left, initial: 5, now: 5 });
    assert_eq!(input.pointer(8), PointerState::Hover { now: 0 });
    let e = input.event::<()>(RawInput::CursorMoved { device: 7, position: 9 }).unwrap();
    assert_eq!(
        e.ty,
        GuiEventTy::Pointer(PointerState::Hold { button: MouseButton::Left, initial: 5, now: 9 })
    );
}

#[test]
fn input_passes_text_and_keys() {
    let mut input: GuiInput<i32> = GuiInput::new(0);
    assert_eq!(input.event(RawInput::Text('q')).unwrap().ty, GuiEventTy::<i32, u32>::Text('q'));
    assert_eq!(input.event(RawInput::Key(42u32)).unwrap().ty, GuiEventTy::<i32, u32>::Key(42));
    assert!(input.event::<u32>(RawInput::Other).is_none());
    assert_eq!(input.pointer(1), PointerState::Hover { now: 0 });
}
