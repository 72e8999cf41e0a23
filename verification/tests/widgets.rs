use srs2dge_gui::event::pointer::{MouseButton, PointerState};
use srs2dge_gui::event::GuiEventTy;
use srs2dge_gui::widget::empty::Empty;
use srs2dge_gui::widget::grid::Grid;
use srs2dge_gui::widgets::drag_zone::{DragResponse, DragZone, DragZoneFilter};
use srs2dge_gui::widgets::trigger::{Trigger, TriggerFilter, TriggerList};

fn ptr(p: PointerState<bool>) -> GuiEventTy<bool, ()> {
    GuiEventTy::Pointer(p)
}

fn sample_trigger() -> Trigger<&'static str> {
    Trigger::new()
        .with_handler(TriggerFilter::OnEnter, "enter")
        .with_handler(TriggerFilter::OnHover, "hover")
        .with_handler(TriggerFilter::OnExit, "exit")
        .with_handler(TriggerFilter::OnPress, "press any")
        .with_handler(TriggerFilter::OnPressButton(MouseButton::Right), "press right")
        .with_handler(TriggerFilter::OnClickButton(MouseButton::Left), "click left")
        .with_handler(TriggerFilter::OnRelease, "release any")
        .with_handler(TriggerFilter::OnHold, "hold any")
}

#[test]
fn trigger_hover_enter_exit() {
    let mut t = sample_trigger();
    let r = t.event(&ptr(PointerState::Hover { now: true }), false);
    assert_eq!(r.fired, vec![(TriggerList::Enter, 0), (TriggerList::Hover, 0)]);
    assert!(r.blocked);
    let r = t.event(&ptr(PointerState::Hover { now: true }), false);
    assert_eq!(r.fired, vec![(TriggerList::Hover, 0)]);
    let r = t.event(&ptr(PointerState::Hover { now: false }), false);
    assert_eq!(r.fired, vec![(TriggerList::Exit, 0)]);
    assert!(!r.blocked);
    let r = t.event(&ptr(PointerState::Hover { now: false }), false);
    assert!(r.fired.is_empty());
    // blocked by a widget in front: nothing, and the block stays
    let r = t.event(&ptr(PointerState::Hover { now: true }), true);
    assert!(r.fired.is_empty());
    assert!(r.blocked);
}

#[test]
fn trigger_press_filters_buttons() {
    let mut t = sample_trigger();
    let r = t.event(&ptr(PointerState::Press { button: MouseButton::Left, now: true }), false);
    assert_eq!(r.fired, vec![(TriggerList::Press, 0)]);
    let r = t.event(&ptr(PointerState::Press { button: MouseButton::Right, now: true }), false);
    assert_eq!(r.fired, vec![(TriggerList::Press, 0), (TriggerList::Press, 1)]);
    let r = t.event(&ptr(PointerState::Press { button: MouseButton::Right, now: false }), false);
    assert!(r.fired.is_empty());
    assert!(!r.blocked);
    assert_eq!(*t.handler_mut(TriggerList::Press, 1), "press right");
    assert_eq!(t.handler_count(TriggerList::Press), 2);
}

#[test]
fn trigger_click_needs_press_and_release_inside() {
    let mut t = sample_trigger();
    let r = t.event(
        &ptr(PointerState::Release { button: MouseButton::Left, initial: true, now: true }),
        false,
    );
    assert_eq!(r.fired, vec![(TriggerList::Release, 0), (TriggerList::Click, 0)]);
    let r = t.event(
        &ptr(PointerState::Release { button: MouseButton::Left, initial: false, now: true }),
        false,
    );
    assert_eq!(r.fired, vec![(TriggerList::Release, 0)]);
    let r = t.event(
        &ptr(PointerState::Release { button: MouseButton::Right, initial: true, now: true }),
        false,
    );
    assert_eq!(r.fired, vec![(TriggerList::Release, 0)]);
    let r = t.event(
        &ptr(PointerState::Release { button: MouseButton::Left, initial: true, now: false }),
        false,
    );
    assert!(r.fired.is_empty());
}

#[test]
fn trigger_hold_looks_at_origin() {
    let mut t = sample_trigger().with_blocking(false);
    let r = t.event(
        &ptr(PointerState::Hold { button: MouseButton::Left, initial: true, now: false }),
        false,
    );
    assert_eq!(r.fired, vec![(TriggerList::Hold, 0)]);
    assert!(!r.blocked);
    let r = t.event(
        &ptr(PointerState::Hold { button: MouseButton::Left, initial: false, now: true }),
        false,
    );
    assert!(r.fired.is_empty());
    let r = t.event(&GuiEventTy::<bool, ()>::Text('a'), false);
    assert!(r.fired.is_empty());
    assert!(!r.blocked);
}

#[test]
fn drag_zone_drags_and_releases() {
    let mut z: DragZone<u8> = DragZone::new()
        .with_handler(DragZoneFilter::OnDrag, 1)
        .with_handler(DragZoneFilter::OnRelease, 2);
    let hold = |initial| ptr(PointerState::Hold { button: MouseButton::Left, initial, now: false });
    assert_eq!(z.event(&hold(false), false), DragResponse { fired: None, blocked: false });
    assert_eq!(
        z.event(&hold(true), false),
        DragResponse { fired: Some(DragZoneFilter::OnDrag), blocked: true }
    );
    // the drag goes on outside the zone
    assert_eq!(
        z.event(&hold(false), false),
        DragResponse { fired: Some(DragZoneFilter::OnDrag), blocked: true }
    );
    let release = ptr(PointerState::Release { button: MouseButton::Left, initial: false, now: false });
    assert_eq!(
        z.event(&release, false),
        DragResponse { fired: Some(DragZoneFilter::OnRelease), blocked: false }
    );
    assert_eq!(z.event(&release, false), DragResponse { fired: None, blocked: false });
    assert_eq!(*z.handler_mut(DragZoneFilter::OnRelease, 0), 2);
    assert_eq!(z.handler_count(DragZoneFilter::OnDrag), 1);
}

#[test]
fn drag_zone_blocks_inside() {
    let mut z: DragZone<u8> = DragZone::new();
    let over = ptr(PointerState::Hover { now: true });
    assert_eq!(z.event(&over, false), DragResponse { fired: None, blocked: true });
    let mut z = z.with_blocking(false);
    assert_eq!(z.event(&over, false), DragResponse { fired: None, blocked: false });
    let mut z = z.with_button(Some(MouseButton::Right)).with_blocking(true);
    let hold = ptr(PointerState::Hold { button: MouseButton::Left, initial: true, now: true });
    assert_eq!(z.event(&hold, false), DragResponse { fired: None, blocked: false });
    let press = ptr(PointerState::Press { button: MouseButton::Left, now: true });
    assert_eq!(z.event(&press, true), DragResponse { fired: None, blocked: true });
    let mut none: DragZone<u8> = DragZone::new().with_button(None);
    assert_eq!(none.event(&hold, false), DragResponse { fired: None, blocked: false });
    assert_eq!(DragZoneFilter::default(), DragZoneFilter::OnDrag);
}

#[test]
fn grid_cells() {
    let g = Grid::new();
    assert_eq!((g.rows, g.cols), (3, 3));
    let g = Grid::with(2, 4).with_rows(5).with_columns(3);
    assert_eq!((g.rows, g.cols), (5, 3));
    assert_eq!(g.cell(0), (0, 0));
    assert_eq!(g.cell(4), (1, 1));
    assert_eq!(g.cell(8), (2, 2));
    assert_eq!(Grid::with(1, 2).cell(3), (1, 1));
    assert_eq!(Grid::default(), Grid::with(3, 3));
    assert_eq!(Empty::new(), Empty);
}

#[test]
fn trigger_runs_each_hover_handler_once() {
    let mut t: Trigger<u32> = Trigger::new()
        .with_handler(TriggerFilter::OnEnter, 1)
        .with_handler(TriggerFilter::OnHover, 2)
        .with_handler(TriggerFilter::OnEnter, 3)
        .with_handler(TriggerFilter::OnExit, 4)
        .with_handler(TriggerFilter::OnHover, 5)
        .with_handler(TriggerFilter::OnExit, 6);
    let r = t.event(&ptr(PointerState::Hover { now: true }), false);
    assert_eq!(
        r.fired,
        vec![(TriggerList::Enter, 0), (TriggerList::Enter, 1), (TriggerList::Hover, 0), (TriggerList::Hover, 1)]
    );
    for (list, i) in r.fired.iter() {
        assert!(*i < t.handler_count(*list));
    }
    let r = t.event(&ptr(PointerState::Hover { now: false }), false);
    assert_eq!(r.fired, vec![(TriggerList::Exit, 0), (TriggerList::Exit, 1)]);
    assert_eq!(*t.handler_mut(TriggerList::Exit, 1), 6);
}
