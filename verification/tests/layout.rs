use srs2dge_gui::calc::{inherit_offset, inherit_size, BaseOffset, BaseSize, Var};
use srs2dge_gui::expr::{Expr, Val};
use srs2dge_gui::val::GuiValue;
use std::sync::{Arc, RwLock};

#[test]
fn expressions_build_trees() {
    match Val::ParentSize + Val::Px(10) {
        Expr::Add((Val::ParentSize, Val::Px(10))) => {},
        _ => panic!("wrong tree"),
    }
    match Val::Size.min(Val::Px(3)) {
        Expr::Min((Val::Size, Val::Px(3))) => {},
        _ => panic!("wrong tree"),
    }
    match (Val::ParentOffset + Val::Px(1)).max(Val::Px(2)) {
        Expr::Max((Expr::Add((Val::ParentOffset, Val::Px(1))), Val::Px(2))) => {},
        _ => panic!("wrong tree"),
    }
    // subtraction builds a product node
    match (Val::ParentSize + Val::Size) - Val::Px(20) {
        Expr::Mul((Expr::Add(_), Val::Px(20))) => {},
        _ => panic!("wrong tree"),
    }
    match (Val::Size + Val::Size).min(Val::Size) {
        Expr::Min((Expr::Add(_), Val::Size)) => {},
        _ => panic!("wrong tree"),
    }
    match Val::Size.max(7u8) {
        Expr::Max((Val::Size, 7)) => {},
        _ => panic!("wrong tree"),
    }
}

#[test]
fn calc_inputs() {
    assert_eq!(inherit_size(), BaseSize);
    assert_eq!(inherit_offset(), BaseOffset);
    assert_eq!(Var::default(), Var(0));
}

#[test]
fn gui_values() {
    assert!(matches!(GuiValue::new(4), GuiValue::Owned(4)));
    let shared = Arc::new(RwLock::new(5));
    match GuiValue::new_shared(shared.clone()) {
        GuiValue::Shared(s) => assert!(Arc::ptr_eq(&s, &shared)),
        _ => panic!("not shared"),
    }
    assert!(matches!(GuiValue::<i32>::default(), GuiValue::Owned(0)));
    assert!(matches!(GuiValue::from(7), GuiValue::Owned(7)));
}
