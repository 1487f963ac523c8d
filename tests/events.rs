use android_view::callback_ctx::{CallbackCtx, DeferredAction, PeerResult};
use android_view::events::{
    action_button, meta_state_to_modifiers, pointer_buttons, pointer_id, pointer_kind, pointer_type,
    PointerButton, PointerKind, PointerType,
};

#[test]
fn meta_state_bits_map_to_modifiers() {
    let m = meta_state_to_modifiers(0x1 | 0x1000 | 0x100000);
    assert!(m.shift && m.ctrl && m.caps_lock);
    assert!(!m.alt && !m.meta && !m.num_lock && !m.scroll_lock && !m.fn_key && !m.symbol);
    let m = meta_state_to_modifiers(0x2 | 0x4 | 0x8 | 0x10000 | 0x200000 | 0x400000);
    assert!(m.alt && m.symbol && m.fn_key && m.meta && m.num_lock && m.scroll_lock);
    assert!(!m.shift && !m.ctrl && !m.caps_lock);
    let m = meta_state_to_modifiers(0);
    assert!(!m.shift && !m.alt && !m.ctrl && !m.meta);
}

#[test]
fn motion_actions_map_to_kinds() {
    assert_eq!(pointer_kind(0), Some(PointerKind::Down));
    assert_eq!(pointer_kind(5), Some(PointerKind::Down));
    assert_eq!(pointer_kind(1), Some(PointerKind::Up));
    assert_eq!(pointer_kind(6), Some(PointerKind::Up));
    assert_eq!(pointer_kind(2), Some(PointerKind::Move));
    assert_eq!(pointer_kind(7), Some(PointerKind::Move));
    assert_eq!(pointer_kind(3), Some(PointerKind::Cancel));
    assert_eq!(pointer_kind(9), Some(PointerKind::Enter));
    assert_eq!(pointer_kind(10), Some(PointerKind::Leave));
    assert_eq!(pointer_kind(8), Some(PointerKind::Scroll));
    assert_eq!(pointer_kind(4), None);
    assert_eq!(pointer_kind(11), None);
}

#[test]
fn palm_is_rejected() {
    assert_eq!(pointer_type(5), None);
    assert_eq!(pointer_type(1), Some(PointerType::Touch));
    assert_eq!(pointer_type(2), Some(PointerType::Pen));
    assert_eq!(pointer_type(4), Some(PointerType::Pen));
    assert_eq!(pointer_type(3), Some(PointerType::Mouse));
    assert_eq!(pointer_type(0), Some(PointerType::Unknown));
}

#[test]
fn pointer_ids_shift_by_one() {
    assert_eq!(pointer_id(-1), None);
    assert_eq!(pointer_id(0), Some(1));
    assert_eq!(pointer_id(7), Some(8));
}

#[test]
fn eraser_button_special_case() {
    let b = pointer_buttons(0x20, 4, false);
    assert!(b.pen_eraser && !b.primary);
    let b = pointer_buttons(0x20, 2, false);
    assert!(b.primary && !b.pen_eraser);
    let b = pointer_buttons(0, 4, true);
    assert!(b.pen_eraser);
    let b = pointer_buttons(0x2 | 0x4 | 0x8 | 0x10, 3, false);
    assert!(b.secondary && b.auxiliary && b.x1 && b.x2 && !b.primary);
    let b = pointer_buttons(0x40, 2, false);
    assert!(b.secondary);
}

#[test]
fn action_buttons() {
    assert_eq!(action_button(0x1, 3), Some(PointerButton::Primary));
    assert_eq!(action_button(0x20, 2), Some(PointerButton::Primary));
    assert_eq!(action_button(0x40, 2), Some(PointerButton::Secondary));
    assert_eq!(action_button(0x4, 3), Some(PointerButton::Auxiliary));
    assert_eq!(action_button(0x8, 3), Some(PointerButton::X1));
    assert_eq!(action_button(0x10, 3), Some(PointerButton::X2));
    assert_eq!(action_button(0, 4), Some(PointerButton::PenEraser));
    assert_eq!(action_button(0, 1), None);
}

#[test]
fn deferred_actions_run_in_fifo_order() {
    let mut ctx = CallbackCtx::new();
    let actions = [
        DeferredAction::ShowSoftInput,
        DeferredAction::PostDelayed { delay_ms: 500 },
        DeferredAction::RemoveDelayedCallbacks,
        DeferredAction::UpdateSelection { sel_start: 1, sel_end: 2, compose_start: -1, compose_end: -1 },
        DeferredAction::PostFrameCallback,
        DeferredAction::HideSoftInput,
    ];
    for a in actions {
        ctx.push_static_deferred_callback(a);
    }
    assert_eq!(ctx.len(), 6);
    assert_eq!(ctx.finish(), actions.to_vec());
}

#[test]
fn peer_result_queues_its_action() {
    let mut ctx = CallbackCtx::new();
    let r = PeerResult::with_deferred_fn(3i32, DeferredAction::ShowSoftInput).map(|x| x * 2);
    assert_eq!(r.finish(&mut ctx), 6);
    let plain = PeerResult::new("x");
    assert_eq!(plain.finish(&mut ctx), "x");
    assert_eq!(ctx.finish(), vec![DeferredAction::ShowSoftInput]);
}

#[test]
fn callback_slots_keep_their_place_in_the_queue() {
    let mut ctx = CallbackCtx::new();
    ctx.push_static_deferred_callback(DeferredAction::PostFrameCallback);
    ctx.push_static_deferred_callback(DeferredAction::Callback { slot: 0 });
    ctx.push_static_deferred_callback(DeferredAction::HideSoftInput);
    assert_eq!(
        ctx.finish(),
        vec![DeferredAction::PostFrameCallback, DeferredAction::Callback { slot: 0 }, DeferredAction::HideSoftInput]
    );
}
