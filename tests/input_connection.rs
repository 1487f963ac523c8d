use android_view::callback_ctx::{CallbackCtx, DeferredAction};
use android_view::editor::Editor;
use android_view::input_connection::InputConnection;

fn connection(text: &str) -> InputConnection {
    InputConnection::new(Editor::new(text))
}

fn frames(actions: &[DeferredAction]) -> usize {
    actions.iter().filter(|a| **a == DeferredAction::PostFrameCallback).count()
}

#[test]
fn compose_then_finish_appends_text() {
    let mut ic = connection("Hello");
    let mut ctx = CallbackCtx::new();
    assert!(ic.set_composing_text(&mut ctx, "World", 1));
    assert_eq!(ic.editor().compose_range(), Some((5, 10)));
    assert_eq!(ic.editor().text(), "HelloWorld");
    assert_eq!(ic.editor().selection_range(), (10, 10));
    assert!(ic.finish_composing_text(&mut ctx));
    assert_eq!(ic.editor().text(), "HelloWorld");
    assert_eq!(ic.editor().compose_range(), None);
    assert!(!ic.editor().is_composing());
}

#[test]
fn batch_edit_requests_one_redraw_at_its_end() {
    let mut ic = connection("Hello");
    let mut ctx = CallbackCtx::new();
    assert!(ic.begin_batch_edit());
    assert!(ic.set_selection(&mut ctx, 1, 3));
    assert_eq!(ctx.len(), 0);
    assert!(ic.set_composing_text(&mut ctx, "xy", 1));
    assert_eq!(ctx.len(), 0);
    assert!(!ic.end_batch_edit(&mut ctx));
    let actions = ctx.finish();
    assert_eq!(actions, vec![DeferredAction::PostFrameCallback]);
}

#[test]
fn nested_batch_edits_hold_back_until_outermost_end() {
    let mut ic = connection("abc");
    let mut ctx = CallbackCtx::new();
    assert!(ic.begin_batch_edit());
    assert!(ic.begin_batch_edit());
    assert!(ic.set_selection(&mut ctx, 0, 1));
    assert!(ic.end_batch_edit(&mut ctx));
    assert_eq!(ctx.len(), 0);
    assert!(!ic.end_batch_edit(&mut ctx));
    assert_eq!(frames(&ctx.finish()), 1);
}

#[test]
fn end_batch_edit_without_batch_fails() {
    let mut ic = connection("abc");
    let mut ctx = CallbackCtx::new();
    assert!(!ic.end_batch_edit(&mut ctx));
    assert_eq!(ic.batch_edit_depth(), 0);
    assert_eq!(ctx.len(), 0);
}

#[test]
fn edit_outside_batch_requests_redraw_at_once() {
    let mut ic = connection("abc");
    let mut ctx = CallbackCtx::new();
    assert!(ic.set_selection(&mut ctx, 0, 0));
    assert_eq!(ctx.finish(), vec![DeferredAction::PostFrameCallback]);
}

#[test]
fn equal_region_bounds_finish_composition() {
    let mut ic = connection("Hello");
    let mut ctx = CallbackCtx::new();
    assert!(ic.set_composing_text(&mut ctx, "World", 1));
    assert!(ic.set_composing_region(&mut ctx, 5, 5));
    assert_eq!(ic.editor().compose_range(), None);
    assert_eq!(ic.editor().text(), "HelloWorld");
}

#[test]
fn composing_region_clamps_and_orders_bounds() {
    let mut ic = connection("a😀bc");
    let mut ctx = CallbackCtx::new();
    // UTF-16: a=0..1, 😀=1..3, b=3..4, c=4..5. Reversed and past the end.
    assert!(ic.set_composing_region(&mut ctx, 100, 1));
    assert_eq!(ic.editor().compose_range(), Some((1, 7)));
    assert!(ic.set_composing_region(&mut ctx, -4, 3));
    assert_eq!(ic.editor().compose_range(), Some((0, 5)));
    assert_eq!(ic.editor().text(), "a😀bc");
}

#[test]
fn delete_before_at_start_deletes_nothing() {
    let mut ic = connection("abc");
    let mut ctx = CallbackCtx::new();
    assert!(ic.set_selection(&mut ctx, 0, 0));
    let mut ctx = CallbackCtx::new();
    assert!(ic.delete_surrounding_text(&mut ctx, 10, 0));
    assert_eq!(ic.editor().text(), "abc");
    assert_eq!(ic.editor().selection_range(), (0, 0));
    assert_eq!(ctx.len(), 0);
}

#[test]
fn delete_surrounding_text_in_utf16_units() {
    let mut ic = connection("ab😀cd");
    let mut ctx = CallbackCtx::new();
    // Caret after the emoji: UTF-16 offset 4.
    assert!(ic.set_selection(&mut ctx, 4, 4));
    assert!(ic.delete_surrounding_text(&mut ctx, 2, 1));
    assert_eq!(ic.editor().text(), "abd");
    assert_eq!(ic.editor().selection_range(), (2, 2));
}

#[test]
fn delete_surrounding_text_clamps_at_end() {
    let mut ic = connection("abcd");
    let mut ctx = CallbackCtx::new();
    assert!(ic.set_selection(&mut ctx, 1, 2));
    assert!(ic.delete_surrounding_text(&mut ctx, 0, 99));
    assert_eq!(ic.editor().text(), "ab");
    assert_eq!(ic.editor().selection_range(), (1, 2));
}

#[test]
fn delete_surrounding_text_in_code_points_counts_scalars() {
    let mut ic = connection("x😀y😀z");
    let mut ctx = CallbackCtx::new();
    assert!(ic.set_selection(&mut ctx, 4, 4));
    assert!(ic.delete_surrounding_text_in_code_points(&mut ctx, 2, 1));
    assert_eq!(ic.editor().text(), "xz");
    assert_eq!(ic.editor().selection_range(), (1, 1));
}

#[test]
fn text_around_cursor() {
    let mut ic = connection("héllo wörld");
    let mut ctx = CallbackCtx::new();
    assert!(ic.set_selection(&mut ctx, 5, 6));
    assert_eq!(ic.text_before_cursor(3).as_deref(), Some("llo"));
    assert_eq!(ic.text_before_cursor(50).as_deref(), Some("héllo"));
    assert_eq!(ic.text_after_cursor(2).as_deref(), Some("wö"));
    assert_eq!(ic.text_after_cursor(50).as_deref(), Some("wörld"));
    assert_eq!(ic.text_before_cursor(-1), None);
    assert_eq!(ic.text_after_cursor(-1), None);
    assert_eq!(ic.selected_text().as_deref(), Some(" "));
}

#[test]
fn set_selection_rejects_negative_offsets() {
    let mut ic = connection("abc");
    let mut ctx = CallbackCtx::new();
    assert!(!ic.set_selection(&mut ctx, -1, 2));
    assert!(!ic.set_selection(&mut ctx, 0, -2));
    assert_eq!(ic.editor().selection_range(), (3, 3));
    assert_eq!(ctx.len(), 0);
}

#[test]
fn set_selection_converts_utf16_offsets() {
    let mut ic = connection("😀abc");
    let mut ctx = CallbackCtx::new();
    assert!(ic.set_selection(&mut ctx, 3, 2));
    assert_eq!(ic.editor().selection_range(), (4, 5));
    assert_eq!(ic.editor().focus(), 4);
    assert_eq!(ic.selected_text().as_deref(), Some("a"));
    assert_eq!(ic.cursor_caps_offset(), 2);
}

#[test]
fn empty_composing_text_deletes_selection() {
    let mut ic = connection("abcdef");
    let mut ctx = CallbackCtx::new();
    assert!(ic.set_selection(&mut ctx, 1, 3));
    assert!(ic.set_composing_text(&mut ctx, "", 1));
    assert_eq!(ic.editor().text(), "adef");
    assert_eq!(ic.editor().selection_range(), (1, 1));
}

#[test]
fn empty_composing_text_clears_composition() {
    let mut ic = connection("ab");
    let mut ctx = CallbackCtx::new();
    assert!(ic.set_composing_text(&mut ctx, "xyz", 1));
    assert_eq!(ic.editor().text(), "abxyz");
    assert!(ic.set_composing_text(&mut ctx, "", 1));
    assert_eq!(ic.editor().text(), "ab");
    assert_eq!(ic.editor().compose_range(), None);
    assert_eq!(ic.editor().selection_range(), (2, 2));
}

#[test]
fn composing_text_replaces_composition() {
    let mut ic = connection("ab");
    let mut ctx = CallbackCtx::new();
    assert!(ic.set_composing_text(&mut ctx, "x", 1));
    assert!(ic.set_composing_text(&mut ctx, "yz", 1));
    assert_eq!(ic.editor().text(), "abyz");
    assert_eq!(ic.editor().compose_range(), Some((2, 4)));
}

#[test]
fn cursor_position_conventions() {
    let mut ctx = CallbackCtx::new();
    // Zero: at the start of the composed range.
    let mut ic = connection("Hello");
    assert!(ic.set_composing_text(&mut ctx, "World", 0));
    assert_eq!(ic.editor().selection_range(), (5, 5));
    // Negative: back from the start, clamped at 0.
    let mut ic = connection("Hello");
    assert!(ic.set_composing_text(&mut ctx, "World", -2));
    assert_eq!(ic.editor().selection_range(), (3, 3));
    let mut ic = connection("Hello");
    assert!(ic.set_composing_text(&mut ctx, "World", -100));
    assert_eq!(ic.editor().selection_range(), (0, 0));
    // Positive past the end: clamped at the end of the text.
    let mut ic = connection("Hello");
    assert!(ic.set_selection(&mut ctx, 0, 0));
    assert!(ic.set_composing_text(&mut ctx, "ab", 3));
    assert_eq!(ic.editor().selection_range(), (4, 4));
    assert!(ic.set_composing_text(&mut ctx, "ab", 100));
    assert_eq!(ic.editor().selection_range(), (7, 7));
}

#[test]
fn commit_text_leaves_no_composition() {
    let mut ic = connection("Hi");
    let mut ctx = CallbackCtx::new();
    assert!(ic.commit_text(&mut ctx, " there", 1));
    assert_eq!(ic.editor().text(), "Hi there");
    assert_eq!(ic.editor().compose_range(), None);
    assert_eq!(ic.editor().selection_range(), (8, 8));
    assert_eq!(frames(&ctx.finish()), 1);
}

#[test]
fn create_input_connection_reports_selection() {
    let mut ic = connection("😀ab");
    let mut ctx = CallbackCtx::new();
    assert!(!ic.ime_active());
    assert_eq!(ic.on_create_input_connection(&mut ctx), (4, 4));
    assert!(ic.ime_active());
}

#[test]
fn unhandled_requests_report_false() {
    let mut ic = connection("abc");
    assert!(!ic.perform_editor_action(6));
    assert!(!ic.perform_context_menu_action(1));
    assert!(!ic.clear_meta_key_states(1));
    assert!(!ic.report_fullscreen_mode(true));
    assert!(!ic.request_cursor_updates(3));
}

#[test]
fn selection_update_reports_utf16_offsets() {
    let mut ic = connection("😀ab");
    let mut ctx = CallbackCtx::new();
    assert_eq!(ic.selection_update(), None);
    ic.on_create_input_connection(&mut ctx);
    assert!(ic.set_composing_text(&mut ctx, "cd", 1));
    assert_eq!(
        ic.selection_update(),
        Some(DeferredAction::UpdateSelection { sel_start: 6, sel_end: 6, compose_start: 4, compose_end: 6 })
    );
    assert!(ic.finish_composing_text(&mut ctx));
    assert!(ic.set_selection(&mut ctx, 0, 2));
    assert_eq!(
        ic.selection_update(),
        Some(DeferredAction::UpdateSelection { sel_start: 0, sel_end: 2, compose_start: -1, compose_end: -1 })
    );
}

#[test]
fn text_after_cursor_keeps_surrogate_pairs_whole() {
    let mut ic = connection("😀b");
    let mut ctx = CallbackCtx::new();
    assert!(ic.set_selection(&mut ctx, 0, 0));
    assert_eq!(ic.text_after_cursor(1).as_deref(), Some(""));
    assert_eq!(ic.text_after_cursor(2).as_deref(), Some("😀"));
    assert_eq!(ic.text_after_cursor(3).as_deref(), Some("😀b"));
}

#[test]
fn text_before_cursor_keeps_surrogate_pairs_whole() {
    let ic = connection("a😀");
    assert_eq!(ic.text_before_cursor(1).as_deref(), Some(""));
    assert_eq!(ic.text_before_cursor(2).as_deref(), Some("😀"));
    assert_eq!(ic.text_before_cursor(3).as_deref(), Some("a😀"));
}

#[test]
fn delete_after_stops_before_split_pair() {
    let mut ic = connection("😀x");
    let mut ctx = CallbackCtx::new();
    assert!(ic.set_selection(&mut ctx, 0, 0));
    let mut ctx = CallbackCtx::new();
    assert!(ic.delete_surrounding_text(&mut ctx, 0, 1));
    assert_eq!(ic.editor().text(), "😀x");
    assert_eq!(ctx.len(), 0);
    assert!(ic.delete_surrounding_text(&mut ctx, 0, 3));
    assert_eq!(ic.editor().text(), "");
}

#[test]
fn delete_before_stops_after_split_pair() {
    let mut ic = connection("x😀");
    let mut ctx = CallbackCtx::new();
    assert!(ic.delete_surrounding_text(&mut ctx, 1, 0));
    assert_eq!(ic.editor().text(), "x😀");
    assert!(ic.delete_surrounding_text(&mut ctx, 2, 0));
    assert_eq!(ic.editor().text(), "x");
}
