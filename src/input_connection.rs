//! The platform's text-input protocol on top of an [`Editor`]: offsets arrive
//! in UTF-16 code units (or scalar values) and are translated to the editor's
//! byte offsets; batch edits hold back the redraw request until the
//! outermost batch ends.
use vstd::prelude::*;

use crate::callback_ctx::{CallbackCtx, DeferredAction, MAX_DEFERRED};
use crate::editor::{Editor, EditorView, MAX_TEXT_CHARS};
use crate::text_index::{
    boundary_at, floor_boundary, lemma_boundary_at, lemma_boundary_of_offset,
    lemma_boundary_order, lemma_floor_boundary, lemma_offset_monotone, lemma_units_between,
    offset_of, units, IndexUnit,
};

verus! {

/// What an [`InputConnection`] holds.
pub struct ConnectionView {
    pub editor: EditorView,
    /// How many batch edits are open.
    pub depth: nat,
    /// A change that no redraw request has announced yet.
    pub redraw_pending: bool,
    /// Whether an input method has connected.
    pub ime_active: bool,
}

/// The redraw rule after an operation: with no batch open, a pending change
/// is announced by one frame-callback request; inside a batch it stays
/// pending.
pub open spec fn redraw_rule(
    depth: nat,
    dirty: bool,
    q0: Seq<DeferredAction>,
    q1: Seq<DeferredAction>,
    pending: bool,
) -> bool {
    if depth == 0 && dirty {
        q1 == q0.push(DeferredAction::PostFrameCallback) && !pending
    } else {
        q1 == q0 && pending == dirty
    }
}

/// The offset of boundary `k` in `unit`.
pub open spec fn at(v: EditorView, k: nat, unit: IndexUnit) -> nat {
    offset_of(v.text, k as int, unit)
}

/// The boundary `n` units (clamped at the start) before the selection.
pub open spec fn start_before(v: EditorView, n: int, unit: IndexUnit) -> nat {
    let t = at(v, v.sel_start(), unit);
    boundary_at(v.text, unit, if n <= t { t - n } else { 0 })
}

/// The last boundary at most `n` units (clamped at the end) after the
/// selection: a surrogate pair that would be split stays out.
pub open spec fn end_after(v: EditorView, n: int, unit: IndexUnit) -> nat {
    let t = at(v, v.sel_end(), unit);
    let total = at(v, v.text.len(), unit);
    floor_boundary(v.text, unit, if n <= total - t { t + n } else { total as int })
}

/// Up to `n` units before the selection deleted, none when `n` is not
/// positive.
pub open spec fn deleted_before(v: EditorView, n: int, unit: IndexUnit) -> EditorView {
    let k = start_before(v, n, unit);
    if n > 0 && k < v.sel_start() {
        v.deleting_before(v.byte(v.sel_start()) - v.byte(k))
    } else {
        v
    }
}

/// Up to `n` units after the selection deleted, none when `n` is not
/// positive.
pub open spec fn deleted_after(v: EditorView, n: int, unit: IndexUnit) -> EditorView {
    let k = end_after(v, n, unit);
    if n > 0 && k > v.sel_end() {
        v.deleting_after(v.byte(k) - v.byte(v.sel_end()))
    } else {
        v
    }
}

/// The editor after new composing text `s`, before the caret is placed: an
/// empty `s` clears the composition, or deletes the selection when nothing
/// is composing.
pub open spec fn composed(v: EditorView, s: Seq<char>) -> EditorView {
    if s.len() == 0 {
        if v.compose is Some {
            v.clearing_compose()
        } else {
            v.deleting_selection()
        }
    } else {
        v.composing(s)
    }
}

/// Where the caret goes after composing: a positive `pos` counts from the end
/// of the composed range (1 is its end), any other from its start (0 is its
/// start), in UTF-16 units, clamped to the text.
pub open spec fn composed_caret(w: EditorView, pos: int) -> nat {
    let (a, b) = match w.compose {
        Some(r) => r,
        None => (w.sel_start(), w.sel_end()),
    };
    let a16 = at(w, a, IndexUnit::Utf16) as int;
    let b16 = at(w, b, IndexUnit::Utf16) as int;
    let len16 = at(w, w.text.len(), IndexUnit::Utf16) as int;
    let c16 = if pos > 0 {
        if b16 + pos - 1 <= len16 {
            b16 + pos - 1
        } else {
            len16
        }
    } else {
        if a16 + pos >= 0 {
            a16 + pos
        } else {
            0
        }
    };
    boundary_at(w.text, IndexUnit::Utf16, c16)
}

/// The whole effect of `set_composing_text(s, pos)` on the editor.
pub open spec fn set_composing(v: EditorView, s: Seq<char>, pos: int) -> EditorView {
    let w = composed(v, s);
    let k = composed_caret(w, pos);
    EditorView { anchor: k, focus: k, ..w }
}

/// The composing text `s` fits in the editor.
pub open spec fn composing_fits(v: EditorView, s: Seq<char>) -> bool {
    s.len() == 0 || v.composing(s).text.len() <= MAX_TEXT_CHARS
}

/// The selection set to the boundaries that UTF-16 offsets `a` and `b`
/// designate.
pub open spec fn selected16(v: EditorView, a: int, b: int) -> EditorView {
    EditorView {
        anchor: boundary_at(v.text, IndexUnit::Utf16, a),
        focus: boundary_at(v.text, IndexUnit::Utf16, b),
        ..v
    }
}

/// An offset as a platform integer, saturating at its largest value.
pub open spec fn jint_of(x: nat) -> i32 {
    if x <= i32::MAX {
        x as i32
    } else {
        i32::MAX
    }
}

/// The UTF-16 offset `x` clamped to `0..=len16`.
pub open spec fn clamp16(x: int, len16: int) -> int {
    if x < 0 {
        0
    } else if x > len16 {
        len16
    } else {
        x
    }
}

/// The effect of `set_composing_region(start, end)` on the editor.
pub open spec fn region_set(v: EditorView, start: int, end: int) -> EditorView {
    let len16 = at(v, v.text.len(), IndexUnit::Utf16) as int;
    let s = clamp16(start, len16);
    let e = clamp16(end, len16);
    if s == e {
        v.finishing_compose()
    } else {
        let lo = boundary_at(v.text, IndexUnit::Utf16, if s < e { s } else { e });
        let hi = boundary_at(v.text, IndexUnit::Utf16, if s < e { e } else { s });
        EditorView { compose: if lo < hi { Some((lo, hi)) } else { None }, ..v }
    }
}

proof fn lemma_fits_offsets(v: EditorView, k: nat)
    requires
        v.wf(),
        k <= v.text.len(),
    ensures
        v.byte(k) <= usize::MAX,
{
    crate::editor::lemma_fits(v.text);
    lemma_offset_monotone(v.text, k as int, k as int, IndexUnit::Utf8);
}

/// The text-input connection of a view: an editor, the batch-edit depth and
/// the redraw request that a batch holds back.
pub struct InputConnection {
    editor: Editor,
    batch_edit_depth: usize,
    redraw_pending: bool,
    ime_active: bool,
}

impl View for InputConnection {
    type V = ConnectionView;

    closed spec fn view(&self) -> ConnectionView {
        ConnectionView {
            editor: self.editor@,
            depth: self.batch_edit_depth as nat,
            redraw_pending: self.redraw_pending,
            ime_active: self.ime_active,
        }
    }
}

impl InputConnection {
    pub open spec fn wf(&self) -> bool {
        self@.editor.wf()
    }

    /// A connection over `editor`, with no batch open and nothing pending.
    pub fn new(editor: Editor) -> (r: InputConnection)
        requires
            editor@.wf(),
        ensures
            r.wf(),
            r@.editor == editor@,
            r@.depth == 0,
            !r@.redraw_pending,
            !r@.ime_active,
    {
        InputConnection { editor, batch_edit_depth: 0, redraw_pending: false, ime_active: false }
    }

    pub fn editor(&self) -> (r: &Editor)
        ensures
            r@ == self@.editor,
    {
        &self.editor
    }

    pub fn batch_edit_depth(&self) -> (r: usize)
        ensures
            r == self@.depth,
    {
        self.batch_edit_depth
    }

    pub fn ime_active(&self) -> (r: bool)
        ensures
            r == self@.ime_active,
    {
        self.ime_active
    }

    /// Records a change (when `changed`), and requests a redraw when no batch
    /// is open and a change is pending.
    fn request_redraw(&mut self, ctx: &mut CallbackCtx, changed: bool)
        requires
            old(ctx)@.len() < MAX_DEFERRED,
        ensures
            final(self)@.editor == old(self)@.editor,
            final(self)@.depth == old(self)@.depth,
            final(self)@.ime_active == old(self)@.ime_active,
            redraw_rule(
                old(self)@.depth,
                old(self)@.redraw_pending || changed,
                old(ctx)@,
                final(ctx)@,
                final(self)@.redraw_pending,
            ),
    {
        let dirty = self.redraw_pending || changed;
        if self.batch_edit_depth == 0 && dirty {
            ctx.push_static_deferred_callback(DeferredAction::PostFrameCallback);
            self.redraw_pending = false;
        } else {
            self.redraw_pending = dirty;
        }
    }

    /// Marks the connection as used by an input method, ends any composition
    /// without keeping its text, and returns the selection in UTF-16 units.
    pub fn on_create_input_connection(&mut self, ctx: &mut CallbackCtx) -> (r: (usize, usize))
        requires
            old(self).wf(),
            old(ctx)@.len() < MAX_DEFERRED,
        ensures
            final(self).wf(),
            r.0 == at(old(self)@.editor, old(self)@.editor.sel_start(), IndexUnit::Utf16),
            r.1 == at(old(self)@.editor, old(self)@.editor.sel_end(), IndexUnit::Utf16),
            final(self)@.editor == old(self)@.editor.clearing_compose(),
            final(self)@.ime_active,
            final(self)@.depth == old(self)@.depth,
            redraw_rule(old(self)@.depth, true, old(ctx)@, final(ctx)@, final(self)@.redraw_pending),
    {
        let (s, e) = self.editor.selection_range();
        let s16 = self.editor.utf8_to_utf16_index(s);
        let e16 = self.editor.utf8_to_utf16_index(e);
        proof {
            lemma_boundary_of_offset(self@.editor.text, IndexUnit::Utf8, self@.editor.sel_start() as int);
            lemma_boundary_of_offset(self@.editor.text, IndexUnit::Utf8, self@.editor.sel_end() as int);
        }
        self.editor.clear_compose();
        self.request_redraw(ctx, true);
        self.ime_active = true;
        (s16, e16)
    }

    /// Up to `n` UTF-16 units of text before the selection; none when `n` is
    /// negative.
    pub fn text_before_cursor(&self, n: i32) -> (r: Option<String>)
        requires
            self.wf(),
        ensures
            n < 0 ==> r is None,
            n >= 0 ==> r is Some && r->0@ == self@.editor.text.subrange(
                start_before(self@.editor, n as int, IndexUnit::Utf16) as int,
                self@.editor.sel_start() as int,
            ),
            r matches Some(t) ==> units(t@, IndexUnit::Utf16) <= n,
    {
        if n < 0 {
            return None;
        }
        let ghost v = self@.editor;
        let n = n as usize;
        let (end, _) = self.editor.selection_range();
        let end16 = self.editor.utf8_to_utf16_index(end);
        proof {
            lemma_boundary_of_offset(v.text, IndexUnit::Utf8, v.sel_start() as int);
        }
        let start16 = if end16 <= n {
            0
        } else {
            end16 - n
        };
        let start = self.editor.utf16_to_utf8_index(start16);
        proof {
            let k = boundary_at(v.text, IndexUnit::Utf16, start16 as int);
            lemma_boundary_at(v.text, IndexUnit::Utf16, start16 as int);
            lemma_boundary_of_offset(v.text, IndexUnit::Utf8, k as int);
            lemma_boundary_order(v.text, IndexUnit::Utf16, v.sel_start() as int, start16 as int);
            lemma_units_between(v.text, k as int, v.sel_start() as int, IndexUnit::Utf16);
        }
        Some(self.editor.text_between(start, end))
    }

    /// Up to `n` UTF-16 units of text after the selection; none when `n` is
    /// negative.
    pub fn text_after_cursor(&self, n: i32) -> (r: Option<String>)
        requires
            self.wf(),
        ensures
            n < 0 ==> r is None,
            n >= 0 ==> r is Some && r->0@ == self@.editor.text.subrange(
                self@.editor.sel_end() as int,
                end_after(self@.editor, n as int, IndexUnit::Utf16) as int,
            ),
            r matches Some(t) ==> units(t@, IndexUnit::Utf16) <= n,
    {
        if n < 0 {
            return None;
        }
        let ghost v = self@.editor;
        let n = n as usize;
        let (_, start) = self.editor.selection_range();
        let start16 = self.editor.utf8_to_utf16_index(start);
        let len = self.editor.len();
        let len16 = self.editor.utf8_to_utf16_index(len);
        proof {
            lemma_boundary_of_offset(v.text, IndexUnit::Utf8, v.sel_end() as int);
            lemma_boundary_of_offset(v.text, IndexUnit::Utf8, v.text.len() as int);
            lemma_offset_monotone(v.text, v.sel_end() as int, v.text.len() as int, IndexUnit::Utf16);
        }
        let end16 = if n <= len16 - start16 {
            start16 + n
        } else {
            len16
        };
        let end = self.editor.translate_floor(IndexUnit::Utf16, IndexUnit::Utf8, end16);
        proof {
            let k = floor_boundary(v.text, IndexUnit::Utf16, end16 as int);
            lemma_floor_boundary(v.text, IndexUnit::Utf16, end16 as int, v.sel_end() as int);
            lemma_boundary_of_offset(v.text, IndexUnit::Utf8, k as int);
            lemma_boundary_of_offset(v.text, IndexUnit::Utf8, v.sel_end() as int);
            lemma_units_between(v.text, v.sel_end() as int, k as int, IndexUnit::Utf16);
        }
        Some(self.editor.text_between(start, end))
    }

    /// The selected text; none when the selection is empty.
    pub fn selected_text(&self) -> (r: Option<String>)
        requires
            self.wf(),
        ensures
            self@.editor.sel_start() == self@.editor.sel_end() ==> r is None,
            self@.editor.sel_start() < self@.editor.sel_end() ==> r is Some && r->0@
                == self@.editor.text.subrange(
                self@.editor.sel_start() as int,
                self@.editor.sel_end() as int,
            ),
    {
        self.editor.selected_text()
    }

    /// The caret's offset in UTF-16 units, where the platform computes the
    /// capitalization mode.
    pub fn cursor_caps_offset(&self) -> (r: usize)
        requires
            self.wf(),
        ensures
            r == at(self@.editor, self@.editor.focus, IndexUnit::Utf16),
    {
        let f = self.editor.focus();
        proof {
            lemma_boundary_of_offset(self@.editor.text, IndexUnit::Utf8, self@.editor.focus as int);
        }
        self.editor.utf8_to_utf16_index(f)
    }
    /// Deletes up to `n` units before the selection; returns whether anything
    /// was deleted.
    fn delete_before(&mut self, n: i32, unit: IndexUnit) -> (changed: bool)
        requires
            old(self).wf(),
        ensures
            final(self).wf(),
            final(self)@.editor == deleted_before(old(self)@.editor, n as int, unit),
            changed ==> final(self)@.editor.text.len() < old(self)@.editor.text.len(),
            !changed ==> final(self)@ == old(self)@,
            final(self)@.depth == old(self)@.depth,
            final(self)@.redraw_pending == old(self)@.redraw_pending,
            final(self)@.ime_active == old(self)@.ime_active,
    {
        if n <= 0 {
            return false;
        }
        let ghost v = self@.editor;
        let (ss, _) = self.editor.selection_range();
        let t = self.editor.translate(IndexUnit::Utf8, unit, ss);
        proof {
            lemma_boundary_of_offset(v.text, IndexUnit::Utf8, v.sel_start() as int);
        }
        let n = n as usize;
        let target = if n <= t {
            t - n
        } else {
            0
        };
        let kb = self.editor.translate(unit, IndexUnit::Utf8, target);
        let ghost k = boundary_at(v.text, unit, target as int);
        proof {
            lemma_boundary_at(v.text, unit, target as int);
            lemma_boundary_order(v.text, unit, v.sel_start() as int, target as int);
            lemma_offset_monotone(v.text, k as int, v.sel_start() as int, IndexUnit::Utf8);
            lemma_boundary_of_offset(v.text, IndexUnit::Utf8, k as int);
        }
        if kb < ss {
            self.editor.delete_bytes_before_selection(ss - kb);
            true
        } else {
            false
        }
    }

    /// Deletes up to `n` units after the selection; returns whether anything
    /// was deleted.
    fn delete_after(&mut self, n: i32, unit: IndexUnit) -> (changed: bool)
        requires
            old(self).wf(),
        ensures
            final(self).wf(),
            final(self)@.editor == deleted_after(old(self)@.editor, n as int, unit),
            changed ==> final(self)@.editor.text.len() < old(self)@.editor.text.len(),
            !changed ==> final(self)@ == old(self)@,
            final(self)@.depth == old(self)@.depth,
            final(self)@.redraw_pending == old(self)@.redraw_pending,
            final(self)@.ime_active == old(self)@.ime_active,
    {
        if n <= 0 {
            return false;
        }
        let ghost v = self@.editor;
        let (_, se) = self.editor.selection_range();
        let t = self.editor.translate(IndexUnit::Utf8, unit, se);
        let len = self.editor.len();
        let total = self.editor.translate(IndexUnit::Utf8, unit, len);
        proof {
            lemma_boundary_of_offset(v.text, IndexUnit::Utf8, v.sel_end() as int);
            lemma_boundary_of_offset(v.text, IndexUnit::Utf8, v.text.len() as int);
            lemma_offset_monotone(v.text, v.sel_end() as int, v.text.len() as int, unit);
        }
        let n = n as usize;
        let target = if n <= total - t {
            t + n
        } else {
            total
        };
        let kb = self.editor.translate_floor(unit, IndexUnit::Utf8, target);
        let ghost k = floor_boundary(v.text, unit, target as int);
        proof {
            lemma_floor_boundary(v.text, unit, target as int, v.sel_end() as int);
            lemma_offset_monotone(v.text, v.sel_end() as int, k as int, IndexUnit::Utf8);
            lemma_boundary_of_offset(v.text, IndexUnit::Utf8, k as int);
        }
        if kb > se {
            self.editor.delete_bytes_after_selection(kb - se);
            true
        } else {
            false
        }
    }

    /// Deletes up to `before` units before and `after` units after the
    /// selection; returns whether anything was deleted.
    fn delete_around(&mut self, before: i32, after: i32, unit: IndexUnit) -> (changed: bool)
        requires
            old(self).wf(),
        ensures
            final(self).wf(),
            final(self)@.editor == deleted_after(
                deleted_before(old(self)@.editor, before as int, unit),
                after as int,
                unit,
            ),
            changed == (final(self)@.editor != old(self)@.editor),
            final(self)@.depth == old(self)@.depth,
            final(self)@.redraw_pending == old(self)@.redraw_pending,
            final(self)@.ime_active == old(self)@.ime_active,
    {
        let c1 = self.delete_before(before, unit);
        let c2 = self.delete_after(after, unit);
        c1 || c2
    }

    /// Deletes up to `before_length` UTF-16 units before and `after_length`
    /// after the selection, clamped at the ends of the text. Always succeeds.
    pub fn delete_surrounding_text(
        &mut self,
        ctx: &mut CallbackCtx,
        before_length: i32,
        after_length: i32,
    ) -> (r: bool)
        requires
            old(self).wf(),
            old(ctx)@.len() < MAX_DEFERRED,
        ensures
            r,
            final(self).wf(),
            final(self)@.editor == deleted_after(
                deleted_before(old(self)@.editor, before_length as int, IndexUnit::Utf16),
                after_length as int,
                IndexUnit::Utf16,
            ),
            final(self)@.depth == old(self)@.depth,
            final(self)@.ime_active == old(self)@.ime_active,
            redraw_rule(
                old(self)@.depth,
                old(self)@.redraw_pending || final(self)@.editor != old(self)@.editor,
                old(ctx)@,
                final(ctx)@,
                final(self)@.redraw_pending,
            ),
    {
        let changed = self.delete_around(before_length, after_length, IndexUnit::Utf16);
        self.request_redraw(ctx, changed);
        true
    }

    /// Deletes up to `before_length` scalar values before and `after_length`
    /// after the selection, clamped at the ends of the text. Always succeeds.
    pub fn delete_surrounding_text_in_code_points(
        &mut self,
        ctx: &mut CallbackCtx,
        before_length: i32,
        after_length: i32,
    ) -> (r: bool)
        requires
            old(self).wf(),
            old(ctx)@.len() < MAX_DEFERRED,
        ensures
            r,
            final(self).wf(),
            final(self)@.editor == deleted_after(
                deleted_before(old(self)@.editor, before_length as int, IndexUnit::Scalar),
                after_length as int,
                IndexUnit::Scalar,
            ),
            final(self)@.depth == old(self)@.depth,
            final(self)@.ime_active == old(self)@.ime_active,
            redraw_rule(
                old(self)@.depth,
                old(self)@.redraw_pending || final(self)@.editor != old(self)@.editor,
                old(ctx)@,
                final(ctx)@,
                final(self)@.redraw_pending,
            ),
    {
        let changed = self.delete_around(before_length, after_length, IndexUnit::Scalar);
        self.request_redraw(ctx, changed);
        true
    }

    /// Replaces the composition (or selection) by `text` and places the
    /// caret; false, changing nothing, when the text would not fit.
    fn compose_and_place(&mut self, text: &str, new_cursor_position: i32) -> (ok: bool)
        requires
            old(self).wf(),
        ensures
            final(self).wf(),
            ok == composing_fits(old(self)@.editor, text@),
            ok ==> final(self)@.editor == set_composing(
                old(self)@.editor,
                text@,
                new_cursor_position as int,
            ),
            !ok ==> final(self)@.editor == old(self)@.editor,
            final(self)@.depth == old(self)@.depth,
            final(self)@.redraw_pending == old(self)@.redraw_pending,
            final(self)@.ime_active == old(self)@.ime_active,
    {
        if text.is_empty() {
            if self.editor.is_composing() {
                self.editor.clear_compose();
            } else {
                self.editor.delete_selection();
            }
        } else {
            if !self.editor.set_compose(text) {
                return false;
            }
        }
        let ghost w = self@.editor;
        let (a, b) = match self.editor.compose_range() {
            Some(range) => range,
            None => self.editor.selection_range(),
        };
        let ghost (ca, cb) = match w.compose {
            Some(r) => r,
            None => (w.sel_start(), w.sel_end()),
        };
        proof {
            lemma_boundary_of_offset(w.text, IndexUnit::Utf8, ca as int);
            lemma_boundary_of_offset(w.text, IndexUnit::Utf8, cb as int);
            lemma_boundary_of_offset(w.text, IndexUnit::Utf8, w.text.len() as int);
            lemma_offset_monotone(w.text, cb as int, w.text.len() as int, IndexUnit::Utf16);
        }
        proof {
            lemma_fits_offsets(w, ca);
            lemma_fits_offsets(w, cb);
            assert(a == w.byte(ca));
            assert(b == w.byte(cb));
        }
        let a16 = self.editor.utf8_to_utf16_index(a);
        let b16 = self.editor.utf8_to_utf16_index(b);
        let c16 = if new_cursor_position > 0 {
            let len = self.editor.len();
            let len16 = self.editor.utf8_to_utf16_index(len);
            let m = (new_cursor_position - 1) as usize;
            if m <= len16 - b16 {
                b16 + m
            } else {
                len16
            }
        } else {
            let m = (0 - (new_cursor_position as i64)) as usize;
            if m <= a16 {
                a16 - m
            } else {
                0
            }
        };
        let cbyte = self.editor.utf16_to_utf8_index(c16);
        proof {
            let k = boundary_at(w.text, IndexUnit::Utf16, c16 as int);
            lemma_boundary_at(w.text, IndexUnit::Utf16, c16 as int);
            lemma_boundary_of_offset(w.text, IndexUnit::Utf8, k as int);
        }
        self.editor.move_to_byte(cbyte);
        true
    }

    /// Sets the composing text and places the caret by the platform's
    /// convention (see [`composed_caret`]); an empty text clears the
    /// composition, or deletes the selection when nothing is composing.
    /// False, changing nothing, only when the text would not fit.
    pub fn set_composing_text(
        &mut self,
        ctx: &mut CallbackCtx,
        text: &str,
        new_cursor_position: i32,
    ) -> (r: bool)
        requires
            old(self).wf(),
            old(ctx)@.len() < MAX_DEFERRED,
        ensures
            final(self).wf(),
            r == composing_fits(old(self)@.editor, text@),
            r ==> final(self)@.editor == set_composing(
                old(self)@.editor,
                text@,
                new_cursor_position as int,
            ),
            r ==> redraw_rule(
                old(self)@.depth,
                true,
                old(ctx)@,
                final(ctx)@,
                final(self)@.redraw_pending,
            ),
            !r ==> final(self)@ == old(self)@ && final(ctx)@ == old(ctx)@,
            final(self)@.depth == old(self)@.depth,
            final(self)@.ime_active == old(self)@.ime_active,
    {
        if !self.compose_and_place(text, new_cursor_position) {
            return false;
        }
        self.request_redraw(ctx, true);
        true
    }

    /// Sets the composing region to UTF-16 offsets `start..end`, each clamped
    /// to the text and taken in either order; equal bounds end the
    /// composition instead. Always succeeds.
    pub fn set_composing_region(&mut self, ctx: &mut CallbackCtx, start: i32, end: i32) -> (r:
        bool)
        requires
            old(self).wf(),
            old(ctx)@.len() < MAX_DEFERRED,
        ensures
            r,
            final(self).wf(),
            final(self)@.editor == region_set(old(self)@.editor, start as int, end as int),
            final(self)@.depth == old(self)@.depth,
            final(self)@.ime_active == old(self)@.ime_active,
            redraw_rule(old(self)@.depth, true, old(ctx)@, final(ctx)@, final(self)@.redraw_pending),
    {
        let ghost v = self@.editor;
        let len = self.editor.len();
        let len16 = self.editor.utf8_to_utf16_index(len);
        proof {
            lemma_boundary_of_offset(v.text, IndexUnit::Utf8, v.text.len() as int);
        }
        let s: usize = if start < 0 {
            0
        } else if start as usize > len16 {
            len16
        } else {
            start as usize
        };
        let e: usize = if end < 0 {
            0
        } else if end as usize > len16 {
            len16
        } else {
            end as usize
        };
        if s == e {
            self.editor.finish_compose();
        } else {
            let (lo, hi) = if s < e {
                (s, e)
            } else {
                (e, s)
            };
            let lb = self.editor.utf16_to_utf8_index(lo);
            let hb = self.editor.utf16_to_utf8_index(hi);
            proof {
                let kl = boundary_at(v.text, IndexUnit::Utf16, lo as int);
                let kh = boundary_at(v.text, IndexUnit::Utf16, hi as int);
                lemma_boundary_at(v.text, IndexUnit::Utf16, lo as int);
                lemma_boundary_at(v.text, IndexUnit::Utf16, hi as int);
                lemma_boundary_of_offset(v.text, IndexUnit::Utf8, kl as int);
                lemma_boundary_of_offset(v.text, IndexUnit::Utf8, kh as int);
            }
            self.editor.set_compose_byte_range(lb, hb);
        }
        self.request_redraw(ctx, true);
        true
    }

    /// Commits the composition as plain text. Always succeeds.
    pub fn finish_composing_text(&mut self, ctx: &mut CallbackCtx) -> (r: bool)
        requires
            old(self).wf(),
            old(ctx)@.len() < MAX_DEFERRED,
        ensures
            r,
            final(self).wf(),
            final(self)@.editor == old(self)@.editor.finishing_compose(),
            final(self)@.depth == old(self)@.depth,
            final(self)@.ime_active == old(self)@.ime_active,
            redraw_rule(old(self)@.depth, true, old(ctx)@, final(ctx)@, final(self)@.redraw_pending),
    {
        self.editor.finish_compose();
        self.request_redraw(ctx, true);
        true
    }

    /// Sets the composing text as [`InputConnection::set_composing_text`]
    /// does and commits it at once, with one redraw request. False, changing
    /// nothing, only when the text would not fit.
    pub fn commit_text(&mut self, ctx: &mut CallbackCtx, text: &str, new_cursor_position: i32) -> (r:
        bool)
        requires
            old(self).wf(),
            old(ctx)@.len() < MAX_DEFERRED,
        ensures
            final(self).wf(),
            r == composing_fits(old(self)@.editor, text@),
            r ==> final(self)@.editor == set_composing(
                old(self)@.editor,
                text@,
                new_cursor_position as int,
            ).finishing_compose(),
            r ==> redraw_rule(
                old(self)@.depth,
                true,
                old(ctx)@,
                final(ctx)@,
                final(self)@.redraw_pending,
            ),
            !r ==> final(self)@ == old(self)@ && final(ctx)@ == old(ctx)@,
            final(self)@.depth == old(self)@.depth,
            final(self)@.ime_active == old(self)@.ime_active,
    {
        if !self.compose_and_place(text, new_cursor_position) {
            return false;
        }
        self.finish_composing_text(ctx)
    }

    /// Selects from UTF-16 offset `start` to `end`; false, changing nothing,
    /// when either is negative.
    pub fn set_selection(&mut self, ctx: &mut CallbackCtx, start: i32, end: i32) -> (r: bool)
        requires
            old(self).wf(),
            old(ctx)@.len() < MAX_DEFERRED,
        ensures
            final(self).wf(),
            r == (start >= 0 && end >= 0),
            !r ==> final(self)@ == old(self)@ && final(ctx)@ == old(ctx)@,
            r ==> final(self)@.editor == selected16(old(self)@.editor, start as int, end as int),
            r ==> redraw_rule(
                old(self)@.depth,
                true,
                old(ctx)@,
                final(ctx)@,
                final(self)@.redraw_pending,
            ),
            final(self)@.depth == old(self)@.depth,
            final(self)@.ime_active == old(self)@.ime_active,
    {
        if start < 0 || end < 0 {
            return false;
        }
        let ghost v = self@.editor;
        let sb = self.editor.utf16_to_utf8_index(start as usize);
        let eb = self.editor.utf16_to_utf8_index(end as usize);
        proof {
            let ks = boundary_at(v.text, IndexUnit::Utf16, start as int);
            let ke = boundary_at(v.text, IndexUnit::Utf16, end as int);
            lemma_boundary_at(v.text, IndexUnit::Utf16, start as int);
            lemma_boundary_at(v.text, IndexUnit::Utf16, end as int);
            lemma_boundary_of_offset(v.text, IndexUnit::Utf8, ks as int);
            lemma_boundary_of_offset(v.text, IndexUnit::Utf8, ke as int);
        }
        self.editor.select_byte_range(sb, eb);
        self.request_redraw(ctx, true);
        true
    }

    /// Opens a batch edit. False, changing nothing, only when the depth
    /// cannot grow.
    pub fn begin_batch_edit(&mut self) -> (r: bool)
        ensures
            r == (old(self)@.depth < usize::MAX),
            r ==> final(self)@ == (ConnectionView { depth: old(self)@.depth + 1, ..old(self)@ }),
            !r ==> final(self)@ == old(self)@,
    {
        if self.batch_edit_depth == usize::MAX {
            return false;
        }
        self.batch_edit_depth = self.batch_edit_depth + 1;
        true
    }

    /// Closes a batch edit. Returns whether a batch is still open afterwards;
    /// false, changing nothing, when none was. Closing the outermost batch
    /// requests the redraw that the batch held back.
    pub fn end_batch_edit(&mut self, ctx: &mut CallbackCtx) -> (r: bool)
        requires
            old(ctx)@.len() < MAX_DEFERRED,
        ensures
            old(self)@.depth == 0 ==> !r && final(self)@ == old(self)@ && final(ctx)@ == old(
                ctx,
            )@,
            old(self)@.depth > 0 ==> {
                &&& r == (old(self)@.depth > 1)
                &&& final(self)@.depth == old(self)@.depth - 1
                &&& final(self)@.editor == old(self)@.editor
                &&& final(self)@.ime_active == old(self)@.ime_active
                &&& redraw_rule(
                    final(self)@.depth,
                    old(self)@.redraw_pending,
                    old(ctx)@,
                    final(ctx)@,
                    final(self)@.redraw_pending,
                )
            },
    {
        if self.batch_edit_depth == 0 {
            return false;
        }
        self.batch_edit_depth = self.batch_edit_depth - 1;
        self.request_redraw(ctx, false);
        self.batch_edit_depth != 0
    }

    fn jint(x: usize) -> (r: i32)
        ensures
            r == jint_of(x as nat),
    {
        if x <= i32::MAX as usize {
            x as i32
        } else {
            i32::MAX
        }
    }

    /// The notice to the input method of where the selection and the
    /// composing region now are, in UTF-16 units (-1 for no composing
    /// region); none while no input method is connected.
    pub fn selection_update(&self) -> (r: Option<DeferredAction>)
        requires
            self.wf(),
        ensures
            !self@.ime_active ==> r is None,
            self@.ime_active ==> r == Some(
                DeferredAction::UpdateSelection {
                    sel_start: jint_of(at(self@.editor, self@.editor.sel_start(), IndexUnit::Utf16)),
                    sel_end: jint_of(at(self@.editor, self@.editor.sel_end(), IndexUnit::Utf16)),
                    compose_start: match self@.editor.compose {
                        Some((a, _)) => jint_of(at(self@.editor, a, IndexUnit::Utf16)),
                        None => -1i32,
                    },
                    compose_end: match self@.editor.compose {
                        Some((_, b)) => jint_of(at(self@.editor, b, IndexUnit::Utf16)),
                        None => -1i32,
                    },
                },
            ),
    {
        if !self.ime_active {
            return None;
        }
        let ghost v = self@.editor;
        let (s, e) = self.editor.selection_range();
        proof {
            lemma_boundary_of_offset(v.text, IndexUnit::Utf8, v.sel_start() as int);
            lemma_boundary_of_offset(v.text, IndexUnit::Utf8, v.sel_end() as int);
        }
        let s16 = self.editor.utf8_to_utf16_index(s);
        let e16 = self.editor.utf8_to_utf16_index(e);
        let (cs, ce) = match self.editor.compose_range() {
            Some((a, b)) => {
                proof {
                    let (ca, cb) = v.compose->0;
                    lemma_fits_offsets(v, ca);
                    lemma_fits_offsets(v, cb);
                    lemma_boundary_of_offset(v.text, IndexUnit::Utf8, ca as int);
                    lemma_boundary_of_offset(v.text, IndexUnit::Utf8, cb as int);
                }
                let a16 = self.editor.utf8_to_utf16_index(a);
                let b16 = self.editor.utf8_to_utf16_index(b);
                (Self::jint(a16), Self::jint(b16))
            },
            None => (-1, -1),
        };
        Some(
            DeferredAction::UpdateSelection {
                sel_start: Self::jint(s16),
                sel_end: Self::jint(e16),
                compose_start: cs,
                compose_end: ce,
            },
        )
    }

    /// Editor actions are not handled.
    pub fn perform_editor_action(&mut self, editor_action: i32) -> (r: bool)
        ensures
            !r,
            final(self)@ == old(self)@,
    {
        false
    }

    /// Context-menu actions are not handled.
    pub fn perform_context_menu_action(&mut self, id: i32) -> (r: bool)
        ensures
            !r,
            final(self)@ == old(self)@,
    {
        false
    }

    /// Meta-key states are not handled.
    pub fn clear_meta_key_states(&mut self, states: i32) -> (r: bool)
        ensures
            !r,
            final(self)@ == old(self)@,
    {
        false
    }

    /// Full-screen mode reports are not handled.
    pub fn report_fullscreen_mode(&mut self, enabled: bool) -> (r: bool)
        ensures
            !r,
            final(self)@ == old(self)@,
    {
        false
    }

    /// Cursor-update requests are not handled.
    pub fn request_cursor_updates(&mut self, cursor_update_mode: i32) -> (r: bool)
        ensures
            !r,
            final(self)@ == old(self)@,
    {
        false
    }
}

/// Inside a batch edit, setting the selection and then the composing text
/// request no redraw; closing the batch requests at most one, and only when
/// no other batch stays open. `c0..c4` are the connection before
/// `begin_batch_edit`, after it, after `set_selection`, after
/// `set_composing_text` and after `end_batch_edit`; `q1..q4` the context's
/// queue from the first call on.
pub proof fn lemma_batch_edit_holds_back_redraw(
    c0: ConnectionView,
    c1: ConnectionView,
    c2: ConnectionView,
    c3: ConnectionView,
    c4: ConnectionView,
    q1: Seq<DeferredAction>,
    q2: Seq<DeferredAction>,
    q3: Seq<DeferredAction>,
    q4: Seq<DeferredAction>,
    selection_ok: bool,
    composing_ok: bool,
)
    requires
        c1 == (ConnectionView { depth: c0.depth + 1, ..c0 }),
        c2.depth == c1.depth,
        selection_ok ==> redraw_rule(c1.depth, true, q1, q2, c2.redraw_pending),
        !selection_ok ==> c2 == c1 && q2 == q1,
        c3.depth == c2.depth,
        composing_ok ==> redraw_rule(c2.depth, true, q2, q3, c3.redraw_pending),
        !composing_ok ==> c3 == c2 && q3 == q2,
        c4.depth == c3.depth - 1,
        redraw_rule(c4.depth, c3.redraw_pending, q3, q4, c4.redraw_pending),
    ensures
        q2 == q1,
        q3 == q1,
        q4 == q1 || (q4 == q1.push(DeferredAction::PostFrameCallback) && c0.depth == 0),
{
}

/// Equal composing-region bounds (after clamping) end the composition and
/// change nothing else; no empty composing region is ever set.
pub proof fn lemma_equal_region_bounds_finish(v: EditorView, start: int, end: int)
    requires
        start == end,
    ensures
        region_set(v, start, end) == v.finishing_compose(),
        region_set(v, start, end).compose is None,
{
}

/// With the selection at the start of the text, deleting before it deletes
/// nothing, however many units are asked for.
pub proof fn lemma_delete_before_start_is_noop(v: EditorView, n: int, unit: IndexUnit)
    requires
        v.wf(),
        v.sel_start() == 0,
    ensures
        deleted_before(v, n, unit) == v,
{
    let t = at(v, 0, unit);
    assert(v.text.take(0) =~= Seq::<char>::empty());
    assert(t == 0);
    let target: int = if n <= t { t - n } else { 0 };
    lemma_boundary_order(v.text, unit, 0, target);
}

} // verus!
