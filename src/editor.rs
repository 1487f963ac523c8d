//! The editable text model that the IME protocol works against: a text, a
//! selection and an optional composing region. Offsets at its interface are
//! UTF-8 byte offsets; inside, positions are character boundaries.
use vstd::prelude::*;

use crate::text::{chars_of, slice_of, splice, string_of};
use crate::text_index::{
    boundary_at, convert, convert_index, fits, floor_boundary, floor_index, lemma_boundary_at, lemma_boundary_of_offset,
    lemma_boundary_order, lemma_offset_monotone, lemma_scalar_offset, offset_of, units, IndexUnit,
};

verus! {

/// The longest text, in characters, that an editor holds: every offset into
/// it then fits in `usize` in each index space.
pub const MAX_TEXT_CHARS: usize = usize::MAX / 4;

/// What an [`Editor`] holds. Positions are character boundaries, counted in
/// characters from the start of the text.
pub struct EditorView {
    pub text: Seq<char>,
    /// Where the selection started.
    pub anchor: nat,
    /// Where the selection ends; the caret.
    pub focus: nat,
    /// The composing region, a non-empty half-open range.
    pub compose: Option<(nat, nat)>,
}

impl EditorView {
    pub open spec fn wf(self) -> bool {
        &&& self.text.len() <= MAX_TEXT_CHARS
        &&& self.anchor <= self.text.len()
        &&& self.focus <= self.text.len()
        &&& match self.compose {
            Some((a, b)) => a < b <= self.text.len(),
            None => true,
        }
    }

    pub open spec fn sel_start(self) -> nat {
        if self.anchor <= self.focus {
            self.anchor
        } else {
            self.focus
        }
    }

    pub open spec fn sel_end(self) -> nat {
        if self.anchor <= self.focus {
            self.focus
        } else {
            self.anchor
        }
    }

    /// The byte offset of boundary `k`.
    pub open spec fn byte(self, k: nat) -> nat {
        offset_of(self.text, k as int, IndexUnit::Utf8)
    }

    /// The boundary that byte offset `b` designates.
    pub open spec fn boundary(self, b: int) -> nat {
        boundary_at(self.text, IndexUnit::Utf8, b)
    }

    /// The text with characters `a..b` replaced by `ins`.
    pub open spec fn spliced(self, a: nat, b: nat, ins: Seq<char>) -> Seq<char> {
        self.text.subrange(0, a as int) + ins + self.text.subrange(b as int, self.text.len() as int)
    }

    /// The selection set to run from byte `a` to byte `b`.
    pub open spec fn selecting(self, a: int, b: int) -> Self {
        EditorView { anchor: self.boundary(a), focus: self.boundary(b), ..self }
    }

    /// The selection collapsed at byte `b`.
    pub open spec fn moving_to(self, b: int) -> Self {
        EditorView { anchor: self.boundary(b), focus: self.boundary(b), ..self }
    }

    /// The composition committed as plain text.
    pub open spec fn finishing_compose(self) -> Self {
        EditorView { compose: None, ..self }
    }

    /// The composed text taken out again, the caret where it stood.
    pub open spec fn clearing_compose(self) -> Self {
        match self.compose {
            Some((a, b)) => EditorView {
                text: self.spliced(a, b, Seq::empty()),
                anchor: a,
                focus: a,
                compose: None,
            },
            None => self,
        }
    }

    /// The selected text deleted, the caret where it started.
    pub open spec fn deleting_selection(self) -> Self {
        EditorView {
            text: self.spliced(self.sel_start(), self.sel_end(), Seq::empty()),
            anchor: self.sel_start(),
            focus: self.sel_start(),
            compose: None,
        }
    }

    /// `s` put in place of the composing region, or of the selection when
    /// nothing is composing; it becomes the composing region, with the caret
    /// at its start.
    pub open spec fn composing(self, s: Seq<char>) -> Self {
        let (a, b) = match self.compose {
            Some(r) => r,
            None => (self.sel_start(), self.sel_end()),
        };
        EditorView {
            text: self.spliced(a, b, s),
            anchor: a,
            focus: a,
            compose: if s.len() > 0 {
                Some((a, a + s.len()))
            } else {
                None
            },
        }
    }

    /// The composing region set to bytes `a..b`; none when they designate
    /// one boundary.
    pub open spec fn composing_range(self, a: int, b: int) -> Self {
        EditorView {
            compose: if self.boundary(a) < self.boundary(b) {
                Some((self.boundary(a), self.boundary(b)))
            } else {
                None
            },
            ..self
        }
    }

    /// The `n` bytes before the selection deleted, from the boundary that
    /// byte offset designates; the selection moves with the text.
    pub open spec fn deleting_before(self, n: int) -> Self {
        let s = self.sel_start();
        let a = self.boundary(self.byte(s) - n);
        EditorView {
            text: self.spliced(a, s, Seq::empty()),
            anchor: (self.anchor - (s - a)) as nat,
            focus: (self.focus - (s - a)) as nat,
            compose: None,
        }
    }

    /// The `n` bytes after the selection deleted, up to the boundary that
    /// byte offset designates.
    pub open spec fn deleting_after(self, n: int) -> Self {
        let e = self.sel_end();
        let b = self.boundary(self.byte(e) + n);
        EditorView { text: self.spliced(e, b, Seq::empty()), compose: None, ..self }
    }
}

/// A text within the editor's limit fits in `usize` in every unit.
pub proof fn lemma_fits(s: Seq<char>)
    requires
        s.len() <= MAX_TEXT_CHARS,
    ensures
        fits(s),
{
    lemma_units_at_most_four(s);
}

proof fn lemma_units_at_most_four(s: Seq<char>)
    ensures
        units(s, IndexUnit::Utf8) <= 4 * s.len(),
    decreases s.len(),
{
    if s.len() > 0 {
        lemma_units_at_most_four(s.drop_last());
    }
}

/// An editable text with a selection and an optional composing region.
pub struct Editor {
    text: Vec<char>,
    anchor: usize,
    focus: usize,
    compose: Option<(usize, usize)>,
}

impl View for Editor {
    type V = EditorView;

    closed spec fn view(&self) -> EditorView {
        EditorView {
            text: self.text@,
            anchor: self.anchor as nat,
            focus: self.focus as nat,
            compose: match self.compose {
                Some((a, b)) => Some((a as nat, b as nat)),
                None => None,
            },
        }
    }
}

impl Editor {
    /// An editor holding `text`, the caret at its end, nothing composing.
    pub fn new(text: &str) -> (r: Editor)
        requires
            text@.len() <= MAX_TEXT_CHARS,
        ensures
            r@.wf(),
            r@.text == text@,
            r@.anchor == text@.len(),
            r@.focus == text@.len(),
            r@.compose is None,
    {
        let chars = chars_of(text);
        let n = chars.len();
        Editor { text: chars, anchor: n, focus: n, compose: None }
    }

    /// The whole text.
    pub fn text(&self) -> (r: String)
        ensures
            r@ == self@.text,
    {
        string_of(self.text.as_slice())
    }

    /// The byte length of the text.
    pub fn len(&self) -> (r: usize)
        requires
            self@.wf(),
        ensures
            r == self@.byte(self@.text.len()),
    {
        self.byte_of(self.text.len())
    }

    fn byte_of(&self, k: usize) -> (r: usize)
        requires
            self@.wf(),
            k <= self@.text.len(),
        ensures
            r == self@.byte(k as nat),
    {
        proof {
            lemma_fits(self.text@);
            lemma_scalar_offset(self.text@, k as int);
            lemma_boundary_of_offset(self.text@, IndexUnit::Scalar, k as int);
        }
        convert_index(&self.text, IndexUnit::Scalar, IndexUnit::Utf8, k)
    }

    fn boundary_of(&self, b: usize) -> (r: usize)
        requires
            self@.wf(),
        ensures
            r == self@.boundary(b as int),
            r <= self@.text.len(),
    {
        proof {
            lemma_fits(self.text@);
            lemma_boundary_at(self.text@, IndexUnit::Utf8, b as int);
            lemma_scalar_offset(self.text@, boundary_at(self.text@, IndexUnit::Utf8, b as int) as int);
        }
        convert_index(&self.text, IndexUnit::Utf8, IndexUnit::Scalar, b)
    }

    /// The UTF-16 offset of the boundary that byte offset `utf8_index`
    /// designates.
    pub fn utf8_to_utf16_index(&self, utf8_index: usize) -> (r: usize)
        requires
            self@.wf(),
        ensures
            r == convert(self@.text, IndexUnit::Utf8, IndexUnit::Utf16, utf8_index as int),
    {
        proof {
            lemma_fits(self.text@);
        }
        convert_index(&self.text, IndexUnit::Utf8, IndexUnit::Utf16, utf8_index)
    }

    /// The byte offset of the boundary that UTF-16 offset `utf16_index`
    /// designates.
    pub fn utf16_to_utf8_index(&self, utf16_index: usize) -> (r: usize)
        requires
            self@.wf(),
        ensures
            r == convert(self@.text, IndexUnit::Utf16, IndexUnit::Utf8, utf16_index as int),
    {
        proof {
            lemma_fits(self.text@);
        }
        convert_index(&self.text, IndexUnit::Utf16, IndexUnit::Utf8, utf16_index)
    }

    /// The scalar-value offset of the boundary that byte offset `utf8_index`
    /// designates.
    pub fn utf8_to_usv_index(&self, utf8_index: usize) -> (r: usize)
        requires
            self@.wf(),
        ensures
            r == convert(self@.text, IndexUnit::Utf8, IndexUnit::Scalar, utf8_index as int),
    {
        proof {
            lemma_fits(self.text@);
        }
        convert_index(&self.text, IndexUnit::Utf8, IndexUnit::Scalar, utf8_index)
    }

    /// The byte offset of the boundary that scalar-value offset `usv_index`
    /// designates.
    pub fn usv_to_utf8_index(&self, usv_index: usize) -> (r: usize)
        requires
            self@.wf(),
        ensures
            r == convert(self@.text, IndexUnit::Scalar, IndexUnit::Utf8, usv_index as int),
    {
        proof {
            lemma_fits(self.text@);
        }
        convert_index(&self.text, IndexUnit::Scalar, IndexUnit::Utf8, usv_index)
    }

    /// Translates `index`, counted in `from`, to the offset in `to` of the
    /// boundary it designates.
    pub fn translate(&self, from: IndexUnit, to: IndexUnit, index: usize) -> (r: usize)
        requires
            self@.wf(),
        ensures
            r == convert(self@.text, from, to, index as int),
    {
        proof {
            lemma_fits(self.text@);
        }
        convert_index(&self.text, from, to, index)
    }

    /// Translates `index`, counted in `from`, to the offset in `to` of the
    /// last boundary at or before it.
    pub fn translate_floor(&self, from: IndexUnit, to: IndexUnit, index: usize) -> (r: usize)
        requires
            self@.wf(),
        ensures
            r == offset_of(self@.text, floor_boundary(self@.text, from, index as int) as int, to),
    {
        proof {
            lemma_fits(self.text@);
        }
        floor_index(&self.text, from, to, index)
    }

    /// The selection as a byte range, start before end.
    pub fn selection_range(&self) -> (r: (usize, usize))
        requires
            self@.wf(),
        ensures
            r.0 == self@.byte(self@.sel_start()),
            r.1 == self@.byte(self@.sel_end()),
    {
        let (s, e) = if self.anchor <= self.focus {
            (self.anchor, self.focus)
        } else {
            (self.focus, self.anchor)
        };
        (self.byte_of(s), self.byte_of(e))
    }

    /// The byte offset of the caret.
    pub fn focus(&self) -> (r: usize)
        requires
            self@.wf(),
        ensures
            r == self@.byte(self@.focus),
    {
        self.byte_of(self.focus)
    }

    /// The composing region as a byte range.
    pub fn compose_range(&self) -> (r: Option<(usize, usize)>)
        requires
            self@.wf(),
        ensures
            match self@.compose {
                Some((a, b)) => r == Some((self@.byte(a) as usize, self@.byte(b) as usize)),
                None => r is None,
            },
    {
        match self.compose {
            Some((a, b)) => Some((self.byte_of(a), self.byte_of(b))),
            None => None,
        }
    }

    pub fn is_composing(&self) -> (r: bool)
        ensures
            r == self@.compose is Some,
    {
        self.compose.is_some()
    }

    /// The selected text; none when the selection is empty.
    pub fn selected_text(&self) -> (r: Option<String>)
        requires
            self@.wf(),
        ensures
            self@.sel_start() == self@.sel_end() ==> r is None,
            self@.sel_start() < self@.sel_end() ==> r is Some && r->0@ == self@.text.subrange(
                self@.sel_start() as int,
                self@.sel_end() as int,
            ),
    {
        let (s, e) = if self.anchor <= self.focus {
            (self.anchor, self.focus)
        } else {
            (self.focus, self.anchor)
        };
        if s == e {
            None
        } else {
            let chars = slice_of(&self.text, s, e);
            Some(string_of(chars.as_slice()))
        }
    }

    /// The text between two byte offsets, taken at the boundaries they
    /// designate.
    pub fn text_between(&self, a: usize, b: usize) -> (r: String)
        requires
            self@.wf(),
            self@.boundary(a as int) <= self@.boundary(b as int),
        ensures
            r@ == self@.text.subrange(
                self@.boundary(a as int) as int,
                self@.boundary(b as int) as int,
            ),
    {
        let ca = self.boundary_of(a);
        let cb = self.boundary_of(b);
        let chars = slice_of(&self.text, ca, cb);
        string_of(chars.as_slice())
    }

    /// Selects from byte `a` to byte `b`.
    pub fn select_byte_range(&mut self, a: usize, b: usize)
        requires
            old(self)@.wf(),
        ensures
            final(self)@ == old(self)@.selecting(a as int, b as int),
            final(self)@.wf(),
    {
        let ca = self.boundary_of(a);
        let cb = self.boundary_of(b);
        self.anchor = ca;
        self.focus = cb;
    }

    /// Collapses the selection at byte `b`.
    pub fn move_to_byte(&mut self, b: usize)
        requires
            old(self)@.wf(),
        ensures
            final(self)@ == old(self)@.moving_to(b as int),
            final(self)@.wf(),
    {
        let k = self.boundary_of(b);
        self.anchor = k;
        self.focus = k;
    }

    /// Commits the composition as plain text.
    pub fn finish_compose(&mut self)
        requires
            old(self)@.wf(),
        ensures
            final(self)@ == old(self)@.finishing_compose(),
            final(self)@.wf(),
    {
        self.compose = None;
    }

    /// Takes the composed text out again.
    pub fn clear_compose(&mut self)
        requires
            old(self)@.wf(),
        ensures
            final(self)@ == old(self)@.clearing_compose(),
            final(self)@.wf(),
    {
        if let Some((a, b)) = self.compose {
            let empty: Vec<char> = Vec::new();
            self.text = splice(&self.text, a, b, &empty);
            self.anchor = a;
            self.focus = a;
            self.compose = None;
            proof {
                assert(self@.text =~= old(self)@.spliced(a as nat, b as nat, Seq::empty()));
            }
        }
    }

    /// Deletes the selected text.
    pub fn delete_selection(&mut self)
        requires
            old(self)@.wf(),
        ensures
            final(self)@ == old(self)@.deleting_selection(),
            final(self)@.wf(),
    {
        let (s, e) = if self.anchor <= self.focus {
            (self.anchor, self.focus)
        } else {
            (self.focus, self.anchor)
        };
        let empty: Vec<char> = Vec::new();
        self.text = splice(&self.text, s, e, &empty);
        self.anchor = s;
        self.focus = s;
        self.compose = None;
        proof {
            assert(self@.text =~= old(self)@.spliced(s as nat, e as nat, Seq::empty()));
        }
    }

    /// Puts `s` in place of the composing region, or of the selection, and
    /// makes it the composing region. Refuses (returns false, changing
    /// nothing) when the text would outgrow the editor's limit.
    pub fn set_compose(&mut self, s: &str) -> (r: bool)
        requires
            old(self)@.wf(),
        ensures
            final(self)@.wf(),
            r == (old(self)@.composing(s@).text.len() <= MAX_TEXT_CHARS),
            r ==> final(self)@ == old(self)@.composing(s@),
            !r ==> final(self)@ == old(self)@,
    {
        let ins = chars_of(s);
        let (a, b) = match self.compose {
            Some(range) => range,
            None => if self.anchor <= self.focus {
                (self.anchor, self.focus)
            } else {
                (self.focus, self.anchor)
            },
        };
        let keep = self.text.len() - (b - a);
        if ins.len() > MAX_TEXT_CHARS - keep {
            return false;
        }
        self.text = splice(&self.text, a, b, &ins);
        self.anchor = a;
        self.focus = a;
        self.compose = if ins.len() > 0 {
            Some((a, a + ins.len()))
        } else {
            None
        };
        proof {
            assert(self@.text =~= old(self)@.spliced(a as nat, b as nat, s@));
        }
        true
    }

    /// Sets the composing region to bytes `a..b`, or ends composing when
    /// they designate one boundary.
    pub fn set_compose_byte_range(&mut self, a: usize, b: usize)
        requires
            old(self)@.wf(),
        ensures
            final(self)@ == old(self)@.composing_range(a as int, b as int),
            final(self)@.wf(),
    {
        let ca = self.boundary_of(a);
        let cb = self.boundary_of(b);
        self.compose = if ca < cb {
            Some((ca, cb))
        } else {
            None
        };
    }

    /// Deletes `n` bytes before the selection.
    pub fn delete_bytes_before_selection(&mut self, n: usize)
        requires
            old(self)@.wf(),
        ensures
            final(self)@ == old(self)@.deleting_before(n as int),
            final(self)@.wf(),
    {
        let s = if self.anchor <= self.focus {
            self.anchor
        } else {
            self.focus
        };
        let sb = self.byte_of(s);
        let target = if n <= sb {
            sb - n
        } else {
            0
        };
        let a = self.boundary_of(target);
        proof {
            lemma_boundary_order(self.text@, IndexUnit::Utf8, s as int, target as int);
            lemma_boundary_order(self.text@, IndexUnit::Utf8, 0, sb - n);
            lemma_boundary_order(self.text@, IndexUnit::Utf8, 0, 0);
            assert(self.text@.take(0) =~= Seq::<char>::empty());
        }
        let empty: Vec<char> = Vec::new();
        self.text = splice(&self.text, a, s, &empty);
        self.anchor = self.anchor - (s - a);
        self.focus = self.focus - (s - a);
        self.compose = None;
        proof {
            assert(self@.text =~= old(self)@.spliced(a as nat, s as nat, Seq::empty()));
        }
    }

    /// Deletes `n` bytes after the selection.
    pub fn delete_bytes_after_selection(&mut self, n: usize)
        requires
            old(self)@.wf(),
        ensures
            final(self)@ == old(self)@.deleting_after(n as int),
            final(self)@.wf(),
    {
        let e = if self.anchor <= self.focus {
            self.focus
        } else {
            self.anchor
        };
        let eb = self.byte_of(e);
        let len = self.byte_of(self.text.len());
        proof {
            lemma_fits(self.text@);
            lemma_offset_monotone(self.text@, e as int, self.text@.len() as int, IndexUnit::Utf8);
            lemma_boundary_order(self.text@, IndexUnit::Utf8, e as int, eb + n);
            lemma_boundary_order(self.text@, IndexUnit::Utf8, self.text@.len() as int, eb + n);
            lemma_boundary_order(self.text@, IndexUnit::Utf8, self.text@.len() as int, len as int);
            lemma_boundary_at(self.text@, IndexUnit::Utf8, eb + n);
            lemma_boundary_at(self.text@, IndexUnit::Utf8, len as int);
        }
        let target = if n <= len - eb {
            eb + n
        } else {
            len
        };
        let b = self.boundary_of(target);
        let empty: Vec<char> = Vec::new();
        self.text = splice(&self.text, e, b, &empty);
        self.compose = None;
        proof {
            assert(self@.text =~= old(self)@.spliced(e as nat, b as nat, Seq::empty()));
        }
    }
}

} // verus!
