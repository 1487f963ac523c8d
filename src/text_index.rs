//! Offsets into a text in three index spaces: UTF-8 bytes, UTF-16 code units
//! and Unicode scalar values. A conversion walks the characters from the
//! start, as the IME protocol expects.
use vstd::prelude::*;

verus! {

/// The unit in which an offset into a text is counted.
#[derive(Clone, Copy, Debug, PartialEq, Eq, Structural)]
pub enum IndexUnit {
    /// UTF-8 bytes: the native text model.
    Utf8,
    /// UTF-16 code units: the platform's IME protocol.
    Utf16,
    /// Unicode scalar values: the code-point deletion calls.
    Scalar,
}

/// The number of units that one character takes.
pub open spec fn char_width(c: char, unit: IndexUnit) -> nat {
    match unit {
        IndexUnit::Utf8 => if (c as u32) < 0x80 {
            1
        } else if (c as u32) < 0x800 {
            2
        } else if (c as u32) < 0x10000 {
            3
        } else {
            4
        },
        IndexUnit::Utf16 => if (c as u32) < 0x10000 {
            1
        } else {
            2
        },
        IndexUnit::Scalar => 1,
    }
}

/// The number of units that a whole character sequence takes.
pub open spec fn units(s: Seq<char>, unit: IndexUnit) -> nat
    decreases s.len(),
{
    if s.len() == 0 {
        0
    } else {
        units(s.drop_last(), unit) + char_width(s.last(), unit)
    }
}

/// The offset, in `unit`, of the boundary before character `k`.
pub open spec fn offset_of(s: Seq<char>, k: int, unit: IndexUnit) -> nat {
    units(s.take(k), unit)
}

/// Starting the walk at character `k`: the first boundary whose offset in
/// `unit` reaches `target`, or the end of the text.
pub open spec fn boundary_from(s: Seq<char>, unit: IndexUnit, target: int, k: nat) -> nat
    decreases s.len() - k,
{
    if k >= s.len() || offset_of(s, k as int, unit) >= target {
        k
    } else {
        boundary_from(s, unit, target, k + 1)
    }
}

/// The character boundary that an offset in `unit` designates: the first one
/// at or after it, or the end of the text.
pub open spec fn boundary_at(s: Seq<char>, unit: IndexUnit, target: int) -> nat {
    boundary_from(s, unit, target, 0)
}

/// An offset in unit `from` translated to unit `to`.
pub open spec fn convert(s: Seq<char>, from: IndexUnit, to: IndexUnit, index: int) -> nat {
    offset_of(s, boundary_at(s, from, index) as int, to)
}

/// Starting the walk at character `k`: the last boundary whose offset in
/// `unit` does not pass `target`, or `k` itself when the next one passes it.
pub open spec fn floor_from(s: Seq<char>, unit: IndexUnit, target: int, k: nat) -> nat
    decreases s.len() - k,
{
    if k >= s.len() || offset_of(s, k + 1 as int, unit) > target {
        k
    } else {
        floor_from(s, unit, target, k + 1)
    }
}

/// The last character boundary whose offset in `unit` is at most `target`
/// (the start of the text when `target` is negative).
pub open spec fn floor_boundary(s: Seq<char>, unit: IndexUnit, target: int) -> nat {
    floor_from(s, unit, target, 0)
}

/// The texts whose lengths fit in `usize` in every unit.
pub open spec fn fits(s: Seq<char>) -> bool {
    units(s, IndexUnit::Utf8) <= usize::MAX
}

/// The width in `unit` of one character.
pub fn width_of(c: char, unit: IndexUnit) -> (r: usize)
    ensures
        r == char_width(c, unit),
{
    let u = c as u32;
    match unit {
        IndexUnit::Utf8 => if u < 0x80 {
            1
        } else if u < 0x800 {
            2
        } else if u < 0x10000 {
            3
        } else {
            4
        },
        IndexUnit::Utf16 => if u < 0x10000 {
            1
        } else {
            2
        },
        IndexUnit::Scalar => 1,
    }
}

pub proof fn lemma_take_succ(s: Seq<char>, k: int, unit: IndexUnit)
    requires
        0 <= k < s.len(),
    ensures
        offset_of(s, k + 1, unit) == offset_of(s, k, unit) + char_width(s[k], unit),
{
    assert(s.take(k + 1).drop_last() =~= s.take(k));
}

pub proof fn lemma_width_bounds(c: char, unit: IndexUnit)
    ensures
        1 <= char_width(c, unit) <= char_width(c, IndexUnit::Utf8),
{
}

/// Offsets grow strictly with the character count, and the UTF-8 offset is
/// the largest of the three.
pub proof fn lemma_offset_monotone(s: Seq<char>, j: int, k: int, unit: IndexUnit)
    requires
        0 <= j <= k <= s.len(),
    ensures
        offset_of(s, j, unit) + (k - j) <= offset_of(s, k, unit),
        offset_of(s, k, unit) - offset_of(s, j, unit) <= offset_of(s, k, IndexUnit::Utf8)
            - offset_of(s, j, IndexUnit::Utf8),
        offset_of(s, k, unit) <= units(s, IndexUnit::Utf8),
    decreases k - j,
{
    if j < k {
        lemma_offset_monotone(s, j, k - 1, unit);
        lemma_take_succ(s, k - 1, unit);
        lemma_take_succ(s, k - 1, IndexUnit::Utf8);
        lemma_width_bounds(s[k - 1], unit);
    }
    lemma_offset_utf8_le_total(s, k);
    lemma_offset_monotone_utf8_le(s, k, unit);
}

proof fn lemma_offset_monotone_utf8_le(s: Seq<char>, k: int, unit: IndexUnit)
    requires
        0 <= k <= s.len(),
    ensures
        offset_of(s, k, unit) <= offset_of(s, k, IndexUnit::Utf8),
    decreases k,
{
    if k > 0 {
        lemma_offset_monotone_utf8_le(s, k - 1, unit);
        lemma_take_succ(s, k - 1, unit);
        lemma_take_succ(s, k - 1, IndexUnit::Utf8);
        lemma_width_bounds(s[k - 1], unit);
    }
}

proof fn lemma_offset_utf8_le_total(s: Seq<char>, k: int)
    requires
        0 <= k <= s.len(),
    ensures
        offset_of(s, k, IndexUnit::Utf8) <= units(s, IndexUnit::Utf8),
    decreases s.len() - k,
{
    if k < s.len() {
        lemma_offset_utf8_le_total(s, k + 1);
        lemma_take_succ(s, k, IndexUnit::Utf8);
    } else {
        assert(s.take(k) =~= s);
    }
}

/// The walk from `j` ends at `k` when every boundary in between falls short
/// of the target and `k` reaches it (or is the end).
proof fn lemma_boundary_from(s: Seq<char>, unit: IndexUnit, target: int, j: nat, k: nat)
    requires
        j <= k <= s.len(),
        forall|m: int| j <= m < k ==> offset_of(s, m, unit) < target,
        k == s.len() || offset_of(s, k as int, unit) >= target,
    ensures
        boundary_from(s, unit, target, j) == k,
    decreases k - j,
{
    if j < k {
        lemma_boundary_from(s, unit, target, j + 1, k);
    }
}

/// The boundary that an offset designates lies within the text, and the
/// offset of every earlier boundary falls short of it.
pub proof fn lemma_boundary_at(s: Seq<char>, unit: IndexUnit, target: int)
    ensures
        boundary_at(s, unit, target) <= s.len(),
        boundary_at(s, unit, target) == s.len() || offset_of(
            s,
            boundary_at(s, unit, target) as int,
            unit,
        ) >= target,
        forall|m: int|
            0 <= m < boundary_at(s, unit, target) ==> offset_of(s, m, unit) < target,
{
    lemma_boundary_from_facts(s, unit, target, 0);
}

proof fn lemma_boundary_from_facts(s: Seq<char>, unit: IndexUnit, target: int, j: nat)
    requires
        j <= s.len(),
    ensures
        j <= boundary_from(s, unit, target, j) <= s.len(),
        boundary_from(s, unit, target, j) == s.len() || offset_of(
            s,
            boundary_from(s, unit, target, j) as int,
            unit,
        ) >= target,
        forall|m: int|
            j <= m < boundary_from(s, unit, target, j) ==> offset_of(s, m, unit) < target,
    decreases s.len() - j,
{
    if j < s.len() && offset_of(s, j as int, unit) < target {
        lemma_boundary_from_facts(s, unit, target, j + 1);
    }
}

/// An offset that lies on a character boundary designates that boundary.
pub proof fn lemma_boundary_of_offset(s: Seq<char>, unit: IndexUnit, k: int)
    requires
        0 <= k <= s.len(),
    ensures
        boundary_at(s, unit, offset_of(s, k, unit) as int) == k,
{
    assert forall|m: int| 0 <= m < k implies offset_of(s, m, unit) < offset_of(s, k, unit) by {
        lemma_offset_monotone(s, m, k, unit);
    }
    lemma_boundary_from(s, unit, offset_of(s, k, unit) as int, 0, k as nat);
}

/// The last boundary at or before an offset lies within the text, is at
/// or after every boundary whose offset does not pass the target, and (for
/// a target that is not negative) does not pass it itself.
pub proof fn lemma_floor_boundary(s: Seq<char>, unit: IndexUnit, target: int, k: int)
    requires
        0 <= k <= s.len(),
    ensures
        floor_boundary(s, unit, target) <= s.len(),
        target >= 0 ==> offset_of(s, floor_boundary(s, unit, target) as int, unit) <= target,
        offset_of(s, k, unit) <= target ==> k <= floor_boundary(s, unit, target),
        floor_boundary(s, unit, target) == s.len() || offset_of(
            s,
            floor_boundary(s, unit, target) + 1 as int,
            unit,
        ) > target,
{
    assert(s.take(0) =~= Seq::<char>::empty());
    lemma_floor_from_facts(s, unit, target, 0);
    let f = floor_boundary(s, unit, target) as int;
    if offset_of(s, k, unit) <= target && k > f {
        lemma_offset_monotone(s, f + 1, k, unit);
    }
}

proof fn lemma_floor_from_facts(s: Seq<char>, unit: IndexUnit, target: int, j: nat)
    requires
        j <= s.len(),
    ensures
        j <= floor_from(s, unit, target, j) <= s.len(),
        offset_of(s, j as int, unit) <= target ==> offset_of(
            s,
            floor_from(s, unit, target, j) as int,
            unit,
        ) <= target,
        floor_from(s, unit, target, j) == s.len() || offset_of(
            s,
            floor_from(s, unit, target, j) + 1 as int,
            unit,
        ) > target,
    decreases s.len() - j,
{
    if j < s.len() && offset_of(s, j + 1 as int, unit) <= target {
        lemma_floor_from_facts(s, unit, target, j + 1);
    }
}

/// The units of the characters between two boundaries are the difference
/// of their offsets.
pub proof fn lemma_units_between(s: Seq<char>, a: int, b: int, unit: IndexUnit)
    requires
        0 <= a <= b <= s.len(),
    ensures
        units(s.subrange(a, b), unit) == offset_of(s, b, unit) - offset_of(s, a, unit),
    decreases b - a,
{
    if a == b {
        assert(s.subrange(a, b) =~= Seq::<char>::empty());
    } else {
        lemma_units_between(s, a, b - 1, unit);
        assert(s.subrange(a, b).drop_last() =~= s.subrange(a, b - 1));
        lemma_take_succ(s, b - 1, unit);
    }
}

/// Translating an offset that lies on a character boundary to another unit
/// and back gives the offset again; in particular UTF-8 to UTF-16 and back,
/// and UTF-8 to scalar values and back.
pub proof fn lemma_round_trip(s: Seq<char>, from: IndexUnit, to: IndexUnit, k: int)
    requires
        0 <= k <= s.len(),
    ensures
        convert(s, to, from, convert(s, from, to, offset_of(s, k, from) as int) as int)
            == offset_of(s, k, from),
{
    lemma_boundary_of_offset(s, from, k);
    lemma_boundary_of_offset(s, to, k);
}

/// Counting in scalar values, the offset of a boundary is its position.
pub proof fn lemma_scalar_offset(s: Seq<char>, k: int)
    requires
        0 <= k <= s.len(),
    ensures
        offset_of(s, k, IndexUnit::Scalar) == k,
    decreases k,
{
    if k == 0 {
        assert(s.take(0) =~= Seq::<char>::empty());
    } else {
        lemma_scalar_offset(s, k - 1);
        lemma_take_succ(s, k - 1, IndexUnit::Scalar);
    }
}

/// The boundary of an offset at or before boundary `k` is at or before `k`;
/// of one at or after it, at or after `k`.
pub proof fn lemma_boundary_order(s: Seq<char>, unit: IndexUnit, k: int, t: int)
    requires
        0 <= k <= s.len(),
    ensures
        t <= offset_of(s, k, unit) ==> boundary_at(s, unit, t) <= k,
        t >= offset_of(s, k, unit) ==> boundary_at(s, unit, t) >= k,
{
    lemma_boundary_at(s, unit, t);
    let m = boundary_at(s, unit, t) as int;
    if t >= offset_of(s, k, unit) && m < k {
        lemma_offset_monotone(s, m, k, unit);
    }
}

/// Translates `index`, counted in `from`, to the offset in `to` of the
/// boundary it designates.
pub fn convert_index(text: &Vec<char>, from: IndexUnit, to: IndexUnit, index: usize) -> (r: usize)
    requires
        fits(text@),
    ensures
        r == convert(text@, from, to, index as int),
{
    let ghost s = text@;
    let mut k: usize = 0;
    let mut from_acc: usize = 0;
    let mut to_acc: usize = 0;
    proof {
        assert(s.take(0) =~= Seq::<char>::empty());
    }
    while k < text.len()
        invariant
            k <= s.len(),
            s == text@,
            fits(s),
            from_acc == offset_of(s, k as int, from),
            to_acc == offset_of(s, k as int, to),
            boundary_at(s, from, index as int) == boundary_from(s, from, index as int, k as nat),
        ensures
            k <= s.len(),
            from_acc == offset_of(s, k as int, from),
            to_acc == offset_of(s, k as int, to),
            boundary_at(s, from, index as int) == boundary_from(s, from, index as int, k as nat),
            k == s.len() || from_acc >= index,
        decreases s.len() - k,
    {
        if from_acc >= index {
            break;
        }
        let c = text[k];
        proof {
            lemma_take_succ(s, k as int, from);
            lemma_take_succ(s, k as int, to);
            lemma_offset_monotone(s, k as int + 1, k as int + 1, from);
            lemma_offset_monotone(s, k as int + 1, k as int + 1, to);
        }
        from_acc = from_acc + width_of(c, from);
        to_acc = to_acc + width_of(c, to);
        k = k + 1;
    }
    proof {
        assert(boundary_from(s, from, index as int, k as nat) == k);
    }
    to_acc
}

/// Translates `index`, counted in `from`, to the offset in `to` of the last
/// boundary at or before it.
pub fn floor_index(text: &Vec<char>, from: IndexUnit, to: IndexUnit, index: usize) -> (r: usize)
    requires
        fits(text@),
    ensures
        r == offset_of(text@, floor_boundary(text@, from, index as int) as int, to),
{
    let ghost s = text@;
    let mut k: usize = 0;
    let mut from_acc: usize = 0;
    let mut to_acc: usize = 0;
    proof {
        assert(s.take(0) =~= Seq::<char>::empty());
    }
    while k < text.len()
        invariant
            k <= s.len(),
            s == text@,
            fits(s),
            from_acc == offset_of(s, k as int, from),
            to_acc == offset_of(s, k as int, to),
            floor_boundary(s, from, index as int) == floor_from(s, from, index as int, k as nat),
        ensures
            k <= s.len(),
            to_acc == offset_of(s, k as int, to),
            floor_boundary(s, from, index as int) == floor_from(s, from, index as int, k as nat),
            k == s.len() || offset_of(s, k + 1 as int, from) > index,
        decreases s.len() - k,
    {
        let c = text[k];
        proof {
            lemma_take_succ(s, k as int, from);
            lemma_take_succ(s, k as int, to);
            lemma_offset_monotone(s, k as int + 1, k as int + 1, from);
            lemma_offset_monotone(s, k as int + 1, k as int + 1, to);
        }
        let w = width_of(c, from);
        if from_acc > index || w > index - from_acc {
            break;
        }
        from_acc = from_acc + w;
        to_acc = to_acc + width_of(c, to);
        k = k + 1;
    }
    proof {
        assert(floor_from(s, from, index as int, k as nat) == k);
    }
    to_acc
}

} // verus!
