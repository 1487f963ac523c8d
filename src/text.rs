//! Plain-value helpers for character sequences: reading a `str`, splicing,
//! and building a `String`.
use vstd::prelude::*;
use vstd::std_specs::iter::IteratorSpec;

verus! {

/// Relies on `String::push`: appends one character.
#[verifier::external_body]
fn push_char(s: &mut String, c: char)
    ensures
        final(s)@ == old(s)@.push(c),
{
    s.push(c)
}

/// The characters, in order, as a `String`.
pub(crate) fn string_of(chars: &[char]) -> (r: String)
    ensures
        r@ == chars@,
{
    let mut r = String::new();
    let mut i: usize = 0;
    while i < chars.len()
        invariant
            i <= chars@.len(),
            r@ == chars@.subrange(0, i as int),
        decreases chars@.len() - i,
    {
        push_char(&mut r, chars[i]);
        i = i + 1;
        proof {
            assert(r@ =~= chars@.subrange(0, i as int));
        }
    }
    proof {
        assert(chars@.subrange(0, chars@.len() as int) =~= chars@);
    }
    r
}

/// The characters of `s`, in order.
pub fn chars_of(s: &str) -> (r: Vec<char>)
    ensures
        r@ == s@,
{
    broadcast use vstd::string::axiom_spec_iter, vstd::string::next_postcondition;

    let mut it = s.chars();
    let mut r: Vec<char> = Vec::new();
    proof {
        assert(r@ + it.remaining() =~= s@);
    }
    loop
        invariant
            r@ + it.remaining() == s@,
            it.obeys_prophetic_iter_laws(),
            it.decrease() is Some,
        ensures
            r@ == s@,
        decreases it.decrease()->0,
    {
        let ghost before = it.remaining();
        match it.next() {
            Some(c) => {
                r.push(c);
                proof {
                    assert(r@ + it.remaining() =~= s@);
                }
            },
            None => {
                proof {
                    assert(r@ =~= s@);
                }
                break;
            },
        }
    }
    r
}

/// The characters `text[a..b]`.
pub fn slice_of(text: &Vec<char>, a: usize, b: usize) -> (r: Vec<char>)
    requires
        a <= b <= text@.len(),
    ensures
        r@ == text@.subrange(a as int, b as int),
{
    let mut r: Vec<char> = Vec::new();
    let mut i: usize = a;
    while i < b
        invariant
            a <= i <= b <= text@.len(),
            r@ == text@.subrange(a as int, i as int),
        decreases b - i,
    {
        r.push(text[i]);
        i = i + 1;
        proof {
            assert(r@ =~= text@.subrange(a as int, i as int));
        }
    }
    r
}

/// `text` with `text[a..b]` replaced by `ins`.
pub fn splice(text: &Vec<char>, a: usize, b: usize, ins: &Vec<char>) -> (r: Vec<char>)
    requires
        a <= b <= text@.len(),
    ensures
        r@ == text@.subrange(0, a as int) + ins@ + text@.subrange(b as int, text@.len() as int),
{
    let mut r = slice_of(text, 0, a);
    let mut i: usize = 0;
    while i < ins.len()
        invariant
            i <= ins@.len(),
            r@ == text@.subrange(0, a as int) + ins@.subrange(0, i as int),
        decreases ins@.len() - i,
    {
        r.push(ins[i]);
        i = i + 1;
        proof {
            assert(r@ =~= text@.subrange(0, a as int) + ins@.subrange(0, i as int));
        }
    }
    let ghost mid = r@;
    let mut j: usize = b;
    while j < text.len()
        invariant
            b <= j <= text@.len(),
            r@ == mid + text@.subrange(b as int, j as int),
        decreases text@.len() - j,
    {
        r.push(text[j]);
        j = j + 1;
        proof {
            assert(r@ =~= mid + text@.subrange(b as int, j as int));
        }
    }
    proof {
        assert(ins@.subrange(0, ins@.len() as int) =~= ins@);
    }
    r
}

} // verus!
