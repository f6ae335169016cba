//! Display-width bookkeeping for the table and menu layouts.
//!
//! Column constraints are sized by the widest cell, measured in terminal
//! columns. The measurement itself comes from the `unicode-width` crate's
//! Unicode tables and is the one thing here taken on trust; the maximum
//! over the cells, and the narrowing to `u16` that the layout types use,
//! are verified.

use vstd::prelude::*;
use crate::lex::views;
use unicode_width::UnicodeWidthStr;

verus! {

/// The terminal display width of a string, as the Unicode width rules
/// (east-asian widths, combining marks, ligatures) define it. A function of
/// the character sequence alone.
pub uninterp spec fn display_width(s: Seq<char>) -> usize;

/// Relies on `unicode_width::UnicodeWidthStr::width`: the display width of
/// a string, computed from its characters alone; an empty string has
/// width 0.
#[verifier::external_body]
fn text_width(s: &str) -> (r: usize)
    ensures
        r == display_width(s@),
        s@.len() == 0 ==> r == 0,
{
    UnicodeWidthStr::width(s)
}

/// The widest display width among the items, 0 when there are none.
pub open spec fn max_display_width(items: Seq<Seq<char>>) -> int
    decreases items.len(),
{
    if items.len() == 0 {
        0
    } else {
        let rest = max_display_width(items.drop_last());
        let w = display_width(items.last()) as int;
        if w > rest {
            w
        } else {
            rest
        }
    }
}

/// The widest display width among the strings, narrowed to `u16` as the
/// layout constraints require.
fn max_width_u16(items: &Vec<String>) -> (r: u16)
    ensures
        r as int == max_display_width(views(items@)) % 0x10000,
{
    let mut best: usize = 0;
    let mut i: usize = 0;
    proof {
        assert(views(items@.subrange(0, 0)) =~= Seq::<Seq<char>>::empty());
    }
    while i < items.len()
        invariant
            i <= items@.len(),
            best as int == max_display_width(views(items@.subrange(0, i as int))),
        decreases items@.len() - i,
    {
        let w = text_width(items[i].as_str());
        proof {
            let pre = views(items@.subrange(0, i as int));
            let cur = views(items@.subrange(0, i + 1));
            assert(items@.subrange(0, i + 1).drop_last() =~= items@.subrange(0, i as int));
            assert(cur.drop_last() =~= pre);
            assert(cur.last() == items@[i as int]@);
        }
        if w > best {
            best = w;
        }
        i = i + 1;
    }
    proof {
        assert(items@.subrange(0, items@.len() as int) =~= items@);
        assert(best as int == max_display_width(views(items@)));
        assert(((best as u16) as int) == (best as int) % 0x10000) by (bit_vector);
    }
    #[verifier::truncate] (best as u16)
}

/// The width of the widest menu entry, for the menu column constraint.
pub fn menu_item_len_calculator(items: &Vec<String>) -> (r: u16)
    ensures
        r as int == max_display_width(views(items@)) % 0x10000,
{
    max_width_u16(items)
}

/// Per record, the width of its widest field, for the table column
/// constraints.
pub fn constraint_len_calculator(items: &Vec<Vec<String>>) -> (r: Vec<u16>)
    ensures
        r@.len() == items@.len(),
        forall|i: int|
            0 <= i < items@.len() ==> #[trigger] r@[i] as int == max_display_width(
                views(items@[i]@),
            ) % 0x10000,
{
    let mut res: Vec<u16> = Vec::new();
    let mut i: usize = 0;
    while i < items.len()
        invariant
            i <= items@.len(),
            res@.len() == i,
            forall|k: int|
                0 <= k < i ==> #[trigger] res@[k] as int == max_display_width(views(items@[k]@))
                    % 0x10000,
        decreases items@.len() - i,
    {
        let w = max_width_u16(&items[i]);
        res.push(w);
        i = i + 1;
    }
    res
}

} // verus!
