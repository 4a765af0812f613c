//! Laying out lists of names in columns.
use vstd::prelude::*;

verus! {

/// The number of columns that `text` takes on a terminal, as
/// `unicode_width::UnicodeWidthStr::width` counts them.
pub uninterp spec fn width_of(text: Seq<char>) -> nat;

/// Calls `unicode_width::UnicodeWidthStr::width` on the text. No claim is
/// proved of it: the result is taken to be [`width_of`] of the text.
#[verifier::external_body]
fn display_width(text: &String) -> (r: usize)
    ensures
        r == width_of(text@),
{
    unicode_width::UnicodeWidthStr::width(text.as_str())
}

/// Whether `width` is the width of a column that holds each of `items`: the
/// greatest of their widths, and nothing where there is no item.
pub open spec fn is_column_width(items: Seq<String>, width: nat) -> bool {
    &&& forall|i: int| 0 <= i < items.len() ==> width_of((#[trigger] items[i])@) <= width
    &&& (items.len() == 0 ==> width == 0)
    &&& (items.len() > 0 ==> exists|i: int| 0 <= i < items.len() && width_of((#[trigger] items[i])@) == width)
}

/// The width of the column that holds each of `items`.
pub fn column_width(items: &Vec<String>) -> (r: usize)
    ensures
        is_column_width(items@, r as nat),
{
    let mut width: usize = 0;
    let mut i: usize = 0;
    while i < items.len()
        invariant
            i <= items.len(),
            is_column_width(items@.take(i as int), width as nat),
        decreases items.len() - i,
    {
        let w: usize = display_width(&items[i]);
        let ghost before = items@.take(i as int);
        let ghost after = items@.take(i as int + 1);
        let ghost old_width = width;
        if w > width {
            width = w;
        }
        proof {
            assert(after[i as int] == items@[i as int]);
            assert forall|j: int| 0 <= j < after.len() implies width_of((#[trigger] after[j])@) <= width by {
                if j < i {
                    assert(after[j] == before[j]);
                }
            }
            if w <= old_width && i > 0 {
                let j = choose|j: int| 0 <= j < before.len() && width_of((#[trigger] before[j])@) == old_width;
                assert(after[j] == before[j]);
            }
        }
        i += 1;
    }
    proof {
        assert(items@.take(items.len() as int) =~= items@);
    }
    width
}

} // verus!
