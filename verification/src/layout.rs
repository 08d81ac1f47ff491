//! Rows that record the memory layout (`size_of` / `align_of`) of a type.
//! They always pass: they record what the target does, so that a `#[repr]`
//! or padding surprise shows up in the table.

use crate::decimal::{
    decimal, decimal_string, digit_count, is_digit, lemma_decimal_is_the_numeral, numeral_value,
};
use crate::report::{ok, row_text, Check};
use vstd::prelude::*;

verus! {

/// The text `<size> / <align>` for a type of the given size and alignment.
pub open spec fn layout_text(size: nat, align: nat) -> Seq<char> {
    decimal(size) + " / "@ + decimal(align)
}

/// A layout text reads back as the two numbers it records: the digits of
/// the size, then ` / `, then the digits of the alignment.
pub proof fn lemma_layout_text_reads_back(size: nat, align: nat)
    ensures
        ({
            let t = layout_text(size, align);
            let k = digit_count(size) as int;
            &&& t.len() == k + 3 + digit_count(align)
            &&& forall|i: int| 0 <= i < k ==> is_digit(#[trigger] t[i])
            &&& numeral_value(t.subrange(0, k)) == size
            &&& t.subrange(k, k + 3) == seq![' ', '/', ' ']
            &&& forall|i: int| k + 3 <= i < t.len() ==> is_digit(#[trigger] t[i])
            &&& numeral_value(t.subrange(k + 3, t.len() as int)) == align
        }),
{
    reveal_strlit(" / ");
    lemma_decimal_is_the_numeral(size);
    lemma_decimal_is_the_numeral(align);
    let t = layout_text(size, align);
    let k = digit_count(size) as int;
    assert(t.subrange(0, k) =~= decimal(size));
    assert(t.subrange(k, k + 3) =~= seq![' ', '/', ' ']);
    assert(t.subrange(k + 3, t.len() as int) =~= decimal(align));
    assert forall|i: int| 0 <= i < k implies is_digit(#[trigger] t[i]) by {
        assert(t[i] == decimal(size)[i]);
    }
    assert forall|i: int| k + 3 <= i < t.len() implies is_digit(#[trigger] t[i]) by {
        assert(t[i] == decimal(align)[i - k - 3]);
    }
}

/// The row that records the size and alignment of `T` under `name`.
pub fn rec<T>(name: &str) -> (c: Check)
    ensures
        c.pass,
        c.expected@ == "size / align"@,
        c.got@ == layout_text(vstd::layout::size_of::<T>(), vstd::layout::align_of::<T>()),
        c.row@ == row_text(name@, ""@, "size / align"@, c.got@, true),
{
    let size = core::mem::size_of::<T>();
    let align = core::mem::align_of::<T>();
    let mut got = decimal_string(size);
    got.append(" / ");
    got.append(decimal_string(align).as_str());
    ok(name, "", "size / align", got.as_str(), true)
}

} // verus!
