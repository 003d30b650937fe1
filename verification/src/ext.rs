//! Trusted boundary to the outside crates.
//!
//! The playfield's cell storage is an `array2d::Array2D<i16>`; its contents
//! are named by the uninterpreted view `a2d_view`, and the three wrappers
//! below state over that view what the crate's source shows of
//! `filled_with`, `get` and `set`.  The next block type is drawn through
//! `rand`; nothing more than its range can be promised of it.

use vstd::prelude::*;

verus! {

#[verifier::external_type_specification]
#[verifier::external_body]
#[verifier::reject_recursive_types(T)]
pub struct ExArray2D<T>(array2d::Array2D<T>);

/// The contents of a cell array, outer index = row, inner index = column.
pub uninterp spec fn a2d_view(a: array2d::Array2D<i16>) -> Seq<Seq<i16>>;

/// Relies on array2d::Array2D::filled_with: builds a num_rows x num_columns
/// array holding `element` everywhere.
#[verifier::external_body]
pub(crate) fn a2d_filled(element: i16, num_rows: usize, num_columns: usize) -> (r: array2d::Array2D<i16>)
    requires
        num_rows <= 0x1000,
        num_columns <= 0x1000,
    ensures
        a2d_view(r).len() == num_rows,
        forall|i: int| 0 <= i < num_rows ==> (#[trigger] a2d_view(r)[i]).len() == num_columns,
        forall|i: int, j: int|
            0 <= i < num_rows && 0 <= j < num_columns ==> #[trigger] a2d_view(r)[i][j] == element,
{
    array2d::Array2D::filled_with(element, num_rows, num_columns)
}

/// Relies on array2d::Array2D::get: returns Some of the element at
/// (row, column) when both indices are in bounds.
#[verifier::external_body]
pub(crate) fn a2d_get(a: &array2d::Array2D<i16>, row: usize, column: usize) -> (r: i16)
    requires
        row < a2d_view(*a).len(),
        column < a2d_view(*a)[row as int].len(),
    ensures
        r == a2d_view(*a)[row as int][column as int],
{
    *a.get(row, column).unwrap()
}

/// Relies on array2d::Array2D::set: overwrites the element at
/// (row, column) when both indices are in bounds, Err otherwise.
#[verifier::external_body]
pub(crate) fn a2d_set(a: &mut array2d::Array2D<i16>, row: usize, column: usize, element: i16)
    requires
        row < a2d_view(*old(a)).len(),
        column < a2d_view(*old(a))[row as int].len(),
    ensures
        a2d_view(*final(a)) == a2d_view(*old(a)).update(
            row as int,
            a2d_view(*old(a))[row as int].update(column as int, element),
        ),
{
    let _ = a.set(row, column, element);
}

/// Relies on rand::random_range over the fixed non-empty range 1..7: the
/// drawn value lies inside that range; nothing else can be said of it.
#[verifier::external_body]
pub(crate) fn random_block_type() -> (r: u8)
    ensures
        1 <= r < 7,
{
    rand::random_range(1..7u8)
}

} // verus!
