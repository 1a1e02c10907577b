use crate::cell::{blank_text, Char};
use crate::error::EngineError;
use crate::geometry::{holdable, Coordinate, Dimension};
use crate::region::{Region, RegionView};
use vstd::prelude::*;

verus! {

/// The character that shapes are drawn with.
pub const MARKER: char = 'X';

/// The text of a cell that belongs to a shape.
pub open spec fn marker_text() -> Seq<char> {
    seq![MARKER]
}

/// Whether `(x, y)` lies on the edge of a `width` by `height` grid.
pub open spec fn on_border(width: nat, height: nat, x: int, y: int) -> bool {
    x == 0 || x == width - 1 || y == 0 || y == height - 1
}

/// The hollow rectangle: marker cells on the edge, blank cells inside.
pub open spec fn outline(width: nat, height: nat) -> RegionView {
    RegionView::new(
        width,
        height,
        |x: int, y: int|
            if on_border(width, height, x, y) {
                marker_text()
            } else {
                blank_text()
            },
    )
}

/// Whether a rectangle of this size can be built: it has a column, its
/// first and last rows are distinct, and it is not larger than
/// [`crate::geometry::MAX_CELLS`].
pub open spec fn rectangle_size_ok(size: Dimension) -> bool {
    size.x >= 1 && size.y >= 2 && size.fits()
}

/// The number of cells a line covers along an axis on which it is
/// displaced by `delta`.
pub open spec fn extent(delta: int) -> int {
    if delta < 0 {
        1 - delta
    } else {
        1 + delta
    }
}

/// Computes [`extent`].
fn extent_of(delta: i32) -> (cells: usize)
    ensures
        cells == extent(delta as int),
{
    if delta < 0 {
        (1 - (delta as i64)) as usize
    } else {
        (1 + (delta as i64)) as usize
    }
}

/// Builds the outline of a `size.x` by `size.y` rectangle: the first and
/// last row and the first and last column hold marker cells, everything
/// inside is blank.
///
/// Fails with `InvalidDimension` exactly when `size` has no column, fewer
/// than two rows, or more than [`crate::geometry::MAX_CELLS`] cells.
pub fn rectangle(size: Dimension) -> (r: Result<Region, EngineError>)
    ensures
        match r {
            Ok(region) => rectangle_size_ok(size) && region@ == outline(size.x as nat, size.y as nat),
            Err(e) => !rectangle_size_ok(size) && e == EngineError::InvalidDimension,
        },
{
    if size.x == 0 || size.y < 2 {
        return Err(EngineError::InvalidDimension);
    }
    let mut region = match Region::new(size.x, size.y) {
        Ok(region) => region,
        Err(e) => {
            return Err(e);
        },
    };
    region.fill_row(0, Char::from(MARKER));
    region.fill_row(size.y - 1, Char::from(MARKER));
    region.fill_column(0, Char::from(MARKER));
    region.fill_column(size.x - 1, Char::from(MARKER));
    assert(region@ =~= outline(size.x as nat, size.y as nat));
    Ok(region)
}

/// Builds the bounding box of a line from the origin to `vector`: a grid
/// of `|vector.x| + 1` by `|vector.y| + 1` cells, every one a marker cell.
/// Lines that are not parallel to an axis are not traced; they fill their
/// bounding box.
///
/// Fails with `InvalidDimension` exactly when the box would hold more than
/// [`crate::geometry::MAX_CELLS`] cells.
pub fn draw_line(vector: Coordinate) -> (r: Result<Region, EngineError>)
    ensures
        match r {
            Ok(region) => holdable(extent(vector.x as int), extent(vector.y as int))
                && region@ == RegionView::filled(
                extent(vector.x as int) as nat,
                extent(vector.y as int) as nat,
                marker_text(),
            ),
            Err(e) => !holdable(extent(vector.x as int), extent(vector.y as int)) && e
                == EngineError::InvalidDimension,
        },
{
    let width = extent_of(vector.x);
    let height = extent_of(vector.y);
    let mut region = match Region::new(width, height) {
        Ok(region) => region,
        Err(e) => {
            return Err(e);
        },
    };
    region.fill(Char::from(MARKER));
    Ok(region)
}

} // verus!
