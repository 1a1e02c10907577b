use crate::cell::{blank_text, is_cell_text, Char};
use crate::error::EngineError;
use crate::geometry::{holdable, Dimension};
use vstd::prelude::*;

verus! {

/// A rectangle of cell positions, given by two half-open ranges:
/// columns `x0..x1` and rows `y0..y1`.
#[derive(Debug, Clone, Copy, PartialEq, Eq, Structural)]
pub struct Window {
    pub x0: usize,
    pub x1: usize,
    pub y0: usize,
    pub y1: usize,
}

impl Window {
    /// The number of columns in the window.
    pub open spec fn width(self) -> int {
        self.x1 - self.x0
    }

    /// The number of rows in the window.
    pub open spec fn height(self) -> int {
        self.y1 - self.y0
    }

    /// Whether position `(x, y)` lies in the window.
    pub open spec fn contains(self, x: int, y: int) -> bool {
        self.x0 <= x < self.x1 && self.y0 <= y < self.y1
    }

    /// Whether both ranges are in order and end inside a `width` by
    /// `height` grid.
    pub open spec fn within(self, width: nat, height: nat) -> bool {
        self.x0 <= self.x1 <= width && self.y0 <= self.y1 <= height
    }
}

/// The mathematical content of a region: its size and the text of each
/// cell, keyed by `(x, y)`.
#[verifier::ext_equal]
pub struct RegionView {
    pub width: nat,
    pub height: nat,
    pub cells: Map<(int, int), Seq<char>>,
}

impl RegionView {
    /// Whether position `(x, y)` lies in the grid.
    pub open spec fn contains(self, x: int, y: int) -> bool {
        0 <= x < self.width && 0 <= y < self.height
    }

    /// The text of the cell at `(x, y)`.
    pub open spec fn at(self, x: int, y: int) -> Seq<char> {
        self.cells[(x, y)]
    }

    /// The `width` by `height` grid whose cell at `(x, y)` holds `text(x, y)`.
    pub open spec fn new(width: nat, height: nat, text: spec_fn(int, int) -> Seq<char>) -> RegionView {
        RegionView {
            width,
            height,
            cells: Map::new(
                |p: (int, int)| 0 <= p.0 < width && 0 <= p.1 < height,
                |p: (int, int)| text(p.0, p.1),
            ),
        }
    }

    /// Whether the grid holds a cell for each of its positions and for
    /// nothing else.
    pub open spec fn framed(self) -> bool {
        forall|p: (int, int)| #[trigger] self.cells.dom().contains(p) <==> self.contains(p.0, p.1)
    }

    /// A grid holds a cell for each of its positions and for nothing else,
    /// every cell is one grapheme cluster, and the grid is not larger than
    /// [`crate::geometry::MAX_CELLS`].
    pub open spec fn wf(self) -> bool {
        &&& self.framed()
        &&& holdable(self.width as int, self.height as int)
        &&& forall|x: int, y: int| self.contains(x, y) ==> is_cell_text(#[trigger] self.at(x, y))
    }

    /// Two grids of the same size that hold the same cells are the same
    /// grid.
    pub proof fn lemma_same(self, other: RegionView)
        requires
            self.framed(),
            other.framed(),
            self.width == other.width,
            self.height == other.height,
            forall|x: int, y: int| self.contains(x, y) ==> #[trigger] self.at(x, y) == other.at(x, y),
        ensures
            self == other,
    {
        assert forall|p: (int, int)| self.cells.dom().contains(p) implies self.cells[p]
            == other.cells[p] by {
            assert(self.at(p.0, p.1) == other.at(p.0, p.1));
        }
        assert(self.cells =~= other.cells);
        assert(self =~= other);
    }

    /// The grid in which every cell holds `text`.
    pub open spec fn filled(width: nat, height: nat, text: Seq<char>) -> RegionView {
        RegionView::new(width, height, |x: int, y: int| text)
    }

    /// The grid in which every cell is blank.
    pub open spec fn blank(width: nat, height: nat) -> RegionView {
        RegionView::filled(width, height, blank_text())
    }

    /// This grid with the cell at `(x, y)` replaced by `text`.
    pub open spec fn put(self, x: int, y: int, text: Seq<char>) -> RegionView {
        RegionView::new(
            self.width,
            self.height,
            |i: int, j: int| if i == x && j == y { text } else { self.at(i, j) },
        )
    }

    /// This grid with every cell of row `y` replaced by `text`.
    pub open spec fn with_row(self, y: int, text: Seq<char>) -> RegionView {
        RegionView::new(
            self.width,
            self.height,
            |i: int, j: int| if j == y { text } else { self.at(i, j) },
        )
    }

    /// This grid with every cell of column `x` replaced by `text`.
    pub open spec fn with_column(self, x: int, text: Seq<char>) -> RegionView {
        RegionView::new(
            self.width,
            self.height,
            |i: int, j: int| if i == x { text } else { self.at(i, j) },
        )
    }

    /// The part of this grid that `window` selects, as a grid of its own.
    pub open spec fn crop(self, window: Window) -> RegionView {
        RegionView::new(
            window.width() as nat,
            window.height() as nat,
            |i: int, j: int| self.at(i + window.x0, j + window.y0),
        )
    }

    /// This grid with the cells of `onto` replaced, position by position,
    /// by the cells that `from` selects in `source`.
    pub open spec fn paste(self, onto: Window, source: RegionView, from: Window) -> RegionView {
        RegionView::new(
            self.width,
            self.height,
            |i: int, j: int|
                if onto.contains(i, j) {
                    source.at(i - onto.x0 + from.x0, j - onto.y0 + from.y0)
                } else {
                    self.at(i, j)
                },
        )
    }
}

/// The storage behind a region: an `ndarray::Array2` of cells whose first
/// axis is `x` and whose second axis is `y`.
///
/// Trusted: nothing inside is visible to the verifier. What it holds is
/// named by [`grid_shape`] and [`grid_cells`].
#[verifier::external_body]
#[derive(Debug)]
pub struct Grid {
    cells: ndarray::Array2<Char>,
}

/// The lengths of the two axes of `grid`: columns, then rows.
pub uninterp spec fn grid_shape(grid: Grid) -> (nat, nat);

/// The text of each cell of `grid`, keyed by `(x, y)`.
pub uninterp spec fn grid_cells(grid: Grid) -> Map<(int, int), Seq<char>>;

/// Allocates with `ndarray`'s `Array2::default((width, height))`.
///
/// Trusted: the array has that shape and every element is the default
/// cell, which is blank. The constructor panics when the product of the
/// axis lengths that are not zero overflows `isize`; the precondition keeps
/// both lengths and their product far below that.
#[verifier::external_body]
fn grid_new(width: usize, height: usize) -> (grid: Grid)
    requires
        holdable(width as int, height as int),
    ensures
        grid_shape(grid) == (width as nat, height as nat),
        forall|x: int, y: int|
            0 <= x < width && 0 <= y < height ==> #[trigger] grid_cells(grid)[(x, y)]
                == blank_text(),
{
    Grid { cells: ndarray::Array2::default((width, height)) }
}

/// Reads the shape with `ndarray`'s `dim()`.
///
/// Trusted: the pair is the lengths of axis 0 and axis 1.
#[verifier::external_body]
fn grid_dim(grid: &Grid) -> (shape: (usize, usize))
    ensures
        shape.0 == grid_shape(*grid).0,
        shape.1 == grid_shape(*grid).1,
{
    grid.cells.dim()
}

/// Borrows one element with `ndarray`'s indexing, `array[[x, y]]`.
///
/// Trusted: the element is the cell at `(x, y)`. Indexing panics outside
/// the shape, which the precondition excludes.
#[verifier::external_body]
fn grid_get(grid: &Grid, x: usize, y: usize) -> (cell: &Char)
    requires
        x < grid_shape(*grid).0,
        y < grid_shape(*grid).1,
    ensures
        cell@ == grid_cells(*grid)[(x as int, y as int)],
{
    &grid.cells[[x, y]]
}

/// Replaces one element through `ndarray`'s mutable indexing,
/// `array[[x, y]] = cell`.
///
/// Trusted: only the cell at `(x, y)` changes, and it becomes `cell`.
/// Indexing panics outside the shape, which the precondition excludes, so
/// the call does not unwind.
#[verifier::external_body]
fn grid_set(grid: &mut Grid, x: usize, y: usize, cell: Char)
    requires
        x < grid_shape(*old(grid)).0,
        y < grid_shape(*old(grid)).1,
    ensures
        grid_shape(*final(grid)) == grid_shape(*old(grid)),
        grid_cells(*final(grid)) == grid_cells(*old(grid)).insert((x as int, y as int), cell@),
    no_unwind
{
    grid.cells[[x, y]] = cell;
}

/// Overwrites every element with `ndarray`'s `fill`.
///
/// Trusted: the shape stays, every cell becomes a copy of `cell`, and the
/// call does not unwind.
#[verifier::external_body]
fn grid_fill(grid: &mut Grid, cell: Char)
    ensures
        grid_shape(*final(grid)) == grid_shape(*old(grid)),
        forall|x: int, y: int|
            0 <= x < grid_shape(*old(grid)).0 && 0 <= y < grid_shape(*old(grid)).1
                ==> #[trigger] grid_cells(*final(grid))[(x, y)] == cell@,
    no_unwind
{
    grid.cells.fill(cell);
}

/// Overwrites one lane with `ndarray`'s `index_axis_mut(Axis(axis), index)`
/// followed by `fill`.
///
/// Trusted: with `axis == 0` the lane is column `index`, with `axis == 1`
/// it is row `index`; the cells of the lane become copies of `cell` and no
/// other cell changes. `index_axis_mut` panics when the axis or the index
/// is out of bounds, which the precondition excludes, so the call does not
/// unwind.
#[verifier::external_body]
fn grid_fill_lane(grid: &mut Grid, axis: usize, index: usize, cell: Char)
    requires
        axis == 0 || axis == 1,
        axis == 0 ==> index < grid_shape(*old(grid)).0,
        axis == 1 ==> index < grid_shape(*old(grid)).1,
    ensures
        grid_shape(*final(grid)) == grid_shape(*old(grid)),
        forall|x: int, y: int|
            0 <= x < grid_shape(*old(grid)).0 && 0 <= y < grid_shape(*old(grid)).1
                ==> #[trigger] grid_cells(*final(grid))[(x, y)] == (if (axis == 0 && x == index)
                || (axis == 1 && y == index) {
                cell@
            } else {
                grid_cells(*old(grid))[(x, y)]
            }),
    no_unwind
{
    grid.cells.index_axis_mut(ndarray::Axis(axis), index).fill(cell);
}

/// Copies a window of `source` over a window of `grid` with `ndarray`'s
/// `slice_axis` / `slice_axis_inplace` on both axes, then `assign`.
///
/// Trusted: the cells of `onto` become copies of the cells that `from`
/// selects, position by position, and nothing else changes. Slicing panics
/// on a range that leaves the array, and `assign` broadcasts or panics when
/// the two shapes differ; the precondition excludes both, so the call does
/// not unwind.
#[verifier::external_body]
fn grid_assign(grid: &mut Grid, onto: Window, source: &Grid, from: Window)
    requires
        onto.within(grid_shape(*old(grid)).0, grid_shape(*old(grid)).1),
        from.within(grid_shape(*source).0, grid_shape(*source).1),
        onto.width() == from.width(),
        onto.height() == from.height(),
    ensures
        grid_shape(*final(grid)) == grid_shape(*old(grid)),
        forall|x: int, y: int|
            0 <= x < grid_shape(*old(grid)).0 && 0 <= y < grid_shape(*old(grid)).1
                ==> #[trigger] grid_cells(*final(grid))[(x, y)] == (if onto.contains(x, y) {
                grid_cells(*source)[(x - onto.x0 + from.x0, y - onto.y0 + from.y0)]
            } else {
                grid_cells(*old(grid))[(x, y)]
            }),
    no_unwind
{
    let columns = source.cells.slice_axis(ndarray::Axis(0), ndarray::Slice::from(from.x0..from.x1));
    let part = columns.slice_axis(ndarray::Axis(1), ndarray::Slice::from(from.y0..from.y1));
    let mut target = grid.cells.view_mut();
    target.slice_axis_inplace(ndarray::Axis(0), ndarray::Slice::from(onto.x0..onto.x1));
    target.slice_axis_inplace(ndarray::Axis(1), ndarray::Slice::from(onto.y0..onto.y1));
    target.assign(&part);
}

/// A dense grid of cells whose size is fixed when it is made. It serves as
/// the frame of a scene and as the visual of an object.
#[derive(Debug)]
pub struct Region {
    grid: Grid,
}

impl View for Region {
    type V = RegionView;

    closed spec fn view(&self) -> RegionView {
        RegionView::new(
            grid_shape(self.grid).0,
            grid_shape(self.grid).1,
            |x: int, y: int| grid_cells(self.grid)[(x, y)],
        )
    }
}

impl Region {
    /// What holds of every region: it is not larger than [`crate::geometry::MAX_CELLS`] and
    /// each of its cells is one grapheme cluster.
    #[verifier::type_invariant]
    pub closed spec fn inv(&self) -> bool {
        &&& holdable(grid_shape(self.grid).0 as int, grid_shape(self.grid).1 as int)
        &&& forall|x: int, y: int|
            0 <= x < grid_shape(self.grid).0 && 0 <= y < grid_shape(self.grid).1 ==> is_cell_text(
                #[trigger] grid_cells(self.grid)[(x, y)],
            )
    }

    /// The content of a region is a well-formed grid.
    pub proof fn lemma_view_wf(&self)
        requires
            self.inv(),
        ensures
            self@.wf(),
    {
    }

    /// A blank region of the given size, or `InvalidDimension` if it would
    /// hold more than [`crate::geometry::MAX_CELLS`] cells.
    pub fn new(width: usize, height: usize) -> (r: Result<Region, EngineError>)
        ensures
            match r {
                Ok(region) => holdable(width as int, height as int) && region@ == RegionView::blank(
                    width as nat,
                    height as nat,
                ),
                Err(e) => !holdable(width as int, height as int) && e == EngineError::InvalidDimension,
            },
    {
        let size = Dimension { x: width, y: height };
        if !size.is_allocatable() {
            return Err(EngineError::InvalidDimension);
        }
        let region = Region { grid: grid_new(width, height) };
        assert(region@ =~= RegionView::blank(width as nat, height as nat));
        Ok(region)
    }

    /// The number of columns.
    pub fn width(&self) -> (w: usize)
        ensures
            w == self@.width,
    {
        grid_dim(&self.grid).0
    }

    /// The number of rows.
    pub fn height(&self) -> (h: usize)
        ensures
            h == self@.height,
    {
        grid_dim(&self.grid).1
    }

    /// The size of the region.
    pub fn size(&self) -> (d: Dimension)
        ensures
            d.x == self@.width,
            d.y == self@.height,
    {
        let shape = grid_dim(&self.grid);
        Dimension { x: shape.0, y: shape.1 }
    }

    /// The cell at `(x, y)`.
    pub fn get(&self, x: usize, y: usize) -> (cell: &Char)
        requires
            self@.contains(x as int, y as int),
        ensures
            cell@ == self@.at(x as int, y as int),
    {
        grid_get(&self.grid, x, y)
    }

    /// The cells of row `y`, from left to right.
    pub fn row(&self, y: usize) -> (cells: Vec<Char>)
        requires
            y < self@.height,
        ensures
            cells@.len() == self@.width,
            forall|x: int| 0 <= x < self@.width ==> (#[trigger] cells@[x])@ == self@.at(x, y as int),
    {
        let width = self.width();
        let mut cells: Vec<Char> = Vec::new();
        let mut x: usize = 0;
        while x < width
            invariant
                x <= width,
                width == self@.width,
                y < self@.height,
                cells@.len() == x,
                forall|i: int| 0 <= i < x ==> (#[trigger] cells@[i])@ == self@.at(i, y as int),
            decreases width - x,
        {
            cells.push(self.get(x, y).clone());
            x += 1;
        }
        cells
    }

    /// The cells of column `x`, from top to bottom.
    pub fn column(&self, x: usize) -> (cells: Vec<Char>)
        requires
            x < self@.width,
        ensures
            cells@.len() == self@.height,
            forall|y: int| 0 <= y < self@.height ==> (#[trigger] cells@[y])@ == self@.at(x as int, y),
    {
        let height = self.height();
        let mut cells: Vec<Char> = Vec::new();
        let mut y: usize = 0;
        while y < height
            invariant
                y <= height,
                height == self@.height,
                x < self@.width,
                cells@.len() == y,
                forall|j: int| 0 <= j < y ==> (#[trigger] cells@[j])@ == self@.at(x as int, j),
            decreases height - y,
        {
            cells.push(self.get(x, y).clone());
            y += 1;
        }
        cells
    }

    /// Replaces the cell at `(x, y)`.
    pub fn set(&mut self, x: usize, y: usize, cell: Char)
        requires
            old(self)@.contains(x as int, y as int),
        ensures
            final(self)@ == old(self)@.put(x as int, y as int, cell@),
        no_unwind
    {
        proof {
            use_type_invariant(&*self);
            use_type_invariant(&cell);
        }
        grid_set(&mut self.grid, x, y, cell);
        assert(self@ =~= old(self)@.put(x as int, y as int, cell@));
    }

    /// Replaces every cell by a copy of `cell`.
    pub fn fill(&mut self, cell: Char)
        ensures
            final(self)@ == RegionView::filled(old(self)@.width, old(self)@.height, cell@),
        no_unwind
    {
        proof {
            use_type_invariant(&*self);
            use_type_invariant(&cell);
        }
        grid_fill(&mut self.grid, cell);
        assert(self@ =~= RegionView::filled(old(self)@.width, old(self)@.height, cell@));
    }

    /// Replaces every cell of row `y` by a copy of `cell`.
    pub fn fill_row(&mut self, y: usize, cell: Char)
        requires
            y < old(self)@.height,
        ensures
            final(self)@ == old(self)@.with_row(y as int, cell@),
        no_unwind
    {
        proof {
            use_type_invariant(&*self);
            use_type_invariant(&cell);
        }
        grid_fill_lane(&mut self.grid, 1, y, cell);
        assert(self@ =~= old(self)@.with_row(y as int, cell@));
    }

    /// Replaces every cell of column `x` by a copy of `cell`.
    pub fn fill_column(&mut self, x: usize, cell: Char)
        requires
            x < old(self)@.width,
        ensures
            final(self)@ == old(self)@.with_column(x as int, cell@),
        no_unwind
    {
        proof {
            use_type_invariant(&*self);
            use_type_invariant(&cell);
        }
        grid_fill_lane(&mut self.grid, 0, x, cell);
        assert(self@ =~= old(self)@.with_column(x as int, cell@));
    }

    /// Copies the cells that `from` selects in `source` over the cells of
    /// `onto`. The two windows must have the same shape; if they do not,
    /// nothing changes and the result is `DimensionMismatch`.
    pub fn assign(&mut self, onto: Window, source: &Region, from: Window) -> (r: Result<(), EngineError>)
        requires
            onto.within(old(self)@.width, old(self)@.height),
            from.within(source@.width, source@.height),
        ensures
            match r {
                Ok(()) => onto.width() == from.width() && onto.height() == from.height()
                    && final(self)@ == old(self)@.paste(onto, source@, from),
                Err(e) => !(onto.width() == from.width() && onto.height() == from.height())
                    && e == EngineError::DimensionMismatch && final(self)@ == old(self)@,
            },
        no_unwind
    {
        if onto.x1 - onto.x0 != from.x1 - from.x0 || onto.y1 - onto.y0 != from.y1 - from.y0 {
            return Err(EngineError::DimensionMismatch);
        }
        proof {
            use_type_invariant(&*self);
            use_type_invariant(source);
        }
        grid_assign(&mut self.grid, onto, &source.grid, from);
        assert(self@ =~= old(self)@.paste(onto, source@, from));
        Ok(())
    }

    /// A copy of the cells that `window` selects, as a region of its own.
    pub fn slice(&self, window: Window) -> (part: Region)
        requires
            window.within(self@.width, self@.height),
        ensures
            part@ == self@.crop(window),
    {
        proof {
            use_type_invariant(self);
            self.lemma_view_wf();
            assert(window.width() * window.height() <= self@.width * self@.height)
                by (nonlinear_arith)
                requires
                    0 <= window.width() <= self@.width,
                    0 <= window.height() <= self@.height,
            ;
        }
        let width = window.x1 - window.x0;
        let height = window.y1 - window.y0;
        let mut part = Region { grid: grid_new(width, height) };
        let onto = Window { x0: 0, x1: width, y0: 0, y1: height };
        grid_assign(&mut part.grid, onto, &self.grid, window);
        assert(part@ =~= self@.crop(window));
        part
    }
}

impl PartialEq for Region {
    /// Two regions are equal when they have the same size and hold the same
    /// cells.
    fn eq(&self, other: &Region) -> (r: bool) {
        let width = self.width();
        let height = self.height();
        if width != other.width() || height != other.height() {
            return false;
        }
        let mut y: usize = 0;
        while y < height
            invariant
                y <= height,
                width == self@.width == other@.width,
                height == self@.height == other@.height,
                forall|i: int, j: int|
                    0 <= i < width && 0 <= j < y ==> #[trigger] self@.at(i, j) == other@.at(i, j),
            decreases height - y,
        {
            let mut x: usize = 0;
            while x < width
                invariant
                    x <= width,
                    y < height,
                    width == self@.width == other@.width,
                    height == self@.height == other@.height,
                    forall|i: int, j: int|
                        (0 <= i < width && 0 <= j < y) || (0 <= i < x && j == y)
                            ==> #[trigger] self@.at(i, j) == other@.at(i, j),
                decreases width - x,
            {
                if self.get(x, y) != other.get(x, y) {
                    assert(self@.at(x as int, y as int) != other@.at(x as int, y as int));
                    return false;
                }
                x += 1;
            }
            y += 1;
        }
        proof {
            self@.lemma_same(other@);
        }
        true
    }
}

impl vstd::std_specs::cmp::PartialEqSpecImpl for Region {
    open spec fn obeys_eq_spec() -> bool {
        true
    }

    open spec fn eq_spec(&self, other: &Region) -> bool {
        self@ == other@
    }
}

impl Clone for Region {
    fn clone(&self) -> (copy: Region)
        ensures
            copy@ == self@,
    {
        proof {
            use_type_invariant(self);
        }
        let whole = Window { x0: 0, x1: self.width(), y0: 0, y1: self.height() };
        let copy = self.slice(whole);
        assert(copy@ =~= self@);
        copy
    }
}

} // verus!
