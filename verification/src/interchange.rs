use crate::cell::{cell_text, Char};
use crate::error::EngineError;
use crate::geometry::holdable;
use crate::json::{json_rows, json_text, parse_rows, print_rows};
use crate::region::{Region, RegionView};
use vstd::prelude::*;

verus! {

/// A region as it is handed around outside the program: an array of rows,
/// top to bottom, each an array of the texts of its cells, left to right.
pub open spec fn encode_rows(region: RegionView) -> Seq<Seq<Seq<char>>> {
    Seq::new(region.height, |y: int| Seq::new(region.width, |x: int| region.at(x, y)))
}

/// The width that `rows` stand for: the length of the first row.
pub open spec fn rows_width(rows: Seq<Seq<Seq<char>>>) -> nat {
    if rows.len() == 0 {
        0
    } else {
        rows[0].len()
    }
}

/// Whether all rows have the same length.
pub open spec fn rectangular(rows: Seq<Seq<Seq<char>>>) -> bool {
    forall|y: int| 0 <= y < rows.len() ==> (#[trigger] rows[y]).len() == rows_width(rows)
}

/// Whether the text at column `x` of row `y` can be the text of a cell.
pub open spec fn cell_ok(rows: Seq<Seq<Seq<char>>>, x: int, y: int) -> bool {
    cell_text(rows[y][x]) is Some
}

/// Whether every text in `rows` can be the text of a cell.
pub open spec fn cells_ok(rows: Seq<Seq<Seq<char>>>) -> bool {
    forall|x: int, y: int| 0 <= y < rows.len() && 0 <= x < rows[y].len() ==> cell_ok(rows, x, y)
}

/// Whether `rows` have a shape that a region can have.
pub open spec fn shape_ok(rows: Seq<Seq<Seq<char>>>) -> bool {
    rectangular(rows) && holdable(rows_width(rows) as int, rows.len() as int)
}

/// Whether `rows` stand for a region.
pub open spec fn decodable(rows: Seq<Seq<Seq<char>>>) -> bool {
    shape_ok(rows) && cells_ok(rows)
}

/// The region that `rows` stand for. An empty text stands for a blank
/// cell.
pub open spec fn decoded(rows: Seq<Seq<Seq<char>>>) -> RegionView {
    RegionView::new(
        rows_width(rows),
        rows.len(),
        |x: int, y: int| cell_text(rows[y][x]).unwrap(),
    )
}

/// Whether the cell of `region` at `(x, y)` holds what `rows` say it holds.
pub open spec fn read_at(rows: Seq<Seq<Seq<char>>>, region: RegionView, x: int, y: int) -> bool {
    cell_ok(rows, x, y) && region.at(x, y) == cell_text(rows[y][x]).unwrap()
}

/// Whether `(x, y)` is the first text, reading row by row, that cannot be
/// the text of a cell.
pub open spec fn first_refused(rows: Seq<Seq<Seq<char>>>, x: int, y: int) -> bool {
    &&& 0 <= y < rows.len()
    &&& 0 <= x < rows[y].len()
    &&& !cell_ok(rows, x, y)
    &&& forall|i: int, j: int|
        (0 <= j < y && 0 <= i < rows[j].len()) || (j == y && 0 <= i < x) ==> cell_ok(rows, i, j)
}

/// What decoding `rows` answers: the region they stand for; or
/// `InvalidDimension` if they have no shape that a region can have; or else
/// a `Construction` error with the first text that no cell can hold.
pub open spec fn decodes_to(rows: Seq<Seq<Seq<char>>>, r: Result<Region, EngineError>) -> bool {
    match r {
        Ok(region) => decodable(rows) && region@ == decoded(rows),
        Err(EngineError::InvalidDimension) => !shape_ok(rows),
        Err(EngineError::Construction(refused)) => shape_ok(rows) && exists|x: int, y: int|
            first_refused(rows, x, y) && refused.text@ == rows[y][x],
        Err(_) => false,
    }
}

/// Encoding a region and decoding the result gives the region back, with
/// the same size and the same cells. A region that has columns but no rows
/// is left out: rows cannot tell how wide it is.
pub proof fn lemma_decode_encode(region: RegionView)
    requires
        region.wf(),
        region.height > 0 || region.width == 0,
    ensures
        decodable(encode_rows(region)),
        decoded(encode_rows(region)) == region,
{
    let rows = encode_rows(region);
    assert forall|x: int, y: int| 0 <= y < rows.len() && 0 <= x < rows[y].len() implies cell_ok(
        rows,
        x,
        y,
    ) && cell_text(rows[y][x]).unwrap() == region.at(x, y) by {
        assert(rows[y][x] == region.at(x, y));
    }
    decoded(rows).lemma_same(region);
}

/// What rows decode to is a well-formed region, and encoding it and
/// decoding the result gives the same region again.
pub proof fn lemma_decoded_round_trip(rows: Seq<Seq<Seq<char>>>)
    requires
        decodable(rows),
    ensures
        decoded(rows).wf(),
        decodable(encode_rows(decoded(rows))),
        decoded(encode_rows(decoded(rows))) == decoded(rows),
{
    let region = decoded(rows);
    assert forall|x: int, y: int| region.contains(x, y) implies crate::cell::is_cell_text(
        #[trigger] region.at(x, y),
    ) by {
        assert(cell_ok(rows, x, y));
    }
    lemma_decode_encode(region);
}

/// Writes `region` out as rows of cell texts.
pub fn encode(region: &Region) -> (rows: Vec<Vec<String>>)
    ensures
        rows.deep_view() == encode_rows(region@),
{
    let width = region.width();
    let height = region.height();
    let mut rows: Vec<Vec<String>> = Vec::new();
    let mut y: usize = 0;
    while y < height
        invariant
            y <= height,
            width == region@.width,
            height == region@.height,
            rows@.len() == y,
            forall|j: int| 0 <= j < y ==> (#[trigger] rows@[j]).deep_view() == encode_rows(region@)[j],
        decreases height - y,
    {
        let mut row: Vec<String> = Vec::new();
        let mut x: usize = 0;
        while x < width
            invariant
                x <= width,
                y < height,
                width == region@.width,
                height == region@.height,
                row@.len() == x,
                forall|i: int| 0 <= i < x ==> (#[trigger] row@[i])@ == region@.at(i, y as int),
            decreases width - x,
        {
            row.push(region.get(x, y).to_string());
            x += 1;
        }
        assert(row.deep_view() =~= encode_rows(region@)[y as int]);
        rows.push(row);
        y += 1;
    }
    assert(rows.deep_view() =~= encode_rows(region@));
    rows
}

/// Reads a region from rows of cell texts.
///
/// Fails with `InvalidDimension` if the rows differ in length or stand for
/// more than [`crate::geometry::MAX_CELLS`] cells, and otherwise with a `Construction`
/// error if a text is neither empty nor one grapheme cluster.
pub fn decode(rows: &Vec<Vec<String>>) -> (r: Result<Region, EngineError>)
    ensures
        decodes_to(rows.deep_view(), r),
{
    let ghost texts = rows.deep_view();
    let height = rows.len();
    let width = if height == 0 {
        0
    } else {
        rows[0].len()
    };
    assert(width == rows_width(texts));
    let mut y: usize = 0;
    while y < height
        invariant
            y <= height,
            height == rows@.len(),
            texts == rows.deep_view(),
            width == rows_width(texts),
            forall|j: int| 0 <= j < y ==> (#[trigger] texts[j]).len() == width,
        decreases height - y,
    {
        if rows[y].len() != width {
            assert(texts[y as int].len() != rows_width(texts));
            return Err(EngineError::InvalidDimension);
        }
        y += 1;
    }
    assert(rectangular(texts));
    let mut region = match Region::new(width, height) {
        Ok(region) => region,
        Err(e) => {
            return Err(e);
        },
    };
    let mut y: usize = 0;
    while y < height
        invariant
            y <= height,
            height == rows@.len(),
            texts == rows.deep_view(),
            width == rows_width(texts),
            shape_ok(texts),
            region@.width == width,
            region@.height == height,
            forall|i: int, j: int|
                0 <= j < y && 0 <= i < width ==> #[trigger] read_at(texts, region@, i, j),
        decreases height - y,
    {
        let row = &rows[y];
        assert(texts[y as int] == row.deep_view());
        let mut x: usize = 0;
        while x < width
            invariant
                x <= width,
                y < height,
                height == rows@.len(),
                texts == rows.deep_view(),
                width == rows_width(texts),
                shape_ok(texts),
                row == rows@[y as int],
                row@.len() == width,
                region@.width == width,
                region@.height == height,
                forall|i: int, j: int|
                    (0 <= j < y && 0 <= i < width) || (j == y && 0 <= i < x) ==> #[trigger] read_at(
                        texts,
                        region@,
                        i,
                        j,
                    ),
            decreases width - x,
        {
            let ghost before = region@;
            assert(texts[y as int][x as int] == row@[x as int]@);
            let cell = match Char::new(row[x].clone()) {
                Ok(cell) => cell,
                Err(e) => {
                    assert forall|i: int, j: int|
                        (0 <= j < y && 0 <= i < texts[j].len()) || (j == y && 0 <= i < x) implies cell_ok(
                        texts,
                        i,
                        j,
                    ) by {
                        assert(read_at(texts, before, i, j));
                    }
                    assert(first_refused(texts, x as int, y as int));
                    return Err(e);
                },
            };
            region.set(x, y, cell);
            assert forall|i: int, j: int|
                (0 <= j < y && 0 <= i < width) || (j == y && 0 <= i < x + 1) implies #[trigger] read_at(
                texts,
                region@,
                i,
                j,
            ) by {
                if !(i == x && j == y) {
                    assert(read_at(texts, before, i, j));
                }
            }
            x += 1;
        }
        y += 1;
    }
    proof {
        use_type_invariant(&region);
        region.lemma_view_wf();
        assert forall|i: int, j: int| region@.contains(i, j) implies #[trigger] region@.at(i, j)
            == decoded(texts).at(i, j) by {
            assert(read_at(texts, region@, i, j));
        }
        assert forall|i: int, j: int| 0 <= j < texts.len() && 0 <= i < texts[j].len() implies cell_ok(
            texts,
            i,
            j,
        ) by {
            assert(read_at(texts, region@, i, j));
        }
        region@.lemma_same(decoded(texts));
    }
    Ok(region)
}

/// Writes `region` out as JSON: an array of rows, each an array of
/// strings. Fails with an `Interchange` error if the serialiser refuses.
pub fn to_json(region: &Region) -> (r: Result<String, EngineError>)
    ensures
        match r {
            Ok(text) => json_text(encode_rows(region@)) == Some(text@),
            Err(e) => json_text(encode_rows(region@)) is None && e == EngineError::Interchange,
        },
{
    let rows = encode(region);
    match print_rows(&rows) {
        Ok(text) => Ok(text),
        Err(_) => Err(EngineError::Interchange),
    }
}

/// Reads a region from JSON. Fails with an `Interchange` error if `text`
/// is not a JSON array of arrays of strings, and otherwise as [`decode`]
/// does.
pub fn from_json(text: &str) -> (r: Result<Region, EngineError>)
    ensures
        match json_rows(text@) {
            Some(rows) => decodes_to(rows, r),
            None => r matches Err(e) && e == EngineError::Interchange,
        },
{
    match parse_rows(text) {
        Ok(rows) => decode(&rows),
        Err(_) => Err(EngineError::Interchange),
    }
}

} // verus!
