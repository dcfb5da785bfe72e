//! Reading a map from its text form: one row per line, `#` for an obstacle,
//! `.` for an empty cell, a blank or `?` for an unexplored one.

use vstd::prelude::*;
use crate::types::{CellState, GridMap, GridModel};

verus! {

/// Why a text is not a map.
#[derive(Copy, Clone, PartialEq, Eq, Debug, Structural)]
pub enum MapLoadError {
    /// The text has no line at all.
    Empty,
    /// Some line is not as long as the first.
    InconsistentRowLength,
    /// The byte is the first one of the text, read line by line, that stands for no cell.
    InvalidCharacter(u8),
}

impl MapLoadError {
    /// The words for each kind of error.
    pub open spec fn message_text(self) -> Seq<char> {
        match self {
            MapLoadError::Empty => "Map file is empty"@,
            MapLoadError::InconsistentRowLength => "Inconsistent line lengths in map file"@,
            MapLoadError::InvalidCharacter(_) => "Invalid map character"@,
        }
    }

    /// What went wrong, in words.
    pub fn message(&self) -> (text: &'static str)
        ensures
            text@ == self.message_text(),
    {
        match self {
            MapLoadError::Empty => "Map file is empty",
            MapLoadError::InconsistentRowLength => "Inconsistent line lengths in map file",
            MapLoadError::InvalidCharacter(_) => "Invalid map character",
        }
    }
}

/// The line feed that ends a line.
pub const LINE_FEED: u8 = 10;

/// The carriage return that may precede a line feed.
pub const CARRIAGE_RETURN: u8 = 13;

/// A line without the carriage return at its end, if it has one.
pub open spec fn without_carriage_return(line: Seq<u8>) -> Seq<u8> {
    if line.len() > 0 && line.last() == CARRIAGE_RETURN {
        line.drop_last()
    } else {
        line
    }
}

/// The lines of the text from `start` on, where `pending` holds the bytes of
/// the current line that lie before `start`.
pub open spec fn lines_from(text: Seq<u8>, start: int, pending: Seq<u8>) -> Seq<Seq<u8>>
    decreases text.len() - start,
{
    if start < 0 || start >= text.len() {
        if pending.len() > 0 {
            seq![pending]
        } else {
            Seq::empty()
        }
    } else if text[start] == LINE_FEED {
        seq![without_carriage_return(pending)] + lines_from(text, start + 1, Seq::empty())
    } else {
        lines_from(text, start + 1, pending.push(text[start]))
    }
}

/// The lines of a text. A line ends at a line feed or at the end of the text;
/// the line feed, and a carriage return right in front of it, are not part of
/// the line. A line feed at the very end of the text starts no further line.
pub open spec fn lines(text: Seq<u8>) -> Seq<Seq<u8>> {
    lines_from(text, 0, Seq::empty())
}

/// The byte stands for a cell.
pub open spec fn is_map_byte(b: u8) -> bool {
    b == '#' as u8 || b == '.' as u8 || b == ' ' as u8 || b == '?' as u8
}

/// The cell that a byte stands for.
pub open spec fn cell_of_byte(b: u8) -> CellState {
    if b == '#' as u8 {
        CellState::Obstacle
    } else if b == '.' as u8 {
        CellState::Empty
    } else {
        CellState::Unexplored
    }
}

/// Every row is as long as the first.
pub open spec fn uniform(rows: Seq<Seq<u8>>) -> bool {
    forall|i: int| 0 <= i < rows.len() ==> (#[trigger] rows[i]).len() == rows[0].len()
}

/// The first byte of a row that stands for no cell.
pub open spec fn first_invalid(row: Seq<u8>) -> Option<u8>
    decreases row.len(),
{
    if row.len() == 0 {
        None
    } else {
        match first_invalid(row.drop_last()) {
            Some(b) => Some(b),
            None => if is_map_byte(row.last()) {
                None
            } else {
                Some(row.last())
            },
        }
    }
}

/// The first byte of the rows, read row by row, that stands for no cell.
pub open spec fn first_invalid_in(rows: Seq<Seq<u8>>) -> Option<u8>
    decreases rows.len(),
{
    if rows.len() == 0 {
        None
    } else {
        match first_invalid_in(rows.drop_last()) {
            Some(b) => Some(b),
            None => first_invalid(rows.last()),
        }
    }
}

/// The cells of the rows, one row after another.
pub open spec fn cells_of(rows: Seq<Seq<u8>>) -> Seq<CellState>
    decreases rows.len(),
{
    if rows.len() == 0 {
        Seq::empty()
    } else {
        cells_of(rows.drop_last()) + rows.last().map_values(|b: u8| cell_of_byte(b))
    }
}

/// What a text means as a map.
///
/// A text without lines is `Empty`. Otherwise, lines of different lengths
/// make it `InconsistentRowLength`; otherwise, a byte that stands for no cell
/// makes it `InvalidCharacter`. Otherwise the map is as wide as the first
/// line is long, as high as there are lines, and holds the cells of the lines
/// row by row.
pub open spec fn parsed(text: Seq<u8>) -> Result<GridModel, MapLoadError> {
    let rows = lines(text);
    if rows.len() == 0 {
        Err(MapLoadError::Empty)
    } else if !uniform(rows) {
        Err(MapLoadError::InconsistentRowLength)
    } else {
        match first_invalid_in(rows) {
            Some(b) => Err(MapLoadError::InvalidCharacter(b)),
            None => Ok(
                GridModel {
                    width: rows[0].len() as int,
                    height: rows.len() as int,
                    cells: cells_of(rows),
                },
            ),
        }
    }
}

/// The views of a sequence of rows.
pub open spec fn row_views(rows: Seq<Vec<u8>>) -> Seq<Seq<u8>> {
    Seq::new(rows.len(), |i: int| rows[i]@)
}

/// Uniform rows hold as many cells as the number of rows times their length.
pub proof fn lemma_cells_of_len(rows: Seq<Seq<u8>>)
    requires
        uniform(rows),
        rows.len() > 0,
    ensures
        cells_of(rows).len() == rows[0].len() * rows.len(),
    decreases rows.len(),
{
    let head = rows.drop_last();
    if head.len() > 0 {
        assert forall|i: int| 0 <= i < head.len() implies (#[trigger] head[i]).len()
            == head[0].len() by {
            assert(head[i] == rows[i]);
            assert(head[0] == rows[0]);
        }
        lemma_cells_of_len(head);
        assert(head[0] == rows[0]);
        assert(rows.last() == rows[rows.len() - 1]);
        assert(rows.last().len() == rows[0].len());
        assert(cells_of(rows).len() == cells_of(head).len() + rows.last().len());
        assert(rows[0].len() * (rows.len() - 1) + rows[0].len() == rows[0].len() * rows.len())
            by (nonlinear_arith);
    } else {
        assert(cells_of(head).len() == 0);
        assert(rows.last() == rows[0]);
        assert(cells_of(rows).len() == cells_of(head).len() + rows.last().len());
        assert(rows[0].len() * 1 == rows[0].len()) by (nonlinear_arith);
    }
}

/// Splits a text into its lines.
pub fn split_lines(text: &[u8]) -> (rows: Vec<Vec<u8>>)
    ensures
        row_views(rows@) == lines(text@),
{
    let mut rows: Vec<Vec<u8>> = Vec::new();
    let mut line: Vec<u8> = Vec::new();
    let mut i: usize = 0;
    assert(row_views(rows@) + lines_from(text@, 0, line@) =~= lines(text@));
    while i < text.len()
        invariant
            i <= text@.len(),
            row_views(rows@) + lines_from(text@, i as int, line@) == lines(text@),
        decreases text@.len() - i,
    {
        let ghost rows_before = rows@;
        let ghost line_before = line@;
        let b = text[i];
        if b == LINE_FEED {
            if line.len() > 0 && line[line.len() - 1] == CARRIAGE_RETURN {
                line.pop();
            }
            assert(line@ =~= without_carriage_return(line_before));
            rows.push(line);
            line = Vec::new();
            proof {
                assert(row_views(rows@) =~= row_views(rows_before).push(
                    without_carriage_return(line_before),
                ));
                assert(line@ =~= Seq::<u8>::empty());
                assert(row_views(rows@) + lines_from(text@, i + 1, line@) =~= row_views(
                    rows_before,
                ) + lines_from(text@, i as int, line_before));
            }
        } else {
            line.push(b);
        }
        i += 1;
    }
    if line.len() > 0 {
        let ghost rows_before = rows@;
        let ghost last = line@;
        rows.push(line);
        assert(row_views(rows@) =~= row_views(rows_before) + seq![last]);
    } else {
        assert(row_views(rows@) + Seq::<Seq<u8>>::empty() =~= row_views(rows@));
    }
    rows
}

/// The first byte of a row that stands for no cell.
fn find_invalid(row: &Vec<u8>) -> (bad: Option<u8>)
    ensures
        bad == first_invalid(row@),
{
    let mut j: usize = 0;
    assert(row@.subrange(0, 0) =~= Seq::<u8>::empty());
    while j < row.len()
        invariant
            j <= row@.len(),
            first_invalid(row@.subrange(0, j as int)) is None,
        decreases row@.len() - j,
    {
        let b = row[j];
        proof {
            assert(row@.subrange(0, j + 1).drop_last() =~= row@.subrange(0, j as int));
            assert(row@.subrange(0, j + 1).last() == b);
        }
        if !(b == '#' as u8 || b == '.' as u8 || b == ' ' as u8 || b == '?' as u8) {
            proof {
                lemma_first_invalid_prefix(row@, j + 1);
            }
            return Some(b);
        }
        j += 1;
    }
    assert(row@.subrange(0, j as int) =~= row@);
    None
}

/// An invalid byte found in a prefix of a row is the first one of the row.
pub proof fn lemma_first_invalid_prefix(row: Seq<u8>, n: int)
    requires
        0 <= n <= row.len(),
        first_invalid(row.subrange(0, n)) is Some,
    ensures
        first_invalid(row) == first_invalid(row.subrange(0, n)),
    decreases row.len() - n,
{
    if n < row.len() {
        assert(row.subrange(0, n + 1).drop_last() =~= row.subrange(0, n));
        lemma_first_invalid_prefix(row, n + 1);
    } else {
        assert(row.subrange(0, n) =~= row);
    }
}

/// An invalid byte found in the first rows is the first one of all rows.
pub proof fn lemma_first_invalid_in_prefix(rows: Seq<Seq<u8>>, n: int)
    requires
        0 <= n <= rows.len(),
        first_invalid_in(rows.subrange(0, n)) is Some,
    ensures
        first_invalid_in(rows) == first_invalid_in(rows.subrange(0, n)),
    decreases rows.len() - n,
{
    if n < rows.len() {
        assert(rows.subrange(0, n + 1).drop_last() =~= rows.subrange(0, n));
        lemma_first_invalid_in_prefix(rows, n + 1);
    } else {
        assert(rows.subrange(0, n) =~= rows);
    }
}

/// Reads a map from its text.
pub fn parse_map(text: &[u8]) -> (outcome: Result<GridMap, MapLoadError>)
    ensures
        match outcome {
            Ok(map) => parsed(text@) == Ok::<GridModel, MapLoadError>(map@),
            Err(e) => parsed(text@) == Err::<GridModel, MapLoadError>(e),
        },
        outcome matches Ok(map) ==> map@.cells.len() == map@.width * map@.height,
{
    let rows = split_lines(text);
    let ghost all = row_views(rows@);
    if rows.len() == 0 {
        return Err(MapLoadError::Empty);
    }
    let width = rows[0].len();
    let height = rows.len();
    let mut i: usize = 0;
    while i < rows.len()
        invariant
            i <= rows@.len(),
            rows@.len() > 0,
            all == lines(text@),
            all == row_views(rows@),
            width == rows@[0]@.len(),
            forall|k: int| 0 <= k < i ==> (#[trigger] all[k]).len() == width,
        decreases rows@.len() - i,
    {
        assert(all[i as int] == rows@[i as int]@);
        assert(all[0] == rows@[0]@);
        if rows[i].len() != width {
            assert(all[i as int].len() != all[0].len());
            assert(!uniform(all));
            return Err(MapLoadError::InconsistentRowLength);
        }
        i += 1;
    }
    assert(uniform(all));
    let mut cells: Vec<CellState> = Vec::new();
    let mut y: usize = 0;
    assert(all.subrange(0, 0) =~= Seq::<Seq<u8>>::empty());
    while y < rows.len()
        invariant
            y <= rows@.len(),
            rows@.len() > 0,
            uniform(all),
            all == lines(text@),
            all == row_views(rows@),
            width == all[0].len(),
            height == all.len(),
            first_invalid_in(all.subrange(0, y as int)) is None,
            cells@ == cells_of(all.subrange(0, y as int)),
        decreases rows@.len() - y,
    {
        let row = &rows[y];
        proof {
            assert(all.subrange(0, y + 1).drop_last() =~= all.subrange(0, y as int));
            assert(all.subrange(0, y + 1).last() == row@);
        }
        match find_invalid(row) {
            Some(b) => {
                proof {
                    assert(first_invalid_in(all.subrange(0, y + 1)) == Some(b));
                    lemma_first_invalid_in_prefix(all, y + 1);
                }
                return Err(MapLoadError::InvalidCharacter(b));
            },
            None => {},
        }
        let ghost before = cells@;
        let mut x: usize = 0;
        while x < row.len()
            invariant
                x <= row@.len(),
                cells@ == before + row@.subrange(0, x as int).map_values(|b: u8| cell_of_byte(b)),
            decreases row@.len() - x,
        {
            let b = row[x];
            let cell = if b == '#' as u8 {
                CellState::Obstacle
            } else if b == '.' as u8 {
                CellState::Empty
            } else {
                CellState::Unexplored
            };
            cells.push(cell);
            assert(cells@ =~= before + row@.subrange(0, x + 1).map_values(
                |b: u8| cell_of_byte(b),
            ));
            x += 1;
        }
        assert(row@.subrange(0, x as int) =~= row@);
        y += 1;
    }
    proof {
        assert(all.subrange(0, y as int) =~= all);
        lemma_cells_of_len(all);
    }
    Ok(GridMap { width, height, cells })
}

} // verus!
