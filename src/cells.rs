//! Cell colours, piece shapes and single board rows.
use vstd::prelude::*;

verus! {

/// Number of columns in every row.
pub const BOARD_WIDTH: usize = 10;

/// The colour category of one board cell.
#[derive(Clone, Copy, Debug, PartialEq, Eq, Structural)]
pub enum CellColor {
    Empty,
    Garbage,
    Unclearable,
    Z,
    S,
    O,
    L,
    J,
    I,
    T,
}

/// The seven piece shapes.
#[derive(Clone, Copy, Debug, PartialEq, Eq, Structural)]
pub enum Shape {
    I,
    O,
    T,
    L,
    J,
    S,
    Z,
}

pub open spec fn shape_color(s: Shape) -> CellColor {
    match s {
        Shape::I => CellColor::I,
        Shape::O => CellColor::O,
        Shape::T => CellColor::T,
        Shape::L => CellColor::L,
        Shape::J => CellColor::J,
        Shape::S => CellColor::S,
        Shape::Z => CellColor::Z,
    }
}

impl Shape {
    /// The colour in which cells of this shape are drawn and stored.
    pub fn color(self) -> (r: CellColor)
        ensures
            r == shape_color(self),
    {
        match self {
            Shape::I => CellColor::I,
            Shape::O => CellColor::O,
            Shape::T => CellColor::T,
            Shape::L => CellColor::L,
            Shape::J => CellColor::J,
            Shape::S => CellColor::S,
            Shape::Z => CellColor::Z,
        }
    }
}

/// A row is full when none of its cells is empty.
pub open spec fn full(cells: Seq<CellColor>) -> bool {
    forall|x: int| 0 <= x < cells.len() ==> cells[x] != CellColor::Empty
}

/// The cells of a row with nothing in it.
pub open spec fn blank_cells() -> Seq<CellColor> {
    Seq::new(BOARD_WIDTH as nat, |x: int| CellColor::Empty)
}

/// The cells of a garbage row: garbage everywhere but the hole column.
pub open spec fn garbage_cells(hole: int) -> Seq<CellColor> {
    Seq::new(
        BOARD_WIDTH as nat,
        |x: int|
            if x == hole {
                CellColor::Empty
            } else {
                CellColor::Garbage
            },
    )
}

/// One board row of `BOARD_WIDTH` cells.
#[derive(Clone, Copy, Debug)]
pub struct Row {
    cells: [CellColor; 10],
}

impl View for Row {
    type V = Seq<CellColor>;

    closed spec fn view(&self) -> Seq<CellColor> {
        self.cells@
    }
}

/// The row whose cells are `cells`; a row is fixed by its cells.
pub open spec fn row_of(cells: Seq<CellColor>) -> Row {
    choose|r: Row| r@ == cells
}

/// The empty row.
pub open spec fn blank_row() -> Row {
    row_of(blank_cells())
}

/// The garbage row with its hole at `hole`.
pub open spec fn garbage_row(hole: int) -> Row {
    row_of(garbage_cells(hole))
}

/// Every row has exactly `BOARD_WIDTH` cells, and two rows with the same
/// cells are the same row.
pub proof fn lemma_row_of(r: Row)
    ensures
        r@.len() == BOARD_WIDTH,
        row_of(r@) == r,
{
    broadcast use vstd::array::group_array_axioms;

    let s = row_of(r@);
    assert(s@ == r@);
    assert(s.cells =~= r.cells);
}

/// The empty row has empty cells only, and so is not full.
pub proof fn lemma_blank_row()
    ensures
        blank_row()@ == blank_cells(),
        !full(blank_row()@),
{
    broadcast use vstd::array::group_array_axioms;

    let w = Row { cells: vstd::array::spec_array_fill_for_copy_type(CellColor::Empty) };
    assert(w@ =~= blank_cells());
    assert(blank_row()@[0] == CellColor::Empty);
}

/// A garbage row has the cells of `garbage_cells`.
pub proof fn lemma_garbage_row(hole: int)
    ensures
        garbage_row(hole)@ == garbage_cells(hole),
{
    broadcast use vstd::array::group_array_axioms;

    let filled: [CellColor; 10] = vstd::array::spec_array_fill_for_copy_type(CellColor::Garbage);
    if 0 <= hole < BOARD_WIDTH {
        let w = Row { cells: vstd::array::spec_array_update(filled, hole, CellColor::Empty) };
        assert(w@ =~= garbage_cells(hole));
    } else {
        let w = Row { cells: filled };
        assert(w@ =~= garbage_cells(hole));
    }
}

impl Row {
    /// A row with every cell empty.
    pub fn empty() -> (r: Row)
        ensures
            r@ == blank_cells(),
            r == blank_row(),
    {
        let r = Row { cells: [CellColor::Empty; 10] };
        proof {
            broadcast use vstd::array::group_array_axioms;

            assert(r@ =~= blank_cells());
            lemma_row_of(r);
        }
        r
    }

    /// The colour of the cell in column `x`.
    pub fn cell_color(&self, x: usize) -> (r: CellColor)
        requires
            x < BOARD_WIDTH,
        ensures
            r == self@[x as int],
    {
        self.cells[x]
    }

    /// Overwrites the colour of the cell in column `x`.
    pub fn set(&mut self, x: usize, color: CellColor)
        requires
            x < BOARD_WIDTH,
        ensures
            final(self)@ == old(self)@.update(x as int, color),
    {
        self.cells[x] = color;
    }

    /// Whether no cell of the row is empty.
    pub fn is_full(&self) -> (r: bool)
        ensures
            r == full(self@),
    {
        !self.has_empty_cell()
    }

    /// Whether some cell of the row is empty.
    pub fn has_empty_cell(&self) -> (r: bool)
        ensures
            r == !full(self@),
    {
        proof {
            lemma_row_of(*self);
        }
        let mut x: usize = 0;
        while x < BOARD_WIDTH
            invariant
                x <= BOARD_WIDTH,
                self@.len() == BOARD_WIDTH,
                forall|i: int| 0 <= i < x ==> self@[i] != CellColor::Empty,
            decreases BOARD_WIDTH - x,
        {
            if self.cells[x] == CellColor::Empty {
                return true;
            }
            x += 1;
        }
        false
    }

    /// A garbage row: every cell holds garbage but the one in column `hole`,
    /// which stays empty.
    pub fn garbage(hole: usize) -> (r: Row)
        ensures
            r@ == garbage_cells(hole as int),
            r == garbage_row(hole as int),
    {
        let mut row = Row::empty();
        let mut x: usize = 0;
        while x < BOARD_WIDTH
            invariant
                x <= BOARD_WIDTH,
                row@.len() == BOARD_WIDTH,
                forall|i: int| 0 <= i < x ==> row@[i] == garbage_cells(hole as int)[i],
                forall|i: int| x <= i < BOARD_WIDTH ==> row@[i] == CellColor::Empty,
            decreases BOARD_WIDTH - x,
        {
            if x != hole {
                row.set(x, CellColor::Garbage);
            }
            x += 1;
        }
        proof {
            assert(row@ =~= garbage_cells(hole as int));
            lemma_row_of(row);
        }
        row
    }
}

} // verus!
