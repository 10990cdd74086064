//! The board buffer: a fixed number of rows, row 0 at the bottom.
use arrayvec::ArrayVec;
use vstd::prelude::*;

use crate::array_vec::{
    rows_get, rows_insert, rows_is_full, rows_len, rows_new, rows_push, rows_put,
    rows_retain_non_full, rows_truncate, stored_rows,
};
use crate::cells::{
    blank_row, full, garbage_row, lemma_blank_row, lemma_garbage_row,
    lemma_row_of, row_of, CellColor, Row, BOARD_WIDTH,
};

verus! {

/// Number of rows the buffer holds; only the lowest ones are ever drawn, the
/// rest are headroom for rows pushed up by garbage.
pub const BOARD_HEIGHT: usize = 40;

/// Whether a row survives a line clear.
pub open spec fn not_full(r: Row) -> bool {
    !full(r@)
}

/// The rows that are not full, in their order.
pub open spec fn surviving(rows: Seq<Row>) -> Seq<Row> {
    rows.filter(|r: Row| !full(r@))
}

/// `rows` with the full ones removed and empty rows added on top until the
/// height is `BOARD_HEIGHT` again.
pub open spec fn retained(rows: Seq<Row>) -> Seq<Row> {
    surviving(rows) + Seq::new(
        (BOARD_HEIGHT - surviving(rows).len()) as nat,
        |i: int| blank_row(),
    )
}

/// `rows` with the cell in row `y`, column `x` set to `c`.
pub open spec fn with_cell(rows: Seq<Row>, y: int, x: int, c: CellColor) -> Seq<Row> {
    rows.update(y, row_of(rows[y]@.update(x, c)))
}

/// One garbage row per hole inserted at the bottom, in the order given, so
/// that the last hole ends up in row 0.
pub open spec fn stacked_garbage(rows: Seq<Row>, holes: Seq<usize>) -> Seq<Row>
    decreases holes.len(),
{
    if holes.len() == 0 {
        rows
    } else {
        seq![garbage_row(holes.last() as int)] + stacked_garbage(rows, holes.drop_last())
    }
}

/// `rows` with the top `holes.len()` rows dropped and one garbage row per
/// hole inserted at the bottom.
pub open spec fn with_garbage(rows: Seq<Row>, holes: Seq<usize>) -> Seq<Row> {
    stacked_garbage(rows.subrange(0, BOARD_HEIGHT - holes.len()), holes)
}

/// Each hole adds one row.
pub proof fn lemma_stacked_garbage_len(rows: Seq<Row>, holes: Seq<usize>)
    ensures
        stacked_garbage(rows, holes).len() == rows.len() + holes.len(),
    decreases holes.len(),
{
    if holes.len() > 0 {
        lemma_stacked_garbage_len(rows, holes.drop_last());
    }
}

/// Filtering keeps a sequence whose elements all pass the test unchanged.
proof fn lemma_filter_keeps_all(rows: Seq<Row>)
    requires
        forall|i: int| 0 <= i < rows.len() ==> !full(#[trigger] rows[i]@),
    ensures
        rows.filter(|r: Row| !full(r@)) == rows,
    decreases rows.len(),
{
    reveal(Seq::filter);
    if rows.len() > 0 {
        lemma_filter_keeps_all(rows.drop_last());
        assert(rows.drop_last().push(rows.last()) =~= rows);
    }
}

/// After a line clear no row of the buffer is full, the buffer is back at
/// full height, and the rows that were not full come first, in their order.
pub proof fn lemma_retained(rows: Seq<Row>)
    requires
        rows.len() == BOARD_HEIGHT,
    ensures
        retained(rows).len() == BOARD_HEIGHT,
        retained(rows).subrange(0, surviving(rows).len() as int) == surviving(rows),
        forall|i: int| 0 <= i < BOARD_HEIGHT ==> !full(#[trigger] retained(rows)[i]@),
        forall|r: Row| full(r@) ==> !retained(rows).contains(r),
{
    let s = surviving(rows);
    rows.lemma_filter_len(|r: Row| !full(r@));
    lemma_blank_row();
    assert(retained(rows).subrange(0, s.len() as int) =~= s);
    assert forall|i: int| 0 <= i < BOARD_HEIGHT implies !full(#[trigger] retained(rows)[i]@) by {
        if i < s.len() {
            rows.lemma_filter_pred(|r: Row| !full(r@), i);
        }
    }
}

/// Clearing lines twice in a row leaves the buffer as clearing once does.
pub proof fn lemma_retain_idempotent(rows: Seq<Row>)
    requires
        rows.len() == BOARD_HEIGHT,
    ensures
        retained(retained(rows)) == retained(rows),
{
    let once = retained(rows);
    lemma_retained(rows);
    lemma_filter_keeps_all(once);
    assert(retained(once) =~= once);
}

/// Row `i` of a garbage stack: the new rows, last hole first, then the old
/// rows.
proof fn lemma_stacked_garbage_index(rows: Seq<Row>, holes: Seq<usize>, i: int)
    requires
        0 <= i < rows.len() + holes.len(),
    ensures
        stacked_garbage(rows, holes).len() == rows.len() + holes.len(),
        stacked_garbage(rows, holes)[i] == if i < holes.len() {
            garbage_row(holes[holes.len() - 1 - i] as int)
        } else {
            rows[i - holes.len()]
        },
    decreases holes.len(),
{
    lemma_stacked_garbage_len(rows, holes);
    if holes.len() > 0 && i > 0 {
        lemma_stacked_garbage_index(rows, holes.drop_last(), i - 1);
    }
}

/// Garbage keeps the height of the buffer; each new row is empty exactly at
/// its hole, and the old rows move up by the number of new ones.
pub proof fn lemma_garbage_rows(rows: Seq<Row>, holes: Seq<usize>)
    requires
        rows.len() == BOARD_HEIGHT,
        holes.len() <= BOARD_HEIGHT,
    ensures
        with_garbage(rows, holes).len() == BOARD_HEIGHT,
        forall|i: int, x: int|
            0 <= i < holes.len() && 0 <= x < BOARD_WIDTH ==> (#[trigger] with_garbage(
                rows,
                holes,
            )[i]@[x] == CellColor::Empty <==> x == holes[holes.len() - 1 - i]),
        forall|i: int|
            holes.len() <= i < BOARD_HEIGHT ==> #[trigger] with_garbage(rows, holes)[i]
                == rows[i - holes.len()],
{
    let kept = rows.subrange(0, BOARD_HEIGHT - holes.len());
    lemma_stacked_garbage_len(kept, holes);
    assert forall|i: int, x: int|
        0 <= i < holes.len() && 0 <= x < BOARD_WIDTH implies (#[trigger] with_garbage(
            rows,
            holes,
        )[i]@[x] == CellColor::Empty <==> x == holes[holes.len() - 1 - i]) by {
        lemma_stacked_garbage_index(kept, holes, i);
        lemma_garbage_row(holes[holes.len() - 1 - i] as int);
    }
    assert forall|i: int| holes.len() <= i < BOARD_HEIGHT implies #[trigger] with_garbage(
        rows,
        holes,
    )[i] == rows[i - holes.len()] by {
        lemma_stacked_garbage_index(kept, holes, i);
    }
}

/// The board buffer.
pub struct Board {
    rows: ArrayVec<Row, 40>,
}

impl View for Board {
    type V = Seq<Row>;

    closed spec fn view(&self) -> Seq<Row> {
        stored_rows(self.rows)
    }
}

impl Board {
    /// The buffer always holds exactly `BOARD_HEIGHT` rows.
    pub open spec fn wf(&self) -> bool {
        self@.len() == BOARD_HEIGHT
    }

    /// Adds empty rows on top until the buffer is at full height.
    fn fill_with_empty_rows(&mut self)
        requires
            old(self)@.len() <= BOARD_HEIGHT,
        ensures
            final(self)@ == old(self)@ + Seq::new(
                (BOARD_HEIGHT - old(self)@.len()) as nat,
                |i: int| blank_row(),
            ),
    {
        let ghost start = self@;
        let ghost n = self@.len();
        while !rows_is_full(&self.rows)
            invariant
                n <= self@.len() <= BOARD_HEIGHT,
                self@ == start + Seq::new((self@.len() - n) as nat, |i: int| blank_row()),
            decreases BOARD_HEIGHT - self@.len(),
        {
            let row = Row::empty();
            rows_push(&mut self.rows, row);
            assert(self@ =~= start + Seq::new((self@.len() - n) as nat, |i: int| blank_row()));
        }
        assert(n == start.len());
    }

    /// A buffer of `BOARD_HEIGHT` empty rows.
    pub fn new() -> (r: Board)
        ensures
            r.wf(),
            r@ == Seq::new(BOARD_HEIGHT as nat, |i: int| blank_row()),
    {
        let mut b = Board { rows: rows_new() };
        b.fill_with_empty_rows();
        assert(b@ =~= Seq::new(BOARD_HEIGHT as nat, |i: int| blank_row()));
        b
    }

    /// Number of rows held.
    pub fn len(&self) -> (r: usize)
        ensures
            r == self@.len(),
    {
        rows_len(&self.rows)
    }

    /// A copy of row `y`.
    pub fn row(&self, y: usize) -> (r: Row)
        requires
            y < self@.len(),
        ensures
            r == self@[y as int],
    {
        rows_get(&self.rows, y)
    }

    /// The colour of the cell in row `y`, column `x`.
    pub fn cell_color(&self, y: usize, x: usize) -> (r: CellColor)
        requires
            y < self@.len(),
            x < BOARD_WIDTH,
        ensures
            r == self@[y as int]@[x as int],
    {
        rows_get(&self.rows, y).cell_color(x)
    }

    /// Overwrites the colour of the cell in row `y`, column `x`.
    pub fn set(&mut self, y: usize, x: usize, color: CellColor)
        requires
            y < old(self)@.len(),
            x < BOARD_WIDTH,
        ensures
            final(self)@ == with_cell(old(self)@, y as int, x as int, color),
    {
        let mut row = rows_get(&self.rows, y);
        row.set(x, color);
        proof {
            lemma_row_of(row);
        }
        rows_put(&mut self.rows, y, row);
    }

    /// Whether no cell of row `y` is empty.
    pub fn is_full(&self, y: usize) -> (r: bool)
        requires
            y < self@.len(),
        ensures
            r == full(self@[y as int]@),
    {
        rows_get(&self.rows, y).is_full()
    }

    /// Removes every full row, keeping the order of the others, then adds
    /// empty rows on top until the buffer is at full height again. Rows above
    /// a removed row move down by the number of rows removed below them.
    pub fn retain_non_full(&mut self)
        requires
            old(self).wf(),
        ensures
            final(self).wf(),
            final(self)@ == retained(old(self)@),
    {
        rows_retain_non_full(&mut self.rows);
        proof {
            old(self)@.lemma_filter_len(|r: Row| !full(r@));
        }
        self.fill_with_empty_rows();
    }

    /// Drops the top `holes.len()` rows and inserts one garbage row per hole at
    /// the bottom; the last hole listed ends up in row 0. The height is kept.
    pub fn prepend_garbage(&mut self, holes: &[usize])
        requires
            old(self).wf(),
            holes@.len() <= BOARD_HEIGHT,
        ensures
            final(self).wf(),
            final(self)@ == with_garbage(old(self)@, holes@),
    {
        let ghost start = self@;
        rows_truncate(&mut self.rows, BOARD_HEIGHT - holes.len());
        let mut k: usize = 0;
        while k < holes.len()
            invariant
                k <= holes@.len() <= BOARD_HEIGHT,
                start.len() == BOARD_HEIGHT,
                self@ == stacked_garbage(
                    start.subrange(0, BOARD_HEIGHT - holes@.len()),
                    holes@.subrange(0, k as int),
                ),
                self@.len() == BOARD_HEIGHT - holes@.len() + k,
            decreases holes@.len() - k,
        {
            let row = Row::garbage(holes[k]);
            rows_insert(&mut self.rows, 0, row);
            proof {
                let sub = holes@.subrange(0, k + 1);
                assert(sub.drop_last() =~= holes@.subrange(0, k as int));
                assert(sub.last() == holes@[k as int]);
                assert(self@ =~= stacked_garbage(
                    start.subrange(0, BOARD_HEIGHT - holes@.len()),
                    sub,
                ));
            }
            k += 1;
        }
        assert(holes@.subrange(0, k as int) =~= holes@);
    }
}

} // verus!
