//! The animation state machine: it owns the board buffer, consumes gameplay
//! events in order and keeps the overlay that is drawn above the board.
use vstd::prelude::*;

use crate::board::{
    lemma_garbage_rows, lemma_retained, retained, surviving, with_cell, with_garbage, Board,
    BOARD_HEIGHT,
};
use crate::cells::{shape_color, CellColor, Shape, BOARD_WIDTH};
use crate::tiles::{
    board_tiles, cell_color_to_color, flash_row_tiles, flash_tiles, frame_pair, frame_tiles,
    lemma_frame_pair_monotone, piece_tiles, shown_no_later, spec_frame_pair, Rgb, Tile,
    LAST_FLASH_FRAME, VISIBLE_ROWS,
};

verus! {

/// A piece in the air: its shape and the four cells it covers, as
/// `(column, row)` pairs with row 0 at the bottom.
#[derive(Clone, Copy, Debug, PartialEq, Eq)]
pub struct FallingPiece {
    pub shape: Shape,
    pub cells: [(i32, i32); 4],
}

/// What the game-logic engine reports, one event at a time.
pub enum Event {
    /// A piece locked in place; `cleared_lines` lists the rows it completed.
    PiecePlaced { piece: FallingPiece, cleared_lines: Vec<i32> },
    /// A piece is falling; the second piece is its ghost, where it would land.
    PieceFalling(FallingPiece, FallingPiece),
    /// The line-clear animation is over: full rows go and the rows above fall.
    EndOfLineClearDelay,
    /// Garbage rows arrive from below, one per hole column, bottom row last.
    GarbageAdded(Vec<usize>),
    /// A new piece appeared at the top of the board.
    PieceSpawned,
    /// The player put a piece on hold.
    PieceHeld(Shape),
    /// The game has ended.
    GameOver,
}

/// What is drawn above the static board.
pub enum State {
    /// A piece and its ghost.
    Falling(FallingPiece, FallingPiece),
    /// The rows that flash, and the number of updates since the flash began.
    LineClearAnimation(Vec<i32>, u32),
    /// Nothing.
    Delay,
}

/// The model of `State`.
pub enum Overlay {
    Falling(FallingPiece, FallingPiece),
    LineClearing(Seq<i32>, u32),
    Idle,
}

impl View for State {
    type V = Overlay;

    open spec fn view(&self) -> Overlay {
        match self {
            State::Falling(p, g) => Overlay::Falling(*p, *g),
            State::LineClearAnimation(lines, frame) => Overlay::LineClearing(lines@, *frame),
            State::Delay => Overlay::Idle,
        }
    }
}

/// The model of the whole state machine: the rows of the board and the
/// overlay.
pub struct DrawModel {
    pub board: Seq<crate::cells::Row>,
    pub overlay: Overlay,
}

/// Counters kept by the surrounding application; the state machine only
/// stores them.
#[derive(Clone, Copy, Debug, PartialEq, Eq)]
pub struct Statistics {
    pub pieces: u64,
    pub lines: u64,
    pub attack: u64,
}

impl Default for Statistics {
    fn default() -> (r: Statistics)
        ensures
            r.pieces == 0,
            r.lines == 0,
            r.attack == 0,
    {
        Statistics { pieces: 0, lines: 0, attack: 0 }
    }
}

/// A cell lies on the board.
pub open spec fn on_board(c: (i32, i32)) -> bool {
    0 <= c.0 < BOARD_WIDTH && 0 <= c.1 < BOARD_HEIGHT
}

/// What the state machine asks of an event: placed cells lie on the board and
/// no more garbage rows arrive at once than the board holds.
pub open spec fn valid_event(e: Event) -> bool {
    match e {
        Event::PiecePlaced { piece, .. } => forall|i: int|
            0 <= i < 4 ==> on_board(#[trigger] piece.cells@[i]),
        Event::GarbageAdded(holes) => holes@.len() <= BOARD_HEIGHT,
        _ => true,
    }
}

/// `rows` with each of `cells` set to `color`, in order.
pub open spec fn placed(
    rows: Seq<crate::cells::Row>,
    cells: Seq<(i32, i32)>,
    color: CellColor,
) -> Seq<crate::cells::Row>
    decreases cells.len(),
{
    if cells.len() == 0 {
        rows
    } else {
        let c = cells.last();
        with_cell(placed(rows, cells.drop_last(), color), c.1 as int, c.0 as int, color)
    }
}

/// The frame counter after one more update, held at its largest value.
pub open spec fn next_frame(f: u32) -> u32 {
    if f == u32::MAX {
        f
    } else {
        (f + 1) as u32
    }
}

/// The start of an update: a line-clear animation moves on by one frame.
pub open spec fn ticked(m: DrawModel) -> DrawModel {
    match m.overlay {
        Overlay::LineClearing(lines, f) => DrawModel {
            board: m.board,
            overlay: Overlay::LineClearing(lines, next_frame(f)),
        },
        _ => m,
    }
}

/// The effect of one event.
pub open spec fn applied(m: DrawModel, e: Event) -> DrawModel {
    match e {
        Event::PiecePlaced { piece, cleared_lines } => DrawModel {
            board: placed(m.board, piece.cells@, shape_color(piece.shape)),
            overlay: if cleared_lines@.len() == 0 {
                Overlay::Idle
            } else {
                Overlay::LineClearing(cleared_lines@, 0)
            },
        },
        Event::PieceFalling(p, g) => DrawModel { board: m.board, overlay: Overlay::Falling(p, g) },
        Event::EndOfLineClearDelay => DrawModel { board: retained(m.board), overlay: Overlay::Idle },
        Event::GarbageAdded(holes) => DrawModel {
            board: with_garbage(m.board, holes@),
            overlay: m.overlay,
        },
        _ => m,
    }
}

/// The effect of a batch of events, strictly left to right.
pub open spec fn applied_all(m: DrawModel, events: Seq<Event>) -> DrawModel
    decreases events.len(),
{
    if events.len() == 0 {
        m
    } else {
        applied(applied_all(m, events.drop_last()), events.last())
    }
}

/// The effect of one update with `events`.
pub open spec fn advanced(m: DrawModel, events: Seq<Event>) -> DrawModel {
    applied_all(ticked(m), events)
}

/// Whether `e` is a placement that completed at least one row.
pub open spec fn clears_lines(e: Event) -> bool {
    match e {
        Event::PiecePlaced { cleared_lines, .. } => cleared_lines@.len() > 0,
        _ => false,
    }
}

/// Whether `e` is a placement.
pub open spec fn is_placement(e: Event) -> bool {
    e is PiecePlaced
}

/// After a batch of placements whose last one completed rows, the flash of
/// those rows starts at frame 0, and the board is the board with the last
/// piece written in: no row has been removed yet.
pub proof fn lemma_clear_is_deferred(m: DrawModel, events: Seq<Event>)
    requires
        events.len() > 0,
        forall|i: int| 0 <= i < events.len() ==> is_placement(#[trigger] events[i]),
        clears_lines(events.last()),
    ensures
        ({
            let before = applied_all(ticked(m), events.drop_last());
            let after = advanced(m, events);
            match events.last() {
                Event::PiecePlaced { piece, cleared_lines } => {
                    &&& after.overlay == Overlay::LineClearing(cleared_lines@, 0)
                    &&& after.board == placed(
                        before.board,
                        piece.cells@,
                        shape_color(piece.shape),
                    )
                },
                _ => false,
            }
        }),
{
}

/// At the end of a line clear the overlay is gone, the board is back at full
/// height with empty rows on top, no row of it is full (so none of the rows
/// that were full is left), and the other rows keep their order at the bottom.
pub proof fn lemma_end_of_clear(m: DrawModel)
    requires
        m.board.len() == BOARD_HEIGHT,
    ensures
        ({
            let after = applied(m, Event::EndOfLineClearDelay);
            &&& after.overlay == Overlay::Idle
            &&& after.board.len() == BOARD_HEIGHT
            &&& after.board.subrange(0, surviving(m.board).len() as int) == surviving(m.board)
            &&& forall|i: int|
                0 <= i < BOARD_HEIGHT ==> !crate::cells::full(#[trigger] after.board[i]@)
            &&& forall|r: crate::cells::Row|
                crate::cells::full(r@) ==> !after.board.contains(r)
        }),
{
    lemma_retained(m.board);
}

/// Garbage keeps the height of the board and leaves the overlay alone; each
/// new row is empty exactly at its hole column, the last hole in row 0, and
/// the old rows move up by the number of new ones.
pub proof fn lemma_garbage_event(m: DrawModel, holes: Vec<usize>)
    requires
        m.board.len() == BOARD_HEIGHT,
        holes@.len() <= BOARD_HEIGHT,
    ensures
        ({
            let after = applied(m, Event::GarbageAdded(holes));
            let n = holes@.len();
            &&& after.overlay == m.overlay
            &&& after.board.len() == BOARD_HEIGHT
            &&& forall|i: int, x: int|
                0 <= i < n && 0 <= x < BOARD_WIDTH ==> (#[trigger] after.board[i]@[x]
                    == CellColor::Empty <==> x == holes@[n - 1 - i])
            &&& forall|i: int| n <= i < BOARD_HEIGHT ==> #[trigger] after.board[i] == m.board[i - n]
        }),
{
    lemma_garbage_rows(m.board, holes@);
}

/// `k` updates in a row, none with any event.
pub open spec fn quiet_updates(m: DrawModel, k: nat) -> DrawModel
    decreases k,
{
    if k == 0 {
        m
    } else {
        advanced(quiet_updates(m, (k - 1) as nat), Seq::empty())
    }
}

/// While rows flash, each update without events moves the animation on by
/// one frame and leaves the board alone; the sprite shown never goes back,
/// and once the last flash frame is reached it stays at column 2, row 11.
pub proof fn lemma_flash_frames(m: DrawModel, k: nat)
    requires
        m.overlay is LineClearing,
        m.overlay->LineClearing_1 + k <= u32::MAX,
    ensures
        ({
            let after = quiet_updates(m, k);
            let f0 = m.overlay->LineClearing_1;
            &&& after.board == m.board
            &&& after.overlay == Overlay::LineClearing(m.overlay->LineClearing_0, (f0 + k) as u32)
            &&& shown_no_later(spec_frame_pair(f0), spec_frame_pair((f0 + k) as u32))
            &&& f0 + k >= LAST_FLASH_FRAME ==> spec_frame_pair((f0 + k) as u32) == (2u32, 11u32)
        }),
    decreases k,
{
    let f0 = m.overlay->LineClearing_1;
    if k > 0 {
        lemma_flash_frames(m, (k - 1) as nat);
    }
    lemma_frame_pair_monotone(f0, (f0 + k) as u32);
}

/// The board buffer together with the overlay drawn above it.
pub struct BoardDrawState {
    board: Board,
    state: State,
    pub statistics: Statistics,
}

impl View for BoardDrawState {
    type V = DrawModel;

    closed spec fn view(&self) -> DrawModel {
        DrawModel { board: self.board@, overlay: self.state@ }
    }
}

impl BoardDrawState {
    /// The board buffer is at full height.
    pub open spec fn wf(&self) -> bool {
        self@.board.len() == BOARD_HEIGHT
    }

    /// The counters held for the application.
    pub closed spec fn stats(&self) -> Statistics {
        self.statistics
    }

    /// An empty board with nothing drawn above it.
    pub fn new() -> (r: BoardDrawState)
        ensures
            r.wf(),
            r@.board == Seq::new(BOARD_HEIGHT as nat, |i: int| crate::cells::blank_row()),
            r@.overlay == Overlay::Idle,
            r.stats() == (Statistics { pieces: 0, lines: 0, attack: 0 }),
    {
        BoardDrawState { board: Board::new(), state: State::Delay, statistics: Statistics::default() }
    }

    /// The board buffer.
    pub fn board(&self) -> (r: &Board)
        ensures
            r@ == self@.board,
    {
        &self.board
    }

    /// What is drawn above the board.
    pub fn state(&self) -> (r: &State)
        ensures
            r@ == self@.overlay,
    {
        &self.state
    }

    /// Sets the cells of a locked piece to its colour.
    fn place(&mut self, piece: &FallingPiece)
        requires
            old(self).wf(),
            forall|i: int| 0 <= i < 4 ==> on_board(#[trigger] piece.cells@[i]),
        ensures
            final(self).wf(),
            final(self)@ == (DrawModel {
                board: placed(old(self)@.board, piece.cells@, shape_color(piece.shape)),
                overlay: old(self)@.overlay,
            }),
            final(self).stats() == old(self).stats(),
    {
        let color = piece.shape.color();
        let mut i: usize = 0;
        while i < 4
            invariant
                i <= 4,
                self.wf(),
                self.stats() == old(self).stats(),
                forall|j: int| 0 <= j < 4 ==> on_board(#[trigger] piece.cells@[j]),
                self@ == (DrawModel {
                    board: placed(old(self)@.board, piece.cells@.subrange(0, i as int), color),
                    overlay: old(self)@.overlay,
                }),
            decreases 4 - i,
        {
            let (x, y) = piece.cells[i];
            assert(on_board(piece.cells@[i as int]));
            self.board.set(y as usize, x as usize, color);
            proof {
                let sub = piece.cells@.subrange(0, i + 1);
                assert(sub.drop_last() =~= piece.cells@.subrange(0, i as int));
            }
            i += 1;
        }
        assert(piece.cells@.subrange(0, 4) =~= piece.cells@);
    }

    /// Handles one event.
    fn apply(&mut self, event: &Event)
        requires
            old(self).wf(),
            valid_event(*event),
        ensures
            final(self).wf(),
            final(self)@ == applied(old(self)@, *event),
            final(self).stats() == old(self).stats(),
    {
        match event {
            Event::PiecePlaced { piece, cleared_lines } => {
                self.place(piece);
                if cleared_lines.len() == 0 {
                    self.state = State::Delay;
                } else {
                    self.state = State::LineClearAnimation(cleared_lines.clone(), 0);
                }
            },
            Event::PieceFalling(piece, ghost) => {
                self.state = State::Falling(*piece, *ghost);
            },
            Event::EndOfLineClearDelay => {
                self.state = State::Delay;
                self.board.retain_non_full();
            },
            Event::GarbageAdded(holes) => {
                self.board.prepend_garbage(holes.as_slice());
            },
            _ => {},
        }
    }

    /// One update: a running line-clear animation moves on by one frame, then
    /// the events are handled in order, a later one overriding the overlay an
    /// earlier one set.
    pub fn update(&mut self, events: &[Event])
        requires
            old(self).wf(),
            forall|i: int| 0 <= i < events@.len() ==> valid_event(#[trigger] events@[i]),
        ensures
            final(self).wf(),
            final(self)@ == advanced(old(self)@, events@),
            final(self).stats() == old(self).stats(),
    {
        if let State::LineClearAnimation(_, frames) = &mut self.state {
            *frames = frames.saturating_add(1);
        }
        let ghost start = self@;
        assert(start == ticked(old(self)@));
        let mut i: usize = 0;
        while i < events.len()
            invariant
                i <= events@.len(),
                self.wf(),
                self.stats() == old(self).stats(),
                forall|j: int| 0 <= j < events@.len() ==> valid_event(#[trigger] events@[j]),
                self@ == applied_all(start, events@.subrange(0, i as int)),
            decreases events@.len() - i,
        {
            assert(valid_event(events@[i as int]));
            self.apply(&events[i]);
            proof {
                let sub = events@.subrange(0, i + 1);
                assert(sub.drop_last() =~= events@.subrange(0, i as int));
            }
            i += 1;
        }
        assert(events@.subrange(0, i as int) =~= events@);
    }

    /// Appends one tile per cell of a piece, with sprite column `tx`.
    fn push_piece_tiles(tiles: &mut Vec<Tile>, piece: &FallingPiece, tx: i32, color: Rgb)
        ensures
            final(tiles)@ == old(tiles)@ + piece_tiles(piece.cells@, tx, color),
    {
        let ghost start = tiles@;
        let mut i: usize = 0;
        while i < 4
            invariant
                i <= 4,
                tiles@ == start + piece_tiles(piece.cells@.subrange(0, i as int), tx, color),
            decreases 4 - i,
        {
            let (x, y) = piece.cells[i];
            tiles.push(Tile { x, y, tx, ty: 0, color });
            assert(tiles@ =~= start + piece_tiles(piece.cells@.subrange(0, i + 1), tx, color));
            i += 1;
        }
        assert(piece.cells@.subrange(0, 4) =~= piece.cells@);
    }

    /// Appends the flash tiles of each row in `lines`.
    fn push_flash_tiles(tiles: &mut Vec<Tile>, lines: &Vec<i32>, fx: u32, fy: u32)
        requires
            fx <= 2,
            fy < 12,
        ensures
            final(tiles)@ == old(tiles)@ + flash_tiles(lines@, fx, fy),
    {
        let ghost start = tiles@;
        let white = Rgb { r: 255, g: 255, b: 255 };
        let left = (fx * 3 + 3) as i32;
        let middle = (fx * 3 + 4) as i32;
        let right = (fx * 3 + 5) as i32;
        let ty = fy as i32;
        let mut k: usize = 0;
        while k < lines.len()
            invariant
                k <= lines@.len(),
                fx <= 2,
                fy < 12,
                white == crate::tiles::white(),
                left == fx * 3 + 3,
                middle == fx * 3 + 4,
                right == fx * 3 + 5,
                ty == fy,
                tiles@ == start + flash_tiles(lines@.subrange(0, k as int), fx, fy),
            decreases lines@.len() - k,
        {
            let y = lines[k];
            let ghost before = tiles@;
            tiles.push(Tile { x: 0, y, tx: left, ty, color: white });
            tiles.push(Tile { x: 9, y, tx: right, ty, color: white });
            let mut x: i32 = 1;
            while x < 9
                invariant
                    1 <= x <= 9,
                    white == crate::tiles::white(),
                    middle == fx * 3 + 4,
                    ty == fy,
                    tiles@ == before + flash_row_tiles(y, fx, fy).subrange(0, x + 1),
                decreases 9 - x,
            {
                tiles.push(Tile { x, y, tx: middle, ty, color: white });
                assert(tiles@ =~= before + flash_row_tiles(y, fx, fy).subrange(0, x + 2));
                x += 1;
            }
            proof {
                let sub = lines@.subrange(0, k + 1);
                assert(sub.drop_last() =~= lines@.subrange(0, k as int));
                assert(flash_row_tiles(y, fx, fy).subrange(0, 10) =~= flash_row_tiles(y, fx, fy));
                assert(tiles@ =~= start + flash_tiles(sub, fx, fy));
            }
            k += 1;
        }
        assert(lines@.subrange(0, k as int) =~= lines@);
    }

    /// Lists what a frame is made of, in drawing order: a tile for each cell
    /// of the visible rows, bottom row first and each row left to right; then
    /// the ghost and the falling piece, or the flash of the clearing rows.
    pub fn draw(&self) -> (r: Vec<Tile>)
        requires
            self.wf(),
        ensures
            r@ == frame_tiles(self@),
    {
        let mut tiles: Vec<Tile> = Vec::new();
        let mut y: usize = 0;
        while y < VISIBLE_ROWS
            invariant
                y <= VISIBLE_ROWS,
                self.wf(),
                tiles@ == board_tiles(self@.board).subrange(0, (y * 10) as int),
            decreases VISIBLE_ROWS - y,
        {
            let row = self.board.row(y);
            let mut x: usize = 0;
            while x < BOARD_WIDTH
                invariant
                    x <= BOARD_WIDTH,
                    y < VISIBLE_ROWS,
                    self.wf(),
                    row == self@.board[y as int],
                    tiles@ == board_tiles(self@.board).subrange(0, (y * 10 + x) as int),
                decreases BOARD_WIDTH - x,
            {
                let c = row.cell_color(x);
                let tx: i32 = if c == CellColor::Empty {
                    0
                } else {
                    1
                };
                tiles.push(Tile { x: x as i32, y: y as i32, tx, ty: 0, color: cell_color_to_color(c) });
                proof {
                    let i = (y * 10 + x) as int;
                    assert(i / 10 == y && i % 10 == x);
                    assert(tiles@ =~= board_tiles(self@.board).subrange(0, i + 1));
                }
                x += 1;
            }
            y += 1;
        }
        assert(tiles@ =~= board_tiles(self@.board));
        match &self.state {
            State::Falling(piece, ghost) => {
                let color = cell_color_to_color(piece.shape.color());
                Self::push_piece_tiles(&mut tiles, ghost, 2, color);
                Self::push_piece_tiles(&mut tiles, piece, 1, color);
            },
            State::LineClearAnimation(lines, frame) => {
                let (fx, fy) = frame_pair(*frame);
                Self::push_flash_tiles(&mut tiles, lines, fx, fy);
            },
            State::Delay => {},
        }
        assert(tiles@ =~= frame_tiles(self@));
        tiles
    }
}

} // verus!
