//! What a frame is made of: one sprite tile per visible board cell, then the
//! tiles of the overlay. A renderer turns each tile into a draw call.
use vstd::prelude::*;

use crate::cells::{shape_color, CellColor, Row, BOARD_WIDTH};
use crate::draw_state::{DrawModel, Overlay};

verus! {

/// Number of rows, from the bottom, that are drawn.
pub const VISIBLE_ROWS: usize = 21;

/// The flash animation holds on this frame once it gets there.
pub const LAST_FLASH_FRAME: u32 = 35;

/// Frames per column of the flash animation in the sprite sheet.
pub const FLASH_FRAMES_PER_COLUMN: u32 = 12;

/// A colour as red, green and blue intensities.
#[derive(Clone, Copy, Debug, PartialEq, Eq, Structural)]
pub struct Rgb {
    pub r: u8,
    pub g: u8,
    pub b: u8,
}

/// The colour with the given intensities.
pub open spec fn rgb(r: u8, g: u8, b: u8) -> Rgb {
    Rgb { r, g, b }
}

/// Full intensity in all three channels.
pub open spec fn white() -> Rgb {
    rgb(255, 255, 255)
}

/// The colour each cell category is drawn in.
pub open spec fn rgb_of(c: CellColor) -> Rgb {
    match c {
        CellColor::Empty => white(),
        CellColor::Garbage => rgb(160, 160, 160),
        CellColor::Unclearable => rgb(64, 64, 64),
        CellColor::Z => rgb(255, 32, 32),
        CellColor::S => rgb(32, 255, 32),
        CellColor::O => rgb(255, 255, 32),
        CellColor::L => rgb(255, 143, 32),
        CellColor::J => rgb(96, 96, 255),
        CellColor::I => rgb(32, 255, 255),
        CellColor::T => rgb(143, 32, 255),
    }
}

/// The colour a cell category is drawn in.
pub fn cell_color_to_color(c: CellColor) -> (r: Rgb)
    ensures
        r == rgb_of(c),
{
    match c {
        CellColor::Empty => Rgb { r: 255, g: 255, b: 255 },
        CellColor::Garbage => Rgb { r: 160, g: 160, b: 160 },
        CellColor::Unclearable => Rgb { r: 64, g: 64, b: 64 },
        CellColor::Z => Rgb { r: 255, g: 32, b: 32 },
        CellColor::S => Rgb { r: 32, g: 255, b: 32 },
        CellColor::O => Rgb { r: 255, g: 255, b: 32 },
        CellColor::L => Rgb { r: 255, g: 143, b: 32 },
        CellColor::J => Rgb { r: 96, g: 96, b: 255 },
        CellColor::I => Rgb { r: 32, g: 255, b: 255 },
        CellColor::T => Rgb { r: 143, g: 32, b: 255 },
    }
}

/// One sprite to draw: board cell `(x, y)`, row 0 at the bottom, gets the
/// sprite-sheet tile in column `tx`, row `ty`, tinted with `color`.
#[derive(Clone, Copy, Debug, PartialEq, Eq, Structural)]
pub struct Tile {
    pub x: i32,
    pub y: i32,
    pub tx: i32,
    pub ty: i32,
    pub color: Rgb,
}

/// The sprite-sheet position of flash frame `f`: column and row.
pub open spec fn spec_frame_pair(f: u32) -> (u32, u32) {
    let capped = if f < LAST_FLASH_FRAME {
        f
    } else {
        LAST_FLASH_FRAME
    };
    ((capped / FLASH_FRAMES_PER_COLUMN) as u32, (capped % FLASH_FRAMES_PER_COLUMN) as u32)
}

/// The sprite-sheet column and row of flash frame `frame`; frames past the
/// last one show the last one.
pub fn frame_pair(frame: u32) -> (r: (u32, u32))
    ensures
        r == spec_frame_pair(frame),
        r.0 <= 2,
        r.1 < FLASH_FRAMES_PER_COLUMN,
{
    let capped = if frame < LAST_FLASH_FRAME {
        frame
    } else {
        LAST_FLASH_FRAME
    };
    (capped / FLASH_FRAMES_PER_COLUMN, capped % FLASH_FRAMES_PER_COLUMN)
}

/// Sprite positions in the order the animation shows them: by column, then
/// by row.
pub open spec fn shown_no_later(a: (u32, u32), b: (u32, u32)) -> bool {
    a.0 < b.0 || (a.0 == b.0 && a.1 <= b.1)
}

/// A later frame never shows an earlier sprite, and every frame from the
/// last flash frame on shows the sprite in column 2, row 11.
pub proof fn lemma_frame_pair_monotone(f1: u32, f2: u32)
    ensures
        f1 <= f2 ==> shown_no_later(spec_frame_pair(f1), spec_frame_pair(f2)),
        f1 >= LAST_FLASH_FRAME ==> spec_frame_pair(f1) == (2u32, 11u32),
{
}

/// The tile of a board cell: a plain one for an empty cell, a block for
/// any other, in the cell's colour.
pub open spec fn cell_tile(x: int, y: int, c: CellColor) -> Tile {
    Tile {
        x: x as i32,
        y: y as i32,
        tx: if c == CellColor::Empty {
            0
        } else {
            1
        },
        ty: 0,
        color: rgb_of(c),
    }
}

/// The tiles of the visible rows, bottom row first, each row left to right.
pub open spec fn board_tiles(board: Seq<Row>) -> Seq<Tile> {
    Seq::new(
        (VISIBLE_ROWS * BOARD_WIDTH) as nat,
        |i: int| cell_tile(i % 10, i / 10, board[i / 10]@[i % 10]),
    )
}

/// One tile per cell of a piece.
pub open spec fn piece_tiles(cells: Seq<(i32, i32)>, tx: i32, color: Rgb) -> Seq<Tile> {
    cells.map_values(|c: (i32, i32)| Tile { x: c.0, y: c.1, tx, ty: 0, color })
}

/// A white flash tile for cell `(x, y)` from sprite column `tx`, row `ty`.
pub open spec fn flash_tile(x: int, y: i32, tx: int, ty: u32) -> Tile {
    Tile { x: x as i32, y, tx: tx as i32, ty: ty as i32, color: white() }
}

/// The flash tiles of row `y`: its left end, its right end, then the eight
/// cells between, left to right.
pub open spec fn flash_row_tiles(y: i32, fx: u32, fy: u32) -> Seq<Tile> {
    seq![flash_tile(0, y, fx * 3 + 3, fy), flash_tile(9, y, fx * 3 + 5, fy)] + Seq::new(
        8,
        |i: int| flash_tile(i + 1, y, fx * 3 + 4, fy),
    )
}

/// The flash tiles of each row in `lines`, in order.
pub open spec fn flash_tiles(lines: Seq<i32>, fx: u32, fy: u32) -> Seq<Tile>
    decreases lines.len(),
{
    if lines.len() == 0 {
        Seq::empty()
    } else {
        flash_tiles(lines.drop_last(), fx, fy) + flash_row_tiles(lines.last(), fx, fy)
    }
}

/// The tiles drawn above the board: the ghost and then the piece, both in
/// the piece's colour; or the flash of the clearing rows; or nothing.
pub open spec fn overlay_tiles(o: Overlay) -> Seq<Tile> {
    match o {
        Overlay::Falling(p, g) => piece_tiles(g.cells@, 2, rgb_of(shape_color(p.shape)))
            + piece_tiles(p.cells@, 1, rgb_of(shape_color(p.shape))),
        Overlay::LineClearing(lines, f) => flash_tiles(
            lines,
            spec_frame_pair(f).0,
            spec_frame_pair(f).1,
        ),
        Overlay::Idle => Seq::empty(),
    }
}

/// Everything drawn in a frame, in drawing order.
pub open spec fn frame_tiles(m: DrawModel) -> Seq<Tile> {
    board_tiles(m.board) + overlay_tiles(m.overlay)
}

} // verus!
