//! A visual model of a falling-block puzzle board: a fixed-height row buffer
//! and the animation state machine that consumes gameplay events and says
//! what a renderer should draw.

mod array_vec;
pub mod board;
pub mod cells;
pub mod draw_state;
pub mod tiles;

pub use board::{Board, BOARD_HEIGHT};
pub use cells::{CellColor, Row, Shape, BOARD_WIDTH};
pub use draw_state::{BoardDrawState, Event, FallingPiece, State, Statistics};
pub use tiles::{Rgb, Tile};
