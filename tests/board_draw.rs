use board_draw::board::{Board, BOARD_HEIGHT};
use board_draw::cells::{CellColor, Row, Shape, BOARD_WIDTH};
use board_draw::draw_state::{BoardDrawState, Event, FallingPiece, State, Statistics};
use board_draw::tiles::{cell_color_to_color, frame_pair, Rgb, Tile};

fn piece(shape: Shape, cells: [(i32, i32); 4]) -> FallingPiece {
    FallingPiece { shape, cells }
}

fn placed(p: FallingPiece, cleared: Vec<i32>) -> Event {
    Event::PiecePlaced { piece: p, cleared_lines: cleared }
}

fn frame_of(s: &BoardDrawState) -> Option<u32> {
    match s.state() {
        State::LineClearAnimation(_, f) => Some(*f),
        _ => None,
    }
}

fn row_colors(b: &Board, y: usize) -> Vec<CellColor> {
    (0..BOARD_WIDTH).map(|x| b.cell_color(y, x)).collect()
}

fn fill_row(b: &mut Board, y: usize, c: CellColor) {
    for x in 0..BOARD_WIDTH {
        b.set(y, x, c);
    }
}

#[test]
fn new_state_is_empty_and_idle() {
    let s = BoardDrawState::new();
    assert!(matches!(s.state(), State::Delay));
    assert_eq!(s.board().len(), BOARD_HEIGHT);
    for y in 0..BOARD_HEIGHT {
        assert_eq!(row_colors(s.board(), y), vec![CellColor::Empty; BOARD_WIDTH]);
    }
    assert_eq!(s.statistics, Statistics::default());
    assert_eq!(s.statistics.pieces, 0);
}

#[test]
fn falling_place_clear_scenario() {
    let mut s = BoardDrawState::new();
    let a = piece(Shape::O, [(8, 1), (9, 1), (8, 0), (9, 0)]);
    let g = piece(Shape::O, [(8, 1), (9, 1), (8, 0), (9, 0)]);
    let high = piece(Shape::O, [(8, 21), (9, 21), (8, 20), (9, 20)]);
    s.update(&[Event::PieceFalling(high, g)]);
    match s.state() {
        State::Falling(p, q) => {
            assert_eq!(*p, high);
            assert_eq!(*q, g);
        }
        _ => panic!("expected a falling piece"),
    }
    s.update(&[
        placed(piece(Shape::I, [(0, 0), (1, 0), (2, 0), (3, 0)]), vec![]),
        placed(piece(Shape::I, [(4, 0), (5, 0), (6, 0), (7, 0)]), vec![]),
        Event::PieceFalling(a, g),
    ]);
    match s.state() {
        State::Falling(p, _) => assert_eq!(*p, a),
        _ => panic!("expected a falling piece"),
    }
    s.update(&[placed(a, vec![0])]);
    match s.state() {
        State::LineClearAnimation(lines, f) => {
            assert_eq!(lines, &vec![0]);
            assert_eq!(*f, 0);
        }
        _ => panic!("expected a line clear"),
    }
    assert!(s.board().is_full(0));
    assert_eq!(s.board().cell_color(0, 0), CellColor::I);
    assert_eq!(s.board().cell_color(0, 9), CellColor::O);
    s.update(&[Event::EndOfLineClearDelay]);
    assert!(matches!(s.state(), State::Delay));
    assert!(!s.board().is_full(0));
    assert_eq!(s.board().len(), BOARD_HEIGHT);
    let mut expected = vec![CellColor::Empty; BOARD_WIDTH];
    expected[8] = CellColor::O;
    expected[9] = CellColor::O;
    assert_eq!(row_colors(s.board(), 0), expected);
    assert_eq!(row_colors(s.board(), 1), vec![CellColor::Empty; BOARD_WIDTH]);
}

#[test]
fn placement_without_clear_goes_idle() {
    let mut s = BoardDrawState::new();
    let p = piece(Shape::T, [(3, 0), (4, 0), (5, 0), (4, 1)]);
    s.update(&[Event::PieceFalling(p, p), placed(p, vec![])]);
    assert!(matches!(s.state(), State::Delay));
    assert_eq!(s.board().cell_color(1, 4), CellColor::T);
    assert_eq!(s.board().cell_color(1, 3), CellColor::Empty);
}

#[test]
fn placements_in_a_batch_keep_cleared_rows_until_the_delay_ends() {
    let mut s = BoardDrawState::new();
    s.update(&[
        placed(piece(Shape::I, [(0, 0), (1, 0), (2, 0), (3, 0)]), vec![]),
        placed(piece(Shape::I, [(4, 0), (5, 0), (6, 0), (7, 0)]), vec![]),
        placed(piece(Shape::J, [(8, 0), (9, 0), (9, 1), (9, 2)]), vec![0]),
    ]);
    assert_eq!(frame_of(&s), Some(0));
    assert!(s.board().is_full(0));
    assert_eq!(s.board().cell_color(2, 9), CellColor::J);
    s.update(&[]);
    assert_eq!(frame_of(&s), Some(1));
    assert!(s.board().is_full(0));
    s.update(&[Event::EndOfLineClearDelay]);
    assert!(!s.board().is_full(0));
    assert_eq!(s.board().cell_color(0, 9), CellColor::J);
    assert_eq!(s.board().cell_color(1, 9), CellColor::J);
    assert_eq!(s.board().cell_color(2, 9), CellColor::Empty);
}

#[test]
fn later_events_override_earlier_ones() {
    let mut s = BoardDrawState::new();
    let p = piece(Shape::L, [(0, 5), (1, 5), (2, 5), (2, 6)]);
    let q = piece(Shape::S, [(0, 10), (1, 10), (1, 11), (2, 11)]);
    s.update(&[Event::PieceFalling(p, p), Event::PieceFalling(q, p)]);
    match s.state() {
        State::Falling(a, b) => {
            assert_eq!(*a, q);
            assert_eq!(*b, p);
        }
        _ => panic!("expected a falling piece"),
    }
    s.update(&[Event::PieceFalling(p, p), Event::EndOfLineClearDelay]);
    assert!(matches!(s.state(), State::Delay));
}

#[test]
fn other_events_change_nothing() {
    let mut s = BoardDrawState::new();
    let p = piece(Shape::Z, [(0, 1), (1, 1), (1, 0), (2, 0)]);
    s.update(&[Event::PieceFalling(p, p)]);
    s.update(&[Event::PieceSpawned, Event::PieceHeld(Shape::I), Event::GameOver]);
    match s.state() {
        State::Falling(a, _) => assert_eq!(*a, p),
        _ => panic!("expected a falling piece"),
    }
    for y in 0..BOARD_HEIGHT {
        assert_eq!(row_colors(s.board(), y), vec![CellColor::Empty; BOARD_WIDTH]);
    }
}

#[test]
fn flash_frames_cap_after_fifty_updates() {
    let mut s = BoardDrawState::new();
    s.update(&[
        placed(piece(Shape::I, [(0, 0), (1, 0), (2, 0), (3, 0)]), vec![]),
        placed(piece(Shape::I, [(4, 0), (5, 0), (6, 0), (7, 0)]), vec![]),
        placed(piece(Shape::O, [(8, 0), (9, 0), (8, 1), (9, 1)]), vec![0]),
    ]);
    for _ in 1..50 {
        s.update(&[]);
    }
    let f = frame_of(&s).unwrap();
    assert_eq!(f, 49);
    assert_eq!(frame_pair(f), (2, 11));
    let mut last = frame_pair(0);
    for _ in 0..20 {
        s.update(&[]);
        let now = frame_pair(frame_of(&s).unwrap());
        assert!(now >= last);
        assert_eq!(now, (2, 11));
        last = now;
    }
    assert!(s.board().is_full(0));
}

#[test]
fn frame_pair_values() {
    assert_eq!(frame_pair(0), (0, 0));
    assert_eq!(frame_pair(11), (0, 11));
    assert_eq!(frame_pair(12), (1, 0));
    assert_eq!(frame_pair(35), (2, 11));
    assert_eq!(frame_pair(36), (2, 11));
    assert_eq!(frame_pair(u32::MAX), (2, 11));
    let mut prev = frame_pair(0);
    for f in 1..100 {
        let now = frame_pair(f);
        assert!(now >= prev);
        prev = now;
    }
}

#[test]
fn set_and_is_full() {
    let mut b = Board::new();
    assert!(!b.is_full(3));
    fill_row(&mut b, 3, CellColor::Garbage);
    assert!(b.is_full(3));
    b.set(3, 7, CellColor::Empty);
    assert!(!b.is_full(3));
    assert_eq!(b.cell_color(3, 7), CellColor::Empty);
    assert_eq!(b.cell_color(3, 6), CellColor::Garbage);
    b.set(39, 9, CellColor::Unclearable);
    assert_eq!(b.cell_color(39, 9), CellColor::Unclearable);
    assert!(b.row(3).has_empty_cell());
    assert!(!b.row(3).is_full());
}

#[test]
fn retain_removes_full_rows_and_refills() {
    let mut b = Board::new();
    fill_row(&mut b, 0, CellColor::Garbage);
    b.set(1, 2, CellColor::T);
    fill_row(&mut b, 2, CellColor::I);
    b.set(3, 5, CellColor::S);
    fill_row(&mut b, 39, CellColor::Z);
    b.retain_non_full();
    assert_eq!(b.len(), BOARD_HEIGHT);
    assert_eq!(b.cell_color(0, 2), CellColor::T);
    assert_eq!(b.cell_color(1, 5), CellColor::S);
    for y in 2..BOARD_HEIGHT {
        assert_eq!(row_colors(&b, y), vec![CellColor::Empty; BOARD_WIDTH]);
    }
}

#[test]
fn retain_is_idempotent() {
    let mut b = Board::new();
    fill_row(&mut b, 4, CellColor::L);
    b.set(5, 0, CellColor::J);
    fill_row(&mut b, 6, CellColor::L);
    b.set(7, 9, CellColor::O);
    b.retain_non_full();
    let once: Vec<Vec<CellColor>> = (0..BOARD_HEIGHT).map(|y| row_colors(&b, y)).collect();
    b.retain_non_full();
    let twice: Vec<Vec<CellColor>> = (0..BOARD_HEIGHT).map(|y| row_colors(&b, y)).collect();
    assert_eq!(once, twice);
    assert_eq!(b.cell_color(4, 0), CellColor::J);
    assert_eq!(b.cell_color(5, 9), CellColor::O);
    assert!(!b.is_full(4));
}

#[test]
fn retain_on_board_of_full_rows_gives_empty_board() {
    let mut b = Board::new();
    for y in 0..BOARD_HEIGHT {
        fill_row(&mut b, y, CellColor::Garbage);
    }
    b.retain_non_full();
    assert_eq!(b.len(), BOARD_HEIGHT);
    for y in 0..BOARD_HEIGHT {
        assert_eq!(row_colors(&b, y), vec![CellColor::Empty; BOARD_WIDTH]);
    }
}

#[test]
fn garbage_rows_push_board_up() {
    let mut s = BoardDrawState::new();
    let p = piece(Shape::T, [(3, 0), (4, 0), (5, 0), (4, 1)]);
    s.update(&[Event::PieceFalling(p, p)]);
    s.update(&[placed(p, vec![]), Event::PieceFalling(p, p), Event::GarbageAdded(vec![2, 7])]);
    assert_eq!(s.board().len(), BOARD_HEIGHT);
    assert!(matches!(s.state(), State::Falling(_, _)));
    let mut bottom = vec![CellColor::Garbage; BOARD_WIDTH];
    bottom[7] = CellColor::Empty;
    let mut second = vec![CellColor::Garbage; BOARD_WIDTH];
    second[2] = CellColor::Empty;
    assert_eq!(row_colors(s.board(), 0), bottom);
    assert_eq!(row_colors(s.board(), 1), second);
    assert_eq!(s.board().cell_color(2, 4), CellColor::T);
    assert_eq!(s.board().cell_color(3, 4), CellColor::T);
    assert_eq!(s.board().cell_color(2, 0), CellColor::Empty);
}

#[test]
fn garbage_drops_top_rows() {
    let mut b = Board::new();
    fill_row(&mut b, 39, CellColor::Unclearable);
    b.set(38, 0, CellColor::S);
    b.prepend_garbage(&[0]);
    assert_eq!(b.len(), BOARD_HEIGHT);
    assert_eq!(b.cell_color(39, 0), CellColor::S);
    assert_eq!(b.cell_color(39, 1), CellColor::Empty);
    assert_eq!(b.cell_color(0, 0), CellColor::Empty);
    for x in 1..BOARD_WIDTH {
        assert_eq!(b.cell_color(0, x), CellColor::Garbage);
    }
}

#[test]
fn garbage_of_full_height_replaces_everything() {
    let mut b = Board::new();
    let holes: Vec<usize> = (0..BOARD_HEIGHT).map(|i| i % BOARD_WIDTH).collect();
    b.prepend_garbage(&holes);
    assert_eq!(b.len(), BOARD_HEIGHT);
    for y in 0..BOARD_HEIGHT {
        let hole = holes[BOARD_HEIGHT - 1 - y];
        for x in 0..BOARD_WIDTH {
            let expect = if x == hole { CellColor::Empty } else { CellColor::Garbage };
            assert_eq!(b.cell_color(y, x), expect);
        }
    }
}

#[test]
fn empty_garbage_changes_nothing() {
    let mut b = Board::new();
    b.set(0, 0, CellColor::I);
    b.prepend_garbage(&[]);
    assert_eq!(b.cell_color(0, 0), CellColor::I);
    assert_eq!(b.len(), BOARD_HEIGHT);
}

#[test]
fn garbage_rows_built_alone() {
    let r = Row::garbage(4);
    for x in 0..BOARD_WIDTH {
        let expect = if x == 4 { CellColor::Empty } else { CellColor::Garbage };
        assert_eq!(r.cell_color(x), expect);
    }
    assert!(!r.is_full());
    assert!(Row::garbage(10).is_full());
    assert!(!Row::empty().is_full());
    let mut e = Row::empty();
    e.set(3, CellColor::Z);
    assert_eq!(e.cell_color(3), CellColor::Z);
}

#[test]
fn shape_colors() {
    assert_eq!(Shape::I.color(), CellColor::I);
    assert_eq!(Shape::O.color(), CellColor::O);
    assert_eq!(Shape::T.color(), CellColor::T);
    assert_eq!(Shape::L.color(), CellColor::L);
    assert_eq!(Shape::J.color(), CellColor::J);
    assert_eq!(Shape::S.color(), CellColor::S);
    assert_eq!(Shape::Z.color(), CellColor::Z);
}

#[test]
fn cell_colors_to_rgb() {
    assert_eq!(cell_color_to_color(CellColor::Empty), Rgb { r: 255, g: 255, b: 255 });
    assert_eq!(cell_color_to_color(CellColor::Garbage), Rgb { r: 160, g: 160, b: 160 });
    assert_eq!(cell_color_to_color(CellColor::Unclearable), Rgb { r: 64, g: 64, b: 64 });
    assert_eq!(cell_color_to_color(CellColor::Z), Rgb { r: 255, g: 32, b: 32 });
    assert_eq!(cell_color_to_color(CellColor::S), Rgb { r: 32, g: 255, b: 32 });
    assert_eq!(cell_color_to_color(CellColor::O), Rgb { r: 255, g: 255, b: 32 });
    assert_eq!(cell_color_to_color(CellColor::L), Rgb { r: 255, g: 143, b: 32 });
    assert_eq!(cell_color_to_color(CellColor::J), Rgb { r: 96, g: 96, b: 255 });
    assert_eq!(cell_color_to_color(CellColor::I), Rgb { r: 32, g: 255, b: 255 });
    assert_eq!(cell_color_to_color(CellColor::T), Rgb { r: 143, g: 32, b: 255 });
}

#[test]
fn draw_lists_visible_cells_then_overlay() {
    let mut s = BoardDrawState::new();
    let p = piece(Shape::J, [(0, 20), (1, 20), (2, 20), (0, 21)]);
    let g = piece(Shape::J, [(0, 0), (1, 0), (2, 0), (0, 1)]);
    s.update(&[placed(piece(Shape::S, [(5, 0), (6, 0), (6, 1), (7, 1)]), vec![])]);
    s.update(&[Event::PieceFalling(p, g)]);
    let tiles = s.draw();
    assert_eq!(tiles.len(), 21 * 10 + 8);
    let white = Rgb { r: 255, g: 255, b: 255 };
    assert_eq!(tiles[0], Tile { x: 0, y: 0, tx: 0, ty: 0, color: white });
    assert_eq!(tiles[5], Tile { x: 5, y: 0, tx: 1, ty: 0, color: cell_color_to_color(CellColor::S) });
    assert_eq!(tiles[17], Tile { x: 7, y: 1, tx: 1, ty: 0, color: cell_color_to_color(CellColor::S) });
    assert_eq!(tiles[209], Tile { x: 9, y: 20, tx: 0, ty: 0, color: white });
    let jc = cell_color_to_color(CellColor::J);
    assert_eq!(tiles[210], Tile { x: 0, y: 0, tx: 2, ty: 0, color: jc });
    assert_eq!(tiles[213], Tile { x: 0, y: 1, tx: 2, ty: 0, color: jc });
    assert_eq!(tiles[214], Tile { x: 0, y: 20, tx: 1, ty: 0, color: jc });
    assert_eq!(tiles[217], Tile { x: 0, y: 21, tx: 1, ty: 0, color: jc });
}

#[test]
fn draw_idle_lists_only_cells() {
    let s = BoardDrawState::new();
    let tiles = s.draw();
    assert_eq!(tiles.len(), 210);
    assert!(tiles.iter().all(|t| t.tx == 0 && t.ty == 0));
}

#[test]
fn draw_flash_tiles() {
    let mut s = BoardDrawState::new();
    s.update(&[
        placed(piece(Shape::I, [(0, 0), (1, 0), (2, 0), (3, 0)]), vec![]),
        placed(piece(Shape::I, [(4, 0), (5, 0), (6, 0), (7, 0)]), vec![]),
        placed(piece(Shape::O, [(8, 0), (9, 0), (8, 1), (9, 1)]), vec![0, 3]),
    ]);
    for _ in 0..13 {
        s.update(&[]);
    }
    let (fx, fy) = frame_pair(13);
    assert_eq!((fx, fy), (1, 1));
    let tiles = s.draw();
    assert_eq!(tiles.len(), 210 + 20);
    let white = Rgb { r: 255, g: 255, b: 255 };
    assert_eq!(tiles[210], Tile { x: 0, y: 0, tx: 6, ty: 1, color: white });
    assert_eq!(tiles[211], Tile { x: 9, y: 0, tx: 8, ty: 1, color: white });
    for i in 0..8 {
        assert_eq!(tiles[212 + i], Tile { x: 1 + i as i32, y: 0, tx: 7, ty: 1, color: white });
    }
    assert_eq!(tiles[220], Tile { x: 0, y: 3, tx: 6, ty: 1, color: white });
    assert_eq!(tiles[229], Tile { x: 8, y: 3, tx: 7, ty: 1, color: white });
}
