use tetris::bag::Bag;
use tetris::gamescore::GameScore;
use tetris::gamestate::GameState;
use tetris::tetlib::{full_line, ghost_piece, gravity, handle_input, hold, init, landed, new_piece};
use tetris::tetrominoe::{PieceType, State, TColor, Tetrominoe};

const ALL: [PieceType; 7] = [
    PieceType::I,
    PieceType::J,
    PieceType::L,
    PieceType::O,
    PieceType::S,
    PieceType::T,
    PieceType::Z,
];

/// An empty board waiting for a spawn, whose next piece is `next`.
fn ready(width: usize, height: usize, next: PieceType) -> GameState {
    GameState {
        display: init(width, height),
        active_piece: Tetrominoe::new(None, None),
        hold_piece: None,
        next_piece: Tetrominoe::from(next, None),
        counter: 0,
        is_game_over: false,
        bag: Bag::new(),
        gamescore: GameScore::new(),
    }
}

fn cell(state: State, color: TColor) -> Tetrominoe {
    Tetrominoe::new(Some(state), Some(color))
}

/// Puts `p` on the board as the active piece.
fn place(gs: &mut GameState, p: Tetrominoe) {
    for i in 0..4 {
        for j in 0..4 {
            if p.shape[i][j] {
                let c = (p.col + j as i64) as usize;
                gs.display[p.row + i][c] = cell(State::Active, p.color);
            }
        }
    }
    gs.active_piece = p;
}

fn piece_at(kind: PieceType, row: usize, col: i64) -> Tetrominoe {
    let mut p = Tetrominoe::from(kind, None);
    p.set_pos(row, col);
    p
}

fn cells_in(gs: &GameState, state: State) -> Vec<(usize, usize)> {
    let mut out = Vec::new();
    for (r, row) in gs.display.iter().enumerate() {
        for (c, t) in row.iter().enumerate() {
            if t.game_state == state {
                out.push((r, c));
            }
        }
    }
    out
}

fn footprint(p: &Tetrominoe) -> Vec<(usize, usize)> {
    let mut out = Vec::new();
    for i in 0..4 {
        for j in 0..4 {
            if p.shape[i][j] {
                out.push((p.row + i, (p.col + j as i64) as usize));
            }
        }
    }
    out.sort();
    out
}

fn assert_single_footprint(gs: &GameState) {
    assert_eq!(cells_in(gs, State::Active), footprint(&gs.active_piece));
    for (r, c) in footprint(&gs.active_piece) {
        assert_eq!(gs.display[r][c].color, gs.active_piece.color);
    }
}

fn land_row_except(gs: &mut GameState, row: usize, hole: usize) {
    for c in 0..gs.display[row].len() {
        if c != hole {
            gs.display[row][c] = cell(State::Landed, TColor::Red);
        }
    }
}

#[test]
fn spawn_i_writes_cyan_column() {
    let mut gs = ready(10, 20, PieceType::I);
    assert!(!new_piece(&mut gs, None));
    assert_eq!(gs.active_piece.row, 0);
    assert_eq!(gs.active_piece.col, 4);
    assert_eq!(gs.active_piece.ptype, Some(PieceType::I));
    assert_eq!(cells_in(&gs, State::Active), vec![(0, 4), (1, 4), (2, 4), (3, 4)]);
    for r in 0..4 {
        assert_eq!(gs.display[r][4].color, TColor::Cyan);
    }
    assert!(gs.next_piece.ptype.is_some());
}

#[test]
fn spawn_each_kind_matches_its_shape() {
    for k in ALL {
        let mut gs = ready(10, 20, PieceType::O);
        assert!(!new_piece(&mut gs, Some(k)));
        assert_single_footprint(&gs);
        assert_eq!(cells_in(&gs, State::Active).len(), 4);
        assert_eq!(gs.active_piece.row, 0);
        assert_eq!(gs.active_piece.col, 4);
        assert!(footprint(&gs.active_piece).iter().any(|&(r, _)| r == 0));
        assert_eq!(gs.next_piece.ptype, Some(PieceType::O));
    }
}

#[test]
fn spawn_on_taken_cell_ends_game() {
    let mut gs = ready(10, 20, PieceType::T);
    gs.display[0][5] = cell(State::Landed, TColor::Red);
    assert!(new_piece(&mut gs, None));
    assert!(gs.is_game_over);
    assert_eq!(cells_in(&gs, State::Active).len(), 0);
    assert_eq!(gs.next_piece.ptype, Some(PieceType::T));
    assert!(gravity(&mut gs));
    assert!(gs.is_game_over);
}

#[test]
fn line_clear_of_one_row_scores_forty() {
    let mut gs = ready(10, 20, PieceType::O);
    land_row_except(&mut gs, 19, 5);
    gs.display[18][0] = cell(State::Landed, TColor::Blue);
    place(&mut gs, piece_at(PieceType::I, 16, 5));
    assert!(!gravity(&mut gs));
    // the lock fills row 19; the next piece spawns before the pass clears it
    assert_eq!(gs.gamescore.score, 0);
    assert_eq!(gs.display[19][5].game_state, State::Landed);
    assert_eq!(gs.active_piece.ptype, Some(PieceType::O));
    assert_eq!(gs.active_piece.row, 0);
    full_line(&mut gs);
    assert_eq!(gs.gamescore.score, 40);
    assert_eq!(gs.gamescore.level, 0);
    // the old row 18 is now row 19, the piece's other cells moved down one
    assert_eq!(gs.display[19][0].game_state, State::Landed);
    assert_eq!(gs.display[19][0].color, TColor::Blue);
    for r in 17..20 {
        assert_eq!(gs.display[r][5].game_state, State::Landed);
        assert_eq!(gs.display[r][5].color, TColor::Cyan);
    }
    for c in 1..10 {
        if c != 5 {
            assert_eq!(gs.display[19][c].game_state, State::Empty);
        }
    }
    assert_eq!(gs.display[16][5].game_state, State::Empty);
    // the spawned piece moved down with the rows around it
    assert_eq!(gs.active_piece.ptype, Some(PieceType::O));
    assert_eq!(gs.active_piece.row, 1);
    assert_eq!(cells_in(&gs, State::Active), vec![(1, 5), (1, 6), (2, 5), (2, 6)]);
    assert_single_footprint(&gs);
}

#[test]
fn four_rows_at_level_zero_score_twelve_hundred() {
    let mut gs = ready(10, 20, PieceType::T);
    for r in 16..20 {
        land_row_except(&mut gs, r, 5);
    }
    place(&mut gs, piece_at(PieceType::I, 16, 5));
    assert!(!gravity(&mut gs));
    assert_eq!(gs.gamescore.score, 0);
    full_line(&mut gs);
    assert_eq!(gs.gamescore.score, 1200);
    assert_eq!(gs.gamescore.level, 1);
    assert_eq!(cells_in(&gs, State::Landed).len(), 0);
    assert_eq!(gs.active_piece.row, 4);
    assert_single_footprint(&gs);
}

#[test]
fn score_formula_scales_with_level() {
    let mut s = GameScore { score: 1500, level: 1 };
    s.add_lines(2);
    assert_eq!(s.score, 1700);
    assert_eq!(s.level, 1);
    s.add_lines(3);
    assert_eq!(s.score, 2300);
    assert_eq!(s.level, 2);
    s.add_lines(1);
    assert_eq!(s.score, 2420);
    s.add_lines(0);
    assert_eq!(s.score, 2420);
    s.add_lines(5);
    assert_eq!(s.score, 2420);
    assert_eq!(s.level, 2);
    let mut top = GameScore { score: u32::MAX - 10, level: (u32::MAX - 10) / 1000 };
    top.add_lines(4);
    assert_eq!(top.score, u32::MAX);
    assert_eq!(top.level, u32::MAX / 1000);
}

#[test]
fn hold_then_hold_swaps_back() {
    let mut gs = GameState::new(10, 20);
    let first = gs.active_piece.ptype;
    let next = gs.next_piece.ptype;
    hold(&mut gs);
    assert_eq!(gs.hold_piece.map(|h| h.ptype), Some(first));
    assert_eq!(gs.active_piece.ptype, next);
    assert_single_footprint(&gs);
    hold(&mut gs);
    assert_eq!(gs.active_piece.ptype, first);
    assert_eq!(gs.hold_piece.map(|h| h.ptype), Some(next));
    assert_single_footprint(&gs);
}

#[test]
fn gravity_on_landed_floor_locks_without_moving() {
    let mut gs = ready(10, 20, PieceType::L);
    place(&mut gs, piece_at(PieceType::O, 10, 4));
    gs.display[12][5] = cell(State::Landed, TColor::Red);
    gs.display[12][6] = cell(State::Landed, TColor::Red);
    assert!(!gravity(&mut gs));
    for (r, c) in [(10, 5), (10, 6), (11, 5), (11, 6)] {
        assert_eq!(gs.display[r][c].game_state, State::Landed);
        assert_eq!(gs.display[r][c].color, TColor::Yellow);
    }
    assert_eq!(gs.active_piece.ptype, Some(PieceType::L));
    assert_eq!(cells_in(&gs, State::Active).len(), 4);
    assert_single_footprint(&gs);
}

#[test]
fn gravity_moves_piece_one_row() {
    let mut gs = ready(10, 20, PieceType::L);
    assert!(!new_piece(&mut gs, None));
    assert!(!gravity(&mut gs));
    assert_eq!(gs.active_piece.row, 1);
    assert_single_footprint(&gs);
}

#[test]
fn move_into_wall_is_rejected() {
    let mut gs = ready(10, 20, PieceType::O);
    place(&mut gs, piece_at(PieceType::I, 5, 0));
    let before = gs.display.clone();
    handle_input(&mut gs, 'l');
    assert_eq!(gs.display, before);
    assert_eq!(gs.active_piece.col, 0);
    handle_input(&mut gs, 'r');
    assert_eq!(gs.active_piece.col, 1);
    assert_single_footprint(&gs);
}

#[test]
fn move_onto_landed_is_rejected() {
    let mut gs = ready(10, 20, PieceType::O);
    place(&mut gs, piece_at(PieceType::I, 5, 5));
    gs.display[7][6] = cell(State::Landed, TColor::Red);
    let before = gs.display.clone();
    handle_input(&mut gs, 'r');
    assert_eq!(gs.display, before);
    assert_eq!(gs.active_piece.col, 5);
    handle_input(&mut gs, 'l');
    assert_eq!(gs.active_piece.col, 4);
    assert_single_footprint(&gs);
}

#[test]
fn rotation_blocked_keeps_rotation_state() {
    let mut gs = ready(10, 20, PieceType::O);
    place(&mut gs, piece_at(PieceType::T, 5, 4));
    // T turns to the right-facing table, which needs (7, 5)
    gs.display[7][5] = cell(State::Landed, TColor::Red);
    let before = gs.display.clone();
    let piece = gs.active_piece;
    handle_input(&mut gs, 'u');
    assert_eq!(gs.display, before);
    assert_eq!(gs.active_piece, piece);
    assert_eq!(gs.active_piece.rotation_state, 0);
}

#[test]
fn rotation_t_cycles_four_tables() {
    let mut gs = ready(10, 20, PieceType::O);
    place(&mut gs, piece_at(PieceType::T, 5, 4));
    for expected in [1, 2, 3, 0] {
        handle_input(&mut gs, 'u');
        assert_eq!(gs.active_piece.rotation_state, expected);
        assert_single_footprint(&gs);
    }
    assert_eq!(gs.active_piece.shape, Tetrominoe::from(PieceType::T, None).shape);
}

#[test]
fn rotation_i_turns_clockwise() {
    let mut p = Tetrominoe::from(PieceType::I, None);
    p.rotate();
    assert_eq!(p.shape[0], [true, true, true, true]);
    assert_eq!(p.shape[1], [false, false, false, false]);
    p.rotate();
    for i in 0..4 {
        assert_eq!(p.shape[i], [false, false, false, true]);
    }
    let mut o = Tetrominoe::from(PieceType::O, None);
    let before = o;
    o.rotate();
    assert_eq!(o, before);
}

#[test]
fn rotation_s_and_z_toggle() {
    for k in [PieceType::S, PieceType::Z] {
        let start = Tetrominoe::from(k, None);
        let mut p = start;
        p.rotate();
        assert_eq!(p.rotation_state, 1);
        assert_ne!(p.shape, start.shape);
        p.rotate();
        assert_eq!(p, start);
    }
}

#[test]
fn hard_drop_lands_at_bottom() {
    let mut gs = ready(10, 20, PieceType::J);
    place(&mut gs, piece_at(PieceType::O, 3, 4));
    handle_input(&mut gs, 's');
    for (r, c) in [(18, 5), (18, 6), (19, 5), (19, 6)] {
        assert_eq!(gs.display[r][c].game_state, State::Landed);
    }
    assert_eq!(gs.active_piece.ptype, Some(PieceType::J));
    assert_eq!(gs.active_piece.row, 0);
    assert_single_footprint(&gs);
}

#[test]
fn hard_drop_right_after_spawn() {
    let mut gs = ready(10, 20, PieceType::J);
    assert!(!new_piece(&mut gs, Some(PieceType::I)));
    handle_input(&mut gs, 's');
    assert_eq!(cells_in(&gs, State::Landed), vec![(16, 4), (17, 4), (18, 4), (19, 4)]);
    assert_eq!(gs.active_piece.ptype, Some(PieceType::J));
    assert_eq!(gs.active_piece.row, 0);
    assert_single_footprint(&gs);
}

#[test]
fn hard_drop_keeps_a_filled_row_for_the_clear_pass() {
    let mut gs = ready(10, 20, PieceType::J);
    land_row_except(&mut gs, 19, 4);
    assert!(!new_piece(&mut gs, Some(PieceType::I)));
    handle_input(&mut gs, 's');
    assert_eq!(cells_in(&gs, State::Landed).len(), 13);
    assert_eq!(gs.gamescore.score, 0);
    full_line(&mut gs);
    assert_eq!(gs.gamescore.score, 40);
    assert_eq!(cells_in(&gs, State::Landed), vec![(17, 4), (18, 4), (19, 4)]);
    assert_eq!(gs.active_piece.row, 1);
    assert_single_footprint(&gs);
}

#[test]
fn soft_drop_is_one_gravity_step() {
    let mut gs = ready(10, 20, PieceType::J);
    assert!(!new_piece(&mut gs, Some(PieceType::L)));
    handle_input(&mut gs, 'd');
    assert_eq!(gs.active_piece.row, 1);
    handle_input(&mut gs, 'x');
    assert_eq!(gs.active_piece.row, 1);
    assert_single_footprint(&gs);
}

#[test]
fn ghost_marks_resting_place_and_is_stable() {
    let mut gs = ready(10, 20, PieceType::J);
    assert!(!new_piece(&mut gs, Some(PieceType::O)));
    ghost_piece(&mut gs);
    let ghosts = cells_in(&gs, State::Preview);
    assert_eq!(ghosts, vec![(18, 5), (18, 6), (19, 5), (19, 6)]);
    assert_eq!(gs.display[18][5].color, TColor::Yellow);
    let first = gs.display.clone();
    ghost_piece(&mut gs);
    assert_eq!(gs.display, first);
    assert_single_footprint(&gs);
}

#[test]
fn ghost_follows_the_piece() {
    let mut gs = ready(10, 20, PieceType::J);
    assert!(!new_piece(&mut gs, Some(PieceType::O)));
    gs.display[19][8] = cell(State::Landed, TColor::Red);
    ghost_piece(&mut gs);
    handle_input(&mut gs, 'r');
    handle_input(&mut gs, 'r');
    ghost_piece(&mut gs);
    assert_eq!(cells_in(&gs, State::Preview), vec![(17, 7), (17, 8), (18, 7), (18, 8)]);
}

#[test]
fn full_line_without_full_rows_changes_nothing() {
    let mut gs = GameState::new(10, 20);
    gs.gamescore = GameScore { score: 2500, level: 2 };
    let before = gs.display.clone();
    full_line(&mut gs);
    assert_eq!(gs.display, before);
    assert_eq!(gs.gamescore.score, 2500);
    assert_eq!(gs.gamescore.level, 2);
}

#[test]
fn landed_turns_active_cells_landed() {
    let mut gs = ready(10, 20, PieceType::J);
    assert!(!new_piece(&mut gs, Some(PieceType::T)));
    landed(&mut gs);
    assert_eq!(cells_in(&gs, State::Active).len(), 0);
    assert_eq!(cells_in(&gs, State::Landed).len(), 4);
    assert_eq!(gs.display[0][5].color, TColor::Magenta);
}

#[test]
fn bag_hands_out_each_kind_once_per_cycle() {
    let mut bag = Bag::with_seed(7);
    for _ in 0..3 {
        let mut seen = Vec::new();
        for _ in 0..7 {
            let k = bag.draw();
            assert!(!seen.contains(&k));
            seen.push(k);
        }
        assert_eq!(bag.pieces.len(), 0);
        for k in ALL {
            assert!(seen.contains(&k));
        }
    }
}

#[test]
fn bag_with_same_seed_repeats() {
    let mut a = Bag::with_seed(42);
    let mut b = Bag::with_seed(42);
    for _ in 0..14 {
        assert_eq!(a.draw(), b.draw());
    }
}

#[test]
fn new_game_is_fresh() {
    let gs = GameState::new(10, 20);
    assert_eq!(gs.display.len(), 20);
    assert_eq!(gs.display[0].len(), 10);
    assert!(!gs.is_game_over);
    assert!(gs.hold_piece.is_none());
    assert_eq!(gs.gamescore.score, 0);
    assert_eq!(gs.active_piece.row, 0);
    assert_eq!(gs.active_piece.col, 4);
    assert_single_footprint(&gs);
    assert_eq!(cells_in(&gs, State::Active).len(), 4);
    assert_ne!(gs.active_piece.ptype, gs.next_piece.ptype);
    assert_eq!(gs.bag.pieces.len(), 5);
    let mut kinds: Vec<PieceType> = gs.bag.pieces.clone();
    kinds.push(gs.active_piece.ptype.unwrap());
    kinds.push(gs.next_piece.ptype.unwrap());
    for k in ALL {
        assert!(kinds.contains(&k));
    }
}

#[test]
fn footprint_holds_through_a_game() {
    let mut gs = GameState::with_seed(10, 20, 99);
    let keys = ['l', 'u', 'r', 'r', 'd', 'u', 's', 'l', 'l', 'l', 'l', 's', 'u', 'r', 'r', 'r', 'r', 's'];
    for (i, key) in keys.iter().cycle().take(200).enumerate() {
        if gs.is_game_over {
            break;
        }
        if i % 5 == 0 {
            hold(&mut gs);
        } else {
            handle_input(&mut gs, *key);
        }
        gravity(&mut gs);
        ghost_piece(&mut gs);
        full_line(&mut gs);
        assert_eq!(gs.gamescore.level, gs.gamescore.score / 1000);
        if !gs.is_game_over {
            assert_single_footprint(&gs);
        } else {
            assert_eq!(cells_in(&gs, State::Active).len(), 0);
        }
    }
}

#[test]
fn init_builds_empty_board() {
    let b = init(7, 5);
    assert_eq!(b.len(), 5);
    for row in &b {
        assert_eq!(row.len(), 7);
        for t in row {
            assert_eq!(t.game_state, State::Empty);
            assert_eq!(t.color, TColor::Empty);
        }
    }
}

#[test]
fn piece_colors_and_textures() {
    let expect = [
        (PieceType::I, TColor::Cyan, "blocks/cyan.png"),
        (PieceType::J, TColor::Blue, "blocks/blue.png"),
        (PieceType::L, TColor::Orange, "blocks/orange.png"),
        (PieceType::O, TColor::Yellow, "blocks/yellow.png"),
        (PieceType::S, TColor::Green, "blocks/green.png"),
        (PieceType::T, TColor::Magenta, "blocks/magenta.png"),
        (PieceType::Z, TColor::Red, "blocks/red.png"),
    ];
    for (k, color, texture) in expect {
        let p = Tetrominoe::from(k, Some(State::Active));
        assert_eq!(p.color, color);
        assert_eq!(p.as_color(), texture);
        assert_eq!(p.game_state, State::Active);
        assert_eq!(p.rotation_state, 0);
        assert_eq!(p.shape.iter().flatten().filter(|x| **x).count(), 4);
    }
    assert_eq!(Tetrominoe::new(None, None).as_color(), "");
}

#[test]
fn set_and_set_pos() {
    let mut p = Tetrominoe::new(None, None);
    p.set(PieceType::L).set_pos(3, -2);
    assert_eq!(p.ptype, Some(PieceType::L));
    assert_eq!(p.color, TColor::Orange);
    assert_eq!((p.row, p.col), (3, -2));
    assert!(p.shape[2][2]);
}

#[test]
fn full_line_clears_a_full_bottom_row() {
    let mut gs = ready(10, 20, PieceType::O);
    land_row_except(&mut gs, 19, 5);
    gs.display[19][5] = cell(State::Landed, TColor::Cyan);
    gs.display[18][2] = cell(State::Landed, TColor::Green);
    gs.gamescore = GameScore { score: 990, level: 0 };
    assert!(!new_piece(&mut gs, None));
    full_line(&mut gs);
    assert_eq!(gs.active_piece.row, 1);
    assert_single_footprint(&gs);
    assert_eq!(gs.gamescore.score, 1030);
    assert_eq!(gs.gamescore.level, 1);
    assert_eq!(gs.display.len(), 20);
    assert_eq!(gs.display[19][2].color, TColor::Green);
    assert_eq!(cells_in(&gs, State::Landed), vec![(19, 2)]);
    for c in 0..10 {
        assert_eq!(gs.display[0][c].game_state, State::Empty);
    }
}

#[test]
fn full_line_leaves_rows_above_the_piece_in_place_for_it() {
    let mut gs = ready(10, 20, PieceType::O);
    land_row_except(&mut gs, 19, 0);
    land_row_except(&mut gs, 10, 9);
    gs.display[10][9] = cell(State::Landed, TColor::Blue);
    place(&mut gs, piece_at(PieceType::T, 15, 3));
    full_line(&mut gs);
    assert_eq!(gs.gamescore.score, 40);
    assert_eq!(gs.active_piece.row, 15);
    assert_single_footprint(&gs);
    assert_eq!(gs.display[19][1].game_state, State::Landed);
}
