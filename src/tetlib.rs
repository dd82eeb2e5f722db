//! The game's operations: spawn, gravity and locking, moves and rotation,
//! hard drop, hold, the resting-place preview and line clearing.

use vstd::prelude::*;

use crate::bag::Bag;
use crate::board::{
    at_col, at_row, blank, board_wf, bottom_of, bottom_row, cell_wf, cells_wf, clear_lines, cleared,
    count_full, covers, dropped, emptied_board, fits, fits_at, full_count, kept_rows, landing,
    lemma_bottom_row, lemma_emptied_ok, lemma_fits_same_landed, lemma_footprint_fits,
    lemma_kept_quiet, lemma_moved_wf, lemma_piece_bounds, lemma_previewed_ok, lemma_rest_unique,
    lemma_rotated_wf, lemma_same_active, locked_board, moved_board, no_active, on_board, piece_wf,
    quiet_row, restate, rests_at, same_cells, stamp, stamped_board, width,
};
use crate::gamestate::GameState;
use crate::tetrominoe::{canonical_shape, fresh_piece, rotated, PieceType, State, Tetrominoe};

verus! {

/// The piece of kind `k` as it spawns on a board `w` cells wide: unrotated,
/// in row 0, its frame's left edge one column left of the middle.
pub open spec fn spawn_piece(k: PieceType, w: int) -> Tetrominoe {
    Tetrominoe { row: 0, col: (w / 2 - 1) as i64, ..fresh_piece(k, State::Empty) }
}

/// The column of the cell whose occupancy ends the game at spawn.
pub open spec fn spawn_col(w: int) -> int {
    w / 2
}

/// What a spawn needs: a well-formed board with no active cell, a game still
/// running, and the rest of the state well formed.
pub open spec fn spawn_ready(gs: GameState) -> bool {
    &&& board_wf(gs.display@)
    &&& cells_wf(gs.display@)
    &&& no_active(gs.display@)
    &&& !gs.is_game_over
    &&& (exists|k: PieceType| gs.next_piece == fresh_piece(k, State::Empty))
    &&& (gs.hold_piece matches Some(h) ==> piece_wf(h))
    &&& gs.gamescore.wf()
    &&& gs.bag.wf()
}

/// The kind of a piece that has one.
pub open spec fn kind(p: Tetrominoe) -> PieceType {
    p.ptype.unwrap()
}

/// `post` is `pre` after a spawn of `desired`, or of the next piece when no
/// kind is given, that reported `over`.
pub open spec fn spawned(pre: GameState, post: GameState, desired: Option<PieceType>, over: bool) -> bool {
    let b = pre.display@;
    let w = width(b);
    if b[0]@[spawn_col(w)].game_state != State::Empty {
        over && post == (GameState { is_game_over: true, ..pre })
    } else {
        let k = match desired {
            Some(k) => k,
            None => kind(pre.next_piece),
        };
        &&& !over
        &&& !post.is_game_over
        &&& post.active_piece == spawn_piece(k, w)
        &&& stamped_board(post.display@, b, spawn_piece(k, w), State::Active)
        &&& (desired is None ==> exists|n: PieceType|
            post.next_piece == fresh_piece(n, State::Empty) && #[trigger] Bag::drawn(pre.bag, post.bag, n))
        &&& (desired is Some ==> post.next_piece == pre.next_piece && post.bag == pre.bag)
        &&& post.hold_piece == pre.hold_piece
        &&& post.gamescore == pre.gamescore
        &&& post.counter == pre.counter
    }
}

/// Each unrotated shape has a cell in the frame's top row and leaves frame
/// column 3 empty.
proof fn lemma_canonical(k: PieceType)
    ensures
        canonical_shape(k)[0][0] || canonical_shape(k)[0][1],
        forall|i: int| 0 <= i < 4 ==> !#[trigger] canonical_shape(k)[i][3],
{
    assert forall|i: int| 0 <= i < 4 implies !#[trigger] canonical_shape(k)[i][3] by {
        assert(i == 0 || i == 1 || i == 2 || i == 3);
    }
}

/// `post` is `pre` after an attempt to move its piece to `q`: the move is made
/// when the game runs and `q` is legal, and otherwise nothing changes.
pub open spec fn tried(pre: GameState, post: GameState, q: Tetrominoe) -> bool {
    if !pre.is_game_over && fits(pre.display@, q) {
        &&& moved_board(post.display@, pre.display@, q)
        &&& post == (GameState { display: post.display, active_piece: q, ..pre })
    } else {
        post == pre
    }
}

/// `post` is `pre` after its piece locked: the active cells landed and
/// nothing else changed.
pub open spec fn locked(pre: GameState, post: GameState) -> bool {
    &&& locked_board(post.display@, pre.display@)
    &&& post == (GameState { display: post.display, ..pre })
}

/// `post` is `pre` after one gravity step that reported `over`: the piece
/// falls a row if it can; otherwise it locks and the next piece spawns, and
/// `over` is the spawn's game-over result.
pub open spec fn fell(pre: GameState, post: GameState, over: bool) -> bool {
    if pre.is_game_over {
        over && post == pre
    } else if fits(pre.display@, dropped(pre.active_piece)) {
        &&& !over
        &&& moved_board(post.display@, pre.display@, dropped(pre.active_piece))
        &&& post == (GameState { display: post.display, active_piece: dropped(pre.active_piece), ..pre })
    } else {
        exists|mid: GameState| locked(pre, mid) && #[trigger] spawned(mid, post, None, over)
    }
}

/// `post` is `pre` after a hard drop: while the game runs, the piece falls
/// to rest, locks, and the next piece spawns.
pub open spec fn hard_dropped(pre: GameState, post: GameState) -> bool {
    let b = pre.display@;
    if pre.is_game_over {
        post == pre
    } else {
        exists|q: Tetrominoe, m1: GameState, m2: GameState, over: bool|
            #![trigger rests_at(b, pre.active_piece, q), locked(m1, m2), spawned(m2, post, None, over)]
            {
                &&& rests_at(b, pre.active_piece, q)
                &&& moved_board(m1.display@, b, q)
                &&& m1 == (GameState { display: m1.display, active_piece: q, ..pre })
                &&& locked(m1, m2)
                &&& spawned(m2, post, None, over)
            }
    }
}

/// `post` is `pre` after a hold. While the game runs, the piece leaves the
/// board; a held piece's kind spawns in its place and it becomes the held
/// piece, or, with nothing held, it is held and the next piece spawns.
pub open spec fn held(pre: GameState, post: GameState) -> bool {
    if pre.is_game_over {
        post == pre
    } else {
        exists|mid: GameState, m2: GameState, over: bool|
            #![trigger emptied_board(mid.display@, pre.display@, State::Active), spawned(mid, m2, None, over)]
            #![trigger emptied_board(mid.display@, pre.display@, State::Active), spawned(mid, m2, Some(kind(pre.hold_piece.unwrap())), over)]
            {
                &&& emptied_board(mid.display@, pre.display@, State::Active)
                &&& match pre.hold_piece {
                    Some(h) => {
                        &&& mid == (GameState { display: mid.display, ..pre })
                        &&& spawned(mid, m2, Some(kind(h)), over)
                        &&& post == (GameState { hold_piece: Some(pre.active_piece), ..m2 })
                    },
                    None => {
                        &&& mid == (GameState {
                            display: mid.display,
                            hold_piece: Some(pre.active_piece),
                            ..pre
                        })
                        &&& spawned(mid, m2, None, over)
                        &&& post == m2
                    },
                }
            }
    }
}

/// Board `a` is board `b` with its previews recomputed for piece `p`: old
/// previews are emptied and, while the game runs, the empty cells under `p`
/// at rest become previews in its color.
pub open spec fn ghosted(a: Seq<Vec<Tetrominoe>>, b: Seq<Vec<Tetrominoe>>, p: Tetrominoe, over: bool) -> bool {
    exists|m: Seq<Vec<Tetrominoe>>|
        #[trigger] emptied_board(m, b, State::Preview) && if over {
            a == m
        } else {
            exists|q: Tetrominoe| #[trigger] rests_at(m, p, q) && stamped_board(a, m, q, State::Preview)
        }
}

/// Recomputing the preview twice in a row, with nothing done in between,
/// leaves the board as the first recomputation left it.
pub proof fn lemma_ghost_idempotent(
    b: Seq<Vec<Tetrominoe>>,
    a1: Seq<Vec<Tetrominoe>>,
    a2: Seq<Vec<Tetrominoe>>,
    p: Tetrominoe,
    over: bool,
)
    requires
        board_wf(b),
        cells_wf(b),
        ghosted(a1, b, p, over),
        ghosted(a2, a1, p, over),
    ensures
        same_cells(a2, a1),
{
    let m1 = choose|m: Seq<Vec<Tetrominoe>>|
        #[trigger] emptied_board(m, b, State::Preview) && if over {
            a1 == m
        } else {
            exists|q: Tetrominoe| #[trigger] rests_at(m, p, q) && stamped_board(a1, m, q, State::Preview)
        };
    let m2 = choose|m: Seq<Vec<Tetrominoe>>|
        #[trigger] emptied_board(m, a1, State::Preview) && if over {
            a2 == m
        } else {
            exists|q: Tetrominoe| #[trigger] rests_at(m, p, q) && stamped_board(a2, m, q, State::Preview)
        };
    lemma_emptied_ok(m1, b, State::Preview);
    if over {
        assert forall|r: int, c: int| on_board(a1, r, c) implies #[trigger] a2[r]@[c] == a1[r]@[c] by {
            assert(on_board(b, r, c));
            assert(m1[r]@[c].game_state != State::Preview);
        }
        assert(a2[0]@.len() == a1[0]@.len());
    } else {
        let q1 = choose|q: Tetrominoe| #[trigger] rests_at(m1, p, q) && stamped_board(a1, m1, q, State::Preview);
        let q2 = choose|q: Tetrominoe| #[trigger] rests_at(m2, p, q) && stamped_board(a2, m2, q, State::Preview);
        assert(width(a1) == width(m1)) by {
            assert(a1[0]@.len() == m1[0]@.len());
        }
        assert forall|r: int, c: int| on_board(m1, r, c) implies #[trigger] m2[r]@[c] == m1[r]@[c] by {
            assert(cell_wf(m1[r]@[c]));
            assert(on_board(b, r, c));
            assert(on_board(a1, r, c));
            assert(m1[r]@[c].game_state != State::Preview);
        }
        assert(width(m2) == width(m1)) by {
            assert(m2[0]@.len() == m1[0]@.len());
        }
        assert forall|x: Tetrominoe| fits(m2, x) == fits(m1, x) by {
            lemma_fits_same_landed(m2, m1, x);
        }
        assert(rests_at(m1, p, q2)) by {
            assert forall|r: int| p.row <= r <= q2.row implies #[trigger] fits(m1, at_row(p, r)) by {
                assert(fits(m2, at_row(p, r)));
            }
            assert(!fits(m2, dropped(q2)));
        }
        lemma_rest_unique(m1, p, q1, q2);
        assert forall|r: int, c: int| on_board(a1, r, c) implies #[trigger] a2[r]@[c] == a1[r]@[c] by {
            assert(on_board(m1, r, c));
            assert(on_board(m2, r, c));
        }
        assert(a2[0]@.len() == a1[0]@.len());
    }
}

/// A `height` x `width` board of empty cells.
pub fn init(width: usize, height: usize) -> (r: Vec<Vec<Tetrominoe>>)
    ensures
        r@.len() == height,
        forall|i: int| 0 <= i < height ==> #[trigger] r@[i]@.len() == width,
        forall|i: int, c: int| 0 <= i < height && 0 <= c < width ==> #[trigger] r@[i]@[c] == blank(),
{
    let mut display: Vec<Vec<Tetrominoe>> = Vec::new();
    let mut i: usize = 0;
    while i < height
        invariant
            i <= height,
            display@.len() == i,
            forall|k: int| 0 <= k < i ==> #[trigger] display@[k]@.len() == width,
            forall|k: int, c: int| 0 <= k < i && 0 <= c < width ==> #[trigger] display@[k]@[c] == blank(),
        decreases height - i,
    {
        let mut row: Vec<Tetrominoe> = Vec::new();
        let mut j: usize = 0;
        while j < width
            invariant
                j <= width,
                row@.len() == j,
                forall|c: int| 0 <= c < j ==> #[trigger] row@[c] == blank(),
            decreases width - j,
        {
            row.push(Tetrominoe::new(None, None));
            j += 1;
        }
        display.push(row);
        i += 1;
    }
    display
}

/// Spawns a piece of kind `desired_piece`, or of the next piece's kind when
/// none is given (a new next piece is then drawn). When the spawn cell is
/// taken, nothing is drawn or written and the game is over.
pub fn new_piece(gs: &mut GameState, desired_piece: Option<PieceType>) -> (r: bool)
    requires
        spawn_ready(*old(gs)),
    ensures
        spawned(*old(gs), *final(gs), desired_piece, r),
        final(gs).wf(),
{
    let ghost pre = *gs;
    let half_width = gs.display[0].len() / 2;
    if gs.display[0][half_width].game_state != State::Empty {
        gs.is_game_over = true;
        return true;
    }
    let piece = match desired_piece {
        Some(k) => k,
        None => get_next_piece(gs),
    };
    let ghost mid = *gs;
    let mut p = Tetrominoe::from(piece, None);
    p.set_pos(0, half_width as i64 - 1);
    proof {
        lemma_canonical(piece);
        assert(p == spawn_piece(piece, width(pre.display@)));
        assert forall|i: int, j: int| 0 <= i < 4 && 0 <= j < 4 && #[trigger] p.shape[i][j] implies on_board(
            gs.display@,
            p.row + i,
            p.col + j,
        ) by {
            assert(j != 3);
        }
    }
    stamp(&mut gs.display, &p, State::Active);
    gs.active_piece = p;
    proof {
        let b = pre.display@;
        let a = gs.display@;
        if p.shape[0][0] {
            assert(p.shape[0][0]);
        } else {
            assert(p.shape[0][1]);
        }
        assert forall|r: int, c: int| on_board(a, r, c) implies cell_wf(#[trigger] a[r]@[c]) by {
            assert(cell_wf(b[r]@[c]));
        }
        assert forall|r: int, c: int| on_board(a, r, c) implies {
            &&& ((#[trigger] a[r]@[c]).game_state == State::Active) == covers(p, r, c)
            &&& (covers(p, r, c) ==> a[r]@[c].color == p.color)
        } by {
            assert(b[r]@[c].game_state != State::Active);
        }
        if desired_piece is None {
            let n = choose|n: PieceType|
                mid.next_piece == fresh_piece(n, State::Empty) && #[trigger] Bag::drawn(pre.bag, mid.bag, n);
            assert(gs.next_piece == fresh_piece(n, State::Empty) && Bag::drawn(pre.bag, gs.bag, n));
        }
    }
    false
}

/// Hands out the next piece's kind and draws a new next piece.
fn get_next_piece(gs: &mut GameState) -> (r: PieceType)
    requires
        old(gs).bag.wf(),
        exists|k: PieceType| old(gs).next_piece == fresh_piece(k, State::Empty),
    ensures
        r == kind(old(gs).next_piece),
        final(gs).bag.wf(),
        exists|n: PieceType|
            final(gs).next_piece == fresh_piece(n, State::Empty) && #[trigger] Bag::drawn(old(gs).bag, final(gs).bag, n),
        final(gs).display == old(gs).display,
        final(gs).active_piece == old(gs).active_piece,
        final(gs).hold_piece == old(gs).hold_piece,
        final(gs).gamescore == old(gs).gamescore,
        final(gs).counter == old(gs).counter,
        final(gs).is_game_over == old(gs).is_game_over,
{
    let temp = gs.next_piece.ptype.unwrap();
    gs.next_piece = Tetrominoe::random(&mut gs.bag);
    temp
}

/// One gravity step; returns whether the game is over. The piece falls a
/// row when it can; otherwise it locks and the next piece spawns.
pub fn gravity(gs: &mut GameState) -> (r: bool)
    requires
        old(gs).wf(),
    ensures
        final(gs).wf(),
        fell(*old(gs), *final(gs), r),
{
    if gs.is_game_over {
        return true;
    }
    proof {
        lemma_piece_bounds(gs.display@, gs.active_piece);
    }
    let q = Tetrominoe { row: gs.active_piece.row + 1, ..gs.active_piece };
    proof {
        lemma_moved_wf(gs.active_piece, q);
    }
    if fits_at(&gs.display, &q) {
        shift_to(gs, q);
        return false;
    }
    lock(gs);
    let ghost mid = *gs;
    let r = new_piece(gs, None);
    assert(spawned(mid, *gs, None, r));
    r
}

/// A gravity step on a piece each of whose cells sits right above a landed
/// cell moves nothing down: it locks the piece where it is and spawns one
/// new piece.
pub proof fn lemma_blocked_gravity_locks(pre: GameState, post: GameState, over: bool)
    requires
        pre.wf(),
        !pre.is_game_over,
        forall|r: int, c: int|
            on_board(pre.display@, r, c) && (#[trigger] pre.display@[r]@[c]).game_state == State::Active
                ==> r + 1 < pre.display@.len() && pre.display@[r + 1]@[c].game_state == State::Landed,
        fell(pre, post, over),
    ensures
        exists|mid: GameState| locked(pre, mid) && #[trigger] spawned(mid, post, None, over),
{
    let p = pre.active_piece;
    let b = pre.display@;
    let (i, j) = choose|i: int, j: int| 0 <= i < 4 && 0 <= j < 4 && #[trigger] p.shape[i][j];
    assert(on_board(b, p.row + i, p.col + j));
    assert(covers(p, p.row + i, p.col + j));
    assert(b[p.row + i]@[p.col + j].game_state == State::Active);
    let d = dropped(p);
    assert(d.shape[i][j]);
    assert(!fits(b, d));
}

/// Drops the piece to rest, locks it and spawns the next piece. Does nothing
/// once the game is over.
fn hard_drop(gs: &mut GameState)
    requires
        old(gs).wf(),
    ensures
        final(gs).wf(),
        hard_dropped(*old(gs), *final(gs)),
{
    if gs.is_game_over {
        return;
    }
    let ghost pre = *gs;
    proof {
        lemma_footprint_fits(gs.display@, gs.active_piece);
    }
    let q = landing(&gs.display, &gs.active_piece);
    proof {
        assert(fits(gs.display@, at_row(gs.active_piece, q.row as int)));
        lemma_piece_bounds(gs.display@, q);
    }
    shift_to(gs, q);
    let ghost m1 = *gs;
    lock(gs);
    let ghost m2 = *gs;
    let over = new_piece(gs, None);
    assert(rests_at(pre.display@, pre.active_piece, q) && locked(m1, m2) && spawned(m2, *gs, None, over));
}

/// Applies a key: `l` and `r` move the piece a column left or right, `u`
/// rotates it, `d` is one gravity step and `s` a hard drop. A move or rotation
/// that is not legal, and any other key, changes nothing.
pub fn handle_input(gs: &mut GameState, key: char)
    requires
        old(gs).wf(),
    ensures
        final(gs).wf(),
        key == 'l' ==> tried(*old(gs), *final(gs), at_col(old(gs).active_piece, old(gs).active_piece.col - 1)),
        key == 'r' ==> tried(*old(gs), *final(gs), at_col(old(gs).active_piece, old(gs).active_piece.col + 1)),
        key == 'u' ==> tried(*old(gs), *final(gs), rotated(old(gs).active_piece)),
        key == 'd' ==> exists|over: bool| #[trigger] fell(*old(gs), *final(gs), over),
        key == 's' ==> hard_dropped(*old(gs), *final(gs)),
        key != 'l' && key != 'r' && key != 'u' && key != 'd' && key != 's' ==> *final(gs) == *old(gs),
{
    if key == 'd' {
        let over = gravity(gs);
        assert(fell(*old(gs), *gs, over));
        return;
    }
    if key == 's' {
        hard_drop(gs);
        return;
    }
    if key != 'l' && key != 'r' && key != 'u' {
        return;
    }
    if gs.is_game_over {
        return;
    }
    proof {
        lemma_piece_bounds(gs.display@, gs.active_piece);
        lemma_rotated_wf(gs.active_piece);
    }
    let p = gs.active_piece;
    let q = if key == 'l' {
        Tetrominoe { col: p.col - 1, ..p }
    } else if key == 'r' {
        Tetrominoe { col: p.col + 1, ..p }
    } else {
        let mut t = p;
        t.rotate();
        t
    };
    proof {
        if key != 'u' {
            lemma_moved_wf(p, q);
        }
    }
    if fits_at(&gs.display, &q) {
        shift_to(gs, q);
    }
}

/// Sets the active piece aside. With a piece already held, that piece's kind
/// spawns and the active piece is held instead; with none, the active piece
/// is held and the next piece spawns. Holding is not limited per piece.
pub fn hold(gs: &mut GameState)
    requires
        old(gs).wf(),
    ensures
        final(gs).wf(),
        held(*old(gs), *final(gs)),
{
    if gs.is_game_over {
        return;
    }
    let ghost pre = *gs;
    restate(&mut gs.display, State::Active, State::Empty);
    proof {
        lemma_emptied_ok(gs.display@, pre.display@, State::Active);
    }
    match gs.hold_piece {
        Some(h) => {
            let prev = gs.active_piece;
            let ghost mid = *gs;
            let over = new_piece(gs, Some(h.ptype.unwrap()));
            let ghost m2 = *gs;
            gs.hold_piece = Some(prev);
            assert(emptied_board(mid.display@, pre.display@, State::Active) && spawned(mid, m2, Some(kind(pre.hold_piece.unwrap())), over));
        },
        None => {
            gs.hold_piece = Some(gs.active_piece);
            let ghost mid = *gs;
            let over = new_piece(gs, None);
            assert(emptied_board(mid.display@, pre.display@, State::Active) && spawned(mid, *gs, None, over));
        },
    }
}

/// Recomputes the preview of where the active piece comes to rest: old
/// previews are emptied, then the empty cells under the resting piece are
/// marked. The board is read, never played on.
pub fn ghost_piece(gs: &mut GameState)
    requires
        old(gs).wf(),
    ensures
        final(gs).wf(),
        ghosted(final(gs).display@, old(gs).display@, old(gs).active_piece, old(gs).is_game_over),
        *final(gs) == (GameState { display: final(gs).display, ..*old(gs) }),
{
    let ghost pre = *gs;
    restate(&mut gs.display, State::Preview, State::Empty);
    let ghost m = gs.display@;
    proof {
        lemma_emptied_ok(m, pre.display@, State::Preview);
    }
    if gs.is_game_over {
        proof {
            assert forall|r: int, c: int| on_board(m, r, c) implies (#[trigger] m[r]@[c]).game_state
                != State::Active by {
                assert(pre.display@[r]@[c].game_state != State::Active);
            }
            assert(emptied_board(m, pre.display@, State::Preview));
        }
        return;
    }
    proof {
        lemma_same_active(m, pre.display@, pre.active_piece);
        lemma_footprint_fits(m, pre.active_piece);
    }
    let q = landing(&gs.display, &gs.active_piece);
    proof {
        assert(fits(m, at_row(gs.active_piece, q.row as int)));
    }
    stamp(&mut gs.display, &q, State::Preview);
    proof {
        let a = gs.display@;
        lemma_previewed_ok(a, m, q);
        lemma_same_active(m, pre.display@, pre.active_piece);
        lemma_same_active(a, m, pre.active_piece);
        assert(emptied_board(m, pre.display@, State::Preview));
        assert(rests_at(m, pre.active_piece, q));
    }
}

/// `post` is `pre` after one line-clear pass. The active piece is lifted off
/// the board; full rows are removed and as many empty rows put on top; the
/// piece goes back as many rows lower as there were full rows below its
/// lowest cell, so it moves with the rows around it; the pass is scored.
pub open spec fn lines_cleared(pre: GameState, post: GameState) -> bool {
    let b = pre.display@;
    let p = pre.active_piece;
    &&& exists|e: Seq<Vec<Tetrominoe>>, c: Seq<Vec<Tetrominoe>>|
        #![trigger emptied_board(e, b, State::Active), cleared(c, e, e.len() - kept_rows(e).len())]
        {
            let n = e.len() - kept_rows(e).len();
            &&& emptied_board(e, b, State::Active)
            &&& cleared(c, e, n)
            &&& post.gamescore.score == crate::gamescore::score_after(
                pre.gamescore.score as int,
                pre.gamescore.level as int,
                n,
            )
            &&& if pre.is_game_over {
                &&& post.display@ == c
                &&& post.active_piece == p
            } else {
                let q = at_row(p, p.row + full_count(b, bottom_row(p) + 1, b.len() as int));
                &&& post.active_piece == q
                &&& stamped_board(post.display@, c, q, State::Active)
            }
        }
    &&& post.gamescore.wf()
    &&& post == (GameState {
        display: post.display,
        active_piece: post.active_piece,
        gamescore: post.gamescore,
        ..pre
    })
}

/// One line-clear pass: full rows are removed, as many empty rows are put on
/// top, the active piece moves down with the rows around it, and the pass is
/// scored with the level derived anew; see `lines_cleared`.
pub fn full_line(gs: &mut GameState)
    requires
        old(gs).wf(),
    ensures
        final(gs).wf(),
        lines_cleared(*old(gs), *final(gs)),
{
    let ghost pre = *gs;
    let ghost b = gs.display@;
    let ghost p = gs.active_piece;
    let mut below: usize = 0;
    if !gs.is_game_over {
        proof {
            lemma_bottom_row(b, p);
        }
        let bottom = gs.active_piece.row + bottom_of(&gs.active_piece);
        below = count_full(&gs.display, bottom + 1);
    }
    restate(&mut gs.display, State::Active, State::Empty);
    let ghost e = gs.display@;
    let lines = clear_lines(&mut gs.display);
    let ghost c = gs.display@;
    gs.gamescore.add_lines(lines);
    proof {
        let w = width(b);
        assert(e[0]@.len() == w);
        assert forall|j: int| 0 <= j < e.len() implies quiet_row(#[trigger] e[j], w) by {
            assert forall|k: int| 0 <= k < w implies cell_wf(#[trigger] e[j]@[k]) && e[j]@[k].game_state
                != State::Active by {
                assert(cell_wf(b[j]@[k]));
                assert(on_board(b, j, k));
            }
        }
        lemma_kept_quiet(e, w);
        let kept = kept_rows(e);
        let n = lines as int;
        assert forall|r: int| 0 <= r < c.len() implies quiet_row(#[trigger] c[r], w) by {
            if r < n {
                assert(c[r]@[0] == blank());
            } else {
                assert(c[r] == kept[r - n]);
            }
        }
        assert(c[0]@.len() == w);
        assert forall|r: int, k: int| on_board(c, r, k) implies cell_wf(#[trigger] c[r]@[k])
            && c[r]@[k].game_state != State::Active by {
            assert(quiet_row(c[r], w));
        }
        assert(emptied_board(e, b, State::Active));
        assert(cleared(c, e, e.len() - kept_rows(e).len()));
    }
    if !gs.is_game_over {
        let q = Tetrominoe { row: gs.active_piece.row + below, ..gs.active_piece };
        proof {
            lemma_moved_wf(p, q);
            assert(q == at_row(p, p.row + full_count(b, bottom_row(p) + 1, b.len() as int)));
            assert forall|i: int, j: int| 0 <= i < 4 && 0 <= j < 4 && #[trigger] q.shape[i][j] implies on_board(
                c,
                q.row + i,
                q.col + j,
            ) by {
                assert(p.shape[i][j]);
                assert(on_board(b, p.row + i, p.col + j));
            }
        }
        stamp(&mut gs.display, &q, State::Active);
        gs.active_piece = q;
        proof {
            let a = gs.display@;
            assert forall|r: int, k: int| on_board(a, r, k) implies cell_wf(#[trigger] a[r]@[k]) by {
                assert(cell_wf(c[r]@[k]));
            }
            assert forall|r: int, k: int| on_board(a, r, k) implies {
                &&& ((#[trigger] a[r]@[k]).game_state == State::Active) == covers(q, r, k)
                &&& (covers(q, r, k) ==> a[r]@[k].color == q.color)
            } by {
                assert(c[r]@[k].game_state != State::Active);
            }
        }
    }
}

/// Lands every active cell.
pub fn landed(gs: &mut GameState)
    requires
        board_wf(old(gs).display@),
    ensures
        locked_board(final(gs).display@, old(gs).display@),
        *final(gs) == (GameState { display: final(gs).display, ..*old(gs) }),
{
    restate(&mut gs.display, State::Active, State::Landed);
}

/// Moves the active piece to `q`, a legal placement of the same piece.
fn shift_to(gs: &mut GameState, q: Tetrominoe)
    requires
        old(gs).wf(),
        !old(gs).is_game_over,
        fits(old(gs).display@, q),
        piece_wf(q),
        q.color == old(gs).active_piece.color,
    ensures
        final(gs).wf(),
        moved_board(final(gs).display@, old(gs).display@, q),
        *final(gs) == (GameState { display: final(gs).display, active_piece: q, ..*old(gs) }),
{
    let ghost b = gs.display@;
    restate(&mut gs.display, State::Active, State::Empty);
    stamp(&mut gs.display, &q, State::Active);
    gs.active_piece = q;
    proof {
        let a = gs.display@;
        assert forall|r: int, c: int| on_board(a, r, c) implies cell_wf(#[trigger] a[r]@[c]) by {
            assert(cell_wf(b[r]@[c]));
        }
    }
}

/// Lands the active piece, leaving the board ready for the next spawn.
fn lock(gs: &mut GameState)
    requires
        old(gs).wf(),
        !old(gs).is_game_over,
    ensures
        locked(*old(gs), *final(gs)),
        spawn_ready(*final(gs)),
{
    let ghost b = gs.display@;
    landed(gs);
    proof {
        let a = gs.display@;
        assert(a[0]@.len() == b[0]@.len());
        assert forall|r: int, c: int| on_board(a, r, c) implies cell_wf(#[trigger] a[r]@[c]) && a[r]@[c].game_state
            != State::Active by {
            assert(cell_wf(b[r]@[c]));
            assert(on_board(b, r, c));
        }
    }
}

} // verus!
