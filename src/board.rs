//! The board model: placements, legality, and the cell-level edits that the
//! game's operations are built from.

use vstd::prelude::*;

use crate::tetrominoe::{plain, rotated, PieceType, State, TColor, Tetrominoe};

verus! {

// A board is a sequence of rows, row 0 on top; a cell is a `Tetrominoe` of
// which only `game_state` and `color` are read.

pub open spec fn width(b: Seq<Vec<Tetrominoe>>) -> int {
    if b.len() > 0 {
        b[0]@.len() as int
    } else {
        0
    }
}

pub open spec fn on_board(b: Seq<Vec<Tetrominoe>>, r: int, c: int) -> bool {
    0 <= r < b.len() && 0 <= c < width(b)
}

pub open spec fn blank() -> Tetrominoe {
    plain(State::Empty, TColor::Empty)
}

/// A rectangle of at least four rows and three columns, with sides that fit
/// a `u32`.
pub open spec fn board_wf(b: Seq<Vec<Tetrominoe>>) -> bool {
    &&& 4 <= b.len() <= u32::MAX
    &&& 3 <= width(b) <= u32::MAX
    &&& forall|r: int| 0 <= r < b.len() ==> #[trigger] b[r]@.len() == width(b)
}

/// A cell carries only a state and a color, and has a color exactly when it
/// is not empty.
pub open spec fn cell_wf(t: Tetrominoe) -> bool {
    &&& t == plain(t.game_state, t.color)
    &&& (t.game_state == State::Empty) == (t.color == TColor::Empty)
}

pub open spec fn cells_wf(b: Seq<Vec<Tetrominoe>>) -> bool {
    forall|r: int, c: int| on_board(b, r, c) ==> cell_wf(#[trigger] b[r]@[c])
}

pub open spec fn row_full(row: Vec<Tetrominoe>) -> bool {
    forall|c: int| 0 <= c < row@.len() ==> (#[trigger] row@[c]).game_state == State::Landed
}

pub open spec fn no_active(b: Seq<Vec<Tetrominoe>>) -> bool {
    forall|r: int, c: int| on_board(b, r, c) ==> (#[trigger] b[r]@[c]).game_state != State::Active
}

/// A piece has a kind, that kind's color, and at least one occupied cell.
pub open spec fn piece_wf(p: Tetrominoe) -> bool {
    &&& match p.ptype {
        Some(k) => p.color == crate::tetrominoe::color_of(k),
        None => false,
    }
    &&& exists|i: int, j: int| 0 <= i < 4 && 0 <= j < 4 && #[trigger] p.shape[i][j]
}

/// Board cell `(r, c)` lies under an occupied cell of `p`'s frame.
pub open spec fn covers(p: Tetrominoe, r: int, c: int) -> bool {
    &&& p.row <= r < p.row + 4
    &&& p.col <= c < p.col + 4
    &&& p.shape[r - p.row][c - p.col]
}

/// Every occupied cell of `p` is on the board.
pub open spec fn within(b: Seq<Vec<Tetrominoe>>, p: Tetrominoe) -> bool {
    forall|i: int, j: int|
        0 <= i < 4 && 0 <= j < 4 && #[trigger] p.shape[i][j] ==> on_board(b, p.row + i, p.col + j)
}

/// `p` is a legal placement: on the board and on no landed cell.
pub open spec fn fits(b: Seq<Vec<Tetrominoe>>, p: Tetrominoe) -> bool {
    forall|i: int, j: int|
        0 <= i < 4 && 0 <= j < 4 && #[trigger] p.shape[i][j] ==> {
            &&& on_board(b, p.row + i, p.col + j)
            &&& b[p.row + i]@[p.col + j].game_state != State::Landed
        }
}

/// The active cells of `b` are exactly `p`'s footprint, in `p`'s color.
pub open spec fn footprint(b: Seq<Vec<Tetrominoe>>, p: Tetrominoe) -> bool {
    &&& within(b, p)
    &&& forall|r: int, c: int|
        on_board(b, r, c) ==> {
            &&& ((#[trigger] b[r]@[c]).game_state == State::Active) == covers(p, r, c)
            &&& (covers(p, r, c) ==> b[r]@[c].color == p.color)
        }
}

/// A cell after every cell in state `from` was put in state `to`; a cell
/// emptied this way loses its color.
pub open spec fn restated(t: Tetrominoe, from: State, to: State) -> Tetrominoe {
    if t.game_state == from {
        if to == State::Empty {
            blank()
        } else {
            Tetrominoe { game_state: to, ..t }
        }
    } else {
        t
    }
}

/// A cell under a piece drawn in `state` and `color`: a preview is drawn on
/// empty cells only, anything else on every cell.
pub open spec fn stamped(t: Tetrominoe, color: TColor, state: State) -> Tetrominoe {
    if state == State::Preview && t.game_state != State::Empty {
        t
    } else {
        plain(state, color)
    }
}

pub open spec fn same_shape(a: Seq<Vec<Tetrominoe>>, b: Seq<Vec<Tetrominoe>>) -> bool {
    &&& a.len() == b.len()
    &&& forall|r: int| 0 <= r < a.len() ==> #[trigger] a[r]@.len() == b[r]@.len()
}

/// Board `a` is board `b` with `p` drawn on it in `state`.
pub open spec fn stamped_board(a: Seq<Vec<Tetrominoe>>, b: Seq<Vec<Tetrominoe>>, p: Tetrominoe, state: State) -> bool {
    &&& same_shape(a, b)
    &&& forall|r: int, c: int|
        on_board(b, r, c) ==> #[trigger] a[r]@[c] == if covers(p, r, c) {
            stamped(b[r]@[c], p.color, state)
        } else {
            b[r]@[c]
        }
}

/// Board `a` is board `b` with the active cells moved to `q`'s footprint.
pub open spec fn moved_board(a: Seq<Vec<Tetrominoe>>, b: Seq<Vec<Tetrominoe>>, q: Tetrominoe) -> bool {
    &&& same_shape(a, b)
    &&& forall|r: int, c: int|
        on_board(b, r, c) ==> #[trigger] a[r]@[c] == if covers(q, r, c) {
            plain(State::Active, q.color)
        } else if b[r]@[c].game_state == State::Active {
            blank()
        } else {
            b[r]@[c]
        }
}

/// The rows of `b` that are not full, in order.
pub open spec fn kept_rows(b: Seq<Vec<Tetrominoe>>) -> Seq<Vec<Tetrominoe>> {
    b.filter(|row: Vec<Tetrominoe>| !row_full(row))
}

/// Board `a` is board `b` with its full rows removed and as many empty rows
/// put on top; `n` rows were removed.
pub open spec fn cleared(a: Seq<Vec<Tetrominoe>>, b: Seq<Vec<Tetrominoe>>, n: int) -> bool {
    let kept = kept_rows(b);
    &&& n == b.len() - kept.len()
    &&& a.len() == b.len()
    &&& forall|i: int| 0 <= i < n ==> (#[trigger] a[i])@.len() == width(b)
    &&& forall|i: int, c: int| 0 <= i < n && 0 <= c < width(b) ==> #[trigger] a[i]@[c] == blank()
    &&& forall|i: int| n <= i < a.len() ==> #[trigger] a[i] == kept[i - n]
}

/// Board `a` is board `b` with every active cell landed.
pub open spec fn locked_board(a: Seq<Vec<Tetrominoe>>, b: Seq<Vec<Tetrominoe>>) -> bool {
    &&& same_shape(a, b)
    &&& forall|r: int, c: int|
        on_board(b, r, c) ==> #[trigger] a[r]@[c] == restated(b[r]@[c], State::Active, State::Landed)
}

/// A row of `w` cells, each well formed and none active.
pub open spec fn quiet_row(row: Vec<Tetrominoe>, w: int) -> bool {
    &&& row@.len() == w
    &&& forall|c: int| 0 <= c < w ==> cell_wf(#[trigger] row@[c]) && row@[c].game_state != State::Active
}

pub(crate) proof fn lemma_kept_push(s: Seq<Vec<Tetrominoe>>, x: Vec<Tetrominoe>)
    ensures
        kept_rows(s.push(x)) == if row_full(x) {
            kept_rows(s)
        } else {
            kept_rows(s).push(x)
        },
{
    reveal(Seq::filter);
    assert(s.push(x).drop_last() =~= s);
}

/// The rows kept from rows that are all quiet are quiet and not full.
pub(crate) proof fn lemma_kept_quiet(s: Seq<Vec<Tetrominoe>>, w: int)
    requires
        forall|j: int| 0 <= j < s.len() ==> quiet_row(#[trigger] s[j], w),
    ensures
        forall|i: int|
            0 <= i < kept_rows(s).len() ==> quiet_row(#[trigger] kept_rows(s)[i], w) && !row_full(
                kept_rows(s)[i],
            ),
    decreases s.len(),
{
    if s.len() > 0 {
        let t = s.drop_last();
        lemma_kept_quiet(t, w);
        lemma_kept_push(t, s.last());
        assert(t.push(s.last()) =~= s);
    }
}


/// A piece whose cells are on the board has its anchor near the board.
pub(crate) proof fn lemma_piece_bounds(b: Seq<Vec<Tetrominoe>>, p: Tetrominoe)
    requires
        within(b, p),
        piece_wf(p),
    ensures
        p.row < b.len(),
        -3 <= p.col < width(b),
{
    let (i, j) = choose|i: int, j: int| 0 <= i < 4 && 0 <= j < 4 && #[trigger] p.shape[i][j];
    assert(on_board(b, p.row + i, p.col + j));
}

pub open spec fn at_row(p: Tetrominoe, r: int) -> Tetrominoe {
    Tetrominoe { row: r as usize, ..p }
}

pub open spec fn at_col(p: Tetrominoe, c: int) -> Tetrominoe {
    Tetrominoe { col: c as i64, ..p }
}

/// `p` one row lower.
pub open spec fn dropped(p: Tetrominoe) -> Tetrominoe {
    at_row(p, p.row + 1)
}

/// `q` is where `p` comes to rest when it falls straight down on `b`: every
/// row from `p`'s down to `q`'s is a legal placement, the next is not.
pub open spec fn rests_at(b: Seq<Vec<Tetrominoe>>, p: Tetrominoe, q: Tetrominoe) -> bool {
    &&& q == at_row(p, q.row as int)
    &&& p.row <= q.row
    &&& forall|r: int| p.row <= r <= q.row ==> #[trigger] fits(b, at_row(p, r))
    &&& !fits(b, dropped(q))
}

/// Board `a` is board `b` with every cell in state `from` emptied.
pub open spec fn emptied_board(a: Seq<Vec<Tetrominoe>>, b: Seq<Vec<Tetrominoe>>, from: State) -> bool {
    &&& same_shape(a, b)
    &&& forall|r: int, c: int|
        on_board(b, r, c) ==> #[trigger] a[r]@[c] == restated(b[r]@[c], from, State::Empty)
}

/// A rotation keeps a piece well formed.
pub(crate) proof fn lemma_rotated_wf(p: Tetrominoe)
    requires
        piece_wf(p),
    ensures
        piece_wf(rotated(p)),
        rotated(p).color == p.color,
        rotated(p).row == p.row,
        rotated(p).col == p.col,
{
    let q = rotated(p);
    let (i, j) = choose|i: int, j: int| 0 <= i < 4 && 0 <= j < 4 && #[trigger] p.shape[i][j];
    match p.ptype {
        Some(PieceType::I) | Some(PieceType::J) | Some(PieceType::L) => {
            assert(j == 0 || j == 1 || j == 2 || j == 3);
            assert(q.shape[j][3 - i]);
        },
        Some(PieceType::S) => {
            assert(q.shape[1][1]);
        },
        Some(PieceType::Z) => {
            assert(q.shape[1][2]);
        },
        Some(PieceType::T) => {
            assert(q.shape[1][1]);
        },
        _ => {},
    }
}

/// Two boards of one shape whose cells agree on being landed allow the same
/// placements.
pub(crate) proof fn lemma_fits_same_landed(a: Seq<Vec<Tetrominoe>>, b: Seq<Vec<Tetrominoe>>, p: Tetrominoe)
    requires
        a.len() == b.len(),
        width(a) == width(b),
        forall|r: int, c: int|
            on_board(b, r, c) ==> ((#[trigger] a[r]@[c]).game_state == State::Landed) == (b[r]@[c].game_state
                == State::Landed),
    ensures
        fits(a, p) == fits(b, p),
{
    if fits(b, p) {
        assert forall|i: int, j: int| 0 <= i < 4 && 0 <= j < 4 && #[trigger] p.shape[i][j] implies {
            &&& on_board(a, p.row + i, p.col + j)
            &&& a[p.row + i]@[p.col + j].game_state != State::Landed
        } by {
            assert(on_board(b, p.row + i, p.col + j));
        }
    }
    if fits(a, p) {
        assert forall|i: int, j: int| 0 <= i < 4 && 0 <= j < 4 && #[trigger] p.shape[i][j] implies {
            &&& on_board(b, p.row + i, p.col + j)
            &&& b[p.row + i]@[p.col + j].game_state != State::Landed
        } by {
            assert(on_board(a, p.row + i, p.col + j));
        }
    }
}

/// A piece comes to rest in one place only.
pub(crate) proof fn lemma_rest_unique(b: Seq<Vec<Tetrominoe>>, p: Tetrominoe, q1: Tetrominoe, q2: Tetrominoe)
    requires
        rests_at(b, p, q1),
        rests_at(b, p, q2),
    ensures
        q1 == q2,
{
    if q1.row < q2.row {
        assert(fits(b, at_row(p, q1.row + 1)));
        assert(at_row(p, q1.row + 1) == dropped(q1));
    } else if q2.row < q1.row {
        assert(fits(b, at_row(p, q2.row + 1)));
        assert(at_row(p, q2.row + 1) == dropped(q2));
    }
}

/// Emptying the cells of a state other than `Landed` keeps the board's
/// cells well formed.
pub(crate) proof fn lemma_emptied_ok(a: Seq<Vec<Tetrominoe>>, b: Seq<Vec<Tetrominoe>>, from: State)
    requires
        from != State::Landed,
        board_wf(b),
        cells_wf(b),
        emptied_board(a, b, from),
    ensures
        board_wf(a),
        width(a) == width(b),
        cells_wf(a),
        from != State::Active ==> same_active(a, b),
{
    assert(a[0]@.len() == b[0]@.len());
    assert forall|r: int, c: int| on_board(a, r, c) implies cell_wf(#[trigger] a[r]@[c]) by {
        assert(cell_wf(b[r]@[c]));
    }
}

/// Boards `a` and `b` have the same shape and the same active cells.
pub open spec fn same_active(a: Seq<Vec<Tetrominoe>>, b: Seq<Vec<Tetrominoe>>) -> bool {
    &&& same_shape(a, b)
    &&& forall|r: int, c: int|
        on_board(b, r, c) ==> ((#[trigger] a[r]@[c]).game_state == State::Active) == (b[r]@[c].game_state
            == State::Active) && (b[r]@[c].game_state == State::Active ==> a[r]@[c] == b[r]@[c])
}

pub(crate) proof fn lemma_same_active(a: Seq<Vec<Tetrominoe>>, b: Seq<Vec<Tetrominoe>>, p: Tetrominoe)
    requires
        board_wf(b),
        same_active(a, b),
        footprint(b, p),
    ensures
        footprint(a, p),
{
    assert(a[0]@.len() == b[0]@.len());
    assert forall|r: int, c: int| on_board(a, r, c) implies {
        &&& ((#[trigger] a[r]@[c]).game_state == State::Active) == covers(p, r, c)
        &&& (covers(p, r, c) ==> a[r]@[c].color == p.color)
    } by {
        assert(on_board(b, r, c));
    }
}

/// The piece whose footprint the active cells are is a legal placement.
pub(crate) proof fn lemma_footprint_fits(b: Seq<Vec<Tetrominoe>>, p: Tetrominoe)
    requires
        footprint(b, p),
    ensures
        fits(b, p),
{
    assert forall|i: int, j: int| 0 <= i < 4 && 0 <= j < 4 && #[trigger] p.shape[i][j] implies {
        &&& on_board(b, p.row + i, p.col + j)
        &&& b[p.row + i]@[p.col + j].game_state != State::Landed
    } by {
        assert(on_board(b, p.row + i, p.col + j));
        assert(covers(p, p.row + i, p.col + j));
    }
}

/// A piece moved or turned in place keeps its kind, color and cells.
pub(crate) proof fn lemma_moved_wf(p: Tetrominoe, q: Tetrominoe)
    requires
        piece_wf(p),
        q.shape == p.shape,
        q.ptype == p.ptype,
        q.color == p.color,
    ensures
        piece_wf(q),
{
    let (i, j) = choose|i: int, j: int| 0 <= i < 4 && 0 <= j < 4 && #[trigger] p.shape[i][j];
    assert(q.shape[i][j]);
}

/// Drawing a preview in a piece's color keeps the cells well formed and the
/// active cells where they were.
pub(crate) proof fn lemma_previewed_ok(a: Seq<Vec<Tetrominoe>>, b: Seq<Vec<Tetrominoe>>, q: Tetrominoe)
    requires
        board_wf(b),
        cells_wf(b),
        q.color != TColor::Empty,
        stamped_board(a, b, q, State::Preview),
    ensures
        board_wf(a),
        width(a) == width(b),
        cells_wf(a),
        same_active(a, b),
{
    assert(a[0]@.len() == b[0]@.len());
    assert forall|r: int, c: int| on_board(a, r, c) implies cell_wf(#[trigger] a[r]@[c]) by {
        assert(cell_wf(b[r]@[c]));
    }
}

/// Boards `a` and `b` hold the same cells.
pub open spec fn same_cells(a: Seq<Vec<Tetrominoe>>, b: Seq<Vec<Tetrominoe>>) -> bool {
    &&& same_shape(a, b)
    &&& forall|r: int, c: int| on_board(b, r, c) ==> #[trigger] a[r]@[c] == b[r]@[c]
}

/// Where the active piece comes to rest if it falls straight down.
pub(crate) fn landing(d: &Vec<Vec<Tetrominoe>>, p: &Tetrominoe) -> (q: Tetrominoe)
    requires
        board_wf(d@),
        piece_wf(*p),
        fits(d@, *p),
    ensures
        rests_at(d@, *p, q),
        piece_wf(q),
        q.color == p.color,
{
    let mut q = *p;
    loop
        invariant
            board_wf(d@),
            piece_wf(q),
            q.color == p.color,
            q == at_row(*p, q.row as int),
            p.row <= q.row,
            forall|r: int| p.row <= r <= q.row ==> #[trigger] fits(d@, at_row(*p, r)),
        ensures
            !fits(d@, dropped(q)),
        decreases d@.len() - q.row,
    {
        proof {
            assert(at_row(*p, q.row as int) == q);
            assert(fits(d@, q));
            lemma_piece_bounds(d@, q);
        }
        let n = Tetrominoe { row: q.row + 1, ..q };
        proof {
            lemma_moved_wf(q, n);
        }
        if !fits_at(d, &n) {
            assert(n == dropped(q));
            break;
        }
        proof {
            assert(n == at_row(*p, q.row + 1));
            assert forall|r: int| p.row <= r <= n.row implies #[trigger] fits(d@, at_row(*p, r)) by {
                if r == n.row {
                    assert(at_row(*p, r) == n);
                }
            }
            lemma_piece_bounds(d@, n);
        }
        q = n;
    }
    q
}

/// Whether every cell of `row` has landed.
/// The number of full rows among rows `lo` up to `hi`, `hi` excluded.
pub open spec fn full_count(b: Seq<Vec<Tetrominoe>>, lo: int, hi: int) -> int
    decreases hi - lo,
{
    if lo >= hi {
        0
    } else {
        full_count(b, lo + 1, hi) + if row_full(b[lo]) {
            1int
        } else {
            0int
        }
    }
}

/// The lowest row of the 4x4 frame that holds a cell (0 for an empty frame).
pub open spec fn bottom_offset(s: crate::tetrominoe::Shape) -> int {
    if s[3][0] || s[3][1] || s[3][2] || s[3][3] {
        3
    } else if s[2][0] || s[2][1] || s[2][2] || s[2][3] {
        2
    } else if s[1][0] || s[1][1] || s[1][2] || s[1][3] {
        1
    } else {
        0
    }
}

/// The board row of `p`'s lowest cell.
pub open spec fn bottom_row(p: Tetrominoe) -> int {
    p.row + bottom_offset(p.shape)
}

/// A piece's lowest cell is on the board, and no cell lies below it.
pub(crate) proof fn lemma_bottom_row(b: Seq<Vec<Tetrominoe>>, p: Tetrominoe)
    requires
        within(b, p),
        piece_wf(p),
    ensures
        0 <= bottom_row(p) < b.len(),
        forall|i: int, j: int| 0 <= i < 4 && 0 <= j < 4 && #[trigger] p.shape[i][j] ==> p.row + i <= bottom_row(p),
{
    let (i0, j0) = choose|i: int, j: int| 0 <= i < 4 && 0 <= j < 4 && #[trigger] p.shape[i][j];
    let k = bottom_offset(p.shape);
    assert(exists|j: int| 0 <= j < 4 && #[trigger] p.shape[k][j]) by {
        if p.shape[k][0] {
        } else if p.shape[k][1] {
        } else if p.shape[k][2] {
        } else if p.shape[k][3] {
        } else {
            assert(i0 == 0 || i0 == 1 || i0 == 2 || i0 == 3);
            assert(j0 == 0 || j0 == 1 || j0 == 2 || j0 == 3);
        }
    }
    let j = choose|j: int| 0 <= j < 4 && #[trigger] p.shape[k][j];
    assert(on_board(b, p.row + k, p.col + j));
    assert forall|i: int, j: int| 0 <= i < 4 && 0 <= j < 4 && #[trigger] p.shape[i][j] implies p.row + i
        <= bottom_row(p) by {
        assert(i == 0 || i == 1 || i == 2 || i == 3);
        assert(j == 0 || j == 1 || j == 2 || j == 3);
    }
}

/// The frame row of `p`'s lowest cell.
pub(crate) fn bottom_of(p: &Tetrominoe) -> (r: usize)
    ensures
        r == bottom_offset(p.shape),
{
    let s = p.shape;
    if s[3][0] || s[3][1] || s[3][2] || s[3][3] {
        3
    } else if s[2][0] || s[2][1] || s[2][2] || s[2][3] {
        2
    } else if s[1][0] || s[1][1] || s[1][2] || s[1][3] {
        1
    } else {
        0
    }
}

/// How many rows from `lo` down to the bottom are full.
pub(crate) fn count_full(d: &Vec<Vec<Tetrominoe>>, lo: usize) -> (n: usize)
    requires
        lo <= d@.len(),
    ensures
        n == full_count(d@, lo as int, d@.len() as int),
        n <= d@.len() - lo,
{
    let h = d.len();
    let mut r = h;
    let mut n: usize = 0;
    while r > lo
        invariant
            h == d@.len(),
            lo <= r <= h,
            n == full_count(d@, r as int, h as int),
            n <= h - r,
        decreases r,
    {
        r -= 1;
        if is_full(&d[r]) {
            n += 1;
        }
    }
    n
}

pub(crate) fn is_full(row: &Vec<Tetrominoe>) -> (r: bool)
    ensures
        r == row_full(*row),
{
    let mut c: usize = 0;
    while c < row.len()
        invariant
            c <= row@.len(),
            forall|k: int| 0 <= k < c ==> (#[trigger] row@[k]).game_state == State::Landed,
        decreases row@.len() - c,
    {
        if row[c].game_state != State::Landed {
            return false;
        }
        c += 1;
    }
    true
}

/// A row of `w` empty cells.
pub(crate) fn blank_row(w: usize) -> (r: Vec<Tetrominoe>)
    ensures
        r@.len() == w,
        forall|c: int| 0 <= c < w ==> #[trigger] r@[c] == blank(),
{
    let mut row: Vec<Tetrominoe> = Vec::new();
    let mut j: usize = 0;
    while j < w
        invariant
            j <= w,
            row@.len() == j,
            forall|c: int| 0 <= c < j ==> #[trigger] row@[c] == blank(),
        decreases w - j,
    {
        row.push(Tetrominoe::new(None, None));
        j += 1;
    }
    row
}

/// Removes the full rows and puts as many empty rows on top; returns how
/// many were removed.
pub(crate) fn clear_lines(d: &mut Vec<Vec<Tetrominoe>>) -> (n: usize)
    requires
        board_wf(old(d)@),
    ensures
        cleared(final(d)@, old(d)@, n as int),
{
    let ghost b = d@;
    let h = d.len();
    let w = d[0].len();
    let mut r: usize = 0;
    let mut i: usize = 0;
    while r < h
        invariant
            h == b.len(),
            r <= h,
            d@ == kept_rows(b.take(r as int)) + b.skip(r as int),
            i == kept_rows(b.take(r as int)).len(),
        decreases h - r,
    {
        proof {
            lemma_kept_push(b.take(r as int), b[r as int]);
            assert(b.take(r as int).push(b[r as int]) =~= b.take(r + 1));
            assert(d@[i as int] == b[r as int]);
        }
        if is_full(&d[i]) {
            d.remove(i);
        } else {
            i += 1;
        }
        r += 1;
        assert(d@ =~= kept_rows(b.take(r as int)) + b.skip(r as int));
    }
    assert(b.take(h as int) =~= b);
    assert(d@ =~= kept_rows(b));
    let ghost kept = d@;
    let n = h - d.len();
    let mut k: usize = 0;
    while k < n
        invariant
            k <= n,
            n + kept.len() == h,
            w == width(b),
            d@.len() == kept.len() + k,
            forall|t: int| 0 <= t < k ==> (#[trigger] d@[t])@.len() == w,
            forall|t: int, c: int| 0 <= t < k && 0 <= c < w ==> #[trigger] d@[t]@[c] == blank(),
            forall|t: int| k <= t < d@.len() ==> #[trigger] d@[t] == kept[t - k],
        decreases n - k,
    {
        let row = blank_row(w);
        d.insert(0, row);
        k += 1;
    }
    n
}

/// Puts every cell in state `from` in state `to`.
pub(crate) fn restate(d: &mut Vec<Vec<Tetrominoe>>, from: State, to: State)
    requires
        board_wf(old(d)@),
    ensures
        same_shape(final(d)@, old(d)@),
        forall|r: int, c: int|
            on_board(old(d)@, r, c) ==> #[trigger] final(d)@[r]@[c] == restated(old(d)@[r]@[c], from, to),
{
    let ghost b = d@;
    let h = d.len();
    let w = d[0].len();
    let mut r: usize = 0;
    while r < h
        invariant
            h == b.len(),
            w == width(b),
            board_wf(b),
            r <= h,
            same_shape(d@, b),
            forall|rr: int, c: int|
                0 <= rr < h && 0 <= c < w ==> #[trigger] d@[rr]@[c] == if rr < r {
                    restated(b[rr]@[c], from, to)
                } else {
                    b[rr]@[c]
                },
        decreases h - r,
    {
        let mut c: usize = 0;
        while c < w
            invariant
                h == b.len(),
                w == width(b),
                board_wf(b),
                r < h,
                c <= w,
                same_shape(d@, b),
                forall|rr: int, cc: int|
                    0 <= rr < h && 0 <= cc < w ==> #[trigger] d@[rr]@[cc] == if rr < r || (rr
                        == r && cc < c) {
                        restated(b[rr]@[cc], from, to)
                    } else {
                        b[rr]@[cc]
                    },
            decreases w - c,
        {
            let t = d[r][c];
            if t.game_state == from {
                let nt = if to == State::Empty {
                    Tetrominoe::new(None, None)
                } else {
                    Tetrominoe { game_state: to, ..t }
                };
                d[r].set(c, nt);
            }
            c += 1;
        }
        r += 1;
    }
}

/// Draws `p` on the board in `state`; see `stamped`.
pub(crate) fn stamp(d: &mut Vec<Vec<Tetrominoe>>, p: &Tetrominoe, state: State)
    requires
        board_wf(old(d)@),
        within(old(d)@, *p),
    ensures
        same_shape(final(d)@, old(d)@),
        forall|r: int, c: int|
            on_board(old(d)@, r, c) ==> #[trigger] final(d)@[r]@[c] == if covers(*p, r, c) {
                stamped(old(d)@[r]@[c], p.color, state)
            } else {
                old(d)@[r]@[c]
            },
{
    let ghost b = d@;
    let h = d.len();
    let w = d[0].len();
    let mut i: usize = 0;
    while i < 4
        invariant
            h == b.len(),
            w == width(b),
            board_wf(b),
            within(b, *p),
            i <= 4,
            same_shape(d@, b),
            forall|r: int, c: int|
                on_board(b, r, c) ==> #[trigger] d@[r]@[c] == if covers(*p, r, c) && r - p.row < i {
                    stamped(b[r]@[c], p.color, state)
                } else {
                    b[r]@[c]
                },
        decreases 4 - i,
    {
        let mut j: usize = 0;
        while j < 4
            invariant
                h == b.len(),
                w == width(b),
                board_wf(b),
                within(b, *p),
                i < 4,
                j <= 4,
                same_shape(d@, b),
                forall|r: int, c: int|
                    on_board(b, r, c) ==> #[trigger] d@[r]@[c] == if covers(*p, r, c) && (r
                        - p.row < i || (r - p.row == i && c - p.col < j)) {
                        stamped(b[r]@[c], p.color, state)
                    } else {
                        b[r]@[c]
                    },
            decreases 4 - j,
        {
            if p.shape[i][j] {
                assert(p.shape[i as int][j as int]);
                assert(on_board(b, p.row + i, p.col + j));
                let r0 = p.row + i;
                let cc = p.col + j as i64;
                assert(0 <= cc < w);
                let c0 = cc as usize;
                let t = d[r0][c0];
                let nt = if state == State::Preview && t.game_state != State::Empty {
                    t
                } else {
                    Tetrominoe::new(Some(state), Some(p.color))
                };
                d[r0].set(c0, nt);
            }
            j += 1;
        }
        i += 1;
    }
}

/// Whether `p` is a legal placement on `d`.
pub(crate) fn fits_at(d: &Vec<Vec<Tetrominoe>>, p: &Tetrominoe) -> (r: bool)
    requires
        board_wf(d@),
        i64::MIN + 4 <= p.col <= i64::MAX - 4,
    ensures
        r == fits(d@, *p),
{
    let h = d.len();
    let w = d[0].len();
    let mut i: usize = 0;
    while i < 4
        invariant
            board_wf(d@),
            h == d@.len(),
            w == width(d@),
            i64::MIN + 4 <= p.col <= i64::MAX - 4,
            i <= 4,
            forall|a: int, c: int|
                0 <= a < i && 0 <= c < 4 && #[trigger] p.shape[a][c] ==> {
                    &&& on_board(d@, p.row + a, p.col + c)
                    &&& d@[p.row + a]@[p.col + c].game_state != State::Landed
                },
        decreases 4 - i,
    {
        let mut j: usize = 0;
        while j < 4
            invariant
                board_wf(d@),
                h == d@.len(),
                w == width(d@),
                i64::MIN + 4 <= p.col <= i64::MAX - 4,
                i < 4,
                j <= 4,
                forall|a: int, c: int|
                    0 <= a < 4 && 0 <= c < 4 && (a < i || (a == i && c < j)) && #[trigger] p.shape[a][c]
                        ==> {
                        &&& on_board(d@, p.row + a, p.col + c)
                        &&& d@[p.row + a]@[p.col + c].game_state != State::Landed
                    },
            decreases 4 - j,
        {
            if p.shape[i][j] {
                let c = p.col + j as i64;
                if p.row >= h || i >= h - p.row || c < 0 || c >= w as i64 {
                    return false;
                }
                if d[p.row + i][c as usize].game_state == State::Landed {
                    return false;
                }
            }
            j += 1;
        }
        i += 1;
    }
    true
}

} // verus!
