//! The game's state and its invariant.

use vstd::prelude::*;

use crate::bag::{is_cycle, Bag};
use crate::gamescore::GameScore;
use crate::board::{blank, board_wf, cells_wf, covers, footprint, no_active, piece_wf};
use crate::tetlib::{init, kind, new_piece, spawn_piece, spawned};
use crate::tetrominoe::{fresh_piece, plain, PieceType, State, Tetrominoe};

verus! {

/// The whole game: the board (row 0 on top), the falling piece, the held and
/// next pieces, the bag, the score and the game-over flag.
pub struct GameState {
    pub display: Vec<Vec<Tetrominoe>>,
    pub active_piece: Tetrominoe,
    pub hold_piece: Option<Tetrominoe>,
    pub next_piece: Tetrominoe,
    pub counter: usize,
    pub is_game_over: bool,
    pub bag: Bag,
    pub gamescore: GameScore,
}

impl GameState {
    pub open spec fn width(&self) -> int {
        self.display@[0]@.len() as int
    }

    pub open spec fn height(&self) -> int {
        self.display@.len() as int
    }

    /// The invariant every operation keeps. While the game runs, the active
    /// cells of the board are exactly the active piece's footprint; once it is
    /// over, no cell is active.
    pub open spec fn wf(&self) -> bool {
        &&& board_wf(self.display@)
        &&& cells_wf(self.display@)
        &&& (!self.is_game_over ==> piece_wf(self.active_piece))
        &&& (exists|k: PieceType| self.next_piece == fresh_piece(k, State::Empty))
        &&& (self.hold_piece matches Some(h) ==> piece_wf(h))
        &&& (self.is_game_over ==> no_active(self.display@))
        &&& (!self.is_game_over ==> footprint(self.display@, self.active_piece))
        &&& self.gamescore.wf()
        &&& self.bag.wf()
    }

    /// What a new game holds: an empty board of the given size with the first
    /// piece spawned on it, nothing held, no score, and a game running. The
    /// active and next pieces are the first two draws of one shuffled cycle,
    /// whose other five kinds are left in the bag.
    pub open spec fn is_fresh(&self, width: int, height: int) -> bool {
        &&& self.wf()
        &&& !self.is_game_over
        &&& self.height() == height
        &&& self.width() == width
        &&& self.hold_piece is None
        &&& self.gamescore.score == 0
        &&& self.gamescore.level == 0
        &&& exists|k: PieceType| self.active_piece == spawn_piece(k, width)
        &&& is_cycle(seq![kind(self.active_piece), kind(self.next_piece)] + self.bag.pieces@)
        &&& forall|r: int, c: int|
            0 <= r < height && 0 <= c < width ==> #[trigger] self.display@[r]@[c] == if covers(
                self.active_piece,
                r,
                c,
            ) {
                plain(State::Active, self.active_piece.color)
            } else {
                blank()
            }
    }

    /// A new game on a `width` x `height` board with the default shuffle seed.
    pub fn new(width: usize, height: usize) -> (r: Self)
        requires
            3 <= width <= u32::MAX,
            4 <= height <= u32::MAX,
        ensures
            r.is_fresh(width as int, height as int),
    {
        GameState::start(width, height, Bag::new())
    }

    /// A new game whose pieces are shuffled from `seed`.
    pub fn with_seed(width: usize, height: usize, seed: u64) -> (r: Self)
        requires
            3 <= width <= u32::MAX,
            4 <= height <= u32::MAX,
        ensures
            r.is_fresh(width as int, height as int),
    {
        GameState::start(width, height, Bag::with_seed(seed))
    }

    fn start(width: usize, height: usize, bag: Bag) -> (r: Self)
        requires
            3 <= width <= u32::MAX,
            4 <= height <= u32::MAX,
            bag.wf(),
            bag.pieces@.len() == 0,
        ensures
            r.is_fresh(width as int, height as int),
    {
        let ghost bag0 = bag;
        let mut bag = bag;
        let next_piece = Tetrominoe::random(&mut bag);
        let ghost bag1 = bag;
        let mut gs = GameState {
            display: init(width, height),
            active_piece: Tetrominoe::new(None, None),
            hold_piece: None,
            next_piece,
            counter: 0,
            is_game_over: false,
            bag,
            gamescore: GameScore::new(),
        };
        proof {
            let b = gs.display@;
            assert(b[0]@.len() == width);
            assert(b[0]@[width as int / 2] == blank());
        }
        let ghost pre = gs;
        let over = new_piece(&mut gs, None);
        assert(spawned(pre, gs, None, over));
        proof {
            let k1 = choose|k: PieceType| next_piece == fresh_piece(k, State::Empty) && Bag::drawn(bag0, bag1, k);
            let n = choose|n: PieceType|
                gs.next_piece == fresh_piece(n, State::Empty) && #[trigger] Bag::drawn(bag1, gs.bag, n);
            assert(kind(gs.active_piece) == k1);
            assert(kind(gs.next_piece) == n);
            assert(seq![k1, n] + gs.bag.pieces@ =~= seq![k1] + bag1.pieces@);
        }
        gs
    }
}

} // verus!
