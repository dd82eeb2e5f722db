//! The seven-piece randomizer.

use vstd::prelude::*;

use crate::tetrominoe::PieceType;

verus! {

/// Every kind once, in a fixed order.
pub open spec fn all_kinds() -> Seq<PieceType> {
    seq![
        PieceType::I,
        PieceType::J,
        PieceType::L,
        PieceType::O,
        PieceType::S,
        PieceType::T,
        PieceType::Z,
    ]
}

/// `s` lists each of the seven kinds exactly once.
pub open spec fn is_cycle(s: Seq<PieceType>) -> bool {
    &&& s.len() == 7
    &&& s.no_duplicates()
    &&& forall|k: PieceType| s.contains(k)
}

/// The seven-piece randomizer: the kinds left in the current cycle, and the
/// state of the generator that shuffles the next cycle.
pub struct Bag {
    pub pieces: Vec<PieceType>,
    pub seed: u64,
}

const DEFAULT_SEED: u64 = 0x853c_49e6_748f_ea9b;

const LCG_MUL: u64 = 6364136223846793005;

const LCG_INC: u64 = 1442695040888963407;

impl Bag {
    /// The kinds left hold no kind twice.
    pub open spec fn wf(&self) -> bool {
        self.pieces@.no_duplicates()
    }

    /// `next` is `prev` after a draw that returned `k`: the front of a
    /// non-empty bag, or the front of a fresh cycle when the bag was empty.
    pub open spec fn drawn(prev: Bag, next: Bag, k: PieceType) -> bool {
        if prev.pieces@.len() > 0 {
            k == prev.pieces@[0] && next.pieces@ == prev.pieces@.drop_first()
        } else {
            is_cycle(seq![k] + next.pieces@)
        }
    }

    /// An empty bag with a fixed seed, so that the order of pieces repeats.
    pub fn new() -> (r: Bag)
        ensures
            r.wf(),
            r.pieces@.len() == 0,
    {
        Bag { pieces: Vec::new(), seed: DEFAULT_SEED }
    }

    /// An empty bag whose shuffles are driven by `seed`.
    pub fn with_seed(seed: u64) -> (r: Bag)
        ensures
            r.wf(),
            r.pieces@.len() == 0,
            r.seed == seed,
    {
        Bag { pieces: Vec::new(), seed }
    }

    fn next_index(&mut self, n: usize) -> (r: usize)
        requires
            n > 0,
        ensures
            r < n,
            final(self).pieces == old(self).pieces,
    {
        self.seed = self.seed.wrapping_mul(LCG_MUL).wrapping_add(LCG_INC);
        ((self.seed >> 33) % (n as u64)) as usize
    }

    /// Fills an empty bag with a shuffled cycle of all seven kinds.
    fn refill(&mut self)
        requires
            old(self).pieces@.len() == 0,
        ensures
            is_cycle(final(self).pieces@),
    {
        let mut pool: Vec<PieceType> = vec![
            PieceType::I,
            PieceType::J,
            PieceType::L,
            PieceType::O,
            PieceType::S,
            PieceType::T,
            PieceType::Z,
        ];
        assert(pool@ == all_kinds());
        assert forall|k: PieceType| pool@.contains(k) by {
            match k {
                PieceType::I => assert(pool@[0] == k),
                PieceType::J => assert(pool@[1] == k),
                PieceType::L => assert(pool@[2] == k),
                PieceType::O => assert(pool@[3] == k),
                PieceType::S => assert(pool@[4] == k),
                PieceType::T => assert(pool@[5] == k),
                PieceType::Z => assert(pool@[6] == k),
            }
        }
        while pool.len() > 0
            invariant
                self.pieces@.len() + pool@.len() == 7,
                self.pieces@.no_duplicates(),
                pool@.no_duplicates(),
                forall|k: PieceType| self.pieces@.contains(k) != pool@.contains(k),
            decreases pool.len(),
        {
            let i = self.next_index(pool.len());
            let ghost old_pool = pool@;
            let x = pool.remove(i);
            let ghost before = self.pieces@;
            assert(old_pool[i as int] == x);
            assert(old_pool.contains(x));
            assert(!before.contains(x));
            self.pieces.push(x);
            assert(self.pieces@ == before.push(x));
            assert forall|a: int, b: int|
                0 <= a < self.pieces@.len() && 0 <= b < self.pieces@.len() && a != b
                implies self.pieces@[a] != self.pieces@[b] by {
                if a == before.len() as int {
                    assert(before[b] == self.pieces@[b]);
                } else if b == before.len() as int {
                    assert(before[a] == self.pieces@[a]);
                }
            }
            assert forall|a: int, b: int|
                0 <= a < pool@.len() && 0 <= b < pool@.len() && a != b
                implies pool@[a] != pool@[b] by {
                let a2 = if a < i { a } else { a + 1 };
                let b2 = if b < i { b } else { b + 1 };
                assert(pool@[a] == old_pool[a2]);
                assert(pool@[b] == old_pool[b2]);
            }
            assert forall|k: PieceType| self.pieces@.contains(k) != pool@.contains(k) by {
                if k == x {
                    assert(self.pieces@[self.pieces@.len() - 1] == k);
                    if pool@.contains(k) {
                        let j = choose|j: int| 0 <= j < pool@.len() && pool@[j] == k;
                        if j < i {
                            assert(old_pool[j] == k);
                        } else {
                            assert(old_pool[j + 1] == k);
                        }
                    }
                } else {
                    if pool@.contains(k) {
                        let j = choose|j: int| 0 <= j < pool@.len() && pool@[j] == k;
                        if j < i {
                            assert(old_pool[j] == k);
                        } else {
                            assert(old_pool[j + 1] == k);
                        }
                    }
                    if old_pool.contains(k) {
                        let j = choose|j: int| 0 <= j < old_pool.len() && old_pool[j] == k;
                        assert(j != i);
                        if j < i {
                            assert(pool@[j] == k);
                        } else {
                            assert(pool@[j - 1] == k);
                        }
                    }
                    if self.pieces@.contains(k) {
                        let j = choose|j: int| 0 <= j < self.pieces@.len() && self.pieces@[j] == k;
                        assert(before[j] == k);
                    }
                    if before.contains(k) {
                        let j = choose|j: int| 0 <= j < before.len() && before[j] == k;
                        assert(self.pieces@[j] == k);
                    }
                }
            }
        }
        assert forall|k: PieceType| self.pieces@.contains(k) by {
            assert(!pool@.contains(k));
        }
    }

    /// Removes and returns the front kind, refilling the bag first when empty.
    pub fn draw(&mut self) -> (r: PieceType)
        requires
            old(self).wf(),
        ensures
            final(self).wf(),
            Bag::drawn(*old(self), *final(self), r),
    {
        if self.pieces.len() == 0 {
            self.refill();
        }
        let ghost full = self.pieces@;
        let r = self.pieces.remove(0);
        assert(self.pieces@ =~= full.drop_first());
        assert(seq![r] + self.pieces@ =~= full);
        assert forall|a: int, b: int|
            0 <= a < self.pieces@.len() && 0 <= b < self.pieces@.len() && a != b
            implies self.pieces@[a] != self.pieces@[b] by {
            assert(self.pieces@[a] == full[a + 1]);
            assert(self.pieces@[b] == full[b + 1]);
        }
        r
    }
}

/// Seven draws from an empty bag hand out each of the seven kinds exactly
/// once: `bags` are the bag's states around the draws and `kinds` what the
/// draws returned.
pub proof fn lemma_bag_cycle(bags: Seq<Bag>, kinds: Seq<PieceType>)
    requires
        bags.len() == 8,
        kinds.len() == 7,
        bags[0].pieces@.len() == 0,
        forall|i: int| 0 <= i < 7 ==> #[trigger] Bag::drawn(bags[i], bags[i + 1], kinds[i]),
    ensures
        is_cycle(kinds),
{
    let c = seq![kinds[0]] + bags[1].pieces@;
    let i: int = 0;
    assert(Bag::drawn(bags[i], bags[i + 1], kinds[i]));
    assert(bags[1].pieces@ =~= c.subrange(1, 7));
    let i: int = 1;
    assert(Bag::drawn(bags[i], bags[i + 1], kinds[i]));
    assert(bags[2].pieces@ =~= c.subrange(2, 7));
    let i: int = 2;
    assert(Bag::drawn(bags[i], bags[i + 1], kinds[i]));
    assert(bags[3].pieces@ =~= c.subrange(3, 7));
    let i: int = 3;
    assert(Bag::drawn(bags[i], bags[i + 1], kinds[i]));
    assert(bags[4].pieces@ =~= c.subrange(4, 7));
    let i: int = 4;
    assert(Bag::drawn(bags[i], bags[i + 1], kinds[i]));
    assert(bags[5].pieces@ =~= c.subrange(5, 7));
    let i: int = 5;
    assert(Bag::drawn(bags[i], bags[i + 1], kinds[i]));
    assert(bags[6].pieces@ =~= c.subrange(6, 7));
    let i: int = 6;
    assert(Bag::drawn(bags[i], bags[i + 1], kinds[i]));
    assert(kinds =~= c);
}

} // verus!
