//! Piece kinds, colors, shapes and rotation tables.

use vstd::prelude::*;

use crate::bag::Bag;

verus! {

/// Occupancy of a piece's 4x4 frame: `shape[i][j]` is row `i`, column `j`.
pub type Shape = [[bool; 4]; 4];

#[derive(Clone, Copy, PartialEq, Eq, Structural, Debug)]
pub enum TColor {
    Cyan,
    Red,
    Green,
    Yellow,
    Blue,
    Magenta,
    Orange,
    Empty,
}

#[derive(Clone, Copy, PartialEq, Eq, Structural, Debug)]
pub enum State {
    Landed,
    Active,
    Preview,
    Empty,
}

/// The seven tetromino kinds.
#[derive(Clone, Copy, PartialEq, Eq, Structural, Debug)]
pub enum PieceType {
    I,
    J,
    L,
    O,
    S,
    T,
    Z,
}

/// A piece (shape, anchor, kind, color, rotation index), also used as a board
/// cell, where only `game_state` and `color` matter.
///
/// `row` and `col` anchor the top-left corner of the 4x4 frame on the board.
/// The column may lie left of the board when the frame's left columns are empty.
#[derive(Clone, Copy, PartialEq, Eq, Debug)]
pub struct Tetrominoe {
    pub shape: Shape,
    pub row: usize,
    pub col: i64,
    pub ptype: Option<PieceType>,
    pub color: TColor,
    pub game_state: State,
    pub rotation_state: usize,
}

pub open spec fn empty_shape() -> Shape {
    let o = false;
    [[o, o, o, o], [o, o, o, o], [o, o, o, o], [o, o, o, o]]
}

pub open spec fn shape_i0() -> Shape {
    let (x, o) = (true, false);
    [
        [x, o, o, o],
        [x, o, o, o],
        [x, o, o, o],
        [x, o, o, o],
    ]
}

pub open spec fn shape_j0() -> Shape {
    let (x, o) = (true, false);
    [
        [o, x, o, o],
        [o, x, o, o],
        [x, x, o, o],
        [o, o, o, o],
    ]
}

pub open spec fn shape_l0() -> Shape {
    let (x, o) = (true, false);
    [
        [o, x, o, o],
        [o, x, o, o],
        [o, x, x, o],
        [o, o, o, o],
    ]
}

pub open spec fn shape_o0() -> Shape {
    let (x, o) = (true, false);
    [
        [o, x, x, o],
        [o, x, x, o],
        [o, o, o, o],
        [o, o, o, o],
    ]
}

pub open spec fn shape_s0() -> Shape {
    let (x, o) = (true, false);
    [
        [o, x, x, o],
        [x, x, o, o],
        [o, o, o, o],
        [o, o, o, o],
    ]
}

pub open spec fn shape_s1() -> Shape {
    let (x, o) = (true, false);
    [
        [o, o, o, o],
        [o, x, o, o],
        [o, x, x, o],
        [o, o, x, o],
    ]
}

pub open spec fn shape_z0() -> Shape {
    let (x, o) = (true, false);
    [
        [x, x, o, o],
        [o, x, x, o],
        [o, o, o, o],
        [o, o, o, o],
    ]
}

pub open spec fn shape_z1() -> Shape {
    let (x, o) = (true, false);
    [
        [o, o, o, o],
        [o, o, x, o],
        [o, x, x, o],
        [o, x, o, o],
    ]
}

pub open spec fn shape_t0() -> Shape {
    let (x, o) = (true, false);
    [
        [o, x, o, o],
        [x, x, x, o],
        [o, o, o, o],
        [o, o, o, o],
    ]
}

pub open spec fn shape_t1() -> Shape {
    let (x, o) = (true, false);
    [
        [o, x, o, o],
        [o, x, x, o],
        [o, x, o, o],
        [o, o, o, o],
    ]
}

pub open spec fn shape_t2() -> Shape {
    let (x, o) = (true, false);
    [
        [o, o, o, o],
        [x, x, x, o],
        [o, x, o, o],
        [o, o, o, o],
    ]
}

pub open spec fn shape_t3() -> Shape {
    let (x, o) = (true, false);
    [
        [o, x, o, o],
        [x, x, o, o],
        [o, x, o, o],
        [o, o, o, o],
    ]
}

/// The unrotated shape of each kind.
pub open spec fn canonical_shape(k: PieceType) -> Shape {
    match k {
        PieceType::I => shape_i0(),
        PieceType::J => shape_j0(),
        PieceType::L => shape_l0(),
        PieceType::O => shape_o0(),
        PieceType::S => shape_s0(),
        PieceType::T => shape_t0(),
        PieceType::Z => shape_z0(),
    }
}

pub open spec fn color_of(k: PieceType) -> TColor {
    match k {
        PieceType::I => TColor::Cyan,
        PieceType::J => TColor::Blue,
        PieceType::L => TColor::Orange,
        PieceType::O => TColor::Yellow,
        PieceType::S => TColor::Green,
        PieceType::T => TColor::Magenta,
        PieceType::Z => TColor::Red,
    }
}

/// A quarter turn clockwise: the transpose with each row then reversed.
pub open spec fn turn_cw(s: Shape) -> Shape {
    [
        [s[3][0], s[2][0], s[1][0], s[0][0]],
        [s[3][1], s[2][1], s[1][1], s[0][1]],
        [s[3][2], s[2][2], s[1][2], s[0][2]],
        [s[3][3], s[2][3], s[1][3], s[0][3]],
    ]
}

/// The piece after one rotation: O is unchanged; I, J and L turn a quarter
/// clockwise; S and Z toggle between two tables; T cycles through four.
pub open spec fn rotated(p: Tetrominoe) -> Tetrominoe {
    match p.ptype {
        Some(PieceType::I) | Some(PieceType::J) | Some(PieceType::L) => Tetrominoe {
            shape: turn_cw(p.shape),
            ..p
        },
        Some(PieceType::S) => if p.rotation_state == 0 {
            Tetrominoe { shape: shape_s1(), rotation_state: 1, ..p }
        } else {
            Tetrominoe { shape: shape_s0(), rotation_state: 0, ..p }
        },
        Some(PieceType::Z) => if p.rotation_state == 0 {
            Tetrominoe { shape: shape_z1(), rotation_state: 1, ..p }
        } else {
            Tetrominoe { shape: shape_z0(), rotation_state: 0, ..p }
        },
        Some(PieceType::T) => if p.rotation_state == 0 {
            Tetrominoe { shape: shape_t1(), rotation_state: 1, ..p }
        } else if p.rotation_state == 1 {
            Tetrominoe { shape: shape_t2(), rotation_state: 2, ..p }
        } else if p.rotation_state == 2 {
            Tetrominoe { shape: shape_t3(), rotation_state: 3, ..p }
        } else {
            Tetrominoe { shape: shape_t0(), rotation_state: 0, ..p }
        },
        _ => p,
    }
}

/// A blank piece or board cell carrying the given state and color.
pub open spec fn plain(state: State, color: TColor) -> Tetrominoe {
    Tetrominoe {
        shape: empty_shape(),
        row: 0,
        col: 0,
        ptype: None,
        color,
        game_state: state,
        rotation_state: 0,
    }
}

/// The unrotated piece of kind `k`, anchored at the origin.
pub open spec fn fresh_piece(k: PieceType, state: State) -> Tetrominoe {
    Tetrominoe {
        shape: canonical_shape(k),
        row: 0,
        col: 0,
        ptype: Some(k),
        color: color_of(k),
        game_state: state,
        rotation_state: 0,
    }
}

pub open spec fn texture_of(c: TColor) -> Seq<char> {
    match c {
        TColor::Cyan => "blocks/cyan.png"@,
        TColor::Blue => "blocks/blue.png"@,
        TColor::Orange => "blocks/orange.png"@,
        TColor::Yellow => "blocks/yellow.png"@,
        TColor::Red => "blocks/red.png"@,
        TColor::Magenta => "blocks/magenta.png"@,
        TColor::Green => "blocks/green.png"@,
        TColor::Empty => ""@,
    }
}

impl Tetrominoe {
    /// A blank piece: no kind, empty shape, at the origin.
    pub fn new(state: Option<State>, color: Option<TColor>) -> (r: Tetrominoe)
        ensures
            r == plain(
                match state {
                    Some(s) => s,
                    None => State::Empty,
                },
                match color {
                    Some(c) => c,
                    None => TColor::Empty,
                },
            ),
    {
        let x = false;
        Tetrominoe {
            shape: [[x, x, x, x], [x, x, x, x], [x, x, x, x], [x, x, x, x]],
            row: 0,
            col: 0,
            ptype: None,
            color: match color {
                Some(c) => c,
                None => TColor::Empty,
            },
            game_state: match state {
                Some(s) => s,
                None => State::Empty,
            },
            rotation_state: 0,
        }
    }

    /// Gives the piece kind `kind`: its unrotated shape and its color.
    pub fn set(&mut self, kind: PieceType) -> (r: &mut Self)
        ensures
            *r == (Tetrominoe {
                shape: canonical_shape(kind),
                ptype: Some(kind),
                color: color_of(kind),
                rotation_state: 0,
                ..*old(self)
            }),
            *final(self) == *final(r),
    {
        let (x, o) = (true, false);
        let (shape, color) = match kind {
            PieceType::I => ([
                    [x, o, o, o],
                    [x, o, o, o],
                    [x, o, o, o],
                    [x, o, o, o],
                ], TColor::Cyan),
            PieceType::J => ([
                    [o, x, o, o],
                    [o, x, o, o],
                    [x, x, o, o],
                    [o, o, o, o],
                ], TColor::Blue),
            PieceType::L => ([
                    [o, x, o, o],
                    [o, x, o, o],
                    [o, x, x, o],
                    [o, o, o, o],
                ], TColor::Orange),
            PieceType::O => ([
                    [o, x, x, o],
                    [o, x, x, o],
                    [o, o, o, o],
                    [o, o, o, o],
                ], TColor::Yellow),
            PieceType::Z => ([
                    [x, x, o, o],
                    [o, x, x, o],
                    [o, o, o, o],
                    [o, o, o, o],
                ], TColor::Red),
            PieceType::T => ([
                    [o, x, o, o],
                    [x, x, x, o],
                    [o, o, o, o],
                    [o, o, o, o],
                ], TColor::Magenta),
            PieceType::S => ([
                    [o, x, x, o],
                    [x, x, o, o],
                    [o, o, o, o],
                    [o, o, o, o],
                ], TColor::Green),
        };
        self.ptype = Some(kind);
        self.color = color;
        self.shape = shape;
        self.rotation_state = 0;
        self
    }

    pub fn set_pos(&mut self, row: usize, col: i64)
        ensures
            *final(self) == (Tetrominoe { row, col, ..*old(self) }),
    {
        self.row = row;
        self.col = col;
    }

    /// Rotates the piece in its frame; see `rotated`.
    pub fn rotate(&mut self)
        ensures
            *final(self) == rotated(*old(self)),
    {
        let (x, o) = (true, false);
        match self.ptype {
            Some(PieceType::I) | Some(PieceType::J) | Some(PieceType::L) => {
                let s = self.shape;
                self.shape = [
                    [s[3][0], s[2][0], s[1][0], s[0][0]],
                    [s[3][1], s[2][1], s[1][1], s[0][1]],
                    [s[3][2], s[2][2], s[1][2], s[0][2]],
                    [s[3][3], s[2][3], s[1][3], s[0][3]],
                ];
            },
            Some(PieceType::S) => {
                if self.rotation_state == 0 {
                    self.shape = [
                            [o, o, o, o],
                            [o, x, o, o],
                            [o, x, x, o],
                            [o, o, x, o],
                        ];
                    self.rotation_state = 1;
                } else {
                    self.shape = [
                            [o, x, x, o],
                            [x, x, o, o],
                            [o, o, o, o],
                            [o, o, o, o],
                        ];
                    self.rotation_state = 0;
                }
            },
            Some(PieceType::Z) => {
                if self.rotation_state == 0 {
                    self.shape = [
                            [o, o, o, o],
                            [o, o, x, o],
                            [o, x, x, o],
                            [o, x, o, o],
                        ];
                    self.rotation_state = 1;
                } else {
                    self.shape = [
                            [x, x, o, o],
                            [o, x, x, o],
                            [o, o, o, o],
                            [o, o, o, o],
                        ];
                    self.rotation_state = 0;
                }
            },
            Some(PieceType::T) => {
                if self.rotation_state == 0 {
                    self.shape = [
                            [o, x, o, o],
                            [o, x, x, o],
                            [o, x, o, o],
                            [o, o, o, o],
                        ];
                    self.rotation_state = 1;
                } else if self.rotation_state == 1 {
                    self.shape = [
                            [o, o, o, o],
                            [x, x, x, o],
                            [o, x, o, o],
                            [o, o, o, o],
                        ];
                    self.rotation_state = 2;
                } else if self.rotation_state == 2 {
                    self.shape = [
                            [o, x, o, o],
                            [x, x, o, o],
                            [o, x, o, o],
                            [o, o, o, o],
                        ];
                    self.rotation_state = 3;
                } else {
                    self.shape = [
                            [o, x, o, o],
                            [x, x, x, o],
                            [o, o, o, o],
                            [o, o, o, o],
                        ];
                    self.rotation_state = 0;
                }
            },
            _ => {},
        }
    }

    /// The unrotated piece of kind `ptype` at the origin.
    pub fn from(ptype: PieceType, state: Option<State>) -> (r: Tetrominoe)
        ensures
            r == fresh_piece(
                ptype,
                match state {
                    Some(s) => s,
                    None => State::Empty,
                },
            ),
    {
        let mut t = Tetrominoe::new(state, None);
        t.set(ptype);
        t
    }

    /// A fresh piece whose kind is the next draw from `bag`.
    pub fn random(bag: &mut Bag) -> (r: Tetrominoe)
        requires
            old(bag).wf(),
        ensures
            final(bag).wf(),
            exists|k: PieceType| r == fresh_piece(k, State::Empty) && Bag::drawn(*old(bag), *final(bag), k),
    {
        let k = bag.draw();
        Tetrominoe::from(k, None)
    }

    /// The texture file that shows a cell of this color.
    pub fn as_color(&self) -> (r: &'static str)
        ensures
            r@ == texture_of(self.color),
    {
        proof {
            reveal_strlit("blocks/cyan.png");
            reveal_strlit("blocks/blue.png");
            reveal_strlit("blocks/orange.png");
            reveal_strlit("blocks/yellow.png");
            reveal_strlit("blocks/red.png");
            reveal_strlit("blocks/magenta.png");
            reveal_strlit("blocks/green.png");
            reveal_strlit("");
        }
        match self.color {
            TColor::Cyan => "blocks/cyan.png",
            TColor::Blue => "blocks/blue.png",
            TColor::Orange => "blocks/orange.png",
            TColor::Yellow => "blocks/yellow.png",
            TColor::Red => "blocks/red.png",
            TColor::Magenta => "blocks/magenta.png",
            TColor::Green => "blocks/green.png",
            TColor::Empty => "",
        }
    }
}

} // verus!
