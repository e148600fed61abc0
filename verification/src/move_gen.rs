//! Generating move sequences for searches.

use vstd::prelude::*;

use crate::moves::Move;
use crate::moves::Turns;
use crate::state::Face;

verus! {

/// The rotation axis a face belongs to.
#[derive(Clone, Copy, Debug, Eq, PartialEq, Structural)]
pub enum Axis {
    UD,
    FB,
    RL,
}

/// How much of an axis is still open for further turns: after the primary
/// face was turned only the secondary may follow; after the secondary the
/// axis is spent.
#[derive(Clone, Copy, Debug, Eq, PartialEq, Structural)]
pub enum AxisState {
    Enabled,
    HalfDisabled,
    Disabled,
}

/// An object representing a certain point in a search tree, and in particular
/// representing the moves that make sense to search in the next step.
#[derive(Clone, Copy, Debug, Eq, PartialEq, Structural)]
pub struct MoveGen {
    pub axis: Axis,
    pub axis_state: AxisState,
}

/// The axis a face turns around.
pub open spec fn axis_of(f: Face) -> Axis {
    match f {
        Face::U => Axis::UD,
        Face::D => Axis::UD,
        Face::F => Axis::FB,
        Face::B => Axis::FB,
        Face::R => Axis::RL,
        Face::L => Axis::RL,
    }
}

/// Whether a face is the primary face of its axis.
pub open spec fn is_primary(f: Face) -> bool {
    match f {
        Face::U => true,
        Face::D => false,
        Face::F => true,
        Face::B => false,
        Face::R => true,
        Face::L => false,
    }
}

/// The generator that applies before any move was made: no axis constraint.
pub open spec fn initial_gen() -> MoveGen {
    MoveGen { axis: Axis::UD, axis_state: AxisState::Enabled }
}

/// Whether the generator admits a turn of the given face next.
pub open spec fn gen_allows(g: MoveGen, f: Face) -> bool {
    ||| axis_of(f) != g.axis
    ||| g.axis_state == AxisState::Enabled
    ||| (g.axis_state == AxisState::HalfDisabled && !is_primary(f))
}

/// The generator that follows a turn of the given face.
pub open spec fn gen_after(f: Face) -> MoveGen {
    MoveGen {
        axis: axis_of(f),
        axis_state: if is_primary(f) {
            AxisState::HalfDisabled
        } else {
            AxisState::Disabled
        },
    }
}

/// The eighteen moves, in the canonical enumeration order: faces in the order
/// U, D, F, B, R, L, each turned once, twice, and thrice.
pub open spec fn all_moves() -> Seq<Move> {
    seq![
        Move { face: Face::U, turns: Turns::Clockwise },
        Move { face: Face::U, turns: Turns::Double },
        Move { face: Face::U, turns: Turns::Counter },
        Move { face: Face::D, turns: Turns::Clockwise },
        Move { face: Face::D, turns: Turns::Double },
        Move { face: Face::D, turns: Turns::Counter },
        Move { face: Face::F, turns: Turns::Clockwise },
        Move { face: Face::F, turns: Turns::Double },
        Move { face: Face::F, turns: Turns::Counter },
        Move { face: Face::B, turns: Turns::Clockwise },
        Move { face: Face::B, turns: Turns::Double },
        Move { face: Face::B, turns: Turns::Counter },
        Move { face: Face::R, turns: Turns::Clockwise },
        Move { face: Face::R, turns: Turns::Double },
        Move { face: Face::R, turns: Turns::Counter },
        Move { face: Face::L, turns: Turns::Clockwise },
        Move { face: Face::L, turns: Turns::Double },
        Move { face: Face::L, turns: Turns::Counter },
    ]
}

/// The first index at or after `i` whose move the generator admits, or 18
/// when none is left.
pub open spec fn next_allowed(g: MoveGen, i: int) -> int
    decreases 18 - i when i <= 18
{
    if i >= 18 {
        18
    } else if gen_allows(g, all_moves()[i].face) {
        i
    } else {
        next_allowed(g, i + 1)
    }
}

/// The position of a move in the canonical enumeration.
pub open spec fn move_index(m: Move) -> int {
    crate::state::face_index(m.face) * 3 + match m.turns {
        Turns::Clockwise => 0int,
        Turns::Double => 1int,
        Turns::Counter => 2int,
    }
}

/// Every move appears in the canonical enumeration, at its position.
pub proof fn lemma_move_index(m: Move)
    ensures
        0 <= move_index(m) < 18,
        all_moves()[move_index(m)] == m,
{
}

/// What `next_allowed` finds: every index it skips is disallowed, and the
/// index it lands on, if any, is allowed.
pub proof fn lemma_next_allowed(g: MoveGen, i: int)
    requires
        0 <= i <= 18,
    ensures
        i <= next_allowed(g, i) <= 18,
        forall|j: int|
            i <= j < next_allowed(g, i) ==> !gen_allows(g, (#[trigger] all_moves()[j]).face),
        next_allowed(g, i) < 18 ==> gen_allows(g, all_moves()[next_allowed(g, i)].face),
    decreases 18 - i,
{
    if i < 18 && !gen_allows(g, all_moves()[i].face) {
        lemma_next_allowed(g, i + 1);
    }
}

/// The move at a given index of the canonical enumeration.
pub(crate) fn move_at(i: usize) -> (m: Move)
    requires
        i < 18,
    ensures
        m == all_moves()[i as int],
{
    let face = match i / 3 {
        0 => Face::U,
        1 => Face::D,
        2 => Face::F,
        3 => Face::B,
        4 => Face::R,
        _ => Face::L,
    };
    let turns = match i % 3 {
        0 => Turns::Clockwise,
        1 => Turns::Double,
        _ => Turns::Counter,
    };
    Move { face, turns }
}

/// Get the axis for a face, and whether this is the axis's primary face.
pub fn decompose_face(f: Face) -> (r: (Axis, bool))
    ensures
        r.0 == axis_of(f),
        r.1 == is_primary(f),
{
    match f {
        Face::U => (Axis::UD, true),
        Face::D => (Axis::UD, false),
        Face::F => (Axis::FB, true),
        Face::B => (Axis::FB, false),
        Face::R => (Axis::RL, true),
        Face::L => (Axis::RL, false),
    }
}

impl MoveGen {
    /// The generator that applies before any move was made.
    pub fn new() -> (r: MoveGen)
        ensures
            r == initial_gen(),
    {
        MoveGen { axis: Axis::UD, axis_state: AxisState::Enabled }
    }

    /// Start enumerating the moves this generator admits.
    pub fn iter(self) -> (r: MoveGenIter)
        ensures
            r.state == self,
            r.idx == 0,
    {
        MoveGenIter { state: self, idx: 0 }
    }
}

/// An enumerator over the next moves a generator admits, each paired with the
/// generator for the position after that move.
pub struct MoveGenIter {
    pub state: MoveGen,
    pub idx: usize,
}

impl MoveGenIter {
    /// The next admitted move, with the generator that follows it, or `None`
    /// when the enumeration is done.
    pub fn next(&mut self) -> (r: Option<(MoveGen, Move)>)
        requires
            old(self).idx <= 18,
        ensures
            final(self).state == old(self).state,
            final(self).idx <= 18,
            ({
                let k = next_allowed(old(self).state, old(self).idx as int);
                if k == 18 {
                    r is None && final(self).idx == 18
                } else {
                    r == Some((gen_after(all_moves()[k].face), all_moves()[k])) && final(self).idx
                        == k + 1 && gen_allows(old(self).state, all_moves()[k].face)
                }
            }),
    {
        loop
            invariant
                self.idx <= 18,
                self.state == old(self).state,
                next_allowed(self.state, self.idx as int) == next_allowed(
                    old(self).state,
                    old(self).idx as int,
                ),
            decreases 18 - self.idx,
        {
            if self.idx == 18 {
                return None;
            }
            let m = move_at(self.idx);
            let (axis, primary) = decompose_face(m.face);
            self.idx = self.idx + 1;
            if !(axis == self.state.axis) || self.state.axis_state == AxisState::Enabled {
                return Some(
                    (
                        MoveGen {
                            axis,
                            axis_state: if primary {
                                AxisState::HalfDisabled
                            } else {
                                AxisState::Disabled
                            },
                        },
                        m,
                    ),
                );
            } else if !primary && self.state.axis_state == AxisState::HalfDisabled {
                return Some((MoveGen { axis, axis_state: AxisState::Disabled }, m));
            }
        }
    }
}

} // verus!
