//! The sticker configuration of the puzzle, its solved form, and the
//! locked-face predicate.

use vstd::prelude::*;

verus! {

/// A sticker's face label, which indicates the face it belongs to.
#[derive(Clone, Copy, Debug, Eq, Hash, PartialEq, Structural)]
pub enum Face {
    U,
    D,
    F,
    B,
    R,
    L,
}

/// A restriction on the direction a sticker's face can be turned.
#[derive(Clone, Copy, Debug, Eq, Hash, PartialEq, Structural)]
pub enum Direction {
    Clockwise,
    Counter,
    Neutral,
}

/// A sticker on the puzzle: a face label plus an arrow direction.
#[derive(Clone, Copy, Debug, Eq, Hash, PartialEq, Structural)]
pub struct Sticker {
    pub face: Face,
    pub direction: Direction,
}

/// The sticker configuration of a puzzle.
///
/// The array consists of 8 stickers per face, with the faces appearing in the
/// order U, D, F, B, R, L. The center sticker is not counted. Stickers on a
/// face are enumerated from the top left to the bottom right, reading to the
/// right and then down.
#[derive(Clone, Copy)]
pub struct State(pub [Sticker; 48]);

impl View for State {
    type V = Seq<Sticker>;

    open spec fn view(&self) -> Seq<Sticker> {
        self.0@
    }
}

/// The position of a face in the sticker array, in the order U, D, F, B, R, L.
pub open spec fn face_index(f: Face) -> int {
    match f {
        Face::U => 0,
        Face::D => 1,
        Face::F => 2,
        Face::B => 3,
        Face::R => 4,
        Face::L => 5,
    }
}

/// The face at a given position, inverse of `face_index`.
pub open spec fn face_of(n: int) -> Face {
    if n == 0 {
        Face::U
    } else if n == 1 {
        Face::D
    } else if n == 2 {
        Face::F
    } else if n == 3 {
        Face::B
    } else if n == 4 {
        Face::R
    } else {
        Face::L
    }
}

/// The arrow direction that a face's own arrowed stickers carry in the solved
/// configuration.
pub open spec fn native_direction(f: Face) -> Direction {
    match f {
        Face::U => Direction::Counter,
        Face::D => Direction::Clockwise,
        Face::F => Direction::Clockwise,
        Face::B => Direction::Counter,
        Face::R => Direction::Clockwise,
        Face::L => Direction::Counter,
    }
}

/// Whether the given slot of a face carries an arrow in the solved
/// configuration.
pub open spec fn arrow_slot(f: Face, slot: int) -> bool {
    match f {
        Face::U => slot == 1 || slot == 6,
        Face::D => slot == 1 || slot == 6,
        Face::F => slot == 3 || slot == 4,
        Face::B => slot == 3 || slot == 4,
        Face::R => slot == 1 || slot == 6,
        Face::L => slot == 1 || slot == 6,
    }
}

/// The solved configuration: slot `i` of face `f` carries label `f`, and the
/// arrowed slots carry the face's native direction.
pub open spec fn solved_seq() -> Seq<Sticker> {
    Seq::new(
        48,
        |i: int|
            Sticker {
                face: face_of(i / 8),
                direction: if arrow_slot(face_of(i / 8), i % 8) {
                    native_direction(face_of(i / 8))
                } else {
                    Direction::Neutral
                },
            },
    )
}

/// A configuration is solved when every sticker carries the label of the face
/// it sits on; arrow directions are not part of the goal.
pub open spec fn spec_is_solved(s: Seq<Sticker>) -> bool {
    forall|i: int| 0 <= i < 48 ==> (#[trigger] s[i]).face == face_of(i / 8)
}

/// The 8 arrow directions sitting on a face.
pub open spec fn face_dirs(s: Seq<Sticker>, f: Face) -> Seq<Direction> {
    Seq::new(8, |k: int| s[face_index(f) * 8 + k].direction)
}

/// A face is locked when its stickers carry both a clockwise and a counter
/// arrow.
pub open spec fn spec_locked(s: Seq<Sticker>, f: Face) -> bool {
    face_dirs(s, f).contains(Direction::Clockwise) && face_dirs(s, f).contains(Direction::Counter)
}

/// `face_of` applied to an index below 6, as executable code.
pub(crate) fn face_of_exec(n: usize) -> (r: Face)
    requires
        n < 6,
    ensures
        r == face_of(n as int),
{
    if n == 0 {
        Face::U
    } else if n == 1 {
        Face::D
    } else if n == 2 {
        Face::F
    } else if n == 3 {
        Face::B
    } else if n == 4 {
        Face::R
    } else {
        Face::L
    }
}

impl Face {
    /// The position of this face in the sticker array.
    pub fn index(&self) -> (r: usize)
        ensures
            r == face_index(*self),
            r < 6,
    {
        match self {
            Face::U => 0,
            Face::D => 1,
            Face::F => 2,
            Face::B => 3,
            Face::R => 4,
            Face::L => 5,
        }
    }

    /// The arrow direction this face's arrowed stickers carry in the solved
    /// configuration.
    pub fn standard_direction(&self) -> (r: Direction)
        ensures
            r == native_direction(*self),
    {
        match self {
            Face::U => Direction::Counter,
            Face::D => Direction::Clockwise,
            Face::F => Direction::Clockwise,
            Face::B => Direction::Counter,
            Face::R => Direction::Clockwise,
            Face::L => Direction::Counter,
        }
    }
}

impl State {
    /// Create a solved state.
    pub fn solved() -> (r: State)
        ensures
            r@ == solved_seq(),
            spec_is_solved(r@),
    {
        let mut arr: [Sticker; 48] = [Sticker { face: Face::U, direction: Direction::Neutral }; 48];
        let mut i: usize = 0;
        while i < 48
            invariant
                i <= 48,
                forall|j: int| 0 <= j < i ==> arr@[j] == solved_seq()[j],
            decreases 48 - i,
        {
            let f = face_of_exec(i / 8);
            let slot = i % 8;
            let on_arrow = match f {
                Face::U | Face::D | Face::R | Face::L => slot == 1 || slot == 6,
                Face::F | Face::B => slot == 3 || slot == 4,
            };
            let direction = if on_arrow {
                f.standard_direction()
            } else {
                Direction::Neutral
            };
            arr[i] = Sticker { face: f, direction };
            i += 1;
        }
        let r = State(arr);
        assert(r@ =~= solved_seq());
        assert forall|i: int| 0 <= i < 48 implies (#[trigger] r@[i]).face == face_of(i / 8) by {
            assert(r@[i] == solved_seq()[i]);
        }
        r
    }

    /// Check whether every sticker carries the label of its own face.
    pub fn is_solved(&self) -> (r: bool)
        ensures
            r == spec_is_solved(self@),
    {
        let mut i: usize = 0;
        while i < 48
            invariant
                i <= 48,
                forall|j: int| 0 <= j < i ==> (#[trigger] self@[j]).face == face_of(j / 8),
            decreases 48 - i,
        {
            let f = face_of_exec(i / 8);
            if !(self.0[i].face == f) {
                return false;
            }
            i += 1;
        }
        true
    }

    /// Get the 8 stickers of a face.
    pub fn face(&self, f: Face) -> (r: &[Sticker])
        ensures
            r@ == self@.subrange(face_index(f) * 8, face_index(f) * 8 + 8),
            r@.len() == 8,
    {
        let base = f.index() * 8;
        vstd::slice::slice_subrange(self.0.as_slice(), base, base + 8)
    }

    /// Replace one sticker.
    pub fn set_sticker(&mut self, i: usize, s: Sticker)
        requires
            i < 48,
        ensures
            final(self)@ == old(self)@.update(i as int, s),
    {
        self.0[i] = s;
    }

    /// Check whether a face is locked, i.e. cannot be turned: this holds when
    /// its stickers carry both a clockwise and a counter arrow.
    pub fn is_locked(&self, f: Face) -> (r: bool)
        ensures
            r == spec_locked(self@, f),
    {
        let base = f.index() * 8;
        let ghost dirs = face_dirs(self@, f);
        let mut has_cw = false;
        let mut has_ccw = false;
        let mut k: usize = 0;
        while k < 8
            invariant
                k <= 8,
                base == face_index(f) * 8,
                dirs == face_dirs(self@, f),
                has_cw <==> exists|j: int| 0 <= j < k && #[trigger] dirs[j] == Direction::Clockwise,
                has_ccw <==> exists|j: int| 0 <= j < k && #[trigger] dirs[j] == Direction::Counter,
            decreases 8 - k,
        {
            let d = self.0[base + k].direction;
            proof {
                assert(dirs[k as int] == self@[face_index(f) * 8 + k].direction);
            }
            if d == Direction::Clockwise {
                has_cw = true;
            }
            if d == Direction::Counter {
                has_ccw = true;
            }
            k += 1;
        }
        proof {
            assert(has_cw <==> dirs.contains(Direction::Clockwise));
            assert(has_ccw <==> dirs.contains(Direction::Counter));
        }
        has_cw && has_ccw
    }
}

impl Default for State {
    /// Create the solved state.
    fn default() -> (r: State)
        ensures
            r@ == solved_seq(),
    {
        State::solved()
    }
}

/// The solved configuration satisfies the solved predicate.
pub proof fn lemma_solved_is_solved()
    ensures
        spec_is_solved(solved_seq()),
{
}

/// The text of one sticker: its face letter, with `c` for a clockwise arrow
/// and `c'` for a counter arrow.
pub open spec fn sticker_text(st: Sticker) -> Seq<char> {
    seq![crate::moves::face_char(st.face)] + match st.direction {
        Direction::Clockwise => seq!['c'],
        Direction::Counter => seq!['c', '\''],
        Direction::Neutral => Seq::empty(),
    }
}

/// What stands before the sticker at an index: the opening bracket handles
/// itself, faces are separated by a comma, stickers by a space.
pub open spec fn sticker_sep(i: int) -> Seq<char> {
    if i == 0 {
        Seq::empty()
    } else if i % 8 == 0 {
        seq![',', ' ']
    } else {
        seq![' ']
    }
}

/// The text of the first `n` stickers, after the opening bracket.
pub open spec fn state_text_upto(s: Seq<Sticker>, n: int) -> Seq<char>
    decreases n,
{
    if n <= 0 {
        seq!['[']
    } else {
        state_text_upto(s, n - 1) + sticker_sep(n - 1) + sticker_text(s[n - 1])
    }
}

/// The text of a whole configuration.
pub open spec fn state_text(s: Seq<Sticker>) -> Seq<char> {
    state_text_upto(s, 48) + seq![']']
}

impl State {
    /// The configuration as text: the stickers face by face, each sticker's
    /// label with its arrow direction.
    pub fn stringify(&self) -> (r: String)
        ensures
            r@ == state_text(self@),
    {
        proof {
            reveal_strlit("[");
            reveal_strlit("]");
            reveal_strlit(", ");
            reveal_strlit(" ");
            reveal_strlit("c");
            reveal_strlit("c'");
        }
        let mut out: String = "[".to_owned();
        proof {
            assert(out@ =~= state_text_upto(self@, 0));
        }
        let mut i: usize = 0;
        while i < 48
            invariant
                i <= 48,
                out@ == state_text_upto(self@, i as int),
            decreases 48 - i,
        {
            proof {
                reveal_strlit(", ");
                reveal_strlit(" ");
                reveal_strlit("c");
                reveal_strlit("c'");
            }
            if i > 0 {
                if i % 8 == 0 {
                    vstd::string::StringExecFns::append(&mut out, ", ");
                } else {
                    vstd::string::StringExecFns::append(&mut out, " ");
                }
            }
            let st = self.0[i];
            let letter = crate::moves::face_str(st.face);
            vstd::string::StringExecFns::append(&mut out, letter);
            match st.direction {
                Direction::Clockwise => {
                    vstd::string::StringExecFns::append(&mut out, "c");
                },
                Direction::Counter => {
                    vstd::string::StringExecFns::append(&mut out, "c'");
                },
                Direction::Neutral => {},
            }
            proof {
                assert(out@ =~= state_text_upto(self@, i + 1));
            }
            i += 1;
        }
        vstd::string::StringExecFns::append(&mut out, "]");
        proof {
            assert(out@ =~= state_text(self@));
        }
        out
    }
}

/// The lock predicate looks only at the multiset of arrow directions on the
/// face: two configurations whose chosen faces carry the same directions,
/// counted with multiplicity, agree on whether that face is locked.
pub proof fn lemma_lock_multiset(s1: Seq<Sticker>, f1: Face, s2: Seq<Sticker>, f2: Face)
    requires
        s1.len() == 48,
        s2.len() == 48,
        face_dirs(s1, f1).to_multiset() == face_dirs(s2, f2).to_multiset(),
    ensures
        spec_locked(s1, f1) == spec_locked(s2, f2),
{
    let d1 = face_dirs(s1, f1);
    let d2 = face_dirs(s2, f2);
    d1.to_multiset_ensures();
    d2.to_multiset_ensures();
    assert(d1.contains(Direction::Clockwise) <==> d1.to_multiset().count(Direction::Clockwise) > 0);
    assert(d1.contains(Direction::Counter) <==> d1.to_multiset().count(Direction::Counter) > 0);
    assert(d2.contains(Direction::Clockwise) <==> d2.to_multiset().count(Direction::Clockwise) > 0);
    assert(d2.contains(Direction::Counter) <==> d2.to_multiset().count(Direction::Counter) > 0);
}

/// No face of the solved configuration is locked: each face carries arrows of
/// a single direction.
pub proof fn lemma_solved_unlocked(f: Face)
    ensures
        !spec_locked(solved_seq(), f),
{
    let dirs = face_dirs(solved_seq(), f);
    let other = if native_direction(f) == Direction::Clockwise {
        Direction::Counter
    } else {
        Direction::Clockwise
    };
    assert forall|k: int| 0 <= k < 8 implies dirs[k] != other by {
        assert((face_index(f) * 8 + k) / 8 == face_index(f));
        assert((face_index(f) * 8 + k) % 8 == k);
    }
    if dirs.contains(other) {
        let k = choose|k: int| 0 <= k < 8 && dirs[k] == other;
    }
}

} // verus!
