//! Projections onto subspaces of the puzzle state.

use vstd::prelude::*;

use crate::state::Direction;
use crate::state::Face;
use crate::state::State;
use crate::state::Sticker;

verus! {

/// A projection of a state onto a subspace of all possible states.
///
/// A projection is a pure function of the configuration: identical
/// configurations always produce identical projections. Every projection
/// carries the lock information, so that search successors can still honor
/// the lock predicate.
pub trait Proj: Sized {
    /// The projection as a mathematical function of the configuration.
    spec fn spec_project(s: Seq<Sticker>) -> Self;

    /// Project the state onto the subspace, given its already-computed lock
    /// projection.
    fn project_with_lock(s: &State, l: &LockProj) -> (r: Self)
        requires
            l.packed_faces == lock_bits(s@),
        ensures
            r == Self::spec_project(s@),
    ;

    /// Project the state onto the subspace.
    fn project(s: &State) -> (r: Self)
        ensures
            r == Self::spec_project(s@),
    ;

    /// Compare two projection values; equality is exact equality of the
    /// packed contents.
    fn eq_proj(&self, other: &Self) -> (r: bool)
        ensures
            r == (*self == *other),
    ;
}

/// A projection that can serve as a pattern-database key: its packed bytes
/// fit one integer, and distinct projections get distinct keys.
pub trait KeyProj: Proj {
    /// The key as a mathematical function of the projection.
    spec fn spec_key(&self) -> u128;

    /// Pack the projection into its table key.
    fn key(&self) -> (r: u128)
        ensures
            r == self.spec_key(),
    ;

    /// Distinct projections have distinct keys.
    proof fn lemma_key_injective(&self, other: &Self)
        ensures
            self.spec_key() == other.spec_key() ==> *self == *other,
    ;
}

/// Projecting is deterministic: equal configurations give equal projection
/// values, whichever projection is asked.
pub proof fn lemma_project_deterministic<P: Proj>(s1: Seq<Sticker>, s2: Seq<Sticker>)
    requires
        s1 == s2,
    ensures
        P::spec_project(s1) == P::spec_project(s2),
{
}

/// The two-bit code of an arrow direction in the lock projection.
pub open spec fn dir_code(d: Direction) -> u8 {
    match d {
        Direction::Clockwise => 0,
        Direction::Counter => 1,
        Direction::Neutral => 2,
    }
}

/// The byte of the lock projection for one face: the codes of the directions
/// on its four edge slots.
pub open spec fn lock_byte(s: Seq<Sticker>, f: int) -> u8 {
    dir_code(s[f * 8 + 1].direction) | (dir_code(s[f * 8 + 3].direction) << 2) | (dir_code(
        s[f * 8 + 4].direction,
    ) << 4) | (dir_code(s[f * 8 + 6].direction) << 6)
}

/// All six lock bytes, packed into one word.
pub open spec fn lock_bits(s: Seq<Sticker>) -> u64 {
    (lock_byte(s, 0) as u64) | ((lock_byte(s, 1) as u64) << 8) | ((lock_byte(s, 2) as u64) << 16)
        | ((lock_byte(s, 3) as u64) << 24) | ((lock_byte(s, 4) as u64) << 32) | ((lock_byte(
        s,
        5,
    ) as u64) << 40)
}

/// A projection of a state onto the arrow directions of its edge stickers.
///
/// This is the least amount of information a projection can carry, since any
/// less could not determine whether a move is locked.
#[derive(Clone, Copy, Debug, Eq, PartialEq, Structural)]
pub struct LockProj {
    pub packed_faces: u64,
}

impl LockProj {
    /// Pack four direction codes into one byte, two bits each.
    pub fn dirs_u8(d1: Direction, d2: Direction, d3: Direction, d4: Direction) -> (r: u8)
        ensures
            r == dir_code(d1) | (dir_code(d2) << 2) | (dir_code(d3) << 4) | (dir_code(d4) << 6),
    {
        LockProj::dir_u8(d1) | (LockProj::dir_u8(d2) << 2) | (LockProj::dir_u8(d3) << 4) | (
        LockProj::dir_u8(d4) << 6)
    }

    /// The two-bit code of one direction.
    pub fn dir_u8(dir: Direction) -> (r: u8)
        ensures
            r == dir_code(dir),
    {
        match dir {
            Direction::Clockwise => 0,
            Direction::Counter => 1,
            Direction::Neutral => 2,
        }
    }
}

impl Proj for LockProj {
    open spec fn spec_project(s: Seq<Sticker>) -> Self {
        LockProj { packed_faces: lock_bits(s) }
    }

    fn project(s: &State) -> (r: Self) {
        let b0 = LockProj::dirs_u8(
            s.0[1].direction,
            s.0[3].direction,
            s.0[4].direction,
            s.0[6].direction,
        );
        let b1 = LockProj::dirs_u8(
            s.0[9].direction,
            s.0[11].direction,
            s.0[12].direction,
            s.0[14].direction,
        );
        let b2 = LockProj::dirs_u8(
            s.0[17].direction,
            s.0[19].direction,
            s.0[20].direction,
            s.0[22].direction,
        );
        let b3 = LockProj::dirs_u8(
            s.0[25].direction,
            s.0[27].direction,
            s.0[28].direction,
            s.0[30].direction,
        );
        let b4 = LockProj::dirs_u8(
            s.0[33].direction,
            s.0[35].direction,
            s.0[36].direction,
            s.0[38].direction,
        );
        let b5 = LockProj::dirs_u8(
            s.0[41].direction,
            s.0[43].direction,
            s.0[44].direction,
            s.0[46].direction,
        );
        let packed = (b0 as u64) | ((b1 as u64) << 8) | ((b2 as u64) << 16) | ((b3 as u64) << 24)
            | ((b4 as u64) << 32) | ((b5 as u64) << 40);
        proof {
            assert(b0 == lock_byte(s@, 0));
            assert(b1 == lock_byte(s@, 1));
            assert(b2 == lock_byte(s@, 2));
            assert(b3 == lock_byte(s@, 3));
            assert(b4 == lock_byte(s@, 4));
            assert(b5 == lock_byte(s@, 5));
            assert(packed == lock_bits(s@));
            assert(<LockProj as Proj>::spec_project(s@) == LockProj { packed_faces: lock_bits(s@) });
        }
        LockProj { packed_faces: packed }
    }

    fn project_with_lock(s: &State, l: &LockProj) -> (r: Self) {
        *l
    }

    fn eq_proj(&self, other: &Self) -> (r: bool) {
        self.packed_faces == other.packed_faces
    }
}

impl KeyProj for LockProj {
    open spec fn spec_key(&self) -> u128 {
        self.packed_faces as u128
    }

    fn key(&self) -> (r: u128) {
        self.packed_faces as u128
    }

    proof fn lemma_key_injective(&self, other: &Self) {
    }
}

/// The four-bit code of a face label in the corner projection.
pub open spec fn face_code(f: Face) -> u8 {
    match f {
        Face::U => 0,
        Face::D => 1,
        Face::F => 2,
        Face::B => 3,
        Face::R => 4,
        Face::L => 5,
    }
}

/// One byte of the corner projection: the labels at two corner slots.
pub open spec fn corner_byte(s: Seq<Sticker>, a: int, b: int) -> u8 {
    face_code(s[a].face) | (face_code(s[b].face) << 4)
}

/// The corner projection's packed bytes: the corner labels of the four
/// corner-carrying faces U, D, F, B, two slots per byte.
pub open spec fn corner_bits(s: Seq<Sticker>) -> u64 {
    (corner_byte(s, 0, 2) as u64) | ((corner_byte(s, 5, 7) as u64) << 8) | ((corner_byte(
        s,
        8,
        10,
    ) as u64) << 16) | ((corner_byte(s, 13, 15) as u64) << 24) | ((corner_byte(s, 16, 18) as u64)
        << 32) | ((corner_byte(s, 21, 23) as u64) << 40) | ((corner_byte(s, 24, 26) as u64) << 48)
        | ((corner_byte(s, 29, 31) as u64) << 56)
}

/// A projection of a state onto the corners.
#[derive(Clone, Copy, Debug, Eq, PartialEq, Structural)]
pub struct CornerProj {
    pub lock: LockProj,
    pub packed_corners: u64,
}

impl CornerProj {
    /// Pack two face codes into one byte, four bits each.
    pub fn faces_u8(f1: Face, f2: Face) -> (r: u8)
        ensures
            r == face_code(f1) | (face_code(f2) << 4),
    {
        CornerProj::face_u8(f1) | (CornerProj::face_u8(f2) << 4)
    }

    /// The four-bit code of one face label.
    pub fn face_u8(face: Face) -> (r: u8)
        ensures
            r == face_code(face),
    {
        match face {
            Face::U => 0,
            Face::D => 1,
            Face::F => 2,
            Face::B => 3,
            Face::R => 4,
            Face::L => 5,
        }
    }
}

impl Proj for CornerProj {
    open spec fn spec_project(s: Seq<Sticker>) -> Self {
        CornerProj { lock: LockProj { packed_faces: lock_bits(s) }, packed_corners: corner_bits(s) }
    }

    fn project(s: &State) -> (r: Self) {
        let l = LockProj::project(s);
        CornerProj::project_with_lock(s, &l)
    }

    fn project_with_lock(s: &State, l: &LockProj) -> (r: Self) {
        let b0 = CornerProj::faces_u8(s.0[0].face, s.0[2].face);
        let b1 = CornerProj::faces_u8(s.0[5].face, s.0[7].face);
        let b2 = CornerProj::faces_u8(s.0[8].face, s.0[10].face);
        let b3 = CornerProj::faces_u8(s.0[13].face, s.0[15].face);
        let b4 = CornerProj::faces_u8(s.0[16].face, s.0[18].face);
        let b5 = CornerProj::faces_u8(s.0[21].face, s.0[23].face);
        let b6 = CornerProj::faces_u8(s.0[24].face, s.0[26].face);
        let b7 = CornerProj::faces_u8(s.0[29].face, s.0[31].face);
        let packed = (b0 as u64) | ((b1 as u64) << 8) | ((b2 as u64) << 16) | ((b3 as u64) << 24)
            | ((b4 as u64) << 32) | ((b5 as u64) << 40) | ((b6 as u64) << 48) | ((b7 as u64)
            << 56);
        CornerProj { lock: *l, packed_corners: packed }
    }

    fn eq_proj(&self, other: &Self) -> (r: bool) {
        self.lock.packed_faces == other.lock.packed_faces && self.packed_corners
            == other.packed_corners
    }
}

impl KeyProj for CornerProj {
    open spec fn spec_key(&self) -> u128 {
        (self.lock.packed_faces as u128) | ((self.packed_corners as u128) << 64)
    }

    fn key(&self) -> (r: u128) {
        (self.lock.packed_faces as u128) | ((self.packed_corners as u128) << 64)
    }

    proof fn lemma_key_injective(&self, other: &Self) {
        let a = self.lock.packed_faces;
        let b = self.packed_corners;
        let c = other.lock.packed_faces;
        let d = other.packed_corners;
        assert(((a as u128) | ((b as u128) << 64)) == ((c as u128) | ((d as u128) << 64)) ==> a
            == c && b == d) by (bit_vector);
    }
}

/// The two-bit code of the axis a face label belongs to.
pub open spec fn axis_code(f: Face) -> u8 {
    match f {
        Face::U => 0,
        Face::D => 0,
        Face::F => 1,
        Face::B => 1,
        Face::R => 2,
        Face::L => 2,
    }
}

/// The code of one sticker in the arrow-axis projection: the axis of its
/// label when it carries an arrow, 0 otherwise.
pub open spec fn arrow_code(st: Sticker) -> u8 {
    if st.direction == Direction::Neutral {
        0
    } else {
        axis_code(st.face)
    }
}

/// One byte of the arrow-axis projection: the codes of a face's four edge
/// slots.
pub open spec fn axes_byte(s: Seq<Sticker>, f: int) -> u8 {
    arrow_code(s[f * 8 + 1]) | (arrow_code(s[f * 8 + 3]) << 2) | (arrow_code(s[f * 8 + 4]) << 4) | (
    arrow_code(s[f * 8 + 6]) << 6)
}

/// All six arrow-axis bytes, packed into one word.
pub open spec fn axes_bits(s: Seq<Sticker>) -> u64 {
    (axes_byte(s, 0) as u64) | ((axes_byte(s, 1) as u64) << 8) | ((axes_byte(s, 2) as u64) << 16)
        | ((axes_byte(s, 3) as u64) << 24) | ((axes_byte(s, 4) as u64) << 32) | ((axes_byte(
        s,
        5,
    ) as u64) << 40)
}

/// A projection that tracks the face axis of all the stickers with arrows.
#[derive(Clone, Copy, Debug, Eq, PartialEq, Structural)]
pub struct ArrowAxisProj {
    pub lock: LockProj,
    pub packed_axes: u64,
}

impl ArrowAxisProj {
    /// Pack the codes of a face's four edge stickers into one byte.
    pub fn face_u8(face: &[Sticker]) -> (r: u8)
        requires
            face@.len() == 8,
        ensures
            r == arrow_code(face@[1]) | (arrow_code(face@[3]) << 2) | (arrow_code(face@[4]) << 4)
                | (arrow_code(face@[6]) << 6),
    {
        ArrowAxisProj::sticker_u8(face[1]) | (ArrowAxisProj::sticker_u8(face[3]) << 2) | (
        ArrowAxisProj::sticker_u8(face[4]) << 4) | (ArrowAxisProj::sticker_u8(face[6]) << 6)
    }

    /// The code of one sticker.
    pub fn sticker_u8(sticker: Sticker) -> (r: u8)
        ensures
            r == arrow_code(sticker),
    {
        if sticker.direction == Direction::Neutral {
            0
        } else {
            match sticker.face {
                Face::U | Face::D => 0,
                Face::F | Face::B => 1,
                Face::R | Face::L => 2,
            }
        }
    }
}

impl Proj for ArrowAxisProj {
    open spec fn spec_project(s: Seq<Sticker>) -> Self {
        ArrowAxisProj { lock: LockProj { packed_faces: lock_bits(s) }, packed_axes: axes_bits(s) }
    }

    fn project(s: &State) -> (r: Self) {
        let l = LockProj::project(s);
        ArrowAxisProj::project_with_lock(s, &l)
    }

    fn project_with_lock(s: &State, l: &LockProj) -> (r: Self) {
        let b0 = ArrowAxisProj::sticker_u8(s.0[1]) | (ArrowAxisProj::sticker_u8(s.0[3]) << 2) | (
        ArrowAxisProj::sticker_u8(s.0[4]) << 4) | (ArrowAxisProj::sticker_u8(s.0[6]) << 6);
        let b1 = ArrowAxisProj::sticker_u8(s.0[9]) | (ArrowAxisProj::sticker_u8(s.0[11]) << 2) | (
        ArrowAxisProj::sticker_u8(s.0[12]) << 4) | (ArrowAxisProj::sticker_u8(s.0[14]) << 6);
        let b2 = ArrowAxisProj::sticker_u8(s.0[17]) | (ArrowAxisProj::sticker_u8(s.0[19]) << 2) | (
        ArrowAxisProj::sticker_u8(s.0[20]) << 4) | (ArrowAxisProj::sticker_u8(s.0[22]) << 6);
        let b3 = ArrowAxisProj::sticker_u8(s.0[25]) | (ArrowAxisProj::sticker_u8(s.0[27]) << 2) | (
        ArrowAxisProj::sticker_u8(s.0[28]) << 4) | (ArrowAxisProj::sticker_u8(s.0[30]) << 6);
        let b4 = ArrowAxisProj::sticker_u8(s.0[33]) | (ArrowAxisProj::sticker_u8(s.0[35]) << 2) | (
        ArrowAxisProj::sticker_u8(s.0[36]) << 4) | (ArrowAxisProj::sticker_u8(s.0[38]) << 6);
        let b5 = ArrowAxisProj::sticker_u8(s.0[41]) | (ArrowAxisProj::sticker_u8(s.0[43]) << 2) | (
        ArrowAxisProj::sticker_u8(s.0[44]) << 4) | (ArrowAxisProj::sticker_u8(s.0[46]) << 6);
        let packed = (b0 as u64) | ((b1 as u64) << 8) | ((b2 as u64) << 16) | ((b3 as u64) << 24)
            | ((b4 as u64) << 32) | ((b5 as u64) << 40);
        ArrowAxisProj { lock: *l, packed_axes: packed }
    }

    fn eq_proj(&self, other: &Self) -> (r: bool) {
        self.lock.packed_faces == other.lock.packed_faces && self.packed_axes == other.packed_axes
    }
}

impl KeyProj for ArrowAxisProj {
    open spec fn spec_key(&self) -> u128 {
        (self.lock.packed_faces as u128) | ((self.packed_axes as u128) << 64)
    }

    fn key(&self) -> (r: u128) {
        (self.lock.packed_faces as u128) | ((self.packed_axes as u128) << 64)
    }

    proof fn lemma_key_injective(&self, other: &Self) {
        let a = self.lock.packed_faces;
        let b = self.packed_axes;
        let c = other.lock.packed_faces;
        let d = other.packed_axes;
        assert(((a as u128) | ((b as u128) << 64)) == ((c as u128) | ((d as u128) << 64)) ==> a
            == c && b == d) by (bit_vector);
    }
}

/// The UD-face, FB-face, and RL-face sticker index of each corner.
pub open spec fn corner_slots(c: int) -> (int, int, int) {
    if c == 0 {
        (0, 26, 40)
    } else if c == 1 {
        (2, 24, 34)
    } else if c == 2 {
        (5, 16, 42)
    } else if c == 3 {
        (7, 18, 32)
    } else if c == 4 {
        (13, 31, 45)
    } else if c == 5 {
        (15, 29, 39)
    } else if c == 6 {
        (8, 21, 47)
    } else {
        (10, 23, 37)
    }
}

/// The orientation code of one corner with respect to an axis pair: 0 when
/// the corner's UD sticker carries a label of the pair, 1 when its FB sticker
/// does, else 2.
pub open spec fn co_code(s: Seq<Sticker>, c: int, f1: Face, f2: Face) -> u16 {
    let (ud, fb, rl) = corner_slots(c);
    if s[ud].face == f1 || s[ud].face == f2 {
        0
    } else if s[fb].face == f1 || s[fb].face == f2 {
        1
    } else {
        2
    }
}

/// All eight corner orientation codes with respect to an axis pair, packed
/// two bits each, the first corner in the highest bits.
pub open spec fn co_bits(s: Seq<Sticker>, f1: Face, f2: Face) -> u16 {
    (co_code(s, 0, f1, f2) << 14) | (co_code(s, 1, f1, f2) << 12) | (co_code(s, 2, f1, f2) << 10)
        | (co_code(s, 3, f1, f2) << 8) | (co_code(s, 4, f1, f2) << 6) | (co_code(s, 5, f1, f2)
        << 4) | (co_code(s, 6, f1, f2) << 2) | co_code(s, 7, f1, f2)
}

/// Whether one corner carries no sticker labelled with the given face: bit 1
/// when the face's label is absent from the corner, bit 0 when present.
pub open spec fn corner_axis_bit(s: Seq<Sticker>, c: int, f1: Face) -> u8 {
    let (ud, fb, rl) = corner_slots(c);
    if f1 == s[ud].face || f1 == s[fb].face || f1 == s[rl].face {
        0
    } else {
        1
    }
}

/// All eight corner bits for the given face, the first corner in the highest
/// bit.
pub open spec fn corner_axis_bits(s: Seq<Sticker>, f1: Face) -> u8 {
    (corner_axis_bit(s, 0, f1) << 7) | (corner_axis_bit(s, 1, f1) << 6) | (corner_axis_bit(
        s,
        2,
        f1,
    ) << 5) | (corner_axis_bit(s, 3, f1) << 4) | (corner_axis_bit(s, 4, f1) << 3) | (
    corner_axis_bit(s, 5, f1) << 2) | (corner_axis_bit(s, 6, f1) << 1) | corner_axis_bit(s, 7, f1)
}

/// The orientation code of one corner, as executable code.
fn co_u16(ud: Sticker, fb: Sticker, f1: Face, f2: Face) -> (r: u16)
    ensures
        r == (if ud.face == f1 || ud.face == f2 {
            0u16
        } else if fb.face == f1 || fb.face == f2 {
            1u16
        } else {
            2u16
        }),
{
    if ud.face == f1 || ud.face == f2 {
        0
    } else if fb.face == f1 || fb.face == f2 {
        1
    } else {
        2
    }
}

/// The packed orientation codes of all eight corners, as executable code.
fn co_bits_exec(s: &State, f1: Face, f2: Face) -> (r: u16)
    ensures
        r == co_bits(s@, f1, f2),
{
    (co_u16(s.0[0], s.0[26], f1, f2) << 14) | (co_u16(s.0[2], s.0[24], f1, f2) << 12) | (co_u16(
        s.0[5],
        s.0[16],
        f1,
        f2,
    ) << 10) | (co_u16(s.0[7], s.0[18], f1, f2) << 8) | (co_u16(s.0[13], s.0[31], f1, f2) << 6) | (
    co_u16(s.0[15], s.0[29], f1, f2) << 4) | (co_u16(s.0[8], s.0[21], f1, f2) << 2) | co_u16(
        s.0[10],
        s.0[23],
        f1,
        f2,
    )
}

/// One corner's bit for the corner-axis projection, as executable code.
fn corner_bit_u8(ud: Sticker, fb: Sticker, rl: Sticker, f1: Face) -> (r: u8)
    ensures
        r == (if f1 == ud.face || f1 == fb.face || f1 == rl.face {
            0u8
        } else {
            1u8
        }),
{
    if f1 == ud.face || f1 == fb.face || f1 == rl.face {
        0
    } else {
        1
    }
}

/// The packed bits of all eight corners, as executable code.
fn corner_axis_bits_exec(s: &State, f1: Face) -> (r: u8)
    ensures
        r == corner_axis_bits(s@, f1),
{
    (corner_bit_u8(s.0[0], s.0[26], s.0[40], f1) << 7) | (corner_bit_u8(
        s.0[2],
        s.0[24],
        s.0[34],
        f1,
    ) << 6) | (corner_bit_u8(s.0[5], s.0[16], s.0[42], f1) << 5) | (corner_bit_u8(
        s.0[7],
        s.0[18],
        s.0[32],
        f1,
    ) << 4) | (corner_bit_u8(s.0[13], s.0[31], s.0[45], f1) << 3) | (corner_bit_u8(
        s.0[15],
        s.0[29],
        s.0[39],
        f1,
    ) << 2) | (corner_bit_u8(s.0[8], s.0[21], s.0[47], f1) << 1) | corner_bit_u8(
        s.0[10],
        s.0[23],
        s.0[37],
        f1,
    )
}

/// A projection that tracks the corner orientation with respect to the
/// U and D faces.
#[derive(Clone, Copy, Debug, Eq, PartialEq, Structural)]
pub struct CoUdProj {
    pub lock: LockProj,
    pub packed_co: u16,
}

impl Proj for CoUdProj {
    open spec fn spec_project(s: Seq<Sticker>) -> Self {
        CoUdProj {
            lock: LockProj { packed_faces: lock_bits(s) },
            packed_co: co_bits(s, Face::U, Face::D),
        }
    }

    fn project(s: &State) -> (r: Self) {
        let l = LockProj::project(s);
        CoUdProj::project_with_lock(s, &l)
    }

    fn project_with_lock(s: &State, l: &LockProj) -> (r: Self) {
        CoUdProj { lock: *l, packed_co: co_bits_exec(s, Face::U, Face::D) }
    }

    fn eq_proj(&self, other: &Self) -> (r: bool) {
        self.lock.packed_faces == other.lock.packed_faces && self.packed_co == other.packed_co
    }
}

impl KeyProj for CoUdProj {
    open spec fn spec_key(&self) -> u128 {
        (self.lock.packed_faces as u128) | ((self.packed_co as u128) << 64)
    }

    fn key(&self) -> (r: u128) {
        (self.lock.packed_faces as u128) | ((self.packed_co as u128) << 64)
    }

    proof fn lemma_key_injective(&self, other: &Self) {
        let a = self.lock.packed_faces;
        let b = self.packed_co;
        let c = other.lock.packed_faces;
        let d = other.packed_co;
        assert(((a as u128) | ((b as u128) << 64)) == ((c as u128) | ((d as u128) << 64)) ==> a
            == c && b == d) by (bit_vector);
    }
}

/// A projection that tracks the corner orientation with respect to the
/// F and B faces.
#[derive(Clone, Copy, Debug, Eq, PartialEq, Structural)]
pub struct CoFbProj {
    pub lock: LockProj,
    pub packed_co: u16,
}

impl Proj for CoFbProj {
    open spec fn spec_project(s: Seq<Sticker>) -> Self {
        CoFbProj {
            lock: LockProj { packed_faces: lock_bits(s) },
            packed_co: co_bits(s, Face::F, Face::B),
        }
    }

    fn project(s: &State) -> (r: Self) {
        let l = LockProj::project(s);
        CoFbProj::project_with_lock(s, &l)
    }

    fn project_with_lock(s: &State, l: &LockProj) -> (r: Self) {
        CoFbProj { lock: *l, packed_co: co_bits_exec(s, Face::F, Face::B) }
    }

    fn eq_proj(&self, other: &Self) -> (r: bool) {
        self.lock.packed_faces == other.lock.packed_faces && self.packed_co == other.packed_co
    }
}

impl KeyProj for CoFbProj {
    open spec fn spec_key(&self) -> u128 {
        (self.lock.packed_faces as u128) | ((self.packed_co as u128) << 64)
    }

    fn key(&self) -> (r: u128) {
        (self.lock.packed_faces as u128) | ((self.packed_co as u128) << 64)
    }

    proof fn lemma_key_injective(&self, other: &Self) {
        let a = self.lock.packed_faces;
        let b = self.packed_co;
        let c = other.lock.packed_faces;
        let d = other.packed_co;
        assert(((a as u128) | ((b as u128) << 64)) == ((c as u128) | ((d as u128) << 64)) ==> a
            == c && b == d) by (bit_vector);
    }
}

/// A projection that tracks the corner orientation with respect to the
/// R and L faces.
#[derive(Clone, Copy, Debug, Eq, PartialEq, Structural)]
pub struct CoRlProj {
    pub lock: LockProj,
    pub packed_co: u16,
}

impl Proj for CoRlProj {
    open spec fn spec_project(s: Seq<Sticker>) -> Self {
        CoRlProj {
            lock: LockProj { packed_faces: lock_bits(s) },
            packed_co: co_bits(s, Face::R, Face::L),
        }
    }

    fn project(s: &State) -> (r: Self) {
        let l = LockProj::project(s);
        CoRlProj::project_with_lock(s, &l)
    }

    fn project_with_lock(s: &State, l: &LockProj) -> (r: Self) {
        CoRlProj { lock: *l, packed_co: co_bits_exec(s, Face::R, Face::L) }
    }

    fn eq_proj(&self, other: &Self) -> (r: bool) {
        self.lock.packed_faces == other.lock.packed_faces && self.packed_co == other.packed_co
    }
}

impl KeyProj for CoRlProj {
    open spec fn spec_key(&self) -> u128 {
        (self.lock.packed_faces as u128) | ((self.packed_co as u128) << 64)
    }

    fn key(&self) -> (r: u128) {
        (self.lock.packed_faces as u128) | ((self.packed_co as u128) << 64)
    }

    proof fn lemma_key_injective(&self, other: &Self) {
        let a = self.lock.packed_faces;
        let b = self.packed_co;
        let c = other.lock.packed_faces;
        let d = other.packed_co;
        assert(((a as u128) | ((b as u128) << 64)) == ((c as u128) | ((d as u128) << 64)) ==> a
            == c && b == d) by (bit_vector);
    }
}

/// A projection that tracks whether each corner came from the U face.
#[derive(Clone, Copy, Debug, Eq, PartialEq, Structural)]
pub struct CornerUdProj {
    pub lock: LockProj,
    pub packed_faces: u8,
}

impl Proj for CornerUdProj {
    open spec fn spec_project(s: Seq<Sticker>) -> Self {
        CornerUdProj {
            lock: LockProj { packed_faces: lock_bits(s) },
            packed_faces: corner_axis_bits(s, Face::U),
        }
    }

    fn project(s: &State) -> (r: Self) {
        let l = LockProj::project(s);
        CornerUdProj::project_with_lock(s, &l)
    }

    fn project_with_lock(s: &State, l: &LockProj) -> (r: Self) {
        CornerUdProj { lock: *l, packed_faces: corner_axis_bits_exec(s, Face::U) }
    }

    fn eq_proj(&self, other: &Self) -> (r: bool) {
        self.lock.packed_faces == other.lock.packed_faces && self.packed_faces
            == other.packed_faces
    }
}

impl KeyProj for CornerUdProj {
    open spec fn spec_key(&self) -> u128 {
        (self.lock.packed_faces as u128) | ((self.packed_faces as u128) << 64)
    }

    fn key(&self) -> (r: u128) {
        (self.lock.packed_faces as u128) | ((self.packed_faces as u128) << 64)
    }

    proof fn lemma_key_injective(&self, other: &Self) {
        let a = self.lock.packed_faces;
        let b = self.packed_faces;
        let c = other.lock.packed_faces;
        let d = other.packed_faces;
        assert(((a as u128) | ((b as u128) << 64)) == ((c as u128) | ((d as u128) << 64)) ==> a
            == c && b == d) by (bit_vector);
    }
}

/// A projection that tracks whether each corner came from the F face.
#[derive(Clone, Copy, Debug, Eq, PartialEq, Structural)]
pub struct CornerFbProj {
    pub lock: LockProj,
    pub packed_faces: u8,
}

impl Proj for CornerFbProj {
    open spec fn spec_project(s: Seq<Sticker>) -> Self {
        CornerFbProj {
            lock: LockProj { packed_faces: lock_bits(s) },
            packed_faces: corner_axis_bits(s, Face::F),
        }
    }

    fn project(s: &State) -> (r: Self) {
        let l = LockProj::project(s);
        CornerFbProj::project_with_lock(s, &l)
    }

    fn project_with_lock(s: &State, l: &LockProj) -> (r: Self) {
        CornerFbProj { lock: *l, packed_faces: corner_axis_bits_exec(s, Face::F) }
    }

    fn eq_proj(&self, other: &Self) -> (r: bool) {
        self.lock.packed_faces == other.lock.packed_faces && self.packed_faces
            == other.packed_faces
    }
}

impl KeyProj for CornerFbProj {
    open spec fn spec_key(&self) -> u128 {
        (self.lock.packed_faces as u128) | ((self.packed_faces as u128) << 64)
    }

    fn key(&self) -> (r: u128) {
        (self.lock.packed_faces as u128) | ((self.packed_faces as u128) << 64)
    }

    proof fn lemma_key_injective(&self, other: &Self) {
        let a = self.lock.packed_faces;
        let b = self.packed_faces;
        let c = other.lock.packed_faces;
        let d = other.packed_faces;
        assert(((a as u128) | ((b as u128) << 64)) == ((c as u128) | ((d as u128) << 64)) ==> a
            == c && b == d) by (bit_vector);
    }
}

/// A projection that tracks whether each corner came from the R face.
#[derive(Clone, Copy, Debug, Eq, PartialEq, Structural)]
pub struct CornerRlProj {
    pub lock: LockProj,
    pub packed_faces: u8,
}

impl Proj for CornerRlProj {
    open spec fn spec_project(s: Seq<Sticker>) -> Self {
        CornerRlProj {
            lock: LockProj { packed_faces: lock_bits(s) },
            packed_faces: corner_axis_bits(s, Face::R),
        }
    }

    fn project(s: &State) -> (r: Self) {
        let l = LockProj::project(s);
        CornerRlProj::project_with_lock(s, &l)
    }

    fn project_with_lock(s: &State, l: &LockProj) -> (r: Self) {
        CornerRlProj { lock: *l, packed_faces: corner_axis_bits_exec(s, Face::R) }
    }

    fn eq_proj(&self, other: &Self) -> (r: bool) {
        self.lock.packed_faces == other.lock.packed_faces && self.packed_faces
            == other.packed_faces
    }
}

impl KeyProj for CornerRlProj {
    open spec fn spec_key(&self) -> u128 {
        (self.lock.packed_faces as u128) | ((self.packed_faces as u128) << 64)
    }

    fn key(&self) -> (r: u128) {
        (self.lock.packed_faces as u128) | ((self.packed_faces as u128) << 64)
    }

    proof fn lemma_key_injective(&self, other: &Self) {
        let a = self.lock.packed_faces;
        let b = self.packed_faces;
        let c = other.lock.packed_faces;
        let d = other.packed_faces;
        assert(((a as u128) | ((b as u128) << 64)) == ((c as u128) | ((d as u128) << 64)) ==> a
            == c && b == d) by (bit_vector);
    }
}

/// The product of two projections, used to build composite goals.
pub struct PairProj<A, B> {
    pub first: A,
    pub second: B,
}

impl<A: Proj, B: Proj> Proj for PairProj<A, B> {
    open spec fn spec_project(s: Seq<Sticker>) -> Self {
        PairProj { first: A::spec_project(s), second: B::spec_project(s) }
    }

    fn project(s: &State) -> (r: Self) {
        let l = LockProj::project(s);
        PairProj::<A, B>::project_with_lock(s, &l)
    }

    fn project_with_lock(s: &State, l: &LockProj) -> (r: Self) {
        PairProj { first: A::project_with_lock(s, l), second: B::project_with_lock(s, l) }
    }

    fn eq_proj(&self, other: &Self) -> (r: bool) {
        self.first.eq_proj(&other.first) && self.second.eq_proj(&other.second)
    }
}

} // verus!


