//! Moves that can be applied to states, and sequences of moves.

use vstd::prelude::*;
use vstd::string::StrSliceExecFns;

use crate::state::Face;
use crate::state::State;
use crate::state::Sticker;
use crate::state::solved_seq;

verus! {

/// The number of times a face is turned (once, twice, or thrice).
#[derive(Clone, Copy, Debug, Eq, Hash, PartialEq, Structural)]
pub enum Turns {
    Clockwise,
    Double,
    Counter,
}

/// A description of a single move on the cube, in the face-turn metric.
#[derive(Clone, Copy, Debug, Eq, Hash, PartialEq, Structural)]
pub struct Move {
    pub face: Face,
    pub turns: Turns,
}

/// For a single clockwise turn of a face, the index that sticker `i` is taken
/// from. Indices off the turning face and its ring stay put.
pub open spec fn cw_src(f: Face, i: int) -> int {
    match f {
        Face::U => {
            if i == 0 { 5 } else if i == 1 { 3 } else if i == 2 { 0 } else if i == 3 { 6 }
            else if i == 4 { 1 } else if i == 5 { 7 } else if i == 6 { 4 } else if i == 7 { 2 }
            else if i == 16 { 32 } else if i == 17 { 33 } else if i == 18 { 34 }
            else if i == 24 { 40 } else if i == 25 { 41 } else if i == 26 { 42 }
            else if i == 32 { 24 } else if i == 33 { 25 } else if i == 34 { 26 }
            else if i == 40 { 16 } else if i == 41 { 17 } else if i == 42 { 18 } else { i }
        },
        Face::D => {
            if i == 8 { 13 } else if i == 9 { 11 } else if i == 10 { 8 } else if i == 11 { 14 }
            else if i == 12 { 9 } else if i == 13 { 15 } else if i == 14 { 12 }
            else if i == 15 { 10 } else if i == 21 { 45 } else if i == 22 { 46 }
            else if i == 23 { 47 } else if i == 29 { 37 } else if i == 30 { 38 }
            else if i == 31 { 39 } else if i == 37 { 21 } else if i == 38 { 22 }
            else if i == 39 { 23 } else if i == 45 { 29 } else if i == 46 { 30 }
            else if i == 47 { 31 } else { i }
        },
        Face::F => {
            if i == 5 { 47 } else if i == 6 { 44 } else if i == 7 { 42 } else if i == 8 { 37 }
            else if i == 9 { 35 } else if i == 10 { 32 } else if i == 16 { 21 }
            else if i == 17 { 19 } else if i == 18 { 16 } else if i == 19 { 22 }
            else if i == 20 { 17 } else if i == 21 { 23 } else if i == 22 { 20 }
            else if i == 23 { 18 } else if i == 32 { 5 } else if i == 35 { 6 }
            else if i == 37 { 7 } else if i == 42 { 8 } else if i == 44 { 9 }
            else if i == 47 { 10 } else { i }
        },
        Face::B => {
            if i == 0 { 34 } else if i == 1 { 36 } else if i == 2 { 39 } else if i == 13 { 40 }
            else if i == 14 { 43 } else if i == 15 { 45 } else if i == 24 { 29 }
            else if i == 25 { 27 } else if i == 26 { 24 } else if i == 27 { 30 }
            else if i == 28 { 25 } else if i == 29 { 31 } else if i == 30 { 28 }
            else if i == 31 { 26 } else if i == 34 { 15 } else if i == 36 { 14 }
            else if i == 39 { 13 } else if i == 40 { 2 } else if i == 43 { 1 }
            else if i == 45 { 0 } else { i }
        },
        Face::R => {
            if i == 2 { 18 } else if i == 4 { 20 } else if i == 7 { 23 } else if i == 10 { 29 }
            else if i == 12 { 27 } else if i == 15 { 24 } else if i == 18 { 10 }
            else if i == 20 { 12 } else if i == 23 { 15 } else if i == 24 { 7 }
            else if i == 27 { 4 } else if i == 29 { 2 } else if i == 32 { 37 }
            else if i == 33 { 35 } else if i == 34 { 32 } else if i == 35 { 38 }
            else if i == 36 { 33 } else if i == 37 { 39 } else if i == 38 { 36 }
            else if i == 39 { 34 } else { i }
        },
        Face::L => {
            if i == 0 { 31 } else if i == 3 { 28 } else if i == 5 { 26 } else if i == 8 { 16 }
            else if i == 11 { 19 } else if i == 13 { 21 } else if i == 16 { 0 }
            else if i == 19 { 3 } else if i == 21 { 5 } else if i == 26 { 13 }
            else if i == 28 { 11 } else if i == 31 { 8 } else if i == 40 { 45 }
            else if i == 41 { 43 } else if i == 42 { 40 } else if i == 43 { 46 }
            else if i == 44 { 41 } else if i == 45 { 47 } else if i == 46 { 44 }
            else if i == 47 { 42 } else { i }
        },
    }
}

/// The index that sticker `i` is taken from when the whole move is applied:
/// a clockwise turn repeated one, two, or three times.
pub open spec fn move_src(m: Move, i: int) -> int {
    match m.turns {
        Turns::Clockwise => cw_src(m.face, i),
        Turns::Double => cw_src(m.face, cw_src(m.face, i)),
        Turns::Counter => cw_src(m.face, cw_src(m.face, cw_src(m.face, i))),
    }
}

/// The configuration after a move: each sticker is fetched from its source
/// index.
pub open spec fn move_applied(s: Seq<Sticker>, m: Move) -> Seq<Sticker> {
    Seq::new(48, |i: int| s[move_src(m, i)])
}

/// The configuration after a whole sequence of moves, applied left to right.
pub open spec fn algo_applied(s: Seq<Sticker>, ms: Seq<Move>) -> Seq<Sticker>
    decreases ms.len(),
{
    if ms.len() == 0 {
        s
    } else {
        algo_applied(move_applied(s, ms[0]), ms.skip(1))
    }
}

/// The move that undoes a move: the same face, with clockwise and counter
/// turns exchanged.
pub open spec fn move_inverse(m: Move) -> Move {
    Move {
        face: m.face,
        turns: match m.turns {
            Turns::Clockwise => Turns::Counter,
            Turns::Double => Turns::Double,
            Turns::Counter => Turns::Clockwise,
        },
    }
}

/// A single clockwise turn maps indices below 48 to indices below 48.
pub proof fn lemma_cw_src_in_range(f: Face, i: int)
    requires
        0 <= i < 48,
    ensures
        0 <= cw_src(f, i) < 48,
{
}

/// Four clockwise turns of one face restore every sticker.
pub proof fn lemma_cw_order_four(f: Face, i: int)
    requires
        0 <= i < 48,
    ensures
        cw_src(f, cw_src(f, cw_src(f, cw_src(f, i)))) == i,
{
}

/// A move followed by its inverse restores the configuration.
pub proof fn lemma_move_reversible(s: Seq<Sticker>, m: Move)
    requires
        s.len() == 48,
    ensures
        move_applied(move_applied(s, m), move_inverse(m)) == s,
{
    let t = move_applied(s, m);
    let r = move_applied(t, move_inverse(m));
    assert forall|i: int| 0 <= i < 48 implies r[i] == s[i] by {
        lemma_cw_src_in_range(m.face, i);
        lemma_cw_src_in_range(m.face, cw_src(m.face, i));
        lemma_cw_src_in_range(m.face, cw_src(m.face, cw_src(m.face, i)));
        lemma_cw_order_four(m.face, i);
        assert(0 <= move_src(move_inverse(m), i) < 48);
    }
    assert(r =~= s);
}

/// `move_src` applied to an index below 48, as executable code.
fn move_src_exec(m: Move, i: usize) -> (r: usize)
    requires
        i < 48,
    ensures
        r == move_src(m, i as int),
        r < 48,
{
    proof {
        lemma_cw_src_in_range(m.face, i as int);
        lemma_cw_src_in_range(m.face, cw_src(m.face, i as int));
        lemma_cw_src_in_range(m.face, cw_src(m.face, cw_src(m.face, i as int)));
    }
    match m.turns {
        Turns::Clockwise => cw_src_exec(m.face, i),
        Turns::Double => cw_src_exec(m.face, cw_src_exec(m.face, i)),
        Turns::Counter => cw_src_exec(m.face, cw_src_exec(m.face, cw_src_exec(m.face, i))),
    }
}

/// `cw_src` applied to an index below 48, as executable code.
fn cw_src_exec(f: Face, i: usize) -> (r: usize)
    requires
        i < 48,
    ensures
        r == cw_src(f, i as int),
        r < 48,
{
    match f {
        Face::U => {
            if i == 0 { 5 } else if i == 1 { 3 } else if i == 2 { 0 } else if i == 3 { 6 }
            else if i == 4 { 1 } else if i == 5 { 7 } else if i == 6 { 4 } else if i == 7 { 2 }
            else if i == 16 { 32 } else if i == 17 { 33 } else if i == 18 { 34 }
            else if i == 24 { 40 } else if i == 25 { 41 } else if i == 26 { 42 }
            else if i == 32 { 24 } else if i == 33 { 25 } else if i == 34 { 26 }
            else if i == 40 { 16 } else if i == 41 { 17 } else if i == 42 { 18 } else { i }
        },
        Face::D => {
            if i == 8 { 13 } else if i == 9 { 11 } else if i == 10 { 8 } else if i == 11 { 14 }
            else if i == 12 { 9 } else if i == 13 { 15 } else if i == 14 { 12 }
            else if i == 15 { 10 } else if i == 21 { 45 } else if i == 22 { 46 }
            else if i == 23 { 47 } else if i == 29 { 37 } else if i == 30 { 38 }
            else if i == 31 { 39 } else if i == 37 { 21 } else if i == 38 { 22 }
            else if i == 39 { 23 } else if i == 45 { 29 } else if i == 46 { 30 }
            else if i == 47 { 31 } else { i }
        },
        Face::F => {
            if i == 5 { 47 } else if i == 6 { 44 } else if i == 7 { 42 } else if i == 8 { 37 }
            else if i == 9 { 35 } else if i == 10 { 32 } else if i == 16 { 21 }
            else if i == 17 { 19 } else if i == 18 { 16 } else if i == 19 { 22 }
            else if i == 20 { 17 } else if i == 21 { 23 } else if i == 22 { 20 }
            else if i == 23 { 18 } else if i == 32 { 5 } else if i == 35 { 6 }
            else if i == 37 { 7 } else if i == 42 { 8 } else if i == 44 { 9 }
            else if i == 47 { 10 } else { i }
        },
        Face::B => {
            if i == 0 { 34 } else if i == 1 { 36 } else if i == 2 { 39 } else if i == 13 { 40 }
            else if i == 14 { 43 } else if i == 15 { 45 } else if i == 24 { 29 }
            else if i == 25 { 27 } else if i == 26 { 24 } else if i == 27 { 30 }
            else if i == 28 { 25 } else if i == 29 { 31 } else if i == 30 { 28 }
            else if i == 31 { 26 } else if i == 34 { 15 } else if i == 36 { 14 }
            else if i == 39 { 13 } else if i == 40 { 2 } else if i == 43 { 1 }
            else if i == 45 { 0 } else { i }
        },
        Face::R => {
            if i == 2 { 18 } else if i == 4 { 20 } else if i == 7 { 23 } else if i == 10 { 29 }
            else if i == 12 { 27 } else if i == 15 { 24 } else if i == 18 { 10 }
            else if i == 20 { 12 } else if i == 23 { 15 } else if i == 24 { 7 }
            else if i == 27 { 4 } else if i == 29 { 2 } else if i == 32 { 37 }
            else if i == 33 { 35 } else if i == 34 { 32 } else if i == 35 { 38 }
            else if i == 36 { 33 } else if i == 37 { 39 } else if i == 38 { 36 }
            else if i == 39 { 34 } else { i }
        },
        Face::L => {
            if i == 0 { 31 } else if i == 3 { 28 } else if i == 5 { 26 } else if i == 8 { 16 }
            else if i == 11 { 19 } else if i == 13 { 21 } else if i == 16 { 0 }
            else if i == 19 { 3 } else if i == 21 { 5 } else if i == 26 { 13 }
            else if i == 28 { 11 } else if i == 31 { 8 } else if i == 40 { 45 }
            else if i == 41 { 43 } else if i == 42 { 40 } else if i == 43 { 46 }
            else if i == 44 { 41 } else if i == 45 { 47 } else if i == 46 { 44 }
            else if i == 47 { 42 } else { i }
        },
    }
}

impl Move {
    /// Apply the move to a state.
    ///
    /// Does not check whether the move is valid, i.e. whether the face is
    /// locked.
    pub fn apply(&self, state: &mut State)
        ensures
            final(state)@ == move_applied(old(state)@, *self),
    {
        let before: State = *state;
        let mut i: usize = 0;
        while i < 48
            invariant
                i <= 48,
                before@.len() == 48,
                forall|j: int| 0 <= j < i ==> state@[j] == move_applied(before@, *self)[j],
                forall|j: int| i <= j < 48 ==> state@[j] == before@[j],
            decreases 48 - i,
        {
            let src = move_src_exec(*self, i);
            let ghost prev = state@;
            state.0[i] = before.0[src];
            proof {
                assert(state@ =~= prev.update(i as int, before@[src as int]));
                assert(move_applied(before@, *self)[i as int] == before@[
                    move_src(*self, i as int)
                ]);
                assert forall|j: int| 0 <= j < i + 1 implies state@[j] == move_applied(
                    before@,
                    *self,
                )[j] by {
                    if j < i {
                        assert(state@[j] == prev[j]);
                    }
                }
            }
            i += 1;
        }
        assert(state@ =~= move_applied(before@, *self));
    }

    /// The move that undoes this one.
    pub fn inverse(&self) -> (r: Move)
        ensures
            r == move_inverse(*self),
    {
        Move {
            face: self.face,
            turns: match self.turns {
                Turns::Clockwise => Turns::Counter,
                Turns::Double => Turns::Double,
                Turns::Counter => Turns::Clockwise,
            },
        }
    }
}

/// A sequence of moves.
#[derive(Clone, Debug, Eq, PartialEq)]
pub struct Algo(pub Vec<Move>);

impl View for Algo {
    type V = Seq<Move>;

    open spec fn view(&self) -> Seq<Move> {
        self.0@
    }
}

impl Algo {
    /// Apply all moves in order to a state.
    pub fn apply(&self, s: &mut State)
        ensures
            final(s)@ == algo_applied(old(s)@, self@),
    {
        let ghost start = s@;
        let mut i: usize = 0;
        while i < self.0.len()
            invariant
                i <= self.0.len(),
                s@ == algo_applied(start, self@.take(i as int)),
            decreases self.0.len() - i,
        {
            proof {
                lemma_algo_applied_push(start, self@.take(i as int), self@[i as int]);
                assert(self@.take(i as int).push(self@[i as int]) =~= self@.take(i + 1));
            }
            self.0[i].apply(s);
            i += 1;
        }
        proof {
            assert(self@.take(self@.len() as int) =~= self@);
        }
    }

    /// The state the moves produce when applied to the solved state.
    pub fn state(&self) -> (r: State)
        ensures
            r@ == algo_applied(solved_seq(), self@),
    {
        let mut st = State::solved();
        self.apply(&mut st);
        st
    }
}

/// Appending one move to a sequence applies it after the sequence.
pub proof fn lemma_algo_applied_push(s: Seq<Sticker>, ms: Seq<Move>, m: Move)
    ensures
        algo_applied(s, ms.push(m)) == move_applied(algo_applied(s, ms), m),
    decreases ms.len(),
{
    if ms.len() == 0 {
        assert(ms.push(m)[0] == m);
        assert(ms.push(m).skip(1) =~= Seq::<Move>::empty());
        assert(algo_applied(move_applied(s, m), Seq::<Move>::empty()) == move_applied(s, m));
        assert(algo_applied(s, ms.push(m)) == algo_applied(
            move_applied(s, ms.push(m)[0]),
            ms.push(m).skip(1),
        ));
    } else {
        lemma_algo_applied_push(move_applied(s, ms[0]), ms.skip(1), m);
        assert(ms.push(m).skip(1) =~= ms.skip(1).push(m));
        assert(ms.push(m)[0] == ms[0]);
    }
}

/// Applying a concatenation of two sequences applies one, then the other.
pub proof fn lemma_algo_applied_concat(s: Seq<Sticker>, a: Seq<Move>, b: Seq<Move>)
    ensures
        algo_applied(s, a + b) == algo_applied(algo_applied(s, a), b),
    decreases a.len(),
{
    if a.len() == 0 {
        assert(a + b =~= b);
    } else {
        lemma_algo_applied_concat(move_applied(s, a[0]), a.skip(1), b);
        assert((a + b).skip(1) =~= a.skip(1) + b);
        assert((a + b)[0] == a[0]);
    }
}

/// Every configuration a move produces again holds 48 stickers.
pub proof fn lemma_algo_applied_len(s: Seq<Sticker>, ms: Seq<Move>)
    requires
        s.len() == 48,
    ensures
        algo_applied(s, ms).len() == 48,
    decreases ms.len(),
{
    if ms.len() != 0 {
        lemma_algo_applied_len(move_applied(s, ms[0]), ms.skip(1));
    }
}

/// The letter of a face in move notation.
pub open spec fn face_char(f: Face) -> char {
    match f {
        Face::U => 'U',
        Face::D => 'D',
        Face::F => 'F',
        Face::B => 'B',
        Face::R => 'R',
        Face::L => 'L',
    }
}

/// The token of a move: the face letter, with `2` for a double turn and `'`
/// for a counter turn.
pub open spec fn move_token(m: Move) -> Seq<char> {
    match m.turns {
        Turns::Clockwise => seq![face_char(m.face)],
        Turns::Double => seq![face_char(m.face), '2'],
        Turns::Counter => seq![face_char(m.face), '\''],
    }
}

/// The text of a move sequence: its tokens separated by single spaces.
pub open spec fn algo_text(ms: Seq<Move>) -> Seq<char>
    decreases ms.len(),
{
    if ms.len() == 0 {
        Seq::empty()
    } else if ms.len() == 1 {
        move_token(ms[0])
    } else {
        move_token(ms[0]) + seq![' '] + algo_text(ms.skip(1))
    }
}

/// The characters that separate tokens.
pub open spec fn is_space(c: char) -> bool {
    c == ' ' || c == '\t' || c == '\n' || c == '\r'
}

/// The face a letter stands for.
pub open spec fn spec_char_face(c: char) -> Option<Face> {
    if c == 'U' {
        Some(Face::U)
    } else if c == 'D' {
        Some(Face::D)
    } else if c == 'F' {
        Some(Face::F)
    } else if c == 'B' {
        Some(Face::B)
    } else if c == 'R' {
        Some(Face::R)
    } else if c == 'L' {
        Some(Face::L)
    } else {
        None
    }
}

/// The move a token stands for, or `None` for an unrecognized token.
pub open spec fn spec_parse_move(t: Seq<char>) -> Option<Move> {
    if t.len() == 1 {
        match spec_char_face(t[0]) {
            Some(f) => Some(Move { face: f, turns: Turns::Clockwise }),
            None => None,
        }
    } else if t.len() == 2 && (t[1] == '2' || t[1] == '\'') {
        match spec_char_face(t[0]) {
            Some(f) => Some(
                Move {
                    face: f,
                    turns: if t[1] == '2' {
                        Turns::Double
                    } else {
                        Turns::Counter
                    },
                },
            ),
            None => None,
        }
    } else {
        None
    }
}

/// The longest prefix free of separators.
pub open spec fn token_prefix(s: Seq<char>) -> Seq<char>
    decreases s.len(),
{
    if s.len() == 0 || is_space(s[0]) {
        Seq::empty()
    } else {
        seq![s[0]] + token_prefix(s.skip(1))
    }
}

/// A token prefix never overruns its text, and is nonempty exactly when the
/// text starts with a non-separator.
pub proof fn lemma_token_prefix_len(s: Seq<char>)
    ensures
        token_prefix(s).len() <= s.len(),
        s.len() > 0 && !is_space(s[0]) ==> token_prefix(s).len() >= 1,
    decreases s.len(),
{
    if s.len() > 0 && !is_space(s[0]) {
        lemma_token_prefix_len(s.skip(1));
    }
}

/// The tokens of a text: maximal runs of non-separator characters.
pub open spec fn spec_tokens(s: Seq<char>) -> Seq<Seq<char>>
    decreases s.len(),
    via spec_tokens_decreases
{
    if s.len() == 0 {
        Seq::empty()
    } else if is_space(s[0]) {
        spec_tokens(s.skip(1))
    } else {
        seq![token_prefix(s)] + spec_tokens(s.skip(token_prefix(s).len() as int))
    }
}

#[via_fn]
proof fn spec_tokens_decreases(s: Seq<char>) {
    lemma_token_prefix_len(s);
}

/// The moves the tokens stand for, or the first unrecognized token.
pub open spec fn parse_tokens(ts: Seq<Seq<char>>) -> Result<Seq<Move>, Seq<char>>
    decreases ts.len(),
{
    if ts.len() == 0 {
        Ok(Seq::empty())
    } else {
        match spec_parse_move(ts[0]) {
            None => Err(ts[0]),
            Some(m) => match parse_tokens(ts.skip(1)) {
                Ok(rest) => Ok(seq![m] + rest),
                Err(e) => Err(e),
            },
        }
    }
}

/// What a whole text parses to: the moves of its tokens, or the first
/// unrecognized token.
pub open spec fn spec_parse_algo(s: Seq<char>) -> Result<Seq<Move>, Seq<char>> {
    parse_tokens(spec_tokens(s))
}

/// An error from parsing a move.
#[derive(Clone, Debug)]
pub struct ParseMoveError {
    move_str: String,
}

impl View for ParseMoveError {
    type V = Seq<char>;

    closed spec fn view(&self) -> Seq<char> {
        self.move_str@
    }
}

impl ParseMoveError {
    /// Wrap the token that failed to parse.
    pub(crate) fn new(move_str: String) -> (r: ParseMoveError)
        ensures
            r@ == move_str@,
    {
        ParseMoveError { move_str }
    }

    /// Get the move that failed to parse.
    pub fn move_str(&self) -> (r: &str)
        ensures
            r@ == self@,
    {
        self.move_str.as_str()
    }

    /// The error as a sentence naming the offending token.
    pub fn message(&self) -> (r: String)
        ensures
            r@ == "invalid move: "@ + self@,
    {
        let prefix: String = "invalid move: ".to_owned();
        vstd::string::StringExecFns::concat(prefix, self.move_str.as_str())
    }
}

/// Relies on String::push: appends one character.
#[verifier::external_body]
pub(crate) fn push_char(s: &mut String, c: char)
    ensures
        final(s)@ == old(s)@.push(c),
{
    s.push(c);
}

/// Collect the characters of a string slice.
pub(crate) fn str_chars(s: &str) -> (v: Vec<char>)
    ensures
        v@ == s@,
{
    let n = s.unicode_len();
    let mut v: Vec<char> = Vec::new();
    let mut i: usize = 0;
    while i < n
        invariant
            i <= n,
            n == s@.len(),
            v@ == s@.take(i as int),
        decreases n - i,
    {
        v.push(s.get_char(i));
        proof {
            assert(s@.take(i as int).push(s@[i as int]) =~= s@.take(i + 1));
        }
        i += 1;
    }
    proof {
        assert(s@.take(n as int) =~= s@);
    }
    v
}

/// The letter of a face, as a string slice.
pub(crate) fn face_str(f: Face) -> (r: &'static str)
    ensures
        r@ == seq![face_char(f)],
{
    proof {
        reveal_strlit("U");
        reveal_strlit("D");
        reveal_strlit("F");
        reveal_strlit("B");
        reveal_strlit("R");
        reveal_strlit("L");
    }
    match f {
        Face::U => "U",
        Face::D => "D",
        Face::F => "F",
        Face::B => "B",
        Face::R => "R",
        Face::L => "L",
    }
}

/// Appending one move extends the text by a separator, when one is due, and
/// the move's token.
pub proof fn lemma_algo_text_push(ms: Seq<Move>, m: Move)
    ensures
        algo_text(ms.push(m)) == if ms.len() == 0 {
            move_token(m)
        } else {
            algo_text(ms) + seq![' '] + move_token(m)
        },
    decreases ms.len(),
{
    let e = ms.push(m);
    if ms.len() == 0 {
        assert(e[0] == m);
    } else {
        lemma_algo_text_push(ms.skip(1), m);
        assert(e.skip(1) =~= ms.skip(1).push(m));
        assert(e[0] == ms[0]);
        if ms.len() == 1 {
            assert(ms.skip(1).len() == 0);
            assert(algo_text(e) == move_token(ms[0]) + seq![' '] + move_token(m));
            assert(algo_text(ms) + seq![' '] + move_token(m) =~= algo_text(e));
        } else {
            assert(algo_text(ms) + seq![' '] + move_token(m) =~= algo_text(e));
        }
    }
}

impl Move {
    /// The token of this move.
    pub fn stringify(&self) -> (r: String)
        ensures
            r@ == move_token(*self),
    {
        let mut out: String = face_str(self.face).to_owned();
        match self.turns {
            Turns::Clockwise => {},
            Turns::Double => {
                push_char(&mut out, '2');
            },
            Turns::Counter => {
                push_char(&mut out, '\'');
            },
        }
        proof {
            assert(out@ =~= move_token(*self));
        }
        out
    }

    /// Parse a token as a move; an unrecognized token is handed back in the
    /// error.
    pub fn parse(s: &str) -> (r: Result<Move, ParseMoveError>)
        ensures
            match r {
                Ok(m) => spec_parse_move(s@) == Some(m),
                Err(e) => spec_parse_move(s@) is None && e@ == s@,
            },
    {
        let chars = str_chars(s);
        match parse_token_chars(&chars, 0, chars.len()) {
            Some(m) => {
                proof {
                    assert(chars@.subrange(0, chars@.len() as int) =~= s@);
                }
                Ok(m)
            },
            None => {
                proof {
                    assert(chars@.subrange(0, chars@.len() as int) =~= s@);
                }
                Err(ParseMoveError::new(s.to_owned()))
            },
        }
    }
}

impl core::str::FromStr for Move {
    type Err = ParseMoveError;

    fn from_str(s: &str) -> Result<Move, ParseMoveError> {
        Move::parse(s)
    }
}

impl core::str::FromStr for Algo {
    type Err = ParseMoveError;

    fn from_str(s: &str) -> Result<Algo, ParseMoveError> {
        Algo::parse(s)
    }
}

/// The face a letter stands for, as executable code.
pub(crate) fn char_face(c: char) -> (r: Option<Face>)
    ensures
        r == spec_char_face(c),
{
    if c == 'U' {
        Some(Face::U)
    } else if c == 'D' {
        Some(Face::D)
    } else if c == 'F' {
        Some(Face::F)
    } else if c == 'B' {
        Some(Face::B)
    } else if c == 'R' {
        Some(Face::R)
    } else if c == 'L' {
        Some(Face::L)
    } else {
        None
    }
}

/// Parse the token sitting at `chars[from..to]`.
fn parse_token_chars(chars: &Vec<char>, from: usize, to: usize) -> (r: Option<Move>)
    requires
        from <= to <= chars@.len(),
    ensures
        r == spec_parse_move(chars@.subrange(from as int, to as int)),
{
    let ghost t = chars@.subrange(from as int, to as int);
    if to - from == 1 {
        match char_face(chars[from]) {
            Some(f) => Some(Move { face: f, turns: Turns::Clockwise }),
            None => None,
        }
    } else if to - from == 2 {
        let suffix = chars[from + 1];
        if suffix == '2' || suffix == '\'' {
            match char_face(chars[from]) {
                Some(f) => Some(
                    Move {
                        face: f,
                        turns: if suffix == '2' {
                            Turns::Double
                        } else {
                            Turns::Counter
                        },
                    },
                ),
                None => None,
            }
        } else {
            None
        }
    } else {
        None
    }
}

/// Whether a character separates tokens, as executable code.
fn is_space_exec(c: char) -> (r: bool)
    ensures
        r == is_space(c),
{
    c == ' ' || c == '\t' || c == '\n' || c == '\r'
}

impl Algo {
    /// The text of the sequence: its tokens separated by single spaces.
    pub fn stringify(&self) -> (r: String)
        ensures
            r@ == algo_text(self@),
    {
        let mut out = String::new();
        let mut i: usize = 0;
        while i < self.0.len()
            invariant
                i <= self.0@.len(),
                out@ == algo_text(self.0@.take(i as int)),
            decreases self.0@.len() - i,
        {
            proof {
                lemma_algo_text_push(self.0@.take(i as int), self.0@[i as int]);
                assert(self.0@.take(i as int).push(self.0@[i as int]) =~= self.0@.take(i + 1));
                reveal_strlit(" ");
            }
            if i > 0 {
                vstd::string::StringExecFns::append(&mut out, " ");
            }
            let token = self.0[i].stringify();
            vstd::string::StringExecFns::append(&mut out, token.as_str());
            proof {
                assert(out@ =~= algo_text(self.0@.take(i + 1)));
            }
            i += 1;
        }
        proof {
            assert(self.0@.take(self.0@.len() as int) =~= self.0@);
        }
        out
    }

    /// Parse a whitespace-separated sequence of tokens; the first
    /// unrecognized token is handed back in the error.
    pub fn parse(s: &str) -> (r: Result<Algo, ParseMoveError>)
        ensures
            match r {
                Ok(a) => spec_parse_algo(s@) == Ok::<Seq<Move>, Seq<char>>(a@),
                Err(e) => spec_parse_algo(s@) matches Err(t) && e@ == t,
            },
    {
        let chars = str_chars(s);
        let n = chars.len();
        let mut res: Vec<Move> = Vec::new();
        let mut i: usize = 0;
        proof {
            assert(chars@.skip(0) =~= chars@);
            match parse_tokens(spec_tokens(s@)) {
                Ok(ms) => {
                    assert(Seq::<Move>::empty() + ms =~= ms);
                },
                Err(e) => {},
            }
        }
        while i < n
            invariant
                i <= n,
                n == chars@.len(),
                chars@ == s@,
                continue_parse(res@, parse_tokens(spec_tokens(chars@.skip(i as int))))
                    == spec_parse_algo(s@),
            decreases n - i,
        {
            if is_space_exec(chars[i]) {
                proof {
                    assert(chars@.skip(i as int)[0] == chars@[i as int]);
                    assert(chars@.skip(i as int).skip(1) =~= chars@.skip(i + 1));
                }
                i += 1;
            } else {
                let start = i;
                let mut j = i + 1;
                while j < n && !is_space_exec(chars[j])
                    invariant
                        start < j <= n,
                        n == chars@.len(),
                        forall|p: int| start <= p < j ==> !is_space(chars@[p]),
                    decreases n - j,
                {
                    j += 1;
                }
                proof {
                    lemma_token_scan(chars@, start as int, j as int);
                }
                let token_end = j;
                match parse_token_chars(&chars, start, token_end) {
                    Some(m) => {
                        proof {
                            let tok = chars@.subrange(start as int, token_end as int);
                            assert(spec_tokens(chars@.skip(start as int)) == seq![tok]
                                + spec_tokens(chars@.skip(token_end as int)));
                            lemma_continue_parse_step(
                                res@,
                                m,
                                tok,
                                spec_tokens(chars@.skip(token_end as int)),
                            );
                            assert(res@.push(m) =~= res@ + seq![m]);
                        }
                        res.push(m);
                        i = token_end;
                    },
                    None => {
                        let mut token = String::new();
                        let mut p = start;
                        while p < token_end
                            invariant
                                start <= p <= token_end <= n,
                                n == chars@.len(),
                                token@ == chars@.subrange(start as int, p as int),
                            decreases token_end - p,
                        {
                            push_char(&mut token, chars[p]);
                            proof {
                                assert(chars@.subrange(start as int, p as int).push(
                                    chars@[p as int],
                                ) =~= chars@.subrange(start as int, p + 1));
                            }
                            p += 1;
                        }
                        proof {
                            let tok = chars@.subrange(start as int, token_end as int);
                            assert(spec_tokens(chars@.skip(start as int)) == seq![tok]
                                + spec_tokens(chars@.skip(token_end as int)));
                            assert(parse_tokens(spec_tokens(chars@.skip(start as int))) == Err::<
                                Seq<Move>,
                                Seq<char>,
                            >(tok)) by {
                                let ts = seq![tok] + spec_tokens(chars@.skip(token_end as int));
                                assert(ts[0] == tok);
                            }
                        }
                        return Err(ParseMoveError::new(token));
                    },
                }
            }
        }
        proof {
            assert(chars@.skip(n as int) =~= Seq::<char>::empty());
            assert(res@ + Seq::<Move>::empty() =~= res@);
        }
        Ok(Algo(res))
    }
}

/// How a prefix of already-parsed moves combines with the outcome on the
/// rest of the text.
spec fn continue_parse(done: Seq<Move>, rest: Result<Seq<Move>, Seq<char>>) -> Result<
    Seq<Move>,
    Seq<char>,
> {
    match rest {
        Ok(ms) => Ok(done + ms),
        Err(e) => Err(e),
    }
}

/// A scanned maximal run of non-separators is the text's next token.
proof fn lemma_token_scan(s: Seq<char>, start: int, end: int)
    requires
        0 <= start < end <= s.len(),
        forall|p: int| start <= p < end ==> !is_space(s[p]),
        end < s.len() ==> is_space(s[end]),
    ensures
        token_prefix(s.skip(start)) == s.subrange(start, end),
        spec_tokens(s.skip(start)) == seq![s.subrange(start, end)] + spec_tokens(s.skip(end)),
    decreases end - start,
{
    let rest = s.skip(start);
    assert(rest[0] == s[start]);
    if start + 1 == end {
        assert(token_prefix(rest.skip(1)) =~= Seq::<char>::empty()) by {
            assert(rest.skip(1) =~= s.skip(start + 1));
            if end < s.len() {
                assert(s.skip(end)[0] == s[end]);
            }
        }
        assert(token_prefix(rest) =~= seq![s[start]]);
        assert(seq![s[start]] =~= s.subrange(start, end));
    } else {
        lemma_token_scan(s, start + 1, end);
        assert(rest.skip(1) =~= s.skip(start + 1));
        assert(token_prefix(rest) =~= seq![s[start]] + token_prefix(s.skip(start + 1)));
        assert(seq![s[start]] + s.subrange(start + 1, end) =~= s.subrange(start, end));
    }
    assert(token_prefix(rest).len() == end - start);
    assert(rest.skip(end - start) =~= s.skip(end));
}

/// A move's token is short, nonempty, and free of separators.
proof fn lemma_move_token_wf(m: Move)
    ensures
        1 <= move_token(m).len() <= 2,
        forall|i: int| 0 <= i < move_token(m).len() ==> !is_space(move_token(m)[i]),
{
}

/// The token prefix of a separator-free text followed by a separator or the
/// end is the text itself.
proof fn lemma_token_prefix_of(t: Seq<char>, rest: Seq<char>)
    requires
        forall|i: int| 0 <= i < t.len() ==> !is_space(t[i]),
        rest.len() == 0 || is_space(rest[0]),
    ensures
        token_prefix(t + rest) == t,
    decreases t.len(),
{
    if t.len() == 0 {
        assert(t + rest =~= rest);
    } else {
        lemma_token_prefix_of(t.skip(1), rest);
        assert((t + rest)[0] == t[0]);
        assert((t + rest).skip(1) =~= t.skip(1) + rest);
        assert(seq![t[0]] + t.skip(1) =~= t);
    }
}

/// Every move's token parses back to the move itself.
proof fn lemma_parse_move_token(m: Move)
    ensures
        spec_parse_move(move_token(m)) == Some(m),
{
}

/// Formatting and then parsing a move sequence gives the sequence back: the
/// text of any sequence is well-formed, and parsing is its inverse.
pub proof fn lemma_parse_format_roundtrip(ms: Seq<Move>)
    ensures
        spec_parse_algo(algo_text(ms)) == Ok::<Seq<Move>, Seq<char>>(ms),
    decreases ms.len(),
{
    if ms.len() == 0 {
        assert(ms =~= Seq::<Move>::empty());
    } else {
        let tok = move_token(ms[0]);
        let text = algo_text(ms);
        lemma_move_token_wf(ms[0]);
        lemma_parse_move_token(ms[0]);
        assert(!is_space(move_token(ms[0])[0]));
        if ms.len() == 1 {
            assert(text == tok);
            assert(!is_space(text[0]));
            lemma_token_prefix_of(tok, Seq::empty());
            assert(tok + Seq::<char>::empty() =~= tok);
            assert(token_prefix(text) == tok);
            assert(text.skip(tok.len() as int) =~= Seq::<char>::empty());
            assert(spec_tokens(text) == seq![tok] + spec_tokens(Seq::<char>::empty()));
            assert(spec_tokens(text) =~= seq![tok]);
            assert(parse_tokens(seq![tok]) == Ok::<Seq<Move>, Seq<char>>(seq![ms[0]])) by {
                assert(seq![tok][0] == tok);
                assert(seq![tok].skip(1) =~= Seq::<Seq<char>>::empty());
                assert(seq![ms[0]] + Seq::<Move>::empty() =~= seq![ms[0]]);
            }
            assert(seq![ms[0]] =~= ms);
        } else {
            let rest_text = algo_text(ms.skip(1));
            assert(text == tok + seq![' '] + rest_text);
            lemma_parse_format_roundtrip(ms.skip(1));
            let after = seq![' '] + rest_text;
            assert(text =~= tok + after);
            assert(after[0] == ' ');
            assert(text[0] == tok[0]);
            assert(!is_space(text[0]));
            lemma_token_prefix_of(tok, after);
            assert(token_prefix(text) == tok);
            assert(text.skip(tok.len() as int) =~= after);
            assert(spec_tokens(text) == seq![tok] + spec_tokens(after));
            assert(after[0] == ' ' && is_space(after[0]));
            assert(spec_tokens(after) == spec_tokens(after.skip(1)));
            assert(after.skip(1) =~= rest_text);
            assert(spec_tokens(text) == seq![tok] + spec_tokens(rest_text));
            assert(parse_tokens(spec_tokens(rest_text)) == Ok::<Seq<Move>, Seq<char>>(ms.skip(1)));
            assert(parse_tokens(seq![tok] + spec_tokens(rest_text)) == Ok::<Seq<Move>, Seq<char>>(
                ms,
            )) by {
                let full = seq![tok] + spec_tokens(rest_text);
                assert(full[0] == tok);
                assert(full.skip(1) =~= spec_tokens(rest_text));
                assert(seq![ms[0]] + ms.skip(1) =~= ms);
            }
        }
    }
}

/// Parsing one more recognized token appends its move to the prefix.
proof fn lemma_continue_parse_step(done: Seq<Move>, m: Move, tok: Seq<char>, ts: Seq<Seq<char>>)
    requires
        spec_parse_move(tok) == Some(m),
    ensures
        continue_parse(done, parse_tokens(seq![tok] + ts)) == continue_parse(
            done + seq![m],
            parse_tokens(ts),
        ),
{
    let full = seq![tok] + ts;
    assert(full[0] == tok);
    assert(full.skip(1) =~= ts);
    match parse_tokens(ts) {
        Ok(rest) => {
            assert(done + (seq![m] + rest) =~= (done + seq![m]) + rest);
        },
        Err(e) => {},
    }
}

} // verus!
