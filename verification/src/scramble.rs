//! Generating valid scrambles.

use vstd::prelude::*;

use crate::move_gen::MoveGen;
use crate::move_gen::all_moves;
use crate::move_gen::gen_after;
use crate::move_gen::gen_allows;
use crate::move_gen::initial_gen;
use crate::move_gen::lemma_move_index;
use crate::move_gen::lemma_next_allowed;
use crate::move_gen::move_index;
use crate::move_gen::next_allowed;
use crate::moves::Algo;
use crate::moves::Move;
use crate::moves::algo_applied;
use crate::moves::lemma_move_reversible;
use crate::moves::move_applied;
use crate::solve::gen_path_ok;
use crate::state::State;
use crate::state::Sticker;
use crate::state::solved_seq;
use crate::state::spec_locked;

verus! {

/// Relies on rand::random: a uniformly random 64-bit value; nothing is
/// assumed of it.
#[verifier::external_body]
fn random_u64() -> u64 {
    rand::random::<u64>()
}

/// Whether some sequence of exactly `n` moves from this position respects
/// both the lock predicate and the generator's ordering rule.
pub open spec fn exists_scramble(s: Seq<Sticker>, n: int, g: MoveGen) -> bool {
    exists|ms: Seq<Move>| #[trigger] gen_path_ok(s, ms, g) && ms.len() == n
}

/// Produce a scramble of the given number of moves: a random sequence that
/// the move generator admits and that turns no locked face. The backtracking
/// is exhaustive, so `None` comes exactly when no such sequence exists; that
/// a sequence exists for every length is plausible but not established here,
/// so callers must handle `None`.
pub fn scramble(moves: usize) -> (r: Option<Algo>)
    ensures
        (r is Some) == exists_scramble(solved_seq(), moves as int, initial_gen()),
        r matches Some(a) ==> a@.len() == moves && gen_path_ok(solved_seq(), a@, initial_gen()),
{
    let mut state = State::solved();
    let mut history: Vec<Move> = Vec::new();
    if scramble_search(&mut state, moves, &mut history, MoveGen::new()) {
        proof {
            assert(history@.skip(0) =~= history@);
        }
        Some(Algo(history))
    } else {
        None
    }
}

/// The recursive backtracking behind `scramble`: try the admitted, unlocked
/// moves in random order until one of them extends to a full scramble.
fn scramble_search(state: &mut State, moves: usize, history: &mut Vec<Move>, g: MoveGen) -> (r:
    bool)
    ensures
        r == exists_scramble(old(state)@, moves as int, g),
        r ==> final(history)@.len() >= old(history)@.len() && final(history)@.take(
            old(history)@.len() as int,
        ) == old(history)@ && ({
            let suffix = final(history)@.skip(old(history)@.len() as int);
            &&& gen_path_ok(old(state)@, suffix, g)
            &&& final(state)@ == algo_applied(old(state)@, suffix)
            &&& suffix.len() == moves
        }),
        !r ==> final(history)@ == old(history)@ && final(state)@ == old(state)@,
    decreases moves, 1int,
{
    if moves == 0 {
        proof {
            assert(history@.skip(history@.len() as int) =~= Seq::<Move>::empty());
            assert(history@.take(history@.len() as int) =~= history@);
            assert(gen_path_ok(state@, Seq::<Move>::empty(), g));
        }
        return true;
    }
    let mut options: Vec<(MoveGen, Move)> = Vec::new();
    let mut it = g.iter();
    loop
        invariant
            it.state == g,
            it.idx <= 18,
            moves >= 1,
            state@ == old(state)@,
            history@ == old(history)@,
            forall|p: int|
                0 <= p < options@.len() ==> gen_allows(g, (#[trigger] options@[p]).1.face)
                    && options@[p].0 == gen_after(options@[p].1.face),
            forall|k: int|
                0 <= k < it.idx && gen_allows(g, (#[trigger] all_moves()[k]).face) ==> exists|
                    p: int,
                |
                    0 <= p < options@.len() && (#[trigger] options@[p]) == (
                        gen_after(all_moves()[k].face),
                        all_moves()[k],
                    ),
        decreases 18 - it.idx,
    {
        let ghost idx0 = it.idx as int;
        let ghost prev_options = options@;
        proof {
            lemma_next_allowed(g, idx0);
        }
        match it.next() {
            None => {
                proof {
                    assert forall|k: int|
                        0 <= k < 18 && gen_allows(g, (#[trigger] all_moves()[k]).face) implies
                        exists|p: int|
                            0 <= p < options@.len() && (#[trigger] options@[p]) == (
                                gen_after(all_moves()[k].face),
                                all_moves()[k],
                            ) by {}
                }
                return scramble_from_options(state, moves, history, g, options);
            },
            Some(pair) => {
                options.push(pair);
                proof {
                    let k = next_allowed(g, idx0);
                    assert forall|j: int|
                        0 <= j < it.idx && gen_allows(g, (#[trigger] all_moves()[j]).face) implies
                        exists|p: int|
                            0 <= p < options@.len() && (#[trigger] options@[p]) == (
                                gen_after(all_moves()[j].face),
                                all_moves()[j],
                            ) by {
                        if j == k {
                            assert(options@[options@.len() - 1] == (
                                gen_after(all_moves()[j].face),
                                all_moves()[j],
                            ));
                        } else if j < idx0 {
                            let p = choose|p: int|
                                0 <= p < prev_options.len() && (#[trigger] prev_options[p]) == (
                                    gen_after(all_moves()[j].face),
                                    all_moves()[j],
                                );
                            assert(options@[p] == prev_options[p]);
                        }
                    }
                }
            },
        }
    }
}

/// An element other than the removed one stays in the list.
proof fn lemma_remove_keeps(s: Seq<(MoveGen, Move)>, idx: int, x: (MoveGen, Move), p: int)
    requires
        0 <= idx < s.len(),
        0 <= p < s.len(),
        s[p] == x,
        p != idx,
    ensures
        exists|q: int| 0 <= q < s.remove(idx).len() && (#[trigger] s.remove(idx)[q]) == x,
{
    if p < idx {
        assert(s.remove(idx)[p] == x);
    } else {
        assert(s.remove(idx)[p - 1] == x);
    }
}

/// Pick options at random, apply them, and recurse; undo a move whose branch
/// fails. The options must come from the generator `g` and cover every move
/// it admits.
fn scramble_from_options(
    state: &mut State,
    moves: usize,
    history: &mut Vec<Move>,
    g: MoveGen,
    options: Vec<(MoveGen, Move)>,
) -> (r: bool)
    requires
        moves >= 1,
        forall|p: int|
            0 <= p < options@.len() ==> gen_allows(g, (#[trigger] options@[p]).1.face)
                && options@[p].0 == gen_after(options@[p].1.face),
        forall|k: int|
            0 <= k < 18 && gen_allows(g, (#[trigger] all_moves()[k]).face) ==> exists|p: int|
                0 <= p < options@.len() && (#[trigger] options@[p]) == (
                    gen_after(all_moves()[k].face),
                    all_moves()[k],
                ),
    ensures
        r == exists_scramble(old(state)@, moves as int, g),
        r ==> final(history)@.len() >= old(history)@.len() && final(history)@.take(
            old(history)@.len() as int,
        ) == old(history)@ && ({
            let suffix = final(history)@.skip(old(history)@.len() as int);
            &&& gen_path_ok(old(state)@, suffix, g)
            &&& final(state)@ == algo_applied(old(state)@, suffix)
            &&& suffix.len() == moves
        }),
        !r ==> final(history)@ == old(history)@ && final(state)@ == old(state)@,
    decreases moves, 0int,
{
    let mut options = options;
    while options.len() > 0
        invariant
            moves >= 1,
            history@ == old(history)@,
            state@ == old(state)@,
            forall|p: int|
                0 <= p < options@.len() ==> gen_allows(g, (#[trigger] options@[p]).1.face)
                    && options@[p].0 == gen_after(options@[p].1.face),
            forall|k: int|
                0 <= k < 18 && gen_allows(g, (#[trigger] all_moves()[k]).face) ==> (exists|p: int|
                    0 <= p < options@.len() && (#[trigger] options@[p]) == (
                        gen_after(all_moves()[k].face),
                        all_moves()[k],
                    )) || spec_locked(old(state)@, all_moves()[k].face) || !exists_scramble(
                    move_applied(old(state)@, all_moves()[k]),
                    moves - 1,
                    gen_after(all_moves()[k].face),
                ),
        decreases options@.len(),
    {
        let idx = (random_u64() % (options.len() as u64)) as usize;
        let ghost prev_options = options@;
        let picked = options.remove(idx);
        let next_gen = picked.0;
        let m = picked.1;
        let locked = state.is_locked(m.face);
        if !locked {
            m.apply(state);
            let ghost mid = state@;
            let ghost len0 = history@.len() as int;
            history.push(m);
            let ghost pushed = history@;
            if scramble_search(state, moves - 1, history, next_gen) {
                proof {
                    let suffix = history@.skip(len0);
                    let child = history@.skip(len0 + 1);
                    assert(history@.take(len0 + 1) == pushed);
                    assert(history@.take(len0 + 1).take(len0) =~= history@.take(len0));
                    assert(history@.take(len0) =~= old(history)@);
                    assert(history@[len0] == history@.take(len0 + 1)[len0]);
                    assert(history@[len0] == m);
                    assert(suffix[0] == m);
                    assert(suffix.skip(1) =~= child);
                    assert(algo_applied(old(state)@, suffix) == algo_applied(mid, child));
                    assert(gen_path_ok(old(state)@, suffix, g));
                }
                return true;
            }
            let _ = history.pop();
            m.inverse().apply(state);
            proof {
                assert(history@ =~= old(history)@);
                lemma_move_reversible(old(state)@, m);
            }
        }
        proof {
            assert forall|k: int|
                0 <= k < 18 && gen_allows(g, (#[trigger] all_moves()[k]).face) implies (exists|
                p: int,
            |
                0 <= p < options@.len() && (#[trigger] options@[p]) == (
                    gen_after(all_moves()[k].face),
                    all_moves()[k],
                )) || spec_locked(old(state)@, all_moves()[k].face) || !exists_scramble(
                move_applied(old(state)@, all_moves()[k]),
                moves - 1,
                gen_after(all_moves()[k].face),
            ) by {
                let pair = (gen_after(all_moves()[k].face), all_moves()[k]);
                if all_moves()[k] != m {
                    if exists|p: int|
                        0 <= p < prev_options.len() && (#[trigger] prev_options[p]) == pair {
                        let p = choose|p: int|
                            0 <= p < prev_options.len() && (#[trigger] prev_options[p]) == pair;
                        assert(prev_options[idx as int].1 == m);
                        assert(p != idx as int);
                        lemma_remove_keeps(prev_options, idx as int, pair, p);
                    }
                }
            }
        }
    }
    proof {
        if exists_scramble(old(state)@, moves as int, g) {
            let ms = choose|ms: Seq<Move>|
                #[trigger] gen_path_ok(old(state)@, ms, g) && ms.len() == moves as int;
            let m0 = ms[0];
            lemma_move_index(m0);
            let k = move_index(m0);
            assert(gen_allows(g, all_moves()[k].face));
            assert(!spec_locked(old(state)@, all_moves()[k].face));
            assert(gen_path_ok(move_applied(old(state)@, m0), ms.skip(1), gen_after(m0.face)));
            assert(exists_scramble(
                move_applied(old(state)@, all_moves()[k]),
                moves - 1,
                gen_after(all_moves()[k].face),
            ));
        }
    }
    false
}

} // verus!
