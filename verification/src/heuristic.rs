//! Abstractions for search heuristics.

use core::marker::PhantomData;
use std::collections::HashMap;
use std::collections::VecDeque;

use vstd::prelude::*;

use crate::move_gen::MoveGen;
use crate::move_gen::all_moves;
use crate::move_gen::gen_allows;
use crate::move_gen::initial_gen;
use crate::moves::Move;
use crate::moves::algo_applied;
use crate::moves::lemma_algo_applied_push;
use crate::moves::move_applied;
use crate::proj::KeyProj;
use crate::solve::end_gen;
use crate::solve::gen_path_ok;
use crate::solve::lemma_gen_path_push;
use crate::state::State;
use crate::state::Sticker;
use crate::state::solved_seq;
use crate::state::spec_locked;

verus! {

/// A lower bound on the number of moves needed to achieve a certain goal.
///
/// The bound is a pure function of the sticker configuration, which is what
/// makes a search that consults it deterministic.
pub trait Heuristic: Sized {
    /// The bound as a mathematical function of the configuration.
    spec fn spec_lower_bound(&self, s: Seq<Sticker>) -> u8;

    /// Compute the bound for a state.
    fn lower_bound(&self, s: &State) -> (r: u8)
        ensures
            r == self.spec_lower_bound(s@),
    ;
}

/// A heuristic that always returns 0.
pub struct NopHeuristic();

impl Heuristic for NopHeuristic {
    open spec fn spec_lower_bound(&self, s: Seq<Sticker>) -> u8 {
        0
    }

    fn lower_bound(&self, s: &State) -> (r: u8) {
        0
    }
}

/// The largest bound any element of a list of heuristics gives, or 0 for an
/// empty list.
pub open spec fn max_lower_bound<T: Heuristic>(hs: Seq<T>, s: Seq<Sticker>) -> u8
    decreases hs.len(),
{
    if hs.len() == 0 {
        0
    } else {
        let rest = max_lower_bound(hs.drop_last(), s);
        let last = hs.last().spec_lower_bound(s);
        if last > rest {
            last
        } else {
            rest
        }
    }
}

/// A heuristic that takes the maximum over other heuristics.
pub struct MaxHeuristic<T: Heuristic>(pub Vec<T>);

impl<T: Heuristic> Heuristic for MaxHeuristic<T> {
    open spec fn spec_lower_bound(&self, s: Seq<Sticker>) -> u8 {
        max_lower_bound(self.0@, s)
    }

    fn lower_bound(&self, s: &State) -> (r: u8) {
        let mut res: u8 = 0;
        let mut i: usize = 0;
        while i < self.0.len()
            invariant
                i <= self.0@.len(),
                res == max_lower_bound(self.0@.take(i as int), s@),
            decreases self.0@.len() - i,
        {
            proof {
                assert(self.0@.take(i + 1).drop_last() =~= self.0@.take(i as int));
                assert(self.0@.take(i + 1).last() == self.0@[i as int]);
            }
            let bound = self.0[i].lower_bound(s);
            if bound > res {
                res = bound;
            }
            i += 1;
        }
        proof {
            assert(self.0@.take(self.0@.len() as int) =~= self.0@);
        }
        res
    }
}

/// What it means for a breadth-first work item to sit at distance `n`: some
/// admitted, lock-respecting move sequence of length `n` leads from the
/// solved state to its state, and its generator is the one in force after
/// that sequence.
pub open spec fn scan_entry(e: (MoveGen, State), n: int) -> bool {
    exists|ms: Seq<Move>|
        #[trigger] gen_path_ok(solved_seq(), ms, initial_gen()) && ms.len() == n && algo_applied(
            solved_seq(),
            ms,
        ) == e.1@ && e.0 == end_gen(initial_gen(), ms)
}

/// The projection key of a work item's state.
pub open spec fn entry_key<T: KeyProj>(e: (MoveGen, State)) -> u128 {
    T::spec_project(e.1@).spec_key()
}

/// Whether the table accounts for every successor of one work item: each
/// move its generator admits on an unlocked face leads to a state whose
/// projection key is recorded, at distance `bound` at most.
pub open spec fn entry_closed<T: KeyProj>(
    table: Map<u128, u8>,
    e: (MoveGen, State),
    bound: int,
) -> bool {
    forall|mk: int|
        0 <= mk < 18 && gen_allows(e.0, (#[trigger] all_moves()[mk]).face) && !spec_locked(
            e.1@,
            all_moves()[mk].face,
        ) ==> table.contains_key(T::spec_project(move_applied(e.1@, all_moves()[mk])).spec_key())
            && table[T::spec_project(move_applied(e.1@, all_moves()[mk])).spec_key()] <= bound
}

/// Every recorded key has a representative work item reaching it at its
/// recorded distance.
pub open spec fn reps_ok<T: KeyProj>(
    table: Map<u128, u8>,
    rep: Map<u128, (MoveGen, State)>,
) -> bool {
    forall|k: u128| #[trigger]
        table.contains_key(k) ==> rep.contains_key(k) && entry_key::<T>(rep[k]) == k && scan_entry(
            rep[k],
            table[k] as int,
        )
}

/// The breadth-first closure of a finished table: every key has a
/// representative that reaches it at its recorded distance, and the
/// representative of every key short of the depth has each of its admitted,
/// unlocked successors recorded, at most one step further away. This is what
/// forces the layerwise exploration: a table cannot stop before the depth
/// while a representative still has an unrecorded successor.
pub open spec fn bfs_closure<T: KeyProj>(
    table: Map<u128, u8>,
    rep: Map<u128, (MoveGen, State)>,
    depth: u8,
) -> bool {
    &&& reps_ok::<T>(table, rep)
    &&& forall|k: u128| #[trigger]
        table.contains_key(k) && table[k] < depth ==> entry_closed::<T>(
            table,
            rep[k],
            table[k] + 1,
        )
}

/// Growing a table while keeping recorded distances keeps an item closed.
proof fn lemma_entry_closed_grow<T: KeyProj>(
    t1: Map<u128, u8>,
    t2: Map<u128, u8>,
    e: (MoveGen, State),
    bound: int,
)
    requires
        entry_closed::<T>(t1, e, bound),
        forall|sk: u128| #[trigger] t1.contains_key(sk) ==> t2.contains_key(sk) && t2[sk] == t1[sk],
    ensures
        entry_closed::<T>(t2, e, bound),
{
}

/// What it means for a table key to sit at distance `n`: some admitted,
/// lock-respecting move sequence of length `n` leads from the solved state
/// to a state with that projection key.
pub open spec fn key_reached<T: KeyProj>(k: u128, n: int) -> bool {
    exists|ms: Seq<Move>|
        #[trigger] gen_path_ok(solved_seq(), ms, initial_gen()) && ms.len() == n
            && T::spec_project(algo_applied(solved_seq(), ms)).spec_key() == k
}

/// Exhibit a witness sequence for a work item.
proof fn lemma_scan_entry_intro(e: (MoveGen, State), n: int, ms: Seq<Move>)
    requires
        gen_path_ok(solved_seq(), ms, initial_gen()),
        ms.len() == n,
        algo_applied(solved_seq(), ms) == e.1@,
        e.0 == end_gen(initial_gen(), ms),
    ensures
        scan_entry(e, n),
{
}

/// Exhibit a witness sequence for a table key.
proof fn lemma_key_reached_intro<T: KeyProj>(k: u128, n: int, ms: Seq<Move>)
    requires
        gen_path_ok(solved_seq(), ms, initial_gen()),
        ms.len() == n,
        T::spec_project(algo_applied(solved_seq(), ms)).spec_key() == k,
    ensures
        key_reached::<T>(k, n),
{
}

/// A heuristic that looks distances up in a precomputed table of packed
/// projection keys.
pub struct ProjHeuristic<T: KeyProj> {
    pub table: HashMap<u128, u8>,
    pub default: u8,
    pub projection: PhantomData<T>,
}

/// What `generate` builds at a given depth: the solved state's projection is
/// recorded at distance 0, every recorded distance is at most the depth and
/// witnessed by an admitted, lock-respecting move sequence of that length
/// from the solved state, an absent projection is reported as one beyond the
/// depth, and some assignment of representatives closes the table under
/// expansion below the depth.
pub open spec fn generated_table<T: KeyProj>(h: ProjHeuristic<T>, depth: u8) -> bool {
    &&& h.default == depth + 1
    &&& h.table@.contains_key(T::spec_project(solved_seq()).spec_key())
    &&& h.table@[T::spec_project(solved_seq()).spec_key()] == 0
    &&& forall|k: u128| #[trigger]
        h.table@.contains_key(k) ==> h.table@[k] <= depth && key_reached::<T>(
            k,
            h.table@[k] as int,
        )
    &&& exists|rep: Map<u128, (MoveGen, State)>| #[trigger] bfs_closure::<T>(h.table@, rep, depth)
}

impl<T: KeyProj> ProjHeuristic<T> {
    /// Build a distance table by a breadth-first expansion over projections:
    /// layer by layer up to the given depth, every newly seen projection is
    /// recorded with the number of moves that produced it. States expand
    /// through the move generator and skip locked faces, so every recorded
    /// distance is witnessed by an admitted, lock-respecting move sequence
    /// of that length from the solved state. The solved state's projection
    /// sits at distance 0, every recorded distance is at most the depth, and
    /// an absent projection is reported as one beyond it.
    #[verifier::rlimit(100)]
    pub fn generate(depth: u8) -> (r: Self)
        requires
            depth < 255,
        ensures
            generated_table(r, depth),
    {
        let start = State::solved();
        let mut table: HashMap<u128, u8> = HashMap::new();
        let mut states: VecDeque<(MoveGen, State)> = VecDeque::new();
        let p = T::project(&start);
        table.insert(p.key(), 0);
        states.push_back((MoveGen::new(), start));
        let ghost skey = T::spec_project(solved_seq()).spec_key();
        let ghost mut rep: Map<u128, (MoveGen, State)> = Map::empty().insert(
            skey,
            (initial_gen(), start),
        );
        proof {
            lemma_key_reached_intro::<T>(skey, 0, Seq::empty());
            lemma_scan_entry_intro((initial_gen(), start), 0, Seq::empty());
            assert(states@.len() == 1);
            assert(states@[0] == (initial_gen(), start));
            assert(rep[skey] == (initial_gen(), start));
            assert(entry_key::<T>((initial_gen(), start)) == skey);
        }
        let mut i: u8 = 0;
        while i < depth
            invariant
                i <= depth,
                depth < 255,
                table@.contains_key(skey),
                table@[skey] == 0,
                forall|k: u128| #[trigger]
                    table@.contains_key(k) ==> table@[k] <= i && key_reached::<T>(
                        k,
                        table@[k] as int,
                    ),
                reps_ok::<T>(table@, rep),
                forall|k: u128| #[trigger]
                    table@.contains_key(k) && table@[k] == i ==> exists|q: int|
                        0 <= q < states@.len() && #[trigger] states@[q] == rep[k],
                forall|q: int|
                    0 <= q < states@.len() ==> table@.contains_key(
                        entry_key::<T>(#[trigger] states@[q]),
                    ) && table@[entry_key::<T>(states@[q])] == i && rep[entry_key::<T>(
                        states@[q],
                    )] == states@[q],
                forall|k: u128| #[trigger]
                    table@.contains_key(k) && table@[k] < i ==> entry_closed::<T>(
                        table@,
                        rep[k],
                        table@[k] + 1,
                    ),
            ensures
                table@.contains_key(skey),
                table@[skey] == 0,
                forall|k: u128| #[trigger]
                    table@.contains_key(k) ==> table@[k] <= depth && key_reached::<T>(
                        k,
                        table@[k] as int,
                    ),
                bfs_closure::<T>(table@, rep, depth),
            decreases depth - i,
        {
            let pop_size = states.len();
            if pop_size == 0 {
                proof {
                    assert forall|k: u128| #[trigger]
                        table@.contains_key(k) && table@[k] < depth implies entry_closed::<T>(
                        table@,
                        rep[k],
                        table@[k] + 1,
                    ) by {
                        if table@[k] == i {
                            let q = choose|q: int|
                                0 <= q < states@.len() && #[trigger] states@[q] == rep[k];
                        }
                    }
                }
                break;
            }
            let mut j: usize = 0;
            while j < pop_size
                invariant
                    j <= pop_size,
                    states.len() >= pop_size - j,
                    i < depth,
                    depth < 255,
                    table@.contains_key(skey),
                    table@[skey] == 0,
                    forall|k: u128| #[trigger]
                        table@.contains_key(k) ==> table@[k] <= i + 1 && key_reached::<T>(
                            k,
                            table@[k] as int,
                        ),
                    reps_ok::<T>(table@, rep),
                    forall|k: u128| #[trigger]
                        table@.contains_key(k) && table@[k] < i ==> entry_closed::<T>(
                            table@,
                            rep[k],
                            table@[k] + 1,
                        ),
                    forall|k: u128| #[trigger]
                        table@.contains_key(k) && table@[k] == i ==> (exists|q: int|
                            0 <= q < pop_size - j && #[trigger] states@[q] == rep[k])
                            || entry_closed::<T>(table@, rep[k], i + 1),
                    forall|q: int|
                        0 <= q < pop_size - j ==> table@.contains_key(
                            entry_key::<T>(#[trigger] states@[q]),
                        ) && table@[entry_key::<T>(states@[q])] == i && rep[entry_key::<T>(
                            states@[q],
                        )] == states@[q],
                    forall|q: int|
                        pop_size - j <= q < states@.len() ==> table@.contains_key(
                            entry_key::<T>(#[trigger] states@[q]),
                        ) && table@[entry_key::<T>(states@[q])] == i + 1 && rep[entry_key::<T>(
                            states@[q],
                        )] == states@[q],
                    forall|k: u128| #[trigger]
                        table@.contains_key(k) && table@[k] == i + 1 ==> exists|q: int|
                            pop_size - j <= q < states@.len() && #[trigger] states@[q] == rep[k],
                decreases pop_size - j,
            {
                let ghost before_pop = states@;
                let popped = states.pop_front().unwrap();
                let moves = popped.0;
                let state = popped.1;
                let ghost k0 = entry_key::<T>((moves, state));
                proof {
                    assert(before_pop[0] == (moves, state));
                    assert(table@.contains_key(k0) && table@[k0] == i && rep[k0] == (
                        moves,
                        state,
                    ));
                    assert(scan_entry((moves, state), i as int));
                    assert forall|q: int|
                        0 <= q < pop_size - j - 1 implies table@.contains_key(
                        entry_key::<T>(#[trigger] states@[q]),
                    ) && table@[entry_key::<T>(states@[q])] == i && rep[entry_key::<T>(
                        states@[q],
                    )] == states@[q] by {
                        assert(states@[q] == before_pop[q + 1]);
                    }
                    assert forall|q: int|
                        pop_size - j - 1 <= q < states@.len() implies table@.contains_key(
                        entry_key::<T>(#[trigger] states@[q]),
                    ) && table@[entry_key::<T>(states@[q])] == i + 1 && rep[entry_key::<T>(
                        states@[q],
                    )] == states@[q] by {
                        assert(states@[q] == before_pop[q + 1]);
                    }
                    assert forall|k: u128| #[trigger]
                        table@.contains_key(k) && table@[k] == i && k != k0 implies (exists|q: int|
                        0 <= q < pop_size - j - 1 && #[trigger] states@[q] == rep[k])
                        || entry_closed::<T>(table@, rep[k], i + 1) by {
                        if exists|q: int|
                            0 <= q < pop_size - j && #[trigger] before_pop[q] == rep[k] {
                            let q = choose|q: int|
                                0 <= q < pop_size - j && #[trigger] before_pop[q] == rep[k];
                            if q == 0 {
                                assert(rep[k] == (moves, state));
                                assert(entry_key::<T>(rep[k]) == k);
                            } else {
                                assert(states@[q - 1] == before_pop[q]);
                            }
                        }
                    }
                    assert forall|k: u128| #[trigger]
                        table@.contains_key(k) && table@[k] == i + 1 implies exists|q: int|
                        pop_size - j - 1 <= q < states@.len() && #[trigger] states@[q] == rep[
                        k] by {
                        let q = choose|q: int|
                            pop_size - j <= q < before_pop.len() && #[trigger] before_pop[q]
                                == rep[k];
                        assert(states@[q - 1] == before_pop[q]);
                    }
                }
                let mut it = moves.iter();
                loop
                    invariant
                        it.idx <= 18,
                        it.state == moves,
                        j < pop_size,
                        states.len() >= pop_size - j - 1,
                        i < depth,
                        depth < 255,
                        k0 == entry_key::<T>((moves, state)),
                        table@.contains_key(k0),
                        table@[k0] == i,
                        rep[k0] == (moves, state),
                        scan_entry((moves, state), i as int),
                        table@.contains_key(skey),
                        table@[skey] == 0,
                        forall|k: u128| #[trigger]
                            table@.contains_key(k) ==> table@[k] <= i + 1 && key_reached::<T>(
                                k,
                                table@[k] as int,
                            ),
                        reps_ok::<T>(table@, rep),
                        forall|k: u128| #[trigger]
                            table@.contains_key(k) && table@[k] < i ==> entry_closed::<T>(
                                table@,
                                rep[k],
                                table@[k] + 1,
                            ),
                        forall|mk: int|
                            0 <= mk < it.idx && gen_allows(
                                moves,
                                (#[trigger] all_moves()[mk]).face,
                            ) && !spec_locked(state@, all_moves()[mk].face)
                                ==> table@.contains_key(
                                T::spec_project(
                                    move_applied(state@, all_moves()[mk]),
                                ).spec_key(),
                            ) && table@[T::spec_project(
                                move_applied(state@, all_moves()[mk]),
                            ).spec_key()] <= i + 1,
                        forall|k: u128| #[trigger]
                            table@.contains_key(k) && table@[k] == i ==> k == k0 || (exists|q: int|
                                0 <= q < pop_size - j - 1 && #[trigger] states@[q] == rep[k])
                                || entry_closed::<T>(table@, rep[k], i + 1),
                        forall|q: int|
                            0 <= q < pop_size - j - 1 ==> table@.contains_key(
                                entry_key::<T>(#[trigger] states@[q]),
                            ) && table@[entry_key::<T>(states@[q])] == i && rep[entry_key::<T>(
                                states@[q],
                            )] == states@[q],
                        forall|q: int|
                            pop_size - j - 1 <= q < states@.len() ==> table@.contains_key(
                                entry_key::<T>(#[trigger] states@[q]),
                            ) && table@[entry_key::<T>(states@[q])] == i + 1 && rep[entry_key::<
                                T,
                            >(states@[q])] == states@[q],
                        forall|k: u128| #[trigger]
                            table@.contains_key(k) && table@[k] == i + 1 ==> exists|q: int|
                                pop_size - j - 1 <= q < states@.len() && #[trigger] states@[q]
                                    == rep[k],
                    ensures
                        states.len() >= pop_size - j - 1,
                        table@.contains_key(skey),
                        table@[skey] == 0,
                        forall|k: u128| #[trigger]
                            table@.contains_key(k) ==> table@[k] <= i + 1 && key_reached::<T>(
                                k,
                                table@[k] as int,
                            ),
                        reps_ok::<T>(table@, rep),
                        forall|k: u128| #[trigger]
                            table@.contains_key(k) && table@[k] < i ==> entry_closed::<T>(
                                table@,
                                rep[k],
                                table@[k] + 1,
                            ),
                        table@.contains_key(k0),
                        table@[k0] == i,
                        rep[k0] == (moves, state),
                        entry_closed::<T>(table@, (moves, state), i + 1),
                        forall|k: u128| #[trigger]
                            table@.contains_key(k) && table@[k] == i ==> k == k0 || (exists|q: int|
                                0 <= q < pop_size - j - 1 && #[trigger] states@[q] == rep[k])
                                || entry_closed::<T>(table@, rep[k], i + 1),
                        forall|q: int|
                            0 <= q < pop_size - j - 1 ==> table@.contains_key(
                                entry_key::<T>(#[trigger] states@[q]),
                            ) && table@[entry_key::<T>(states@[q])] == i && rep[entry_key::<T>(
                                states@[q],
                            )] == states@[q],
                        forall|q: int|
                            pop_size - j - 1 <= q < states@.len() ==> table@.contains_key(
                                entry_key::<T>(#[trigger] states@[q]),
                            ) && table@[entry_key::<T>(states@[q])] == i + 1 && rep[entry_key::<
                                T,
                            >(states@[q])] == states@[q],
                        forall|k: u128| #[trigger]
                            table@.contains_key(k) && table@[k] == i + 1 ==> exists|q: int|
                                pop_size - j - 1 <= q < states@.len() && #[trigger] states@[q]
                                    == rep[k],
                    decreases 18 - it.idx,
                {
                    let ghost idx0 = it.idx as int;
                    proof {
                        crate::move_gen::lemma_next_allowed(it.state, idx0);
                    }
                    match it.next() {
                        None => {
                            proof {
                                assert forall|mk: int|
                                    0 <= mk < 18 && gen_allows(
                                        (moves, state).0,
                                        (#[trigger] all_moves()[mk]).face,
                                    ) && !spec_locked(
                                        (moves, state).1@,
                                        all_moves()[mk].face,
                                    ) implies table@.contains_key(
                                    T::spec_project(
                                        move_applied((moves, state).1@, all_moves()[mk]),
                                    ).spec_key(),
                                ) && table@[T::spec_project(
                                    move_applied((moves, state).1@, all_moves()[mk]),
                                ).spec_key()] <= i + 1 by {}
                                assert(entry_closed::<T>(table@, (moves, state), i + 1));
                            }
                            break;
                        },
                        Some((new_moves, m)) => {
                            let ghost mk = crate::move_gen::next_allowed(moves, idx0);
                            if !state.is_locked(m.face) {
                                let mut new_state = state;
                                m.apply(&mut new_state);
                                let proj = T::project(&new_state);
                                let key = proj.key();
                                let ghost ms0 = choose|ms: Seq<Move>|
                                    #[trigger] gen_path_ok(solved_seq(), ms, initial_gen())
                                        && ms.len() == i as int && algo_applied(solved_seq(), ms)
                                        == state@ && moves == end_gen(initial_gen(), ms);
                                proof {
                                    lemma_gen_path_push(solved_seq(), ms0, initial_gen(), m);
                                    lemma_algo_applied_push(solved_seq(), ms0, m);
                                    assert(ms0.push(m).last() == m);
                                    assert(ms0.push(m).len() == i + 1);
                                }
                                if !table.contains_key(&key) {
                                    let ghost prev_table = table@;
                                    let ghost prev_rep = rep;
                                    proof {
                                        lemma_key_reached_intro::<T>(key, i + 1, ms0.push(m));
                                        lemma_scan_entry_intro(
                                            (new_moves, new_state),
                                            i + 1,
                                            ms0.push(m),
                                        );
                                        rep = rep.insert(key, (new_moves, new_state));
                                    }
                                    table.insert(key, i + 1);
                                    let ghost prev_states = states@;
                                    states.push_back((new_moves, new_state));
                                    proof {
                                        assert(states@ == prev_states.push(
                                            (new_moves, new_state),
                                        ));
                                        assert(table@ == prev_table.insert(key, (i + 1) as u8));
                                        assert forall|k: u128| #[trigger]
                                            table@.contains_key(k) && table@[k] < i implies
                                            entry_closed::<T>(
                                            table@,
                                            rep[k],
                                            table@[k] + 1,
                                        ) by {
                                            assert(k != key);
                                            assert(rep[k] == prev_rep[k]);
                                            lemma_entry_closed_grow::<T>(
                                                prev_table,
                                                table@,
                                                rep[k],
                                                table@[k] + 1,
                                            );
                                        }
                                        assert forall|k: u128| #[trigger]
                                            table@.contains_key(k) && table@[k] == i implies k
                                            == k0 || (exists|q: int|
                                            0 <= q < pop_size - j - 1 && #[trigger] states@[q]
                                                == rep[k]) || entry_closed::<T>(
                                            table@,
                                            rep[k],
                                            i + 1,
                                        ) by {
                                            assert(k != key);
                                            assert(rep[k] == prev_rep[k]);
                                            if k != k0 {
                                                if exists|q: int|
                                                    0 <= q < pop_size - j - 1
                                                        && #[trigger] prev_states[q] == prev_rep[
                                                        k] {
                                                    let q = choose|q: int|
                                                        0 <= q < pop_size - j - 1
                                                            && #[trigger] prev_states[q]
                                                            == prev_rep[k];
                                                    assert(states@[q] == prev_states[q]);
                                                } else if entry_closed::<T>(
                                                    prev_table,
                                                    prev_rep[k],
                                                    i + 1,
                                                ) {
                                                    lemma_entry_closed_grow::<T>(
                                                        prev_table,
                                                        table@,
                                                        rep[k],
                                                        i + 1,
                                                    );
                                                }
                                            }
                                        }
                                        assert forall|q: int|
                                            0 <= q < pop_size - j - 1 implies table@.contains_key(
                                            entry_key::<T>(#[trigger] states@[q]),
                                        ) && table@[entry_key::<T>(states@[q])] == i
                                            && rep[entry_key::<T>(states@[q])] == states@[q] by {
                                            assert(states@[q] == prev_states[q]);
                                            assert(entry_key::<T>(states@[q]) != key);
                                        }
                                        assert forall|q: int|
                                            pop_size - j - 1 <= q < states@.len() implies table@
                                            .contains_key(entry_key::<T>(#[trigger] states@[q]))
                                            && table@[entry_key::<T>(states@[q])] == i + 1 && rep[
                                            entry_key::<T>(states@[q])] == states@[q] by {
                                            if q < prev_states.len() {
                                                assert(states@[q] == prev_states[q]);
                                                assert(entry_key::<T>(states@[q]) != key);
                                            } else {
                                                assert(states@[q] == (new_moves, new_state));
                                                assert(entry_key::<T>((new_moves, new_state))
                                                    == key);
                                            }
                                        }
                                        assert forall|k: u128| #[trigger]
                                            table@.contains_key(k) && table@[k] == i + 1 implies
                                            exists|q: int|
                                            pop_size - j - 1 <= q < states@.len()
                                                && #[trigger] states@[q] == rep[k] by {
                                            if k == key {
                                                assert(states@[states@.len() - 1] == rep[k]);
                                            } else {
                                                assert(rep[k] == prev_rep[k]);
                                                let q = choose|q: int|
                                                    pop_size - j - 1 <= q < prev_states.len()
                                                        && #[trigger] prev_states[q] == prev_rep[
                                                        k];
                                                assert(states@[q] == prev_states[q]);
                                            }
                                        }
                                    }
                                }
                                proof {
                                    assert(m == all_moves()[mk]);
                                    assert(new_state@ == move_applied(state@, all_moves()[mk]));
                                    assert(table@.contains_key(
                                        T::spec_project(
                                            move_applied(state@, all_moves()[mk]),
                                        ).spec_key(),
                                    ));
                                }
                            }
                        },
                    }
                }
                j += 1;
            }
            i += 1;
        }
        proof {
            assert(bfs_closure::<T>(table@, rep, depth));
        }
        ProjHeuristic { table, default: depth + 1, projection: PhantomData }
    }
}

impl<T: KeyProj> Heuristic for ProjHeuristic<T> {
    open spec fn spec_lower_bound(&self, s: Seq<Sticker>) -> u8 {
        if self.table@.contains_key(T::spec_project(s).spec_key()) {
            self.table@[T::spec_project(s).spec_key()]
        } else {
            self.default
        }
    }

    fn lower_bound(&self, s: &State) -> (r: u8) {
        let p = T::project(s);
        let key = p.key();
        match self.table.get(&key) {
            Some(v) => *v,
            None => self.default,
        }
    }
}

/// The larger of two bounds.
pub open spec fn max_bound(a: u8, b: u8) -> u8 {
    if a > b {
        a
    } else {
        b
    }
}

/// The bound of an optional table: absent tables claim nothing.
pub open spec fn opt_bound<T: KeyProj>(o: Option<ProjHeuristic<T>>, s: Seq<Sticker>) -> u8 {
    match o {
        Some(h) => h.spec_lower_bound(s),
        None => 0,
    }
}

/// An aggregate over one optional table per projection family: the largest
/// bound any present table gives. This is the combination the command-line
/// front end builds from its per-family depth settings.
pub struct AggregateHeuristic {
    pub corner: Option<ProjHeuristic<crate::proj::CornerProj>>,
    pub arrow_axis: Option<ProjHeuristic<crate::proj::ArrowAxisProj>>,
    pub co_fb: Option<ProjHeuristic<crate::proj::CoFbProj>>,
    pub co_rl: Option<ProjHeuristic<crate::proj::CoRlProj>>,
    pub co_ud: Option<ProjHeuristic<crate::proj::CoUdProj>>,
    pub corner_fb: Option<ProjHeuristic<crate::proj::CornerFbProj>>,
    pub corner_rl: Option<ProjHeuristic<crate::proj::CornerRlProj>>,
    pub corner_ud: Option<ProjHeuristic<crate::proj::CornerUdProj>>,
    pub lock: Option<ProjHeuristic<crate::proj::LockProj>>,
}

impl Heuristic for AggregateHeuristic {
    open spec fn spec_lower_bound(&self, s: Seq<Sticker>) -> u8 {
        max_bound(
            max_bound(
                max_bound(
                    max_bound(
                        max_bound(
                            max_bound(
                                max_bound(
                                    max_bound(
                                        max_bound(0, opt_bound(self.corner, s)),
                                        opt_bound(self.arrow_axis, s),
                                    ),
                                    opt_bound(self.co_fb, s),
                                ),
                                opt_bound(self.co_rl, s),
                            ),
                            opt_bound(self.co_ud, s),
                        ),
                        opt_bound(self.corner_fb, s),
                    ),
                    opt_bound(self.corner_rl, s),
                ),
                opt_bound(self.corner_ud, s),
            ),
            opt_bound(self.lock, s),
        )
    }

    fn lower_bound(&self, s: &State) -> (r: u8) {
        let mut res: u8 = 0;
        if let Some(h) = &self.corner {
            let b = h.lower_bound(s);
            if b > res {
                res = b;
            }
        }
        if let Some(h) = &self.arrow_axis {
            let b = h.lower_bound(s);
            if b > res {
                res = b;
            }
        }
        if let Some(h) = &self.co_fb {
            let b = h.lower_bound(s);
            if b > res {
                res = b;
            }
        }
        if let Some(h) = &self.co_rl {
            let b = h.lower_bound(s);
            if b > res {
                res = b;
            }
        }
        if let Some(h) = &self.co_ud {
            let b = h.lower_bound(s);
            if b > res {
                res = b;
            }
        }
        if let Some(h) = &self.corner_fb {
            let b = h.lower_bound(s);
            if b > res {
                res = b;
            }
        }
        if let Some(h) = &self.corner_rl {
            let b = h.lower_bound(s);
            if b > res {
                res = b;
            }
        }
        if let Some(h) = &self.corner_ud {
            let b = h.lower_bound(s);
            if b > res {
                res = b;
            }
        }
        if let Some(h) = &self.lock {
            let b = h.lower_bound(s);
            if b > res {
                res = b;
            }
        }
        res
    }
}

/// The maximum of admissible bounds is admissible: when every element's
/// bound stays at or below some limit, so does the combined bound.
pub proof fn lemma_max_lower_bound_admissible<T: Heuristic>(hs: Seq<T>, s: Seq<Sticker>, limit: u8)
    requires
        forall|i: int| 0 <= i < hs.len() ==> (#[trigger] hs[i]).spec_lower_bound(s) <= limit,
    ensures
        max_lower_bound(hs, s) <= limit,
    decreases hs.len(),
{
    if hs.len() > 0 {
        lemma_max_lower_bound_admissible(hs.drop_last(), s, limit);
    }
}

} // verus!
