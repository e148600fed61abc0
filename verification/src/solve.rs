//! Solving the puzzle with a depth-bounded, heuristic-pruned search.

use vstd::prelude::*;

use crate::heuristic::Heuristic;
use crate::move_gen::MoveGen;
use crate::move_gen::all_moves;
use crate::move_gen::gen_after;
use crate::move_gen::gen_allows;
use crate::move_gen::initial_gen;
use crate::move_gen::lemma_next_allowed;
use crate::move_gen::next_allowed;
use crate::moves::Algo;
use crate::moves::Move;
use crate::moves::algo_applied;
use crate::moves::move_applied;
use crate::proj::LockProj;
use crate::proj::Proj;
use crate::state::State;
use crate::state::Sticker;
use crate::state::solved_seq;
use crate::state::spec_is_solved;
use crate::state::spec_locked;

verus! {

/// Every move of the sequence turns a face that is unlocked when its turn
/// comes.
pub open spec fn moves_ok(s: Seq<Sticker>, ms: Seq<Move>) -> bool
    decreases ms.len(),
{
    ms.len() == 0 || (!spec_locked(s, ms[0].face) && moves_ok(move_applied(s, ms[0]), ms.skip(1)))
}

/// The sequence respects both the lock predicate and the generator's
/// axis-ordering rule, starting from the given generator.
pub open spec fn gen_path_ok(s: Seq<Sticker>, ms: Seq<Move>, g: MoveGen) -> bool
    decreases ms.len(),
{
    ms.len() == 0 || (gen_allows(g, ms[0].face) && !spec_locked(s, ms[0].face) && gen_path_ok(
        move_applied(s, ms[0]),
        ms.skip(1),
        gen_after(ms[0].face),
    ))
}

/// A generator-respecting sequence in particular turns only unlocked faces.
pub proof fn lemma_gen_path_ok_moves_ok(s: Seq<Sticker>, ms: Seq<Move>, g: MoveGen)
    requires
        gen_path_ok(s, ms, g),
    ensures
        moves_ok(s, ms),
    decreases ms.len(),
{
    if ms.len() != 0 {
        lemma_gen_path_ok_moves_ok(move_applied(s, ms[0]), ms.skip(1), gen_after(ms[0].face));
    }
}

/// The generator in force after a sequence of moves: the one that follows
/// the last move, or the starting one for an empty sequence.
pub open spec fn end_gen(g: MoveGen, ms: Seq<Move>) -> MoveGen {
    if ms.len() == 0 {
        g
    } else {
        gen_after(ms.last().face)
    }
}

/// A generator-respecting sequence extends by any admitted move of an
/// unlocked face.
pub proof fn lemma_gen_path_push(s: Seq<Sticker>, ms: Seq<Move>, g: MoveGen, m: Move)
    requires
        gen_path_ok(s, ms, g),
        gen_allows(end_gen(g, ms), m.face),
        !spec_locked(algo_applied(s, ms), m.face),
    ensures
        gen_path_ok(s, ms.push(m), g),
    decreases ms.len(),
{
    if ms.len() == 0 {
        assert(ms.push(m)[0] == m);
        assert(ms.push(m).skip(1) =~= Seq::<Move>::empty());
        assert(gen_path_ok(move_applied(s, m), Seq::<Move>::empty(), gen_after(m.face)));
    } else {
        assert(ms.push(m)[0] == ms[0]);
        assert(ms.push(m).skip(1) =~= ms.skip(1).push(m));
        assert(ms.skip(1).len() == 0 ==> ms.last() == ms[0]);
        assert(ms.skip(1).len() > 0 ==> ms.skip(1).last() == ms.last());
        lemma_gen_path_push(move_applied(s, ms[0]), ms.skip(1), gen_after(ms[0].face), m);
        assert(gen_path_ok(move_applied(s, ms.push(m)[0]), ms.push(m).skip(1), gen_after(
            ms.push(m)[0].face,
        )));
    }
}

/// Sequences that each turn only unlocked faces compose.
pub proof fn lemma_moves_ok_concat(s: Seq<Sticker>, a: Seq<Move>, b: Seq<Move>)
    requires
        moves_ok(s, a),
        moves_ok(algo_applied(s, a), b),
    ensures
        moves_ok(s, a + b),
    decreases a.len(),
{
    if a.len() == 0 {
        assert(a + b =~= b);
    } else {
        lemma_moves_ok_concat(move_applied(s, a[0]), a.skip(1), b);
        assert((a + b)[0] == a[0]);
        assert((a + b).skip(1) =~= a.skip(1) + b);
    }
}

/// Whether the depth-bounded search succeeds from a position: the position is
/// already solved, or the depth budget and the heuristic's bound leave room
/// for some admitted move whose successor searches successfully.
pub open spec fn spec_search<H: Heuristic>(h: H, s: Seq<Sticker>, depth: int, g: MoveGen) -> bool
    decreases depth,
    when depth >= 0
{
    if spec_is_solved(s) {
        true
    } else if depth <= 0 {
        false
    } else if h.spec_lower_bound(s) > depth {
        false
    } else {
        exists|k: int|
            0 <= k < 18 && gen_allows(g, (#[trigger] all_moves()[k]).face) && !spec_locked(
                s,
                all_moves()[k].face,
            ) && spec_search(h, move_applied(s, all_moves()[k]), depth - 1, gen_after(
                all_moves()[k].face,
            ))
    }
}

/// Whether the root-branching search succeeds: for a zero budget it is the
/// plain search, otherwise the goal test is skipped at the root and some
/// unlocked first move must lead to a successful search one level down.
pub open spec fn root_search_ok<H: Heuristic>(h: H, s: Seq<Sticker>, depth: int) -> bool {
    if depth <= 0 {
        spec_search(h, s, depth, initial_gen())
    } else {
        exists|k: int|
            0 <= k < 18 && !spec_locked(s, (#[trigger] all_moves()[k]).face) && spec_search(
                h,
                move_applied(s, all_moves()[k]),
                depth - 1,
                gen_after(all_moves()[k].face),
            )
    }
}

/// The goal of the full search: the whole configuration is solved.
pub open spec fn full_goal() -> spec_fn(Seq<Sticker>) -> bool {
    |t: Seq<Sticker>| spec_is_solved(t)
}

/// The goal of a projection search: the configuration projects to the
/// solved image.
pub open spec fn proj_goal<P: Proj>() -> spec_fn(Seq<Sticker>) -> bool {
    |t: Seq<Sticker>| proj_solved::<P>(t)
}

/// The solution the depth-first search returns for a goal: the first one in
/// canonical move order. This pins the searches' results down to a value,
/// which makes them deterministic functions of their arguments.
pub open spec fn dfs_solution<H: Heuristic>(
    goal: spec_fn(Seq<Sticker>) -> bool,
    h: H,
    s: Seq<Sticker>,
    depth: int,
    g: MoveGen,
) -> Option<Seq<Move>>
    decreases depth, 19int,
    when depth >= 0
{
    if goal(s) {
        Some(Seq::empty())
    } else if depth <= 0 {
        None
    } else if h.spec_lower_bound(s) > depth {
        None
    } else {
        dfs_from(goal, h, s, depth, g, 0)
    }
}

/// The rest of that scan, from position `k` of the canonical enumeration.
pub open spec fn dfs_from<H: Heuristic>(
    goal: spec_fn(Seq<Sticker>) -> bool,
    h: H,
    s: Seq<Sticker>,
    depth: int,
    g: MoveGen,
    k: int,
) -> Option<Seq<Move>>
    decreases depth, 18 - k,
    when depth >= 1 && 0 <= k <= 18
{
    if k >= 18 {
        None
    } else if gen_allows(g, all_moves()[k].face) && !spec_locked(s, all_moves()[k].face) {
        match dfs_solution(
            goal,
            h,
            move_applied(s, all_moves()[k]),
            depth - 1,
            gen_after(all_moves()[k].face),
        ) {
            Some(tail) => Some(seq![all_moves()[k]] + tail),
            None => dfs_from(goal, h, s, depth, g, k + 1),
        }
    } else {
        dfs_from(goal, h, s, depth, g, k + 1)
    }
}

/// Positions the generator rules out do not change what the scan finds.
proof fn lemma_dfs_from_skip<H: Heuristic>(
    goal: spec_fn(Seq<Sticker>) -> bool,
    h: H,
    s: Seq<Sticker>,
    depth: int,
    g: MoveGen,
    i: int,
    j: int,
)
    requires
        0 <= i <= j <= 18,
        depth >= 1,
        forall|k: int| i <= k < j ==> !gen_allows(g, (#[trigger] all_moves()[k]).face),
    ensures
        dfs_from(goal, h, s, depth, g, i) == dfs_from(goal, h, s, depth, g, j),
    decreases j - i,
{
    if i < j {
        lemma_dfs_from_skip(goal, h, s, depth, g, i + 1, j);
    }
}

/// The depth-first search behind `solve_serial`: it extends `history` with a
/// solution exactly when `spec_search` holds — the solution being the
/// canonical-order one — and otherwise leaves it alone.
fn solve_search<H: Heuristic>(
    state: &State,
    heuristic: &H,
    depth: u8,
    history: &mut Vec<Move>,
    g: MoveGen,
) -> (r: bool)
    ensures
        r == spec_search(*heuristic, state@, depth as int, g),
        dfs_solution(full_goal(), *heuristic, state@, depth as int, g) == if r {
            Some(final(history)@.skip(old(history)@.len() as int))
        } else {
            None::<Seq<Move>>
        },
        !r ==> final(history)@ == old(history)@,
        r ==> final(history)@.len() >= old(history)@.len() && final(history)@.take(
            old(history)@.len() as int,
        ) == old(history)@ && ({
            let suffix = final(history)@.skip(old(history)@.len() as int);
            &&& gen_path_ok(state@, suffix, g)
            &&& spec_is_solved(algo_applied(state@, suffix))
            &&& suffix.len() <= depth
        }),
    decreases depth,
{
    proof {
        assert(full_goal()(state@) == spec_is_solved(state@));
    }
    if state.is_solved() {
        proof {
            assert(final(history)@.skip(old(history)@.len() as int) =~= Seq::<Move>::empty());
            assert(final(history)@.take(old(history)@.len() as int) =~= old(history)@);
        }
        return true;
    }
    if depth == 0 {
        return false;
    }
    if heuristic.lower_bound(state) > depth {
        return false;
    }
    let mut it = g.iter();
    loop
        invariant
            it.state == g,
            it.idx <= 18,
            depth >= 1,
            history@ == old(history)@,
            !spec_is_solved(state@),
            heuristic.spec_lower_bound(state@) <= depth,
            forall|k: int|
                0 <= k < it.idx ==> !(gen_allows(g, (#[trigger] all_moves()[k]).face)
                    && !spec_locked(state@, all_moves()[k].face) && spec_search(
                    *heuristic,
                    move_applied(state@, all_moves()[k]),
                    depth - 1,
                    gen_after(all_moves()[k].face),
                )),
            dfs_from(full_goal(), *heuristic, state@, depth as int, g, 0) == dfs_from(
                full_goal(),
                *heuristic,
                state@,
                depth as int,
                g,
                it.idx as int,
            ),
        decreases 18 - it.idx,
    {
        let ghost idx0 = it.idx as int;
        proof {
            lemma_next_allowed(g, idx0);
        }
        match it.next() {
            None => {
                proof {
                    lemma_dfs_from_skip(full_goal(), *heuristic, state@, depth as int, g, idx0, 18);
                    assert(full_goal()(state@) == spec_is_solved(state@));
                }
                return false;
            },
            Some((new_gen, m)) => {
                let ghost k = next_allowed(g, idx0);
                proof {
                    lemma_dfs_from_skip(full_goal(), *heuristic, state@, depth as int, g, idx0, k);
                }
                if state.is_locked(m.face) {
                    proof {
                        assert forall|j: int|
                            0 <= j < k + 1 implies !(gen_allows(
                            g,
                            (#[trigger] all_moves()[j]).face,
                        ) && !spec_locked(state@, all_moves()[j].face) && spec_search(
                            *heuristic,
                            move_applied(state@, all_moves()[j]),
                            depth - 1,
                            gen_after(all_moves()[j].face),
                        )) by {}
                        assert(dfs_from(full_goal(), *heuristic, state@, depth as int, g, k)
                            == dfs_from(full_goal(), *heuristic, state@, depth as int, g, k + 1));
                    }
                } else {
                    let mut new_state = *state;
                    m.apply(&mut new_state);
                    let ghost len0 = history@.len() as int;
                    history.push(m);
                    let ghost pushed = history@;
                    if solve_search(&new_state, heuristic, depth - 1, history, new_gen) {
                        proof {
                            let suffix = history@.skip(len0);
                            let child = history@.skip(len0 + 1);
                            assert(history@.take(len0 + 1) == pushed);
                            assert(history@.take(len0 + 1).take(len0) =~= history@.take(len0));
                            assert(history@.take(len0) =~= old(history)@);
                            assert(history@[len0] == history@.take(len0 + 1)[len0]);
                            assert(history@[len0] == m);
                            assert(suffix[0] == m);
                            assert(suffix.skip(1) =~= child);
                            assert(algo_applied(state@, suffix) == algo_applied(
                                new_state@,
                                child,
                            ));
                            assert(seq![m] + child =~= suffix);
                            assert(dfs_from(full_goal(), *heuristic, state@, depth as int, g, k)
                                == Some(seq![all_moves()[k]] + child));
                        }
                        return true;
                    }
                    let _ = history.pop();
                    proof {
                        assert(history@ =~= old(history)@);
                        assert(dfs_from(full_goal(), *heuristic, state@, depth as int, g, k)
                            == dfs_from(full_goal(), *heuristic, state@, depth as int, g, k + 1));
                    }
                }
            },
        }
    }
}

/// Find a solution of at most the given depth, exploring each admitted first
/// move in turn and keeping the shortest solution found.
///
/// This may find sub-optimal solutions if the given depth is too large.
/// Thus, callers should iteratively try deeper and deeper searches until a
/// solution is found.
pub fn solve<H: Heuristic>(state: &State, heuristic: &H, depth: u8) -> (r: Option<Algo>)
    ensures
        (r is Some) == root_search_ok(*heuristic, state@, depth as int),
        r matches Some(a) ==> gen_path_ok(state@, a@, initial_gen()) && spec_is_solved(
            algo_applied(state@, a@),
        ) && a@.len() <= depth,
{
    if depth == 0 {
        return solve_serial(state, heuristic, depth);
    }
    let mut best: Option<Vec<Move>> = None;
    let mut it = MoveGen::new().iter();
    loop
        invariant
            it.state == initial_gen(),
            it.idx <= 18,
            depth >= 1,
            best matches Some(b) ==> gen_path_ok(state@, b@, initial_gen()) && spec_is_solved(
                algo_applied(state@, b@),
            ) && b@.len() <= depth,
            best is Some ==> root_search_ok(*heuristic, state@, depth as int),
            best is None ==> forall|k: int|
                0 <= k < it.idx ==> !(!spec_locked(state@, (#[trigger] all_moves()[k]).face)
                    && spec_search(
                    *heuristic,
                    move_applied(state@, all_moves()[k]),
                    depth - 1,
                    gen_after(all_moves()[k].face),
                )),
        decreases 18 - it.idx,
    {
        let ghost idx0 = it.idx as int;
        proof {
            lemma_next_allowed(initial_gen(), idx0);
        }
        match it.next() {
            None => {
                proof {
                    if idx0 < 18 {
                        assert(gen_allows(initial_gen(), all_moves()[idx0].face));
                    }
                }
                return match best {
                    None => None,
                    Some(b) => Some(Algo(b)),
                };
            },
            Some((new_gen, m)) => {
                let ghost k = next_allowed(initial_gen(), idx0);
                if !state.is_locked(m.face) {
                    let mut new_state = *state;
                    m.apply(&mut new_state);
                    let mut hist: Vec<Move> = Vec::new();
                    hist.push(m);
                    let ghost pushed = hist@;
                    if solve_search(&new_state, heuristic, depth - 1, &mut hist, new_gen) {
                        proof {
                            let suffix = hist@.skip(1);
                            assert(hist@.take(1) == pushed);
                            assert(hist@[0] == hist@.take(1)[0]);
                            assert(hist@[0] == m);
                            assert(algo_applied(state@, hist@) == algo_applied(
                                new_state@,
                                suffix,
                            ));
                        }
                        let replace = match &best {
                            None => true,
                            Some(b) => hist.len() < b.len(),
                        };
                        if replace {
                            best = Some(hist);
                        }
                    }
                }
            },
        }
    }
}

/// Whether a configuration achieves a projection's subgoal: it projects to
/// the same value as the solved configuration.
pub open spec fn proj_solved<P: Proj>(s: Seq<Sticker>) -> bool {
    P::spec_project(s) == P::spec_project(solved_seq())
}

/// Whether the depth-bounded search for a projection subgoal succeeds; the
/// goal test is on the projection instead of the whole configuration.
pub open spec fn spec_proj_search<P: Proj, H: Heuristic>(
    h: H,
    s: Seq<Sticker>,
    depth: int,
    g: MoveGen,
) -> bool
    decreases depth,
    when depth >= 0
{
    if proj_solved::<P>(s) {
        true
    } else if depth <= 0 {
        false
    } else if h.spec_lower_bound(s) > depth {
        false
    } else {
        exists|k: int|
            0 <= k < 18 && gen_allows(g, (#[trigger] all_moves()[k]).face) && !spec_locked(
                s,
                all_moves()[k].face,
            ) && spec_proj_search::<P, H>(h, move_applied(s, all_moves()[k]), depth - 1, gen_after(
                all_moves()[k].face,
            ))
    }
}

/// Whether the root-branching search for a projection subgoal succeeds.
pub open spec fn root_proj_search_ok<P: Proj, H: Heuristic>(
    h: H,
    s: Seq<Sticker>,
    depth: int,
) -> bool {
    if depth <= 0 {
        spec_proj_search::<P, H>(h, s, depth, initial_gen())
    } else {
        exists|k: int|
            0 <= k < 18 && !spec_locked(s, (#[trigger] all_moves()[k]).face) && spec_proj_search::<
                P,
                H,
            >(h, move_applied(s, all_moves()[k]), depth - 1, gen_after(all_moves()[k].face))
    }
}

/// The depth-first search behind `proj_solve_serial`.
fn proj_solve_search<P: Proj, H: Heuristic>(
    goal: &P,
    state: &State,
    heuristic: &H,
    depth: u8,
    history: &mut Vec<Move>,
    g: MoveGen,
) -> (r: bool)
    requires
        *goal == P::spec_project(solved_seq()),
    ensures
        r == spec_proj_search::<P, H>(*heuristic, state@, depth as int, g),
        dfs_solution(proj_goal::<P>(), *heuristic, state@, depth as int, g) == if r {
            Some(final(history)@.skip(old(history)@.len() as int))
        } else {
            None::<Seq<Move>>
        },
        !r ==> final(history)@ == old(history)@,
        r ==> final(history)@.len() >= old(history)@.len() && final(history)@.take(
            old(history)@.len() as int,
        ) == old(history)@ && ({
            let suffix = final(history)@.skip(old(history)@.len() as int);
            &&& gen_path_ok(state@, suffix, g)
            &&& proj_solved::<P>(algo_applied(state@, suffix))
            &&& suffix.len() <= depth
        }),
    decreases depth,
{
    proof {
        assert(proj_goal::<P>()(state@) == proj_solved::<P>(state@));
    }
    let lock = LockProj::project(state);
    let projection = P::project_with_lock(state, &lock);
    if projection.eq_proj(goal) {
        proof {
            assert(final(history)@.skip(old(history)@.len() as int) =~= Seq::<Move>::empty());
            assert(final(history)@.take(old(history)@.len() as int) =~= old(history)@);
        }
        return true;
    }
    if depth == 0 {
        return false;
    }
    if heuristic.lower_bound(state) > depth {
        return false;
    }
    let mut it = g.iter();
    loop
        invariant
            it.state == g,
            it.idx <= 18,
            depth >= 1,
            history@ == old(history)@,
            *goal == P::spec_project(solved_seq()),
            !proj_solved::<P>(state@),
            heuristic.spec_lower_bound(state@) <= depth,
            forall|k: int|
                0 <= k < it.idx ==> !(gen_allows(g, (#[trigger] all_moves()[k]).face)
                    && !spec_locked(state@, all_moves()[k].face) && spec_proj_search::<P, H>(
                    *heuristic,
                    move_applied(state@, all_moves()[k]),
                    depth - 1,
                    gen_after(all_moves()[k].face),
                )),
            dfs_from(proj_goal::<P>(), *heuristic, state@, depth as int, g, 0) == dfs_from(
                proj_goal::<P>(),
                *heuristic,
                state@,
                depth as int,
                g,
                it.idx as int,
            ),
        decreases 18 - it.idx,
    {
        let ghost idx0 = it.idx as int;
        proof {
            lemma_next_allowed(g, idx0);
        }
        match it.next() {
            None => {
                proof {
                    lemma_dfs_from_skip(
                        proj_goal::<P>(),
                        *heuristic,
                        state@,
                        depth as int,
                        g,
                        idx0,
                        18,
                    );
                    assert(proj_goal::<P>()(state@) == proj_solved::<P>(state@));
                }
                return false;
            },
            Some((new_gen, m)) => {
                let ghost k = next_allowed(g, idx0);
                proof {
                    lemma_dfs_from_skip(
                        proj_goal::<P>(),
                        *heuristic,
                        state@,
                        depth as int,
                        g,
                        idx0,
                        k,
                    );
                }
                if state.is_locked(m.face) {
                    proof {
                        assert(dfs_from(proj_goal::<P>(), *heuristic, state@, depth as int, g, k)
                            == dfs_from(
                            proj_goal::<P>(),
                            *heuristic,
                            state@,
                            depth as int,
                            g,
                            k + 1,
                        ));
                    }
                } else {
                    let mut new_state = *state;
                    m.apply(&mut new_state);
                    let ghost len0 = history@.len() as int;
                    history.push(m);
                    let ghost pushed = history@;
                    if proj_solve_search(goal, &new_state, heuristic, depth - 1, history, new_gen)
                        {
                        proof {
                            let suffix = history@.skip(len0);
                            let child = history@.skip(len0 + 1);
                            assert(history@.take(len0 + 1) == pushed);
                            assert(history@.take(len0 + 1).take(len0) =~= history@.take(len0));
                            assert(history@.take(len0) =~= old(history)@);
                            assert(history@[len0] == history@.take(len0 + 1)[len0]);
                            assert(history@[len0] == m);
                            assert(suffix[0] == m);
                            assert(suffix.skip(1) =~= child);
                            assert(algo_applied(state@, suffix) == algo_applied(
                                new_state@,
                                child,
                            ));
                            assert(seq![m] + child =~= suffix);
                            assert(dfs_from(
                                proj_goal::<P>(),
                                *heuristic,
                                state@,
                                depth as int,
                                g,
                                k,
                            ) == Some(seq![all_moves()[k]] + child));
                        }
                        return true;
                    }
                    let _ = history.pop();
                    proof {
                        assert(history@ =~= old(history)@);
                        assert(dfs_from(proj_goal::<P>(), *heuristic, state@, depth as int, g, k)
                            == dfs_from(
                            proj_goal::<P>(),
                            *heuristic,
                            state@,
                            depth as int,
                            g,
                            k + 1,
                        ));
                    }
                }
            },
        }
    }
}

/// Find a sequence of at most the given depth that achieves a projection's
/// subgoal, exploring each admitted first move in turn and keeping the
/// shortest sequence found.
///
/// See `solve` for details.
pub fn proj_solve<P: Proj, H: Heuristic>(state: &State, heuristic: &H, depth: u8) -> (r: Option<
    Algo,
>)
    ensures
        (r is Some) == root_proj_search_ok::<P, H>(*heuristic, state@, depth as int),
        r matches Some(a) ==> gen_path_ok(state@, a@, initial_gen()) && proj_solved::<P>(
            algo_applied(state@, a@),
        ) && a@.len() <= depth,
{
    if depth == 0 {
        return proj_solve_serial::<P, H>(state, heuristic, depth);
    }
    let solved_state = State::solved();
    let goal = P::project(&solved_state);
    let mut best: Option<Vec<Move>> = None;
    let mut it = MoveGen::new().iter();
    loop
        invariant
            it.state == initial_gen(),
            it.idx <= 18,
            depth >= 1,
            goal == P::spec_project(solved_seq()),
            best matches Some(b) ==> gen_path_ok(state@, b@, initial_gen()) && proj_solved::<P>(
                algo_applied(state@, b@),
            ) && b@.len() <= depth,
            best is Some ==> root_proj_search_ok::<P, H>(*heuristic, state@, depth as int),
            best is None ==> forall|k: int|
                0 <= k < it.idx ==> !(!spec_locked(state@, (#[trigger] all_moves()[k]).face)
                    && spec_proj_search::<P, H>(
                    *heuristic,
                    move_applied(state@, all_moves()[k]),
                    depth - 1,
                    gen_after(all_moves()[k].face),
                )),
        decreases 18 - it.idx,
    {
        let ghost idx0 = it.idx as int;
        proof {
            lemma_next_allowed(initial_gen(), idx0);
        }
        match it.next() {
            None => {
                proof {
                    if idx0 < 18 {
                        assert(gen_allows(initial_gen(), all_moves()[idx0].face));
                    }
                }
                return match best {
                    None => None,
                    Some(b) => Some(Algo(b)),
                };
            },
            Some((new_gen, m)) => {
                let ghost k = next_allowed(initial_gen(), idx0);
                if !state.is_locked(m.face) {
                    let mut new_state = *state;
                    m.apply(&mut new_state);
                    let mut hist: Vec<Move> = Vec::new();
                    hist.push(m);
                    let ghost pushed = hist@;
                    if proj_solve_search(&goal, &new_state, heuristic, depth - 1, &mut hist, new_gen) {
                        proof {
                            let suffix = hist@.skip(1);
                            assert(hist@.take(1) == pushed);
                            assert(hist@[0] == hist@.take(1)[0]);
                            assert(hist@[0] == m);
                            assert(algo_applied(state@, hist@) == algo_applied(
                                new_state@,
                                suffix,
                            ));
                        }
                        let replace = match &best {
                            None => true,
                            Some(b) => hist.len() < b.len(),
                        };
                        if replace {
                            best = Some(hist);
                        }
                    }
                }
            },
        }
    }
}

/// Find a sequence of at most the given depth that achieves a projection's
/// subgoal, with a single depth-first search.
///
/// See `proj_solve` for details.
pub fn proj_solve_serial<P: Proj, H: Heuristic>(state: &State, heuristic: &H, depth: u8) -> (r:
    Option<Algo>)
    ensures
        (r is Some) == spec_proj_search::<P, H>(*heuristic, state@, depth as int, initial_gen()),
        match r {
            Some(a) => dfs_solution(
                proj_goal::<P>(),
                *heuristic,
                state@,
                depth as int,
                initial_gen(),
            ) == Some(a@),
            None => dfs_solution(
                proj_goal::<P>(),
                *heuristic,
                state@,
                depth as int,
                initial_gen(),
            ) is None,
        },
        r matches Some(a) ==> gen_path_ok(state@, a@, initial_gen()) && proj_solved::<P>(
            algo_applied(state@, a@),
        ) && a@.len() <= depth,
{
    let solved_state = State::solved();
    let goal = P::project(&solved_state);
    let mut solution: Vec<Move> = Vec::new();
    if proj_solve_search(&goal, state, heuristic, depth, &mut solution, MoveGen::new()) {
        proof {
            assert(solution@.skip(0) =~= solution@);
        }
        Some(Algo(solution))
    } else {
        None
    }
}

/// Find a solution of at most the given depth with a single depth-first
/// search.
///
/// See `solve` for details.
pub fn solve_serial<H: Heuristic>(state: &State, heuristic: &H, depth: u8) -> (r: Option<Algo>)
    ensures
        (r is Some) == spec_search(*heuristic, state@, depth as int, initial_gen()),
        match r {
            Some(a) => dfs_solution(full_goal(), *heuristic, state@, depth as int, initial_gen())
                == Some(a@),
            None => dfs_solution(full_goal(), *heuristic, state@, depth as int, initial_gen())
                is None,
        },
        r matches Some(a) ==> gen_path_ok(state@, a@, initial_gen()) && spec_is_solved(
            algo_applied(state@, a@),
        ) && a@.len() <= depth,
{
    let mut solution: Vec<Move> = Vec::new();
    if solve_search(state, heuristic, depth, &mut solution, MoveGen::new()) {
        proof {
            assert(solution@.skip(0) =~= solution@);
        }
        Some(Algo(solution))
    } else {
        None
    }
}

} // verus!
