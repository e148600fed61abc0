//! Solving the puzzle in a multi-stage process.

use vstd::prelude::*;

use crate::heuristic::Heuristic;
use crate::heuristic::ProjHeuristic;
use crate::moves::Algo;
use crate::moves::Move;
use crate::moves::algo_applied;
use crate::moves::lemma_algo_applied_concat;
use crate::proj::ArrowAxisProj;
use crate::proj::CoFbProj;
use crate::proj::CoRlProj;
use crate::proj::CoUdProj;
use crate::proj::CornerProj;
use crate::proj::LockProj;
use crate::proj::PairProj;
use crate::proj::Proj;
use crate::move_gen::initial_gen;
use crate::solve::lemma_gen_path_ok_moves_ok;
use crate::solve::root_proj_search_ok;
use crate::solve::root_search_ok;
use crate::solve::lemma_moves_ok_concat;
use crate::solve::moves_ok;
use crate::solve::proj_solve;
use crate::solve::proj_solved;
use crate::solve::solve;
use crate::state::State;
use crate::state::Sticker;
use crate::state::spec_is_solved;

verus! {

/// An error describing why a multi-stage solve failed.
#[derive(Clone, Copy, Debug, Eq, PartialEq, Structural)]
pub enum MultiStepError {
    InvalidCorners,
    InvalidEdges,
    InvalidState,
}

impl MultiStepError {
    /// A short account of the error.
    pub fn description(&self) -> (r: &'static str)
        ensures
            r@ == match *self {
                MultiStepError::InvalidCorners => "invalid corners"@,
                MultiStepError::InvalidEdges => "invalid edges"@,
                MultiStepError::InvalidState => "invalid cube state"@,
            },
    {
        match self {
            MultiStepError::InvalidCorners => "invalid corners",
            MultiStepError::InvalidEdges => "invalid edges",
            MultiStepError::InvalidState => "invalid cube state",
        }
    }
}

/// The moves of a list of stage solutions, concatenated in order.
pub open spec fn parts_moves(ps: Seq<Algo>) -> Seq<Move>
    decreases ps.len(),
{
    if ps.len() == 0 {
        Seq::empty()
    } else {
        parts_moves(ps.drop_last()) + ps.last()@
    }
}

/// The heuristic of the corner-orientation stage: the largest bound among
/// the arrow-axis table and the three corner-orientation tables.
pub struct CoStageHeuristic<'a> {
    pub arrow: &'a ProjHeuristic<ArrowAxisProj>,
    pub co_fb: &'a ProjHeuristic<CoFbProj>,
    pub co_rl: &'a ProjHeuristic<CoRlProj>,
    pub co_ud: &'a ProjHeuristic<CoUdProj>,
}

impl<'a> Heuristic for CoStageHeuristic<'a> {
    open spec fn spec_lower_bound(&self, s: Seq<Sticker>) -> u8 {
        let a = self.arrow.spec_lower_bound(s);
        let b = self.co_fb.spec_lower_bound(s);
        let c = self.co_rl.spec_lower_bound(s);
        let d = self.co_ud.spec_lower_bound(s);
        let ab = if a > b {
            a
        } else {
            b
        };
        let abc = if ab > c {
            ab
        } else {
            c
        };
        if abc > d {
            abc
        } else {
            d
        }
    }

    fn lower_bound(&self, s: &State) -> (r: u8) {
        let a = self.arrow.lower_bound(s);
        let b = self.co_fb.lower_bound(s);
        let c = self.co_rl.lower_bound(s);
        let d = self.co_ud.lower_bound(s);
        let mut res = a;
        if b > res {
            res = b;
        }
        if c > res {
            res = c;
        }
        if d > res {
            res = d;
        }
        res
    }
}

/// The heuristic of the last two stages: the larger of the arrow-axis and
/// corner bounds.
pub struct CornerStageHeuristic<'a> {
    pub arrow: &'a ProjHeuristic<ArrowAxisProj>,
    pub corner: &'a ProjHeuristic<CornerProj>,
}

impl<'a> Heuristic for CornerStageHeuristic<'a> {
    open spec fn spec_lower_bound(&self, s: Seq<Sticker>) -> u8 {
        let a = self.arrow.spec_lower_bound(s);
        let b = self.corner.spec_lower_bound(s);
        if a > b {
            a
        } else {
            b
        }
    }

    fn lower_bound(&self, s: &State) -> (r: u8) {
        let a = self.arrow.lower_bound(s);
        let b = self.corner.lower_bound(s);
        if a > b {
            a
        } else {
            b
        }
    }
}

/// A multi-stage solver: it drives a sequence of projections to their solved
/// images, each stage extending the solution of the previous ones.
pub struct MultiStep {
    pub arrow: ProjHeuristic<ArrowAxisProj>,
    pub co_fb: ProjHeuristic<CoFbProj>,
    pub co_rl: ProjHeuristic<CoRlProj>,
    pub co_ud: ProjHeuristic<CoUdProj>,
    pub corner: ProjHeuristic<CornerProj>,
    pub lock: ProjHeuristic<LockProj>,
}

impl MultiStep {
    /// Generate a multi-stage solver with reasonable default settings:
    /// depth-7 tables, depth-8 for the lock projection.
    pub fn generate_default() -> (r: MultiStep)
        ensures
            crate::heuristic::generated_table(r.arrow, 7),
            crate::heuristic::generated_table(r.co_fb, 7),
            crate::heuristic::generated_table(r.co_rl, 7),
            crate::heuristic::generated_table(r.co_ud, 7),
            crate::heuristic::generated_table(r.corner, 7),
            crate::heuristic::generated_table(r.lock, 8),
    {
        MultiStep {
            arrow: ProjHeuristic::<ArrowAxisProj>::generate(7),
            co_fb: ProjHeuristic::<CoFbProj>::generate(7),
            co_rl: ProjHeuristic::<CoRlProj>::generate(7),
            co_ud: ProjHeuristic::<CoUdProj>::generate(7),
            corner: ProjHeuristic::<CornerProj>::generate(7),
            lock: ProjHeuristic::<LockProj>::generate(8),
        }
    }

    /// Find the shortest sequence below the bound that drives the projection
    /// to its solved image, trying depth after depth: some sequence comes
    /// back exactly when the search succeeds at some depth below the bound,
    /// and it is found at the least such depth.
    fn step<P: Proj, H: Heuristic>(s: &State, h: &H, upper_bound: u8) -> (r: Option<(Algo, State)>)
        ensures
            (r is Some) == exists|d: int|
                0 <= d < upper_bound && #[trigger] root_proj_search_ok::<P, H>(*h, s@, d),
            r matches Some((a, ns)) ==> moves_ok(s@, a@) && ns@ == algo_applied(s@, a@)
                && proj_solved::<P>(ns@) && exists|d: int|
                0 <= d < upper_bound && #[trigger] root_proj_search_ok::<P, H>(*h, s@, d)
                    && a@.len() <= d && (forall|d2: int|
                    0 <= d2 < d ==> !root_proj_search_ok::<P, H>(*h, s@, d2)),
    {
        let mut i: u8 = 0;
        while i < upper_bound
            invariant
                i <= upper_bound,
                forall|d: int| 0 <= d < i ==> !(#[trigger] root_proj_search_ok::<P, H>(*h, s@, d)),
            decreases upper_bound - i,
        {
            if let Some(solution) = proj_solve::<P, H>(s, h, i) {
                let mut new_state = *s;
                solution.apply(&mut new_state);
                proof {
                    lemma_gen_path_ok_moves_ok(s@, solution@, initial_gen());
                    assert(root_proj_search_ok::<P, H>(*h, s@, i as int));
                }
                return Some((solution, new_state));
            }
            i += 1;
        }
        None
    }

    /// Find a solution for the state.
    ///
    /// Returns both the complete solution and its decomposition into the
    /// per-stage parts. Each error is tied to its stage: the edges error
    /// demands that the arrow-axis stage truly had no solution within its
    /// bound and that the lock fallback failed too; the corner and state
    /// errors demand a lock-respecting prefix that completes the earlier
    /// stages but from which the failing stage's search succeeds at no depth.
    pub fn solve(&self, s: &State) -> (r: Result<(Algo, Vec<Algo>), MultiStepError>)
        ensures
            r matches Ok((algo, parts)) ==> moves_ok(s@, algo@) && spec_is_solved(
                algo_applied(s@, algo@),
            ) && algo@ == parts_moves(parts@),
            r == Err::<(Algo, Vec<Algo>), MultiStepError>(MultiStepError::InvalidEdges) ==> (forall|
                d: int,
            |
                0 <= d < 14 ==> !root_proj_search_ok::<ArrowAxisProj, ProjHeuristic<ArrowAxisProj>>(
                    self.arrow,
                    s@,
                    d,
                )) && ((forall|d: int|
                0 <= d < 13 ==> !root_proj_search_ok::<LockProj, ProjHeuristic<LockProj>>(
                    self.lock,
                    s@,
                    d,
                )) || exists|pm: Seq<Move>|
                #[trigger] moves_ok(s@, pm) && proj_solved::<LockProj>(algo_applied(s@, pm)) && (
                forall|d: int|
                    0 <= d < 255 ==> !root_proj_search_ok::<
                        ArrowAxisProj,
                        ProjHeuristic<ArrowAxisProj>,
                    >(self.arrow, algo_applied(s@, pm), d))),
            r == Err::<(Algo, Vec<Algo>), MultiStepError>(MultiStepError::InvalidCorners)
                ==> exists|pm: Seq<Move>|
                #[trigger] moves_ok(s@, pm) && proj_solved::<ArrowAxisProj>(algo_applied(s@, pm))
                    && (forall|d: int|
                    0 <= d < 255 ==> !root_proj_search_ok::<
                        PairProj<PairProj<ArrowAxisProj, CoFbProj>, PairProj<CoRlProj, CoUdProj>>,
                        CoStageHeuristic,
                    >(
                        (CoStageHeuristic {
                            arrow: &self.arrow,
                            co_fb: &self.co_fb,
                            co_rl: &self.co_rl,
                            co_ud: &self.co_ud,
                        }),
                        algo_applied(s@, pm),
                        d,
                    )),
            r == Err::<(Algo, Vec<Algo>), MultiStepError>(MultiStepError::InvalidState) ==> exists|
                pm: Seq<Move>,
            |
                #[trigger] moves_ok(s@, pm) && ((proj_solved::<
                    PairProj<PairProj<ArrowAxisProj, CoFbProj>, PairProj<CoRlProj, CoUdProj>>,
                >(algo_applied(s@, pm)) && (forall|d: int|
                    0 <= d < 255 ==> !root_proj_search_ok::<
                        PairProj<ArrowAxisProj, CornerProj>,
                        CornerStageHeuristic,
                    >(
                        (CornerStageHeuristic { arrow: &self.arrow, corner: &self.corner }),
                        algo_applied(s@, pm),
                        d,
                    ))) || (proj_solved::<PairProj<ArrowAxisProj, CornerProj>>(algo_applied(s@, pm))
                    && (forall|d: int|
                    0 <= d < 255 ==> !root_search_ok::<CornerStageHeuristic>(
                        (CornerStageHeuristic { arrow: &self.arrow, corner: &self.corner }),
                        algo_applied(s@, pm),
                        d,
                    )))),
    {
        let mut parts: Vec<Algo> = Vec::new();
        let mut cur: State = *s;
        // The arrow-axis stage, with the lock stage as a fallback when no
        // solution within the bound exists.
        match MultiStep::step::<ArrowAxisProj, ProjHeuristic<ArrowAxisProj>>(s, &self.arrow, 14) {
            Some((algo, new_state)) => {
                proof {
                    lemma_parts_moves_push(parts@, algo);
                }
                cur = new_state;
                parts.push(algo);
            },
            None => {
                let first = MultiStep::step::<LockProj, ProjHeuristic<LockProj>>(
                    s,
                    &self.lock,
                    13,
                );
                let (a1, s1) = match first {
                    Some(p) => p,
                    None => {
                        return Err(MultiStepError::InvalidEdges);
                    },
                };
                let second = MultiStep::step::<ArrowAxisProj, ProjHeuristic<ArrowAxisProj>>(
                    &s1,
                    &self.arrow,
                    255,
                );
                let (a2, s2) = match second {
                    Some(p) => p,
                    None => {
                        proof {
                            assert(moves_ok(s@, a1@));
                        }
                        return Err(MultiStepError::InvalidEdges);
                    },
                };
                proof {
                    lemma_parts_moves_push(parts@, a1);
                }
                parts.push(a1);
                proof {
                    lemma_parts_moves_push(parts@, a2);
                    lemma_moves_ok_concat(s@, parts_moves(parts@), a2@);
                    lemma_algo_applied_concat(s@, parts_moves(parts@), a2@);
                }
                parts.push(a2);
                cur = s2;
            },
        }
        proof {
            assert(Seq::<Move>::empty() + parts@[0]@ =~= parts@[0]@);
            assert(moves_ok(s@, parts_moves(parts@)));
            assert(cur@ == algo_applied(s@, parts_moves(parts@)));
            assert(proj_solved::<ArrowAxisProj>(cur@));
        }
        // The corner-orientation stage.
        let co_heuristic = CoStageHeuristic {
            arrow: &self.arrow,
            co_fb: &self.co_fb,
            co_rl: &self.co_rl,
            co_ud: &self.co_ud,
        };
        let co_step = MultiStep::step::<
            PairProj<PairProj<ArrowAxisProj, CoFbProj>, PairProj<CoRlProj, CoUdProj>>,
            CoStageHeuristic,
        >(&cur, &co_heuristic, 255);
        let (a3, s3) = match co_step {
            Some(p) => p,
            None => {
                proof {
                    assert(moves_ok(s@, parts_moves(parts@)));
                }
                return Err(MultiStepError::InvalidCorners);
            },
        };
        proof {
            lemma_parts_moves_push(parts@, a3);
            lemma_moves_ok_concat(s@, parts_moves(parts@), a3@);
            lemma_algo_applied_concat(s@, parts_moves(parts@), a3@);
        }
        parts.push(a3);
        cur = s3;
        // The corner-permutation stage.
        let corner_heuristic = CornerStageHeuristic { arrow: &self.arrow, corner: &self.corner };
        let corner_step = MultiStep::step::<
            PairProj<ArrowAxisProj, CornerProj>,
            CornerStageHeuristic,
        >(&cur, &corner_heuristic, 255);
        let (a4, s4) = match corner_step {
            Some(p) => p,
            None => {
                proof {
                    assert(moves_ok(s@, parts_moves(parts@)));
                }
                return Err(MultiStepError::InvalidState);
            },
        };
        proof {
            lemma_parts_moves_push(parts@, a4);
            lemma_moves_ok_concat(s@, parts_moves(parts@), a4@);
            lemma_algo_applied_concat(s@, parts_moves(parts@), a4@);
        }
        parts.push(a4);
        cur = s4;
        // The final stage: a full solve, iterating the depth upward.
        let mut i: u8 = 0;
        while i < 255
            invariant
                cur@ == algo_applied(s@, parts_moves(parts@)),
                moves_ok(s@, parts_moves(parts@)),
                proj_solved::<PairProj<ArrowAxisProj, CornerProj>>(cur@),
                corner_heuristic == (CornerStageHeuristic {
                    arrow: &self.arrow,
                    corner: &self.corner,
                }),
                forall|d: int|
                    0 <= d < i ==> !(#[trigger] root_search_ok::<CornerStageHeuristic>(
                        corner_heuristic,
                        cur@,
                        d,
                    )),
                i <= 255,
            decreases 255 - i,
        {
            if let Some(algo) = solve(&cur, &corner_heuristic, i) {
                proof {
                    lemma_gen_path_ok_moves_ok(cur@, algo@, initial_gen());
                    lemma_parts_moves_push(parts@, algo);
                    lemma_moves_ok_concat(s@, parts_moves(parts@), algo@);
                    lemma_algo_applied_concat(s@, parts_moves(parts@), algo@);
                }
                parts.push(algo);
                let combined = flatten_parts(&parts);
                return Ok((combined, parts));
            }
            i += 1;
        }
        proof {
            assert(moves_ok(s@, parts_moves(parts@)));
        }
        Err(MultiStepError::InvalidState)
    }
}

/// Pushing a stage solution extends the concatenated moves by its moves.
proof fn lemma_parts_moves_push(ps: Seq<Algo>, a: Algo)
    ensures
        parts_moves(ps.push(a)) == parts_moves(ps) + a@,
{
    assert(ps.push(a).drop_last() =~= ps);
    assert(ps.push(a).last() == a);
}

/// Concatenate the per-stage solutions into one.
fn flatten_parts(parts: &Vec<Algo>) -> (r: Algo)
    ensures
        r@ == parts_moves(parts@),
{
    let mut combined: Vec<Move> = Vec::new();
    let mut p: usize = 0;
    while p < parts.len()
        invariant
            p <= parts@.len(),
            combined@ == parts_moves(parts@.take(p as int)),
        decreases parts@.len() - p,
    {
        let part = &parts[p];
        let mut q: usize = 0;
        while q < part.0.len()
            invariant
                q <= part.0@.len(),
                part == &parts[p as int],
                p < parts@.len(),
                combined@ == parts_moves(parts@.take(p as int)) + part.0@.take(q as int),
            decreases part.0@.len() - q,
        {
            combined.push(part.0[q]);
            proof {
                assert(part.0@.take(q + 1) =~= part.0@.take(q as int).push(part.0@[q as int]));
                assert(combined@ =~= parts_moves(parts@.take(p as int)) + part.0@.take(q + 1));
            }
            q += 1;
        }
        proof {
            assert(part.0@.take(part.0@.len() as int) =~= part.0@);
            assert(parts@.take(p + 1).drop_last() =~= parts@.take(p as int));
            assert(parts@.take(p + 1).last() == parts@[p as int]);
            assert(combined@ =~= parts_moves(parts@.take(p + 1)));
        }
        p += 1;
    }
    proof {
        assert(parts@.take(parts@.len() as int) =~= parts@);
    }
    Algo(combined)
}

} // verus!
