use locky_puzzle::AggregateHeuristic;
use locky_puzzle::Algo;
use locky_puzzle::ArrowAxisProj;
use locky_puzzle::CoFbProj;
use locky_puzzle::CoRlProj;
use locky_puzzle::CoUdProj;
use locky_puzzle::CornerFbProj;
use locky_puzzle::CornerProj;
use locky_puzzle::CornerRlProj;
use locky_puzzle::CornerUdProj;
use locky_puzzle::Heuristic;
use locky_puzzle::LockProj;
use locky_puzzle::MaxHeuristic;
use locky_puzzle::NopHeuristic;
use locky_puzzle::Proj;
use locky_puzzle::ProjHeuristic;
use locky_puzzle::State;

#[test]
fn generate_heuristic() {
    let corners_1: ProjHeuristic<CornerProj> = ProjHeuristic::generate(1);
    assert_eq!(corners_1.table.len(), 19);

    let corners_2: ProjHeuristic<CornerProj> = ProjHeuristic::generate(2);
    assert_eq!(corners_2.table.len(), 190);

    let corners_5: ProjHeuristic<CornerProj> = ProjHeuristic::generate(5);
    assert_eq!(corners_5.table.len(), 77362);

    let arrows_5: ProjHeuristic<ArrowAxisProj> = ProjHeuristic::generate(5);
    assert_eq!(arrows_5.table.len(), 66756);

    let co_5_ud: ProjHeuristic<CoUdProj> = ProjHeuristic::generate(5);
    assert_eq!(co_5_ud.table.len(), 71055);

    let co_5_fb: ProjHeuristic<CoFbProj> = ProjHeuristic::generate(5);
    assert_eq!(co_5_fb.table.len(), 71055);

    let co_5_rl: ProjHeuristic<CoRlProj> = ProjHeuristic::generate(5);
    assert_eq!(co_5_rl.table.len(), 71055);

    let corner_5_ud: ProjHeuristic<CornerUdProj> = ProjHeuristic::generate(5);
    assert_eq!(corner_5_ud.table.len(), 71074);

    let corner_5_fb: ProjHeuristic<CornerFbProj> = ProjHeuristic::generate(5);
    assert_eq!(corner_5_fb.table.len(), 71074);

    let corner_5_rl: ProjHeuristic<CornerRlProj> = ProjHeuristic::generate(5);
    assert_eq!(corner_5_rl.table.len(), 71074);
}

/// The solved state sits at distance 0 in every table, so its bound is 0.
#[test]
fn solved_lower_bound_is_zero() {
    let corners: ProjHeuristic<CornerProj> = ProjHeuristic::generate(2);
    assert_eq!(corners.lower_bound(&State::solved()), 0);
    let arrows: ProjHeuristic<ArrowAxisProj> = ProjHeuristic::generate(2);
    assert_eq!(arrows.lower_bound(&State::solved()), 0);
}

/// A table built at least as deep as a scramble is long never overestimates
/// that scramble's distance. The scrambles here follow the move generator's
/// ordering rule and turn no locked face, as search paths do.
#[test]
fn heuristic_admissible_on_scrambles() {
    let corners: ProjHeuristic<CornerProj> = ProjHeuristic::generate(5);
    let arrows: ProjHeuristic<ArrowAxisProj> = ProjHeuristic::generate(5);
    let scrambles = ["", "L'", "B D2 B'", "B D2 B' U2 L2"];
    for text in scrambles {
        let algo = Algo::parse(text).unwrap();
        let mut state = State::solved();
        for m in &algo.0 {
            assert!(!state.is_locked(m.face));
            m.apply(&mut state);
        }
        let len = algo.0.len();
        assert!(corners.lower_bound(&state) as usize <= len);
        assert!(arrows.lower_bound(&state) as usize <= len);
    }
}

/// The max-combinator returns the largest component bound, and the trivial
/// heuristic returns 0.
#[test]
fn max_of_heuristics() {
    let state = Algo::parse("R U R'").unwrap().state();
    assert_eq!(NopHeuristic().lower_bound(&state), 0);

    let shallow: ProjHeuristic<CornerProj> = ProjHeuristic::generate(1);
    let deeper: ProjHeuristic<CornerProj> = ProjHeuristic::generate(3);
    let a = shallow.lower_bound(&state);
    let b = deeper.lower_bound(&state);
    let max = MaxHeuristic(vec![shallow, deeper]);
    let bound = max.lower_bound(&state);
    assert_eq!(bound, a.max(b));
    assert_eq!(MaxHeuristic::<NopHeuristic>(vec![]).lower_bound(&state), 0);
}

/// The aggregate over optional tables takes the largest present bound and
/// claims nothing when empty.
#[test]
fn aggregate_of_tables() {
    let state = Algo::parse("B D2 B'").unwrap().state();
    let corner: ProjHeuristic<CornerProj> = ProjHeuristic::generate(3);
    let lock: ProjHeuristic<LockProj> = ProjHeuristic::generate(3);
    let a = corner.lower_bound(&state);
    let b = lock.lower_bound(&state);
    let aggregate = AggregateHeuristic {
        corner: Some(corner),
        arrow_axis: None,
        co_fb: None,
        co_rl: None,
        co_ud: None,
        corner_fb: None,
        corner_rl: None,
        corner_ud: None,
        lock: Some(lock),
    };
    assert_eq!(aggregate.lower_bound(&state), a.max(b));
    let empty = AggregateHeuristic {
        corner: None,
        arrow_axis: None,
        co_fb: None,
        co_rl: None,
        co_ud: None,
        corner_fb: None,
        corner_rl: None,
        corner_ud: None,
        lock: None,
    };
    assert_eq!(empty.lower_bound(&state), 0);
}

/// Projecting is deterministic: the same state always packs to the same
/// value, and an unsolved state projects away from the solved image.
#[test]
fn projection_deterministic() {
    let state = Algo::parse("R U R' F2").unwrap().state();
    let p1 = CornerProj::project(&state);
    let p2 = CornerProj::project(&state);
    assert!(p1.eq_proj(&p2));
    let solved = CornerProj::project(&State::solved());
    assert!(!p1.eq_proj(&solved));

    let a1 = ArrowAxisProj::project(&state);
    let a2 = ArrowAxisProj::project(&state);
    assert!(a1.eq_proj(&a2));
}
