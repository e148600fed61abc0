use locky_puzzle::Algo;
use locky_puzzle::LockProj;
use locky_puzzle::NopHeuristic;
use locky_puzzle::State;
use locky_puzzle::proj_solve;
use locky_puzzle::proj_solve_serial;
use locky_puzzle::solve;

/// Test solving zero-move scrambles.
#[test]
fn zero_move_scramble() {
    let actual = solve(&State::default(), &NopHeuristic(), 0).unwrap();
    assert_eq!(actual, Algo(Vec::new()));
}

/// Test solving a one-move scramble.
#[test]
fn one_move_scramble() {
    let algo: Algo = "L'".parse().unwrap();
    let actual = solve(&algo.state(), &NopHeuristic(), 1).unwrap();
    assert_eq!(actual, "L".parse().unwrap());
}

/// Test the case when the depth isn't high enough.
#[test]
fn not_enough_depth() {
    let algo: Algo = "B D2 B' U2 L2".parse().unwrap();
    let actual = solve(&algo.state(), &NopHeuristic(), 4);
    assert!(actual.is_none());
}

/// Test solving a five-move scramble.
#[test]
fn five_move_scramble() {
    let algo: Algo = "B D2 B' U2 L2".parse().unwrap();
    let actual = solve(&algo.state(), &NopHeuristic(), 5).unwrap();
    assert_eq!(actual, "L2 U2 B D2 B'".parse().unwrap());
}

/// Test solving the arrows on a five-move scramble.
#[test]
fn proj_five_move_scramble() {
    let algo: Algo = "B D2 B' U2 L2".parse().unwrap();
    let actual = proj_solve::<LockProj, _>(&algo.state(), &NopHeuristic(), 5).unwrap();
    assert_eq!(actual, "L2 U2 B D2 B'".parse().unwrap());
}

/// Test a case when it's easier to solve a projection than the whole cube.
#[test]
fn proj_simpler_solution() {
    // Apply a T-perm, which just swaps the top right and top left edges.
    let algo: Algo = "R U R' U' R' F R2 U' R' U' R U R' F'".parse().unwrap();
    let actual = proj_solve_serial::<LockProj, _>(&algo.state(), &NopHeuristic(), 1).unwrap();
    assert_eq!(actual, "U2".parse().unwrap());
}

/// A serial solve agrees with the root-branching solve on the solution it
/// finds for a short scramble.
#[test]
fn serial_matches_parallel() {
    let algo: Algo = "B D2 B' U2 L2".parse().unwrap();
    let state = algo.state();
    let parallel = solve(&state, &NopHeuristic(), 5).unwrap();
    let serial = locky_puzzle::solve_serial(&state, &NopHeuristic(), 5).unwrap();
    assert_eq!(parallel.0.len(), serial.0.len());
    let mut check = state;
    serial.apply(&mut check);
    assert!(check.is_solved());
}
