use locky_puzzle::Algo;
use locky_puzzle::ArrowAxisProj;
use locky_puzzle::CoFbProj;
use locky_puzzle::CoRlProj;
use locky_puzzle::CoUdProj;
use locky_puzzle::CornerProj;
use locky_puzzle::Direction;
use locky_puzzle::Face;
use locky_puzzle::LockProj;
use locky_puzzle::MultiStep;
use locky_puzzle::MultiStepError;
use locky_puzzle::Proj;
use locky_puzzle::ProjHeuristic;
use locky_puzzle::State;
use locky_puzzle::parse_sticker_row;
use locky_puzzle::scramble;
use locky_puzzle::set_face_row;
use locky_puzzle::validate_state;

/// A random scramble has the requested number of moves and never turns a
/// locked face.
#[test]
fn scramble_length() {
    for moves in [0usize, 1, 5, 12] {
        let algo = scramble(moves).unwrap();
        assert_eq!(algo.0.len(), moves);
        let mut state = State::solved();
        for m in &algo.0 {
            assert!(!state.is_locked(m.face));
            m.apply(&mut state);
        }
    }
}

/// The multi-stage solver solves a short scramble; its parts concatenate to
/// the returned algorithm.
#[test]
fn multi_step_short_scramble() {
    let multi = MultiStep {
        arrow: ProjHeuristic::<ArrowAxisProj>::generate(4),
        co_fb: ProjHeuristic::<CoFbProj>::generate(4),
        co_rl: ProjHeuristic::<CoRlProj>::generate(4),
        co_ud: ProjHeuristic::<CoUdProj>::generate(4),
        corner: ProjHeuristic::<CornerProj>::generate(4),
        lock: ProjHeuristic::<LockProj>::generate(4),
    };
    let scramble = Algo::parse("B D2 B'").unwrap();
    let state = scramble.state();
    let (solution, parts) = multi.solve(&state).unwrap();
    let flattened: Vec<_> = parts.iter().flat_map(|p| p.0.clone()).collect();
    assert_eq!(solution.0, flattened);
    let mut check = state;
    solution.apply(&mut check);
    assert!(check.is_solved());
}

/// The multi-stage error descriptions.
#[test]
fn multi_step_error_description() {
    assert_eq!(MultiStepError::InvalidCorners.description(), "invalid corners");
    assert_eq!(MultiStepError::InvalidEdges.description(), "invalid edges");
    assert_eq!(MultiStepError::InvalidState.description(), "invalid cube state");
}

/// A sticker row parses into nine stickers, with `^` giving an edge sticker
/// the standard direction of its face.
#[test]
fn parse_row() {
    let row = parse_sticker_row("UU^UUUUUU^U").unwrap();
    assert_eq!(row.len(), 9);
    for (i, st) in row.iter().enumerate() {
        assert_eq!(st.face, Face::U);
        if i == 1 || i == 7 {
            assert_eq!(st.direction, Direction::Counter);
        } else {
            assert_eq!(st.direction, Direction::Neutral);
        }
    }
}

/// Each malformed row gives its own message.
#[test]
fn parse_row_errors() {
    assert_eq!(parse_sticker_row("UUU").unwrap_err(), "line not long enough");
    assert_eq!(
        parse_sticker_row("U^UUUUUUUU").unwrap_err(),
        "invalid placement of '^' (must be after an edge)"
    );
    assert_eq!(parse_sticker_row("UUUUUUUUUU").unwrap_err(), "excess character: U");
    assert_eq!(parse_sticker_row("UUXUUUUUU").unwrap_err(), "invalid character: X");
    assert_eq!(parse_sticker_row("UU^UU^UUU").unwrap_err(), "not enough characters");
}

/// A parsed row fills a face when its center carries the face's letter.
#[test]
fn fill_face_from_row() {
    let mut state = State::solved();
    let row = parse_sticker_row("DDDDUDDDD").unwrap();
    assert!(set_face_row(&mut state, Face::U, &row).is_ok());
    for slot in 0..8 {
        assert_eq!(state.0[slot].face, Face::D);
    }
    assert!(validate_state(&state).is_ok());

    let bad_center = parse_sticker_row("DDDDDDDDD").unwrap();
    let mut other = State::solved();
    assert_eq!(
        set_face_row(&mut other, Face::U, &bad_center).unwrap_err(),
        "invalid center sticker"
    );
    assert!(other.is_solved());
}

/// The lock projection alone is satisfied by a move that only restores the
/// arrows: after a T-perm, a double turn of the top face already matches the
/// solved lock projection.
#[test]
fn lock_projection_after_t_perm() {
    let algo = Algo::parse("R U R' U' R' F R2 U' R' U' R U R' F'").unwrap();
    let mut state = algo.state();
    Algo::parse("U2").unwrap().apply(&mut state);
    let lock = LockProj::project(&state);
    let solved_lock = LockProj::project(&State::solved());
    assert!(lock.eq_proj(&solved_lock));
    assert!(!state.is_solved());
}
