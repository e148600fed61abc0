use locky_puzzle::Algo;
use locky_puzzle::Direction;
use locky_puzzle::Face;
use locky_puzzle::State;
use locky_puzzle::Sticker;

/// Test the display output for a solved puzzle.
#[test]
fn solved_display() {
    let actual = State::default().stringify();
    let expected = "[U Uc' U U U U Uc' U, D Dc D D D D Dc D, F F F Fc Fc F F F, ".to_owned()
        + "B B B Bc' Bc' B B B, R Rc R R R R Rc R, L Lc' L L L L Lc' L]";
    assert_eq!(actual, expected);
}

/// The solved state satisfies the solved predicate.
#[test]
fn solved_is_solved() {
    assert!(State::solved().is_solved());
    assert!(State::default().is_solved());
}

/// No face of the solved state is locked.
#[test]
fn solved_is_unlocked() {
    let state = State::solved();
    for face in [Face::U, Face::D, Face::F, Face::B, Face::R, Face::L] {
        assert!(!state.is_locked(face));
    }
}

/// A face holding both arrow directions is locked, and the lock depends only
/// on which directions sit on the face, not where.
#[test]
fn lock_follows_directions() {
    let mut state = State::solved();
    // Put one counter arrow next to U's native counter arrows: still one
    // direction only, unlocked.
    state.set_sticker(0, Sticker { face: Face::U, direction: Direction::Counter });
    assert!(!state.is_locked(Face::U));
    // Now a clockwise arrow on the same face: locked.
    state.set_sticker(3, Sticker { face: Face::U, direction: Direction::Clockwise });
    assert!(state.is_locked(Face::U));
    // Move the same directions to different slots of the face: still locked.
    let mut permuted = State::solved();
    permuted.set_sticker(4, Sticker { face: Face::U, direction: Direction::Counter });
    permuted.set_sticker(7, Sticker { face: Face::U, direction: Direction::Clockwise });
    assert!(permuted.is_locked(Face::U));
}

/// A locked face appears after turns that mix arrow directions, and the
/// solver-facing accessor sees the same stickers as the array.
#[test]
fn face_accessor() {
    let algo = Algo::parse("R U").unwrap();
    let state = algo.state();
    for (fi, face) in [Face::U, Face::D, Face::F, Face::B, Face::R, Face::L]
        .into_iter()
        .enumerate()
    {
        let slice = state.face(face);
        assert_eq!(slice.len(), 8);
        for k in 0..8 {
            assert_eq!(slice[k], state.0[fi * 8 + k]);
        }
    }
}

/// The standard direction of each face matches the solved configuration.
#[test]
fn standard_directions() {
    assert_eq!(Face::U.standard_direction(), Direction::Counter);
    assert_eq!(Face::D.standard_direction(), Direction::Clockwise);
    assert_eq!(Face::F.standard_direction(), Direction::Clockwise);
    assert_eq!(Face::B.standard_direction(), Direction::Counter);
    assert_eq!(Face::R.standard_direction(), Direction::Clockwise);
    assert_eq!(Face::L.standard_direction(), Direction::Counter);
}
