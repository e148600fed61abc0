use locky_puzzle::Algo;
use locky_puzzle::Direction;
use locky_puzzle::Face;
use locky_puzzle::Move;
use locky_puzzle::State;
use locky_puzzle::Turns;
use locky_puzzle::Face::{U, D, F, B, R, L};
use locky_puzzle::Turns::{Clockwise, Double, Counter};

fn state_from_moves(moves: &[Move]) -> State {
    let mut state = State::default();
    for m in moves {
        m.apply(&mut state);
    }
    state
}

fn test_scramble(moves: &[Move], stickers: &[Face]) {
    let state = state_from_moves(moves);
    for (i, (actual, expected)) in state.0.iter().zip(stickers).enumerate() {
        assert!(
            &actual.face == expected,
            "bad sticker at {} (expected {:?}, got {:?})",
            i,
            expected,
            actual.face
        );
    }
}

/// Test algorithm parsing.
#[test]
fn parse_algo() {
    let actual: Algo = "R' U D'   F2 \t L' B2".parse().unwrap();
    let expected = vec![
        Move { face: Face::R, turns: Turns::Counter },
        Move { face: Face::U, turns: Turns::Clockwise },
        Move { face: Face::D, turns: Turns::Counter },
        Move { face: Face::F, turns: Turns::Double },
        Move { face: Face::L, turns: Turns::Counter },
        Move { face: Face::B, turns: Turns::Double },
    ];
    assert_eq!(actual.0, expected);

    assert!("R3 U".parse::<Algo>().is_err());
    assert!("RU".parse::<Algo>().is_err());
}

/// Test algorithm stringification.
#[test]
fn stringify_algo() {
    let algo = Algo(vec![
        Move { face: Face::R, turns: Turns::Counter },
        Move { face: Face::U, turns: Turns::Clockwise },
        Move { face: Face::D, turns: Turns::Counter },
        Move { face: Face::F, turns: Turns::Double },
        Move { face: Face::L, turns: Turns::Counter },
        Move { face: Face::B, turns: Turns::Double },
    ]);
    assert_eq!(algo.stringify(), "R' U D' F2 L' B2");
}

/// Test U moves.
#[test]
fn u_move() {
    let scramble = [Move { face: U, turns: Turns::Counter }];
    let stickers = [
        U, U, U, U, U, U, U, U,
        D, D, D, D, D, D, D, D,
        L, L, L, F, F, F, F, F,
        R, R, R, B, B, B, B, B,
        F, F, F, R, R, R, R, R,
        B, B, B, L, L, L, L, L,
    ];
    test_scramble(&scramble, &stickers);
}

/// Test R moves.
#[test]
fn r_move() {
    let scramble = [Move { face: R, turns: Turns::Double }];
    let stickers = [
        U, U, D, U, D, U, U, D,
        D, D, U, D, U, D, D, U,
        F, F, B, F, B, F, F, B,
        F, B, B, F, B, F, B, B,
        R, R, R, R, R, R, R, R,
        L, L, L, L, L, L, L, L,
    ];
    test_scramble(&scramble, &stickers);
}

/// Test B moves.
#[test]
fn b_move() {
    let scramble = [Move { face: B, turns: Turns::Counter }];
    let stickers = [
        L, L, L, U, U, U, U, U,
        D, D, D, D, D, R, R, R,
        F, F, F, F, F, F, F, F,
        B, B, B, B, B, B, B, B,
        R, R, U, R, U, R, R, U,
        D, L, L, D, L, D, L, L,
    ];
    test_scramble(&scramble, &stickers);
}

/// Test the scramble "U' R2".
#[test]
fn short_scramble_u3_r2() {
    let scramble = [
        Move { face: U, turns: Turns::Counter },
        Move { face: R, turns: Turns::Double },
    ];
    let stickers = [
        U, U, D, U, D, U, U, D,
        D, D, U, D, U, D, D, U,
        L, L, B, F, B, F, F, R,
        F, R, R, F, B, L, B, B,
        R, R, R, R, R, F, F, F,
        B, B, B, L, L, L, L, L,
    ];
    test_scramble(&scramble, &stickers);
}

/// Test the scramble "D B2".
#[test]
fn short_scramble_d_b2() {
    let scramble = [
        Move { face: D, turns: Turns::Clockwise },
        Move { face: B, turns: Turns::Double },
    ];
    let stickers = [
        D, D, D, U, U, U, U, U,
        D, D, D, D, D, U, U, U,
        F, F, F, F, F, L, L, L,
        R, R, R, B, B, B, B, B,
        R, R, B, R, L, F, F, L,
        F, L, L, R, L, R, B, B,
    ];
    test_scramble(&scramble, &stickers);
}

/// Test the scramble "F2 L'".
#[test]
fn short_scramble_f2_l3() {
    let scramble = [
        Move { face: F, turns: Turns::Double },
        Move { face: L, turns: Turns::Counter },
    ];
    let stickers = [
        F, U, U, F, U, F, D, D,
        B, U, U, B, D, B, D, D,
        U, F, F, D, F, D, F, F,
        B, B, D, B, U, B, B, U,
        L, R, R, L, R, L, R, R,
        R, R, R, L, L, L, L, L,
    ];
    test_scramble(&scramble, &stickers);
}

/// Test a long scramble for a traditional cube.
/// This may make invalid moves, but still tests edge directions.
#[test]
fn long_scramble() {
    // U F' D' B2 F R2 F2 L' D2 B U R2 D R2 B2 D L2 F2 L2 U B2
    let moves = [
        Move { face: U, turns: Clockwise },
        Move { face: F, turns: Counter },
        Move { face: D, turns: Counter },
        Move { face: B, turns: Double },
        Move { face: F, turns: Clockwise },
        Move { face: R, turns: Double },
        Move { face: F, turns: Double },
        Move { face: L, turns: Counter },
        Move { face: D, turns: Double },
        Move { face: B, turns: Clockwise },
        Move { face: U, turns: Clockwise },
        Move { face: R, turns: Double },
        Move { face: D, turns: Clockwise },
        Move { face: R, turns: Double },
        Move { face: B, turns: Double },
        Move { face: D, turns: Clockwise },
        Move { face: L, turns: Double },
        Move { face: F, turns: Double },
        Move { face: L, turns: Double },
        Move { face: U, turns: Clockwise },
        Move { face: B, turns: Double },
    ];
    let stickers = [
        L, B, R, F, R, L, U, B,
        U, D, L, B, U, R, D, B,
        F, L, L, L, R, R, B, U,
        F, R, B, R, L, R, F, D,
        U, F, U, U, D, F, B, D,
        D, U, D, D, F, F, L, B,
    ];
    test_scramble(&moves, &stickers);
    let counter_indices = [8 * 5 + 1, 8 + 4, 8 * 3 + 4, 8 * 2 + 1, 1, 8 + 3];
    let clockwise_indices = [8 + 1, 8 + 6, 8 * 2 + 4, 8 * 3 + 3, 8 * 5 + 4, 8 * 4 + 1];
    let state = state_from_moves(&moves);
    for index in &counter_indices {
        assert_eq!(state.0[*index].direction, Direction::Counter);
    }
    for index in &clockwise_indices {
        assert_eq!(state.0[*index].direction, Direction::Clockwise);
    }
    for (i, sticker) in state.0.iter().enumerate() {
        if !counter_indices.contains(&i) && !clockwise_indices.contains(&i) {
            assert_eq!(sticker.direction, Direction::Neutral);
        }
    }
}

/// A move followed by its inverse restores the state, move by move.
#[test]
fn move_then_inverse_restores() {
    let scramble: Algo = Algo::parse("B D2 B' U2 L2").unwrap();
    let base = scramble.state();
    for face in [Face::U, Face::D, Face::F, Face::B, Face::R, Face::L] {
        for turns in [Turns::Clockwise, Turns::Double, Turns::Counter] {
            let m = Move { face, turns };
            let mut state = base;
            m.apply(&mut state);
            m.inverse().apply(&mut state);
            for i in 0..48 {
                assert_eq!(state.0[i], base.0[i]);
            }
        }
    }
}

/// Formatting and parsing round-trip: what an algorithm prints parses back
/// to the same algorithm.
#[test]
fn parse_stringify_roundtrip() {
    let text = "R U R' U' R' F R2 U' R' U' R U R' F'";
    let algo = Algo::parse(text).unwrap();
    assert_eq!(algo.stringify(), text);
    let again = Algo::parse(&algo.stringify()).unwrap();
    assert_eq!(again, algo);
}

/// An empty or all-whitespace string parses to the empty algorithm, and a
/// single token parses as a move.
#[test]
fn parse_empty_and_single() {
    let empty: Algo = "".parse().unwrap();
    assert_eq!(empty.0.len(), 0);
    let blank: Algo = "  \t ".parse().unwrap();
    assert_eq!(blank.0.len(), 0);
    let m: Move = "F2".parse().unwrap();
    assert_eq!(m, Move { face: Face::F, turns: Turns::Double });
    assert!("F3".parse::<Move>().is_err());
    assert!("".parse::<Move>().is_err());
}

/// A parse error names the offending token.
#[test]
fn parse_error_token() {
    let err = Algo::parse("R2 X' L").unwrap_err();
    assert_eq!(err.move_str(), "X'");
    assert_eq!(err.message(), "invalid move: X'");
    let err = Algo::parse("R3 U").unwrap_err();
    assert_eq!(err.move_str(), "R3");
}
