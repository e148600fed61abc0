//! Parsing the sticker rows of an interactively entered state.

use vstd::prelude::*;

use crate::moves::spec_char_face;
use crate::state::Direction;
use crate::state::Face;
use crate::state::State;
use crate::state::Sticker;
use crate::state::face_index;
use crate::state::native_direction;

verus! {

/// One step of the row scan: a face letter appends a sticker, a `^` attaches
/// the standard direction of the sticker before it, on an edge position
/// only; anything else is rejected with its message.
pub open spec fn row_scan(cs: Seq<char>, acc: Seq<Sticker>) -> Result<Seq<Sticker>, Seq<char>>
    decreases cs.len(),
{
    if cs.len() == 0 {
        if acc.len() < 9 {
            Err("not enough characters"@)
        } else {
            Ok(acc)
        }
    } else if cs[0] == '^' {
        if acc.len() == 2 || acc.len() == 4 || acc.len() == 6 || acc.len() == 8 {
            let prev = acc[acc.len() - 1];
            row_scan(
                cs.skip(1),
                acc.update(
                    acc.len() - 1,
                    Sticker { face: prev.face, direction: native_direction(prev.face) },
                ),
            )
        } else {
            Err("invalid placement of '^' (must be after an edge)"@)
        }
    } else if acc.len() == 9 {
        Err("excess character: "@ + seq![cs[0]])
    } else {
        match spec_char_face(cs[0]) {
            Some(f) => row_scan(cs.skip(1), acc.push(Sticker { face: f, direction: Direction::Neutral })),
            None => Err("invalid character: "@ + seq![cs[0]]),
        }
    }
}

/// What a whole row of input parses to: nine stickers, or the message of the
/// first offense. A row shorter than nine characters is rejected outright.
pub open spec fn spec_parse_row(cs: Seq<char>) -> Result<Seq<Sticker>, Seq<char>> {
    if cs.len() < 9 {
        Err("line not long enough"@)
    } else {
        row_scan(cs, Seq::empty())
    }
}

/// Parse one face's row of input: nine face letters, each edge letter
/// optionally followed by `^` to give it the standard direction of its face.
pub fn parse_sticker_row(line: &str) -> (r: Result<Vec<Sticker>, String>)
    ensures
        match r {
            Ok(v) => spec_parse_row(line@) == Ok::<Seq<Sticker>, Seq<char>>(v@) && v@.len() == 9,
            Err(m) => spec_parse_row(line@) matches Err(t) && m@ == t,
        },
{
    let chars = crate::moves::str_chars(line);
    let n = chars.len();
    if n < 9 {
        return Err("line not long enough".to_owned());
    }
    let mut acc: Vec<Sticker> = Vec::new();
    let mut k: usize = 0;
    proof {
        assert(chars@.skip(0) =~= chars@);
    }
    while k < n
        invariant
            k <= n,
            n == chars@.len(),
            chars@ == line@,
            n >= 9,
            acc@.len() <= 9,
            row_scan(chars@.skip(k as int), acc@) == spec_parse_row(line@),
        decreases n - k,
    {
        let c = chars[k];
        proof {
            assert(chars@.skip(k as int)[0] == chars@[k as int]);
            assert(chars@.skip(k as int).skip(1) =~= chars@.skip(k + 1));
        }
        if c == '^' {
            let len = acc.len();
            if len == 2 || len == 4 || len == 6 || len == 8 {
                let prev = acc[len - 1];
                let dir = prev.face.standard_direction();
                acc[len - 1] = Sticker { face: prev.face, direction: dir };
            } else {
                return Err("invalid placement of '^' (must be after an edge)".to_owned());
            }
        } else if acc.len() == 9 {
            let mut msg: String = "excess character: ".to_owned();
            crate::moves::push_char(&mut msg, c);
            proof {
                assert(msg@ =~= "excess character: "@ + seq![c]);
            }
            return Err(msg);
        } else {
            match crate::moves::char_face(c) {
                Some(f) => {
                    acc.push(Sticker { face: f, direction: Direction::Neutral });
                },
                None => {
                    let mut msg: String = "invalid character: ".to_owned();
                    crate::moves::push_char(&mut msg, c);
                    proof {
                        assert(msg@ =~= "invalid character: "@ + seq![c]);
                    }
                    return Err(msg);
                },
            }
        }
        k += 1;
    }
    proof {
        assert(chars@.skip(n as int) =~= Seq::<char>::empty());
    }
    if acc.len() < 9 {
        return Err("not enough characters".to_owned());
    }
    Ok(acc)
}

/// A face's eight slots replaced by a row of nine stickers, the center one
/// skipped.
pub open spec fn face_row_applied(s: Seq<Sticker>, f: Face, row: Seq<Sticker>) -> Seq<Sticker> {
    Seq::new(
        48,
        |j: int|
            if face_index(f) * 8 <= j < face_index(f) * 8 + 8 {
                if j - face_index(f) * 8 < 4 {
                    row[j - face_index(f) * 8]
                } else {
                    row[j - face_index(f) * 8 + 1]
                }
            } else {
                s[j]
            },
    )
}

/// Fill one face of a state from a parsed row of nine stickers. The center
/// sticker must carry the face's own letter and no arrow; its eight
/// neighbors become the face's stickers.
pub fn set_face_row(state: &mut State, f: Face, row: &Vec<Sticker>) -> (r: Result<(), String>)
    requires
        row@.len() == 9,
    ensures
        (r is Ok) == (row@[4].face == f && row@[4].direction == Direction::Neutral),
        r is Ok ==> final(state)@ == face_row_applied(old(state)@, f, row@),
        r is Err ==> final(state)@ == old(state)@,
{
    let center = row[4];
    if !(center.face == f) || !(center.direction == Direction::Neutral) {
        return Err("invalid center sticker".to_owned());
    }
    let base = f.index() * 8;
    let mut i: usize = 0;
    while i < 8
        invariant
            i <= 8,
            base == face_index(f) * 8,
            row@.len() == 9,
            forall|j: int|
                face_index(f) * 8 <= j < face_index(f) * 8 + i ==> state@[j]
                    == face_row_applied(old(state)@, f, row@)[j],
            forall|j: int|
                0 <= j < 48 && !(face_index(f) * 8 <= j < face_index(f) * 8 + i) ==> state@[j]
                    == old(state)@[j],
        decreases 8 - i,
    {
        let ghost prev = state@;
        if i < 4 {
            state.0[base + i] = row[i];
        } else {
            state.0[base + i] = row[i + 1];
        }
        proof {
            assert forall|j: int|
                face_index(f) * 8 <= j < face_index(f) * 8 + i + 1 implies state@[j]
                == face_row_applied(old(state)@, f, row@)[j] by {
                if j < face_index(f) * 8 + i {
                    assert(state@[j] == prev[j]);
                }
            }
        }
        i += 1;
    }
    proof {
        assert(state@ =~= face_row_applied(old(state)@, f, row@));
    }
    Ok(())
}

/// Check a complete state for consistency. Every state a row scan can build
/// is accepted.
pub fn validate_state(s: &State) -> (r: Result<(), String>)
    ensures
        r is Ok,
{
    Ok(())
}

} // verus!
