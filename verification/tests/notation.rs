use cubedesu::notation::{ascii_letter, chars_of, whitespace};
use cubedesu::{scramble_to_movements, Move, Movement, ParseErrorKind, Turn};
use std::str::FromStr;

#[test]
fn valid_str_to_movement() {
    // test all valid string inputs
    for m in Move::all() {
        for t in Turn::all() {
            let movement_string = format!("{}{}", m.to_string(), t.to_string());
            assert_eq!(Movement::from_str(&movement_string).unwrap(), Movement(m, t));
        }
    }
}

#[test]
fn valid_scramble_to_movements() {
    let scramble = "f L U2 D' r S";
    let movements = scramble_to_movements(scramble).unwrap();
    assert_eq!(
        movements,
        vec![
            Movement(Move::Fw, Turn::Single),
            Movement(Move::L, Turn::Single),
            Movement(Move::U, Turn::Double),
            Movement(Move::D, Turn::Inverse),
            Movement(Move::Rw, Turn::Single),
            Movement(Move::S, Turn::Single),
        ]
    );
}

#[test]
fn invalid_scramble_to_movements() {
    let invalid_scrambles = [
        "f L U2 D' r3 S",
        "FF",
        "u2'",
        "2",
        "F2 D2  D2 d e",
        "2D F2 Z2",
        "Z' z' X' M'2",
    ];
    for scramble in invalid_scrambles {
        assert!(scramble_to_movements(scramble).is_err());
    }
}

#[test]
fn all_moves_and_turns_are_listed_once() {
    let moves = Move::all();
    assert_eq!(moves.len(), 18);
    assert_eq!(moves[0], Move::U);
    assert_eq!(moves[1], Move::Uw);
    assert_eq!(moves[17], Move::Z);
    for i in 0..moves.len() {
        for j in 0..i {
            assert_ne!(moves[i], moves[j]);
        }
    }
    assert_eq!(Turn::all(), [Turn::Single, Turn::Double, Turn::Inverse]);
}

#[test]
fn text_of_moves_and_turns() {
    let expected = [
        "U", "Uw", "L", "Lw", "F", "Fw", "R", "Rw", "B", "Bw", "D", "Dw", "E", "M", "S", "X", "Y", "Z",
    ];
    let moves = Move::all();
    for i in 0..18 {
        assert_eq!(moves[i].as_str(), expected[i]);
        assert_eq!(moves[i].to_string(), expected[i]);
    }
    assert_eq!(Turn::Single.to_string(), "");
    assert_eq!(Turn::Double.to_string(), "2");
    assert_eq!(Turn::Inverse.to_string(), "'");
    assert_eq!(Turn::Inverse.as_str(), "'");
    assert_eq!(Movement(Move::Rw, Turn::Double).to_string(), "Rw2");
    assert_eq!(Movement(Move::Z, Turn::Inverse).to_string(), "Z'");
    assert_eq!(Movement(Move::M, Turn::Single).to_string(), "M");
}

#[test]
fn quarter_turns_of_each_turn() {
    assert_eq!(Turn::Single.quarter_turns(), 1);
    assert_eq!(Turn::Double.quarter_turns(), 2);
    assert_eq!(Turn::Inverse.quarter_turns(), 3);
}

#[test]
fn round_trip_of_every_movement() {
    for m in Move::all() {
        for t in Turn::all() {
            let movement = Movement(m, t);
            assert_eq!(Movement::parse(&movement.to_string()), Ok(movement));
        }
    }
}

#[test]
fn lower_case_shorthand_and_rotations_in_either_case() {
    let wide = [
        ("u", Move::Uw),
        ("l", Move::Lw),
        ("f", Move::Fw),
        ("r", Move::Rw),
        ("b", Move::Bw),
        ("d", Move::Dw),
        ("x", Move::X),
        ("y", Move::Y),
        ("z", Move::Z),
        ("X", Move::X),
        ("Y", Move::Y),
        ("Z", Move::Z),
    ];
    for (text, m) in wide {
        assert_eq!(Movement::parse(text), Ok(Movement(m, Turn::Single)));
        assert_eq!(Movement::parse(&format!("{}2", text)), Ok(Movement(m, Turn::Double)));
        assert_eq!(Movement::parse(&format!("{}'", text)), Ok(Movement(m, Turn::Inverse)));
    }
    assert_eq!(Move::from_chars(&['U', 'w']), Some(Move::Uw));
    assert_eq!(Move::from_chars(&['u']), Some(Move::Uw));
    assert_eq!(Move::from_chars(&['u', 'w']), None);
    assert_eq!(Move::from_chars(&['E', 'w']), None);
    assert_eq!(Move::from_chars(&['X', 'w']), None);
    assert_eq!(Move::from_chars(&[]), None);
    assert_eq!(Move::from_chars(&['U', 'w', 'w']), None);
    assert_eq!(Turn::from_chars(&[]), Some(Turn::Single));
    assert_eq!(Turn::from_chars(&['2']), Some(Turn::Double));
    assert_eq!(Turn::from_chars(&['\'']), Some(Turn::Inverse));
    assert_eq!(Turn::from_chars(&['3']), None);
    assert_eq!(Turn::from_chars(&['2', '2']), None);
}

#[test]
fn turn_starts_after_one_or_two_letters() {
    assert_eq!(Movement::parse("Z'"), Ok(Movement(Move::Z, Turn::Inverse)));
    assert_eq!(Movement::parse("Rw2"), Ok(Movement(Move::Rw, Turn::Double)));
    assert_eq!(Movement::from_chars(&['R', 'w', '\'']), Ok(Movement(Move::Rw, Turn::Inverse)));
    assert_eq!(Movement::from_chars(&['R', 'w']), Ok(Movement(Move::Rw, Turn::Single)));
    assert_eq!(Movement::from_chars(&['R']), Ok(Movement(Move::R, Turn::Single)));
}

#[test]
fn each_kind_of_error_with_its_token_and_message() {
    let e = Movement::parse("").unwrap_err();
    assert_eq!(e.kind, ParseErrorKind::Empty);
    assert_eq!(e.token, "");
    assert_eq!(e.to_string(), "Empty movement.");

    for token in ["FF", "2", "e", "m", "s", "Q", "uw", "Ew", "Xw", "UU2", "é", "éR", "w", "2D"] {
        let e = Movement::parse(token).unwrap_err();
        assert_eq!(e.kind, ParseErrorKind::Move, "{}", token);
        assert_eq!(e.token, token);
        assert_eq!(e.to_string(), format!("Failed to parse Move part in {}", token));
    }
    for token in ["u2'", "M'2", "r3", "U22", "U''", "U 2", "Uw3", "R2w", "R\u{e9}", "U2 "] {
        let e = Movement::parse(token).unwrap_err();
        assert_eq!(e.kind, ParseErrorKind::Turn, "{}", token);
        assert_eq!(e.token, token);
        assert_eq!(e.to_string(), format!("Failed to parse Turn part in {}", token));
    }
    assert_eq!(Movement::from_chars(&[]), Err(ParseErrorKind::Empty));
    assert_eq!(Movement::from_chars(&['F', 'F']), Err(ParseErrorKind::Move));
    assert_eq!(Movement::from_chars(&['u', '2', '\'']), Err(ParseErrorKind::Turn));
}

#[test]
fn scramble_stops_at_the_first_token_that_cannot_be_read() {
    let e = scramble_to_movements("f L U2 D' r3 S").unwrap_err();
    assert_eq!(e.kind, ParseErrorKind::Turn);
    assert_eq!(e.token, "r3");
    let e = scramble_to_movements("F2 D2  D2 d e").unwrap_err();
    assert_eq!(e.kind, ParseErrorKind::Move);
    assert_eq!(e.token, "e");
    let e = scramble_to_movements("2D F2 Z2").unwrap_err();
    assert_eq!(e.kind, ParseErrorKind::Move);
    assert_eq!(e.token, "2D");
    let e = scramble_to_movements("Z' z' X' M'2").unwrap_err();
    assert_eq!(e.kind, ParseErrorKind::Turn);
    assert_eq!(e.token, "M'2");
    // the first of two failures is the one reported
    let e = scramble_to_movements("R U2' FF").unwrap_err();
    assert_eq!(e.kind, ParseErrorKind::Turn);
    assert_eq!(e.token, "U2'");
    let e = scramble_to_movements("\u{3000}R\u{a0}héllo U").unwrap_err();
    assert_eq!(e.kind, ParseErrorKind::Move);
    assert_eq!(e.token, "héllo");
}

#[test]
fn scramble_splits_at_any_whitespace() {
    assert_eq!(scramble_to_movements(""), Ok(vec![]));
    assert_eq!(scramble_to_movements("   \n\t  "), Ok(vec![]));
    assert_eq!(scramble_to_movements("R"), Ok(vec![Movement(Move::R, Turn::Single)]));
    let expected = vec![
        Movement(Move::R, Turn::Single),
        Movement(Move::U, Turn::Inverse),
        Movement(Move::Fw, Turn::Double),
    ];
    assert_eq!(scramble_to_movements("R U' Fw2"), Ok(expected.clone()));
    assert_eq!(scramble_to_movements("  R\tU'\r\n\nFw2  "), Ok(expected.clone()));
    assert_eq!(scramble_to_movements("R\u{a0}U'\u{2003}Fw2\u{3000}"), Ok(expected.clone()));
    assert_eq!(scramble_to_movements("\u{b}R\u{c}U'\u{85}Fw2\u{1680}"), Ok(expected.clone()));
    assert_eq!(scramble_to_movements("R\u{2028}U'\u{2029}Fw2\u{202f}\u{205f}"), Ok(expected));
    // a zero-width space is no whitespace
    assert!(scramble_to_movements("R\u{200b}U").is_err());
}

#[test]
fn whitespace_is_that_of_the_standard_library() {
    for code in 0..0x11_0000u32 {
        if let Some(c) = char::from_u32(code) {
            assert_eq!(whitespace(c), c.is_whitespace(), "{:x}", code);
            assert_eq!(ascii_letter(c), c.is_ascii_alphabetic(), "{:x}", code);
        }
    }
}

#[test]
fn characters_of_a_string() {
    assert_eq!(chars_of(""), Vec::<char>::new());
    assert_eq!(chars_of("Rw2"), vec!['R', 'w', '2']);
    assert_eq!(chars_of("é\u{3000}z"), vec!['é', '\u{3000}', 'z']);
}
