//! The textual notation of moves: one or two letters for the move, then an optional
//! modifier for the turn.

use vstd::prelude::*;
use vstd::slice::slice_subrange;
use vstd::string::{StrSliceExecFns, StringExecFns};

verus! {

/// The base of a move: which layers turn, and about which axis.
#[derive(Copy, Clone, Debug, PartialEq, Eq, Structural)]
pub enum Move {
    // outer layers, each with its wide variant that takes the next layer along
    U,
    Uw,
    L,
    Lw,
    F,
    Fw,
    R,
    Rw,
    B,
    Bw,
    D,
    Dw,
    // middle slices
    E,
    M,
    S,
    // rotations of the whole cube
    X,
    Y,
    Z,
}

/// How far a move turns.
#[derive(Copy, Clone, Debug, PartialEq, Eq, Structural)]
pub enum Turn {
    /// One quarter turn clockwise.
    Single,
    /// A half turn.
    Double,
    /// One quarter turn counter-clockwise, the same as three clockwise.
    Inverse,
}

/// A move together with the amount it turns.
#[derive(Copy, Clone, Debug, PartialEq, Eq, Structural)]
pub struct Movement(pub Move, pub Turn);

impl Move {
    /// The text a move is written as.
    pub open spec fn notation(self) -> Seq<char> {
        match self {
            Move::U => seq!['U'],
            Move::Uw => seq!['U', 'w'],
            Move::L => seq!['L'],
            Move::Lw => seq!['L', 'w'],
            Move::F => seq!['F'],
            Move::Fw => seq!['F', 'w'],
            Move::R => seq!['R'],
            Move::Rw => seq!['R', 'w'],
            Move::B => seq!['B'],
            Move::Bw => seq!['B', 'w'],
            Move::D => seq!['D'],
            Move::Dw => seq!['D', 'w'],
            Move::E => seq!['E'],
            Move::M => seq!['M'],
            Move::S => seq!['S'],
            Move::X => seq!['X'],
            Move::Y => seq!['Y'],
            Move::Z => seq!['Z'],
        }
    }

    /// The move that is written as the single letter `c`. An upper-case face letter is
    /// the outer layer and its lower-case form the wide variant; slices are upper case
    /// only; rotations are read in either case.
    pub open spec fn from_letter(c: char) -> Option<Move> {
        if c == 'U' {
            Some(Move::U)
        } else if c == 'u' {
            Some(Move::Uw)
        } else if c == 'L' {
            Some(Move::L)
        } else if c == 'l' {
            Some(Move::Lw)
        } else if c == 'F' {
            Some(Move::F)
        } else if c == 'f' {
            Some(Move::Fw)
        } else if c == 'R' {
            Some(Move::R)
        } else if c == 'r' {
            Some(Move::Rw)
        } else if c == 'B' {
            Some(Move::B)
        } else if c == 'b' {
            Some(Move::Bw)
        } else if c == 'D' {
            Some(Move::D)
        } else if c == 'd' {
            Some(Move::Dw)
        } else if c == 'E' {
            Some(Move::E)
        } else if c == 'M' {
            Some(Move::M)
        } else if c == 'S' {
            Some(Move::S)
        } else if c == 'X' || c == 'x' {
            Some(Move::X)
        } else if c == 'Y' || c == 'y' {
            Some(Move::Y)
        } else if c == 'Z' || c == 'z' {
            Some(Move::Z)
        } else {
            None
        }
    }

    /// The wide move that is written as the upper-case face letter `c` followed by `w`.
    pub open spec fn wide_from_letter(c: char) -> Option<Move> {
        if c == 'U' {
            Some(Move::Uw)
        } else if c == 'L' {
            Some(Move::Lw)
        } else if c == 'F' {
            Some(Move::Fw)
        } else if c == 'R' {
            Some(Move::Rw)
        } else if c == 'B' {
            Some(Move::Bw)
        } else if c == 'D' {
            Some(Move::Dw)
        } else {
            None
        }
    }

    /// The move that the text `s` denotes, if any.
    pub open spec fn from_notation(s: Seq<char>) -> Option<Move> {
        if s.len() == 1 {
            Self::from_letter(s[0])
        } else if s.len() == 2 && s[1] == 'w' {
            Self::wide_from_letter(s[0])
        } else {
            None
        }
    }

    /// The text a move is written as.
    pub fn as_str(&self) -> (r: &'static str)
        ensures
            r@ == self.notation(),
    {
        let text: &'static str = match self {
            Move::U => "U",
            Move::Uw => "Uw",
            Move::L => "L",
            Move::Lw => "Lw",
            Move::F => "F",
            Move::Fw => "Fw",
            Move::R => "R",
            Move::Rw => "Rw",
            Move::B => "B",
            Move::Bw => "Bw",
            Move::D => "D",
            Move::Dw => "Dw",
            Move::E => "E",
            Move::M => "M",
            Move::S => "S",
            Move::X => "X",
            Move::Y => "Y",
            Move::Z => "Z",
        };
        proof {
            reveal_strlit("U");
            reveal_strlit("Uw");
            reveal_strlit("L");
            reveal_strlit("Lw");
            reveal_strlit("F");
            reveal_strlit("Fw");
            reveal_strlit("R");
            reveal_strlit("Rw");
            reveal_strlit("B");
            reveal_strlit("Bw");
            reveal_strlit("D");
            reveal_strlit("Dw");
            reveal_strlit("E");
            reveal_strlit("M");
            reveal_strlit("S");
            reveal_strlit("X");
            reveal_strlit("Y");
            reveal_strlit("Z");
            assert(text@ =~= self.notation());
        }
        text
    }

    /// The text a move is written as, as an owned string.
    pub fn to_string(&self) -> (r: String)
        ensures
            r@ == self.notation(),
    {
        self.as_str().to_owned()
    }

    /// Reads a move from its text.
    pub fn from_chars(text: &[char]) -> (r: Option<Move>)
        ensures
            r == Self::from_notation(text@),
    {
        if text.len() == 1 {
            match text[0] {
                'U' => Some(Move::U),
                'u' => Some(Move::Uw),
                'L' => Some(Move::L),
                'l' => Some(Move::Lw),
                'F' => Some(Move::F),
                'f' => Some(Move::Fw),
                'R' => Some(Move::R),
                'r' => Some(Move::Rw),
                'B' => Some(Move::B),
                'b' => Some(Move::Bw),
                'D' => Some(Move::D),
                'd' => Some(Move::Dw),
                'E' => Some(Move::E),
                'M' => Some(Move::M),
                'S' => Some(Move::S),
                'X' | 'x' => Some(Move::X),
                'Y' | 'y' => Some(Move::Y),
                'Z' | 'z' => Some(Move::Z),
                _ => None,
            }
        } else if text.len() == 2 && text[1] == 'w' {
            match text[0] {
                'U' => Some(Move::Uw),
                'L' => Some(Move::Lw),
                'F' => Some(Move::Fw),
                'R' => Some(Move::Rw),
                'B' => Some(Move::Bw),
                'D' => Some(Move::Dw),
                _ => None,
            }
        } else {
            None
        }
    }

    /// Every move, in the order of declaration.
    pub fn all() -> (r: [Move; 18])
        ensures
            r@ == seq![
                Move::U,
                Move::Uw,
                Move::L,
                Move::Lw,
                Move::F,
                Move::Fw,
                Move::R,
                Move::Rw,
                Move::B,
                Move::Bw,
                Move::D,
                Move::Dw,
                Move::E,
                Move::M,
                Move::S,
                Move::X,
                Move::Y,
                Move::Z,
            ],
            forall|m: Move| r@.contains(m),
    {
        let r = [
            Move::U,
            Move::Uw,
            Move::L,
            Move::Lw,
            Move::F,
            Move::Fw,
            Move::R,
            Move::Rw,
            Move::B,
            Move::Bw,
            Move::D,
            Move::Dw,
            Move::E,
            Move::M,
            Move::S,
            Move::X,
            Move::Y,
            Move::Z,
        ];
        assert forall|m: Move| r@.contains(m) by {
            let i: int = match m {
                Move::U => 0,
                Move::Uw => 1,
                Move::L => 2,
                Move::Lw => 3,
                Move::F => 4,
                Move::Fw => 5,
                Move::R => 6,
                Move::Rw => 7,
                Move::B => 8,
                Move::Bw => 9,
                Move::D => 10,
                Move::Dw => 11,
                Move::E => 12,
                Move::M => 13,
                Move::S => 14,
                Move::X => 15,
                Move::Y => 16,
                Move::Z => 17,
            };
            assert(r@[i] == m);
        }
        r
    }
}

impl Turn {
    /// The text a turn is written as, after the move.
    pub open spec fn notation(self) -> Seq<char> {
        match self {
            Turn::Single => seq![],
            Turn::Double => seq!['2'],
            Turn::Inverse => seq!['\''],
        }
    }

    /// The turn that the text `s` denotes, if any.
    pub open spec fn from_notation(s: Seq<char>) -> Option<Turn> {
        if s.len() == 0 {
            Some(Turn::Single)
        } else if s.len() == 1 && s[0] == '2' {
            Some(Turn::Double)
        } else if s.len() == 1 && s[0] == '\'' {
            Some(Turn::Inverse)
        } else {
            None
        }
    }

    /// The number of clockwise quarter turns that the turn amounts to.
    pub open spec fn spec_quarter_turns(self) -> i16 {
        match self {
            Turn::Single => 1,
            Turn::Double => 2,
            Turn::Inverse => 3,
        }
    }

    /// The number of clockwise quarter turns that the turn amounts to.
    #[verifier::when_used_as_spec(spec_quarter_turns)]
    pub fn quarter_turns(self) -> (n: i16)
        ensures
            n == self.spec_quarter_turns(),
    {
        match self {
            Turn::Single => 1,
            Turn::Double => 2,
            Turn::Inverse => 3,
        }
    }

    /// The text a turn is written as, after the move.
    pub fn as_str(&self) -> (r: &'static str)
        ensures
            r@ == self.notation(),
    {
        let text: &'static str = match self {
            Turn::Single => "",
            Turn::Double => "2",
            Turn::Inverse => "'",
        };
        proof {
            reveal_strlit("");
            reveal_strlit("2");
            reveal_strlit("'");
            assert(text@ =~= self.notation());
        }
        text
    }

    /// The text a turn is written as, as an owned string.
    pub fn to_string(&self) -> (r: String)
        ensures
            r@ == self.notation(),
    {
        self.as_str().to_owned()
    }

    /// Reads a turn from its text.
    pub fn from_chars(text: &[char]) -> (r: Option<Turn>)
        ensures
            r == Self::from_notation(text@),
    {
        if text.len() == 0 {
            Some(Turn::Single)
        } else if text.len() == 1 && text[0] == '2' {
            Some(Turn::Double)
        } else if text.len() == 1 && text[0] == '\'' {
            Some(Turn::Inverse)
        } else {
            None
        }
    }

    /// Every turn, in the order of declaration.
    pub fn all() -> (r: [Turn; 3])
        ensures
            r@ == seq![Turn::Single, Turn::Double, Turn::Inverse],
    {
        [Turn::Single, Turn::Double, Turn::Inverse]
    }
}

/// Which part of a token could not be read.
#[derive(Copy, Clone, Debug, PartialEq, Eq, Structural)]
pub enum ParseErrorKind {
    /// The token has no characters.
    Empty,
    /// The leading letters are no move.
    Move,
    /// What follows the move is no turn.
    Turn,
}

/// Why a token could not be read as a movement, with the token itself.
#[derive(Clone, Debug, PartialEq, Eq)]
pub struct ParseMovementError {
    pub kind: ParseErrorKind,
    pub token: String,
}

impl ParseMovementError {
    /// The message for a reader.
    pub open spec fn message(self) -> Seq<char> {
        match self.kind {
            ParseErrorKind::Empty => "Empty movement."@,
            ParseErrorKind::Move => "Failed to parse Move part in "@ + self.token@,
            ParseErrorKind::Turn => "Failed to parse Turn part in "@ + self.token@,
        }
    }

    /// The message for a reader.
    pub fn to_string(&self) -> (r: String)
        ensures
            r@ == self.message(),
    {
        match self.kind {
            ParseErrorKind::Empty => "Empty movement.".to_owned(),
            ParseErrorKind::Move => {
                let mut text = "Failed to parse Move part in ".to_owned();
                text.append(self.token.as_str());
                text
            },
            ParseErrorKind::Turn => {
                let mut text = "Failed to parse Turn part in ".to_owned();
                text.append(self.token.as_str());
                text
            },
        }
    }
}

/// Whether `c` is one of the 52 letters of ASCII.
pub open spec fn is_ascii_letter(c: char) -> bool {
    ('a' <= c && c <= 'z') || ('A' <= c && c <= 'Z')
}

/// Whether `c` is one of the 52 letters of ASCII.
pub fn ascii_letter(c: char) -> (r: bool)
    ensures
        r == is_ascii_letter(c),
{
    ('a' <= c && c <= 'z') || ('A' <= c && c <= 'Z')
}

impl Movement {
    /// The text a movement is written as: the move, then the turn.
    pub open spec fn notation(self) -> Seq<char> {
        self.0.notation() + self.1.notation()
    }

    /// Where the turn starts in a token that has at least one character: after two
    /// characters if the second is a letter, else after one.
    pub open spec fn turn_start(s: Seq<char>) -> int {
        if s.len() > 1 && is_ascii_letter(s[1]) {
            2
        } else {
            1
        }
    }

    /// The movement that the token `s` denotes, or the part of it that cannot be read.
    pub open spec fn from_notation(s: Seq<char>) -> Result<Movement, ParseErrorKind> {
        if s.len() == 0 {
            Err(ParseErrorKind::Empty)
        } else {
            let k = Self::turn_start(s);
            match Move::from_notation(s.subrange(0, k)) {
                None => Err(ParseErrorKind::Move),
                Some(m) => match Turn::from_notation(s.subrange(k, s.len() as int)) {
                    None => Err(ParseErrorKind::Turn),
                    Some(t) => Ok(Movement(m, t)),
                },
            }
        }
    }

    /// The text a movement is written as.
    pub fn to_string(&self) -> (r: String)
        ensures
            r@ == self.notation(),
    {
        let mut text = self.0.to_string();
        text.append(self.1.as_str());
        text
    }

    /// Reads a movement from the characters of one token.
    pub fn from_chars(token: &[char]) -> (r: Result<Movement, ParseErrorKind>)
        ensures
            r == Self::from_notation(token@),
    {
        let n = token.len();
        if n == 0 {
            return Err(ParseErrorKind::Empty);
        }
        let k: usize = if n > 1 && ascii_letter(token[1]) {
            2
        } else {
            1
        };
        match Move::from_chars(slice_subrange(token, 0, k)) {
            None => Err(ParseErrorKind::Move),
            Some(m) => match Turn::from_chars(slice_subrange(token, k, n)) {
                None => Err(ParseErrorKind::Turn),
                Some(t) => Ok(Movement(m, t)),
            },
        }
    }

    /// Reads a movement from one token. An error names the part that could not be read
    /// and carries the token.
    pub fn parse(s: &str) -> (r: Result<Movement, ParseMovementError>)
        ensures
            match r {
                Ok(m) => Self::from_notation(s@) == Ok::<Movement, ParseErrorKind>(m),
                Err(e) => Self::from_notation(s@) == Err::<Movement, ParseErrorKind>(e.kind)
                    && e.token@ == s@,
            },
    {
        let chars = chars_of(s);
        match Self::from_chars(chars.as_slice()) {
            Ok(m) => Ok(m),
            Err(kind) => Err(ParseMovementError { kind, token: s.to_owned() }),
        }
    }
}

impl std::str::FromStr for Movement {
    type Err = ParseMovementError;

    fn from_str(s: &str) -> (r: Result<Movement, ParseMovementError>)
        ensures
            match r {
                Ok(m) => Movement::from_notation(s@) == Ok::<Movement, ParseErrorKind>(m),
                Err(e) => Movement::from_notation(s@) == Err::<Movement, ParseErrorKind>(e.kind)
                    && e.token@ == s@,
            },
    {
        Movement::parse(s)
    }
}

/// Reading the text that a move is written as gives the move back.
pub proof fn lemma_move_round_trip(m: Move)
    ensures
        Move::from_notation(m.notation()) == Some(m),
{
}

/// Reading the text that a turn is written as gives the turn back.
pub proof fn lemma_turn_round_trip(t: Turn)
    ensures
        Turn::from_notation(t.notation()) == Some(t),
{
}

/// Reading the text that a movement is written as gives the movement back.
pub proof fn lemma_movement_round_trip(movement: Movement)
    ensures
        Movement::from_notation(movement.notation()) == Ok::<Movement, ParseErrorKind>(movement),
{
    let Movement(m, t) = movement;
    let text = movement.notation();
    let k = Movement::turn_start(text);
    assert(k == m.notation().len());
    assert(text.subrange(0, k) =~= m.notation());
    assert(text.subrange(k, text.len() as int) =~= t.notation());
    lemma_move_round_trip(m);
    lemma_turn_round_trip(t);
}

/// Whether `c` has the Unicode property `White_Space`.
pub open spec fn is_whitespace(c: char) -> bool {
    ||| '\u{9}' <= c && c <= '\u{D}'
    ||| c == ' '
    ||| c == '\u{85}'
    ||| c == '\u{A0}'
    ||| c == '\u{1680}'
    ||| '\u{2000}' <= c && c <= '\u{200A}'
    ||| c == '\u{2028}'
    ||| c == '\u{2029}'
    ||| c == '\u{202F}'
    ||| c == '\u{205F}'
    ||| c == '\u{3000}'
}

/// Whether `c` has the Unicode property `White_Space`.
pub fn whitespace(c: char) -> (r: bool)
    ensures
        r == is_whitespace(c),
{
    ('\u{9}' <= c && c <= '\u{D}') || c == ' ' || c == '\u{85}' || c == '\u{A0}' || c
        == '\u{1680}' || ('\u{2000}' <= c && c <= '\u{200A}') || c == '\u{2028}' || c
        == '\u{2029}' || c == '\u{202F}' || c == '\u{205F}' || c == '\u{3000}'
}

/// Where the run of characters that are no whitespace, read from index `i`, ends: the
/// first index from `i` on that holds whitespace, or the length of `s`.
pub open spec fn token_end(s: Seq<char>, i: int) -> int
    decreases s.len() - i,
{
    if i < 0 || i >= s.len() || is_whitespace(s[i]) {
        i
    } else {
        token_end(s, i + 1)
    }
}

/// A token that starts at `i` is not empty and ends within `s`.
pub proof fn lemma_token_end_bounds(s: Seq<char>, i: int)
    requires
        0 <= i < s.len(),
        !is_whitespace(s[i]),
    ensures
        i < token_end(s, i) <= s.len(),
{
    lemma_token_end_from(s, i + 1);
}

/// Reading on from `i` never goes back, and stays within `s`.
pub proof fn lemma_token_end_from(s: Seq<char>, i: int)
    requires
        0 <= i <= s.len(),
    ensures
        i <= token_end(s, i) <= s.len(),
    decreases s.len() - i,
{
    if i < s.len() && !is_whitespace(s[i]) {
        lemma_token_end_from(s, i + 1);
    }
}

/// The tokens of `s` from index `i` on: the maximal runs of characters that are no
/// whitespace, in order.
pub open spec fn tokens_from(s: Seq<char>, i: int) -> Seq<Seq<char>>
    decreases s.len() - i,
{
    if i < 0 || i >= s.len() {
        seq![]
    } else if is_whitespace(s[i]) {
        tokens_from(s, i + 1)
    } else {
        let j = token_end(s, i);
        proof {
            lemma_token_end_bounds(s, i);
        }
        seq![s.subrange(i, j)] + tokens_from(s, j)
    }
}

/// The tokens of `s`: what is left when `s` is split at whitespace, with no empty token.
pub open spec fn tokens(s: Seq<char>) -> Seq<Seq<char>> {
    tokens_from(s, 0)
}

/// Reads a scramble: tokens separated by whitespace, each a movement. The first token that
/// cannot be read ends the reading with its error, and no movement is returned.
pub fn scramble_to_movements(scramble: &str) -> (r: Result<Vec<Movement>, ParseMovementError>)
    ensures
        match r {
            Ok(moves) => {
                &&& moves@.len() == tokens(scramble@).len()
                &&& forall|k: int|
                    0 <= k < moves@.len() ==> Movement::from_notation(#[trigger] tokens(scramble@)[k])
                        == Ok::<Movement, ParseErrorKind>(moves@[k])
            },
            Err(e) => exists|k: int|
                {
                    &&& 0 <= k < tokens(scramble@).len()
                    &&& forall|j: int|
                        0 <= j < k ==> Movement::from_notation(#[trigger] tokens(scramble@)[j]) is Ok
                    &&& Movement::from_notation(#[trigger] tokens(scramble@)[k]) == Err::<
                        Movement,
                        ParseErrorKind,
                    >(e.kind)
                    &&& e.token@ == tokens(scramble@)[k]
                },
        },
{
    let chars = chars_of(scramble);
    let n = chars.len();
    let mut moves: Vec<Movement> = Vec::new();
    let ghost text = scramble@;
    let ghost mut done: Seq<Seq<char>> = seq![];
    let mut i: usize = 0;
    while i < n
        invariant
            i <= n,
            n == chars.len(),
            chars@ == text,
            text == scramble@,
            tokens(text) == done + tokens_from(text, i as int),
            moves@.len() == done.len(),
            forall|k: int|
                0 <= k < done.len() ==> Movement::from_notation(#[trigger] done[k]) == Ok::<
                    Movement,
                    ParseErrorKind,
                >(moves@[k]),
        decreases n - i,
    {
        if whitespace(chars[i]) {
            i += 1;
        } else {
            let start = i;
            let mut j = i + 1;
            while j < n && !whitespace(chars[j])
                invariant
                    start < j <= n,
                    n == chars.len(),
                    chars@ == text,
                    token_end(text, start as int) == token_end(text, j as int),
                decreases n - j,
            {
                j += 1;
            }
            let token = slice_subrange(chars.as_slice(), start, j);
            assert(tokens_from(text, start as int) == seq![token@] + tokens_from(text, j as int));
            match Movement::from_chars(token) {
                Ok(m) => {
                    moves.push(m);
                    proof {
                        assert(tokens(text) == done.push(token@) + tokens_from(text, j as int));
                        done = done.push(token@);
                    }
                },
                Err(kind) => {
                    assert(tokens(text)[done.len() as int] == token@);
                    return Err(
                        ParseMovementError {
                            kind,
                            token: scramble.substring_char(start, j).to_owned(),
                        },
                    );
                },
            }
            i = j;
        }
    }
    assert(tokens(text) == done);
    Ok(moves)
}

/// The characters of `s`, in order.
pub fn chars_of(s: &str) -> (v: Vec<char>)
    ensures
        v@ == s@,
{
    let mut v: Vec<char> = Vec::new();
    for c in it: s.chars()
        invariant
            v.len() == it.index(),
            it.seq() == s@,
            forall|i: int| 0 <= i < v.len() ==> v@[i] == it.seq()[i],
    {
        v.push(c);
    }
    v
}

} // verus!
