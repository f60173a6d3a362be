//! A cell of the 8x8 board.

use vstd::prelude::*;
use vstd::string::StringExecFns;

verus! {

/// Why a [`Square`] could not be made.
///
/// The first two variants say that a number was out of bounds, the third
/// that a text had an invalid format.
#[derive(Debug, PartialEq, Eq, Clone, Copy, Hash, Structural)]
pub enum SquareError {
    /// A file or rank coordinate was greater than 7.
    XYOutOfBounds,
    /// A linear index was greater than 63.
    IndexOutOfBounds,
    /// A text was not a file letter followed by a rank digit.
    InvalidString,
}

/// One of the 64 cells of the board, given by its file `x` and its rank `y`,
/// both between 0 and 7.
///
/// The two coordinates share one byte: the file in the upper four bits, the
/// rank in the lower four.
#[derive(Debug, PartialEq, Eq, Clone, Copy, Hash, Structural)]
pub struct Square {
    val: u8,
}

/// The ASCII lower-case form of `c`: `'A'..='Z'` move to `'a'..='z'`, every
/// other character stays.
pub open spec fn ascii_lowercase(c: char) -> char {
    if 'A' <= c <= 'Z' {
        ((c as u32) + 32) as char
    } else {
        c
    }
}

/// The file that the letter `c` names, in either case: `'a'` is file 0 and
/// `'h'` is file 7.
pub open spec fn file_of_char(c: char) -> Option<u8> {
    let lower = ascii_lowercase(c);
    if 'a' <= lower <= 'h' {
        Some((lower as u32 - 'a' as u32) as u8)
    } else {
        None
    }
}

/// The rank that the digit `c` names: `'1'` is rank 0 and `'8'` is rank 7.
pub open spec fn rank_of_char(c: char) -> Option<u8> {
    if '1' <= c <= '8' {
        Some((c as u32 - '1' as u32) as u8)
    } else {
        None
    }
}

/// The letter of file `x`.
pub open spec fn file_char(x: u8) -> char {
    ('a' as u32 + x as u32) as char
}

/// The digit of rank `y`.
pub open spec fn rank_char(y: u8) -> char {
    ('1' as u32 + y as u32) as char
}

/// The decimal digit of `d`, for a `d` below ten.
pub open spec fn digit_char(d: u8) -> char {
    ('0' as u32 + d as u32) as char
}

/// The coordinates `(x, y)` that a text in algebraic notation names, if it is
/// one: exactly two characters, a file letter and then a rank digit.
pub open spec fn parse_notation(s: Seq<char>) -> Option<(u8, u8)> {
    if s.len() == 2 {
        match (file_of_char(s[0]), rank_of_char(s[1])) {
            (Some(x), Some(y)) => Some((x, y)),
            _ => None,
        }
    } else {
        None
    }
}

impl View for Square {
    type V = (int, int);

    /// A square is its pair of coordinates, file first.
    open spec fn view(&self) -> (int, int) {
        (self.x() as int, self.y() as int)
    }
}

impl Square {
    /// Both coordinates lie on the board. Every `Square` that executable code
    /// can hold satisfies this.
    #[verifier::type_invariant]
    pub closed spec fn wf(&self) -> bool {
        self.val / 16 < 8 && self.val % 16 < 8
    }

    /// The square of file `x` and rank `y`, for coordinates on the board.
    pub closed spec fn at(x: u8, y: u8) -> Square {
        Square { val: (x * 16 + y) as u8 }
    }

    /// The square with the linear index `i`, for an index of the board.
    pub open spec fn of_index(i: int) -> Square {
        Square::at((i % 8) as u8, (i / 8) as u8)
    }

    /// What [`Square::x`] returns.
    pub closed spec fn spec_x(&self) -> u8 {
        self.val / 16
    }

    /// What [`Square::y`] returns.
    pub closed spec fn spec_y(&self) -> u8 {
        self.val % 16
    }

    /// What [`Square::index`] returns: the rank times eight, plus the file.
    pub open spec fn spec_index(&self) -> u8 {
        (self.y() * 8 + self.x()) as u8
    }

    /// What [`Square::new`] returns.
    pub open spec fn spec_new(x: u8, y: u8) -> Result<Square, SquareError> {
        if x < 8 && y < 8 {
            Ok(Square::at(x, y))
        } else {
            Err(SquareError::XYOutOfBounds)
        }
    }

    /// What [`Square::from_index`] returns.
    pub open spec fn spec_from_index(index: u8) -> Result<Square, SquareError> {
        if index < 64 {
            Ok(Square::of_index(index as int))
        } else {
            Err(SquareError::IndexOutOfBounds)
        }
    }

    /// What [`Square::from_string`] returns on a text with the characters `s`.
    pub open spec fn spec_from_string(s: Seq<char>) -> Result<Square, SquareError> {
        match parse_notation(s) {
            Some((x, y)) => Ok(Square::at(x, y)),
            None => Err(SquareError::InvalidString),
        }
    }

    /// The algebraic notation of the square: its file letter, then its rank
    /// digit.
    pub open spec fn notation(&self) -> Seq<char> {
        seq![file_char(self.x()), rank_char(self.y())]
    }

    /// The square described by its coordinates, such as `Square at (4, 3)`.
    pub open spec fn description(&self) -> Seq<char> {
        "Square at ("@ + seq![digit_char(self.x())] + ", "@ + seq![digit_char(self.y())] + ")"@
    }

    /// The square at file `x` and rank `y`, or `XYOutOfBounds` when either
    /// coordinate is greater than 7.
    #[verifier::when_used_as_spec(spec_new)]
    pub fn new(x: u8, y: u8) -> (r: Result<Square, SquareError>)
        ensures
            r == Square::spec_new(x, y),
            r is Ok <==> x < 8 && y < 8,
            r matches Ok(sq) ==> sq.wf() && sq.x() == x && sq.y() == y,
    {
        if x < 8 && y < 8 {
            let val: u8 = (x << 4) | y;
            assert(val == x * 16 + y) by (bit_vector)
                requires
                    val == (x << 4) | y,
                    x < 8,
                    y < 8,
            ;
            Ok(Square { val })
        } else {
            Err(SquareError::XYOutOfBounds)
        }
    }

    /// The linear index of the square, `y * 8 + x`, between 0 and 63.
    #[verifier::when_used_as_spec(spec_index)]
    pub fn index(&self) -> (r: u8)
        ensures
            r == self.spec_index(),
            r == self.y() * 8 + self.x(),
            r < 64,
    {
        self.y() * 8 + self.x()
    }

    /// The file of the square, between 0 and 7.
    #[verifier::when_used_as_spec(spec_x)]
    pub fn x(&self) -> (r: u8)
        ensures
            r == self.spec_x(),
            r < 8,
    {
        proof {
            use_type_invariant(self);
        }
        let val: u8 = self.val;
        assert(val >> 4 == val / 16) by (bit_vector);
        self.val >> 4
    }

    /// The rank of the square, between 0 and 7.
    #[verifier::when_used_as_spec(spec_y)]
    pub fn y(&self) -> (r: u8)
        ensures
            r == self.spec_y(),
            r < 8,
    {
        proof {
            use_type_invariant(self);
        }
        let val: u8 = self.val;
        assert(val & 0b0000_1111 == val % 16) by (bit_vector);
        self.val & 0b0000_1111
    }

    /// The square with the linear index `index`, whose file is `index % 8`
    /// and whose rank is `index / 8`, or `IndexOutOfBounds` when `index` is
    /// greater than 63.
    #[verifier::when_used_as_spec(spec_from_index)]
    pub fn from_index(index: u8) -> (r: Result<Square, SquareError>)
        ensures
            r == Square::spec_from_index(index),
            r is Ok <==> index < 64,
            r matches Ok(sq) ==> sq.wf() && sq.x() == index % 8 && sq.y() == index / 8
                && sq.index() == index,
    {
        if index < 64 {
            Square::new(index % 8, index / 8)
        } else {
            Err(SquareError::IndexOutOfBounds)
        }
    }

    /// The square that a text in algebraic notation names: a file letter from
    /// `a` to `h`, in either case, and then a rank digit from `1` to `8`.
    /// Any other text gives `InvalidString`.
    pub fn from_string(s: &str) -> (r: Result<Square, SquareError>)
        ensures
            r == Square::spec_from_string(s@),
            r is Ok <==> parse_notation(s@) is Some,
            r matches Ok(sq) ==> sq.wf() && parse_notation(s@) == Some((sq.x(), sq.y())),
    {
        broadcast use vstd::string::group_string_axioms;

        let mut chars = s.chars();
        let first = chars.next();
        let second = chars.next();
        let third = chars.next();
        match (first, second, third) {
            (Some(file), Some(rank), None) => {
                match (file_from_char(file), rank_from_char(rank)) {
                    (Some(x), Some(y)) => Square::new(x, y),
                    _ => Err(SquareError::InvalidString),
                }
            },
            _ => Err(SquareError::InvalidString),
        }
    }

    /// The algebraic notation of the square, such as `e4`: the file as a
    /// lower-case letter, then the rank as a digit.
    pub fn to_string(&self) -> (r: String)
        ensures
            r@ == self.notation(),
    {
        let mut text = String::new();
        text.push((self.x() + 'a' as u8) as char);
        text.push((self.y() + '1' as u8) as char);
        text
    }

    /// The square described by its coordinates, file first, such as
    /// `Square at (4, 3)`.
    pub fn to_debug_string(&self) -> (r: String)
        ensures
            r@ == self.description(),
    {
        let mut text = String::from_str("Square at (");
        text.push((self.x() + '0' as u8) as char);
        text.append(", ");
        text.push((self.y() + '0' as u8) as char);
        text.append(")");
        text
    }
}

/// What the squares named in the contracts are.
impl Square {
    /// `Square::at(x, y)` is a square of the board with those coordinates.
    pub proof fn lemma_at(x: u8, y: u8)
        requires
            x < 8,
            y < 8,
        ensures
            Square::at(x, y).wf(),
            Square::at(x, y).x() == x,
            Square::at(x, y).y() == y,
            Square::at(x, y)@ == (x as int, y as int),
            Square::at(x, y).index() == y * 8 + x,
    {
    }

    /// A square of the board is the one that its coordinates name: two of them
    /// with the same file and rank are equal.
    pub proof fn lemma_coordinates_name_square(self)
        requires
            self.wf(),
        ensures
            self.x() < 8,
            self.y() < 8,
            self.index() < 64,
            self == Square::at(self.x(), self.y()),
    {
    }
}

/// Laws that relate the constructors of a square to what can be read from it.
impl Square {
    /// Coordinates on the board make a square, and the square gives them
    /// back.
    pub proof fn lemma_new_keeps_coordinates(x: u8, y: u8)
        requires
            x < 8,
            y < 8,
        ensures
            Square::new(x, y) matches Ok(sq) && sq.wf() && sq.x() == x && sq.y() == y,
    {
        Square::lemma_at(x, y);
    }

    /// An index of the board makes a square, and the square gives it back.
    pub proof fn lemma_from_index_keeps_index(index: u8)
        requires
            index < 64,
        ensures
            Square::from_index(index) matches Ok(sq) && sq.wf() && sq.index() == index,
    {
        Square::lemma_at(index % 8, index / 8);
    }

    /// The index of a square makes that square again.
    pub proof fn lemma_index_names_square(self)
        requires
            self.wf(),
        ensures
            Square::from_index(self.index()) == Ok::<Square, SquareError>(self),
    {
        self.lemma_coordinates_name_square();
    }

    /// Squares are equal exactly when their coordinates are, and exactly when
    /// their indices are.
    pub proof fn lemma_equal_squares(a: Square, b: Square)
        requires
            a.wf(),
            b.wf(),
        ensures
            a == b <==> a.x() == b.x() && a.y() == b.y(),
            a == b <==> a@ == b@,
            a == b <==> a.index() == b.index(),
    {
        a.lemma_coordinates_name_square();
        b.lemma_coordinates_name_square();
    }

    /// The notation of a square is a lower-case file letter and a rank digit,
    /// and parsing it makes that square again.
    pub proof fn lemma_notation_round_trip(self)
        requires
            self.wf(),
        ensures
            self.notation().len() == 2,
            'a' <= self.notation()[0] <= 'h',
            '1' <= self.notation()[1] <= '8',
            Square::spec_from_string(self.notation()) == Ok::<Square, SquareError>(self),
    {
        self.lemma_coordinates_name_square();
    }

    /// The case of the file letter does not matter: a text parses as it does
    /// with its first character in lower case.
    pub proof fn lemma_file_letter_case(s: Seq<char>)
        requires
            s.len() == 2,
        ensures
            Square::spec_from_string(s) == Square::spec_from_string(
                seq![ascii_lowercase(s[0]), s[1]],
            ),
    {
    }
}

/// The file that `c` names, if it is a letter from `a` to `h` in either case.
fn file_from_char(c: char) -> (r: Option<u8>)
    ensures
        r == file_of_char(c),
        r matches Some(x) ==> x < 8,
{
    if 'a' <= c && c <= 'h' {
        Some(c as u8 - 'a' as u8)
    } else if 'A' <= c && c <= 'H' {
        Some(c as u8 - 'A' as u8)
    } else {
        None
    }
}

/// The rank that `c` names, if it is a digit from `1` to `8`.
fn rank_from_char(c: char) -> (r: Option<u8>)
    ensures
        r == rank_of_char(c),
        r matches Some(y) ==> y < 8,
{
    if '1' <= c && c <= '8' {
        Some(c as u8 - '1' as u8)
    } else {
        None
    }
}

} // verus!
