//! A set of squares of the board, held in one 64-bit word.

use crate::bits::{
    has_bit, lemma_and_not_mask_bits, lemma_count_ones_below, lemma_lowest_one, lemma_mask_bits,
    lemma_mask_tests_bit, lemma_ones_determine_word, lemma_or_mask_bits, lemma_zero_has_no_bit,
    ones,
};
use crate::square::Square;
use vstd::prelude::*;
use vstd::set_lib::lemma_map_size;
use vstd::std_specs::bits::u64_trailing_zeros;
use vstd::std_specs::convert::{FromSpecImpl, TryIntoSpecImpl};

verus! {

/// Why a [`Bitboard`] could not be read as something else.
#[derive(Debug, PartialEq, Eq, Clone, Copy, Hash, Structural)]
pub enum BitboardError {
    /// The set did not hold exactly one square.
    NotSingleton,
}

/// A set of squares of the board.
///
/// Bit `i` of the word, counted from the least significant, is a one exactly
/// when the square with the linear index `i` is in the set.
#[derive(Debug, PartialEq, Eq, Clone, Copy, Hash, Structural)]
pub struct Bitboard {
    bits: u64,
}

impl View for Bitboard {
    type V = Set<int>;

    /// A bitboard is the set of the linear indices of its squares.
    closed spec fn view(&self) -> Set<int> {
        ones(self.bits)
    }
}

impl Bitboard {
    /// The bitboard whose word is `raw`.
    pub closed spec fn of_raw(raw: u64) -> Bitboard {
        Bitboard { bits: raw }
    }

    /// The bitboard that holds `sq` and nothing else.
    pub closed spec fn singleton(sq: Square) -> Bitboard {
        Bitboard { bits: 1u64 << (sq.index() as u64) }
    }

    /// What [`Bitboard::new`] returns: the bitboard of the word zero.
    pub open spec fn spec_new() -> Bitboard {
        Bitboard::of_raw(0)
    }

    /// What [`Bitboard::get`] returns: whether `sq` is in the set.
    pub open spec fn spec_get(&self, sq: Square) -> bool {
        self@.contains(sq.index() as int)
    }

    /// The bitboard that [`Bitboard::set`] leaves: this one with `sq` added.
    pub closed spec fn spec_set(self, sq: Square) -> Bitboard {
        Bitboard { bits: self.bits | (1u64 << (sq.index() as u64)) }
    }

    /// The bitboard that [`Bitboard::clear`] leaves: this one without `sq`.
    pub closed spec fn spec_clear(self, sq: Square) -> Bitboard {
        Bitboard { bits: self.bits & !(1u64 << (sq.index() as u64)) }
    }

    /// The bitboard that [`Bitboard::put`] leaves.
    pub open spec fn spec_put(self, sq: Square, value: bool) -> Bitboard {
        if value {
            self.spec_set(sq)
        } else {
            self.spec_clear(sq)
        }
    }

    /// The squares of the board that are in the set.
    pub open spec fn members(&self) -> Set<Square> {
        Set::new(|sq: Square| sq.wf() && self.get(sq))
    }

    /// What [`Bitboard::count`] returns: the number of squares in the set.
    pub open spec fn spec_count(&self) -> u32 {
        self@.len() as u32
    }

    /// What [`Bitboard::any`] returns: whether the set holds a square.
    pub open spec fn spec_any(&self) -> bool {
        !self@.is_empty()
    }

    /// What [`Bitboard::none`] returns: whether the set is empty.
    pub open spec fn spec_none(&self) -> bool {
        self@.is_empty()
    }

    /// What reading the bitboard as one square gives: its only square when
    /// it holds exactly one, and `NotSingleton` otherwise.
    pub open spec fn only_square(self) -> Result<Square, BitboardError> {
        if self@.len() == 1 {
            Ok(Square::of_index(self@.choose()))
        } else {
            Err(BitboardError::NotSingleton)
        }
    }

    /// Whether `r` is what reading the bitboard as one square gives: the
    /// square whose index is all that the set holds, or `NotSingleton` when
    /// the set does not hold exactly one index.
    pub open spec fn reads_as(self, r: Result<Square, BitboardError>) -> bool {
        &&& r == self.only_square()
        &&& match r {
            Ok(sq) => self@.len() == 1 && sq.wf() && self@ == set![sq.index() as int],
            Err(e) => self@.len() != 1 && e == BitboardError::NotSingleton,
        }
    }

    /// The characters of the grid that [`Bitboard::to_string`] draws: two
    /// for each index of the board, its digit and what follows the digit.
    pub open spec fn diagram(&self) -> Seq<char> {
        Seq::new(
            128,
            |k: int|
                if k % 2 == 0 {
                    if self@.contains(k / 2) {
                        '1'
                    } else {
                        '0'
                    }
                } else if k % 16 == 15 {
                    '\n'
                } else {
                    ' '
                },
        )
    }

    /// The empty bitboard.
    #[verifier::when_used_as_spec(spec_new)]
    pub fn new() -> (r: Bitboard)
        ensures
            r == Bitboard::spec_new(),
            r@ == Set::<int>::empty(),
    {
        proof {
            Bitboard::lemma_new();
        }
        Bitboard { bits: 0 }
    }

    /// Whether `sq` is in the set.
    #[verifier::when_used_as_spec(spec_get)]
    pub fn get(&self, sq: Square) -> (r: bool)
        ensures
            r == self.spec_get(sq),
    {
        let i: u8 = sq.index();
        proof {
            lemma_mask_tests_bit(self.bits, i as u64);
        }
        self.bits & (1u64 << i) != 0
    }

    /// Adds `sq` to the set, and returns whether it was there before.
    pub fn set(&mut self, sq: Square) -> (r: bool)
        ensures
            r == old(self).get(sq),
            *final(self) == old(self).spec_set(sq),
            final(self)@ == old(self)@.insert(sq.index() as int),
    {
        let was = self.get(sq);
        self.bits |= 1u64 << sq.index();
        proof {
            use_type_invariant(&sq);
            old(self).lemma_set(sq);
        }
        was
    }

    /// Takes `sq` out of the set, and returns whether it was there before.
    pub fn clear(&mut self, sq: Square) -> (r: bool)
        ensures
            r == old(self).get(sq),
            *final(self) == old(self).spec_clear(sq),
            final(self)@ == old(self)@.remove(sq.index() as int),
    {
        let was = self.get(sq);
        self.bits &= !(1u64 << sq.index());
        proof {
            use_type_invariant(&sq);
            old(self).lemma_clear(sq);
        }
        was
    }

    /// Adds `sq` to the set when `value` is true and takes it out otherwise,
    /// and returns whether it was there before.
    pub fn put(&mut self, sq: Square, value: bool) -> (r: bool)
        ensures
            r == old(self).get(sq),
            *final(self) == old(self).spec_put(sq, value),
            final(self)@ == if value {
                old(self)@.insert(sq.index() as int)
            } else {
                old(self)@.remove(sq.index() as int)
            },
    {
        if value {
            self.set(sq)
        } else {
            self.clear(sq)
        }
    }

    /// The number of squares in the set, between 0 and 64.
    #[verifier::when_used_as_spec(spec_count)]
    pub fn count(&self) -> (r: u32)
        ensures
            r == self.spec_count(),
            self@.finite(),
            r == self@.len(),
            r <= 64,
    {
        proof {
            lemma_count_ones_below(self.bits, 64);
        }
        self.bits.count_ones()
    }

    /// Whether the set holds at least one square.
    #[verifier::when_used_as_spec(spec_any)]
    pub fn any(&self) -> (r: bool)
        ensures
            r == self.spec_any(),
            r == (self.count() > 0),
    {
        proof {
            self.lemma_empty_iff_zero();
        }
        self.bits != 0
    }

    /// Whether the set is empty.
    #[verifier::when_used_as_spec(spec_none)]
    pub fn none(&self) -> (r: bool)
        ensures
            r == self.spec_none(),
            r == (self.count() == 0),
            r == !self.any(),
    {
        proof {
            self.lemma_empty_iff_zero();
        }
        self.bits == 0
    }

    /// The set drawn as a grid of `1` and `0`: one line for each rank, from
    /// rank 0 up, the files of a line from 0 up. A space follows each digit
    /// but the last of a line, and a line feed follows that one.
    pub fn to_string(&self) -> (r: String)
        ensures
            r@ == self.diagram(),
    {
        let mut text = String::new();
        let mut i: u8 = 0;
        while i < 64
            invariant
                i <= 64,
                text@ == self.diagram().subrange(0, 2 * i),
            decreases 64 - i,
        {
            proof {
                lemma_mask_tests_bit(self.bits, i as u64);
            }
            if self.bits & (1u64 << i) != 0 {
                text.push('1');
            } else {
                text.push('0');
            }
            if i % 8 == 7 {
                text.push('\n');
            } else {
                text.push(' ');
            }
            i += 1;
        }
        text
    }
}

impl From<u64> for Bitboard {
    /// The bitboard with exactly the bit pattern `bits`: bit `i` of `bits`
    /// says whether the square with the linear index `i` is in the set.
    fn from(bits: u64) -> (r: Bitboard)
        ensures
            r == Bitboard::of_raw(bits),
            r@ == ones(bits),
    {
        Bitboard { bits }
    }
}

impl FromSpecImpl<u64> for Bitboard {
    open spec fn obeys_from_spec() -> bool {
        true
    }

    open spec fn from_spec(bits: u64) -> Bitboard {
        Bitboard::of_raw(bits)
    }
}

impl From<Square> for Bitboard {
    /// The bitboard that holds `sq` and nothing else.
    fn from(sq: Square) -> (r: Bitboard)
        ensures
            r == Bitboard::singleton(sq),
            r@ == set![sq.index() as int],
    {
        proof {
            use_type_invariant(&sq);
            Bitboard::lemma_singleton(sq);
        }
        Bitboard { bits: 1u64 << sq.index() }
    }
}

impl FromSpecImpl<Square> for Bitboard {
    open spec fn obeys_from_spec() -> bool {
        true
    }

    open spec fn from_spec(sq: Square) -> Bitboard {
        Bitboard::singleton(sq)
    }
}

impl TryInto<Square> for Bitboard {
    type Error = BitboardError;

    /// The one square of the set, or `NotSingleton` when the set holds no
    /// square or more than one.
    fn try_into(self) -> (r: Result<Square, BitboardError>)
        ensures
            self.reads_as(r),
    {
        if self.count() == 1 {
            proof {
                self.lemma_only_index();
            }
            let lowest: u8 = self.bits.trailing_zeros() as u8;
            match Square::from_index(lowest) {
                Ok(sq) => Ok(sq),
                // The index of a one is below 64, so this arm is never taken.
                Err(_) => Err(BitboardError::NotSingleton),
            }
        } else {
            Err(BitboardError::NotSingleton)
        }
    }
}

impl TryIntoSpecImpl<Square> for Bitboard {
    open spec fn obeys_try_into_spec() -> bool {
        true
    }

    open spec fn try_into_spec(self) -> Result<Square, BitboardError> {
        self.only_square()
    }
}

/// What the bitboards named in the contracts hold.
impl Bitboard {
    /// A bitboard holds only indices of the board, and so at most 64 of them.
    pub proof fn lemma_view_on_board(self)
        ensures
            self@.finite(),
            self@.len() <= 64,
            forall|i: int| self@.contains(i) ==> 0 <= i < 64,
    {
        lemma_count_ones_below(self.bits, 64);
    }

    /// The new bitboard is the empty set.
    pub proof fn lemma_new()
        ensures
            Bitboard::new()@ == Set::<int>::empty(),
    {
        assert forall|i: int| !Bitboard::new()@.contains(i) by {
            lemma_zero_has_no_bit(i as u64);
        }
    }

    /// The bitboard of a single square holds the index of that square and
    /// nothing else.
    pub proof fn lemma_singleton(sq: Square)
        requires
            sq.wf(),
        ensures
            Bitboard::singleton(sq)@ == set![sq.index() as int],
    {
        sq.lemma_coordinates_name_square();
        let i: u8 = sq.index();
        let one = Bitboard::singleton(sq);
        assert forall|j: int| one@.contains(j) == set![i as int].contains(j) by {
            if 0 <= j < 64 {
                lemma_mask_bits(i as u64, j as u64);
            }
        }
    }

    /// Setting a square adds its index to the set.
    pub proof fn lemma_set(self, sq: Square)
        requires
            sq.wf(),
        ensures
            self.spec_set(sq)@ == self@.insert(sq.index() as int),
    {
        sq.lemma_coordinates_name_square();
        let i: u8 = sq.index();
        let after = self.spec_set(sq);
        assert forall|j: int| after@.contains(j) == self@.insert(i as int).contains(j) by {
            if 0 <= j < 64 {
                lemma_or_mask_bits(self.bits, i as u64, j as u64);
            }
        }
    }

    /// Clearing a square takes its index out of the set.
    pub proof fn lemma_clear(self, sq: Square)
        requires
            sq.wf(),
        ensures
            self.spec_clear(sq)@ == self@.remove(sq.index() as int),
    {
        sq.lemma_coordinates_name_square();
        let i: u8 = sq.index();
        let after = self.spec_clear(sq);
        assert forall|j: int| after@.contains(j) == self@.remove(i as int).contains(j) by {
            if 0 <= j < 64 {
                lemma_and_not_mask_bits(self.bits, i as u64, j as u64);
            }
        }
    }

    /// Two bitboards that hold the same indices are the same bitboard.
    pub proof fn lemma_equal_bitboards(a: Bitboard, b: Bitboard)
        ensures
            a == b <==> a@ == b@,
    {
        if a@ == b@ {
            lemma_ones_determine_word(a.bits, b.bits);
        }
    }

    /// The set is empty exactly when the word is zero, and exactly when its
    /// count is zero.
    proof fn lemma_empty_iff_zero(self)
        ensures
            self@.is_empty() <==> self.bits == 0,
            self@.is_empty() <==> self.count() == 0,
    {
        self.lemma_view_on_board();
        if self.bits == 0 {
            Bitboard::lemma_new();
        } else {
            lemma_lowest_one(self.bits);
            assert(self@.contains(u64_trailing_zeros(self.bits) as int));
        }
    }

    /// In a bitboard with one square, the index of that square is the number
    /// of trailing zeros of the word.
    proof fn lemma_only_index(self)
        requires
            self@.len() == 1,
        ensures
            u64_trailing_zeros(self.bits) < 64,
            self@ == set![u64_trailing_zeros(self.bits) as int],
            self@.choose() == u64_trailing_zeros(self.bits),
    {
        let lowest: int = u64_trailing_zeros(self.bits) as int;
        self.lemma_view_on_board();
        self.lemma_empty_iff_zero();
        lemma_lowest_one(self.bits);
        assert(self@.contains(lowest));
        Set::lemma_is_singleton(self@);
    }
}

/// Laws that relate the operations of a bitboard to one another.
impl Bitboard {
    /// The bitboard made from a word holds the square of index `i` exactly
    /// when bit `i` of the word is a one.
    pub proof fn lemma_from_raw_keeps_bits(raw: u64, i: u8)
        requires
            i < 64,
        ensures
            Bitboard::of_raw(raw)@ == ones(raw),
            Bitboard::of_raw(raw).get(Square::of_index(i as int)) <==> has_bit(raw, i as u64),
    {
        Square::lemma_at(i % 8, i / 8);
    }

    /// A new bitboard holds no square.
    pub proof fn lemma_new_holds_nothing(sq: Square)
        ensures
            !Bitboard::new().get(sq),
            Bitboard::new().none(),
            Bitboard::new().count() == 0,
    {
        Bitboard::lemma_new();
    }

    /// After `sq` is set it is in the set, and every other square is in the
    /// set exactly when it was before.
    pub proof fn lemma_set_then_get(self, sq: Square, other: Square)
        requires
            sq.wf(),
            other.wf(),
        ensures
            self.spec_set(sq).get(sq),
            other != sq ==> self.spec_set(sq).get(other) == self.get(other),
    {
        self.lemma_set(sq);
        Square::lemma_equal_squares(sq, other);
    }

    /// After `sq` is cleared it is not in the set, and every other square is
    /// in the set exactly when it was before.
    pub proof fn lemma_clear_then_get(self, sq: Square, other: Square)
        requires
            sq.wf(),
            other.wf(),
        ensures
            !self.spec_clear(sq).get(sq),
            other != sq ==> self.spec_clear(sq).get(other) == self.get(other),
    {
        self.lemma_clear(sq);
        Square::lemma_equal_squares(sq, other);
    }

    /// Setting a square a second time finds it in the set and changes
    /// nothing.
    pub proof fn lemma_set_twice(self, sq: Square)
        requires
            sq.wf(),
        ensures
            self.spec_set(sq).get(sq),
            self.spec_set(sq).spec_set(sq) == self.spec_set(sq),
            self.spec_set(sq).spec_set(sq).get(sq),
    {
        let once = self.spec_set(sq);
        self.lemma_set(sq);
        once.lemma_set(sq);
        assert(once.spec_set(sq)@ =~= once@);
        Bitboard::lemma_equal_bitboards(once.spec_set(sq), once);
    }

    /// Clearing a square a second time finds it out of the set and changes
    /// nothing.
    pub proof fn lemma_clear_twice(self, sq: Square)
        requires
            sq.wf(),
        ensures
            !self.spec_clear(sq).get(sq),
            self.spec_clear(sq).spec_clear(sq) == self.spec_clear(sq),
            !self.spec_clear(sq).spec_clear(sq).get(sq),
    {
        let once = self.spec_clear(sq);
        self.lemma_clear(sq);
        once.lemma_clear(sq);
        assert(once.spec_clear(sq)@ =~= once@);
        Bitboard::lemma_equal_bitboards(once.spec_clear(sq), once);
    }

    /// The count is the number of squares of the board that are in the set;
    /// the set is empty exactly when the count is zero.
    pub proof fn lemma_count_members(self)
        ensures
            self.members().finite(),
            self.count() == self.members().len(),
            self.count() <= 64,
            self.none() <==> self.count() == 0,
            self.any() <==> self.count() > 0,
    {
        self.lemma_view_on_board();
        let square_of = |i: int| Square::of_index(i);
        assert forall|i: int| self@.contains(i) implies (#[trigger] square_of(i)).wf()
            && square_of(i).index() == i by {
            Square::lemma_at((i % 8) as u8, (i / 8) as u8);
        }
        assert forall|sq: Square| self@.map(square_of).contains(sq) == self.members().contains(
            sq,
        ) by {
            if self.members().contains(sq) {
                sq.lemma_index_names_square();
            }
        }
        assert(self@.map(square_of) =~= self.members());
        lemma_map_size(self@, self.members(), square_of);
    }

    /// The bitboard made from one square reads back as that square, and a
    /// bitboard whose count is not one does not read as a square.
    pub proof fn lemma_singleton_reads_back(self, sq: Square)
        requires
            sq.wf(),
        ensures
            Bitboard::singleton(sq).only_square() == Ok::<Square, BitboardError>(sq),
            self.count() != 1 ==> self.only_square() == Err::<Square, BitboardError>(
                BitboardError::NotSingleton,
            ),
    {
        self.lemma_view_on_board();
        Bitboard::lemma_singleton(sq);
        assert(Bitboard::singleton(sq)@.contains(sq.index() as int));
        sq.lemma_index_names_square();
    }
}

} // verus!
