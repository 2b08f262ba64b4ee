//! The four symbols of the alphabet, their two-bit codes and their letters.

use core::cmp::Ordering;
use vstd::prelude::*;

verus! {

/// One symbol of the genetic alphabet.
///
/// The variants are listed in the order of their codes. `cmp`, which is
/// derived, and `partial_cmp`, which is proved below, order them alike.
#[derive(Clone, Copy, Debug, PartialEq, Eq, Structural, Ord)]
pub enum Nucleotide {
    Adenine,
    Cytosine,
    Guanine,
    Thymine,
}

pub use Nucleotide::Adenine as A;
pub use Nucleotide::Cytosine as C;
pub use Nucleotide::Guanine as G;
pub use Nucleotide::Thymine as T;

/// The error of reading a character that is no letter of the alphabet.
#[derive(Clone, Copy, Debug, PartialEq, Eq, Structural)]
pub struct InvalidSymbol;

impl Nucleotide {
    /// The two-bit code of a symbol: 0 for adenine up to 3 for thymine.
    pub open spec fn code(self) -> nat {
        match self {
            Nucleotide::Adenine => 0,
            Nucleotide::Cytosine => 1,
            Nucleotide::Guanine => 2,
            Nucleotide::Thymine => 3,
        }
    }

    /// The symbol with the given code. Only the two lowest bits of `code`
    /// count, so that every two-bit field of a byte names a symbol.
    pub open spec fn of_code(code: int) -> Nucleotide {
        let low = code % 4;
        if low == 0 {
            Nucleotide::Adenine
        } else if low == 1 {
            Nucleotide::Cytosine
        } else if low == 2 {
            Nucleotide::Guanine
        } else {
            Nucleotide::Thymine
        }
    }

    /// The byte that holds a group of four symbols, two bits each, the first
    /// symbol in the two highest bits.
    pub open spec fn pack(group: Seq<Nucleotide>) -> nat
        recommends
            group.len() == 4,
    {
        64 * group[0].code() + 16 * group[1].code() + 4 * group[2].code() + group[3].code()
    }

    /// The four symbols held in a byte, those of the two highest bits first.
    pub open spec fn unpack(byte: u8) -> Seq<Nucleotide> {
        seq![
            Self::of_code(byte as int / 64),
            Self::of_code(byte as int / 16),
            Self::of_code(byte as int / 4),
            Self::of_code(byte as int),
        ]
    }

    /// The letter that stands for a symbol.
    pub open spec fn letter(self) -> char {
        match self {
            Nucleotide::Adenine => 'A',
            Nucleotide::Cytosine => 'C',
            Nucleotide::Guanine => 'G',
            Nucleotide::Thymine => 'T',
        }
    }

    /// The symbol that a character stands for, in either case, or the error
    /// for a character that is none of the four letters.
    pub open spec fn parse(c: char) -> Result<Nucleotide, InvalidSymbol> {
        if c == 'a' || c == 'A' {
            Ok(Nucleotide::Adenine)
        } else if c == 'c' || c == 'C' {
            Ok(Nucleotide::Cytosine)
        } else if c == 'g' || c == 'G' {
            Ok(Nucleotide::Guanine)
        } else if c == 't' || c == 'T' {
            Ok(Nucleotide::Thymine)
        } else {
            Err(InvalidSymbol)
        }
    }

    /// The two-bit code of the symbol, as a byte.
    pub fn to_bits(self) -> (bits: u8)
        ensures
            bits == self.code(),
    {
        match self {
            Nucleotide::Adenine => 0,
            Nucleotide::Cytosine => 1,
            Nucleotide::Guanine => 2,
            Nucleotide::Thymine => 3,
        }
    }

    /// The symbol named by the two lowest bits of `bits`.
    pub fn from_bits(bits: u8) -> (symbol: Self)
        ensures
            symbol == Self::of_code(bits as int),
    {
        let low: u8 = bits & 3;
        assert(low == bits % 4) by (bit_vector)
            requires
                low == bits & 3,
        ;
        if low == 0 {
            Nucleotide::Adenine
        } else if low == 1 {
            Nucleotide::Cytosine
        } else if low == 2 {
            Nucleotide::Guanine
        } else {
            Nucleotide::Thymine
        }
    }

    /// The upper-case letter of the symbol.
    pub fn to_char(self) -> (c: char)
        ensures
            c == self.letter(),
    {
        match self {
            Nucleotide::Adenine => 'A',
            Nucleotide::Cytosine => 'C',
            Nucleotide::Guanine => 'G',
            Nucleotide::Thymine => 'T',
        }
    }

    /// The upper-case letter of the symbol, as a text of that one letter.
    pub fn as_str(self) -> (text: &'static str)
        ensures
            text@ == seq![self.letter()],
    {
        proof {
            reveal_strlit("A");
            reveal_strlit("C");
            reveal_strlit("G");
            reveal_strlit("T");
        }
        match self {
            Nucleotide::Adenine => "A",
            Nucleotide::Cytosine => "C",
            Nucleotide::Guanine => "G",
            Nucleotide::Thymine => "T",
        }
    }

    /// Reads a letter in either case; any other character is refused.
    pub fn from_char(c: char) -> (symbol: Result<Self, InvalidSymbol>)
        ensures
            symbol == Self::parse(c),
    {
        match c {
            'a' | 'A' => Ok(Nucleotide::Adenine),
            'c' | 'C' => Ok(Nucleotide::Cytosine),
            'g' | 'G' => Ok(Nucleotide::Guanine),
            't' | 'T' => Ok(Nucleotide::Thymine),
            _ => Err(InvalidSymbol),
        }
    }

    /// The value of the first `count` symbols of a group of four, read as
    /// digits in base 4.
    spec fn packed_prefix(group: Seq<Nucleotide>, count: int) -> nat {
        if count <= 0 {
            0
        } else if count == 1 {
            group[0].code()
        } else if count == 2 {
            4 * group[0].code() + group[1].code()
        } else {
            16 * group[0].code() + 4 * group[1].code() + group[2].code()
        }
    }

    /// Packs a group of four symbols into one byte. The slice must hold
    /// exactly four.
    pub fn to_u8(item: &[Self]) -> (byte: u8)
        requires
            item@.len() == 4,
        ensures
            byte == Self::pack(item@),
    {
        let mut output: u8 = 0;
        for i in 0usize..3
            invariant
                item@.len() == 4,
                output == 4 * Self::packed_prefix(item@, i as int),
        {
            let n: u8 = item[i].to_bits();
            assert(output | n == output + n && ((output | n) << 2) == 4 * (output | n))
                by (bit_vector)
                requires
                    output % 4 == 0,
                    output < 64,
                    n < 4,
            ;
            output = output | n;
            output = output << 2;
        }
        // the last symbol takes the lowest bits: nothing is shifted after it
        let n: u8 = item[3].to_bits();
        assert(output | n == output + n) by (bit_vector)
            requires
                output % 4 == 0,
                n < 4,
        ;
        output = output | n;
        output
    }

    /// The weight of the two-bit field that stands `place` fields from the
    /// right in a byte; 256 behind the last one.
    spec fn weight(place: int) -> int {
        if place <= 0 {
            1
        } else if place == 1 {
            4
        } else if place == 2 {
            16
        } else if place == 3 {
            64
        } else {
            256
        }
    }

    /// Unpacks a byte into its group of four symbols. Every byte holds one.
    pub fn from_u8(item: u8) -> (group: [Nucleotide; 4])
        ensures
            group@ == Self::unpack(item),
    {
        let mut rest: u8 = item;
        let mut output = [Nucleotide::Adenine; 4];
        for i in 0usize..4
            invariant
                output@.len() == 4,
                rest as int == item as int / Self::weight(i as int),
                forall|j: int| 4 - i <= j < 4 ==> output@[j] == Self::unpack(item)[j],
        {
            let n = Self::from_bits(rest);
            output[3 - i] = n;
            assert(rest >> 2 == rest / 4) by (bit_vector);
            rest = rest >> 2;
        }
        output
    }
}

impl Default for Nucleotide {
    fn default() -> (symbol: Self)
        ensures
            symbol == Nucleotide::Adenine,
    {
        Nucleotide::Adenine
    }
}

impl PartialOrd for Nucleotide {
    fn partial_cmp(&self, other: &Self) -> (order: Option<Ordering>) {
        let mine = self.to_bits();
        let theirs = other.to_bits();
        if mine < theirs {
            Some(Ordering::Less)
        } else if mine == theirs {
            Some(Ordering::Equal)
        } else {
            Some(Ordering::Greater)
        }
    }
}

impl vstd::std_specs::cmp::PartialOrdSpecImpl for Nucleotide {
    open spec fn obeys_partial_cmp_spec() -> bool {
        true
    }

    /// Symbols are ordered as their codes are.
    open spec fn partial_cmp_spec(&self, other: &Self) -> Option<Ordering> {
        if self.code() < other.code() {
            Some(Ordering::Less)
        } else if self.code() == other.code() {
            Some(Ordering::Equal)
        } else {
            Some(Ordering::Greater)
        }
    }
}

impl Into<char> for Nucleotide {
    fn into(self) -> char {
        self.to_char()
    }
}

impl vstd::std_specs::convert::IntoSpecImpl<char> for Nucleotide {
    open spec fn obeys_into_spec() -> bool {
        true
    }

    /// A symbol turns into its letter.
    open spec fn into_spec(self) -> char {
        self.letter()
    }
}

impl Into<char> for &Nucleotide {
    fn into(self) -> char {
        self.to_char()
    }
}

impl vstd::std_specs::convert::IntoSpecImpl<char> for &Nucleotide {
    open spec fn obeys_into_spec() -> bool {
        true
    }

    /// A symbol turns into its letter.
    open spec fn into_spec(self) -> char {
        self.letter()
    }
}

impl TryFrom<char> for Nucleotide {
    type Error = InvalidSymbol;

    fn try_from(value: char) -> (symbol: Result<Self, InvalidSymbol>)
        ensures
            symbol == Self::parse(value),
    {
        Self::from_char(value)
    }
}

impl vstd::std_specs::convert::TryFromSpecImpl<char> for Nucleotide {
    open spec fn obeys_try_from_spec() -> bool {
        true
    }

    /// A character is read as `parse` says.
    open spec fn try_from_spec(value: char) -> Result<Self, InvalidSymbol> {
        Self::parse(value)
    }
}

/// A code names the symbol that has it: every code is below 4, and going from
/// a symbol to its code and back gives the symbol again.
pub proof fn lemma_code_round_trip(symbol: Nucleotide)
    ensures
        symbol.code() < 4,
        Nucleotide::of_code(symbol.code() as int) == symbol,
{
}

/// Unpacking undoes packing: a group of four symbols packs into one byte, and
/// that byte unpacks to the group.
pub proof fn lemma_unpack_pack(group: Seq<Nucleotide>)
    requires
        group.len() == 4,
    ensures
        Nucleotide::pack(group) <= u8::MAX,
        Nucleotide::unpack(Nucleotide::pack(group) as u8) == group,
{
    lemma_code_round_trip(group[0]);
    lemma_code_round_trip(group[1]);
    lemma_code_round_trip(group[2]);
    lemma_code_round_trip(group[3]);
}

/// Packing undoes unpacking: every byte unpacks to four symbols, and they
/// pack to that byte.
pub proof fn lemma_pack_unpack(byte: u8)
    ensures
        Nucleotide::unpack(byte).len() == 4,
        Nucleotide::pack(Nucleotide::unpack(byte)) == byte,
{
}

/// Reading undoes writing: the letter of a symbol is read as that symbol.
pub proof fn lemma_parse_letter(symbol: Nucleotide)
    ensures
        Nucleotide::parse(symbol.letter()) == Ok::<Nucleotide, InvalidSymbol>(symbol),
{
}

} // verus!
