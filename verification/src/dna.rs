//! The expanded genome: a sequence of symbols, with the operators that
//! mutate it in place.

use crate::nucleotide::Nucleotide;
use vstd::prelude::*;

verus! {

/// A genome in expanded form: a sequence of symbols of any length, in which
/// any symbol may stand anywhere and any number of times.
#[derive(Debug)]
pub struct DNA(pub Vec<Nucleotide>);

impl View for DNA {
    type V = Seq<Nucleotide>;

    open spec fn view(&self) -> Seq<Nucleotide> {
        self.0@
    }
}

/// The letters of a sequence, one for each symbol and in the same order.
pub open spec fn letters(s: Seq<Nucleotide>) -> Seq<char> {
    Seq::new(s.len(), |i: int| s[i].letter())
}

/// Whether something can be put into a sequence at `pos`: only before a symbol
/// that is there, so not at the end, and nowhere in an empty sequence.
pub open spec fn insertable(s: Seq<Nucleotide>, pos: int) -> bool {
    0 <= pos < s.len()
}

/// Whether the `len` symbols that start at `pos` can be removed: all of them
/// must be there.
pub open spec fn deletable(s: Seq<Nucleotide>, pos: int, len: int) -> bool {
    0 <= pos && 0 <= len && pos + len <= s.len()
}

/// Whether the `len` symbols that start at `pos` can be inverted: the segment
/// must end before the last symbol, so that at least one symbol follows it.
pub open spec fn invertible(s: Seq<Nucleotide>, pos: int, len: int) -> bool {
    0 <= pos && 0 <= len && pos + len < s.len()
}

/// A sequence with `segment` put in before the symbol at `pos`.
pub open spec fn inserted(s: Seq<Nucleotide>, segment: Seq<Nucleotide>, pos: int) -> Seq<
    Nucleotide,
>
    recommends
        0 <= pos <= s.len(),
{
    s.subrange(0, pos) + segment + s.subrange(pos, s.len() as int)
}

/// A sequence without the `len` symbols that start at `pos`.
pub open spec fn deleted(s: Seq<Nucleotide>, pos: int, len: int) -> Seq<Nucleotide>
    recommends
        0 <= pos,
        0 <= len,
        pos + len <= s.len(),
{
    s.subrange(0, pos) + s.subrange(pos + len, s.len() as int)
}

/// A sequence with the `len` symbols that start at `pos` in reverse order.
pub open spec fn inverted(s: Seq<Nucleotide>, pos: int, len: int) -> Seq<Nucleotide>
    recommends
        0 <= pos,
        0 <= len,
        pos + len <= s.len(),
{
    s.subrange(0, pos) + s.subrange(pos, pos + len).reverse() + s.subrange(
        pos + len,
        s.len() as int,
    )
}

impl Clone for DNA {
    /// A copy holds the same symbols in the same order.
    fn clone(&self) -> (copy: Self)
        ensures
            copy@ == self@,
    {
        DNA(self.0.clone())
    }
}

impl PartialEq for DNA {
    /// Two sequences are equal where they have the same length and the same
    /// symbol at each position; `eq_spec` below says so in contracts.
    fn eq(&self, other: &Self) -> (equal: bool) {
        if self.0.len() != other.0.len() {
            return false;
        }
        for i in 0usize..self.0.len()
            invariant
                self@.len() == other@.len(),
                self@.subrange(0, i as int) == other@.subrange(0, i as int),
        {
            if self.0[i] != other.0[i] {
                return false;
            }
        }
        assert(self@ == self@.subrange(0, self@.len() as int));
        assert(other@ == other@.subrange(0, other@.len() as int));
        true
    }
}

impl vstd::std_specs::cmp::PartialEqSpecImpl for DNA {
    open spec fn obeys_eq_spec() -> bool {
        true
    }

    open spec fn eq_spec(&self, other: &Self) -> bool {
        self@ == other@
    }
}

impl Eq for DNA {

}

impl core::ops::Deref for DNA {
    type Target = Vec<Nucleotide>;

    /// The symbols, to be read as a vector.
    fn deref(&self) -> (symbols: &Vec<Nucleotide>)
        ensures
            symbols@ == self@,
    {
        &self.0
    }
}

impl From<&[Nucleotide]> for DNA {
    /// The sequence of the symbols of a slice.
    fn from(value: &[Nucleotide]) -> (dna: Self)
        ensures
            dna@ == value@,
    {
        let mut output: Vec<Nucleotide> = Vec::with_capacity(value.len());
        for i in 0usize..value.len()
            invariant
                output@ == value@.subrange(0, i as int),
        {
            output.push(value[i]);
        }
        DNA(output)
    }
}

impl vstd::std_specs::convert::FromSpecImpl<&[Nucleotide]> for DNA {
    /// The contract of `from` says what the result holds. No result is named
    /// here: two vectors that hold the same need not be the same value.
    open spec fn obeys_from_spec() -> bool {
        false
    }

    open spec fn from_spec(value: &[Nucleotide]) -> Self {
        arbitrary()
    }
}

impl From<&DNA> for String {
    /// The text of a sequence: one upper-case letter for each symbol.
    fn from(value: &DNA) -> (text: String)
        ensures
            text@ == letters(value@),
    {
        value.to_string()
    }
}

impl vstd::std_specs::convert::FromSpecImpl<&DNA> for String {
    /// The contract of `from` says what the text holds; no result is named.
    open spec fn obeys_from_spec() -> bool {
        false
    }

    open spec fn from_spec(value: &DNA) -> Self {
        arbitrary()
    }
}

impl From<DNA> for String {
    /// The text of a sequence: one upper-case letter for each symbol.
    fn from(value: DNA) -> (text: String)
        ensures
            text@ == letters(value@),
    {
        value.to_string()
    }
}

impl vstd::std_specs::convert::FromSpecImpl<DNA> for String {
    /// The contract of `from` says what the text holds; no result is named.
    open spec fn obeys_from_spec() -> bool {
        false
    }

    open spec fn from_spec(value: DNA) -> Self {
        arbitrary()
    }
}

impl DNA {
    /// Writes the sequence as text, one upper-case letter for each symbol.
    pub fn to_string(&self) -> (text: String)
        ensures
            text@ == letters(self@),
    {
        let mut string = String::new();
        for i in 0usize..self.0.len()
            invariant
                string@ == letters(self@.subrange(0, i as int)),
        {
            string.append(self.0[i].as_str());
        }
        string
    }

    /// Whether `segment` can be put in at `pos`: there is a symbol at `pos`,
    /// and the longer sequence has a length that a machine can hold.
    pub fn can_insert(&self, segment: &[Nucleotide], pos: usize) -> (ok: bool)
        ensures
            ok <==> insertable(self@, pos as int) && self@.len() + segment@.len() <= usize::MAX,
    {
        pos < self.0.len() && segment.len() <= usize::MAX - self.0.len()
    }

    /// Whether the `len` symbols that start at `pos` are all there, so that
    /// they can be removed.
    pub fn can_delete(&self, pos: usize, len: usize) -> (ok: bool)
        ensures
            ok <==> deletable(self@, pos as int, len as int),
    {
        pos <= self.0.len() && len <= self.0.len() - pos
    }

    /// Whether the `len` symbols that start at `pos` end before the last
    /// symbol, so that they can be inverted.
    pub fn can_invert(&self, pos: usize, len: usize) -> (ok: bool)
        ensures
            ok <==> invertible(self@, pos as int, len as int),
    {
        pos < self.0.len() && len < self.0.len() - pos
    }

    /// Puts the symbols of `segment`, in their order, in before the symbol at
    /// `pos`. There must be a symbol at `pos`: nothing can be put in at the
    /// end, nor into an empty sequence.
    pub fn insertion(&mut self, segment: &[Nucleotide], pos: usize)
        requires
            insertable(old(self)@, pos as int),
            old(self)@.len() + segment@.len() <= usize::MAX,
        ensures
            final(self)@ == inserted(old(self)@, segment@, pos as int),
    {
        let mut done: usize = 0;
        while done < segment.len()
            invariant
                done <= segment@.len(),
                pos < old(self)@.len(),
                old(self)@.len() + segment@.len() <= usize::MAX,
                self@ == inserted(old(self)@, segment@.subrange(0, done as int), pos as int),
            decreases segment@.len() - done,
        {
            self.0.insert(pos + done, segment[done]);
            done += 1;
        }
    }

    /// Removes the `len` symbols that start at `pos`, all of which must be
    /// there. What stood behind them moves up.
    pub fn deletion(&mut self, pos: usize, len: usize)
        requires
            deletable(old(self)@, pos as int, len as int),
        ensures
            final(self)@ == deleted(old(self)@, pos as int, len as int),
    {
        for done in 0usize..len
            invariant
                pos + len <= old(self)@.len(),
                self@ == deleted(old(self)@, pos as int, done as int),
        {
            self.0.remove(pos);
        }
    }

    /// Puts `nucleotide` in place of the symbol at `pos`, which must be there.
    pub fn point(&mut self, pos: usize, nucleotide: Nucleotide)
        requires
            pos < old(self)@.len(),
        ensures
            final(self)@ == old(self)@.update(pos as int, nucleotide),
    {
        self.0[pos] = nucleotide;
    }

    /// Reverses the order of the `len` symbols that start at `pos`. The
    /// segment must end before the last symbol of the sequence.
    pub fn inversion(&mut self, pos: usize, len: usize)
        requires
            invertible(old(self)@, pos as int, len as int),
        ensures
            final(self)@ == inverted(old(self)@, pos as int, len as int),
    {
        let size = self.0.len();
        let segment: DNA = DNA::from(&self.0[pos..(pos + len)]);
        for i in 0usize..len
            invariant
                pos + len < size,
                segment@ == old(self)@.subrange(pos as int, pos + len),
                self@.len() == size == old(self)@.len(),
                forall|j: int|
                    0 <= j < self@.len() ==> self@[j] == if pos <= j < pos + i {
                        segment@[len - 1 - (j - pos)]
                    } else {
                        old(self)@[j]
                    },
        {
            self.0[i + pos] = segment.0[len - 1 - i];
        }
    }
}

/// Inverting twice changes nothing: a second inversion of the same segment
/// gives back the sequence as it was before the first.
pub proof fn lemma_inversion_involution(s: Seq<Nucleotide>, pos: int, len: int)
    requires
        0 <= pos,
        0 <= len,
        pos + len <= s.len(),
    ensures
        inverted(s, pos, len).len() == s.len(),
        inverted(inverted(s, pos, len), pos, len) == s,
{
}

/// A segment that reaches the end of the sequence, or runs past it, cannot be
/// inverted.
pub proof fn lemma_inversion_stops_short(s: Seq<Nucleotide>, pos: int, len: int)
    requires
        pos + len >= s.len(),
    ensures
        !invertible(s, pos, len),
{
}

/// Nothing can be put in at the end of a sequence or behind it.
pub proof fn lemma_insertion_stops_short(s: Seq<Nucleotide>, pos: int)
    requires
        pos >= s.len(),
    ensures
        !insertable(s, pos),
{
}

/// An inserted segment stands in the sequence as it was given, from `pos` on,
/// with what was before and behind it unchanged around it.
pub proof fn lemma_insertion_places_segment(
    s: Seq<Nucleotide>,
    segment: Seq<Nucleotide>,
    pos: int,
)
    requires
        0 <= pos <= s.len(),
    ensures
        inserted(s, segment, pos).len() == s.len() + segment.len(),
        inserted(s, segment, pos).subrange(pos, pos + segment.len()) == segment,
        inserted(s, segment, pos).subrange(0, pos) == s.subrange(0, pos),
        inserted(s, segment, pos).subrange(
            pos + segment.len(),
            inserted(s, segment, pos).len() as int,
        ) == s.subrange(pos, s.len() as int),
{
}

/// A deletion undoes an insertion: removing, where a segment was put in, as
/// many symbols as it has gives back the sequence as it was.
pub proof fn lemma_deletion_undoes_insertion(
    s: Seq<Nucleotide>,
    segment: Seq<Nucleotide>,
    pos: int,
)
    requires
        0 <= pos <= s.len(),
    ensures
        deletable(inserted(s, segment, pos), pos, segment.len() as int),
        deleted(inserted(s, segment, pos), pos, segment.len() as int) == s,
{
}

} // verus!
