//! The compacted genome: four symbols to the byte, and the few symbols that
//! are left over kept beside the bytes.

use crate::dna::DNA;
use crate::nucleotide::{lemma_pack_unpack, lemma_unpack_pack, Nucleotide};
use vstd::prelude::*;

verus! {

/// What a compacted genome holds: the bytes of the full groups of four, and
/// the symbols that follow the last full group.
pub ghost struct Compacted {
    pub bytes: Seq<u8>,
    pub remainder: Seq<Nucleotide>,
}

/// The bytes of a sequence: one for each full group of four symbols, counted
/// from the front.
pub open spec fn packed(s: Seq<Nucleotide>) -> Seq<u8> {
    Seq::new(s.len() / 4, |k: int| Nucleotide::pack(s.subrange(4 * k, 4 * k + 4)) as u8)
}

/// The symbols of a run of bytes: the four of the first byte, then the four of
/// the second, and so on.
pub open spec fn unpacked(bytes: Seq<u8>) -> Seq<Nucleotide> {
    Seq::new(4 * bytes.len(), |i: int| Nucleotide::unpack(bytes[i / 4])[i % 4])
}

/// The compacted form of a sequence: its full groups packed, and the up to
/// three symbols behind them left as they are.
pub open spec fn compact(s: Seq<Nucleotide>) -> Compacted {
    Compacted {
        bytes: packed(s),
        remainder: s.subrange(s.len() - s.len() % 4, s.len() as int),
    }
}

/// The sequence that a compacted form stands for: the symbols of its bytes,
/// then its remainder.
pub open spec fn expand(c: Compacted) -> Seq<Nucleotide> {
    unpacked(c.bytes) + c.remainder
}

/// The symbols in the slots that are filled, from the first slot up to the
/// first empty one.
spec fn filled(slots: Seq<Option<Nucleotide>>) -> Seq<Nucleotide>
    decreases slots.len(),
{
    if slots.len() == 0 || slots[0] is None {
        Seq::empty()
    } else {
        seq![slots[0]->0] + filled(slots.subrange(1, slots.len() as int))
    }
}

/// A genome in compacted form. It is made from a sequence and turned back
/// into one; nothing else makes or changes it.
#[derive(Debug)]
pub struct Chromosome {
    data: Vec<u8>,
    remainder: [Option<Nucleotide>; 3],
}

impl Chromosome {
    /// The expanded sequence has a length that a machine can hold.
    #[verifier::type_invariant]
    spec fn fits(&self) -> bool {
        4 * self.data@.len() + 3 <= usize::MAX
    }

    /// The number of slots that are filled, counted from the first slot up to
    /// the first empty one.
    fn remainder_len(&self) -> (count: usize)
        ensures
            count <= 3,
            count == self@.remainder.len(),
            forall|j: int| 0 <= j < count ==> self.remainder@[j] == Some(self@.remainder[j]),
    {
        proof {
            reveal_with_fuel(filled, 4);
        }
        let mut output: usize = 0;
        while output < 3 && self.remainder[output].is_some()
            invariant
                output <= 3,
                forall|j: int| 0 <= j < output ==> self.remainder@[j] is Some,
            decreases 3 - output,
        {
            output += 1;
        }
        output
    }

    /// The bytes of the full groups of four symbols, in their order.
    pub fn data(&self) -> (bytes: &[u8])
        ensures
            bytes@ == self@.bytes,
    {
        self.data.as_slice()
    }

    /// The symbols behind the last full group, in their order: three at most.
    pub fn remainder(&self) -> (symbols: Vec<Nucleotide>)
        ensures
            symbols@ == self@.remainder,
            symbols@.len() <= 3,
    {
        let count = self.remainder_len();
        let mut symbols: Vec<Nucleotide> = Vec::with_capacity(count);
        for i in 0usize..count
            invariant
                count <= 3,
                count == self@.remainder.len(),
                forall|j: int| 0 <= j < count ==> self.remainder@[j] == Some(self@.remainder[j]),
                symbols@ == self@.remainder.subrange(0, i as int),
        {
            symbols.push(self.remainder[i].unwrap());
        }
        symbols
    }
}

impl View for Chromosome {
    type V = Compacted;

    /// The bytes, and the symbols of the filled slots.
    closed spec fn view(&self) -> Compacted {
        Compacted { bytes: self.data@, remainder: filled(self.remainder@) }
    }
}

impl From<DNA> for Chromosome {
    /// Compacts a sequence: the full groups of four are packed into bytes,
    /// and the symbols behind the last full group are kept as they are.
    fn from(value: DNA) -> (chromosome: Self)
        ensures
            chromosome@ == compact(value@),
    {
        let size = value.0.len();
        let mut output: Vec<u8> = Vec::with_capacity(size / 4);
        let mut remainder: [Option<Nucleotide>; 3] = [None, None, None];
        let mod_len = size % 4;
        if mod_len != 0 {
            let start = size - mod_len;
            for i in 0usize..mod_len
                invariant
                    0 < mod_len < 4,
                    start + mod_len == size == value@.len(),
                    forall|j: int| 0 <= j < i ==> remainder@[j] == Some(value@[start + j]),
                    forall|j: int| i <= j < 3 ==> remainder@[j] is None,
            {
                remainder[i] = Some(value.0[start + i]);
            }
        }
        proof {
            reveal_with_fuel(filled, 4);
            assert(filled(remainder@) =~= compact(value@).remainder);
        }
        let mut i: usize = 0;
        while size - i >= 4
            invariant
                i <= size == value@.len(),
                i % 4 == 0,
                output@.len() == i / 4,
                forall|k: int| 0 <= k < output@.len() ==> output@[k] == packed(value@)[k],
            decreases size - i,
        {
            let slice = &value.0[i..(i + 4)];
            output.push(Nucleotide::to_u8(slice));
            i += 4;
        }
        assert(output@ =~= packed(value@));
        Self { data: output, remainder }
    }
}

impl vstd::std_specs::convert::FromSpecImpl<DNA> for Chromosome {
    /// The contract of `from` says what the result holds; no result is named.
    open spec fn obeys_from_spec() -> bool {
        false
    }

    open spec fn from_spec(value: DNA) -> Self {
        arbitrary()
    }
}

impl From<Chromosome> for DNA {
    /// Expands a compacted genome: the four symbols of each byte in turn,
    /// then the remainder.
    fn from(value: Chromosome) -> (dna: Self)
        ensures
            dna@ == expand(value@),
    {
        proof {
            use_type_invariant(&value);
        }
        let remainder = value.remainder_len();
        let mut output: Vec<Nucleotide> = Vec::with_capacity(value.data.len() * 4 + remainder);

        for k in 0usize..value.data.len()
            invariant
                output@ == unpacked(value.data@.subrange(0, k as int)),
        {
            let nucleotides = Nucleotide::from_u8(value.data[k]);
            output.extend_from_slice(&nucleotides);
        }

        for i in 0usize..remainder
            invariant
                remainder <= 3,
                remainder == value@.remainder.len(),
                forall|j: int|
                    0 <= j < remainder ==> value.remainder@[j] == Some(value@.remainder[j]),
                output@ == unpacked(value.data@) + value@.remainder.subrange(0, i as int),
        {
            output.push(value.remainder[i].unwrap());
        }
        DNA(output)
    }
}

impl vstd::std_specs::convert::FromSpecImpl<Chromosome> for DNA {
    /// The contract of `from` says what the result holds; no result is named.
    open spec fn obeys_from_spec() -> bool {
        false
    }

    open spec fn from_spec(value: Chromosome) -> Self {
        arbitrary()
    }
}

/// Expanding undoes compacting: every sequence, of whatever length, comes
/// back from its compacted form symbol for symbol.
pub proof fn lemma_expand_compact(s: Seq<Nucleotide>)
    ensures
        expand(compact(s)) == s,
{
    let full = 4 * (s.len() / 4);
    assert forall|i: int| 0 <= i < full implies unpacked(packed(s))[i] == s[i] by {
        let group = s.subrange(4 * (i / 4), 4 * (i / 4) + 4);
        lemma_unpack_pack(group);
    }
}

/// Compacting undoes expanding: a compacted form with fewer than four symbols
/// in its remainder is the compacted form of the sequence that it stands for.
pub proof fn lemma_compact_expand(c: Compacted)
    requires
        c.remainder.len() < 4,
    ensures
        compact(expand(c)) == c,
{
    let s = expand(c);
    assert forall|k: int| 0 <= k < c.bytes.len() implies packed(s)[k] == c.bytes[k] by {
        lemma_pack_unpack(c.bytes[k]);
    }
    assert(compact(s).bytes =~= c.bytes);
    assert(compact(s).remainder =~= c.remainder);
}

} // verus!
