//! What an entity has to offer to be bred: a genome to give and to be made
//! from.

use crate::crossover::is_crossover;
use crate::dna::DNA;
use vstd::prelude::*;

verus! {

/// An entity that can be written as a sequence and made from one.
pub trait Genetic: Sized {
    /// Writes the entity as its sequence.
    fn to_dna(&self) -> DNA;

    /// Makes the entity that a sequence stands for.
    fn from_dna(dna: DNA) -> Self;
}

/// An entity that breeds with another of its kind.
pub trait Sexual: Genetic {
    /// The genome of a child of the two: a crossover of the sequences that the
    /// parents are written as. The two must be written as sequences of equal
    /// length, whatever `to_dna` may give for them.
    fn bread(&self, other: &Self) -> (child: DNA)
        requires
            forall|dna0: DNA, dna1: DNA|
                call_ensures(Self::to_dna, (self,), dna0) && call_ensures(
                    Self::to_dna,
                    (other,),
                    dna1,
                ) ==> dna0@.len() == dna1@.len(),
        ensures
            exists|dna0: DNA, dna1: DNA|
                {
                    &&& call_ensures(Self::to_dna, (self,), dna0)
                    &&& call_ensures(Self::to_dna, (other,), dna1)
                    &&& #[trigger] is_crossover(dna0@, dna1@, child@)
                },
    {
        let dna0 = self.to_dna();
        let dna1 = other.to_dna();
        dna0.crossover(&dna1)
    }
}

impl Genetic for DNA {
    fn to_dna(&self) -> (dna: DNA)
        ensures
            dna@ == self@,
    {
        self.clone()
    }

    fn from_dna(dna: DNA) -> (entity: Self)
        ensures
            entity@ == dna@,
    {
        dna
    }
}

impl Sexual for DNA {

}

} // verus!
