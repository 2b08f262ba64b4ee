//! The types and traits of the library under one path.

pub use crate::chromosome::Chromosome;
pub use crate::dna::DNA;
pub use crate::genetic::{Genetic, Sexual};
pub use crate::nucleotide::{InvalidSymbol, Nucleotide, A, C, G, T};
