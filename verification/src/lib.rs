//! A four-letter genetic alphabet, sequences over it, and the operators that
//! mutate and recombine them.

pub mod chromosome;
pub mod crossover;
pub mod dna;
pub mod genetic;
pub mod nucleotide;
pub mod prelude;
pub mod random;

pub use nucleotide::{InvalidSymbol, Nucleotide, A, C, G, T};
