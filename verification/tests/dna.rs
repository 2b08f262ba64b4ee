use genome::prelude::{Chromosome, Nucleotide, A, C, DNA, G, T};

const T_0_9: [Nucleotide; 9] = [A, A, A, A, A, A, A, A, A];
const T_0_4: [Nucleotide; 4] = [A, A, A, A];
const T_1_9: [Nucleotide; 9] = [A, A, A, A, A, A, A, A, C];
const T_0_7: [Nucleotide; 7] = [A, A, A, A, A, A, A];
const T_G_9: [Nucleotide; 9] = [G, G, G, G, G, G, G, G, G];
const T_A_9: [Nucleotide; 9] = T_0_9;
const T__0: [Nucleotide; 4] = [A, G, C, T];
const T__1: [Nucleotide; 8] = [A, A, G, G, C, C, T, T];

#[test]
fn dna_chromosome_convertion_0_9() {
    let slise: &[Nucleotide] = &T_0_9[..];
    let dna: DNA = slise.into();
    let c: Chromosome = dna.clone().into();
    let c_dna: DNA = c.into();
    assert_eq!(c_dna, dna);
}

#[test]
fn dna_chromosome_convertion_0_4() {
    let slise: &[Nucleotide] = &T_0_4[..];
    let dna: DNA = slise.into();
    let c: Chromosome = dna.clone().into();
    let c_dna: DNA = c.into();
    assert_eq!(c_dna, dna);
}

#[test]
fn dna_chromosome_convertion_1_4() {
    let slise: &[Nucleotide] = &T_1_9[..];
    let dna: DNA = slise.into();
    let c: Chromosome = dna.clone().into();

    let c_dna: DNA = c.into();
    assert_eq!(c_dna, dna);
}

#[test]
fn dna_chromosome_convertion_0_7() {
    let slise: &[Nucleotide] = &T_0_7[..];
    let dna: DNA = slise.into();
    let c: Chromosome = dna.clone().into();
    let c_dna: DNA = c.into();
    assert_eq!(c_dna, dna);
}

#[test]
fn crossover() {
    let slise: &[Nucleotide] = &T_G_9[..];
    let dna0: DNA = slise.into();

    let slise: &[Nucleotide] = &T_A_9[..];
    let dna1: DNA = slise.into();

    let child = dna0.crossover(&dna1);

    assert_eq!(child.len(), 9)
}

#[test]
fn inversion_0() {
    let slise: &[Nucleotide] = &T__0[..];
    let mut dna: DNA = slise.into();
    let save = dna.clone();
    dna.inversion(1, 2);
    assert_ne!(dna, save);
    dna.inversion(1, 2);

    assert_eq!(dna, save);
}

#[test]
fn inversion_1() {
    let slise: &[Nucleotide] = &T__1[..];
    let mut dna: DNA = slise.into();
    let save = dna.clone();
    dna.inversion(1, 4);
    assert_ne!(dna, save);
    dna.inversion(1, 4);

    assert_eq!(dna, save);
}

#[test]
fn insertion() {
    let slise: &[Nucleotide] = &T__1[..];
    let mut dna0: DNA = slise.into();

    let slise: &[Nucleotide] = &T__0[..];
    let dna1: DNA = slise.into();

    dna0.insertion(&dna1[..], 0);
}

#[test]
fn inversion_gives_the_segment_backwards() {
    let mut dna = DNA::from(&T__0[..]);
    dna.inversion(1, 2);
    assert_eq!(dna, DNA(vec![A, C, G, T]));

    let mut dna = DNA::from(&T__1[..]);
    dna.inversion(1, 4);
    assert_eq!(dna, DNA(vec![A, C, G, G, A, C, T, T]));
}

#[test]
fn inversion_may_end_one_before_the_last_symbol() {
    let mut dna = DNA::from(&T__0[..]);
    dna.inversion(0, 3);
    assert_eq!(dna, DNA(vec![C, G, A, T]));
    dna.inversion(0, 3);
    assert_eq!(dna, DNA::from(&T__0[..]));
}

#[test]
fn inversion_of_nothing_or_of_one_symbol_changes_nothing() {
    let mut dna = DNA::from(&T__0[..]);
    dna.inversion(2, 0);
    assert_eq!(dna, DNA::from(&T__0[..]));
    dna.inversion(2, 1);
    assert_eq!(dna, DNA::from(&T__0[..]));
}

#[test]
fn insertion_at_the_front_puts_the_segment_first() {
    let mut dna = DNA::from(&T__0[..]);
    dna.insertion(&T__1[..], 0);
    assert_eq!(dna.len(), 12);
    assert_eq!(&dna[..8], &T__1[..]);
    assert_eq!(&dna[8..], &T__0[..]);

    dna.deletion(0, 8);
    assert_eq!(dna.len(), 4);
    assert_eq!(dna, DNA::from(&T__0[..]));
}

#[test]
fn insertion_in_the_middle_keeps_the_order() {
    let mut dna = DNA::from(&T__0[..]);
    dna.insertion(&[T, T, A], 3);
    assert_eq!(dna, DNA(vec![A, G, C, T, T, A, T]));
    dna.insertion(&[], 1);
    assert_eq!(dna, DNA(vec![A, G, C, T, T, A, T]));
    dna.insertion(&[C], 1);
    assert_eq!(dna, DNA(vec![A, C, G, C, T, T, A, T]));
}

#[test]
fn deletion_takes_out_the_range() {
    let mut dna = DNA::from(&T__1[..]);
    dna.deletion(2, 4);
    assert_eq!(dna, DNA(vec![A, A, T, T]));
    dna.deletion(3, 1);
    assert_eq!(dna, DNA(vec![A, A, T]));
    dna.deletion(3, 0);
    assert_eq!(dna, DNA(vec![A, A, T]));
    dna.deletion(0, 3);
    assert_eq!(dna, DNA(vec![]));
    dna.deletion(0, 0);
    assert_eq!(dna.len(), 0);
}

#[test]
fn point_replaces_one_symbol() {
    let mut dna = DNA::from(&T__0[..]);
    dna.point(0, T);
    assert_eq!(dna, DNA(vec![T, G, C, T]));
    dna.point(3, A);
    assert_eq!(dna, DNA(vec![T, G, C, A]));
    dna.point(3, A);
    assert_eq!(dna, DNA(vec![T, G, C, A]));
}

#[test]
fn sequences_are_equal_symbol_for_symbol() {
    let dna = DNA::from(&T__0[..]);
    assert_eq!(dna, dna.clone());
    assert_ne!(dna, DNA(vec![A, G, C]));
    assert_ne!(dna, DNA(vec![A, G, C, A]));
    assert_ne!(dna, DNA(vec![A, G, C, T, A]));
    assert_eq!(DNA(vec![]), DNA::from(&[][..]));
}

#[test]
fn text_has_one_letter_for_each_symbol() {
    let dna = DNA::from(&T__1[..]);
    assert_eq!(dna.to_string(), "AAGGCCTT");
    let borrowed: String = (&dna).into();
    assert_eq!(borrowed, "AAGGCCTT");
    let by_value: String = dna.into();
    assert_eq!(by_value, "AAGGCCTT");
    assert_eq!(DNA(vec![]).to_string(), "");
}

#[test]
fn text_is_read_back_letter_by_letter() {
    let dna = DNA::from(&T__1[..]);
    let mut read = Vec::new();
    for c in dna.to_string().chars() {
        read.push(Nucleotide::try_from(c).unwrap());
    }
    assert_eq!(DNA(read), dna);
}

#[test]
fn a_segment_that_reaches_the_end_cannot_be_inverted() {
    let dna = DNA::from(&T__0[..]);
    assert!(dna.can_invert(1, 2));
    assert!(dna.can_invert(0, 3));
    assert!(dna.can_invert(3, 0));
    // the segment ends with the sequence
    assert!(!dna.can_invert(2, 2));
    assert!(!dna.can_invert(0, 4));
    assert!(!dna.can_invert(3, 1));
    assert!(!dna.can_invert(4, 0));
    // the segment runs past the end
    assert!(!dna.can_invert(3, 2));
    assert!(!dna.can_invert(5, 0));
    assert!(!dna.can_invert(1, usize::MAX));
    assert!(!dna.can_invert(usize::MAX, usize::MAX));
    assert!(!DNA(vec![]).can_invert(0, 0));
}

#[test]
fn nothing_can_be_inserted_at_the_end() {
    let dna = DNA::from(&T__0[..]);
    assert!(dna.can_insert(&T__1[..], 0));
    assert!(dna.can_insert(&T__1[..], 3));
    assert!(dna.can_insert(&[], 3));
    assert!(!dna.can_insert(&T__1[..], 4));
    assert!(!dna.can_insert(&[], 4));
    assert!(!dna.can_insert(&T__1[..], 5));
    assert!(!dna.can_insert(&T__1[..], usize::MAX));
    assert!(!DNA(vec![]).can_insert(&T__1[..], 0));
}

#[test]
fn only_symbols_that_are_there_can_be_deleted() {
    let dna = DNA::from(&T__0[..]);
    assert!(dna.can_delete(0, 4));
    assert!(dna.can_delete(1, 3));
    assert!(dna.can_delete(4, 0));
    assert!(dna.can_delete(0, 0));
    assert!(!dna.can_delete(0, 5));
    assert!(!dna.can_delete(2, 3));
    assert!(!dna.can_delete(5, 0));
    assert!(!dna.can_delete(1, usize::MAX));
    assert!(!dna.can_delete(usize::MAX, 1));
    assert!(DNA(vec![]).can_delete(0, 0));
    assert!(!DNA(vec![]).can_delete(0, 1));
}
