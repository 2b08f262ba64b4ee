use genome::{InvalidSymbol, Nucleotide, A, C, G, T};
use std::cmp::Ordering;

const T_ZERO: [Nucleotide; 4] = [A, A, A, A];
const T_ONE: [Nucleotide; 4] = [A, A, A, C];
const ALL: [Nucleotide; 4] = [A, C, G, T];

#[test]
fn nucleotide_u8_convertion() {
    //0 case
    assert_eq!(Nucleotide::to_u8(&T_ZERO), 0u8);
    assert_eq!(Nucleotide::from_u8(0), T_ZERO);

    //1 case
    assert_eq!(Nucleotide::to_u8(&T_ONE), 1u8);
    assert_eq!(Nucleotide::from_u8(1), T_ONE);
}

#[test]
fn first_symbol_takes_the_highest_bits() {
    assert_eq!(Nucleotide::to_u8(&[C, A, A, A]), 0x40);
    assert_eq!(Nucleotide::to_u8(&[A, G, A, A]), 0x20);
    assert_eq!(Nucleotide::to_u8(&[A, A, T, A]), 0x0c);
    assert_eq!(Nucleotide::to_u8(&[A, C, G, T]), 0x1b);
    assert_eq!(Nucleotide::to_u8(&[T, G, C, A]), 0xe4);
    assert_eq!(Nucleotide::to_u8(&[T, T, T, T]), 0xff);

    assert_eq!(Nucleotide::from_u8(0x40), [C, A, A, A]);
    assert_eq!(Nucleotide::from_u8(0x1b), [A, C, G, T]);
    assert_eq!(Nucleotide::from_u8(0xe4), [T, G, C, A]);
    assert_eq!(Nucleotide::from_u8(0xff), [T, T, T, T]);
}

#[test]
fn every_byte_packs_back_to_itself() {
    for byte in 0..=255u8 {
        assert_eq!(Nucleotide::to_u8(&Nucleotide::from_u8(byte)), byte);
    }
}

#[test]
fn every_group_unpacks_back_to_itself() {
    for a in ALL {
        for b in ALL {
            for c in ALL {
                for d in ALL {
                    let group = [a, b, c, d];
                    assert_eq!(Nucleotide::from_u8(Nucleotide::to_u8(&group)), group);
                }
            }
        }
    }
}

#[test]
fn codes_run_from_zero_to_three() {
    assert_eq!(A.to_bits(), 0);
    assert_eq!(C.to_bits(), 1);
    assert_eq!(G.to_bits(), 2);
    assert_eq!(T.to_bits(), 3);
    for symbol in ALL {
        assert_eq!(Nucleotide::from_bits(symbol.to_bits()), symbol);
    }
}

#[test]
fn only_the_two_lowest_bits_name_a_symbol() {
    assert_eq!(Nucleotide::from_bits(4), A);
    assert_eq!(Nucleotide::from_bits(0xfd), C);
    assert_eq!(Nucleotide::from_bits(0x0e), G);
    assert_eq!(Nucleotide::from_bits(0xff), T);
}

#[test]
fn letters_are_read_in_either_case() {
    assert_eq!(Nucleotide::from_char('a'), Ok(A));
    assert_eq!(Nucleotide::from_char('A'), Ok(A));
    assert_eq!(Nucleotide::from_char('c'), Ok(C));
    assert_eq!(Nucleotide::from_char('C'), Ok(C));
    assert_eq!(Nucleotide::from_char('g'), Ok(G));
    assert_eq!(Nucleotide::from_char('G'), Ok(G));
    assert_eq!(Nucleotide::from_char('t'), Ok(T));
    assert_eq!(Nucleotide::from_char('T'), Ok(T));

    assert_eq!(Nucleotide::try_from('a'), Ok(A));
    assert_eq!(Nucleotide::try_from('T'), Ok(T));
}

#[test]
fn other_characters_are_refused() {
    assert_eq!(Nucleotide::from_char('x'), Err(InvalidSymbol));
    assert_eq!(Nucleotide::try_from('x'), Err(InvalidSymbol));
    assert_eq!(Nucleotide::try_from('U'), Err(InvalidSymbol));
    assert_eq!(Nucleotide::try_from(' '), Err(InvalidSymbol));
    assert_eq!(Nucleotide::try_from('0'), Err(InvalidSymbol));
    let read: Result<Nucleotide, InvalidSymbol> = '\u{410}'.try_into();
    assert_eq!(read, Err(InvalidSymbol));
}

#[test]
fn letters_are_written_in_upper_case() {
    assert_eq!(A.to_char(), 'A');
    assert_eq!(C.to_char(), 'C');
    assert_eq!(G.to_char(), 'G');
    assert_eq!(T.to_char(), 'T');

    let by_value: char = G.into();
    assert_eq!(by_value, 'G');
    let borrowed: char = (&T).into();
    assert_eq!(borrowed, 'T');

    for symbol in ALL {
        assert_eq!(Nucleotide::from_char(symbol.to_char()), Ok(symbol));
    }
}

#[test]
fn symbols_are_ordered_as_their_codes() {
    assert!(A < C && C < G && G < T);
    assert!(T > A);
    assert!(G <= G && G >= G);
    for x in ALL {
        for y in ALL {
            assert_eq!(x.partial_cmp(&y), Some(x.to_bits().cmp(&y.to_bits())));
            assert_eq!(x.cmp(&y), x.to_bits().cmp(&y.to_bits()));
            assert_eq!(x == y, x.cmp(&y) == Ordering::Equal);
        }
    }
}

#[test]
fn adenine_is_the_default() {
    assert_eq!(Nucleotide::default(), A);
    assert_eq!(Nucleotide::default(), Nucleotide::Adenine);
}
