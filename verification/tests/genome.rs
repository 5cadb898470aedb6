use kitties::genome::{combine, combine_dna, Kitty};

fn bit(byte: u8, b: u8) -> bool {
    (byte >> b) & 1 == 1
}

#[test]
fn combine_dna_conformance_vector() {
    assert_eq!(combine_dna(0b11110000, 0b11001100, 0b10101010), 0b11100100);
}

#[test]
fn combine_dna_selector_of_ones_takes_first_parent() {
    for dna1 in 0..=255u8 {
        for dna2 in [0u8, 1, 0x55, 0xaa, 0xfe, 0xff] {
            assert_eq!(combine_dna(dna1, dna2, 0xff), dna1);
        }
    }
}

#[test]
fn combine_dna_selector_of_zeros_takes_second_parent() {
    for dna2 in 0..=255u8 {
        for dna1 in [0u8, 1, 0x55, 0xaa, 0xfe, 0xff] {
            assert_eq!(combine_dna(dna1, dna2, 0x00), dna2);
        }
    }
}

#[test]
fn combine_dna_takes_each_bit_from_the_selected_parent() {
    for selector in 0..=255u8 {
        for dna1 in 0..=255u8 {
            for dna2 in [0u8, 0x0f, 0x33, 0x5a, 0xcc, 0xf0, 0xff] {
                let child = combine_dna(dna1, dna2, selector);
                for b in 0..8u8 {
                    let expected = if bit(selector, b) { bit(dna1, b) } else { bit(dna2, b) };
                    assert_eq!(bit(child, b), expected);
                }
            }
        }
    }
}

#[test]
fn combine_dna_closed_form() {
    assert_eq!(combine_dna(0x12, 0x34, 0x0f), (0x12 & 0x0f) | (0x34 & 0xf0));
    assert_eq!(combine_dna(0x12, 0x34, 0x0f), 0x32);
    assert_eq!(combine_dna(0xff, 0x00, 0x81), 0x81);
    assert_eq!(combine_dna(0x00, 0xff, 0x81), 0x7e);
}

#[test]
fn combine_works_byte_by_byte() {
    let parent1 = [0b11110000u8; 16];
    let parent2 = [0b11001100u8; 16];
    let selector = [0b10101010u8; 16];
    assert_eq!(combine(&parent1, &parent2, &selector), [0b11100100u8; 16]);
}

#[test]
fn combine_uses_the_selector_byte_of_each_position() {
    let mut parent1 = [0u8; 16];
    let mut parent2 = [0u8; 16];
    let mut selector = [0u8; 16];
    for i in 0..16 {
        parent1[i] = (i as u8) * 16 + 1;
        parent2[i] = 255 - (i as u8);
        selector[i] = (i as u8) * 17;
    }
    let child = combine(&parent1, &parent2, &selector);
    for i in 0..16 {
        assert_eq!(child[i], (parent1[i] & selector[i]) | (parent2[i] & !selector[i]));
    }
    assert_eq!(child[0], 255);
    assert_eq!(child[1], (17 & 17) | (254 & !17));
    assert_eq!(child[15], 241 & 255);
}

#[test]
fn kitty_holds_its_genome() {
    let kitty = Kitty([7u8; 16]);
    assert_eq!(kitty.0, [7u8; 16]);
    assert_eq!(kitty, Kitty([7u8; 16]));
    assert_ne!(kitty, Kitty([8u8; 16]));
}
