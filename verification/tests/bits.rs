use elxr_chain::error_correction::bits::{rotate_left, test_bit};

#[test]
fn rotate_left_moves_bits_around_the_byte() {
    assert_eq!(rotate_left(0b0000_0001, 1), 0b0000_0010);
    assert_eq!(rotate_left(0b1000_0000, 1), 0b0000_0001);
    assert_eq!(rotate_left(0b1100_0001, 2), 0b0000_0111);
    assert_eq!(rotate_left(0x41, 0), 0x41);
    assert_eq!(rotate_left(0x41, 8), 0x41);
    assert_eq!(rotate_left(0x41, 9), 0x82);
    assert_eq!(rotate_left(0x41, 17), 0x82);
}

#[test]
fn rotate_left_agrees_with_the_standard_rotation() {
    for byte in 0..=255u8 {
        for by in 0..40usize {
            assert_eq!(rotate_left(byte, by), byte.rotate_left(by as u32));
        }
    }
}

#[test]
fn test_bit_reads_one_bit() {
    assert!(test_bit(0b0000_0001, 0));
    assert!(!test_bit(0b0000_0001, 1));
    assert!(test_bit(0b1000_0000, 7));
    assert!(!test_bit(0b0111_1111, 7));
    for byte in 0..=255u8 {
        for bit in 0..8usize {
            assert_eq!(test_bit(byte, bit), byte & (1 << bit) != 0);
        }
    }
}

#[test]
fn test_bit_finds_nothing_beyond_the_byte() {
    for bit in 8..20usize {
        assert!(!test_bit(0xFF, bit));
    }
    assert!(!test_bit(0xFF, usize::MAX));
}
