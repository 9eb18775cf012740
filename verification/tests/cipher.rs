use aes_block::block_cipher::encrypt;
use aes_block::encoding::{add_round_key, encode_state, mix_columns, shift_rows, Encoder};
use aes_block::error::{ConfigurationError, EncryptError, InputError};
use aes_block::gf::{double, multiply};
use aes_block::key::Key;
use aes_block::sbox::{sub_byte, substitute, SBOX};
use aes_block::Block;

fn unhex(s: &str) -> Vec<u8> {
    let digits: Vec<u8> = s
        .bytes()
        .map(|c| match c {
            b'0'..=b'9' => c - b'0',
            _ => c - b'a' + 10,
        })
        .collect();
    digits.chunks(2).map(|p| p[0] * 16 + p[1]).collect()
}

#[test]
fn test_shift_rows() {
    let mut block = Block::try_from([
        0x20, 0x51, 0x15, 0x6a, 0x45, 0x26, 0x1b, 0xc0, 0xd0, 0x02, 0x02, 0x12, 0x9d, 0xf3,
        0xa3, 0x67,
    ])
    .unwrap();
    shift_rows(&mut block);
    let expected: Vec<u8> = vec![
        0x20, 0x51, 0x15, 0x6a, 0x26, 0x1b, 0xc0, 0x45, 0x02, 0x12, 0xd0, 0x02, 0x67, 0x9d,
        0xf3, 0xa3,
    ];
    assert_eq!(expected, block.to_vec());
}

#[test]
fn test_mix_columns() {
    let mut block = Block::try_from([
        0x20, 0x51, 0x15, 0x6a, 0x26, 0x1b, 0xc0, 0x45, 0x02, 0x12, 0xd0, 0x02, 0x67, 0x9d,
        0xf3, 0xa3,
    ])
    .unwrap();
    mix_columns(&mut block);
    let expected: Vec<u8> = vec![
        0x4f, 0x00, 0x52, 0xba, 0x0d, 0xcc, 0x16, 0x45, 0xab, 0xd2, 0x60, 0xd5, 0x8a, 0xdb,
        0xd2, 0xa4,
    ];
    assert_eq!(expected, block.to_vec());
}

#[test]
fn mix_columns_of_known_column() {
    let mut block = Block::from([
        [0xdb, 0xf2, 0x01, 0xc6],
        [0x13, 0x0a, 0x01, 0xc6],
        [0x53, 0x22, 0x01, 0xc6],
        [0x45, 0x5c, 0x01, 0xc6],
    ]);
    mix_columns(&mut block);
    assert_eq!(
        block,
        Block::from([
            [0x8e, 0x9f, 0x01, 0xc6],
            [0x4d, 0xdc, 0x01, 0xc6],
            [0xa1, 0x58, 0x01, 0xc6],
            [0xbc, 0x9d, 0x01, 0xc6],
        ])
    );
}

#[test]
fn add_round_key_puts_words_on_columns() {
    let mut block = Block::new();
    let round_key = Block::from([[1, 2, 3, 4], [5, 6, 7, 8], [9, 10, 11, 12], [13, 14, 15, 16]]);
    add_round_key(&mut block, &round_key);
    assert_eq!(
        block,
        Block::from([[1, 5, 9, 13], [2, 6, 10, 14], [3, 7, 11, 15], [4, 8, 12, 16]])
    );
}

#[test]
fn field_doubling() {
    assert_eq!(double(0x01), 0x02);
    assert_eq!(double(0x57), 0xae);
    assert_eq!(double(0x80), 0x1b);
    assert_eq!(double(0xae), 0x47);
    assert_eq!(double(0xff), 0xe5);
    assert_eq!(double(0x00), 0x00);
}

#[test]
fn field_product() {
    assert_eq!(multiply(0x57, 0x83), 0xc1);
    assert_eq!(multiply(0x57, 0x13), 0xfe);
    assert_eq!(multiply(0x57, 0x02), 0xae);
    assert_eq!(multiply(0x80, 0x02), 0x1b);
    assert_eq!(multiply(0x10, 0x10), 0x1b);
    assert_eq!(multiply(0xff, 0x01), 0xff);
    assert_eq!(multiply(0xff, 0x00), 0x00);
    assert_eq!(multiply(0x53, 0xca), 0x01);
}

#[test]
fn field_product_is_not_integer_product() {
    let plain = ((0x80u16 * 0x02u16) % 0x100) as u8;
    assert_ne!(multiply(0x80, 0x02), plain);
}

#[test]
fn substitution_of_known_bytes() {
    assert_eq!(sub_byte(0x00), 0x63);
    assert_eq!(sub_byte(0x01), 0x7c);
    assert_eq!(sub_byte(0x53), 0xed);
    assert_eq!(sub_byte(0xff), 0x16);
    assert_eq!(sub_byte(0x10), 0xca);
    assert_eq!(SBOX[0x9a], 0xb8);
}

#[test]
fn substitution_is_a_bijection() {
    let mut seen = [false; 256];
    for b in 0..=255u8 {
        seen[sub_byte(b) as usize] = true;
    }
    assert!(seen.iter().all(|s| *s));
}

#[test]
fn substitute_whole_block() {
    let block = Block::from([
        [0x19, 0xa0, 0x9a, 0xe9],
        [0x3d, 0xf4, 0xc6, 0xf8],
        [0xe3, 0xe2, 0x8d, 0x48],
        [0xbe, 0x2b, 0x2a, 0x08],
    ]);
    assert_eq!(
        substitute(block),
        Block::from([
            [0xd4, 0xe0, 0xb8, 0x1e],
            [0x27, 0xbf, 0xb4, 0x41],
            [0x11, 0x98, 0x5d, 0x52],
            [0xae, 0xf1, 0xe5, 0x30],
        ])
    );
}

#[test]
fn encrypt_128_bit_vector() {
    let key = unhex("000102030405060708090a0b0c0d0e0f");
    let plaintext = unhex("00112233445566778899aabbccddeeff");
    assert_eq!(
        encrypt(&plaintext, &key),
        Ok(unhex("69c4e0d86a7b0430d8cdb78070b4c55a"))
    );
}

#[test]
fn encrypt_128_bit_worked_example() {
    let key = unhex("2b7e151628aed2a6abf7158809cf4f3c");
    let plaintext = unhex("3243f6a8885a308d313198a2e0370734");
    assert_eq!(
        encrypt(&plaintext, &key),
        Ok(unhex("3925841d02dc09fbdc118597196a0b32"))
    );
}

#[test]
fn encrypt_text_under_text_key() {
    let ciphertext = encrypt(b"Two One Nine Two", b"Thats my Kung Fu").unwrap();
    assert_eq!(ciphertext, unhex("29c3505f571420f6402299b31a02d73a"));
}

#[test]
fn encrypt_192_bit_vector() {
    let key = unhex("000102030405060708090a0b0c0d0e0f1011121314151617");
    let plaintext = unhex("00112233445566778899aabbccddeeff");
    assert_eq!(
        encrypt(&plaintext, &key),
        Ok(unhex("dda97ca4864cdfe06eaf70a0ec0d7191"))
    );
}

#[test]
fn encrypt_256_bit_vector() {
    let key = unhex("000102030405060708090a0b0c0d0e0f101112131415161718191a1b1c1d1e1f");
    let plaintext = unhex("00112233445566778899aabbccddeeff");
    assert_eq!(
        encrypt(&plaintext, &key),
        Ok(unhex("8ea2b7ca516745bfeafc49904b496089"))
    );
}

#[test]
fn encrypt_nothing_gives_nothing() {
    assert_eq!(encrypt(&[], &[0u8; 16]), Ok(Vec::new()));
}

#[test]
fn encrypt_keeps_the_length() {
    let plaintext = [0x5au8; 80];
    assert_eq!(encrypt(&plaintext, &[1u8; 24]).unwrap().len(), 80);
}

#[test]
fn encrypt_is_repeatable() {
    let key = unhex("2b7e151628aed2a6abf7158809cf4f3c");
    let plaintext = unhex("6bc1bee22e409f96e93d7e117393172aae2d8a571e03ac9c9eb76fac45af8e51");
    assert_eq!(encrypt(&plaintext, &key), encrypt(&plaintext, &key));
}

#[test]
fn encrypt_blocks_independently() {
    let key = unhex("2b7e151628aed2a6abf7158809cf4f3c");
    let first = unhex("6bc1bee22e409f96e93d7e117393172a");
    let second = unhex("ae2d8a571e03ac9c9eb76fac45af8e51");
    let mut both = first.clone();
    both.extend_from_slice(&second);
    let mut expected = encrypt(&first, &key).unwrap();
    expected.extend_from_slice(&encrypt(&second, &key).unwrap());
    assert_eq!(encrypt(&both, &key).unwrap(), expected);
    assert_eq!(
        expected,
        unhex("3ad77bb40d7a3660a89ecaf32466ef97f5d3d58503b9699de785895a96fdbaaf")
    );
}

#[test]
fn equal_blocks_encrypt_alike() {
    let key = [0x42u8; 32];
    let out = encrypt(&[0x11u8; 48], &key).unwrap();
    assert_eq!(out[..16], out[16..32]);
    assert_eq!(out[..16], out[32..]);
}

#[test]
fn encrypt_refuses_unsupported_key_length() {
    let plaintext = [0u8; 16];
    for len in [0usize, 1, 15, 17, 23, 25, 31, 33, 64] {
        let key = vec![0u8; len];
        assert_eq!(
            encrypt(&plaintext, &key),
            Err(EncryptError::Configuration(
                ConfigurationError::UnsupportedKeyLength
            ))
        );
    }
}

#[test]
fn encrypt_refuses_partial_blocks() {
    let key = [0u8; 16];
    for len in [1usize, 15, 17, 31, 33] {
        let plaintext = vec![0u8; len];
        assert_eq!(
            encrypt(&plaintext, &key),
            Err(EncryptError::Input(InputError::InvalidBlockLength))
        );
    }
}

#[test]
fn key_length_is_checked_before_block_length() {
    assert_eq!(
        encrypt(&[0u8; 5], &[0u8; 5]),
        Err(EncryptError::Configuration(
            ConfigurationError::UnsupportedKeyLength
        ))
    );
}

#[test]
fn encoder_refuses_partial_blocks() {
    let data = [0u8; 17];
    assert!(matches!(
        Encoder::new(&data),
        Err(InputError::InvalidBlockLength)
    ));
}

#[test]
fn encoder_goes_block_by_block() {
    let key: [u8; 16] = [
        0x2b, 0x7e, 0x15, 0x16, 0x28, 0xae, 0xd2, 0xa6, 0xab, 0xf7, 0x15, 0x88, 0x09, 0xcf,
        0x4f, 0x3c,
    ];
    let round_keys = Key::<16>::new(key).unwrap().expand();
    let data = unhex("6bc1bee22e409f96e93d7e117393172aae2d8a571e03ac9c9eb76fac45af8e51");
    let mut encoder = match Encoder::new(&data) {
        Ok(encoder) => encoder,
        Err(_) => panic!("whole blocks were refused"),
    };
    assert_eq!(encoder.remaining(), 2);
    encoder.encode_block(&round_keys);
    assert_eq!(encoder.remaining(), 1);
    let out = encoder.encode(&round_keys);
    assert_eq!(
        out,
        unhex("3ad77bb40d7a3660a89ecaf32466ef97f5d3d58503b9699de785895a96fdbaaf")
    );
}

#[test]
fn encode_state_of_worked_example() {
    let key: [u8; 16] = [
        0x2b, 0x7e, 0x15, 0x16, 0x28, 0xae, 0xd2, 0xa6, 0xab, 0xf7, 0x15, 0x88, 0x09, 0xcf,
        0x4f, 0x3c,
    ];
    let round_keys = Key::<16>::new(key).unwrap().expand();
    let state = Block::from([
        [0x32, 0x88, 0x31, 0xe0],
        [0x43, 0x5a, 0x31, 0x37],
        [0xf6, 0x30, 0x98, 0x07],
        [0xa8, 0x8d, 0xa2, 0x34],
    ]);
    assert_eq!(
        encode_state(state, &round_keys),
        Block::from([
            [0x39, 0x02, 0xdc, 0x19],
            [0x25, 0xdc, 0x11, 0x6a],
            [0x84, 0x09, 0x85, 0x0b],
            [0x1d, 0xfb, 0x97, 0x32],
        ])
    );
}

#[test]
fn field_product_laws_on_values() {
    for (a, b, c) in [(0x57u8, 0x83u8, 0x13u8), (0xff, 0x02, 0x80), (0x00, 0x9c, 0x01)] {
        assert_eq!(multiply(a, b), multiply(b, a));
        assert_eq!(multiply(a, b ^ c), multiply(a, b) ^ multiply(a, c));
        assert_eq!(multiply(1, a), a);
        assert_eq!(multiply(2, a), double(a));
        assert_eq!(multiply(3, a), double(a) ^ a);
    }
}
