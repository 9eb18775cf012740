use aes_block::error::ConfigurationError;
use aes_block::key::schedule::{rc, rcon, rot_word};
use aes_block::key::{sub_word, Key};
use aes_block::{xor, Block};

#[test]
fn test_expand() {
    let key = [
        0x54, 0x68, 0x61, 0x74, 0x73, 0x20, 0x6D, 0x79, 0x20, 0x4B, 0x75, 0x6E, 0x67, 0x20,
        0x46, 0x75,
    ];

    let rounds = [
        [
            0x54, 0x68, 0x61, 0x74, 0x73, 0x20, 0x6D, 0x79, 0x20, 0x4B, 0x75, 0x6E, 0x67, 0x20,
            0x46, 0x75,
        ],
        [
            0xE2, 0x32, 0xFC, 0xF1, 0x91, 0x12, 0x91, 0x88, 0xB1, 0x59, 0xE4, 0xE6, 0xD6, 0x79,
            0xA2, 0x93,
        ],
        [
            0x56, 0x08, 0x20, 0x07, 0xC7, 0x1A, 0xB1, 0x8F, 0x76, 0x43, 0x55, 0x69, 0xA0, 0x3A,
            0xF7, 0xFA,
        ],
        [
            0xD2, 0x60, 0x0D, 0xE7, 0x15, 0x7A, 0xBC, 0x68, 0x63, 0x39, 0xE9, 0x01, 0xC3, 0x03,
            0x1E, 0xFB,
        ],
        [
            0xA1, 0x12, 0x02, 0xC9, 0xB4, 0x68, 0xBE, 0xA1, 0xD7, 0x51, 0x57, 0xA0, 0x14, 0x52,
            0x49, 0x5B,
        ],
        [
            0xB1, 0x29, 0x3B, 0x33, 0x05, 0x41, 0x85, 0x92, 0xD2, 0x10, 0xD2, 0x32, 0xC6, 0x42,
            0x9B, 0x69,
        ],
        [
            0xBD, 0x3D, 0xC2, 0x87, 0xB8, 0x7C, 0x47, 0x15, 0x6A, 0x6C, 0x95, 0x27, 0xAC, 0x2E,
            0x0E, 0x4E,
        ],
        [
            0xCC, 0x96, 0xED, 0x16, 0x74, 0xEA, 0xAA, 0x03, 0x1E, 0x86, 0x3F, 0x24, 0xB2, 0xA8,
            0x31, 0x6A,
        ],
        [
            0x8E, 0x51, 0xEF, 0x21, 0xFA, 0xBB, 0x45, 0x22, 0xE4, 0x3D, 0x7A, 0x06, 0x56, 0x95,
            0x4B, 0x6C,
        ],
        [
            0xBF, 0xE2, 0xBF, 0x90, 0x45, 0x59, 0xFA, 0xB2, 0xA1, 0x64, 0x80, 0xB4, 0xF7, 0xF1,
            0xCB, 0xD8,
        ],
        [
            0x28, 0xFD, 0xDE, 0xF8, 0x6D, 0xA4, 0x24, 0x4A, 0xCC, 0xC0, 0xA4, 0xFE, 0x3B, 0x31,
            0x6F, 0x26,
        ],
    ];

    let round_keys = Key::<16>::new(key).unwrap().expand();
    assert_eq!(rounds.len(), round_keys.len());

    for (i, (actual, expected)) in round_keys
        .into_iter()
        .zip(rounds.into_iter())
        .enumerate()
        .collect::<Vec<_>>()
    {
        assert_eq!(
            Block::try_from(expected).unwrap(),
            actual,
            "Invalid schedule for {i}th round"
        );
    }
}

#[test]
fn test_rc() {
    let values: [u8; 10] = [0x01, 0x02, 0x04, 0x08, 0x10, 0x20, 0x40, 0x80, 0x1B, 0x36];
    for (i, value) in values.into_iter().enumerate() {
        assert_eq!(Ok(value), rc(i + 1))
    }
}

#[test]
fn rc_of_zero_fails() {
    assert_eq!(rc(0), Err(ConfigurationError::ZeroRoundIndex));
    assert_eq!(rcon(0), Err(ConfigurationError::ZeroRoundIndex));
}

#[test]
fn rc_goes_on_past_ten() {
    assert_eq!(rc(11), Ok(0x6c));
    assert_eq!(rc(12), Ok(0xd8));
    assert_eq!(rc(13), Ok(0xab));
    assert_eq!(rc(14), Ok(0x4d));
    assert_eq!(rc(52), Ok(0x01));
}

#[test]
fn rcon_pads_with_zeros() {
    assert_eq!(rcon(1), Ok([0x01, 0, 0, 0]));
    assert_eq!(rcon(9), Ok([0x1b, 0, 0, 0]));
    assert_eq!(rcon(10), Ok([0x36, 0, 0, 0]));
}

#[test]
fn rot_word_moves_the_first_byte_to_the_end() {
    assert_eq!(rot_word([0x09, 0xcf, 0x4f, 0x3c]), [0xcf, 0x4f, 0x3c, 0x09]);
    assert_eq!(rot_word([1, 2, 3, 4]), [2, 3, 4, 1]);
}

#[test]
fn sub_word_substitutes_each_byte() {
    assert_eq!(sub_word([0xcf, 0x4f, 0x3c, 0x09]), [0x8a, 0x84, 0xeb, 0x01]);
}

#[test]
fn xor_of_arrays() {
    assert_eq!(xor([0x0f, 0xf0, 0xaa], [0xff, 0xff, 0x0a]), [0xf0, 0x0f, 0xa0]);
    let none: [u8; 0] = [];
    assert_eq!(xor(none, none), none);
    let a = [0x54, 0x68, 0x61, 0x74];
    assert_eq!(xor(a, a), [0, 0, 0, 0]);
    assert_eq!(xor(xor(a, [1, 2, 3, 4]), [1, 2, 3, 4]), a);
}

#[test]
fn key_of_unsupported_length_is_refused() {
    assert!(matches!(
        Key::<15>::new([0; 15]),
        Err(ConfigurationError::UnsupportedKeyLength)
    ));
    assert!(matches!(
        Key::<0>::new([]),
        Err(ConfigurationError::UnsupportedKeyLength)
    ));
    assert!(matches!(
        Key::<17>::new([0; 17]),
        Err(ConfigurationError::UnsupportedKeyLength)
    ));
    assert!(matches!(
        Key::<33>::new([0; 33]),
        Err(ConfigurationError::UnsupportedKeyLength)
    ));
    assert!(Key::<16>::new([0; 16]).is_ok());
    assert!(Key::<24>::new([0; 24]).is_ok());
    assert!(Key::<32>::new([0; 32]).is_ok());
}

#[test]
fn rounds_by_key_length() {
    assert_eq!(Key::<16>::new([0; 16]).unwrap().n_rounds(), 10);
    assert_eq!(Key::<24>::new([0; 24]).unwrap().n_rounds(), 12);
    assert_eq!(Key::<32>::new([0; 32]).unwrap().n_rounds(), 14);
}

#[test]
fn words_by_key_length() {
    assert_eq!(Key::<16>::new([0; 16]).unwrap().n_words(), 4);
    assert_eq!(Key::<24>::new([0; 24]).unwrap().n_words(), 6);
    assert_eq!(Key::<32>::new([0; 32]).unwrap().n_words(), 8);
}

#[test]
fn expand_gives_one_block_more_than_rounds() {
    assert_eq!(Key::<16>::new([7; 16]).unwrap().expand().len(), 11);
    assert_eq!(Key::<24>::new([7; 24]).unwrap().expand().len(), 13);
    assert_eq!(Key::<32>::new([7; 32]).unwrap().expand().len(), 15);
}

#[test]
fn first_round_key_is_the_key() {
    let mut key16 = [0u8; 16];
    let mut key24 = [0u8; 24];
    let mut key32 = [0u8; 32];
    for i in 0..32 {
        if i < 16 {
            key16[i] = i as u8;
        }
        if i < 24 {
            key24[i] = i as u8;
        }
        key32[i] = i as u8;
    }
    let first: Vec<u8> = key32[..16].to_vec();
    assert_eq!(Key::<16>::new(key16).unwrap().expand()[0].to_vec(), first);
    assert_eq!(Key::<24>::new(key24).unwrap().expand()[0].to_vec(), first);
    assert_eq!(Key::<32>::new(key32).unwrap().expand()[0].to_vec(), first);
    let second: Vec<u8> = key32[16..32].to_vec();
    assert_eq!(Key::<32>::new(key32).unwrap().expand()[1].to_vec(), second);
}

#[test]
fn expand_192_bit_key() {
    let key: [u8; 24] = [
        0x8e, 0x73, 0xb0, 0xf7, 0xda, 0x0e, 0x64, 0x52, 0xc8, 0x10, 0xf3, 0x2b, 0x80, 0x90,
        0x79, 0xe5, 0x62, 0xf8, 0xea, 0xd2, 0x52, 0x2c, 0x6b, 0x7b,
    ];
    let round_keys = Key::<24>::new(key).unwrap().expand();
    assert_eq!(round_keys.len(), 13);
    assert_eq!(
        round_keys[1].to_hex(),
        "62f8ead2522c6b7bfe0c91f72402f5a5"
    );
    assert_eq!(
        round_keys[12].to_hex(),
        "e98ba06f448c773c8ecc720401002202"
    );
}

#[test]
fn expand_256_bit_key() {
    let key: [u8; 32] = [
        0x60, 0x3d, 0xeb, 0x10, 0x15, 0xca, 0x71, 0xbe, 0x2b, 0x73, 0xae, 0xf0, 0x85, 0x7d,
        0x77, 0x81, 0x1f, 0x35, 0x2c, 0x07, 0x3b, 0x61, 0x08, 0xd7, 0x2d, 0x98, 0x10, 0xa3,
        0x09, 0x14, 0xdf, 0xf4,
    ];
    let round_keys = Key::<32>::new(key).unwrap().expand();
    assert_eq!(round_keys.len(), 15);
    assert_eq!(
        round_keys[2].to_hex(),
        "9ba354118e6925afa51a8b5f2067fcde"
    );
    assert_eq!(
        round_keys[3].to_hex(),
        "a8b09c1a93d194cdbe49846eb75d5b9a"
    );
    assert_eq!(
        round_keys[14].to_hex(),
        "fe4890d1e6188d0b046df344706c631e"
    );
}
