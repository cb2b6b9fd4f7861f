use xor_breaker::{
    break_single_xor, english_char_frequency, hex_to_bytes, key_column, recover_key,
    score_decryption, xor_decrypt, DecodeError, FrequencyTable,
};

fn encrypt(plaintext: &[u8], key: &[u8]) -> Vec<u8> {
    let repeated: Vec<u8> = (0..plaintext.len()).map(|i| key[i % key.len()]).collect();
    xor_decrypt(plaintext, &repeated)
}

#[test]
fn hex_decodes_pairs_high_digit_first() {
    assert_eq!(hex_to_bytes("00"), Ok(vec![0x00]));
    assert_eq!(hex_to_bytes("4aFf10"), Ok(vec![0x4a, 0xff, 0x10]));
    assert_eq!(hex_to_bytes(""), Ok(vec![]));
}

#[test]
fn hex_rejects_odd_length() {
    assert_eq!(hex_to_bytes("abc"), Err(DecodeError::InvalidEncoding));
}

#[test]
fn hex_rejects_non_hex_characters() {
    assert_eq!(hex_to_bytes("0g"), Err(DecodeError::InvalidEncoding));
    assert_eq!(hex_to_bytes("+1"), Err(DecodeError::InvalidEncoding));
    assert_eq!(hex_to_bytes("é0"), Err(DecodeError::InvalidEncoding));
}

#[test]
fn xor_truncates_to_shorter_input() {
    assert_eq!(xor_decrypt(&[0x0f, 0xf0, 0xff], &[0xff, 0xff]), vec![0xf0, 0x0f]);
    assert_eq!(xor_decrypt(&[0x01], &[0x03, 0x07]), vec![0x02]);
    assert_eq!(xor_decrypt(&[], &[0x03]), Vec::<u8>::new());
}

#[test]
fn xor_twice_with_same_sequence_is_identity() {
    let a = b"many-time pad".to_vec();
    let b = b"0123456789abc".to_vec();
    let once = xor_decrypt(&a, &b);
    assert_ne!(once, a);
    assert_eq!(xor_decrypt(&once, &b), a);
}

#[test]
fn repeating_key_round_trip() {
    let plaintext = b"Attack at dawn, bring the maps!".to_vec();
    let key = b"KEY".to_vec();
    let ciphertext = encrypt(&plaintext, &key);
    assert_ne!(ciphertext, plaintext);
    assert_eq!(encrypt(&ciphertext, &key), plaintext);
}

#[test]
fn english_table_weights() {
    let t = english_char_frequency();
    assert_eq!(t.weight(b' '), 1500);
    assert_eq!(t.weight(b'e'), 1270);
    assert_eq!(t.weight(b'z'), 7);
    assert_eq!(t.weight(b'E'), 0);
    assert_eq!(t.weight(0), 0);
    assert_eq!(t.weight(255), 0);
}

#[test]
fn table_needs_one_weight_per_byte() {
    assert!(FrequencyTable::from_weights(vec![1; 255]).is_none());
    assert!(FrequencyTable::from_weights(vec![1; 257]).is_none());
    let t = FrequencyTable::from_weights(vec![3; 256]).unwrap();
    assert_eq!(t.weight(200), 3);
}

#[test]
fn score_sums_weights_of_known_bytes() {
    let t = english_char_frequency();
    assert_eq!(score_decryption(&t, b"e "), 2770);
    assert_eq!(score_decryption(&t, b"the"), 906 + 602 + 1270);
    assert_eq!(score_decryption(&t, &[0x00, 0x80, b'E']), 0);
    assert_eq!(score_decryption(&t, &[]), 0);
}

#[test]
fn single_zero_byte_breaks_to_space() {
    let t = english_char_frequency();
    let c = hex_to_bytes("00").unwrap();
    let (k, s) = break_single_xor(&t, &c);
    assert_eq!(k, 0x20);
    assert_eq!(s, 1500);
    assert_eq!(xor_decrypt(&c, &[k]), vec![0x20]);
}

#[test]
fn empty_ciphertext_gives_first_key_byte() {
    let t = english_char_frequency();
    assert_eq!(break_single_xor(&t, &[]), (0, 0));
}

#[test]
fn ties_go_to_smallest_key_byte() {
    let t = FrequencyTable::from_weights(vec![5; 256]).unwrap();
    assert_eq!(break_single_xor(&t, &[0x12, 0x34]), (0, 10));
}

#[test]
fn breaking_is_deterministic() {
    let t = english_char_frequency();
    let c = encrypt(b"the quick brown fox jumps over the lazy dog", &[0x5a]);
    let first = break_single_xor(&t, &c);
    assert_eq!(first, break_single_xor(&t, &c));
    assert_eq!(first.0, 0x5a);
}

#[test]
fn empty_corpus_gives_placeholder_key() {
    let t = english_char_frequency();
    assert_eq!(recover_key(&t, &[], 4), vec![0, 0, 0, 0]);
    assert_eq!(recover_key(&t, &[], 0), Vec::<u8>::new());
}

#[test]
fn recovers_two_byte_key_from_two_ciphertexts() {
    let t = english_char_frequency();
    let a = encrypt(b"the end is near.", b"AB");
    let b = encrypt(b"it is a nice day", b"AB");
    assert_eq!(a.len(), b.len());
    assert_eq!(recover_key(&t, &[a, b], 2), b"AB".to_vec());
}

#[test]
fn short_ciphertext_is_left_out_of_later_columns() {
    let corpus = vec![vec![1, 2, 3], vec![4], vec![5, 6]];
    assert_eq!(key_column(&corpus, 0), vec![1, 4, 5]);
    assert_eq!(key_column(&corpus, 1), vec![2, 6]);
    assert_eq!(key_column(&corpus, 2), vec![3]);
    assert_eq!(key_column(&corpus, 3), Vec::<u8>::new());
}

#[test]
fn recovered_key_skips_missing_bytes() {
    let t = english_char_frequency();
    // Column 1 holds only the second ciphertext's byte: a padded zero there
    // would change the winner.
    let corpus = vec![vec![0x00], vec![0x00, b'e' ^ b' ']];
    assert_eq!(recover_key(&t, &corpus, 3), vec![0x20, b'e', 0]);
}
