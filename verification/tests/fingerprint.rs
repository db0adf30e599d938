use secure_share::fingerprint::{encode_digest, generate_file_hash};

fn is_url_safe(c: char) -> bool {
    c.is_ascii_alphanumeric() || c == '-' || c == '_'
}

#[test]
fn empty_contents_have_the_known_identifier() {
    assert_eq!(generate_file_hash(b""), "47DEQpj8HBSa-_TImW-5JCeuQeRkm5NMpJWZG3hSuFU");
}

#[test]
fn short_contents_have_the_known_identifier() {
    assert_eq!(generate_file_hash(b"abc"), "ungWv48Bz-pBQUDeXa4iI7ADYaOWF3qctBD_YfIAFa0");
    assert_eq!(
        generate_file_hash(b"hello world"),
        "uU0nuZNNPgilLlLX2n2r-sSE7-N6U4DukIj3rOLvzek"
    );
}

#[test]
fn hundred_bytes_have_the_known_identifier() {
    let zeros = vec![0u8; 100];
    assert_eq!(generate_file_hash(&zeros), "zQDiksWXDTxeLw_6UXHlVbxGv8T63ftKQYtoQLhueaM");
    let counted: Vec<u8> = (0u8..100).collect();
    assert_eq!(generate_file_hash(&counted), "vOCv8Zz1qmp0aaMNYdBOQ3bku_Y4EFLunn8zklyVTVI");
}

#[test]
fn identifier_is_not_its_input() {
    let contents = b"47DEQpj8HBSa-_TImW-5JCeuQeRkm5NMpJWZG3hSuFU";
    assert_ne!(generate_file_hash(contents).as_bytes(), &contents[..]);
}

#[test]
fn same_bytes_give_the_same_identifier() {
    let contents: Vec<u8> = (0..5000u32).map(|i| (i * 7 % 251) as u8).collect();
    let first = generate_file_hash(&contents);
    let second = generate_file_hash(&contents);
    let third = generate_file_hash(&contents.clone());
    assert_eq!(first, second);
    assert_eq!(first, third);
}

#[test]
fn different_bytes_give_different_identifiers() {
    let inputs: Vec<Vec<u8>> = vec![
        vec![],
        vec![0],
        vec![0, 0],
        vec![1],
        b"report".to_vec(),
        b"report.txt".to_vec(),
        b"Report.txt".to_vec(),
        vec![0xff; 1024],
        vec![0xff; 1025],
    ];
    for i in 0..inputs.len() {
        for j in 0..inputs.len() {
            if i != j {
                assert_ne!(generate_file_hash(&inputs[i]), generate_file_hash(&inputs[j]));
            }
        }
    }
}

#[test]
fn identifier_has_forty_three_url_safe_characters() {
    for len in [0usize, 1, 2, 3, 31, 32, 33, 63, 64, 65, 1023, 1024, 1025, 4096] {
        let contents: Vec<u8> = (0..len).map(|i| (i % 256) as u8).collect();
        let identifier = generate_file_hash(&contents);
        assert_eq!(identifier.chars().count(), 43);
        assert!(identifier.chars().all(is_url_safe));
        assert!(!identifier.contains('='));
        assert!(!identifier.contains('+'));
        assert!(!identifier.contains('/'));
    }
}

#[test]
fn identifier_does_not_depend_on_how_the_bytes_are_held() {
    let owned: Vec<u8> = b"the same bytes".to_vec();
    let boxed: Box<[u8]> = owned.clone().into_boxed_slice();
    assert_eq!(generate_file_hash(&owned), generate_file_hash(&boxed));
    assert_eq!(generate_file_hash(&owned), generate_file_hash(b"the same bytes"));
}

#[test]
fn digest_of_zeros_is_written_with_the_first_symbol() {
    assert_eq!(encode_digest(&[0u8; 32]), "A".repeat(43));
}

#[test]
fn digest_of_ones_is_written_with_the_last_symbol() {
    let mut expected = "_".repeat(42);
    expected.push('8');
    assert_eq!(encode_digest(&[0xffu8; 32]), expected);
}

#[test]
fn digest_bits_are_read_six_at_a_time() {
    let mut counted = [0u8; 32];
    for i in 0..32 {
        counted[i] = i as u8;
    }
    assert_eq!(encode_digest(&counted), "AAECAwQFBgcICQoLDA0ODxAREhMUFRYXGBkaGxwdHh8");

    let mut digest = [0u8; 32];
    digest[0] = 0xfb;
    digest[1] = 0xff;
    digest[31] = 1;
    assert_eq!(encode_digest(&digest), "-_8AAAAAAAAAAAAAAAAAAAAAAAAAAAAAAAAAAAAAAAE");
}

#[test]
fn digests_that_differ_are_written_differently() {
    let mut first = [7u8; 32];
    let second = [7u8; 32];
    assert_eq!(encode_digest(&first), encode_digest(&second));
    for at in 0..32 {
        first = [7u8; 32];
        first[at] ^= 1;
        assert_ne!(encode_digest(&first), encode_digest(&second));
        first = [7u8; 32];
        first[at] ^= 0x80;
        assert_ne!(encode_digest(&first), encode_digest(&second));
    }
}
