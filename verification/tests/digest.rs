use hex::ToHex;
use librypt_md5::Md5;

fn hex_of(data: &[u8]) -> String {
    Md5::hash(data).encode_hex::<String>()
}

fn pattern(len: usize) -> Vec<u8> {
    (0..len).map(|i| ((i * 7 + 3) % 256) as u8).collect()
}

#[test]
fn test_hash() {
    let hash = Md5::hash(b"Hello, world!");

    assert_eq!(
        hash.encode_hex::<String>(),
        "6cd3556deb0da54bca060b4c39479839"
    );
}

#[test]
fn empty_message() {
    assert_eq!(hex_of(b""), "d41d8cd98f00b204e9800998ecf8427e");
}

#[test]
fn abc() {
    assert_eq!(hex_of(b"abc"), "900150983cd24fb0d6963f7d28e17f72");
}

#[test]
fn rfc_1321_suite() {
    assert_eq!(hex_of(b"a"), "0cc175b9c0f1b6a831c399e269772661");
    assert_eq!(hex_of(b"message digest"), "f96b697d7cb7938d525a2f31aaf161d0");
    assert_eq!(
        hex_of(b"abcdefghijklmnopqrstuvwxyz"),
        "c3fcd3d76192e4007dfb496cca67e13b"
    );
    assert_eq!(
        hex_of(b"ABCDEFGHIJKLMNOPQRSTUVWXYZabcdefghijklmnopqrstuvwxyz0123456789"),
        "d174ab98d277d9f5a5611c2c9f419d9f"
    );
    assert_eq!(
        hex_of(
            b"12345678901234567890123456789012345678901234567890123456789012345678901234567890"
        ),
        "57edf4a22be3c955ac49da2e2107b67a"
    );
}

#[test]
fn quick_brown_fox() {
    assert_eq!(
        hex_of(b"The quick brown fox jumps over the lazy dog"),
        "9e107d9d372bb6826bd81d3542a419d6"
    );
}

#[test]
fn one_million_a() {
    let data = vec![b'a'; 1_000_000];
    assert_eq!(hex_of(&data), "7707d6ae4e027c70eea2a935c2296f21");
}

#[test]
fn length_55_fills_one_padding_block() {
    assert_eq!(hex_of(&pattern(55)), "52c0e574e1198de5fe3f8f11440dcb1b");
}

#[test]
fn length_56_needs_a_second_padding_block() {
    assert_eq!(hex_of(&pattern(56)), "46c9907fc908ee68b1e7b8e71286a518");
}

#[test]
fn length_57() {
    assert_eq!(hex_of(&pattern(57)), "1c805dd236c35cab25fcb1bc73802c51");
}

#[test]
fn length_63() {
    assert_eq!(hex_of(&pattern(63)), "a62f6d59e837867693f042f5b8f5a236");
}

#[test]
fn length_64_leaves_nothing_staged() {
    assert_eq!(hex_of(&pattern(64)), "7160b8fb5e9e4023d549c3971fbaeead");
}

#[test]
fn length_65() {
    assert_eq!(hex_of(&pattern(65)), "70bd662e7aefbda85a0f7244167b7897");
}

#[test]
fn length_119() {
    assert_eq!(hex_of(&pattern(119)), "e84905d4214f4d1ca56c2cdcc152b143");
}

#[test]
fn length_120() {
    assert_eq!(hex_of(&pattern(120)), "e3eb5a6c8669ea01a8c185b8abc8a5dc");
}

#[test]
fn length_121() {
    assert_eq!(hex_of(&pattern(121)), "82f02aff7c685d5ef5f6abdfc38fd04f");
}

#[test]
fn lengths_around_two_blocks() {
    assert_eq!(hex_of(&pattern(1)), "8666683506aacd900bbd5a74ac4edf68");
    assert_eq!(hex_of(&pattern(127)), "acce2474d6cc8302120d09c818d17ef7");
    assert_eq!(hex_of(&pattern(128)), "10b2da1a82f16d99a81a7203fe9f02cb");
    assert_eq!(hex_of(&pattern(129)), "03fefbbcebe2959cf2270241aafe0250");
}

#[test]
fn two_block_padding_starts_from_a_clean_block() {
    // Sixty staged bytes leave no room for the length field; the second
    // padding block must not keep any of them.
    let data = vec![b'z'; 60];
    assert_eq!(hex_of(&data), "806df523494e95612ef4f4d513032a01");
}

#[test]
fn agrees_with_an_independent_implementation_for_every_short_length() {
    for len in 0..=300 {
        let data = pattern(len);
        assert_eq!(Md5::hash(&data), md5::compute(&data).0, "length {}", len);
    }
}

#[test]
fn boundary_lengths_agree_with_an_independent_implementation() {
    for len in [55usize, 56, 57, 63, 64, 65, 119, 120, 121] {
        let data = vec![0xa5u8; len];
        assert_eq!(Md5::hash(&data), md5::compute(&data).0, "length {}", len);
    }
}

#[test]
fn same_input_same_digest() {
    let data = pattern(1000);
    let first = Md5::hash(&data);
    let second = Md5::hash(&data);
    assert_eq!(first, second);

    let mut a = Md5::new();
    let mut b = Md5::new();
    a.update(&data);
    b.update(&data);
    assert_eq!(a.finalize(), b.finalize());
}

#[test]
fn different_inputs_differ() {
    assert_ne!(Md5::hash(b"abc"), Md5::hash(b"abd"));
    assert_ne!(Md5::hash(b""), Md5::hash(b"\0"));
}
