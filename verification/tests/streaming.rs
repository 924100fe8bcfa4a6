use hex::ToHex;
use librypt_md5::Md5;

fn pattern(len: usize) -> Vec<u8> {
    (0..len).map(|i| ((i * 31 + 11) % 256) as u8).collect()
}

fn in_pieces(data: &[u8], cuts: &[usize]) -> [u8; 16] {
    let mut hasher = Md5::new();
    let mut from = 0;
    for &cut in cuts {
        hasher.update(&data[from..cut]);
        from = cut;
    }
    hasher.update(&data[from..]);
    hasher.finalize()
}

#[test]
fn new_then_finalize_is_the_empty_digest() {
    assert_eq!(
        Md5::new().finalize().encode_hex::<String>(),
        "d41d8cd98f00b204e9800998ecf8427e"
    );
}

#[test]
fn empty_updates_change_nothing() {
    let mut hasher = Md5::new();
    hasher.update(b"");
    hasher.update(b"abc");
    hasher.update(b"");
    assert_eq!(
        hasher.finalize().encode_hex::<String>(),
        "900150983cd24fb0d6963f7d28e17f72"
    );
}

#[test]
fn hash_is_new_update_finalize() {
    let data = pattern(777);
    let mut hasher = Md5::new();
    hasher.update(&data);
    assert_eq!(hasher.finalize(), Md5::hash(&data));
}

#[test]
fn two_pieces_at_every_cut() {
    let data = pattern(200);
    let whole = Md5::hash(&data);
    for cut in 0..=data.len() {
        assert_eq!(in_pieces(&data, &[cut]), whole, "cut at {}", cut);
    }
}

#[test]
fn byte_at_a_time() {
    let data = pattern(193);
    let mut hasher = Md5::new();
    for byte in &data {
        hasher.update(&[*byte]);
    }
    assert_eq!(hasher.finalize(), Md5::hash(&data));
}

#[test]
fn pieces_across_block_boundaries() {
    let data = pattern(1000);
    let whole = Md5::hash(&data);
    assert_eq!(in_pieces(&data, &[64, 128, 192]), whole);
    assert_eq!(in_pieces(&data, &[63, 64, 65, 127, 129]), whole);
    assert_eq!(in_pieces(&data, &[1, 2, 3, 500, 999]), whole);
    assert_eq!(in_pieces(&data, &[0, 0, 55, 56, 56, 1000]), whole);
    assert_eq!(in_pieces(&data, &[640]), whole);
}

#[test]
fn hello_world_in_two_pieces() {
    let mut hasher = Md5::new();
    hasher.update(b"Hello, ");
    hasher.update(b"world!");
    assert_eq!(
        hasher.finalize().encode_hex::<String>(),
        "6cd3556deb0da54bca060b4c39479839"
    );
}

#[test]
fn pieces_agree_with_an_independent_implementation() {
    let data = pattern(4096 + 17);
    let mut ours = Md5::new();
    let mut theirs = md5::Context::new();
    let mut from = 0;
    let mut step = 1;
    while from < data.len() {
        let to = usize::min(from + step, data.len());
        ours.update(&data[from..to]);
        theirs.consume(&data[from..to]);
        from = to;
        step = step * 3 % 101 + 1;
    }
    assert_eq!(ours.finalize(), theirs.finalize().0);
}

#[test]
fn finalize_reset_returns_the_digest() {
    let mut hasher = Md5::new();
    hasher.update(b"abc");
    assert_eq!(
        hasher.finalize_reset().encode_hex::<String>(),
        "900150983cd24fb0d6963f7d28e17f72"
    );
}

#[test]
fn reset_then_same_input_gives_same_digest() {
    let data = pattern(150);
    let mut hasher = Md5::new();
    hasher.update(&data);
    let first = hasher.finalize_reset();
    hasher.update(&data);
    let second = hasher.finalize_reset();
    assert_eq!(first, second);
    assert_eq!(first, Md5::hash(&data));
}

#[test]
fn reset_forgets_what_came_before() {
    let mut hasher = Md5::new();
    hasher.update(&pattern(61));
    let _ = hasher.finalize_reset();
    assert_eq!(
        hasher.finalize_reset().encode_hex::<String>(),
        "d41d8cd98f00b204e9800998ecf8427e"
    );
    hasher.update(b"Hello, world!");
    assert_eq!(
        hasher.finalize().encode_hex::<String>(),
        "6cd3556deb0da54bca060b4c39479839"
    );
}

#[test]
fn reset_after_each_staged_length() {
    for len in [0usize, 1, 55, 56, 63, 64, 65, 120] {
        let data = pattern(len);
        let mut hasher = Md5::new();
        hasher.update(&data);
        assert_eq!(hasher.finalize_reset(), md5::compute(&data).0, "length {}", len);
        hasher.update(b"abc");
        assert_eq!(
            hasher.finalize_reset().encode_hex::<String>(),
            "900150983cd24fb0d6963f7d28e17f72",
            "after length {}",
            len
        );
    }
}

#[test]
fn bit_length_beyond_32_bits() {
    // 2^29 bytes are 2^32 bits: the length field needs its fifth byte.
    let chunk = vec![0u8; 1 << 20];
    let mut hasher = Md5::new();
    for _ in 0..512 {
        hasher.update(&chunk);
    }
    assert_eq!(
        hasher.finalize().encode_hex::<String>(),
        "aa559b4e3523a6c931f08f4df52d58f2"
    );
}
