use hashverify::digest::render_digest;
use hashverify::hasher::{digest_of_chunks, Hasher};
use xxhash_rust::xxh3::xxh3_128;

#[test]
fn digest_matches_one_shot_xxh3() {
    let chunks = vec![b"hello ".to_vec(), b"world".to_vec()];
    assert_eq!(digest_of_chunks(&chunks), xxh3_128(b"hello world"));
}

#[test]
fn chunking_does_not_change_digest() {
    let data: Vec<u8> = (0..5000u32).map(|i| (i * 7 % 251) as u8).collect();
    let whole = digest_of_chunks(&vec![data.clone()]);
    let pieces = vec![
        data[..1].to_vec(),
        data[1..300].to_vec(),
        Vec::new(),
        data[300..4097].to_vec(),
        data[4097..].to_vec(),
    ];
    assert_eq!(digest_of_chunks(&pieces), whole);
    let mut h = Hasher::new();
    for b in data.iter() {
        h.update(&[*b]);
    }
    assert_eq!(h.digest(), whole);
}

#[test]
fn reset_forgets_earlier_stream() {
    let mut used = Hasher::new();
    used.update(b"some earlier file");
    used.reset();
    used.update(b"second file");
    let mut fresh = Hasher::new();
    fresh.update(b"second file");
    assert_eq!(used.digest(), fresh.digest());
    let mut again = Hasher::new();
    again.update(b"junk");
    let chunks = vec![b"second ".to_vec(), b"file".to_vec()];
    assert_eq!(again.digest_chunks(&chunks), fresh.digest());
}

#[test]
fn digest_does_not_consume_stream() {
    let mut h = Hasher::new();
    h.update(b"abc");
    let first = h.digest();
    assert_eq!(h.digest(), first);
    h.update(b"d");
    assert_eq!(h.digest(), xxh3_128(b"abcd"));
    assert_ne!(h.digest(), first);
}

#[test]
fn empty_stream_digest() {
    let h = Hasher::new();
    assert_eq!(h.digest(), xxh3_128(b""));
    assert_ne!(h.digest(), xxh3_128(b"a"));
}

#[test]
fn render_zero_is_thirty_two_zeros() {
    assert_eq!(render_digest(0), "00000000000000000000000000000000");
}

#[test]
fn render_is_uppercase_and_padded() {
    assert_eq!(render_digest(255), "000000000000000000000000000000FF");
    assert_eq!(
        render_digest(0x0123456789ABCDEF0123456789ABCDEF),
        "0123456789ABCDEF0123456789ABCDEF"
    );
    assert_eq!(render_digest(u128::MAX), "FFFFFFFFFFFFFFFFFFFFFFFFFFFFFFFF");
    let d = xxh3_128(b"anything");
    let text = render_digest(d);
    assert_eq!(text.len(), 32);
    assert!(text.chars().all(|c| c.is_ascii_digit() || ('A'..='F').contains(&c)));
    assert_eq!(text, format!("{:032X}", d));
}
