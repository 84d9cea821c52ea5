use np_benches::adapter::{serialize_fields, Blake3GoldilocksConfig, Blake3Hash};

fn digest_prefix(bytes: &[u8], n: usize) -> Vec<u8> {
    blake3::hash(bytes).as_bytes()[..n].to_vec()
}

#[test]
fn serialization_is_little_endian_in_order() {
    assert_eq!(serialize_fields(&[]), Vec::<u8>::new());
    assert_eq!(
        serialize_fields(&[0x0102030405060708, 1]),
        vec![8, 7, 6, 5, 4, 3, 2, 1, 1, 0, 0, 0, 0, 0, 0, 0]
    );
    assert_eq!(serialize_fields(&[u64::MAX]), vec![255; 8]);
}

#[test]
fn hash_no_pad_is_truncated_blake3_of_serialization() {
    let input = [5u64, 0xffff_ffff_0000_0000, 42];
    let bytes = serialize_fields(&input);
    let r = Blake3Hash::<25>::hash_no_pad(&input);
    assert_eq!(r.to_vec(), digest_prefix(&bytes, 25));
    let full = Blake3Hash::<32>::hash_no_pad(&input);
    assert_eq!(full.to_vec(), blake3::hash(&bytes).as_bytes().to_vec());
    assert_eq!(Blake3Hash::<0>::hash_no_pad(&input), [0u8; 0]);
}

#[test]
fn hash_no_pad_empty_and_single_differ() {
    let empty = Blake3Hash::<25>::hash_no_pad(&[]);
    let single = Blake3Hash::<25>::hash_no_pad(&[0]);
    assert_eq!(empty.len(), 25);
    assert_eq!(single.len(), 25);
    assert_ne!(empty, single);
    assert_eq!(empty.to_vec(), digest_prefix(&[], 25));
    assert_eq!(empty, Blake3Hash::<25>::hash_no_pad(&[]));
    assert_eq!(single, Blake3Hash::<25>::hash_no_pad(&[0]));
}

#[test]
fn two_to_one_hashes_left_then_right() {
    let left = [1u8; 25];
    let right = [2u8; 25];
    let mut cat = left.to_vec();
    cat.extend_from_slice(&right);
    let r = Blake3Hash::<25>::two_to_one(left, right);
    assert_eq!(r.to_vec(), digest_prefix(&cat, 25));
    assert_ne!(r, left);
    assert_ne!(r, right);
}

#[test]
fn nested_two_to_one_is_deterministic_and_ordered() {
    let a = Blake3Hash::<25>::hash_no_pad(&[1]);
    let b = Blake3Hash::<25>::hash_no_pad(&[2]);
    let c = Blake3Hash::<25>::hash_no_pad(&[3]);
    let d = Blake3Hash::<25>::hash_no_pad(&[4]);
    let root1 = Blake3Hash::<25>::two_to_one(
        Blake3Hash::<25>::two_to_one(a, b),
        Blake3Hash::<25>::two_to_one(c, d),
    );
    let root2 = Blake3Hash::<25>::two_to_one(
        Blake3Hash::<25>::two_to_one(a, b),
        Blake3Hash::<25>::two_to_one(c, d),
    );
    assert_eq!(root1, root2);
    assert_ne!(Blake3Hash::<25>::two_to_one(a, b), Blake3Hash::<25>::two_to_one(b, a));
    assert_eq!(Blake3Hash::<25>::two_to_one(a, a), Blake3Hash::<25>::two_to_one(a, a));
}

#[test]
fn goldilocks_config_digest_width() {
    assert_eq!(Blake3GoldilocksConfig::HASH_SIZE, 25);
    let r = Blake3Hash::<{ Blake3GoldilocksConfig::HASH_SIZE }>::hash_no_pad(&[7]);
    assert_eq!(r.len(), 25);
}
