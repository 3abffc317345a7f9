use p2p_handshake::utils::{align_16, id2pk, nonce, xor};

#[test]
fn xor_is_elementwise_and_cut_to_the_shorter_input() {
    assert_eq!(xor(&[0x0f, 0xf0, 0xaa], &[0xff, 0xff]), vec![0xf0, 0x0f]);
    assert_eq!(xor(&[], &[1, 2, 3]), Vec::<u8>::new());
}

#[test]
fn xor_twice_gives_the_first_operand_back() {
    let a = vec![1u8, 2, 3, 250, 0, 77];
    let b = vec![9u8, 8, 7, 6, 5, 4];
    assert_eq!(xor(&xor(&a, &b), &b), a);
}

#[test]
fn align_16_rounds_up_to_a_multiple_of_16() {
    assert_eq!(align_16(0), 0);
    assert_eq!(align_16(1), 16);
    assert_eq!(align_16(16), 16);
    assert_eq!(align_16(17), 32);
    for n in 0usize..1000 {
        let a = align_16(n);
        assert_eq!(a % 16, 0);
        assert!(a >= n && a - n < 16);
    }
}

#[test]
fn id2pk_prefixes_the_tag_and_stripping_it_recovers_the_id() {
    let id: Vec<u8> = (0u8..64).collect();
    let key = id2pk(&id);
    assert_eq!(key.len(), 65);
    assert_eq!(key[0], 4);
    assert_eq!(&key[1..], &id[..]);
}

#[test]
fn nonces_are_32_bytes_and_fresh() {
    let mut seen = std::collections::HashSet::new();
    for _ in 0..1000 {
        let n = nonce();
        assert_eq!(n.len(), 32);
        assert!(seen.insert(n));
    }
}
