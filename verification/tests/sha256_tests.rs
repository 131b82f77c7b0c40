use blockchain::bytes::{push_be32, push_be64};
use blockchain::hex::to_hex;
use blockchain::sha256::{add32, rotr, sha256, word};

#[test]
fn digest_of_empty_message() {
    assert_eq!(
        to_hex(&sha256(b"")),
        "e3b0c44298fc1c149afbf4c8996fb92427ae41e4649b934ca495991b7852b855"
    );
}

#[test]
fn digest_of_abc() {
    assert_eq!(
        to_hex(&sha256(b"abc")),
        "ba7816bf8f01cfea414140de5dae2223b00361a396177a9cb410ff61f20015ad"
    );
}

#[test]
fn digest_of_message_whose_padding_needs_a_second_block() {
    let msg = b"abcdbcdecdefdefgefghfghighijhijkijkljklmklmnlmnomnopnopq";
    assert_eq!(msg.len(), 56);
    assert_eq!(
        to_hex(&sha256(msg)),
        "248d6a61d20638b8e5c026930c3e6039a33ce45964ff2167f6ecedd419db06c1"
    );
}

#[test]
fn digest_of_longest_message_padded_within_one_block() {
    let msg = vec![b'a'; 55];
    assert_eq!(
        to_hex(&sha256(&msg)),
        "9f4390f8d30c2dd92ec9f095b65e2b9ae9b0a925a5258e241c9f1e910f734318"
    );
}

#[test]
fn digest_of_exactly_one_block() {
    let msg = vec![b'a'; 64];
    assert_eq!(
        to_hex(&sha256(&msg)),
        "ffe054fe7ae0cb6dc65c3af9b61d5209f439851db43d0ba5997337df154668eb"
    );
}

#[test]
fn digest_of_many_blocks() {
    let msg = vec![b'a'; 1000];
    assert_eq!(
        to_hex(&sha256(&msg)),
        "41edece42d63e8d9bf515a9ba6932e1c20cbc9f5a5d134645adb5db1b9737ea3"
    );
}

#[test]
fn digest_around_the_two_block_boundary() {
    let mut msg: Vec<u8> = Vec::new();
    for i in 0..119u8 {
        msg.push(i);
    }
    assert_eq!(
        to_hex(&sha256(&msg)),
        "da18797ed7c3a777f0847f429724a2d8cd5138e6ed2895c3fa1a6d39d18f7ec6"
    );
    msg.push(119);
    assert_eq!(
        to_hex(&sha256(&msg)),
        "f52b23db1fbb6ded89ef42a23ce0c8922c45f25c50b568a93bf1c075420bbb7c"
    );
}

#[test]
fn digest_is_deterministic() {
    let msg = b"the same bytes";
    assert_eq!(sha256(msg), sha256(msg));
    assert_ne!(sha256(msg), sha256(b"the same byteS"));
}

#[test]
fn word_arithmetic() {
    assert_eq!(add32(0xffff_ffff, 1), 0);
    assert_eq!(add32(0x8000_0000, 0x8000_0001), 1);
    assert_eq!(add32(2, 3), 5);
    assert_eq!(rotr(0x0000_0001, 1), 0x8000_0000);
    assert_eq!(rotr(0x1234_5678, 8), 0x7812_3456);
    assert_eq!(word(0x12, 0x34, 0x56, 0x78), 0x1234_5678);
}

#[test]
fn big_endian_bytes() {
    let mut out = vec![9u8];
    push_be32(&mut out, 0x0102_0304);
    assert_eq!(out, vec![9, 1, 2, 3, 4]);
    push_be64(&mut out, 0x0a0b_0c0d_0e0f_1011);
    assert_eq!(out, vec![9, 1, 2, 3, 4, 0x0a, 0x0b, 0x0c, 0x0d, 0x0e, 0x0f, 0x10, 0x11]);
    let mut max = Vec::new();
    push_be64(&mut max, u64::MAX);
    assert_eq!(max, vec![255u8; 8]);
}

#[test]
fn hexadecimal_text_has_two_digits_per_byte() {
    assert_eq!(to_hex(&[0x00, 0x0f, 0xa5, 0xff, 0x10]), "000fa5ff10");
    assert_eq!(to_hex(&[]), "");
}
