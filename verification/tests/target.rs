use ref_transaction::hex;
use ref_transaction::target::{DecodeError, ObjectId, Target};

fn sha1(byte: u8) -> ObjectId {
    ObjectId::from_bytes(vec![byte; 20]).unwrap()
}

#[test]
fn peeled_target_is_written_as_hex_and_newline() {
    let content = Target::Peeled(sha1(0xab)).encode();
    assert_eq!(content, b"abababababababababababababababababababab\n".to_vec());
}

#[test]
fn sha256_target_is_written_as_64_digits_and_newline() {
    let id = ObjectId::from_bytes((0u8..32).collect()).unwrap();
    let content = Target::Peeled(id).encode();
    assert_eq!(
        content,
        b"000102030405060708090a0b0c0d0e0f101112131415161718191a1b1c1d1e1f\n".to_vec()
    );
    assert_eq!(content.len(), 65);
}

#[test]
fn symbolic_target_is_written_with_prefix_and_newline() {
    let content = Target::Symbolic(b"refs/heads/main".to_vec()).encode();
    assert_eq!(content, b"ref: refs/heads/main\n".to_vec());
}

#[test]
fn peeled_target_is_read_back() {
    let id = ObjectId::from_hex(&b"7b333369de1221f9bfbbe03a3a13e9a09bc1c907".to_vec()).unwrap();
    let target = Target::Peeled(id);
    assert_eq!(Target::decode(&target.encode()), Ok(target));
}

#[test]
fn symbolic_target_is_read_back() {
    let target = Target::Symbolic(b"refs/remotes/origin/HEAD".to_vec());
    assert_eq!(Target::decode(&target.encode()), Ok(target));
}

#[test]
fn symbolic_target_with_an_empty_name_is_read_back() {
    let target = Target::Symbolic(Vec::new());
    assert_eq!(target.encode(), b"ref: \n".to_vec());
    assert_eq!(Target::decode(&target.encode()), Ok(target));
}

#[test]
fn name_with_a_newline_is_not_read_back() {
    let target = Target::Symbolic(b"refs/heads/a\nb".to_vec());
    let content = target.encode();
    assert_eq!(Target::decode(&content), Err(DecodeError { content: content.clone() }));
}

#[test]
fn content_without_newline_is_refused() {
    let content = b"7b333369de1221f9bfbbe03a3a13e9a09bc1c907".to_vec();
    assert_eq!(Target::decode(&content), Err(DecodeError { content: content.clone() }));
}

#[test]
fn empty_content_is_refused() {
    assert_eq!(Target::decode(&Vec::new()), Err(DecodeError { content: Vec::new() }));
}

#[test]
fn content_of_two_lines_is_refused() {
    let content = b"ref: refs/heads/main\nref: refs/heads/next\n".to_vec();
    assert_eq!(Target::decode(&content), Err(DecodeError { content: content.clone() }));
}

#[test]
fn uppercase_digits_are_refused() {
    let content = b"7B333369DE1221F9BFBBE03A3A13E9A09BC1C907\n".to_vec();
    assert!(Target::decode(&content).is_err());
}

#[test]
fn id_of_a_wrong_length_is_refused() {
    let content = b"7b333369de1221f9bfbbe03a3a13e9a09bc1c9\n".to_vec();
    assert!(Target::decode(&content).is_err());
    assert_eq!(ObjectId::from_bytes(vec![1; 19]), None);
    assert_eq!(ObjectId::from_bytes(vec![1; 21]), None);
    assert_eq!(ObjectId::from_bytes(vec![1; 33]), None);
    assert!(ObjectId::from_bytes(vec![1; 32]).is_some());
}

#[test]
fn id_is_read_from_hex_and_written_as_hex() {
    let text = b"ff333369de1221f9bfbbe03a3a13e9a09bc1ffff".to_vec();
    let id = ObjectId::from_hex(&text).unwrap();
    assert_eq!(id.as_bytes()[0], 0xff);
    assert_eq!(id.as_bytes()[1], 0x33);
    assert_eq!(id.as_bytes()[19], 0xff);
    assert_eq!(id.as_bytes().len(), 20);
    assert_eq!(id.to_hex(), text);
    assert_eq!(ObjectId::from_hex(&b"zz333369de1221f9bfbbe03a3a13e9a09bc1ffff".to_vec()), None);
    assert_eq!(ObjectId::from_hex(&b"ff3".to_vec()), None);
}

#[test]
fn hex_text_has_two_digits_for_each_byte() {
    let mut out = b"x".to_vec();
    hex::write(&vec![0x00, 0x0f, 0xa0, 0xff], &mut out);
    assert_eq!(out, b"x000fa0ff".to_vec());
    assert_eq!(hex::read(&out, 1, 9), Some(vec![0x00, 0x0f, 0xa0, 0xff]));
    assert_eq!(hex::read(&out, 0, 9), None);
    assert_eq!(hex::read(&out, 0, 8), None);
    assert_eq!(hex::read(&out, 3, 3), Some(Vec::new()));
}

#[test]
fn targets_are_compared_by_what_they_hold() {
    let a = Target::Peeled(sha1(1));
    let b = Target::Peeled(sha1(2));
    let s = Target::Symbolic(vec![1; 20]);
    assert!(a.same_as(&a.clone()));
    assert!(!a.same_as(&b));
    assert!(!a.same_as(&s));
    assert!(s.same_as(&Target::Symbolic(vec![1; 20])));
    assert!(ref_transaction::target::same_target(&None, &None));
    assert!(!ref_transaction::target::same_target(&Some(a.clone()), &None));
    assert!(ref_transaction::target::same_target(&Some(a.clone()), &Some(a)));
}

#[test]
fn byte_strings_are_compared_byte_by_byte() {
    let a = b"refs/heads/main".to_vec();
    assert!(ref_transaction::bytes::equal(&a, &a.clone()));
    assert!(ref_transaction::bytes::equal(&Vec::new(), &Vec::new()));
    assert!(!ref_transaction::bytes::equal(&a, &b"refs/heads/mai".to_vec()));
    assert!(!ref_transaction::bytes::equal(&a, &b"refs/heads/maim".to_vec()));
    assert!(!ref_transaction::bytes::equal(&a, &b"refs/heads/mail".to_vec()));
}
