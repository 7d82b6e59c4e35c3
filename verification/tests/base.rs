use anchovy::base::{AuthorityName, Digest};
use anchovy::error::ParseError;
use anchovy::message::Message;
use anchovy::reader::Reader;
use anchovy::shims::{AccountAddress, Base58, Hex};

fn unhex(s: &str) -> Vec<u8> {
    (0..s.len())
        .step_by(2)
        .map(|i| u8::from_str_radix(&s[i..i + 2], 16).unwrap())
        .collect()
}

fn length_prefixed(len: u8) -> Vec<u8> {
    let mut bytes = vec![len];
    bytes.resize(1 + usize::from(len), 0);
    bytes
}

#[test]
fn digest_is_32_bytes() {
    let Ok(m) = Message::<Digest>::parse(length_prefixed(32)) else {
        panic!("rejected")
    };
    assert_eq!(*m.get(), Digest::new([0; 32]));
    assert!(Message::<Digest>::parse(length_prefixed(31)).is_err());
    let Err((e, _)) = Message::<Digest>::parse(length_prefixed(33)) else {
        panic!("accepted")
    };
    assert_eq!(e, ParseError::WrongLength { ty: "Digest", expected: 32, actual: 33 });
}

#[test]
fn authority_public_key_is_96_bytes() {
    let Ok(m) = Message::<AuthorityName>::parse(length_prefixed(96)) else {
        panic!("rejected")
    };
    assert_eq!(*m.get(), AuthorityName::new([0; 96]));
    assert!(Message::<AuthorityName>::parse(length_prefixed(95)).is_err());
    let Err((e, _)) = Message::<AuthorityName>::parse(length_prefixed(97)) else {
        panic!("accepted")
    };
    assert_eq!(
        e,
        ParseError::WrongLength { ty: "AuthorityPublicKeyBytes", expected: 96, actual: 97 }
    );
}

#[test]
fn digest_of_hashes_the_name_then_the_bytes() {
    let d = Digest::of("TransactionData", &[1, 2, 3]);
    assert_eq!(
        d.bytes.to_vec(),
        unhex("2da5624f4aa845cdaa7c012fc5c610ac76602d2509425f76b1db9680940f8779")
    );
    let e = Digest::of("Foo", &[]);
    assert_eq!(
        e.bytes.to_vec(),
        unhex("01e3500f79e3a686639548a79e916f6dd8737e08c55fdd43303f9ecf3474cb63")
    );
    assert_eq!(Digest::zero().bytes, [0; 32]);
}

#[test]
fn digest_reads_from_a_reader() {
    let mut bytes = length_prefixed(32);
    bytes[32] = 9;
    bytes.push(1);
    let mut r = Reader::new(&bytes);
    let d = Digest::parse(&mut r).unwrap();
    assert_eq!(d.bytes[31], 9);
    assert_eq!(r.remaining(), 1);
}

#[test]
fn base58_decodes_the_bitcoin_alphabet() {
    assert_eq!(Base58::decode("2NEpo7TZRRrLZSi2U"), Ok(b"Hello World!".to_vec()));
    assert_eq!(Base58::decode("115T"), Ok(vec![0, 0, 1, 2]));
    assert!(Base58::decode("0OIl").is_err());
}

#[test]
fn hex_decodes_with_or_without_prefix() {
    assert_eq!(Hex::decode("0x0aFf"), Ok(vec![0x0a, 0xff]));
    assert_eq!(Hex::decode("0aff"), Ok(vec![0x0a, 0xff]));
    assert_eq!(Hex::decode(""), Ok(vec![]));
    assert_eq!(Hex::decode("abc"), Err("odd-length hex".to_owned()));
    assert_eq!(Hex::decode("zz"), Err("invalid hex digit".to_owned()));
}

#[test]
fn account_address_literals() {
    let a = AccountAddress::from_hex_literal("0x2").unwrap();
    let mut two = [0u8; 32];
    two[31] = 2;
    assert_eq!(a.0, two);
    assert_eq!(
        a.to_hex(),
        "0000000000000000000000000000000000000000000000000000000000000002"
    );
    assert_eq!(AccountAddress::from_hex_literal("2"), Err("missing 0x".to_owned()));
    let long = format!("0x{}", "1".repeat(65));
    assert_eq!(AccountAddress::from_hex_literal(&long), Err("address too long".to_owned()));
    assert_eq!(AccountAddress::from_hex_literal("0xg"), Err("invalid hex digit".to_owned()));
    let full = format!("0x{}", "ab".repeat(32));
    assert_eq!(AccountAddress::from_hex_literal(&full).unwrap().0, [0xab; 32]);
}
