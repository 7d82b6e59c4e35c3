use anchovy::error::ParseError;
use anchovy::message::Message;
use anchovy::base::AccountAddress;
use anchovy::fast::Writer;
use anchovy::type_tag::{StructTag, TypeTag};

// 0x2::coin::Coin<vector<u8>>
fn coin_of_bytes() -> Vec<u8> {
    let mut v = vec![7];
    let mut addr = [0u8; 32];
    addr[31] = 2;
    v.extend_from_slice(&addr);
    v.extend_from_slice(b"\x04coin\x04Coin\x01\x06\x01");
    v
}

fn parse(b: Vec<u8>) -> Result<Message<TypeTag>, (ParseError, Vec<u8>)> {
    Message::<TypeTag>::parse(b)
}

fn err(b: Vec<u8>) -> ParseError {
    match parse(b) {
        Ok(_) => panic!("accepted"),
        Err((e, _)) => e,
    }
}

#[test]
fn struct_tag() {
    let Ok(m) = parse(coin_of_bytes()) else {
        panic!("rejected")
    };
    let TypeTag::Struct(s) = m.get() else {
        panic!("not a struct")
    };
    assert_eq!(s.address.0[31], 2);
    assert_eq!((s.module.as_str(), s.name.as_str()), ("coin", "Coin"));
    let [TypeTag::Vector(inner)] = s.type_params.as_slice() else {
        panic!("not one vector param")
    };
    assert_eq!(**inner, TypeTag::U8);
    assert_eq!(m.wire_bytes(), coin_of_bytes().as_slice());
}

#[test]
fn primitive_needs_no_arena() {
    let Ok(m) = parse(vec![2]) else {
        panic!("rejected")
    };
    assert_eq!(*m.get(), TypeTag::U64);
    let Ok(exact) = Message::<TypeTag>::parse_exact(vec![2]) else {
        panic!("rejected")
    };
    assert_eq!(*exact.get(), TypeTag::U64);
}

#[test]
fn rejects() {
    assert_eq!(err(vec![]), ParseError::UnexpectedEof);
    assert_eq!(err(vec![2, 0]), ParseError::TrailingBytes);
    assert_eq!(err(vec![11]), ParseError::UnknownVariant { ty: "TypeTag", tag: 11 });
    let mut bad_utf8 = coin_of_bytes();
    bad_utf8[34] = 0xff;
    assert_eq!(err(bad_utf8), ParseError::InvalidUtf8);
}

#[test]
fn nesting_is_bounded_like_bcs() {
    // Each vector is one enum; the innermost u8 is the 500th container.
    let mut ok = vec![6; 499];
    ok.push(1);
    assert!(parse(ok).is_ok());
    let mut deep = vec![6; 500];
    deep.push(1);
    assert_eq!(err(deep), ParseError::ContainerDepthExceeded);
}

#[test]
fn a_rejected_buffer_is_handed_back() {
    let Err((e, back)) = parse(vec![2, 9]) else {
        panic!("accepted")
    };
    assert_eq!(e, ParseError::TrailingBytes);
    assert_eq!(back, vec![2, 9]);
}

fn plain_struct_tag(type_params: Vec<TypeTag>) -> StructTag {
    StructTag {
        address: AccountAddress([0; 32]),
        module: "m".into(),
        name: "S".into(),
        type_params,
    }
}

fn written(tag: &TypeTag) -> Vec<u8> {
    let mut w = Writer::new_in(0);
    w.type_tag(tag);
    w.finish_bytes()
}

/// `n` struct tags each holding the next as its one type parameter, by
/// hand.
fn struct_chain(n: usize) -> Vec<u8> {
    let mut bytes = Vec::new();
    for i in 0..n {
        bytes.push(7);
        bytes.extend_from_slice(&[0; 32]);
        bytes.extend_from_slice(b"\x01m\x01S");
        bytes.push(u8::from(i + 1 < n));
    }
    bytes
}

/// Each vector and each struct is one container and a struct's address is
/// one more: 500 are accepted and 501 are not.
#[test]
fn type_tag_depth() {
    let mut tag = TypeTag::U8;
    for _ in 0..499 {
        tag = TypeTag::Vector(Box::new(tag));
    }
    let mut bytes = vec![6; 499];
    bytes.push(1);
    assert_eq!(written(&tag), bytes);
    let Ok(m) = parse(bytes) else {
        panic!("rejected")
    };
    assert_eq!(*m.get(), tag);

    let mut bytes = vec![6; 500];
    bytes.push(1);
    assert_eq!(err(bytes), ParseError::ContainerDepthExceeded);

    let mut tag = TypeTag::Struct(Box::new(plain_struct_tag(vec![])));
    for _ in 1..249 {
        tag = TypeTag::Struct(Box::new(plain_struct_tag(vec![tag])));
    }
    assert_eq!(written(&tag), struct_chain(249));
    let Ok(m) = parse(struct_chain(249)) else {
        panic!("rejected")
    };
    assert_eq!(*m.get(), tag);
    assert_eq!(err(struct_chain(250)), ParseError::ContainerDepthExceeded);
}

#[test]
fn written_tags_read_back() {
    let tag = TypeTag::Vector(Box::new(TypeTag::Struct(Box::new(StructTag {
        address: AccountAddress([3; 32]),
        module: "ü".into(),
        name: "Coin".into(),
        type_params: vec![TypeTag::U256, TypeTag::Signer, TypeTag::Bool],
    }))));
    let bytes = written(&tag);
    assert_eq!(bytes[..2], [6, 7]);
    let Ok(m) = parse(bytes.clone()) else {
        panic!("rejected")
    };
    assert_eq!(*m.get(), tag);
    assert_eq!(m.wire_bytes(), bytes.as_slice());
}
