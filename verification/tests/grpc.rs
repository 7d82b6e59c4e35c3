use anchovy::error::ParseError;
use anchovy::fast::Writer;
use anchovy::grpc::{
    CheckpointRequest, CheckpointRequestV2, ObjectInfoRequest, SystemStateRequest,
    TransactionInfoRequest,
};

fn unhex(s: &str) -> Vec<u8> {
    (0..s.len())
        .step_by(2)
        .map(|i| u8::from_str_radix(&s[i..i + 2], 16).unwrap())
        .collect()
}

/// Parses `bytes` as `ty` and writes it back.
fn roundtrip(ty: &str, bytes: &[u8]) -> Result<Vec<u8>, ParseError> {
    let mut w = Writer::new_in(bytes.len());
    match ty {
        "ObjectInfoRequest" => ObjectInfoRequest::parse(bytes)?.write(&mut w),
        "TransactionInfoRequest" => TransactionInfoRequest::parse(bytes)?.write(&mut w),
        "CheckpointRequest" => CheckpointRequest::parse(bytes)?.write(&mut w),
        "CheckpointRequestV2" => CheckpointRequestV2::parse(bytes)?.write(&mut w),
        "SystemStateRequest" => SystemStateRequest::parse(bytes)?.write(&mut w),
        _ => panic!("unknown request type {ty}"),
    }
    Ok(w.finish_bytes())
}

/// One request of each shape, written out by hand from the BCS rules.
const VECTORS: &[&str] = &[
    "ObjectInfoRequest 000102030405060708090a0b0c0d0e0f101112131415161718191a1b1c1d1e1f0000",
    "ObjectInfoRequest 000102030405060708090a0b0c0d0e0f101112131415161718191a1b1c1d1e1f0100",
    "ObjectInfoRequest 000102030405060708090a0b0c0d0e0f101112131415161718191a1b1c1d1e1f00012a00000000000000",
    "TransactionInfoRequest 20ffeeddccbbaa99887766554433221100ffeeddccbbaa99887766554433221100",
    "CheckpointRequest 0000",
    "CheckpointRequest 0001",
    "CheckpointRequest 01e80300000000000000",
    "CheckpointRequest 01ffffffffffffffff01",
    "CheckpointRequestV2 000000",
    "CheckpointRequestV2 010100000000000000 0101",
    "SystemStateRequest 00",
    "SystemStateRequest 01",
];

#[test]
fn requests_match_the_reference() {
    let mut count = 0;
    for line in VECTORS {
        let (ty, hex) = line.split_once(' ').unwrap();
        let bytes = unhex(&hex.replace(' ', ""));
        assert_eq!(roundtrip(ty, &bytes).unwrap(), bytes, "{line}");
        for len in 0..bytes.len() {
            assert!(roundtrip(ty, &bytes[..len]).is_err(), "{line} cut to {len}");
        }
        let mut long = bytes.clone();
        long.push(0);
        assert!(roundtrip(ty, &long).is_err(), "{line} with a trailing byte");
        count += 1;
    }
    assert_eq!(count, VECTORS.len());
}

#[test]
fn unknown_variants_are_rejected() {
    let mut bytes = unhex("000102030405060708090a0b0c0d0e0f101112131415161718191a1b1c1d1e1f0000");
    bytes[32] = 2;
    assert!(ObjectInfoRequest::parse(&bytes).is_err());
    bytes[32] = 0;
    bytes[33] = 2;
    assert!(ObjectInfoRequest::parse(&bytes).is_err());
    assert!(CheckpointRequest::parse(&[2, 0]).is_err());
    assert!(SystemStateRequest::parse(&[2]).is_err());
}

#[test]
fn parsed_fields() {
    let bytes = unhex("000102030405060708090a0b0c0d0e0f101112131415161718191a1b1c1d1e1f01012a00000000000000");
    let r = ObjectInfoRequest::parse(&bytes).unwrap();
    assert_eq!(r.object_id.0[31], 0x1f);
    assert!(!r.generate_layout);
    let c = CheckpointRequest::parse(&unhex("01e80300000000000000")).unwrap();
    assert_eq!(c.sequence_number, Some(1000));
    assert!(!c.request_content);
    assert_eq!(
        SystemStateRequest::parse(&[2]),
        Err(ParseError::InvalidBool)
    );
}
