//! Multisig signatures of every scheme, written out by hand and parsed.

use anchovy::message::Message;
use anchovy::signature::{CompressedSignature, MultiSig, MultiSigPublicKey, PublicKey};

fn expected_pk() -> MultiSigPublicKey {
    MultiSigPublicKey {
        pk_map: vec![
            (PublicKey::Ed25519([5; 32]), 1),
            (PublicKey::Secp256k1([6; 33]), 2),
            (PublicKey::Secp256r1([7; 33]), 3),
            (PublicKey::ZkLogin(vec![8; 40]), 4),
        ],
        threshold: 5,
    }
}

fn expected_multisig() -> MultiSig {
    MultiSig {
        sigs: vec![
            CompressedSignature::Ed25519([1; 64]),
            CompressedSignature::Secp256k1([2; 64]),
            CompressedSignature::Secp256r1([3; 64]),
            CompressedSignature::ZkLogin(vec![4; 200]),
        ],
        bitmap: 0b1111,
        multisig_pk: expected_pk(),
    }
}

/// The keys of `expected_pk`, each with its weight, then the threshold.
fn pk_bytes() -> Vec<u8> {
    let mut v = vec![4, 0];
    v.extend_from_slice(&[5; 32]);
    v.extend_from_slice(&[1, 1]);
    v.extend_from_slice(&[6; 33]);
    v.extend_from_slice(&[2, 2]);
    v.extend_from_slice(&[7; 33]);
    v.extend_from_slice(&[3, 3, 40]);
    v.extend_from_slice(&[8; 40]);
    v.extend_from_slice(&[4, 5, 0]);
    v
}

/// The signatures of `expected_multisig`, the bitmap and the keys.
fn multisig_bytes() -> Vec<u8> {
    let mut v = vec![4, 0];
    v.extend_from_slice(&[1; 64]);
    v.push(1);
    v.extend_from_slice(&[2; 64]);
    v.push(2);
    v.extend_from_slice(&[3; 64]);
    v.extend_from_slice(&[3, 0xc8, 0x01]);
    v.extend_from_slice(&[4; 200]);
    v.extend_from_slice(&[0x0f, 0x00]);
    v.extend(pk_bytes());
    v
}

/// The corpus has no multisig, so one is built here.
#[test]
fn roundtrip_multisig() {
    let bytes = multisig_bytes();
    assert_eq!(bytes.len(), 1 + 3 * 65 + (1 + 2 + 200) + 2 + 1 + 34 + 35 + 35 + 43 + 2);
    let Ok(message) = Message::<MultiSig>::parse(bytes) else {
        panic!("rejected")
    };
    assert_eq!(*message.get(), expected_multisig());
}

#[test]
fn build_roundtrip_multisig() {
    let Ok(message) = Message::<MultiSigPublicKey>::parse(pk_bytes()) else {
        panic!("rejected")
    };
    assert_eq!(*message.get(), expected_pk());
    let Ok(message) = Message::<MultiSig>::parse(multisig_bytes()) else {
        panic!("rejected")
    };
    assert_eq!(*message.get(), expected_multisig());
}

/// A passkey is taken, though the snapshot's shape has none.
#[test]
fn multisig_with_passkey() {
    // One `Passkey` signature of no bytes, no bitmap bits, no keys.
    let bytes = vec![1, 4, 0, 0, 0, 0, 0, 0];
    let Ok(message) = Message::<MultiSig>::parse(bytes) else {
        panic!("rejected")
    };
    assert_eq!(
        *message.get(),
        MultiSig {
            sigs: vec![CompressedSignature::Passkey(vec![])],
            bitmap: 0,
            multisig_pk: MultiSigPublicKey { pk_map: vec![], threshold: 0 },
        }
    );
}
