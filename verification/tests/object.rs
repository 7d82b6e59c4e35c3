use anchovy::error::ParseError;
use anchovy::message::Message;
use anchovy::object::{Data, MovePackage, Object, Owner};

fn push_id(bytes: &mut Vec<u8>, n: u8) {
    let mut id = [0u8; 32];
    id[31] = n;
    bytes.extend_from_slice(&id);
}

/// A package with the given module names and linkage keys, in that order.
fn loose_package(modules: &[&str], linkage: &[u8]) -> Vec<u8> {
    let mut bytes = Vec::new();
    push_id(&mut bytes, 0x50);
    bytes.extend_from_slice(&2u64.to_le_bytes());
    bytes.push(modules.len() as u8);
    for m in modules {
        bytes.push(m.len() as u8);
        bytes.extend_from_slice(m.as_bytes());
        bytes.extend_from_slice(&[1, 1]);
    }
    bytes.push(0);
    bytes.push(linkage.len() as u8);
    for &n in linkage {
        push_id(&mut bytes, n);
        push_id(&mut bytes, n);
        bytes.extend_from_slice(&u64::from(n).to_le_bytes());
    }
    bytes
}

/// An `Object` holding such a package, immutable, with a previous
/// transaction and no rebate.
fn loose_object(modules: &[&str], linkage: &[u8]) -> Vec<u8> {
    let mut bytes = vec![1];
    bytes.extend(loose_package(modules, linkage));
    bytes.push(3);
    bytes.push(32);
    bytes.extend_from_slice(&[0x51; 32]);
    bytes.extend_from_slice(&0u64.to_le_bytes());
    bytes
}

#[test]
fn module_map_must_be_sorted() {
    let mut header = vec![0; 32 + 8];
    header.push(2);
    let mut sorted = header.clone();
    sorted.extend_from_slice(b"\x01a\x00\x01b\x00\x00\x00");
    let mut unsorted = header;
    unsorted.extend_from_slice(b"\x01b\x00\x01a\x00\x00\x00");

    let Ok(m) = Message::<MovePackage>::parse(sorted.clone()) else {
        panic!("rejected")
    };
    assert_eq!(m.wire_bytes(), sorted.as_slice());
    assert_eq!(m.get().module_map.len(), 2);
    let Err((e, _)) = Message::<MovePackage>::parse(unsorted) else {
        panic!("accepted")
    };
    assert_eq!(e, ParseError::NonCanonicalMap);
}

#[test]
fn package_maps_must_be_sorted() {
    let sorted = loose_object(&["a", "b"], &[1, 2]);
    let Ok(m) = Message::<Object>::parse(sorted.clone()) else {
        panic!("rejected")
    };
    let object = m.get();
    assert_eq!(object.bytes, sorted);
    assert_eq!(object.owner, Owner::Immutable);
    let Data::Package(p) = &object.data else {
        panic!("not a package")
    };
    assert_eq!(p.linkage_table.len(), 2);

    let unsorted_modules = loose_object(&["b", "a"], &[1, 2]);
    let unsorted_linkage = loose_object(&["a", "b"], &[2, 1]);
    let repeated_linkage = loose_object(&["a"], &[1, 1]);
    for bytes in [unsorted_modules, unsorted_linkage, repeated_linkage] {
        let Err((e, _)) = Message::<Object>::parse(bytes) else {
            panic!("accepted")
        };
        assert_eq!(e, ParseError::NonCanonicalMap);
    }
}

/// Shortens the length-prefixed byte string that starts at `pos` by one.
fn shorten(bytes: &mut Vec<u8>, pos: usize) {
    bytes[pos] -= 1;
    bytes.remove(pos + 1);
}

#[test]
fn fixed_lengths_are_checked() {
    // The object's last 41 bytes are its previous transaction and rebate.
    let mut object = loose_object(&["a"], &[1]);
    let pos = object.len() - 41;
    assert_eq!(object[pos], 32);
    shorten(&mut object, pos);
    let Err((e, _)) = Message::<Object>::parse(object) else {
        panic!("accepted")
    };
    assert_eq!(e, ParseError::WrongLength { ty: "Digest", expected: 32, actual: 31 });
}
