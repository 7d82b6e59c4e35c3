use anchovy::base::Digest;
use anchovy::error::ParseError;
use anchovy::message::Message;
use anchovy::reader::Reader;
use anchovy::transaction::{SenderSignedData, TransactionData, TransactionKind};

/// The smallest transaction: an end-of-epoch transaction with no kinds,
/// from and paid by the zero address, at price and budget zero, that does
/// not expire.
fn smallest_data() -> Vec<u8> {
    let mut v = vec![0, 5, 0];
    v.extend_from_slice(&[0; 32]);
    v.push(0);
    v.extend_from_slice(&[0; 32]);
    v.extend_from_slice(&[0; 16]);
    v.push(0);
    v
}

/// One signed transaction's body: the intent, the data, no signatures.
fn signed_body() -> Vec<u8> {
    let mut v = vec![0, 0, 0];
    v.extend(smallest_data());
    v.push(0);
    v
}

#[test]
fn sender_signed_data_is_one_transaction() {
    let mut one = vec![1];
    one.extend(signed_body());
    let Ok(m) = Message::<SenderSignedData>::parse(one.clone()) else {
        panic!("rejected")
    };
    let ssd = m.get();
    assert_eq!(ssd.bytes, one);
    assert_eq!(ssd.data.bytes, smallest_data());
    assert_eq!(ssd.data.digest, Digest::of("TransactionData", &smallest_data()));
    assert!(matches!(&ssd.data.kind, TransactionKind::EndOfEpochTransaction(k) if k.is_empty()));
    assert!(ssd.tx_signatures.is_empty());
    assert_eq!(m.digest(), &ssd.data.digest);

    let mut two = vec![2];
    two.extend(signed_body());
    two.extend(signed_body());
    for bytes in [vec![0], two] {
        let Err((e, _)) = Message::<SenderSignedData>::parse(bytes) else {
            panic!("accepted")
        };
        assert_eq!(e, ParseError::NotOneTransaction);
    }
}

#[test]
fn transaction_data_digest_is_of_its_bytes() {
    let Ok(m) = Message::<TransactionData>::parse(smallest_data()) else {
        panic!("rejected")
    };
    assert_eq!(m.get().bytes, smallest_data());
    assert_eq!(*m.digest(), Digest::of("TransactionData", &smallest_data()));
    let mut cut = smallest_data();
    cut.pop();
    assert!(Message::<TransactionData>::parse(cut).is_err());
}

#[test]
fn messages_compare_by_digest() {
    let mut later = smallest_data();
    let n = later.len();
    later[n - 1] = 1;
    later.extend_from_slice(&7u64.to_le_bytes());
    let Ok(a) = Message::<TransactionData>::parse(smallest_data()) else {
        panic!("rejected")
    };
    let Ok(b) = Message::<TransactionData>::parse(smallest_data()) else {
        panic!("rejected")
    };
    let Ok(c) = Message::<TransactionData>::parse(later) else {
        panic!("rejected")
    };
    assert!(a == b);
    assert!(a != c);
    assert_eq!(a.partial_cmp(&b), Some(std::cmp::Ordering::Equal));
    let expected = a.digest().bytes.cmp(&c.digest().bytes);
    assert_eq!(a.partial_cmp(&c), Some(expected));
    assert_eq!(c.partial_cmp(&a), Some(expected.reverse()));
}

/// A signed programmable transaction whose one Move call takes a type
/// argument of `levels` nested vectors around `u8`.
fn nested_call(levels: usize) -> Vec<u8> {
    let mut data = vec![0, 0, 0, 1, 0];
    data.extend_from_slice(&[2; 32]);
    data.extend_from_slice(&[1, b'm', 1, b'f', 1]);
    data.extend(std::iter::repeat(6u8).take(levels));
    data.extend_from_slice(&[1, 0]);
    data.extend_from_slice(&[0; 32]);
    data.push(0);
    data.extend_from_slice(&[0; 32]);
    data.extend_from_slice(&[0; 16]);
    data.push(0);
    let mut v = vec![1, 0, 0, 0];
    v.extend(data);
    v.push(0);
    v
}

/// The envelope's extra container level, at the depth limit: the envelope
/// accepts exactly what the bare form accepts with one level to spare.
#[test]
fn transaction_envelope_depth() {
    let verdicts = |levels: usize| {
        let bytes = nested_call(levels);
        let bare = Message::<SenderSignedData>::parse(bytes.clone()).is_ok();
        let mut r = Reader::new(&bytes);
        let envelope = SenderSignedData::parse_envelope(&mut r).is_ok() && r.remaining() == 0;
        (bare, envelope)
    };
    assert_eq!(verdicts(0), (true, true));
    assert_eq!(verdicts(600), (false, false));
    let mut edge = None;
    for levels in 0..600 {
        let (bare, envelope) = verdicts(levels);
        let (next_bare, _) = verdicts(levels + 1);
        assert!(!envelope || bare, "{levels}");
        assert_eq!(envelope, next_bare, "{levels}");
        if bare && !envelope {
            assert!(edge.is_none());
            edge = Some(levels);
        }
    }
    assert!(edge.is_some());
}
