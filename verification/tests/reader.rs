use anchovy::error::ParseError;
use anchovy::reader::{Reader, MAX_CONTAINER_DEPTH};

fn uleb(bytes: &[u8]) -> Result<u32, ParseError> {
    let mut r = Reader::new(bytes);
    let v = r.uleb128()?;
    r.finish()?;
    Ok(v)
}

#[test]
fn uleb128_values() {
    assert_eq!(uleb(&[0]), Ok(0));
    assert_eq!(uleb(&[0x7f]), Ok(127));
    assert_eq!(uleb(&[0x80, 0x01]), Ok(128));
    assert_eq!(uleb(&[0xff, 0xff, 0xff, 0xff, 0x0f]), Ok(u32::MAX));
}

#[test]
fn uleb128_rejects() {
    assert_eq!(uleb(&[0x80, 0x00]), Err(ParseError::NonCanonicalUleb128));
    assert_eq!(uleb(&[0x80, 0x80, 0x00]), Err(ParseError::NonCanonicalUleb128));
    assert_eq!(uleb(&[0xff, 0xff, 0xff, 0xff, 0x10]), Err(ParseError::Uleb128Overflow));
    assert_eq!(
        uleb(&[0xff, 0xff, 0xff, 0xff, 0x8f, 0x01]),
        Err(ParseError::Uleb128Overflow)
    );
    assert_eq!(uleb(&[0x80]), Err(ParseError::UnexpectedEof));
}

#[test]
fn seq_len_is_bounded_by_input() {
    let mut r = Reader::new(&[0xff, 0xff, 0xff, 0xff, 0x07, 0, 0]);
    assert_eq!(r.seq_len(1), Err(ParseError::UnexpectedEof));
    let mut r = Reader::new(&[0xff, 0xff, 0xff, 0xff, 0x08]);
    assert_eq!(r.length(), Err(ParseError::SequenceTooLong));
    let mut r = Reader::new(&[2, 0, 0, 0]);
    assert_eq!(r.seq_len(2), Err(ParseError::UnexpectedEof));
    let mut r = Reader::new(&[2, 0, 0, 0, 0]);
    assert_eq!(r.seq_len(2), Ok(2));
}

#[test]
fn depth_limit() {
    let mut r = Reader::new(&[]);
    for _ in 0..MAX_CONTAINER_DEPTH {
        r.enter().unwrap();
    }
    assert_eq!(r.enter(), Err(ParseError::ContainerDepthExceeded));
}

#[test]
fn leave_undoes_enter() {
    let mut r = Reader::new(&[]);
    for _ in 0..MAX_CONTAINER_DEPTH {
        r.enter().unwrap();
    }
    r.leave();
    assert_eq!(r.enter(), Ok(()));
}

#[test]
fn fixed_width_integers_are_little_endian() {
    let bytes = [1, 2, 3, 4, 5, 6, 7, 8, 9];
    let mut r = Reader::new(&bytes);
    assert_eq!(r.u16(), Ok(0x0201));
    assert_eq!(r.u32(), Ok(0x06050403));
    assert_eq!(r.pos(), 6);
    assert_eq!(r.u64(), Err(ParseError::UnexpectedEof));
    let mut r = Reader::new(&bytes[1..]);
    assert_eq!(r.u64(), Ok(0x0908070605040302));
    assert_eq!(r.finish(), Ok(()));
}

#[test]
fn bools_and_options_take_zero_or_one() {
    let mut r = Reader::new(&[1, 0, 2]);
    assert_eq!(r.bool(), Ok(true));
    assert_eq!(r.bool(), Ok(false));
    assert_eq!(r.bool(), Err(ParseError::InvalidBool));
    let mut r = Reader::new(&[2]);
    assert_eq!(r.option(), Err(ParseError::InvalidOptionTag));
    let mut r = Reader::new(&[1, 7, 0, 0, 0, 0, 0, 0, 0, 0]);
    assert_eq!(r.option_u64(), Ok(Some(7)));
    assert_eq!(r.option_u64(), Ok(None));
}

#[test]
fn strings_must_be_utf8() {
    let mut r = Reader::new(&[2, b'h', b'i']);
    assert_eq!(r.string(), Ok(String::from("hi")));
    let mut r = Reader::new(&[1, 0xff]);
    assert_eq!(r.str(), Err(ParseError::InvalidUtf8));
    let mut r = Reader::new(&[3, b'h', b'i']);
    assert_eq!(r.byte_vec(), Err(ParseError::UnexpectedEof));
}

#[test]
fn finish_rejects_trailing_bytes() {
    let r = Reader::new(&[0]);
    assert_eq!(r.finish(), Err(ParseError::TrailingBytes));
    assert_eq!(r.remaining(), 1);
}
