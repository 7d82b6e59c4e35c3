use anchovy::arena::{bump, Arena, Build, Bump, Measure, Placement};
use anchovy::error::ParseError;

#[test]
fn bumps_with_alignment() {
    let mut bump = Bump::with_capacity(64);
    let a = bump.allocate(3, 1);
    let b = bump.allocate(8, 8);
    assert_eq!(b.offset - a.offset, 8);
    assert_eq!(bump.used(), 16);
    assert_eq!(bump.allocated(), 11);
    assert_eq!(bump.chunks(), 1);
}

#[test]
fn grows_when_full() {
    let mut bump = Bump::with_capacity(32);
    for _ in 0..10 {
        bump.allocate(16, 1);
    }
    assert!(bump.chunks() > 1);
    assert_eq!(bump.allocated(), 160);
}

#[test]
fn reset_reuses_the_first_chunk() {
    let mut bump = Bump::with_capacity(64);
    let first = bump.allocate(8, 8);
    bump.allocate(1000, 1);
    assert_eq!(bump.chunks(), 2);
    bump.reset();
    assert_eq!((bump.chunks(), bump.used(), bump.allocated()), (1, 0, 0));
    let again = bump.allocate(8, 8);
    assert_eq!(first, again);
}

#[test]
fn oversized_request_gets_its_own_chunk() {
    let mut bump = Bump::with_capacity(16);
    let big = bump.allocate(1000, 1);
    assert_eq!(big.len, 1000);
    assert_eq!(bump.chunks(), 2);
}

#[test]
fn a_new_chunk_doubles_the_larger_of_last_and_request() {
    let mut bump = Bump::with_capacity(16);
    bump.allocate(10, 1);
    let p = bump.allocate(10, 1);
    assert_eq!(p, Placement { chunk: 1, offset: 0, len: 10 });
    let q = bump.allocate(8, 8);
    assert_eq!(q, Placement { chunk: 1, offset: 16, len: 8 });
    // The second chunk holds 32 bytes, so 40 more start a third.
    let r = bump.allocate(40, 1);
    assert_eq!(r, Placement { chunk: 2, offset: 0, len: 40 });
    assert_eq!(bump.chunks(), 3);
}

#[test]
fn bump_rounds_up_then_adds() {
    let mut off = 3usize;
    assert_eq!(bump(&mut off, 8, 8), Ok(8));
    assert_eq!(off, 16);
    let mut off = usize::MAX - 2;
    assert_eq!(bump(&mut off, 1, 8), Err(ParseError::WireTooLarge));
}

#[test]
fn measure_then_build_agree() {
    let mut m = Measure::new();
    m.slice(3, 8, 8).unwrap();
    m.slice(5, 1, 1).unwrap();
    m.slice(2, 4, 4).unwrap();
    assert_eq!(m.size(), 40);
    let arena = Arena::new(m.size()).unwrap();
    let mut b = Build::new(&arena);
    assert_eq!(b.slice(3, 8, 8), Ok(0));
    assert_eq!(b.slice(5, 1, 1), Ok(24));
    assert_eq!(b.slice(2, 4, 4), Ok(32));
    assert_eq!(b.used(), 40);
    assert_eq!(b.slice(1, 1, 1), Err(ParseError::ArenaMismatch));
    assert_eq!(b.used(), 40);
}
