//! Random bytes, as every root type: parsing never panics, and a refused
//! buffer comes back whole.

use anchovy::checkpoint::CheckpointData;
use anchovy::effects::{TransactionEffects, TransactionEvents};
use anchovy::message::Message;
use anchovy::object::Object;
use anchovy::transaction::TransactionData;
use anchovy::wire::Wire;

struct Rng(u64);

impl Rng {
    fn next(&mut self) -> u64 {
        self.0 ^= self.0 << 13;
        self.0 ^= self.0 >> 7;
        self.0 ^= self.0 << 17;
        self.0
    }

    fn below(&mut self, n: usize) -> usize {
        (self.next() % n as u64) as usize
    }
}

/// Bytes that matter to a BCS parser: tags, small lengths, and the edges of
/// the uleb128 encoding.
const INTERESTING: [u8; 12] = [0, 1, 2, 3, 7, 32, 33, 0x7f, 0x80, 0x81, 0xfe, 0xff];

const ITERATIONS: usize = 20_000;

/// Parses `bytes` as `T` and checks what must hold whether or not it parses.
fn parse_checked<T: Wire>(bytes: Vec<u8>) -> Option<Message<T>> {
    let len = bytes.len();
    match Message::<T>::parse(bytes) {
        Ok(m) => Some(m),
        Err((_, returned)) => {
            assert_eq!(returned.as_slice().len(), len);
            None
        }
    }
}

/// Any byte string at all, as every root type.
#[test]
fn noise() {
    let mut rng = Rng(0x1234_5678_9abc_def1);
    for _ in 0..ITERATIONS {
        let len = rng.below(200);
        let bytes: Vec<u8> = (0..len)
            .map(|_| {
                if rng.below(3) == 0 {
                    INTERESTING[rng.below(INTERESTING.len())]
                } else {
                    rng.next() as u8
                }
            })
            .collect();
        parse_checked::<TransactionData>(bytes.clone());
        parse_checked::<TransactionEffects>(bytes.clone());
        parse_checked::<TransactionEvents>(bytes.clone());
        parse_checked::<Object>(bytes.clone());
        parse_checked::<CheckpointData>(bytes);
    }
}
