//! Copies out of byte slices.
use vstd::prelude::*;

verus! {

/// The `N` bytes of `b` from `off` on, as an array.
pub fn array_at<const N: usize>(b: &[u8], off: usize) -> (out: [u8; N])
    requires
        off + N <= b@.len(),
    ensures
        out@ == b@.subrange(off as int, off + N),
{
    let mut out = [0u8; N];
    let mut i: usize = 0;
    let len = b.len();
    while i < N
        invariant
            len == b@.len(),
            off + N <= b@.len(),
            0 <= i <= N,
            out@.len() == N,
            forall|j: int| 0 <= j < i ==> out@[j] == b@[off + j],
        decreases N - i,
    {
        out[i] = b[off + i];
        i = i + 1;
    }
    assert(out@ =~= b@.subrange(off as int, off + N));
    out
}

/// Appends `b` to `out`.
pub fn extend(out: &mut Vec<u8>, b: &[u8])
    ensures
        final(out)@ == old(out)@ + b@,
{
    out.extend_from_slice(b);
    assert(out@ =~= old(out)@ + b@);
}

} // verus!
