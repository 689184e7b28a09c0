//! Plane primitives: filling and copying byte spans.
use vstd::prelude::*;

verus! {

/// A plane of `len` bytes, each equal to `value`.
pub open spec fn uniform(len: int, value: u8) -> Seq<u8> {
    Seq::new(len as nat, |i: int| value)
}

/// Sets every byte of `plane` to `value`, keeping its length.
pub fn fill_plane(plane: &mut Vec<u8>, value: u8)
    ensures
        final(plane)@ == uniform(old(plane)@.len() as int, value),
{
    let n = plane.len();
    let mut i: usize = 0;
    while i < n
        invariant
            n == plane.len(),
            n == old(plane)@.len(),
            i <= n,
            forall|k: int| 0 <= k < i ==> plane@[k] == value,
        decreases n - i,
    {
        plane.set(i, value);
        i = i + 1;
    }
    assert(plane@ =~= uniform(n as int, value));
}

/// Sets `dst[start..start + count]` to `value`, leaving every other byte as it was.
pub fn fill_span(dst: &mut [u8], start: usize, count: usize, value: u8)
    requires
        start + count <= old(dst)@.len(),
    ensures
        final(dst)@.len() == old(dst)@.len(),
        forall|k: int|
            0 <= k < old(dst)@.len() ==> #[trigger] final(dst)@[k] == if start <= k < start + count {
                value
            } else {
                old(dst)@[k]
            },
{
    let dst_len = dst.len();
    let mut i: usize = 0;
    while i < count
        invariant
            dst_len == dst@.len(),
            start + count <= dst@.len(),
            dst@.len() == old(dst)@.len(),
            i <= count,
            forall|k: int|
                0 <= k < dst@.len() ==> #[trigger] dst@[k] == if start <= k < start + i {
                    value
                } else {
                    old(dst)@[k]
                },
        decreases count - i,
    {
        dst[start + i] = value;
        i = i + 1;
    }
}

/// Copies `src[src_start..src_start + count]` into `dst[dst_start..dst_start + count]`,
/// leaving every other byte of `dst` as it was.
pub fn copy_span(dst: &mut [u8], dst_start: usize, src: &[u8], src_start: usize, count: usize)
    requires
        dst_start + count <= old(dst)@.len(),
        src_start + count <= src@.len(),
    ensures
        final(dst)@.len() == old(dst)@.len(),
        forall|k: int|
            0 <= k < old(dst)@.len() ==> #[trigger] final(dst)@[k] == if dst_start <= k < dst_start
                + count {
                src@[src_start + (k - dst_start)]
            } else {
                old(dst)@[k]
            },
{
    let dst_len = dst.len();
    let src_len = src.len();
    let mut i: usize = 0;
    while i < count
        invariant
            dst_len == dst@.len(),
            src_len == src@.len(),
            dst_start + count <= dst@.len(),
            src_start + count <= src@.len(),
            dst@.len() == old(dst)@.len(),
            i <= count,
            forall|k: int|
                0 <= k < dst@.len() ==> #[trigger] dst@[k] == if dst_start <= k < dst_start + i {
                    src@[src_start + (k - dst_start)]
                } else {
                    old(dst)@[k]
                },
        decreases count - i,
    {
        dst[dst_start + i] = src[src_start + i];
        i = i + 1;
    }
}

} // verus!
