use vstd::bytes::{spec_u64_from_le_bytes, spec_u64_to_le_bytes, u64_from_le_bytes, u64_to_le_bytes};
use vstd::prelude::*;

verus! {

/// `d` with the bytes from `off` on replaced by `s`.
pub open spec fn splice(d: Seq<u8>, off: int, s: Seq<u8>) -> Seq<u8> {
    d.subrange(0, off) + s + d.subrange(off + s.len(), d.len() as int)
}

/// The little-endian value of the eight bytes at `off`.
pub open spec fn u64_at(d: Seq<u8>, off: int) -> u64 {
    spec_u64_from_le_bytes(d.subrange(off, off + 8))
}

/// Copies `src` into `dst` from `off` on.
pub fn write_bytes(dst: &mut [u8], off: usize, src: &[u8])
    requires
        off + src@.len() <= old(dst)@.len(),
    ensures
        final(dst)@ == splice(old(dst)@, off as int, src@),
{
    let len = dst.len();
    let mut i: usize = 0;
    while i < src.len()
        invariant
            0 <= i <= src@.len(),
            len == dst@.len(),
            off + src@.len() <= dst@.len(),
            dst@.len() == old(dst)@.len(),
            forall|j: int| 0 <= j < off ==> dst@[j] == old(dst)@[j],
            forall|j: int| 0 <= j < i ==> dst@[off + j] == src@[j],
            forall|j: int| off + i <= j < dst@.len() ==> dst@[j] == old(dst)@[j],
        decreases src@.len() - i,
    {
        dst[off + i] = src[i];
        i = i + 1;
    }
    assert(dst@ =~= splice(old(dst)@, off as int, src@));
}

/// Writes `x` as eight little-endian bytes into `dst` from `off` on.
pub fn write_u64(dst: &mut [u8], off: usize, x: u64)
    requires
        off + 8 <= old(dst)@.len(),
    ensures
        final(dst)@ == splice(old(dst)@, off as int, spec_u64_to_le_bytes(x)),
{
    let b = u64_to_le_bytes(x);
    write_bytes(dst, off, b.as_slice());
}

/// Reads the eight little-endian bytes at `off`.
pub fn read_u64(src: &[u8], off: usize) -> (r: u64)
    requires
        off + 8 <= src@.len(),
    ensures
        r == u64_at(src@, off as int),
{
    let _len = src.len();
    let part = &src[off..off + 8];
    assert(part@ =~= src@.subrange(off as int, off + 8));
    u64_from_le_bytes(part)
}

/// Appends `src` to `buf`.
pub fn append_bytes(buf: &mut Vec<u8>, src: &[u8])
    ensures
        final(buf)@ == old(buf)@ + src@,
{
    let mut i: usize = 0;
    while i < src.len()
        invariant
            0 <= i <= src@.len(),
            buf@ == old(buf)@ + src@.subrange(0, i as int),
        decreases src@.len() - i,
    {
        buf.push(src[i]);
        i = i + 1;
        assert(buf@ =~= old(buf)@ + src@.subrange(0, i as int));
    }
    assert(src@.subrange(0, i as int) =~= src@);
}

} // verus!
