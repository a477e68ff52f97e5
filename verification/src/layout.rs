//! Alignment arithmetic and little-endian byte layout shared by the
//! object writer and the relocation resolver.

use byteorder::ByteOrder;
use vstd::prelude::*;

verus! {

/// The smallest multiple of `align` that is not below `n`.
pub open spec fn spec_align_to(n: nat, align: nat) -> nat
    recommends
        align > 0,
{
    ((n + align - 1) / (align as int) * align) as nat
}

/// Rounds `n` up to the next multiple of `align`.
pub fn align_to(n: usize, align: usize) -> (r: usize)
    requires
        align > 0,
        spec_align_to(n as nat, align as nat) <= usize::MAX,
    ensures
        r == spec_align_to(n as nat, align as nat),
        r >= n,
        r % align == 0,
        r - n < align,
{
    proof {
        lemma_align_to(n as nat, align as nat);
    }
    let q: usize = n / align;
    let rem: usize = n % align;
    if rem == 0 {
        n
    } else {
        assert(q * align + align == spec_align_to(n as nat, align as nat)) by (nonlinear_arith)
            requires
                q == n / align,
                rem == n % align,
                rem != 0,
                align > 0,
        ;
        assert(q * align <= n) by (nonlinear_arith)
            requires
                q == n / align,
                align > 0,
        ;
        q * align + align
    }
}

/// `spec_align_to` yields the least multiple of `align` at or above `n`.
pub proof fn lemma_align_to(n: nat, align: nat)
    requires
        align > 0,
    ensures
        spec_align_to(n, align) >= n,
        spec_align_to(n, align) % align == 0,
        spec_align_to(n, align) - n < align,
        n % align == 0 ==> spec_align_to(n, align) == n,
{
    assert(spec_align_to(n, align) >= n && spec_align_to(n, align) % align == 0 && spec_align_to(
        n,
        align,
    ) - n < align && (n % align == 0 ==> spec_align_to(n, align) == n)) by (nonlinear_arith)
        requires
            align > 0,
    ;
}

/// The first `n` bytes of `x` written least significant byte first.
pub open spec fn le_bytes(x: nat, n: nat) -> Seq<u8>
    decreases n,
{
    if n == 0 {
        Seq::<u8>::empty()
    } else {
        seq![(x % 256) as u8] + le_bytes(x / 256, (n - 1) as nat)
    }
}

/// The two's-complement image of a signed 64-bit value.
pub open spec fn twos_complement_64(x: int) -> nat {
    if x < 0 {
        (x + 0x1_0000_0000_0000_0000) as nat
    } else {
        x as nat
    }
}

/// The two's-complement image of a signed 32-bit value.
pub open spec fn twos_complement_32(x: int) -> nat {
    if x < 0 {
        (x + 0x1_0000_0000) as nat
    } else {
        x as nat
    }
}

/// `le_bytes` always yields exactly `n` bytes.
pub proof fn lemma_le_bytes_len(x: nat, n: nat)
    ensures
        le_bytes(x, n).len() == n,
    decreases n,
{
    if n > 0 {
        lemma_le_bytes_len(x / 256, (n - 1) as nat);
    }
}

/// Appends the `n` low bytes of `x` to `out`, least significant first.
pub fn push_le(out: &mut Vec<u8>, x: u64, n: usize)
    ensures
        final(out)@ == old(out)@ + le_bytes(x as nat, n as nat),
{
    let mut rest: u64 = x;
    let mut i: usize = 0;
    while i < n
        invariant
            i <= n,
            out@ + le_bytes(rest as nat, (n - i) as nat) == old(out)@ + le_bytes(
                x as nat,
                n as nat,
            ),
        decreases n - i,
    {
        let ghost before = out@;
        out.push((rest % 256) as u8);
        assert(before.push((rest % 256) as u8) + le_bytes((rest / 256) as nat, (n - i - 1) as nat)
            =~= before + le_bytes(rest as nat, (n - i) as nat));
        rest = rest / 256;
        i = i + 1;
    }
    assert(out@ + le_bytes(rest as nat, 0) =~= out@);
}

/// Little-endian image of a 32-bit value, produced by
/// `byteorder::LittleEndian::write_u32` on a four-byte buffer. The
/// contract claims that the buffer then holds the value's four bytes,
/// least significant first, which is what that function documents.
#[verifier::external_body]
pub(crate) fn write_u32_le(n: u32) -> (r: [u8; 4])
    ensures
        r@ == le_bytes(n as nat, 4),
{
    let mut buf = [0u8; 4];
    byteorder::LittleEndian::write_u32(&mut buf, n);
    buf
}

} // verus!
