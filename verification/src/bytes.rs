//! Little-endian integers as byte sequences.

use vstd::prelude::*;

verus! {

/// The `width` low bytes of `v`, least significant first.
pub open spec fn le_bytes(v: nat, width: nat) -> Seq<u8>
    decreases width,
{
    if width == 0 {
        Seq::empty()
    } else {
        seq![(v % 256) as u8] + le_bytes(v / 256, (width - 1) as nat)
    }
}

/// The number whose bytes are `s`, least significant first.
pub open spec fn le_value(s: Seq<u8>) -> nat
    decreases s.len(),
{
    if s.len() == 0 {
        0
    } else {
        s[0] as nat + 256 * le_value(s.skip(1))
    }
}

/// `256` to the power `width`: how many numbers `width` bytes can hold.
pub open spec fn le_range(width: nat) -> nat
    decreases width,
{
    if width == 0 {
        1
    } else {
        256 * le_range((width - 1) as nat)
    }
}

/// `width` bytes are written for a width of `width`.
pub proof fn lemma_le_bytes_len(v: nat, width: nat)
    ensures
        le_bytes(v, width).len() == width,
    decreases width,
{
    if width > 0 {
        lemma_le_bytes_len(v / 256, (width - 1) as nat);
    }
}

/// Reading back what was written gives the number, as long as it fits.
pub proof fn lemma_le_roundtrip(v: nat, width: nat)
    requires
        v < le_range(width),
    ensures
        le_value(le_bytes(v, width)) == v,
    decreases width,
{
    if width > 0 {
        let rest = le_bytes(v / 256, (width - 1) as nat);
        assert(v / 256 < le_range((width - 1) as nat));
        lemma_le_roundtrip(v / 256, (width - 1) as nat);
        assert(le_bytes(v, width).skip(1) =~= rest);
        assert(le_bytes(v, width)[0] == (v % 256) as u8);
    }
}

/// Writing what was read gives the bytes.
pub proof fn lemma_le_value_roundtrip(s: Seq<u8>)
    ensures
        le_bytes(le_value(s), s.len()) == s,
        le_value(s) < le_range(s.len()),
    decreases s.len(),
{
    if s.len() > 0 {
        lemma_le_value_roundtrip(s.skip(1));
        let rest = le_value(s.skip(1));
        let v = le_value(s);
        assert(v % 256 == s[0] as nat && v / 256 == rest);
        assert(le_bytes(v, s.len()) =~= seq![s[0]] + s.skip(1));
        assert(seq![s[0]] + s.skip(1) =~= s);
    } else {
        assert(le_bytes(le_value(s), s.len()) =~= s);
    }
}

/// The number of values of the widths in use.
pub proof fn lemma_le_range_values()
    ensures
        le_range(2) == 0x1_0000,
        le_range(4) == 0x1_0000_0000,
        le_range(8) == 0x1_0000_0000_0000_0000,
{
    reveal_with_fuel(le_range, 9);
}

/// Appends the low `width` bytes of `v` to `out`, least significant first.
pub fn push_le(out: &mut Vec<u8>, v: u64, width: usize)
    ensures
        final(out)@ == old(out)@ + le_bytes(v as nat, width as nat),
{
    let mut rest: u64 = v;
    let mut left: usize = width;
    assert(out@ + le_bytes(rest as nat, left as nat) =~= old(out)@ + le_bytes(v as nat, width as nat));
    while left > 0
        invariant
            out@ + le_bytes(rest as nat, left as nat) == old(out)@ + le_bytes(v as nat, width as nat),
        decreases left,
    {
        let ghost before = out@;
        out.push((rest % 256) as u8);
        proof {
            assert(out@ + le_bytes((rest / 256) as nat, (left - 1) as nat) =~= before + le_bytes(
                rest as nat,
                left as nat,
            ));
        }
        rest = rest / 256;
        left = left - 1;
    }
    assert(out@ =~= out@ + le_bytes(rest as nat, 0));
}

/// The number held in the `width` bytes of `buf` from `at` on.
pub fn read_le(buf: &[u8], at: usize, width: usize) -> (v: u64)
    requires
        at + width <= buf@.len(),
        width <= 8,
    ensures
        v == le_value(buf@.subrange(at as int, at + width)),
        v < le_range(width as nat),
{
    let mut v: u64 = 0;
    let mut i: usize = width;
    let len: usize = buf.len();
    proof {
        assert(buf@.subrange(at + width, at + width) =~= Seq::<u8>::empty());
        lemma_le_range_values();
    }
    while i > 0
        invariant
            i <= width <= 8,
            at + width <= buf@.len(),
            buf@.len() == len,
            v == le_value(buf@.subrange(at + i, at + width)),
            v < le_range((width - i) as nat),
        decreases i,
    {
        i = i - 1;
        let b: u8 = buf[at + i];
        proof {
            let tail = buf@.subrange(at + i, at + width);
            assert(tail.skip(1) =~= buf@.subrange(at + i + 1, at + width));
            assert(tail[0] == b);
            lemma_le_range_le((width - i) as nat, 8);
            lemma_le_range_values();
        }
        v = b as u64 + 256 * v;
    }
    v
}

/// Fewer bytes hold fewer numbers.
pub proof fn lemma_le_range_le(a: nat, b: nat)
    requires
        a <= b,
    ensures
        le_range(a) <= le_range(b),
    decreases b,
{
    if a < b {
        lemma_le_range_le(a, (b - 1) as nat);
    }
}

/// Appends `src` to `out`.
pub fn push_all(out: &mut Vec<u8>, src: &[u8])
    ensures
        final(out)@ == old(out)@ + src@,
{
    out.extend_from_slice(src);
    assert(out@ =~= old(out)@ + src@);
}

/// The bytes of `buf` from `from` up to `to`, copied.
pub fn copy_range(buf: &[u8], from: usize, to: usize) -> (out: Vec<u8>)
    requires
        from <= to <= buf@.len(),
    ensures
        out@ == buf@.subrange(from as int, to as int),
{
    let mut out: Vec<u8> = Vec::new();
    let mut i: usize = from;
    assert(out@ =~= buf@.subrange(from as int, from as int));
    while i < to
        invariant
            from <= i <= to <= buf@.len(),
            out@ == buf@.subrange(from as int, i as int),
        decreases to - i,
    {
        out.push(buf[i]);
        i = i + 1;
        assert(out@ =~= buf@.subrange(from as int, i as int));
    }
    out
}

/// The thirty-two bytes of `buf` from `at` on.
pub fn array_32(buf: &[u8], at: usize) -> (r: [u8; 32])
    requires
        at + 32 <= buf@.len(),
    ensures
        r@ == buf@.subrange(at as int, at + 32),
{
    let len: usize = buf.len();
    let mut r: [u8; 32] = [0u8; 32];
    let mut i: usize = 0;
    while i < 32
        invariant
            i <= 32,
            at + 32 <= len,
            buf@.len() == len,
            forall|j: int| 0 <= j < i ==> r@[j] == buf@[at + j],
        decreases 32 - i,
    {
        r[i] = buf[at + i];
        i = i + 1;
    }
    assert(r@ =~= buf@.subrange(at as int, at + 32));
    r
}

/// The sixteen bytes of `buf` from `at` on.
pub fn array_16(buf: &[u8], at: usize) -> (r: [u8; 16])
    requires
        at + 16 <= buf@.len(),
    ensures
        r@ == buf@.subrange(at as int, at + 16),
{
    let len: usize = buf.len();
    let mut r: [u8; 16] = [0u8; 16];
    let mut i: usize = 0;
    while i < 16
        invariant
            i <= 16,
            at + 16 <= len,
            buf@.len() == len,
            forall|j: int| 0 <= j < i ==> r@[j] == buf@[at + j],
        decreases 16 - i,
    {
        r[i] = buf[at + i];
        i = i + 1;
    }
    assert(r@ =~= buf@.subrange(at as int, at + 16));
    r
}

/// Whether two strings hold the same characters.
pub fn same_str(a: &str, b: &str) -> (r: bool)
    ensures
        r == (a@ == b@),
{
    a.to_owned() == b.to_owned()
}

} // verus!
