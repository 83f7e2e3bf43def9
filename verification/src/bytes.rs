//! Little-endian integers in byte buffers: the guest-visible structures
//! (descriptor rings, boot parameters, ELF headers) are all little-endian.
use vstd::prelude::*;

verus! {

/// Little-endian value of `bytes[o..o+n]`.
pub open spec fn le_value(bytes: Seq<u8>, o: int, n: nat) -> nat
    decreases n,
{
    if n == 0 {
        0
    } else {
        (bytes[o] as nat) + 256 * le_value(bytes, o + 1, (n - 1) as nat)
    }
}

/// A little-endian value of `n` bytes is below `2^(8n)`.
pub proof fn lemma_le_value_bound(b: Seq<u8>, o: int, n: nat)
    ensures
        le_value(b, o, n) < vstd::arithmetic::power2::pow2(8 * n),
    decreases n,
{
    if n == 0 {
        vstd::arithmetic::power2::lemma2_to64();
    } else {
        lemma_le_value_bound(b, o + 1, (n - 1) as nat);
        let p = vstd::arithmetic::power2::pow2((8 * (n - 1)) as nat);
        vstd::arithmetic::power2::lemma_pow2_adds((8 * (n - 1)) as nat, 8);
        vstd::arithmetic::power2::lemma2_to64();
        assert(vstd::arithmetic::power2::pow2(8 * n) == p * 256);
        let v = le_value(b, o + 1, (n - 1) as nat);
        assert((b[o] as nat) + 256 * v < 256 * p) by (nonlinear_arith)
            requires
                v < p,
                b[o] < 256,
        ;
    }
}

/// Bounds of `le_value` for the widths of the machine integers.
pub proof fn lemma_le_value_widths(b: Seq<u8>, o: int)
    ensures
        le_value(b, o, 1) < 0x100,
        le_value(b, o, 2) < 0x1_0000,
        le_value(b, o, 4) < 0x1_0000_0000,
        le_value(b, o, 8) < 0x1_0000_0000_0000_0000,
{
    lemma_le_value_bound(b, o, 1);
    lemma_le_value_bound(b, o, 2);
    lemma_le_value_bound(b, o, 4);
    lemma_le_value_bound(b, o, 8);
    vstd::arithmetic::power2::lemma2_to64();
    vstd::arithmetic::power2::lemma2_to64_rest();
}

/// `le_value` only reads the bytes it covers.
pub proof fn lemma_le_value_frame(a: Seq<u8>, b: Seq<u8>, o: int, n: nat)
    requires
        forall|i: int| o <= i < o + n ==> a[i] == b[i],
    ensures
        le_value(a, o, n) == le_value(b, o, n),
    decreases n,
{
    if n > 0 {
        lemma_le_value_frame(a, b, o + 1, (n - 1) as nat);
    }
}

/// A field disjoint from a `put_le` reads as before.
pub proof fn lemma_field_after_put(s: Seq<u8>, o: int, v: nat, n: nat, o2: int, n2: nat)
    requires
        0 <= o,
        o + n <= s.len(),
        0 <= o2,
        o2 + n2 <= s.len(),
        o2 + n2 <= o || o + n <= o2,
    ensures
        le_value(put_le(s, o, v, n), o2, n2) == le_value(s, o2, n2),
        put_le(s, o, v, n).len() == s.len(),
{
    lemma_put_le(s, o, v, n);
    lemma_le_value_frame(put_le(s, o, v, n), s, o2, n2);
}

/// A field not covering an updated byte reads as before.
pub proof fn lemma_field_after_update(s: Seq<u8>, j: int, b: u8, o2: int, n2: nat)
    requires
        0 <= j < s.len(),
        0 <= o2,
        o2 + n2 <= s.len(),
        o2 + n2 <= j || j < o2,
    ensures
        le_value(s.update(j, b), o2, n2) == le_value(s, o2, n2),
{
    lemma_le_value_frame(s.update(j, b), s, o2, n2);
}

/// A field written with `put_le` reads back the value, when it fits.
pub proof fn lemma_field_put(s: Seq<u8>, o: int, v: nat, n: nat)
    requires
        0 <= o,
        o + n <= s.len(),
        n <= 8,
        v < vstd::arithmetic::power2::pow2(8 * n),
    ensures
        le_value(put_le(s, o, v, n), o, n) == v,
        put_le(s, o, v, n).len() == s.len(),
{
    lemma_put_le(s, o, v, n);
    vstd::arithmetic::div_mod::lemma_small_mod(v, vstd::arithmetic::power2::pow2(8 * n));
}

/// Little-endian decode of up to 8 bytes at `o`.
pub fn le_decode(b: &[u8], o: usize, n: usize) -> (r: u64)
    requires
        n <= 8,
        o + n <= b@.len(),
    ensures
        r == le_value(b@, o as int, n as nat),
    decreases n,
{
    if n == 0 {
        0
    } else {
        let blen = b.len();
        assert(o + n <= blen);
        let rest = le_decode(b, o + 1, n - 1);
        proof {
            lemma_le_value_bound(b@, (o + 1) as int, (n - 1) as nat);
            if n - 1 < 7 {
                vstd::arithmetic::power2::lemma_pow2_strictly_increases((8 * (n - 1)) as nat, 56);
            }
            vstd::arithmetic::power2::lemma2_to64();
            vstd::arithmetic::power2::lemma2_to64_rest();
        }
        (b[o] as u64) + 256 * rest
    }
}

/// The little-endian `u16` at `o`.
pub fn read_u16(b: &[u8], o: usize) -> (r: u16)
    requires
        o + 2 <= b@.len(),
    ensures
        r as nat == le_value(b@, o as int, 2),
{
    proof {
        lemma_le_value_widths(b@, o as int);
    }
    le_decode(b, o, 2) as u16
}

/// The little-endian `u32` at `o`.
pub fn read_u32(b: &[u8], o: usize) -> (r: u32)
    requires
        o + 4 <= b@.len(),
    ensures
        r as nat == le_value(b@, o as int, 4),
{
    proof {
        lemma_le_value_widths(b@, o as int);
    }
    le_decode(b, o, 4) as u32
}

/// The little-endian `u64` at `o`.
pub fn read_u64(b: &[u8], o: usize) -> (r: u64)
    requires
        o + 8 <= b@.len(),
    ensures
        r as nat == le_value(b@, o as int, 8),
{
    le_decode(b, o, 8)
}

/// `s` with the `n` low-order little-endian bytes of `v` stored at `o`.
pub open spec fn put_le(s: Seq<u8>, o: int, v: nat, n: nat) -> Seq<u8>
    decreases n,
{
    if n == 0 {
        s
    } else {
        put_le(s.update(o, (v % 256) as u8), o + 1, v / 256, (n - 1) as nat)
    }
}

/// What `put_le` stores reads back, and nothing else changes.
pub proof fn lemma_put_le(s: Seq<u8>, o: int, v: nat, n: nat)
    requires
        0 <= o,
        o + n <= s.len(),
    ensures
        put_le(s, o, v, n).len() == s.len(),
        le_value(put_le(s, o, v, n), o, n) == v % vstd::arithmetic::power2::pow2(8 * n),
        forall|j: int|
            0 <= j < s.len() && !(o <= j < o + n) ==> #[trigger] put_le(s, o, v, n)[j] == s[j],
    decreases n,
{
    vstd::arithmetic::power2::lemma2_to64();
    if n > 0 {
        let t = s.update(o, (v % 256) as u8);
        lemma_put_le(t, o + 1, v / 256, (n - 1) as nat);
        let r = put_le(s, o, v, n);
        assert(r[o] == (v % 256) as u8);
        let p = vstd::arithmetic::power2::pow2((8 * (n - 1)) as nat);
        vstd::arithmetic::power2::lemma_pow2_adds(8, (8 * (n - 1)) as nat);
        assert(vstd::arithmetic::power2::pow2(8 * n) == 256 * p);
        vstd::arithmetic::power2::lemma_pow2_pos((8 * (n - 1)) as nat);
        vstd::arithmetic::div_mod::lemma_breakdown(v as int, 256, p as int);
    }
}

/// Store the `n` low-order little-endian bytes of `v` at `o`.
pub fn write_le(buf: &mut Vec<u8>, o: usize, v: u64, n: usize)
    requires
        n <= 8,
        o + n <= old(buf)@.len(),
    ensures
        final(buf)@ == put_le(old(buf)@, o as int, v as nat, n as nat),
    decreases n,
{
    if n > 0 {
        let blen = buf.len();
        assert(o + n <= blen);
        buf.set(o, (v % 256) as u8);
        write_le(buf, o + 1, v / 256, n - 1);
    }
}

} // verus!
