use vstd::prelude::*;
use vstd::arithmetic::div_mod::{lemma_breakdown, lemma_div_denominator};

verus! {

/// Which header field a received byte belongs to.
#[derive(Clone, Copy, Debug, PartialEq, Eq, Structural)]
pub enum FieldKind {
    Len,
    Id,
    Type,
}

/// `256` to the power `w`: the number of values a `w`-byte field can hold.
pub open spec fn pow256(w: nat) -> nat
    decreases w,
{
    if w == 0 {
        1
    } else {
        256 * pow256((w - 1) as nat)
    }
}

/// A field width accepted by the protocol: one to four bytes.
pub open spec fn valid_width(w: int) -> bool {
    1 <= w <= 4
}

/// Whether `v` is representable in a big-endian field of `w` bytes.
pub open spec fn fits(v: nat, w: nat) -> bool {
    v < pow256(w)
}

/// The `w` low-order bytes of `v`, most significant first.
pub open spec fn be_bytes(v: nat, w: nat) -> Seq<u8>
    decreases w,
{
    if w == 0 {
        Seq::empty()
    } else {
        be_bytes(v / 256, (w - 1) as nat).push((v % 256) as u8)
    }
}

/// The number that a big-endian byte string denotes.
pub open spec fn be_value(s: Seq<u8>) -> nat
    decreases s.len(),
{
    if s.len() == 0 {
        0
    } else {
        be_value(s.drop_last()) * 256 + (s.last() as nat)
    }
}

pub proof fn lemma_pow256_small()
    ensures
        pow256(0) == 1,
        pow256(1) == 256,
        pow256(2) == 65536,
        pow256(3) == 16777216,
        pow256(4) == 4294967296,
{
    reveal_with_fuel(pow256, 5);
}

/// A field of at most four bytes holds at most `2^32` values.
pub proof fn lemma_pow256_le4(w: nat)
    requires
        w <= 4,
    ensures
        pow256(w) <= 4294967296,
{
    lemma_pow256_small();
    if w == 0 {
    } else if w == 1 {
    } else if w == 2 {
    } else if w == 3 {
    } else {
    }
}

pub proof fn lemma_pow256_pos(w: nat)
    ensures
        pow256(w) > 0,
    decreases w,
{
    if w > 0 {
        lemma_pow256_pos((w - 1) as nat);
    }
}

pub proof fn lemma_be_bytes_len(v: nat, w: nat)
    ensures
        be_bytes(v, w).len() == w,
    decreases w,
{
    if w > 0 {
        lemma_be_bytes_len(v / 256, (w - 1) as nat);
    }
}

/// Reading back the big-endian bytes of `v` gives `v` modulo the field size.
pub proof fn lemma_be_roundtrip(v: nat, w: nat)
    ensures
        be_value(be_bytes(v, w)) == v % pow256(w),
    decreases w,
{
    lemma_be_bytes_len(v, w);
    if w == 0 {
        assert(v % 1 == 0);
    } else {
        let rest = be_bytes(v / 256, (w - 1) as nat);
        lemma_be_roundtrip(v / 256, (w - 1) as nat);
        assert(be_bytes(v, w).drop_last() =~= rest);
        lemma_pow256_pos((w - 1) as nat);
        lemma_breakdown(v as int, 256, pow256((w - 1) as nat) as int);
        assert(((v % 256) as u8) as nat == v % 256);
    }
}

pub proof fn lemma_pow256_succ(k: nat)
    ensures
        pow256(k + 1) == 256 * pow256(k),
{
    assert((k + 1 - 1) as nat == k);
}

pub proof fn lemma_pow256_add(a: nat, b: nat)
    ensures
        pow256(a + b) == pow256(a) * pow256(b),
    decreases a,
{
    if a > 0 {
        lemma_pow256_add((a - 1) as nat, b);
        assert(pow256(a + b) == 256 * pow256((a - 1 + b) as nat));
        vstd::arithmetic::mul::lemma_mul_is_associative(256, pow256((a - 1) as nat) as int, pow256(b) as int);
    } else {
        assert(pow256(0) == 1);
        assert(a + b == b);
    }
}

/// A big-endian byte string denotes a number below `256^len`.
pub proof fn lemma_be_value_bound(s: Seq<u8>)
    ensures
        be_value(s) < pow256(s.len()),
    decreases s.len(),
{
    if s.len() > 0 {
        lemma_be_value_bound(s.drop_last());
        let v = be_value(s.drop_last());
        let p = pow256((s.len() - 1) as nat);
        assert(v * 256 + s.last() < p * 256) by (nonlinear_arith)
            requires
                v < p,
                s.last() < 256,
        ;
    }
}

/// Setting the byte just below the bits already filled: for `x` a multiple of
/// `256^(k+1)`, or-ing in `b << 8k` adds `b * 256^k`.
pub proof fn lemma_or_byte(x: u32, b: u8, k: nat)
    requires
        k <= 3,
        x as nat % pow256(k + 1) == 0,
    ensures
        (x | ((b as u32) << ((k * 8) as u32))) as nat == x as nat + b as nat * pow256(k),
{
    lemma_pow256_small();
    let s = (k * 8) as u32;
    if k == 0 {
        assert(s == 0);
        assert(x % 256 == 0 ==> (x | ((b as u32) << 0u32)) == x + b) by (bit_vector);
    } else if k == 1 {
        assert(s == 8);
        assert(x % 65536 == 0 ==> (x | ((b as u32) << 8u32)) == x + (b as u32) * 256) by (bit_vector);
    } else if k == 2 {
        assert(s == 16);
        assert(x % 16777216 == 0 ==> (x | ((b as u32) << 16u32)) == x + (b as u32) * 65536)
            by (bit_vector);
    } else {
        assert(k == 3);
        assert(s == 24);
        assert(x as nat % 4294967296 == x as nat) by {
            vstd::arithmetic::div_mod::lemma_small_mod(x as nat, 4294967296);
        }
        assert(x == 0);
        assert((x | ((b as u32) << 24u32)) == x + (b as u32) * 16777216) by (bit_vector)
            requires
                x == 0,
        ;
    }
}

/// Byte `i` of the big-endian encoding, as a quotient and a remainder.
pub proof fn lemma_be_bytes_index(v: nat, w: nat, i: nat)
    requires
        i < w,
    ensures
        be_bytes(v, w)[i as int] == ((v / pow256((w - 1 - i) as nat)) % 256) as u8,
    decreases w,
{
    lemma_be_bytes_len(v, w);
    lemma_be_bytes_len(v / 256, (w - 1) as nat);
    if i == w - 1 {
        assert(v / 1 == v);
    } else {
        lemma_be_bytes_index(v / 256, (w - 1) as nat, i);
        let k = (w - 2 - i) as nat;
        lemma_pow256_pos(k);
        lemma_div_denominator(v as int, 256, pow256(k) as int);
        assert(pow256((w - 1 - i) as nat) == 256 * pow256(k));
    }
}

/// Byte `i` of the big-endian encoding, as the shift the encoder uses.
pub proof fn lemma_be_byte_shift(v: u32, w: nat, i: nat)
    requires
        i < w <= 4,
    ensures
        be_bytes(v as nat, w)[i as int] == ((v >> (((w - 1 - i) * 8) as u32)) & 0xffu32) as u8,
{
    lemma_be_bytes_index(v as nat, w, i);
    lemma_pow256_small();
    let k = (w - 1 - i) as nat;
    let s = ((w - 1 - i) * 8) as u32;
    let q = (v as nat / pow256(k)) % 256;
    if k == 0 {
        assert(s == 0u32);
        assert(v as nat / 1 == v as nat);
        assert(((v >> 0u32) & 0xffu32) == v % 256) by (bit_vector);
        assert(q == v % 256);
    } else if k == 1 {
        assert(s == 8u32);
        assert(((v >> 8u32) & 0xffu32) == (v / 256) % 256) by (bit_vector);
        assert(q == (v / 256) % 256);
    } else if k == 2 {
        assert(s == 16u32);
        assert(((v >> 16u32) & 0xffu32) == (v / 65536) % 256) by (bit_vector);
        assert(q == (v / 65536) % 256);
    } else {
        assert(k == 3);
        assert(s == 24u32);
        assert(((v >> 24u32) & 0xffu32) == (v / 16777216) % 256) by (bit_vector);
        assert(q == (v / 16777216) % 256);
    }
}

/// Whether `width` is an accepted field width (1..=4 bytes).
pub fn is_valid_width(width: usize) -> (r: bool)
    ensures
        r == valid_width(width as int),
{
    1 <= width && width <= 4
}

/// Returns whether value `v` is representable in a big-endian `width`-byte field.
pub fn fits_in_bytes(v: u32, width: usize) -> (r: bool)
    requires
        width <= 4,
    ensures
        r == fits(v as nat, width as nat),
{
    proof {
        lemma_pow256_small();
    }
    if width == 4 {
        true
    } else {
        let shift: u32 = (width * 8) as u32;
        proof {
            if width == 0 {
                assert((1u32 << 0u32) == 1) by (bit_vector);
            } else if width == 1 {
                assert((1u32 << 8u32) == 256) by (bit_vector);
            } else if width == 2 {
                assert((1u32 << 16u32) == 65536) by (bit_vector);
            } else {
                assert((1u32 << 24u32) == 16777216) by (bit_vector);
            }
        }
        let limit: u32 = (1u32 << shift) - 1;
        v <= limit
    }
}

/// Encode a `u32` value into the first `width` bytes of `out` in big-endian order.
pub fn encode_be(v: u32, width: usize, out: &mut [u8; 4])
    requires
        width <= 4,
    ensures
        final(out)@.subrange(0, width as int) == be_bytes(v as nat, width as nat),
        final(out)@.subrange(width as int, 4) == old(out)@.subrange(width as int, 4),
{
    let ghost enc = be_bytes(v as nat, width as nat);
    proof {
        lemma_be_bytes_len(v as nat, width as nat);
    }
    let mut i: usize = 0;
    while i < width
        invariant
            width <= 4,
            i <= width,
            out@.len() == 4,
            enc == be_bytes(v as nat, width as nat),
            enc.len() == width,
            forall|j: int| 0 <= j < i ==> out@[j] == enc[j],
            forall|j: int| width <= j < 4 ==> out@[j] == old(out)@[j],
        decreases width - i,
    {
        let shift: u32 = ((width - 1 - i) * 8) as u32;
        let b: u8 = ((v >> shift) & 0xFF) as u8;
        proof {
            lemma_be_byte_shift(v, width as nat, i as nat);
        }
        out[i] = b;
        i += 1;
    }
    assert(out@.subrange(0, width as int) =~= enc);
    assert(out@.subrange(width as int, 4) =~= old(out)@.subrange(width as int, 4));
}

} // verus!
