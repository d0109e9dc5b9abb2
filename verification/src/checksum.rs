use vstd::prelude::*;
use vstd::std_specs::cmp::PartialEqSpec;
use crate::utils::{be_bytes, be_value, lemma_be_roundtrip, lemma_be_bytes_len, lemma_be_bytes_index, lemma_pow256_small};

verus! {

/// A frame checksum algorithm.
///
/// A checksum is a running value: `start`, then `add` once per covered byte,
/// then `finish`. The finished value is written as `WIDTH` bytes by `encode`
/// and read back by `decode`. `WIDTH = 0` means that frames carry no checksum.
pub trait Checksum: Sized {
    type Value: Copy + Default + PartialEq;

    const WIDTH: usize;

    /// The starting running value. Like the other models below, it is
    /// given by each checksum; one that leaves it out has no model.
    open spec fn spec_start(&self) -> Self::Value {
        arbitrary()
    }

    /// The running value after one more byte.
    open spec fn spec_add(&self, sum: Self::Value, byte: u8) -> Self::Value {
        arbitrary()
    }

    /// The finished checksum of a running value.
    open spec fn spec_finish(&self, sum: Self::Value) -> Self::Value {
        arbitrary()
    }

    /// The bytes of the checksum field for a finished value.
    open spec fn spec_encode(&self, sum: Self::Value) -> Seq<u8> {
        arbitrary()
    }

    /// The value that the bytes of a checksum field denote.
    open spec fn spec_decode(&self, bytes: Seq<u8>) -> Self::Value {
        arbitrary()
    }

    fn start(&self) -> (r: Self::Value)
        ensures
            r == self.spec_start(),
    ;

    fn add(&self, sum: Self::Value, byte: u8) -> (r: Self::Value)
        ensures
            r == self.spec_add(sum, byte),
    ;

    fn finish(&self, sum: Self::Value) -> (r: Self::Value)
        ensures
            r == self.spec_finish(sum),
    ;

    fn encode(&self, sum: Self::Value, out: &mut [u8]) -> (n: usize)
        requires
            old(out)@.len() >= Self::WIDTH,
        ensures
            n == Self::WIDTH,
            final(out)@.len() == old(out)@.len(),
            final(out)@.subrange(0, n as int) == self.spec_encode(sum),
            final(out)@.subrange(n as int, final(out)@.len() as int) == old(out)@.subrange(
                n as int,
                old(out)@.len() as int,
            ),
    ;

    fn decode(&self, bytes: &[u8]) -> (r: Self::Value)
        requires
            bytes@.len() >= Self::WIDTH,
        ensures
            r == self.spec_decode(bytes@.subrange(0, Self::WIDTH as int)),
    ;
}

/// The encoding of a checksum value is `WIDTH` bytes long and, when the
/// checksum has a field at all, decodes back to the value.
pub open spec fn codec_laws<K: Checksum>(k: K) -> bool {
    forall|v: K::Value|
        #![trigger k.spec_encode(v)]
        k.spec_encode(v).len() == K::WIDTH && (K::WIDTH > 0 ==> k.spec_decode(k.spec_encode(v))
            == v)
}

/// `==` on checksum values compares them as values.
pub open spec fn value_eq_laws<K: Checksum>() -> bool {
    &&& <K::Value as PartialEqSpec>::obeys_eq_spec()
    &&& forall|a: K::Value, b: K::Value| #[trigger] a.eq_spec(&b) <==> a == b
}

/// The running value after adding `bytes`, in order, to `acc`.
pub open spec fn fold_sum<K: Checksum>(k: K, acc: K::Value, bytes: Seq<u8>) -> K::Value
    decreases bytes.len(),
{
    if bytes.len() == 0 {
        acc
    } else {
        k.spec_add(fold_sum(k, acc, bytes.drop_last()), bytes.last())
    }
}

/// The finished checksum of `bytes`.
pub open spec fn checksum_of<K: Checksum>(k: K, bytes: Seq<u8>) -> K::Value {
    k.spec_finish(fold_sum(k, k.spec_start(), bytes))
}

/// Adding `a` and then `b` is adding `a + b`.
pub proof fn lemma_fold_append<K: Checksum>(k: K, acc: K::Value, a: Seq<u8>, b: Seq<u8>)
    ensures
        fold_sum(k, acc, a + b) == fold_sum(k, fold_sum(k, acc, a), b),
    decreases b.len(),
{
    if b.len() == 0 {
        assert(a + b =~= a);
    } else {
        lemma_fold_append(k, acc, a, b.drop_last());
        assert((a + b).drop_last() =~= a + b.drop_last());
        assert((a + b).last() == b.last());
    }
}

/// Adding the first `i + 1` bytes is adding the first `i` and then byte `i`.
pub proof fn lemma_fold_take_step<K: Checksum>(k: K, acc: K::Value, bytes: Seq<u8>, i: int)
    requires
        0 <= i < bytes.len(),
    ensures
        fold_sum(k, acc, bytes.take(i + 1)) == k.spec_add(fold_sum(k, acc, bytes.take(i)), bytes[i]),
{
    assert(bytes.take(i + 1).drop_last() =~= bytes.take(i));
}

/// Checksum strategy that disables checksum bytes completely.
///
/// `WIDTH = 0` means no checksum field is present in encoded frames.
#[derive(Clone, Copy, Default)]
pub struct NoChecksum;

impl Checksum for NoChecksum {
    type Value = u8;

    const WIDTH: usize = 0;

    open spec fn spec_start(&self) -> u8 {
        0
    }

    open spec fn spec_add(&self, sum: u8, byte: u8) -> u8 {
        sum
    }

    open spec fn spec_finish(&self, sum: u8) -> u8 {
        sum
    }

    open spec fn spec_encode(&self, sum: u8) -> Seq<u8> {
        Seq::empty()
    }

    open spec fn spec_decode(&self, bytes: Seq<u8>) -> u8 {
        0
    }

    fn start(&self) -> (r: u8) {
        0
    }

    fn add(&self, sum: u8, _byte: u8) -> (r: u8) {
        sum
    }

    fn finish(&self, sum: u8) -> (r: u8) {
        sum
    }

    fn encode(&self, _sum: u8, out: &mut [u8]) -> (n: usize) {
        assert(out@.subrange(0, 0) =~= Seq::<u8>::empty());
        assert(out@.subrange(0, out@.len() as int) =~= out@);
        0
    }

    fn decode(&self, _bytes: &[u8]) -> (r: u8) {
        0
    }
}

/// TinyFrame XOR checksum (`~(xor of bytes)`).
#[derive(Clone, Copy, Default)]
pub struct XorChecksum;

impl Checksum for XorChecksum {
    type Value = u8;

    const WIDTH: usize = 1;

    open spec fn spec_start(&self) -> u8 {
        0
    }

    open spec fn spec_add(&self, sum: u8, byte: u8) -> u8 {
        sum ^ byte
    }

    open spec fn spec_finish(&self, sum: u8) -> u8 {
        !sum
    }

    open spec fn spec_encode(&self, sum: u8) -> Seq<u8> {
        seq![sum]
    }

    open spec fn spec_decode(&self, bytes: Seq<u8>) -> u8 {
        bytes[0]
    }

    fn start(&self) -> (r: u8) {
        0
    }

    fn add(&self, sum: u8, byte: u8) -> (r: u8) {
        sum ^ byte
    }

    fn finish(&self, sum: u8) -> (r: u8) {
        !sum
    }

    fn encode(&self, sum: u8, out: &mut [u8]) -> (n: usize) {
        out[0] = sum;
        assert(out@.subrange(0, 1) =~= seq![sum]);
        assert(out@.subrange(1, out@.len() as int) =~= old(out)@.subrange(1, old(out)@.len() as int));
        1
    }

    fn decode(&self, bytes: &[u8]) -> (r: u8) {
        bytes[0]
    }
}

/// One bit step of the Dallas/Maxim CRC8.
pub open spec fn crc8_round(crc: u8, b: u8) -> u8 {
    if (crc ^ b) & 1u8 != 0 {
        (crc >> 1u8) ^ 0x8Cu8
    } else {
        crc >> 1u8
    }
}

/// `k` bit steps of the Dallas/Maxim CRC8, consuming the low bits of `b` first.
pub open spec fn crc8_rounds(crc: u8, b: u8, k: nat) -> u8
    decreases k,
{
    if k == 0 {
        crc
    } else {
        crc8_rounds(crc8_round(crc, b), b >> 1u8, (k - 1) as nat)
    }
}

/// Dallas/Maxim CRC8 (poly 0x31 reflected = 0x8C).
#[derive(Clone, Copy, Default)]
pub struct Crc8Maxim;

impl Checksum for Crc8Maxim {
    type Value = u8;

    const WIDTH: usize = 1;

    open spec fn spec_start(&self) -> u8 {
        0
    }

    open spec fn spec_add(&self, sum: u8, byte: u8) -> u8 {
        crc8_rounds(sum, byte, 8)
    }

    open spec fn spec_finish(&self, sum: u8) -> u8 {
        sum
    }

    open spec fn spec_encode(&self, sum: u8) -> Seq<u8> {
        seq![sum]
    }

    open spec fn spec_decode(&self, bytes: Seq<u8>) -> u8 {
        bytes[0]
    }

    fn start(&self) -> (r: u8) {
        0
    }

    fn add(&self, sum: u8, byte: u8) -> (r: u8) {
        let mut crc = sum;
        let mut b = byte;
        let mut i: u32 = 0;
        while i < 8
            invariant
                i <= 8,
                crc8_rounds(crc, b, (8 - i) as nat) == crc8_rounds(sum, byte, 8),
            decreases 8 - i,
        {
            let mix = (crc ^ b) & 0x01;
            crc >>= 1;
            if mix != 0 {
                crc ^= 0x8C;
            }
            b >>= 1;
            i += 1;
        }
        crc
    }

    fn finish(&self, sum: u8) -> (r: u8) {
        sum
    }

    fn encode(&self, sum: u8, out: &mut [u8]) -> (n: usize) {
        out[0] = sum;
        assert(out@.subrange(0, 1) =~= seq![sum]);
        assert(out@.subrange(1, out@.len() as int) =~= old(out)@.subrange(1, old(out)@.len() as int));
        1
    }

    fn decode(&self, bytes: &[u8]) -> (r: u8) {
        bytes[0]
    }
}

/// One bit step of the reflected CRC16 (0xA001).
pub open spec fn crc16_round(crc: u16) -> u16 {
    if crc & 1u16 != 0 {
        (crc >> 1u16) ^ 0xA001u16
    } else {
        crc >> 1u16
    }
}

/// `k` bit steps of the reflected CRC16.
pub open spec fn crc16_rounds(crc: u16, k: nat) -> u16
    decreases k,
{
    if k == 0 {
        crc
    } else {
        crc16_rounds(crc16_round(crc), (k - 1) as nat)
    }
}

/// CRC16 (poly 0x8005 reflected implementation with 0xA001).
#[derive(Clone, Copy, Default)]
pub struct Crc16;

impl Checksum for Crc16 {
    type Value = u16;

    const WIDTH: usize = 2;

    open spec fn spec_start(&self) -> u16 {
        0
    }

    open spec fn spec_add(&self, sum: u16, byte: u8) -> u16 {
        crc16_rounds(sum ^ (byte as u16), 8)
    }

    open spec fn spec_finish(&self, sum: u16) -> u16 {
        sum
    }

    open spec fn spec_encode(&self, sum: u16) -> Seq<u8> {
        be_bytes(sum as nat, 2)
    }

    open spec fn spec_decode(&self, bytes: Seq<u8>) -> u16 {
        be_value(bytes) as u16
    }

    fn start(&self) -> (r: u16) {
        0
    }

    fn add(&self, sum: u16, byte: u8) -> (r: u16) {
        let mut crc = sum ^ (byte as u16);
        let mut i: u32 = 0;
        while i < 8
            invariant
                i <= 8,
                crc16_rounds(crc, (8 - i) as nat) == crc16_rounds(sum ^ (byte as u16), 8),
            decreases 8 - i,
        {
            crc = if (crc & 1) != 0 {
                (crc >> 1) ^ 0xA001
            } else {
                crc >> 1
            };
            i += 1;
        }
        crc
    }

    fn finish(&self, sum: u16) -> (r: u16) {
        sum
    }

    fn encode(&self, sum: u16, out: &mut [u8]) -> (n: usize) {
        let hi = (sum >> 8) as u8;
        let lo = (sum & 0xFF) as u8;
        proof {
            lemma_be_bytes_len(sum as nat, 2);
            lemma_be_bytes_index(sum as nat, 2, 0);
            lemma_be_bytes_index(sum as nat, 2, 1);
            lemma_pow256_small();
            assert((sum >> 8u16) == sum / 256) by (bit_vector);
            assert((sum & 0xFFu16) == sum % 256) by (bit_vector);
            assert(sum as nat / 1 == sum as nat);
        }
        out[0] = hi;
        out[1] = lo;
        assert(out@.subrange(0, 2) =~= be_bytes(sum as nat, 2));
        assert(out@.subrange(2, out@.len() as int) =~= old(out)@.subrange(2, old(out)@.len() as int));
        2
    }

    fn decode(&self, bytes: &[u8]) -> (r: u16) {
        let b0 = bytes[0];
        let b1 = bytes[1];
        let r = ((b0 as u16) << 8) | (b1 as u16);
        proof {
            let s = bytes@.subrange(0, 2);
            assert(s.drop_last().drop_last() =~= Seq::<u8>::empty());
            reveal_with_fuel(be_value, 3);
            assert(be_value(s) == b0 as nat * 256 + b1 as nat);
            assert(((b0 as u16) << 8u16) | (b1 as u16) == (b0 as u16) * 256 + (b1 as u16)) by (bit_vector);
        }
        r
    }
}

/// One bit step of the reflected CRC32 (0xEDB88320).
pub open spec fn crc32_round(crc: u32) -> u32 {
    if crc & 1u32 != 0 {
        (crc >> 1u32) ^ 0xEDB8_8320u32
    } else {
        crc >> 1u32
    }
}

/// `k` bit steps of the reflected CRC32.
pub open spec fn crc32_rounds(crc: u32, k: nat) -> u32
    decreases k,
{
    if k == 0 {
        crc
    } else {
        crc32_rounds(crc32_round(crc), (k - 1) as nat)
    }
}

/// CRC32 (poly 0x04C11DB7 reflected implementation with 0xEDB88320).
#[derive(Clone, Copy, Default)]
pub struct Crc32;

impl Checksum for Crc32 {
    type Value = u32;

    const WIDTH: usize = 4;

    open spec fn spec_start(&self) -> u32 {
        0xFFFF_FFFF
    }

    open spec fn spec_add(&self, sum: u32, byte: u8) -> u32 {
        crc32_rounds(sum ^ (byte as u32), 8)
    }

    open spec fn spec_finish(&self, sum: u32) -> u32 {
        sum ^ 0xFFFF_FFFFu32
    }

    open spec fn spec_encode(&self, sum: u32) -> Seq<u8> {
        be_bytes(sum as nat, 4)
    }

    open spec fn spec_decode(&self, bytes: Seq<u8>) -> u32 {
        be_value(bytes) as u32
    }

    fn start(&self) -> (r: u32) {
        0xFFFF_FFFF
    }

    fn add(&self, sum: u32, byte: u8) -> (r: u32) {
        let mut crc = sum ^ (byte as u32);
        let mut i: u32 = 0;
        while i < 8
            invariant
                i <= 8,
                crc32_rounds(crc, (8 - i) as nat) == crc32_rounds(sum ^ (byte as u32), 8),
            decreases 8 - i,
        {
            crc = if (crc & 1) != 0 {
                (crc >> 1) ^ 0xEDB8_8320
            } else {
                crc >> 1
            };
            i += 1;
        }
        crc
    }

    fn finish(&self, sum: u32) -> (r: u32) {
        sum ^ 0xFFFF_FFFF
    }

    fn encode(&self, sum: u32, out: &mut [u8]) -> (n: usize) {
        let b0 = (sum >> 24) as u8;
        let b1 = (sum >> 16) as u8;
        let b2 = (sum >> 8) as u8;
        let b3 = (sum & 0xFF) as u8;
        proof {
            lemma_be_bytes_len(sum as nat, 4);
            lemma_be_bytes_index(sum as nat, 4, 0);
            lemma_be_bytes_index(sum as nat, 4, 1);
            lemma_be_bytes_index(sum as nat, 4, 2);
            lemma_be_bytes_index(sum as nat, 4, 3);
            lemma_pow256_small();
            assert(((sum >> 24u32) as u8) == ((sum / 16777216) % 256) as u8) by (bit_vector);
            assert(((sum >> 16u32) as u8) == ((sum / 65536) % 256) as u8) by (bit_vector);
            assert(((sum >> 8u32) as u8) == ((sum / 256) % 256) as u8) by (bit_vector);
            assert(((sum & 0xFFu32) as u8) == (sum % 256) as u8) by (bit_vector);
            assert(sum as nat / 1 == sum as nat);
        }
        out[0] = b0;
        out[1] = b1;
        out[2] = b2;
        out[3] = b3;
        assert(out@.subrange(0, 4) =~= be_bytes(sum as nat, 4));
        assert(out@.subrange(4, out@.len() as int) =~= old(out)@.subrange(4, old(out)@.len() as int));
        4
    }

    fn decode(&self, bytes: &[u8]) -> (r: u32) {
        let b0 = bytes[0];
        let b1 = bytes[1];
        let b2 = bytes[2];
        let b3 = bytes[3];
        let r = ((b0 as u32) << 24) | ((b1 as u32) << 16) | ((b2 as u32) << 8) | (b3 as u32);
        proof {
            let s = bytes@.subrange(0, 4);
            reveal_with_fuel(be_value, 5);
            assert(s.drop_last() =~= seq![b0, b1, b2]);
            assert(s.drop_last().drop_last() =~= seq![b0, b1]);
            assert(s.drop_last().drop_last().drop_last() =~= seq![b0]);
            assert(s.drop_last().drop_last().drop_last().drop_last() =~= Seq::<u8>::empty());
            assert(be_value(s) == ((b0 as nat * 256 + b1 as nat) * 256 + b2 as nat) * 256 + b3 as nat);
            assert(((b0 as u32) << 24u32) | ((b1 as u32) << 16u32) | ((b2 as u32) << 8u32) | (b3 as u32)
                == (((b0 as u32) * 256 + (b1 as u32)) * 256 + (b2 as u32)) * 256 + (b3 as u32)) by (bit_vector);
        }
        r
    }
}

/// The built-in checksums keep the codec and equality laws.
pub proof fn lemma_builtin_laws()
    ensures
        codec_laws(NoChecksum),
        codec_laws(XorChecksum),
        codec_laws(Crc8Maxim),
        codec_laws(Crc16),
        codec_laws(Crc32),
        value_eq_laws::<NoChecksum>(),
        value_eq_laws::<XorChecksum>(),
        value_eq_laws::<Crc8Maxim>(),
        value_eq_laws::<Crc16>(),
        value_eq_laws::<Crc32>(),
{
    lemma_pow256_small();
    assert forall|v: u16| #![trigger Crc16.spec_encode(v)] Crc16.spec_encode(v).len() == 2
        && Crc16.spec_decode(Crc16.spec_encode(v)) == v by {
        lemma_be_bytes_len(v as nat, 2);
        lemma_be_roundtrip(v as nat, 2);
    }
    assert forall|v: u32| #![trigger Crc32.spec_encode(v)] Crc32.spec_encode(v).len() == 4
        && Crc32.spec_decode(Crc32.spec_encode(v)) == v by {
        lemma_be_bytes_len(v as nat, 4);
        lemma_be_roundtrip(v as nat, 4);
    }
}

/// The field widths of the built-in checksums.
pub proof fn lemma_builtin_widths()
    ensures
        NoChecksum::WIDTH == 0,
        XorChecksum::WIDTH == 1,
        Crc8Maxim::WIDTH == 1,
        Crc16::WIDTH == 2,
        Crc32::WIDTH == 4,
{
    lemma_builtin_laws();
    assert(NoChecksum.spec_encode(0u8).len() == NoChecksum::WIDTH);
    assert(XorChecksum.spec_encode(0u8).len() == XorChecksum::WIDTH);
    assert(Crc8Maxim.spec_encode(0u8).len() == Crc8Maxim::WIDTH);
    assert(Crc16.spec_encode(0u16).len() == Crc16::WIDTH);
    assert(Crc32.spec_encode(0u32).len() == Crc32::WIDTH);
    lemma_be_bytes_len(0, 2);
    lemma_be_bytes_len(0, 4);
}

/// Folding byte `b` into the Dallas/Maxim register bit by bit is folding it
/// in by xor and then running zero bits: after `k` bit steps the two agree
/// but for the bits of `b` not yet consumed.
proof fn lemma_crc8_rounds_xor(c: u8, b: u8, k: nat)
    requires
        k <= 8,
    ensures
        crc8_rounds(c ^ b, 0, k) == crc8_rounds(c, b, k) ^ (b >> (k as u8)),
    decreases k,
{
    if k == 0 {
        assert(b >> 0u8 == b) by (bit_vector);
    } else {
        let kk = k as u8;
        assert({
            &&& crc8_round(c ^ b, 0) == crc8_round(c, b) ^ (b >> 1u8)
            &&& (0u8 >> 1u8) == 0u8
            &&& crc8_round(c ^ b, 0) ^ 0u8 == crc8_round(c ^ b, 0)
        }) by (bit_vector);
        lemma_crc8_rounds_xor(crc8_round(c, b), b >> 1u8, (k - 1) as nat);
        let km = (k - 1) as u8;
        assert(((b >> 1u8) >> km) == b >> kk) by (bit_vector)
            requires
                1 <= kk <= 8,
                km == kk - 1,
        ;
    }
}

/// Law: a byte enters the CRC8 register whole, by xor: adding byte `b` to
/// the running value `s` is adding a zero byte to `s ^ b`. (Every bit of
/// the byte counts, the top one too.)
pub proof fn lemma_crc8_byte_enters_by_xor(s: u8, b: u8)
    ensures
        Crc8Maxim.spec_add(s, b) == Crc8Maxim.spec_add(s ^ b, 0),
{
    lemma_crc8_rounds_xor(s, b, 8);
    let r = crc8_rounds(s, b, 8);
    assert(b >> 8u8 == 0u8 && r ^ 0u8 == r) by (bit_vector);
}

/// Law: a byte enters the CRC16 register by xor into its low byte,
/// zero-extended: adding byte `b` to the running value `s` is adding a zero
/// byte to `s ^ b`.
pub proof fn lemma_crc16_byte_enters_by_xor(s: u16, b: u8)
    ensures
        Crc16.spec_add(s, b) == Crc16.spec_add(s ^ (b as u16), 0),
        (b as u16) < 256,
{
    assert((s ^ (b as u16)) ^ (0u8 as u16) == s ^ (b as u16)) by (bit_vector);
}

/// Law: a byte enters the CRC32 register by xor into its low byte,
/// zero-extended: adding byte `b` to the running value `s` is adding a zero
/// byte to `s ^ b`.
pub proof fn lemma_crc32_byte_enters_by_xor(s: u32, b: u8)
    ensures
        Crc32.spec_add(s, b) == Crc32.spec_add(s ^ (b as u32), 0),
        (b as u32) < 256,
{
    assert((s ^ (b as u32)) ^ (0u8 as u32) == s ^ (b as u32)) by (bit_vector);
}

/// The reference Dallas/Maxim CRC8 table entry for index `y` (poly 0x31,
/// reflected), as the xor of the entries for the bits set in `y`.
pub open spec fn crc8_table(y: u8) -> u8 {
    (if y & 1u8 != 0 { 0x5Eu8 } else { 0u8 })
        ^ (if y & 2u8 != 0 { 0xBCu8 } else { 0u8 })
        ^ (if y & 4u8 != 0 { 0x61u8 } else { 0u8 })
        ^ (if y & 8u8 != 0 { 0xC2u8 } else { 0u8 })
        ^ (if y & 16u8 != 0 { 0x9Du8 } else { 0u8 })
        ^ (if y & 32u8 != 0 { 0x23u8 } else { 0u8 })
        ^ (if y & 64u8 != 0 { 0x46u8 } else { 0u8 })
        ^ (if y & 128u8 != 0 { 0x8Cu8 } else { 0u8 })
}

/// The reference CRC-16/ARC table entry for the index in the low byte of
/// `y` (poly 0x8005, reflected), as the xor of the entries for its bits.
pub open spec fn crc16_table(y: u16) -> u16 {
    (if y & 1u16 != 0 { 0xC0C1u16 } else { 0u16 })
        ^ (if y & 2u16 != 0 { 0xC181u16 } else { 0u16 })
        ^ (if y & 4u16 != 0 { 0xC301u16 } else { 0u16 })
        ^ (if y & 8u16 != 0 { 0xC601u16 } else { 0u16 })
        ^ (if y & 16u16 != 0 { 0xCC01u16 } else { 0u16 })
        ^ (if y & 32u16 != 0 { 0xD801u16 } else { 0u16 })
        ^ (if y & 64u16 != 0 { 0xF001u16 } else { 0u16 })
        ^ (if y & 128u16 != 0 { 0xA001u16 } else { 0u16 })
}

/// The reference CRC-32 table entry for the index in the low byte of `y`
/// (poly 0x04C11DB7, reflected), as the xor of the entries for its bits.
pub open spec fn crc32_table(y: u32) -> u32 {
    (if y & 1u32 != 0 { 0x77073096u32 } else { 0u32 })
        ^ (if y & 2u32 != 0 { 0xEE0E612Cu32 } else { 0u32 })
        ^ (if y & 4u32 != 0 { 0x076DC419u32 } else { 0u32 })
        ^ (if y & 8u32 != 0 { 0x0EDB8832u32 } else { 0u32 })
        ^ (if y & 16u32 != 0 { 0x1DB71064u32 } else { 0u32 })
        ^ (if y & 32u32 != 0 { 0x3B6E20C8u32 } else { 0u32 })
        ^ (if y & 64u32 != 0 { 0x76DC4190u32 } else { 0u32 })
        ^ (if y & 128u32 != 0 { 0xEDB88320u32 } else { 0u32 })
}

/// Law: the CRC8 of this crate is the reference table-driven Dallas/Maxim
/// CRC8: adding byte `b` to the running value `s` gives the table entry at
/// `s ^ b`.
pub proof fn lemma_crc8_table(s: u8, b: u8)
    ensures
        Crc8Maxim.spec_add(s, b) == crc8_table(s ^ b),
{
    reveal_with_fuel(crc8_rounds, 9);
    let r1 = crc8_round(s, b);
    let r2 = crc8_round(r1, b >> 1u8);
    let r3 = crc8_round(r2, b >> 2u8);
    let r4 = crc8_round(r3, b >> 3u8);
    let r5 = crc8_round(r4, b >> 4u8);
    let r6 = crc8_round(r5, b >> 5u8);
    let r7 = crc8_round(r6, b >> 6u8);
    let r8 = crc8_round(r7, b >> 7u8);
    assert(r8 == crc8_table(s ^ b)) by (bit_vector)
        requires
            r1 == crc8_round(s, b),
            r2 == crc8_round(r1, b >> 1u8),
            r3 == crc8_round(r2, b >> 2u8),
            r4 == crc8_round(r3, b >> 3u8),
            r5 == crc8_round(r4, b >> 4u8),
            r6 == crc8_round(r5, b >> 5u8),
            r7 == crc8_round(r6, b >> 6u8),
            r8 == crc8_round(r7, b >> 7u8),
    ;
    assert({
        &&& (b >> 1u8) >> 1u8 == b >> 2u8
        &&& (b >> 2u8) >> 1u8 == b >> 3u8
        &&& (b >> 3u8) >> 1u8 == b >> 4u8
        &&& (b >> 4u8) >> 1u8 == b >> 5u8
        &&& (b >> 5u8) >> 1u8 == b >> 6u8
        &&& (b >> 6u8) >> 1u8 == b >> 7u8
    }) by (bit_vector);
}

/// Law: the CRC16 of this crate is the reference table-driven
/// CRC-16/ARC: adding byte `b` to the running value `s` shifts `s` down by a
/// byte and xors in the table entry at the low byte of `s ^ b`.
pub proof fn lemma_crc16_table(s: u16, b: u8)
    ensures
        Crc16.spec_add(s, b) == (s >> 8u16) ^ crc16_table(s ^ (b as u16)),
{
    reveal_with_fuel(crc16_rounds, 9);
    let x = s ^ (b as u16);
    let r1 = crc16_round(x);
    let r2 = crc16_round(r1);
    let r3 = crc16_round(r2);
    let r4 = crc16_round(r3);
    let r5 = crc16_round(r4);
    let r6 = crc16_round(r5);
    let r7 = crc16_round(r6);
    let r8 = crc16_round(r7);
    assert(r8 == (s >> 8u16) ^ crc16_table(x)) by (bit_vector)
        requires
            x == s ^ (b as u16),
            r1 == crc16_round(x),
            r2 == crc16_round(r1),
            r3 == crc16_round(r2),
            r4 == crc16_round(r3),
            r5 == crc16_round(r4),
            r6 == crc16_round(r5),
            r7 == crc16_round(r6),
            r8 == crc16_round(r7),
    ;
}

/// Law: the CRC32 of this crate is the reference table-driven
/// CRC-32: adding byte `b` to the running value `s` shifts `s` down by a
/// byte and xors in the table entry at the low byte of `s ^ b`.
pub proof fn lemma_crc32_table(s: u32, b: u8)
    ensures
        Crc32.spec_add(s, b) == (s >> 8u32) ^ crc32_table(s ^ (b as u32)),
{
    reveal_with_fuel(crc32_rounds, 9);
    let x = s ^ (b as u32);
    let r1 = crc32_round(x);
    let r2 = crc32_round(r1);
    let r3 = crc32_round(r2);
    let r4 = crc32_round(r3);
    let r5 = crc32_round(r4);
    let r6 = crc32_round(r5);
    let r7 = crc32_round(r6);
    let r8 = crc32_round(r7);
    assert(r8 == (s >> 8u32) ^ crc32_table(x)) by (bit_vector)
        requires
            x == s ^ (b as u32),
            r1 == crc32_round(x),
            r2 == crc32_round(r1),
            r3 == crc32_round(r2),
            r4 == crc32_round(r3),
            r5 == crc32_round(r4),
            r6 == crc32_round(r5),
            r7 == crc32_round(r6),
            r8 == crc32_round(r7),
    ;
}

/// Law: the XOR checksum adds a byte by xor: adding the same byte twice
/// leaves the running value as it was, the order of two bytes does not
/// matter, and a byte's bits land in the same bits of the value.
pub proof fn lemma_xor_checksum_adds_by_xor(s: u8, a: u8, b: u8)
    ensures
        XorChecksum.spec_add(XorChecksum.spec_add(s, b), b) == s,
        XorChecksum.spec_add(XorChecksum.spec_add(s, a), b) == XorChecksum.spec_add(
            XorChecksum.spec_add(s, b),
            a,
        ),
        XorChecksum.spec_add(0, b) == b,
        XorChecksum.spec_finish(s) ^ s == 0xFFu8,
{
    assert({
        &&& (s ^ b) ^ b == s
        &&& (s ^ a) ^ b == (s ^ b) ^ a
        &&& 0u8 ^ b == b
        &&& !s ^ s == 0xFFu8
    }) by (bit_vector);
}

} // verus!
