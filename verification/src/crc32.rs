use vstd::prelude::*;

verus! {

/// The reversed CRC-32 (IEEE 802.3) polynomial.
pub open spec fn crc32_poly() -> u32 {
    0xEDB8_8320
}

/// One step of the reflected CRC-32 shift register.
pub open spec fn crc32_shift(c: u32) -> u32 {
    if c & 1 == 1 {
        (c >> 1u32) ^ crc32_poly()
    } else {
        c >> 1u32
    }
}

/// The register after one more byte: the byte is xored in and the register
/// is shifted eight times.
pub open spec fn crc32_absorb(c: u32, b: u8) -> u32 {
    crc32_shift(
        crc32_shift(
            crc32_shift(
                crc32_shift(crc32_shift(crc32_shift(crc32_shift(crc32_shift(c ^ (b as u32)))))),
            ),
        ),
    )
}

/// The register after a whole byte sequence, starting from all ones.
pub open spec fn crc32_register(bytes: Seq<u8>) -> u32
    decreases bytes.len(),
{
    if bytes.len() == 0 {
        0xFFFF_FFFF
    } else {
        crc32_absorb(crc32_register(bytes.drop_last()), bytes.last())
    }
}

/// The CRC-32 (IEEE) checksum of a byte sequence: the final register with
/// all bits inverted.
pub open spec fn crc32_of(bytes: Seq<u8>) -> u32 {
    crc32_register(bytes) ^ 0xFFFF_FFFF
}

/// The bytewise xor of three byte sequences of one length.
pub open spec fn xor3_bytes(a: Seq<u8>, b: Seq<u8>, c: Seq<u8>) -> Seq<u8> {
    Seq::new(a.len(), |i: int| a[i] ^ b[i] ^ c[i])
}

proof fn lemma_shift_xor(x: u32, y: u32, z: u32)
    by (bit_vector)
    ensures
        crc32_shift(x ^ y ^ z) == crc32_shift(x) ^ crc32_shift(y) ^ crc32_shift(z),
{
}

proof fn lemma_absorb_xor(c1: u32, c2: u32, c3: u32, b1: u8, b2: u8, b3: u8)
    ensures
        crc32_absorb(c1 ^ c2 ^ c3, b1 ^ b2 ^ b3) == crc32_absorb(c1, b1) ^ crc32_absorb(c2, b2)
            ^ crc32_absorb(c3, b3),
{
    let x1 = c1 ^ (b1 as u32);
    let x2 = c2 ^ (b2 as u32);
    let x3 = c3 ^ (b3 as u32);
    assert((c1 ^ c2 ^ c3) ^ ((b1 ^ b2 ^ b3) as u32) == x1 ^ x2 ^ x3) by (bit_vector)
        requires
            x1 == c1 ^ (b1 as u32),
            x2 == c2 ^ (b2 as u32),
            x3 == c3 ^ (b3 as u32),
    ;
    lemma_shift_xor(x1, x2, x3);
    let (p1, p2, p3) = (crc32_shift(x1), crc32_shift(x2), crc32_shift(x3));
    lemma_shift_xor(p1, p2, p3);
    let (q1, q2, q3) = (crc32_shift(p1), crc32_shift(p2), crc32_shift(p3));
    lemma_shift_xor(q1, q2, q3);
    let (r1, r2, r3) = (crc32_shift(q1), crc32_shift(q2), crc32_shift(q3));
    lemma_shift_xor(r1, r2, r3);
    let (s1, s2, s3) = (crc32_shift(r1), crc32_shift(r2), crc32_shift(r3));
    lemma_shift_xor(s1, s2, s3);
    let (t1, t2, t3) = (crc32_shift(s1), crc32_shift(s2), crc32_shift(s3));
    lemma_shift_xor(t1, t2, t3);
    let (u1, u2, u3) = (crc32_shift(t1), crc32_shift(t2), crc32_shift(t3));
    lemma_shift_xor(u1, u2, u3);
    let (v1, v2, v3) = (crc32_shift(u1), crc32_shift(u2), crc32_shift(u3));
    lemma_shift_xor(v1, v2, v3);
}

proof fn lemma_register_xor(a: Seq<u8>, b: Seq<u8>, c: Seq<u8>)
    requires
        a.len() == b.len(),
        b.len() == c.len(),
    ensures
        crc32_register(xor3_bytes(a, b, c)) == crc32_register(a) ^ crc32_register(b)
            ^ crc32_register(c),
    decreases a.len(),
{
    let x = xor3_bytes(a, b, c);
    if a.len() == 0 {
        assert(0xFFFF_FFFFu32 == 0xFFFF_FFFFu32 ^ 0xFFFF_FFFFu32 ^ 0xFFFF_FFFFu32) by (bit_vector);
    } else {
        assert(x.drop_last() =~= xor3_bytes(a.drop_last(), b.drop_last(), c.drop_last()));
        lemma_register_xor(a.drop_last(), b.drop_last(), c.drop_last());
        lemma_absorb_xor(
            crc32_register(a.drop_last()),
            crc32_register(b.drop_last()),
            crc32_register(c.drop_last()),
            a.last(),
            b.last(),
            c.last(),
        );
    }
}

/// CRC-32 is affine over xor: for three byte sequences of one length, the
/// checksum of their bytewise xor is the xor of their checksums.
pub proof fn lemma_crc32_xor(a: Seq<u8>, b: Seq<u8>, c: Seq<u8>)
    requires
        a.len() == b.len(),
        b.len() == c.len(),
    ensures
        crc32_of(xor3_bytes(a, b, c)) == crc32_of(a) ^ crc32_of(b) ^ crc32_of(c),
{
    lemma_register_xor(a, b, c);
    let (ra, rb, rc) = (crc32_register(a), crc32_register(b), crc32_register(c));
    assert((ra ^ rb ^ rc) ^ 0xFFFF_FFFFu32 == (ra ^ 0xFFFF_FFFFu32) ^ (rb ^ 0xFFFF_FFFFu32) ^ (rc
        ^ 0xFFFF_FFFFu32)) by (bit_vector);
}

/// The checksum of no bytes is zero.
pub proof fn lemma_crc32_empty()
    ensures
        crc32_of(Seq::<u8>::empty()) == 0,
{
    assert(0xFFFF_FFFFu32 ^ 0xFFFF_FFFFu32 == 0u32) by (bit_vector);
}

/// The catalogue check value of CRC-32 (IEEE): the checksum of the ASCII
/// digits "123456789" is 0xCBF43926.
pub proof fn lemma_crc32_check_value()
    ensures
        crc32_of(seq![0x31u8, 0x32, 0x33, 0x34, 0x35, 0x36, 0x37, 0x38, 0x39]) == 0xCBF4_3926,
{
    let s = seq![0x31u8, 0x32, 0x33, 0x34, 0x35, 0x36, 0x37, 0x38, 0x39];
    assert(crc32_absorb(0xFFFF_FFFF, 0x31) == 0x7c23_1048) by (bit_vector);
    assert(crc32_absorb(0x7c23_1048, 0x32) == 0xb0ac_bb32) by (bit_vector);
    assert(crc32_absorb(0xb0ac_bb32, 0x33) == 0x77b7_9c2d) by (bit_vector);
    assert(crc32_absorb(0x77b7_9c2d, 0x34) == 0x641c_1f5c) by (bit_vector);
    assert(crc32_absorb(0x641c_1f5c, 0x35) == 0x340a_c5e3) by (bit_vector);
    assert(crc32_absorb(0x340a_c5e3, 0x36) == 0xf68d_2c9e) by (bit_vector);
    assert(crc32_absorb(0xf68d_2c9e, 0x37) == 0xaffc_9660) by (bit_vector);
    assert(crc32_absorb(0xaffc_9660, 0x38) == 0x651f_2550) by (bit_vector);
    assert(crc32_absorb(0x651f_2550, 0x39) == 0x340b_c6d9) by (bit_vector);
    assert(0x340b_c6d9u32 ^ 0xFFFF_FFFFu32 == 0xCBF4_3926u32) by (bit_vector);
    assert(crc32_register(s.take(0)) == 0xFFFF_FFFF);
    assert(s.take(1).drop_last() =~= s.take(0));
    assert(crc32_register(s.take(1)) == 0x7c23_1048);
    assert(s.take(2).drop_last() =~= s.take(1));
    assert(crc32_register(s.take(2)) == 0xb0ac_bb32);
    assert(s.take(3).drop_last() =~= s.take(2));
    assert(crc32_register(s.take(3)) == 0x77b7_9c2d);
    assert(s.take(4).drop_last() =~= s.take(3));
    assert(crc32_register(s.take(4)) == 0x641c_1f5c);
    assert(s.take(5).drop_last() =~= s.take(4));
    assert(crc32_register(s.take(5)) == 0x340a_c5e3);
    assert(s.take(6).drop_last() =~= s.take(5));
    assert(crc32_register(s.take(6)) == 0xf68d_2c9e);
    assert(s.take(7).drop_last() =~= s.take(6));
    assert(crc32_register(s.take(7)) == 0xaffc_9660);
    assert(s.take(8).drop_last() =~= s.take(7));
    assert(crc32_register(s.take(8)) == 0x651f_2550);
    assert(s.take(9).drop_last() =~= s.take(8));
    assert(s.take(9) =~= s);
    assert(crc32_register(s) == 0x340b_c6d9);
}

/// One step of the shift register.
fn shift_register(c: u32) -> (r: u32)
    ensures
        r == crc32_shift(c),
{
    if c & 1 == 1 {
        (c >> 1u32) ^ 0xEDB8_8320
    } else {
        c >> 1u32
    }
}

/// The register after one more byte.
pub(crate) fn absorb_byte(c: u32, b: u8) -> (r: u32)
    ensures
        r == crc32_absorb(c, b),
{
    let mut x = c ^ (b as u32);
    x = shift_register(x);
    x = shift_register(x);
    x = shift_register(x);
    x = shift_register(x);
    x = shift_register(x);
    x = shift_register(x);
    x = shift_register(x);
    shift_register(x)
}

} // verus!
