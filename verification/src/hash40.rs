use vstd::prelude::*;
use vstd::string::StringSliceAdditionalSpecFns;

verus! {

/// 2^32: the weight of the length field inside a hash40 value.
pub open spec fn two_pow_32() -> nat {
    0x1_0000_0000
}

/// A hash40: the byte length of a string in the upper 32 bits and the
/// CRC-32 of its bytes in the lower 32 bits.
#[derive(Debug, Clone, Copy, PartialEq, Eq, Structural, Ord, PartialOrd, Hash)]
pub struct Hash40(pub u64);

/// The 64-bit value that packs a length field and a checksum field.
pub open spec fn pack_fields(len: nat, crc: u32) -> u64 {
    ((len % two_pow_32()) * two_pow_32() + crc) as u64
}

/// The hash40 of a byte sequence: its length (modulo 2^32) above its CRC-32.
pub open spec fn hash40_spec(bytes: Seq<u8>) -> Hash40 {
    Hash40(pack_fields(bytes.len(), crate::crc32::crc32_of(bytes)))
}

impl Hash40 {
    /// The lower 32 bits: the CRC-32 field.
    pub open spec fn crc32_field(self) -> u32 {
        ((self.0 as nat) % two_pow_32()) as u32
    }

    /// The low byte of the upper 32 bits: the length field, truncated to 8 bits.
    pub open spec fn len_field(self) -> u8 {
        (((self.0 as nat) / two_pow_32()) % 0x100) as u8
    }

    /// The raw 64-bit value.
    pub fn as_u64(self) -> (r: u64)
        ensures
            r == self.0,
    {
        self.0
    }

    /// The string length stored in the hash, truncated to a byte.
    pub fn len(self) -> (r: u8)
        ensures
            r == self.len_field(),
    {
        let v = self.0;
        let r = (v >> 32u64) as u8;
        assert(r == ((v / 0x1_0000_0000u64) % 0x100u64) as u8) by (bit_vector)
            requires
                r == (v >> 32u64) as u8,
        ;
        r
    }

    /// The CRC-32 stored in the hash.
    pub fn crc32(self) -> (r: u32)
        ensures
            r == self.crc32_field(),
    {
        let v = self.0;
        let r = v as u32;
        assert(r == (v % 0x1_0000_0000u64) as u32) by (bit_vector)
            requires
                r == v as u32,
        ;
        r
    }
}

impl<'a> From<&'a Hash40> for Hash40 {
    fn from(hash: &'a Hash40) -> (r: Self) {
        *hash
    }
}

impl<'a> vstd::std_specs::convert::FromSpecImpl<&'a Hash40> for Hash40 {
    open spec fn obeys_from_spec() -> bool {
        true
    }

    open spec fn from_spec(hash: &'a Hash40) -> Self {
        *hash
    }
}

impl From<u64> for Hash40 {
    fn from(hash: u64) -> (r: Self) {
        Hash40(hash)
    }
}

impl vstd::std_specs::convert::FromSpecImpl<u64> for Hash40 {
    open spec fn obeys_from_spec() -> bool {
        true
    }

    open spec fn from_spec(hash: u64) -> Self {
        Hash40(hash)
    }
}

impl<'a> From<&'a str> for Hash40 {
    fn from(string: &'a str) -> (r: Self) {
        hash40(string)
    }
}

impl<'a> vstd::std_specs::convert::FromSpecImpl<&'a str> for Hash40 {
    open spec fn obeys_from_spec() -> bool {
        true
    }

    open spec fn from_spec(string: &'a str) -> Self {
        hash40_spec(string.spec_bytes())
    }
}

/// Finds the hash40 of a string: its UTF-8 byte length shifted into the upper
/// 32 bits, plus the CRC-32 of those bytes.
pub fn hash40(string: &str) -> (h: Hash40)
    ensures
        h == hash40_spec(string.spec_bytes()),
{
    let bytes = string.as_bytes();
    let checksum = crc32(bytes);
    let len = bytes.len() as u64;
    let upper = len << 32u64;
    let low = checksum as u64;
    assert(upper == ((len % 0x1_0000_0000u64) * 0x1_0000_0000u64) as u64 && upper % 0x1_0000_0000u64
        == 0 && upper <= 0xffff_ffff_0000_0000u64) by (bit_vector)
        requires
            upper == len << 32u64,
    ;
    Hash40(upper + low)
}

/// A length field and a checksum field pack into one `u64` without loss:
/// the lower 32 bits give back the checksum and the upper 32 bits the length
/// modulo 2^32.
proof fn lemma_pack_fields(len: nat, crc: u32)
    ensures
        pack_fields(len, crc) as nat == (len % two_pow_32()) * two_pow_32() + crc,
        (pack_fields(len, crc) as nat) % two_pow_32() == crc,
        (pack_fields(len, crc) as nat) / two_pow_32() == len % two_pow_32(),
{
    let q = len % two_pow_32();
    assert(q * 0x1_0000_0000 <= 0xffff_ffff * 0x1_0000_0000) by (nonlinear_arith)
        requires
            q < 0x1_0000_0000,
    ;
    vstd::arithmetic::div_mod::lemma_fundamental_div_mod_converse(
        q * two_pow_32() + crc,
        two_pow_32() as int,
        q as int,
        crc as int,
    );
}

/// The two getters read back what `hash40` stored: `crc32` gives the CRC-32
/// of the bytes and `len` gives their length modulo 256.
pub proof fn lemma_hash40_fields(bytes: Seq<u8>)
    ensures
        hash40_spec(bytes).crc32_field() == crate::crc32::crc32_of(bytes),
        hash40_spec(bytes).len_field() == bytes.len() % 0x100,
{
    lemma_pack_fields(bytes.len(), crate::crc32::crc32_of(bytes));
    vstd::arithmetic::div_mod::lemma_mod_mod(bytes.len() as int, 0x100, 0x100_0000);
}

/// Two byte sequences have the same hash40 exactly when their lengths agree
/// modulo 2^32 and their CRC-32 checksums agree.
pub proof fn lemma_hash40_eq_iff(b1: Seq<u8>, b2: Seq<u8>)
    ensures
        hash40_spec(b1) == hash40_spec(b2) <==> (b1.len() % two_pow_32() == b2.len()
            % two_pow_32() && crate::crc32::crc32_of(b1) == crate::crc32::crc32_of(b2)),
{
    lemma_pack_fields(b1.len(), crate::crc32::crc32_of(b1));
    lemma_pack_fields(b2.len(), crate::crc32::crc32_of(b2));
}

/// Every hash40 value is the packing of its two fields: the upper 32 bits
/// above the CRC-32 field, and the length byte is the low byte of the upper
/// half.
pub proof fn lemma_hash40_layout(h: Hash40)
    ensures
        h.0 == pack_fields((h.0 as nat) / two_pow_32(), h.crc32_field()),
        h.len_field() == ((h.0 as nat) / two_pow_32()) % 0x100,
{
    let v = h.0 as nat;
    let q = v / two_pow_32();
    let r = v % two_pow_32();
    vstd::arithmetic::div_mod::lemma_fundamental_div_mod(v as int, two_pow_32() as int);
    assert(q < two_pow_32()) by {
        vstd::arithmetic::div_mod::lemma_div_is_ordered(v as int, 0xffff_ffff_ffff_ffff, two_pow_32() as int);
    }
    lemma_pack_fields(q, h.crc32_field());
}

/// Converting a `u64` into a `Hash40` and reading it back with `as_u64` is
/// the identity, and so is converting a hash's raw value back into a hash.
pub proof fn lemma_u64_round_trip(x: u64, h: Hash40)
    ensures
        <Hash40 as vstd::std_specs::convert::FromSpec<u64>>::from_spec(x).0 == x,
        <Hash40 as vstd::std_specs::convert::FromSpec<u64>>::from_spec(h.0) == h,
{
}

/// The hash40 of the empty string is zero.
pub proof fn lemma_hash40_empty()
    ensures
        hash40_spec(Seq::<u8>::empty()) == Hash40(0),
{
    crate::crc32::lemma_crc32_empty();
}

/// The CRC-32 (IEEE) checksum of a byte slice, the value `crc32fast::hash`
/// documents: the register starts at all ones, each byte is absorbed with
/// eight shifts of the reflected polynomial 0xEDB88320, and the final register
/// is inverted. Proved against `crc32_of` for every slice.
fn crc32(bytes: &[u8]) -> (r: u32)
    ensures
        r == crate::crc32::crc32_of(bytes@),
{
    let mut register: u32 = 0xFFFF_FFFF;
    let mut i: usize = 0;
    while i < bytes.len()
        invariant
            i <= bytes@.len(),
            register == crate::crc32::crc32_register(bytes@.take(i as int)),
        decreases bytes@.len() - i,
    {
        let ghost before = bytes@.take(i as int);
        register = crate::crc32::absorb_byte(register, bytes[i]);
        i = i + 1;
        assert(bytes@.take(i as int).drop_last() =~= before);
    }
    assert(bytes@.take(bytes@.len() as int) =~= bytes@);
    register ^ 0xFFFF_FFFF
}

/// Converting a reference to a hash gives that same hash back.
pub proof fn lemma_from_ref_is_identity(h: Hash40)
    ensures
        <Hash40 as vstd::std_specs::convert::FromSpec<&Hash40>>::from_spec(&h) == h,
        <Hash40 as vstd::std_specs::convert::FromSpec<&Hash40>>::from_spec(&h).0 == h.0,
{
}

/// Converting a string into a `Hash40` gives the hash40 of its UTF-8 bytes:
/// their length (modulo 2^32) above their CRC-32.
pub proof fn lemma_from_str_is_hash40(s: &str)
    ensures
        <Hash40 as vstd::std_specs::convert::FromSpec<&str>>::from_spec(s).crc32_field()
            == crate::crc32::crc32_of(s.spec_bytes()),
        <Hash40 as vstd::std_specs::convert::FromSpec<&str>>::from_spec(s).0 as nat
            == (s.spec_bytes().len() % two_pow_32()) * two_pow_32() + crate::crc32::crc32_of(
            s.spec_bytes(),
        ),
{
    lemma_pack_fields(s.spec_bytes().len(), crate::crc32::crc32_of(s.spec_bytes()));
}

} // verus!
