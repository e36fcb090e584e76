//! The CRC-64-WE hash that DSDL uses for data type signatures.

use vstd::prelude::*;

verus! {

/// Every bit set.
pub const CRC_MASK: u64 = 0xFFFF_FFFF_FFFF_FFFFu64;

/// The generator polynomial of CRC-64-WE.
pub const CRC_POLY: u64 = 0x42F0_E1EB_A9EA_3693u64;

/// One shift of the register, feeding the polynomial back in when the top bit falls out.
pub open spec fn crc_bit_step(c: u64) -> u64 {
    if c & 0x8000_0000_0000_0000u64 != 0 {
        ((c << 1u64) & CRC_MASK) ^ CRC_POLY
    } else {
        c << 1u64
    }
}

/// `k` shifts of the register.
pub open spec fn crc_shift(c: u64, k: nat) -> u64
    decreases k,
{
    if k == 0 {
        c
    } else {
        crc_bit_step(crc_shift(c, (k - 1) as nat))
    }
}

/// The register after one byte has been fed to it.
pub open spec fn crc_byte_step(c: u64, b: u8) -> u64 {
    crc_shift(c ^ (((b as u64) << 56u64) & CRC_MASK), 8)
}

/// The register after the bytes have been fed to it, first byte first.
pub open spec fn crc_fold(c: u64, bytes: Seq<u8>) -> u64
    decreases bytes.len(),
{
    if bytes.len() == 0 {
        c
    } else {
        crc_byte_step(crc_fold(c, bytes.drop_last()), bytes.last())
    }
}

/// The value that a register reports.
pub open spec fn crc_output(reg: u64) -> u64 {
    reg ^ CRC_MASK
}

/// The eight bytes of `v`, least significant first.
pub open spec fn le_bytes(v: u64) -> Seq<u8> {
    Seq::new(8, |i: int| (v >> (8 * i) as u64) as u8)
}

/// The CRC-64-WE of `bytes`, as the DSDL specification computes it.
pub open spec fn crc64we(bytes: Seq<u8>) -> u64 {
    crc_output(crc_fold(CRC_MASK, bytes))
}

/// Feeding two byte strings one after the other is feeding their concatenation.
pub proof fn lemma_crc_fold_concat(c: u64, a: Seq<u8>, b: Seq<u8>)
    ensures
        crc_fold(crc_fold(c, a), b) == crc_fold(c, a + b),
    decreases b.len(),
{
    if b.len() == 0 {
        assert(a + b =~= a);
    } else {
        lemma_crc_fold_concat(c, a, b.drop_last());
        assert((a + b).drop_last() =~= a + b.drop_last());
        assert((a + b).last() == b.last());
    }
}

/// A CRC-64-WE hasher.
#[derive(Copy, Clone, Debug, PartialEq, Eq, Structural)]
pub struct CRC64WE(u64);

impl View for CRC64WE {
    type V = u64;

    /// The register.
    closed spec fn view(&self) -> u64 {
        self.0
    }
}

impl CRC64WE {
    /// A hasher that has been fed nothing.
    pub fn new() -> (crc: CRC64WE)
        ensures
            crc@ == CRC_MASK,
    {
        CRC64WE(CRC_MASK)
    }

    /// A hasher that reports `value` before anything more is fed to it.
    pub fn from_value(value: u64) -> (crc: CRC64WE)
        ensures
            crc@ == value ^ CRC_MASK,
            crc_output(crc@) == value,
    {
        let reg = (value & CRC_MASK) ^ CRC_MASK;
        assert((value & CRC_MASK) ^ CRC_MASK == value ^ CRC_MASK) by (bit_vector);
        assert((value ^ CRC_MASK) ^ CRC_MASK == value) by (bit_vector);
        CRC64WE(reg)
    }

    /// Feeds `bytes` to the hasher, first byte first.
    pub fn add(&mut self, bytes: &[u8])
        ensures
            final(self)@ == crc_fold(old(self)@, bytes@),
    {
        let ghost start = self@;
        let mut crc: u64 = self.0;
        let mut i: usize = 0;
        while i < bytes.len()
            invariant
                0 <= i <= bytes.len(),
                crc == crc_fold(start, bytes@.take(i as int)),
            decreases bytes.len() - i,
        {
            let byte: u8 = bytes[i];
            let ghost before = crc;
            crc = crc ^ (((byte as u64) << 56u64) & CRC_MASK);
            let ghost fed = crc;
            let mut bit: u32 = 0;
            while bit < 8
                invariant
                    0 <= bit <= 8,
                    crc == crc_shift(fed, bit as nat),
                decreases 8 - bit,
            {
                if (crc & (1u64 << 63u64)) != 0 {
                    crc = ((crc << 1u64) & CRC_MASK) ^ CRC_POLY;
                } else {
                    crc = crc << 1u64;
                }
                assert(1u64 << 63u64 == 0x8000_0000_0000_0000u64) by (bit_vector);
                bit = bit + 1;
            }
            assert(crc == crc_byte_step(before, byte));
            assert(bytes@.take(i + 1).drop_last() =~= bytes@.take(i as int));
            i = i + 1;
        }
        assert(bytes@.take(bytes.len() as int) =~= bytes@);
        self.0 = crc;
    }

    /// Extends the hash with a signature, as the DSDL specification describes:
    /// the eight bytes of `signature`, then the eight bytes of the value reported
    /// before, each least significant byte first.
    pub fn extend(&mut self, signature: u64)
        ensures
            final(self)@ == crc_fold(
                old(self)@,
                le_bytes(signature) + le_bytes(crc_output(old(self)@)),
            ),
    {
        let prior_value: u64 = self.value();
        let ghost start = self@;
        let mut byte: u64 = 0;
        while byte < 8
            invariant
                0 <= byte <= 8,
                self@ == crc_fold(start, le_bytes(signature).take(byte as int)),
            decreases 8 - byte,
        {
            let b: u8 = (signature >> (8 * byte)) as u8;
            let piece: [u8; 1] = [b];
            let ghost prev = self@;
            self.add(&piece);
            proof {
                assert(piece@ =~= seq![b]);
                lemma_crc_fold_concat(start, le_bytes(signature).take(byte as int), seq![b]);
                assert(le_bytes(signature).take(byte as int) + seq![b] =~= le_bytes(signature).take(
                    byte + 1,
                ));
            }
            byte = byte + 1;
        }
        let ghost mid = self@;
        assert(le_bytes(signature).take(8) =~= le_bytes(signature));
        let mut byte: u64 = 0;
        while byte < 8
            invariant
                0 <= byte <= 8,
                self@ == crc_fold(mid, le_bytes(prior_value).take(byte as int)),
            decreases 8 - byte,
        {
            let b: u8 = (prior_value >> (8 * byte)) as u8;
            let piece: [u8; 1] = [b];
            self.add(&piece);
            proof {
                assert(piece@ =~= seq![b]);
                lemma_crc_fold_concat(mid, le_bytes(prior_value).take(byte as int), seq![b]);
                assert(le_bytes(prior_value).take(byte as int) + seq![b]
                    =~= le_bytes(prior_value).take(byte + 1));
            }
            byte = byte + 1;
        }
        proof {
            assert(le_bytes(prior_value).take(8) =~= le_bytes(prior_value));
            lemma_crc_fold_concat(start, le_bytes(signature), le_bytes(prior_value));
        }
    }

    /// The value of the hash so far.
    pub fn value(&self) -> (v: u64)
        ensures
            v == crc_output(self@),
    {
        let x = self.0;
        assert((x & CRC_MASK) ^ CRC_MASK == x ^ CRC_MASK) by (bit_vector);
        (self.0 & CRC_MASK) ^ CRC_MASK
    }
}

/// A hasher that has been fed nothing reports zero.
pub proof fn law_new_reports_zero()
    ensures
        crc_output(CRC_MASK) == 0,
{
    assert(CRC_MASK ^ CRC_MASK == 0) by (bit_vector);
}

/// Hashing a byte string in two pieces, one `add` after the other, gives the hash of
/// the whole string.
pub proof fn law_add_split(c: u64, a: Seq<u8>, b: Seq<u8>)
    ensures
        crc_fold(crc_fold(c, a), b) == crc_fold(c, a + b),
{
    lemma_crc_fold_concat(c, a, b);
}

/// What `from_value` makes reports the value it was given.
pub proof fn law_from_value_roundtrip(v: u64)
    ensures
        crc_output(v ^ CRC_MASK) == v,
{
    assert((v ^ CRC_MASK) ^ CRC_MASK == v) by (bit_vector);
}

} // verus!
