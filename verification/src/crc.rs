//! Table-driven CRC16 over byte slices: polynomial 0x1021, seed 0, no
//! bit reflection, checksum folded high byte first (the XMODEM
//! arrangement used on the wire).

use vstd::prelude::*;

verus! {

/// One shift of the 16-bit register: shift left, folding in the
/// polynomial whenever the top bit falls out.
pub open spec fn spec_crc16_shift(r: u16) -> u16 {
    if r & 0x8000 != 0 {
        (r << 1) ^ 0x1021
    } else {
        r << 1
    }
}

/// `n` repeated register shifts.
pub open spec fn spec_crc16_shift_n(r: u16, n: nat) -> u16
    decreases n,
{
    if n == 0 {
        r
    } else {
        spec_crc16_shift(spec_crc16_shift_n(r, (n - 1) as nat))
    }
}

/// The table entry for one candidate byte: the byte seeded into the high
/// half of the register and shifted through all eight bit positions.
pub open spec fn spec_crc16_table_entry(b: u8) -> u16 {
    spec_crc16_shift_n((b as u16) << 8, 8)
}

/// Folding one input byte into the running checksum.
pub open spec fn spec_crc16_step(crc: u16, byte: u8) -> u16 {
    (crc << 8) ^ spec_crc16_table_entry((((crc >> 8) as u8) ^ byte) as u8)
}

/// The checksum of `data` continued from the register value `crc`.
pub open spec fn spec_crc16_from(crc: u16, data: Seq<u8>) -> u16
    decreases data.len(),
{
    if data.len() == 0 {
        crc
    } else {
        spec_crc16_from(spec_crc16_step(crc, data[0]), data.skip(1))
    }
}

/// The checksum of `data` from the all-zero seed.
pub open spec fn spec_crc16(data: Seq<u8>) -> u16 {
    spec_crc16_from(0, data)
}

/// Folding distributes over appending one byte at the end.
pub proof fn lemma_crc16_from_push(crc: u16, data: Seq<u8>, byte: u8)
    ensures
        spec_crc16_from(crc, data.push(byte)) == spec_crc16_step(spec_crc16_from(crc, data), byte),
    decreases data.len(),
{
    if data.len() == 0 {
        assert(data.push(byte) =~= seq![byte]);
        assert(spec_crc16_from(crc, seq![byte]) == spec_crc16_from(
            spec_crc16_step(crc, byte),
            seq![byte].skip(1),
        ));
        assert(seq![byte].skip(1) =~= Seq::<u8>::empty());
    } else {
        assert(data.push(byte)[0] == data[0]);
        assert(data.push(byte).skip(1) =~= data.skip(1).push(byte));
        lemma_crc16_from_push(spec_crc16_step(crc, data[0]), data.skip(1), byte);
        assert(spec_crc16_from(crc, data.push(byte)) == spec_crc16_from(
            spec_crc16_step(crc, data[0]),
            data.skip(1).push(byte),
        ));
    }
}

/// The checksum engine: the 256-entry table, built once and never
/// mutated afterwards.
pub struct Crc16 {
    table: Vec<u16>,
}

impl Crc16 {
    /// The table holds the entry for every candidate byte.
    pub closed spec fn wf(&self) -> bool {
        &&& self.table@.len() == 256
        &&& forall|j: int|
            0 <= j < 256 ==> self.table@[j] == spec_crc16_table_entry(j as u8)
    }

    /// Builds the table by direct construction: each candidate byte is
    /// seeded into the high half of a register and shifted eight times.
    pub fn new() -> (r: Self)
        ensures
            r.wf(),
    {
        let mut table: Vec<u16> = Vec::new();
        let mut i: usize = 0;
        while i < 256
            invariant
                i <= 256,
                table@.len() == i,
                forall|j: int| 0 <= j < i ==> table@[j] == spec_crc16_table_entry(j as u8),
            decreases 256 - i,
        {
            let seed: u16 = (i as u16) << 8;
            let mut r: u16 = seed;
            let mut k: usize = 0;
            while k < 8
                invariant
                    k <= 8,
                    r == spec_crc16_shift_n(seed, k as nat),
                decreases 8 - k,
            {
                if r & 0x8000 != 0 {
                    r = (r << 1) ^ 0x1021;
                } else {
                    r = r << 1;
                }
                k = k + 1;
            }
            proof {
                assert((i as u16) == (i as u8) as u16) by (bit_vector)
                    requires
                        i < 256usize,
                ;
            }
            table.push(r);
            i = i + 1;
        }
        Self { table }
    }

    /// Folds each input byte into the running checksum through the table.
    pub fn compute(&self, data: &[u8], initial: u16) -> (r: u16)
        requires
            self.wf(),
        ensures
            r == spec_crc16_from(initial, data@),
    {
        let mut crc: u16 = initial;
        let mut i: usize = 0;
        while i < data.len()
            invariant
                self.wf(),
                i <= data@.len(),
                crc == spec_crc16_from(initial, data@.take(i as int)),
            decreases data@.len() - i,
        {
            let byte: u8 = data[i];
            let hi: u16 = crc >> 8;
            proof {
                assert(hi < 256 && (hi ^ (byte as u16)) < 256 && ((hi ^ (byte as u16)) as u8) == (
                ((hi as u8) ^ byte) as u8)) by (bit_vector)
                    requires
                        hi == crc >> 8,
                ;
            }
            let index: u8 = (hi ^ (byte as u16)) as u8;
            crc = (crc << 8) ^ self.table[index as usize];
            proof {
                lemma_crc16_from_push(initial, data@.take(i as int), byte);
                assert(data@.take(i as int).push(byte) =~= data@.take(i as int + 1));
            }
            i = i + 1;
        }
        proof {
            assert(data@.take(data@.len() as int) =~= data@);
        }
        crc
    }
}

/// The wire checksum of `data`: CRC16 as above from seed 0.
pub fn calculate_crc16(data: &[u8]) -> (r: u16)
    ensures
        r == spec_crc16(data@),
{
    let engine = Crc16::new();
    engine.compute(data, 0)
}

} // verus!
