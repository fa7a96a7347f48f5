//! An identifier taken apart, and its renderings as text and bytes.

use crate::clock::{MAX_TICK, SNOWFLAKE_TIME_UNIT};
use crate::encoding::{be_bytes, base64_text, decimal, digits, encode, encode_base64, encode_radix,
    radix_digits, to_be_bytes, BASE2_DIGITS, DECIMAL_DIGITS, ENCODE_BASE32_MAP, ENCODE_BASE36_MAP,
    ENCODE_BASE58_MAP};
use crate::layout::{lemma_pow2_63, lemma_unpack_fits, shift_mask, Layout, Parts};
use vstd::prelude::*;

verus! {

/// The parts of an identifier, beside the identifier itself.
#[derive(Clone, Copy, Debug, PartialEq, Eq, Structural)]
pub struct DecomposedSnowflake {
    /// The identifier.
    pub id: u64,
    /// Ticks elapsed since the generator's epoch.
    pub time: u64,
    /// Sequence number within the tick.
    pub sequence: u64,
    /// Number of the data center.
    pub data_center_id: u64,
    /// Number of the machine.
    pub machine_id: u64,
}

impl DecomposedSnowflake {
    /// The four fields as numbers.
    pub open spec fn parts(self) -> Parts {
        Parts {
            time: self.time as nat,
            sequence: self.sequence as nat,
            data_center_id: self.data_center_id as nat,
            machine_id: self.machine_id as nat,
        }
    }

    /// Takes an identifier apart by the four widths it was made with.
    pub fn decompose(
        id: u64,
        bit_len_time: u8,
        bit_len_sequence: u8,
        bit_len_data_center_id: u8,
        bit_len_machine_id: u8,
    ) -> (parts: Self)
        requires
            bit_len_time + bit_len_sequence + bit_len_data_center_id + bit_len_machine_id == 63,
        ensures
            parts.id == id,
            parts.parts() == (Layout {
                time: bit_len_time,
                sequence: bit_len_sequence,
                data_center_id: bit_len_data_center_id,
                machine_id: bit_len_machine_id,
            }).unpack(id as nat),
            (parts.time, parts.sequence, parts.data_center_id, parts.machine_id) == shift_mask(
                Layout {
                    time: bit_len_time,
                    sequence: bit_len_sequence,
                    data_center_id: bit_len_data_center_id,
                    machine_id: bit_len_machine_id,
                },
                id,
            ),
            id <= i64::MAX ==> (Layout {
                time: bit_len_time,
                sequence: bit_len_sequence,
                data_center_id: bit_len_data_center_id,
                machine_id: bit_len_machine_id,
            }).fits(parts.parts()),
    {
        let layout = Layout {
            time: bit_len_time,
            sequence: bit_len_sequence,
            data_center_id: bit_len_data_center_id,
            machine_id: bit_len_machine_id,
        };
        proof {
            if id <= i64::MAX {
                lemma_pow2_63();
                lemma_unpack_fits(layout, id as nat);
            }
        }
        let (time, sequence, data_center_id, machine_id) = layout.split(id);
        DecomposedSnowflake { id, time, sequence, data_center_id, machine_id }
    }

    /// The time field in nanoseconds.
    pub fn nanos_time(&self) -> (nanos: i64)
        requires
            self.time <= MAX_TICK,
        ensures
            nanos == self.time * 1_000_000,
    {
        (self.time as i64) * SNOWFLAKE_TIME_UNIT
    }

    /// The identifier as a signed number: the same number wherever the top
    /// bit is zero, as it is in every identifier of a generator.
    pub fn int64(&self) -> (n: i64)
        ensures
            n == self.id as i64,
            self.id <= i64::MAX ==> n == self.id,
    {
        self.id as i64
    }

    /// The identifier in decimal notation.
    pub fn string(&self) -> (text: String)
        ensures
            text@ == encode(self.id as nat, DECIMAL_DIGITS@),
    {
        decimal(self.id)
    }

    /// The identifier in binary notation.
    pub fn base2(&self) -> (text: String)
        ensures
            text@ == encode(self.id as nat, BASE2_DIGITS@),
    {
        proof {
            reveal_strlit("01");
        }
        encode_radix(self.id, BASE2_DIGITS)
    }

    /// The identifier in base-32 notation over `ENCODE_BASE32_MAP`.
    pub fn base32(&self) -> (text: String)
        ensures
            text@ == encode(self.id as nat, ENCODE_BASE32_MAP@),
    {
        proof {
            reveal_strlit("ybndrfg8ejkmcpqxot1uwisza345h769");
        }
        encode_radix(self.id, ENCODE_BASE32_MAP)
    }

    /// The identifier in base-36 notation over `ENCODE_BASE36_MAP`.
    pub fn base36(&self) -> (text: String)
        ensures
            text@ == encode(self.id as nat, ENCODE_BASE36_MAP@),
    {
        proof {
            reveal_strlit("0123456789abcdefghijklmnopqrstuvwxyz");
        }
        encode_radix(self.id, ENCODE_BASE36_MAP)
    }

    /// The identifier in base-58 notation over `ENCODE_BASE58_MAP`.
    pub fn base58(&self) -> (text: String)
        ensures
            text@ == encode(self.id as nat, ENCODE_BASE58_MAP@),
    {
        proof {
            reveal_strlit("123456789abcdefghijkmnopqrstuvwxyzABCDEFGHJKLMNPQRSTUVWXYZ");
        }
        encode_radix(self.id, ENCODE_BASE58_MAP)
    }

    /// The base64 text, in the standard alphabet and padded, of the eight
    /// bytes of the identifier.
    pub fn base64(&self) -> (text: String)
        ensures
            text@ == base64_text(self.id as nat),
    {
        encode_base64(self.id)
    }

    /// The decimal notation of the identifier as bytes: one byte for each
    /// figure, `b'0'` for 0 up to `b'9'` for 9.
    pub fn bytes(&self) -> (bytes: Vec<u8>)
        ensures
            bytes@ == digits(self.id as nat, 10).map_values(|d: nat| (48 + d) as u8),
    {
        let ds = radix_digits(self.id, 10);
        let mut bytes: Vec<u8> = Vec::new();
        let mut i: usize = 0;
        while i < ds.len()
            invariant
                i <= ds.len(),
                forall|k: int| 0 <= k < ds.len() ==> ds[k] < 10,
                bytes@ == ds@.subrange(0, i as int).map_values(|d: u64| (48 + d) as u8),
            decreases ds.len() - i,
        {
            bytes.push(48u8 + ds[i] as u8);
            proof {
                assert(ds@.subrange(0, i + 1) =~= ds@.subrange(0, i as int).push(ds[i as int]));
                assert(bytes@ =~= ds@.subrange(0, i + 1).map_values(|d: u64| (48 + d) as u8));
            }
            i = i + 1;
        }
        proof {
            assert(ds@.subrange(0, i as int) =~= ds@);
            let all = digits(self.id as nat, 10);
            assert(all == ds@.map_values(|d: u64| d as nat));
            assert(bytes@ =~= all.map_values(|d: nat| (48 + d) as u8));
        }
        bytes
    }

    /// The eight bytes of the identifier, the most significant first.
    pub fn int_bytes(&self) -> (bytes: [u8; 8])
        ensures
            bytes@ == be_bytes(self.id),
    {
        to_be_bytes(self.id)
    }

    /// The time field as a signed number.
    pub fn time(&self) -> (t: i64)
        ensures
            t == self.time as i64,
            self.time <= i64::MAX ==> t == self.time,
    {
        self.time as i64
    }
}

/// Takes an identifier apart by the layout it was made with.
pub fn decompose(id: u64, layout: &Layout) -> (parts: DecomposedSnowflake)
    requires
        layout.wf(),
    ensures
        parts.id == id,
        parts.parts() == layout.unpack(id as nat),
        (parts.time, parts.sequence, parts.data_center_id, parts.machine_id) == shift_mask(
            *layout,
            id,
        ),
        id <= i64::MAX ==> layout.fits(parts.parts()),
{
    DecomposedSnowflake::decompose(
        id,
        layout.time,
        layout.sequence,
        layout.data_center_id,
        layout.machine_id,
    )
}

} // verus!
