//! The bit layout of an identifier and the arithmetic of packing fields into
//! one and taking them out again.

use crate::error::Error;
use vstd::prelude::*;
use vstd::arithmetic::div_mod::{lemma_div_denominator, lemma_fundamental_div_mod,
    lemma_fundamental_div_mod_converse};
use vstd::arithmetic::mul::{lemma_mul_inequality, lemma_mul_is_commutative,
    lemma_mul_is_distributive_add_other_way};
use vstd::arithmetic::power2::{lemma_pow2_adds, lemma_pow2_pos, pow2};
use vstd::bits::{lemma_u64_low_bits_mask_is_mod, lemma_u64_pow2_no_overflow,
    lemma_u64_shl_is_mul, lemma_u64_shr_is_div, low_bits_mask};

verus! {

/// The widths, in bits, of the four fields of an identifier.
#[derive(Clone, Copy, Debug, PartialEq, Eq, Structural)]
pub struct Layout {
    /// Width of the elapsed-time field, the highest one.
    pub time: u8,
    /// Width of the sequence field.
    pub sequence: u8,
    /// Width of the data-center field. Zero leaves the field out.
    pub data_center_id: u8,
    /// Width of the machine field, the lowest one.
    pub machine_id: u8,
}

/// The four fields of an identifier as numbers.
pub struct Parts {
    /// Ticks elapsed since the generator's epoch.
    pub time: nat,
    /// Sequence number within the tick.
    pub sequence: nat,
    /// Number of the data center.
    pub data_center_id: nat,
    /// Number of the machine.
    pub machine_id: nat,
}

impl Layout {
    /// A layout is valid when its four widths add up to 63.
    pub open spec fn wf(self) -> bool {
        self.time + self.sequence + self.data_center_id + self.machine_id == 63
    }

    /// Number of bits below the data-center field.
    pub open spec fn data_center_shift(self) -> nat {
        self.machine_id as nat
    }

    /// Number of bits below the sequence field.
    pub open spec fn sequence_shift(self) -> nat {
        (self.data_center_id + self.machine_id) as nat
    }

    /// Number of bits below the time field.
    pub open spec fn time_shift(self) -> nat {
        (self.sequence + self.data_center_id + self.machine_id) as nat
    }

    /// Every field of `p` is below two to the power of its width.
    pub open spec fn fits(self, p: Parts) -> bool {
        &&& p.time < pow2(self.time as nat)
        &&& p.sequence < pow2(self.sequence as nat)
        &&& p.data_center_id < pow2(self.data_center_id as nat)
        &&& p.machine_id < pow2(self.machine_id as nat)
    }

    /// The identifier that holds the fields `p`: each field moved up by the
    /// widths of the fields below it.
    pub open spec fn pack(self, p: Parts) -> nat {
        p.time * pow2(self.time_shift()) + p.sequence * pow2(self.sequence_shift())
            + p.data_center_id * pow2(self.data_center_shift()) + p.machine_id
    }

    /// The fields that the identifier `id` holds.
    pub open spec fn unpack(self, id: nat) -> Parts {
        Parts {
            time: id / pow2(self.time_shift()),
            sequence: (id / pow2(self.sequence_shift())) % pow2(self.sequence as nat),
            data_center_id: (id / pow2(self.data_center_shift())) % pow2(
                self.data_center_id as nat,
            ),
            machine_id: id % pow2(self.machine_id as nat),
        }
    }
}

impl Layout {
    /// Checks four widths and makes a layout of them: widths that add up to
    /// 63 give the layout, any others the error that names them.
    pub fn new(time: u8, sequence: u8, data_center_id: u8, machine_id: u8) -> (r: Result<
        Layout,
        Error,
    >)
        ensures
            time + sequence + data_center_id + machine_id == 63 ==> r == Ok::<Layout, Error>(
                Layout { time, sequence, data_center_id, machine_id },
            ),
            time + sequence + data_center_id + machine_id != 63 ==> r == Err::<Layout, Error>(
                Error::InvalidBitLength(time, sequence, data_center_id, machine_id),
            ),
            r matches Ok(layout) ==> layout.wf(),
    {
        let sum: u16 = time as u16 + sequence as u16 + data_center_id as u16 + machine_id as u16;
        if sum == 63 {
            Ok(Layout { time, sequence, data_center_id, machine_id })
        } else {
            Err(Error::InvalidBitLength(time, sequence, data_center_id, machine_id))
        }
    }

    /// Packs four fields, each within its width, into an identifier. Taken
    /// apart by the same layout, the identifier gives the four fields back.
    pub fn compose(&self, time: u64, sequence: u64, data_center_id: u64, machine_id: u64) -> (id:
        u64)
        requires
            self.wf(),
            self.fits(
                Parts {
                    time: time as nat,
                    sequence: sequence as nat,
                    data_center_id: data_center_id as nat,
                    machine_id: machine_id as nat,
                },
            ),
        ensures
            id == self.pack(
                Parts {
                    time: time as nat,
                    sequence: sequence as nat,
                    data_center_id: data_center_id as nat,
                    machine_id: machine_id as nat,
                },
            ),
            id == shift_or(*self, time, sequence, data_center_id, machine_id),
            id <= i64::MAX,
            self.unpack(id as nat) == (Parts {
                time: time as nat,
                sequence: sequence as nat,
                data_center_id: data_center_id as nat,
                machine_id: machine_id as nat,
            }),
    {
        let data_center_shift: u64 = self.machine_id as u64;
        let sequence_shift: u64 = data_center_shift + self.data_center_id as u64;
        let time_shift: u64 = sequence_shift + self.sequence as u64;
        proof {
            let p = Parts {
                time: time as nat,
                sequence: sequence as nat,
                data_center_id: data_center_id as nat,
                machine_id: machine_id as nat,
            };
            lemma_pack_bound(*self, p);
            lemma_unpack_pack(*self, p);
            lemma_pack_is_shift_or(*self, time, sequence, data_center_id, machine_id);
        }
        (time << time_shift) | (sequence << sequence_shift) | (data_center_id << data_center_shift)
            | machine_id
    }

    /// Takes the four fields out of an identifier: time, sequence, data
    /// center and machine, in this order.
    pub fn split(&self, id: u64) -> (r: (u64, u64, u64, u64))
        requires
            self.wf(),
        ensures
            r.0 == self.unpack(id as nat).time,
            r.1 == self.unpack(id as nat).sequence,
            r.2 == self.unpack(id as nat).data_center_id,
            r.3 == self.unpack(id as nat).machine_id,
            r == shift_mask(*self, id),
    {
        let data_center_shift = self.machine_id;
        let sequence_shift = self.data_center_id + self.machine_id;
        let time_shift = self.sequence + self.data_center_id + self.machine_id;
        proof {
            lemma_pow2_pos(self.sequence as nat);
            lemma_pow2_pos(self.data_center_id as nat);
            lemma_pow2_pos(self.machine_id as nat);
            vstd::arithmetic::power2::lemma2_to64();
            lemma_u64_shr_is_div(id, time_shift as u64);
            lemma_unpack_is_shift_mask(*self, id);
        }
        (
            id >> (time_shift as u64),
            field(id, sequence_shift, self.sequence),
            field(id, data_center_shift, self.data_center_id),
            field(id, 0, self.machine_id),
        )
    }
}

/// The number whose low `width` bits are set and no others.
pub fn low_mask(width: u8) -> (mask: u64)
    requires
        width < 64,
    ensures
        mask == pow2(width as nat) - 1,
{
    proof {
        lemma_mask(width as u64);
    }
    (1u64 << (width as u64)) - 1
}

/// The field of `width` bits that stands `shift` bits up in `id`.
pub fn field(id: u64, shift: u8, width: u8) -> (r: u64)
    requires
        shift < 64,
        width < 64,
    ensures
        r == (id as nat / pow2(shift as nat)) % pow2(width as nat),
{
    let mask = low_mask(width);
    proof {
        lemma_u64_pow2_no_overflow(width as nat);
        lemma_u64_shr_is_div(id, shift as u64);
        lemma_u64_low_bits_mask_is_mod(id >> (shift as u64), width as nat);
    }
    (id >> (shift as u64)) & mask
}

/// Where the low operand stays below the bits that the shift clears, "or"
/// adds.
proof fn lemma_or_is_add(high: u64, low: u64, k: u64)
    by (bit_vector)
    requires
        k < 64,
        low < (1u64 << k),
        high <= (0xffff_ffff_ffff_ffffu64 >> k),
    ensures
        (high << k) | low == (high << k) + low,
{
}

/// A sum of two terms, times a unit: `(x * a + y) * b` is `x * (a * b) + y * b`.
proof fn lemma_nest(x: nat, y: nat, a: nat, b: nat, ab: nat)
    by (nonlinear_arith)
    requires
        ab == a * b,
    ensures
        (x * a + y) * b == x * ab + y * b,
{
}

/// A number times a positive number is no less than the number.
proof fn lemma_scale_up(x: nat, k: nat)
    by (nonlinear_arith)
    requires
        k > 0,
    ensures
        x <= x * k,
{
}

/// The bits above a field of width `width` and the field itself, set side by
/// side: dividing by two to the `width` gives back `high`, the remainder `low`.
pub proof fn lemma_join(high: nat, low: nat, width: nat)
    requires
        low < pow2(width),
    ensures
        (high * pow2(width) + low) / pow2(width) == high,
        (high * pow2(width) + low) % pow2(width) == low,
{
    lemma_pow2_pos(width);
    lemma_fundamental_div_mod_converse(
        (high * pow2(width) + low) as int,
        pow2(width) as int,
        high as int,
        low as int,
    );
}

/// A value below two to the `a`, set above a field of width `b`, stays below
/// two to the `a + b`.
pub proof fn lemma_join_bound(high: nat, low: nat, a: nat, b: nat)
    requires
        high < pow2(a),
        low < pow2(b),
    ensures
        high * pow2(b) + low < pow2(a + b),
{
    lemma_pow2_adds(a, b);
    lemma_pow2_pos(b);
    assert(high * pow2(b) + low < pow2(a) * pow2(b)) by (nonlinear_arith)
        requires
            high < pow2(a),
            low < pow2(b),
    ;
}

/// Taking apart undoes putting together: the fields that went into an
/// identifier are the fields that come out of it, whatever the widths.
pub proof fn lemma_unpack_pack(layout: Layout, p: Parts)
    requires
        layout.fits(p),
    ensures
        layout.unpack(layout.pack(p)) == p,
{
    let s = layout.sequence as nat;
    let d = layout.data_center_id as nat;
    let m = layout.machine_id as nat;
    let id = layout.pack(p);
    let low2 = p.data_center_id * pow2(m) + p.machine_id;
    let low1 = p.sequence * pow2(d + m) + low2;
    let high1 = p.time * pow2(s) + p.sequence;
    let high2 = high1 * pow2(d) + p.data_center_id;
    lemma_pow2_adds(d, m);
    lemma_pow2_adds(s, d + m);
    lemma_join_bound(p.data_center_id, p.machine_id, d, m);
    lemma_join_bound(p.sequence, low2, s, d + m);
    assert(id == p.time * pow2(s + d + m) + low1);
    lemma_nest(p.time, p.sequence, pow2(s), pow2(d + m), pow2(s + d + m));
    assert(id == high1 * pow2(d + m) + low2);
    lemma_nest(high1, p.data_center_id, pow2(d), pow2(m), pow2(d + m));
    assert(id == high2 * pow2(m) + p.machine_id);
    lemma_join(p.time, low1, s + d + m);
    lemma_join(high1, low2, d + m);
    lemma_join(p.time, p.sequence, s);
    lemma_join(high2, p.machine_id, m);
    lemma_join(high1, p.data_center_id, d);
}

/// An identifier of a valid layout fits in 63 bits: its top bit is zero.
pub proof fn lemma_pack_bound(layout: Layout, p: Parts)
    requires
        layout.wf(),
        layout.fits(p),
    ensures
        layout.pack(p) < pow2(63),
        layout.pack(p) <= i64::MAX,
{
    let t = layout.time as nat;
    let s = layout.sequence as nat;
    let d = layout.data_center_id as nat;
    let m = layout.machine_id as nat;
    let low2 = p.data_center_id * pow2(m) + p.machine_id;
    let low1 = p.sequence * pow2(d + m) + low2;
    lemma_join_bound(p.data_center_id, p.machine_id, d, m);
    lemma_join_bound(p.sequence, low2, s, d + m);
    lemma_join_bound(p.time, low1, t, s + d + m);
    lemma_pow2_63();
}

/// Putting together undoes taking apart: an identifier is the one that its
/// own fields give.
pub proof fn lemma_pack_unpack(layout: Layout, id: nat)
    ensures
        layout.pack(layout.unpack(id)) == id,
{
    let s = layout.sequence as nat;
    let d = layout.data_center_id as nat;
    let m = layout.machine_id as nat;
    let q1 = id / pow2(m);
    let q2 = id / pow2(d + m);
    let q3 = id / pow2(s + d + m);
    lemma_pow2_pos(m);
    lemma_pow2_pos(d);
    lemma_pow2_pos(s);
    lemma_pow2_adds(d, m);
    lemma_pow2_adds(s, d + m);
    lemma_div_denominator(id as int, pow2(m) as int, pow2(d) as int);
    lemma_div_denominator(id as int, pow2(d + m) as int, pow2(s) as int);
    let (r1, r2, r3) = (id % pow2(m), q1 % pow2(d), q2 % pow2(s));
    let (pm, pd, ps, pdm, psdm) = (pow2(m), pow2(d), pow2(s), pow2(d + m), pow2(s + d + m));
    lemma_mul_is_commutative(pm as int, pd as int);
    lemma_mul_is_commutative(pdm as int, ps as int);
    lemma_fundamental_div_mod(id as int, pm as int);
    lemma_fundamental_div_mod(q1 as int, pd as int);
    lemma_fundamental_div_mod(q2 as int, ps as int);
    assert(q1 / pd == q2);
    assert(q2 / ps == q3);
    lemma_mul_is_commutative(pm as int, q1 as int);
    lemma_mul_is_commutative(pd as int, q2 as int);
    lemma_mul_is_commutative(ps as int, q3 as int);
    lemma_nest(q3, r3, ps, pdm, psdm);
    lemma_nest(q2, r2, pd, pm, pdm);
    assert(q3 * psdm + r3 * pdm + r2 * pm + r1 == id);
}

/// The fields of a number of 63 bits fit the widths of a valid layout, so
/// every such number is the identifier of its own fields and of no others.
pub proof fn lemma_unpack_fits(layout: Layout, id: nat)
    requires
        layout.wf(),
        id < pow2(63),
    ensures
        layout.fits(layout.unpack(id)),
{
    let t = layout.time as nat;
    let s = layout.sequence as nat;
    let d = layout.data_center_id as nat;
    let m = layout.machine_id as nat;
    let q = id / pow2(s + d + m);
    let unit = pow2(s + d + m);
    let limit = pow2(t);
    lemma_pow2_pos(s);
    lemma_pow2_pos(d);
    lemma_pow2_pos(m);
    lemma_pow2_pos(s + d + m);
    lemma_pow2_adds(t, s + d + m);
    lemma_fundamental_div_mod(id as int, unit as int);
    assert(q < limit) by (nonlinear_arith)
        requires
            id == unit * q + id % unit,
            0 <= id % unit,
            id < limit * unit,
            unit > 0,
    ;
}

/// Identifiers are ordered as their fields are, the higher field first: of
/// two sets of fields with the same data center and machine, the one with
/// the lower time, or the same time and the lower sequence, gives the lower
/// identifier.
pub proof fn lemma_pack_order(layout: Layout, p: Parts, q: Parts)
    requires
        layout.fits(p),
        layout.fits(q),
        p.data_center_id == q.data_center_id,
        p.machine_id == q.machine_id,
        p.time < q.time || (p.time == q.time && p.sequence < q.sequence),
    ensures
        layout.pack(p) < layout.pack(q),
{
    let s = layout.sequence as nat;
    let d = layout.data_center_id as nat;
    let m = layout.machine_id as nat;
    let low = p.data_center_id * pow2(m) + p.machine_id;
    let (ps, pdm, psdm) = (pow2(s), pow2(d + m), pow2(s + d + m));
    lemma_pow2_adds(s, d + m);
    lemma_pow2_pos(d + m);
    lemma_pow2_pos(s);
    let (hp, hq) = (p.time * ps + p.sequence, q.time * ps + q.sequence);
    if p.time < q.time {
        lemma_mul_inequality((p.time + 1) as int, q.time as int, ps as int);
        lemma_mul_is_distributive_add_other_way(ps as int, p.time as int, 1);
    }
    assert(hp < hq);
    lemma_nest(p.time, p.sequence, ps, pdm, psdm);
    lemma_nest(q.time, q.sequence, ps, pdm, psdm);
    assert(layout.pack(p) == hp * pdm + low && layout.pack(q) == hq * pdm + low);
    vstd::arithmetic::mul::lemma_mul_strict_inequality(hp as int, hq as int, pdm as int);
}

/// The same identifier in bits: each field shifted left by the widths of
/// the fields below it, and the four joined by "or".
pub open spec fn shift_or(
    layout: Layout,
    time: u64,
    sequence: u64,
    data_center_id: u64,
    machine_id: u64,
) -> u64 {
    (time << (layout.time_shift() as u64)) | (sequence << (layout.sequence_shift() as u64)) | (
    data_center_id << (layout.data_center_shift() as u64)) | machine_id
}

/// The same fields in bits: the identifier shifted right by the widths of
/// the fields below the one asked for, and cut to the field's width by
/// "and" with a mask of that many low bits.
pub open spec fn shift_mask(layout: Layout, id: u64) -> (u64, u64, u64, u64) {
    (
        id >> (layout.time_shift() as u64),
        (id >> (layout.sequence_shift() as u64)) & (((1u64 << (layout.sequence as u64)) - 1) as u64),
        (id >> (layout.data_center_shift() as u64)) & (((1u64 << (layout.data_center_id as u64))
            - 1) as u64),
        id & (((1u64 << (layout.machine_id as u64)) - 1) as u64),
    )
}

/// Packing by arithmetic and packing by shifts and "or" give the same
/// identifier.
pub proof fn lemma_pack_is_shift_or(
    layout: Layout,
    time: u64,
    sequence: u64,
    data_center_id: u64,
    machine_id: u64,
)
    requires
        layout.wf(),
        layout.fits(
            Parts {
                time: time as nat,
                sequence: sequence as nat,
                data_center_id: data_center_id as nat,
                machine_id: machine_id as nat,
            },
        ),
    ensures
        layout.pack(
            Parts {
                time: time as nat,
                sequence: sequence as nat,
                data_center_id: data_center_id as nat,
                machine_id: machine_id as nat,
            },
        ) == shift_or(layout, time, sequence, data_center_id, machine_id),
{
    let p = Parts {
        time: time as nat,
        sequence: sequence as nat,
        data_center_id: data_center_id as nat,
        machine_id: machine_id as nat,
    };
    let s = layout.sequence as nat;
    let d = layout.data_center_id as nat;
    let m = layout.machine_id as nat;
    let (ps, pd, pm, pdm, psdm) = (pow2(s), pow2(d), pow2(m), pow2(d + m), pow2(s + d + m));
    let high1 = p.time * ps + p.sequence;
    let high2 = high1 * pd + p.data_center_id;
    let a = p.time * psdm;
    let b = p.sequence * pdm;
    let c = p.data_center_id * pm;
    lemma_pack_bound(layout, p);
    lemma_pow2_adds(d, m);
    lemma_pow2_adds(s, d + m);
    lemma_pow2_pos(s);
    lemma_pow2_pos(d);
    lemma_pow2_pos(m);
    lemma_join_bound(p.data_center_id, 0, d, m);
    lemma_join_bound(p.sequence, 0, s, d + m);
    lemma_nest(p.time, p.sequence, ps, pdm, psdm);
    lemma_nest(high1, p.data_center_id, pd, pm, pdm);
    lemma_scale_up(high1, pdm);
    lemma_scale_up(high2, pm);
    assert(a + b == high1 * pdm && a + b + c == high2 * pm);
    assert(a + b + c + p.machine_id == layout.pack(p));
    lemma_shift_left(time, (s + d + m) as u64);
    lemma_shift_left(sequence, (d + m) as u64);
    lemma_shift_left(data_center_id, m as u64);
    lemma_shift_left(high1 as u64, (d + m) as u64);
    lemma_shift_left(high2 as u64, m as u64);
    lemma_or_is_add(time, b as u64, (s + d + m) as u64);
    lemma_or_is_add(high1 as u64, c as u64, (d + m) as u64);
    lemma_or_is_add(high2 as u64, machine_id, m as u64);
}

/// Taking apart by arithmetic and taking apart by shifts and masks give the
/// same fields.
pub proof fn lemma_unpack_is_shift_mask(layout: Layout, id: u64)
    requires
        layout.wf(),
    ensures
        shift_mask(layout, id).0 == layout.unpack(id as nat).time,
        shift_mask(layout, id).1 == layout.unpack(id as nat).sequence,
        shift_mask(layout, id).2 == layout.unpack(id as nat).data_center_id,
        shift_mask(layout, id).3 == layout.unpack(id as nat).machine_id,
{
    let s = layout.sequence as nat;
    let d = layout.data_center_id as nat;
    let m = layout.machine_id as nat;
    lemma_u64_shr_is_div(id, (s + d + m) as u64);
    lemma_u64_shr_is_div(id, (d + m) as u64);
    lemma_u64_shr_is_div(id, m as u64);
    lemma_mask(s as u64);
    lemma_mask(d as u64);
    lemma_mask(m as u64);
    lemma_u64_low_bits_mask_is_mod(id >> ((d + m) as u64), s);
    lemma_u64_low_bits_mask_is_mod(id >> (m as u64), d);
    lemma_u64_low_bits_mask_is_mod(id, m);
}

/// A shift to the left that loses no bit multiplies by a power of two, and
/// what it can hold is what a shift to the right leaves of the largest
/// number.
proof fn lemma_shift_left(x: u64, k: u64)
    requires
        k < 64,
        x * pow2(k as nat) <= u64::MAX,
    ensures
        x << k == x * pow2(k as nat),
        x <= (0xffff_ffff_ffff_ffffu64 >> k),
        (1u64 << k) == pow2(k as nat),
{
    lemma_u64_pow2_no_overflow(k as nat);
    lemma_u64_shl_is_mul(1, k);
    lemma_u64_shl_is_mul(x, k);
    lemma_u64_shr_is_div(u64::MAX, k);
    assert(x <= (u64::MAX as nat) / pow2(k as nat)) by (nonlinear_arith)
        requires
            x * pow2(k as nat) <= u64::MAX,
            pow2(k as nat) > 0,
    ;
}

/// One shifted left by `k` and lessened by one is the mask of `k` low bits.
proof fn lemma_mask(k: u64)
    requires
        k < 64,
    ensures
        (1u64 << k) == pow2(k as nat),
        ((1u64 << k) - 1) as u64 == low_bits_mask(k as nat),
        0 < pow2(k as nat) <= u64::MAX,
{
    lemma_u64_pow2_no_overflow(k as nat);
    lemma_u64_shl_is_mul(1, k);
}

/// Two to the 63rd, written out.
pub proof fn lemma_pow2_63()
    ensures
        pow2(63) == 0x8000_0000_0000_0000,
{
    vstd::arithmetic::power2::lemma2_to64_rest();
}

} // verus!
