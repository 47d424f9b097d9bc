//! Laws that pin down what scans compute, stated directly over bytes, payloads and bit
//! patterns rather than through the spec functions the implementation is proved against.
use vstd::prelude::*;

use crate::scanner::alignment::Alignment;
use crate::scanner::comparison::{f32_is_nan, ComparisonType};
use crate::scanner::configuration::Configuration;
use crate::scanner::endianness::Endianness;
use crate::scanner::scan_error::ScanError;
use crate::scanner::scan_value::ScanValue;
use crate::scanner::state::{lemma_implicit_offsets_valid, lemma_survivors_exact, ScanState};
use crate::scanner::value_reader::decode;
use crate::scanner::value_type::ValueType;

verus! {

/// Law: how each value type is read from its bytes. A `u8` is its byte, an `i8` its two's
/// complement; multi-byte values weigh their bytes by powers of 256, least significant first
/// in little-endian order and last in big-endian order; signed values are the two's-complement
/// reading; an `f32` is read as the bit pattern of the `u32` at the same place.
pub proof fn lemma_decode_reads_bytes(b: Seq<u8>)
    ensures
        b.len() >= 1 ==> forall|e: Endianness| decode(ValueType::U8, e, b) == b[0] as int,
        b.len() >= 1 ==> forall|e: Endianness|
            decode(ValueType::I8, e, b) == if b[0] < 0x80 {
                b[0] as int
            } else {
                b[0] - 0x100
            },
        b.len() >= 2 ==> decode(ValueType::U16, Endianness::Little, b) == b[0] + 0x100 * b[1],
        b.len() >= 2 ==> decode(ValueType::U16, Endianness::Big, b) == 0x100 * b[0] + b[1],
        b.len() >= 2 ==> decode(ValueType::I16, Endianness::Little, b) == if b[1] < 0x80 {
            b[0] + 0x100 * b[1]
        } else {
            b[0] + 0x100 * b[1] - 0x1_0000
        },
        b.len() >= 2 ==> decode(ValueType::I16, Endianness::Big, b) == if b[0] < 0x80 {
            0x100 * b[0] + b[1]
        } else {
            0x100 * b[0] + b[1] - 0x1_0000
        },
        b.len() >= 4 ==> decode(ValueType::U32, Endianness::Little, b) == b[0] + 0x100 * b[1]
            + 0x1_0000 * b[2] + 0x100_0000 * b[3],
        b.len() >= 4 ==> decode(ValueType::U32, Endianness::Big, b) == 0x100_0000 * b[0]
            + 0x1_0000 * b[1] + 0x100 * b[2] + b[3],
        b.len() >= 4 ==> decode(ValueType::I32, Endianness::Little, b) == if b[3] < 0x80 {
            b[0] + 0x100 * b[1] + 0x1_0000 * b[2] + 0x100_0000 * b[3]
        } else {
            b[0] + 0x100 * b[1] + 0x1_0000 * b[2] + 0x100_0000 * b[3] - 0x1_0000_0000
        },
        b.len() >= 4 ==> decode(ValueType::I32, Endianness::Big, b) == if b[0] < 0x80 {
            0x100_0000 * b[0] + 0x1_0000 * b[1] + 0x100 * b[2] + b[3]
        } else {
            0x100_0000 * b[0] + 0x1_0000 * b[1] + 0x100 * b[2] + b[3] - 0x1_0000_0000
        },
        b.len() >= 4 ==> forall|e: Endianness|
            decode(ValueType::F32, e, b) == decode(ValueType::U32, e, b),
{
}

/// Law: reading in big-endian order is reading the reversed bytes in little-endian order.
pub proof fn lemma_decode_big_is_reversed_little(t: ValueType, b: Seq<u8>)
    requires
        b.len() == t.spec_width(),
    ensures
        decode(t, Endianness::Big, b) == decode(t, Endianness::Little, b.reverse()),
{
}

/// Law: for integer value types, a scan keeps a candidate exactly when the value now at its
/// offset in the scanned block stands in the requested relation to the right-hand side: the
/// exact value's own payload, or for `PreviousValue` the value at the same offset in the
/// stored block. (So `Lt` with `PreviousValue` keeps the values that decreased.)
pub proof fn lemma_integer_scan_compares_new_against_rhs(
    s: ScanState,
    next: Seq<u8>,
    op: ComparisonType,
    value: ScanValue,
    offset: u32,
)
    requires
        s.candidates().contains(offset),
        s.config.value_type != ValueType::F32,
    ensures
        ({
            let t = s.config.value_type;
            let e = s.config.endianness;
            let end = offset + t.spec_width();
            let new = decode(t, e, next.subrange(offset as int, end));
            let rhs: int = match value {
                ScanValue::U8(v) => v as int,
                ScanValue::U16(v) => v as int,
                ScanValue::U32(v) => v as int,
                ScanValue::I8(v) => v as int,
                ScanValue::I16(v) => v as int,
                ScanValue::I32(v) => v as int,
                ScanValue::F32(bits) => bits as int,
                ScanValue::PreviousValue => decode(t, e, s.block.subrange(offset as int, end)),
            };
            let kept = s.after_scan(next, op, value).candidates().contains(offset);
            &&& op == ComparisonType::Eq ==> (kept <==> new == rhs)
            &&& op == ComparisonType::Ne ==> (kept <==> new != rhs)
            &&& op == ComparisonType::Lt ==> (kept <==> new < rhs)
            &&& op == ComparisonType::Le ==> (kept <==> new <= rhs)
            &&& op == ComparisonType::Gt ==> (kept <==> new > rhs)
            &&& op == ComparisonType::Ge ==> (kept <==> new >= rhs)
        }),
{
    lemma_survivors_exact(s, next, op, value, offset);
}

/// Law: for `F32`, a scan keeps a candidate exactly when the bit pattern now at its offset
/// compares, as an `f32`, against the exact value's bit pattern or, for `PreviousValue`, the
/// bit pattern at the same offset in the stored block.
pub proof fn lemma_f32_scan_compares_new_against_rhs(
    s: ScanState,
    next: Seq<u8>,
    op: ComparisonType,
    value: ScanValue,
    offset: u32,
)
    requires
        s.candidates().contains(offset),
        s.config.value_type == ValueType::F32,
        value is F32 || value is PreviousValue,
    ensures
        ({
            let e = s.config.endianness;
            let new = decode(ValueType::U32, e, next.subrange(offset as int, offset + 4));
            let rhs: int = match value {
                ScanValue::F32(bits) => bits as int,
                _ => decode(ValueType::U32, e, s.block.subrange(offset as int, offset + 4)),
            };
            s.after_scan(next, op, value).candidates().contains(offset) <==> op.holds_f32(
                new as u32,
                rhs as u32,
            )
        }),
{
    lemma_survivors_exact(s, next, op, value, offset);
}

/// Law: `f32` comparisons follow IEEE-754 on bit patterns. A NaN is a pattern whose eight
/// exponent bits are all set and whose mantissa is not zero. Two non-NaN patterns are equal
/// exactly when they are the same pattern or both are zeros (`+0.0`, `-0.0`). Among non-NaN
/// patterns the order is strict and total: non-negative patterns grow with their bits,
/// negative ones shrink with them, and every non-zero negative is below every non-negative.
/// `Gt`, `Le`, `Ge` and `Ne` are `Lt` swapped, `Lt` or `Eq`, `Le` swapped, and not `Eq`.
pub proof fn lemma_f32_comparisons_follow_ieee(a: u32, b: u32)
    ensures
        f32_is_nan(a) <==> ((a / 0x80_0000) % 0x100 == 0xff && a % 0x80_0000 != 0),
        !f32_is_nan(a) && !f32_is_nan(b) ==> (ComparisonType::Eq.holds_f32(a, b) <==> (a == b || (
        a % 0x8000_0000 == 0 && b % 0x8000_0000 == 0))),
        !f32_is_nan(a) && !f32_is_nan(b) && a < b && b < 0x8000_0000 ==> ComparisonType::Lt.holds_f32(
            a,
            b,
        ),
        !f32_is_nan(a) && !f32_is_nan(b) && 0x8000_0000 <= a && a < b ==> ComparisonType::Lt.holds_f32(
            b,
            a,
        ),
        !f32_is_nan(a) && !f32_is_nan(b) && a > 0x8000_0000 && b < 0x8000_0000
            ==> ComparisonType::Lt.holds_f32(a, b),
        !f32_is_nan(a) && !f32_is_nan(b) ==> (ComparisonType::Lt.holds_f32(a, b)
            || ComparisonType::Eq.holds_f32(a, b) || ComparisonType::Lt.holds_f32(b, a)),
        !(ComparisonType::Lt.holds_f32(a, b) && ComparisonType::Eq.holds_f32(a, b)),
        !(ComparisonType::Lt.holds_f32(a, b) && ComparisonType::Lt.holds_f32(b, a)),
        ComparisonType::Gt.holds_f32(a, b) == ComparisonType::Lt.holds_f32(b, a),
        ComparisonType::Le.holds_f32(a, b) == (ComparisonType::Lt.holds_f32(a, b)
            || ComparisonType::Eq.holds_f32(a, b)),
        ComparisonType::Ge.holds_f32(a, b) == ComparisonType::Le.holds_f32(b, a),
        ComparisonType::Ne.holds_f32(a, b) == !ComparisonType::Eq.holds_f32(a, b),
        f32_is_nan(a) ==> !ComparisonType::Eq.holds_f32(a, a),
{
}

/// Law: building a configuration from wire codes keeps the base address as given and takes
/// the value type, byte order and alignment that the codes name; it fails with
/// `TypeMismatch` exactly when some code names nothing.
pub proof fn lemma_from_codes_keeps_inputs(value_type: u8, endianness: u8, alignment: u8, base: u32)
    ensures
        Configuration::spec_from_codes(value_type, endianness, alignment, base) matches Ok(c) ==> {
            &&& c.base_address == base
            &&& ValueType::from_code(value_type) == Some(c.value_type)
            &&& Endianness::from_code(endianness) == Some(c.endianness)
            &&& Alignment::from_code(alignment) == Some(c.alignment)
        },
        Configuration::spec_from_codes(value_type, endianness, alignment, base) is Err
            <==> (ValueType::from_code(value_type) is None || Endianness::from_code(endianness) is None
            || Alignment::from_code(alignment) is None),
        Configuration::spec_from_codes(value_type, endianness, alignment, base) matches Err(e) ==> e
            == ScanError::TypeMismatch,
{
}

/// Law: a value occupies as many bytes as its Rust type: one for `u8`/`i8`, two for
/// `u16`/`i16`, four for `u32`/`i32`/`f32`.
pub proof fn lemma_widths_are_type_sizes()
    ensures
        ValueType::U8.spec_width() == 1 && ValueType::I8.spec_width() == 1,
        ValueType::U16.spec_width() == 2 && ValueType::I16.spec_width() == 2,
        ValueType::U32.spec_width() == 4 && ValueType::I32.spec_width() == 4
            && ValueType::F32.spec_width() == 4,
{
}

/// Law: a fresh scanner's candidates are exactly the offsets at which a whole value fits in the
/// block, restricted to multiples of the value's width when aligned; a scanner cannot be built
/// exactly when no value fits (`RamBlockTooSmall`) or, failing that, when some such offset's
/// address passes `u32::MAX` (`AddressOverflow`).
pub proof fn lemma_implicit_candidates_are_fitting_offsets(config: Configuration, len: nat, o: u32)
    ensures
        ({
            let w = config.value_type.spec_width();
            let fits = o + w <= len && (config.alignment == Alignment::Aligned ==> (o as int) % (w as int) == 0);
            &&& config.creation_error(len) is None ==> (config.implicit_offsets(len).contains(o)
                <==> fits)
            &&& (config.creation_error(len) == Some(ScanError::RamBlockTooSmall) <==> len < w)
            &&& len >= w && fits && config.base_address + o > u32::MAX ==> config.creation_error(len)
                == Some(ScanError::AddressOverflow)
            &&& config.creation_error(len) == Some(ScanError::AddressOverflow) ==> len >= w && exists|
                k: int,
            |
                #![trigger (k * config.step())]
                0 <= k && k * config.step() + w <= len && config.base_address + k * config.step()
                    > u32::MAX && (config.alignment == Alignment::Aligned ==> (k * config.step())
                    % (w as int) == 0)
        }),
{
    let w = config.value_type.spec_width() as int;
    let step = config.step() as int;
    let q = (len - w) / step;
    if len >= w {
        assert(q * step <= len - w) by (nonlinear_arith)
            requires
                q == (len - w) / step,
                step >= 1,
                len - w >= 0,
        ;
        assert(q * step + step > len - w) by (nonlinear_arith)
            requires
                q == (len - w) / step,
                step >= 1,
                len - w >= 0,
        ;
        assert(config.last_offset(len) == q * step);
        if config.alignment == Alignment::Aligned {
            assert((q * step) % w == 0) by (nonlinear_arith)
                requires
                    step == w,
                    w >= 1,
                    q >= 0,
            ;
        }
        let fits = o + w <= len && (config.alignment == Alignment::Aligned ==> (o as int) % (w as int) == 0);
        if fits {
            // o is a multiple of the step no greater than the last offset
            let k = o as int / step;
            assert(k * step == o) by (nonlinear_arith)
                requires
                    k == o as int / step,
                    step >= 1,
                    o as int % step == 0,
            ;
            assert(o <= q * step) by (nonlinear_arith)
                requires
                    k * step == o,
                    o <= len - w,
                    q == (len - w) / step,
                    step >= 1,
                    k >= 0,
            ;
            if config.creation_error(len) is None {
                lemma_implicit_offsets_valid(config, len);
                assert(k <= q) by (nonlinear_arith)
                    requires
                        k * step <= q * step,
                        step >= 1,
                        k >= 0,
                        q >= 0,
                ;
                assert(config.implicit_offsets(len)[k] == o);
            }
        }
        if config.creation_error(len) is None {
            lemma_implicit_offsets_valid(config, len);
            if config.implicit_offsets(len).contains(o) {
                let i = choose|i: int|
                    0 <= i < config.implicit_offsets(len).len() && config.implicit_offsets(len)[i]
                        == o;
                assert(config.is_candidate(len, config.implicit_offsets(len)[i] as int));
            }
        }
        if config.creation_error(len) == Some(ScanError::AddressOverflow) {
            assert(q * step + w <= len);
        }
    }
}

} // verus!
