//! Decoder for the binary module format: plain functions on bytes, each with
//! a contract. The grammar follows the 1.0 encoding; anything outside the
//! supported subset is refused before translation starts.

use vstd::prelude::*;

use crate::error::PvfError;
use crate::ir::IrSignature;
use crate::wasm::{
    WasmData, WasmElement, WasmExport, WasmFuncBody, WasmGlobal, WasmImport, WasmModule, WasmOp,
};

verus! {

/// The value of the 7-bit groups `s[pos..end]`, least-significant first.
pub open spec fn leb_value(s: Seq<u8>, pos: int, end: int) -> int
    decreases end - pos,
{
    if pos >= end {
        0
    } else {
        (s[pos] as int) % 0x80 + 0x80 * leb_value(s, pos + 1, end)
    }
}

/// The value of the 7-bit groups `s[pos..end]` under sign extension from the
/// top bit of the final group.
pub open spec fn leb_signed_value(s: Seq<u8>, pos: int, end: int) -> int
    decreases end - pos,
{
    if pos >= end {
        0
    } else if pos == end - 1 {
        let g = (s[pos] as int) % 0x80;
        if g >= 0x40 {
            g - 0x80
        } else {
            g
        }
    } else {
        (s[pos] as int) % 0x80 + 0x80 * leb_signed_value(s, pos + 1, end)
    }
}

/// True when `s[pos..end]` is one whole LEB128 item: continuation bit set on
/// every group but the last.
pub open spec fn leb_shape(s: Seq<u8>, pos: int, end: int) -> bool {
    &&& pos < end <= s.len()
    &&& (forall|k: int| pos <= k < end - 1 ==> s[k] >= 0x80)
    &&& s[end - 1] < 0x80
}

fn parse_error(what: &str) -> (r: PvfError)
    ensures
        r is ParseError,
{
    PvfError::ParseError(what.to_owned())
}

fn validation_error(what: &str) -> (r: PvfError)
    ensures
        r is ValidationError,
{
    PvfError::ValidationError(what.to_owned())
}

/// Reads one unsigned LEB128 item of at most `max_groups` groups.
fn read_leb_unsigned(bytes: &[u8], pos: usize, max_groups: u32) -> (r: Result<
    (u128, usize),
    PvfError,
>)
    requires
        pos <= bytes@.len(),
        max_groups <= 10,
    ensures
        match r {
            Ok((v, np)) => {
                &&& leb_shape(bytes@, pos as int, np as int)
                &&& np - pos <= max_groups
                &&& v == leb_value(bytes@, pos as int, np as int)
            },
            Err(e) => e is ParseError,
        },
    decreases max_groups,
{
    if max_groups == 0 || pos >= bytes.len() {
        return Err(parse_error("truncated integer"));
    }
    let b = bytes[pos];
    if b < 0x80 {
        proof {
            assert(leb_value(bytes@, pos + 1 as int, pos + 1 as int) == 0);
        }
        Ok((b as u128, pos + 1))
    } else {
        let (rest, np) = match read_leb_unsigned(bytes, pos + 1, max_groups - 1) {
            Ok(x) => x,
            Err(e) => {
                return Err(e);
            },
        };
        proof {
            // nine further groups of seven bits keep the total far below the
            // accumulator's range
            lemma_leb_value_bound(bytes@, pos + 1 as int, np as int);
            lemma_groups_bound_monotonic((np - pos - 1) as nat, 9nat);
            lemma_groups_bound_9();
            assert(leb_value(bytes@, pos as int, np as int) == (bytes@[pos as int] as int) % 0x80
                + 0x80 * leb_value(bytes@, pos + 1 as int, np as int));
            assert((b as int) % 0x80 == b - 0x80);
            assert(leb_shape(bytes@, pos as int, np as int)) by {
                assert(forall|k: int|
                    pos + 1 <= k < np - 1 ==> bytes@[k] >= 0x80);
            }
        }
        let g: u128 = (b - 0x80) as u128;
        let v: u128 = g + 0x80 * rest;
        proof {
            assert(g == (b as int) % 0x80);
            assert(v == (b as int) % 0x80 + 0x80 * leb_value(bytes@, pos + 1 as int, np as int));
            assert(v == leb_value(bytes@, pos as int, np as int));
        }
        Ok((v, np))
    }
}

/// `0x80` to the power `k`: the least value that `k` LEB128 groups cannot
/// reach.
pub open spec fn groups_bound(k: nat) -> int
    decreases k,
{
    if k == 0 {
        1
    } else {
        0x80 * groups_bound((k - 1) as nat)
    }
}

proof fn lemma_groups_bound_9()
    ensures
        groups_bound(9nat) == 0x8000000000000000,
{
    assert(groups_bound(0nat) == 1);
    assert(groups_bound(1nat) == 0x80);
    assert(groups_bound(2nat) == 0x4000);
    assert(groups_bound(3nat) == 0x200000);
    assert(groups_bound(4nat) == 0x10000000);
    assert(groups_bound(5nat) == 0x800000000);
    assert(groups_bound(6nat) == 0x40000000000);
    assert(groups_bound(7nat) == 0x2000000000000);
    assert(groups_bound(8nat) == 0x100000000000000);
    assert(groups_bound(9nat) == 0x8000000000000000);
}

proof fn lemma_groups_bound_positive(k: nat)
    ensures
        groups_bound(k) >= 1,
    decreases k,
{
    if k > 0 {
        lemma_groups_bound_positive((k - 1) as nat);
    }
}

proof fn lemma_groups_bound_monotonic(k1: nat, k2: nat)
    requires
        k1 <= k2,
    ensures
        groups_bound(k1) <= groups_bound(k2),
    decreases k2,
{
    if k1 < k2 {
        lemma_groups_bound_monotonic(k1, (k2 - 1) as nat);
        lemma_groups_bound_positive((k2 - 1) as nat);
    }
}

/// The group value of each byte is below 0x80, so the whole item's value is
/// below `0x80^count`.
proof fn lemma_leb_value_bound(s: Seq<u8>, pos: int, end: int)
    requires
        pos <= end,
    ensures
        0 <= leb_value(s, pos, end),
        leb_value(s, pos, end) < groups_bound((end - pos) as nat),
    decreases end - pos,
{
    lemma_groups_bound_positive((end - pos) as nat);
    if pos < end {
        lemma_leb_value_bound(s, pos + 1, end);
    }
}

/// Reads an unsigned 32-bit integer.
pub fn read_u32(bytes: &[u8], pos: usize) -> (r: Result<(u32, usize), PvfError>)
    requires
        pos <= bytes@.len(),
    ensures
        match r {
            Ok((v, np)) => {
                &&& leb_shape(bytes@, pos as int, np as int)
                &&& np - pos <= 5
                &&& v == leb_value(bytes@, pos as int, np as int)
            },
            Err(e) => e is ParseError,
        },
{
    let (v, np) = match read_leb_unsigned(bytes, pos, 5) {
        Ok(x) => x,
        Err(e) => {
            return Err(e);
        },
    };
    if v > u32::MAX as u128 {
        return Err(parse_error("integer out of range"));
    }
    Ok((v as u32, np))
}

/// Reads one signed LEB128 item of at most `max_groups` groups.
fn read_leb_signed(bytes: &[u8], pos: usize, max_groups: u32) -> (r: Result<
    (i128, usize),
    PvfError,
>)
    requires
        pos <= bytes@.len(),
        max_groups <= 10,
    ensures
        match r {
            Ok((v, np)) => {
                &&& leb_shape(bytes@, pos as int, np as int)
                &&& np - pos <= max_groups
                &&& v == leb_signed_value(bytes@, pos as int, np as int)
            },
            Err(e) => e is ParseError,
        },
    decreases max_groups,
{
    if max_groups == 0 || pos >= bytes.len() {
        return Err(parse_error("truncated integer"));
    }
    let b = bytes[pos];
    if b < 0x80 {
        if b >= 0x40 {
            Ok(((b as i128) - 0x80, pos + 1))
        } else {
            Ok((b as i128, pos + 1))
        }
    } else {
        let (rest, np) = match read_leb_signed(bytes, pos + 1, max_groups - 1) {
            Ok(x) => x,
            Err(e) => {
                return Err(e);
            },
        };
        proof {
            lemma_leb_signed_value_bound(bytes@, pos + 1 as int, np as int);
            lemma_groups_bound_monotonic((np - pos - 1) as nat, 9nat);
            lemma_groups_bound_9();
        }
        Ok((((b - 0x80) as i128) + 0x80 * rest, np))
    }
}

proof fn lemma_leb_signed_value_bound(s: Seq<u8>, pos: int, end: int)
    requires
        pos <= end,
    ensures
        -groups_bound((end - pos) as nat) <= leb_signed_value(s, pos, end) < groups_bound(
            (end - pos) as nat,
        ),
    decreases end - pos,
{
    lemma_groups_bound_positive((end - pos) as nat);
    if pos < end && pos != end - 1 {
        lemma_leb_signed_value_bound(s, pos + 1, end);
    }
}

/// Reads a signed 32-bit constant.
pub fn read_i32(bytes: &[u8], pos: usize) -> (r: Result<(i32, usize), PvfError>)
    requires
        pos <= bytes@.len(),
    ensures
        match r {
            Ok((v, np)) => {
                &&& leb_shape(bytes@, pos as int, np as int)
                &&& np - pos <= 5
                &&& v == leb_signed_value(bytes@, pos as int, np as int)
            },
            Err(e) => e is ParseError,
        },
{
    let (v, np) = match read_leb_signed(bytes, pos, 5) {
        Ok(x) => x,
        Err(e) => {
            return Err(e);
        },
    };
    if v < i32::MIN as i128 || v > i32::MAX as i128 {
        return Err(parse_error("integer out of range"));
    }
    Ok((v as i32, np))
}

/// Reads a signed 64-bit constant.
pub fn read_i64(bytes: &[u8], pos: usize) -> (r: Result<(i64, usize), PvfError>)
    requires
        pos <= bytes@.len(),
    ensures
        match r {
            Ok((v, np)) => {
                &&& leb_shape(bytes@, pos as int, np as int)
                &&& np - pos <= 10
                &&& v == leb_signed_value(bytes@, pos as int, np as int)
            },
            Err(e) => e is ParseError,
        },
{
    let (v, np) = match read_leb_signed(bytes, pos, 10) {
        Ok(x) => x,
        Err(e) => {
            return Err(e);
        },
    };
    if v < i64::MIN as i128 || v > i64::MAX as i128 {
        return Err(parse_error("integer out of range"));
    }
    Ok((v as i64, np))
}

/// The characters a UTF-8 byte sequence decodes to; what a name means is a
/// function of its bytes alone.
pub uninterp spec fn utf8_chars_of(bytes: Seq<u8>) -> Seq<char>;

/// Relies on `String::from_utf8`: whenever it returns a string, that string
/// is the UTF-8 decoding of the bytes — named here — and all-ASCII input
/// always succeeds, one `char` per byte with the same scalar value.
#[verifier::external_body]
fn string_from_utf8_bytes(v: Vec<u8>) -> (r: Option<String>)
    ensures
        match r {
            Some(s) => s@ == utf8_chars_of(v@),
            None => true,
        },
        (forall|i: int| 0 <= i < v@.len() ==> v@[i] < 128) ==> match r {
            Some(s) => s@.len() == v@.len() && (forall|i: int|
                0 <= i < v@.len() ==> s@[i] == v@[i] as char),
            None => false,
        },
{
    String::from_utf8(v).ok()
}

/// Reads a length-prefixed name; anything that is not valid text is refused.
fn read_name(bytes: &[u8], pos: usize) -> (r: Result<(String, usize), PvfError>)
    requires
        pos <= bytes@.len(),
    ensures
        match r {
            Ok((_, np)) => pos < np <= bytes@.len(),
            Err(e) => e is ParseError || e is ValidationError,
        },
{
    let (len, mut p) = match read_u32(bytes, pos) {
        Ok(x) => x,
        Err(e) => {
            return Err(e);
        },
    };
    if bytes.len() - p < len as usize {
        return Err(parse_error("truncated name"));
    }
    let end = p + len as usize;
    let mut v: Vec<u8> = Vec::new();
    while p < end
        invariant
            p <= end <= bytes@.len(),
        decreases end - p,
    {
        let b = bytes[p];
        v.push(b);
        p = p + 1;
    }
    match string_from_utf8_bytes(v) {
        Some(name) => Ok((name, end)),
        None => Err(validation_error("name is not valid text")),
    }
}

/// Reads a limits record: minimum and an optional maximum.
fn read_limits(bytes: &[u8], pos: usize) -> (r: Result<(u32, Option<u32>, usize), PvfError>)
    requires
        pos <= bytes@.len(),
    ensures
        match r {
            Ok((_, _, np)) => pos < np <= bytes@.len(),
            Err(e) => e is ParseError || e is ValidationError,
        },
{
    if pos >= bytes.len() {
        return Err(parse_error("truncated limits"));
    }
    let flag = bytes[pos];
    let (min, p) = match read_u32(bytes, pos + 1) {
        Ok(x) => x,
        Err(e) => {
            return Err(e);
        },
    };
    if flag == 0 {
        Ok((min, None, p))
    } else if flag == 1 {
        let (max, p2) = match read_u32(bytes, p) {
            Ok(x) => x,
            Err(e) => {
                return Err(e);
            },
        };
        Ok((min, Some(max), p2))
    } else {
        Err(validation_error("unsupported limits flag"))
    }
}

/// Reads one value type byte; only the two integer types are accepted.
fn read_valtype(bytes: &[u8], pos: usize) -> (r: Result<usize, PvfError>)
    requires
        pos <= bytes@.len(),
    ensures
        match r {
            Ok(np) => np == pos + 1 && np <= bytes@.len(),
            Err(e) => e is ParseError || e is ValidationError,
        },
{
    if pos >= bytes.len() {
        return Err(parse_error("truncated value type"));
    }
    let b = bytes[pos];
    if b == 0x7f || b == 0x7e {
        Ok(pos + 1)
    } else {
        Err(validation_error("unsupported value type"))
    }
}

/// Reads a memory argument; the alignment hint is parsed and dropped, the
/// offset is returned.
fn read_memarg(bytes: &[u8], pos: usize) -> (r: Result<(u32, usize), PvfError>)
    requires
        pos <= bytes@.len(),
    ensures
        match r {
            Ok((_, np)) => pos < np <= bytes@.len(),
            Err(e) => e is ParseError,
        },
{
    let (_align, p) = match read_u32(bytes, pos) {
        Ok(x) => x,
        Err(e) => {
            return Err(e);
        },
    };
    let (offset, p2) = match read_u32(bytes, p) {
        Ok(x) => x,
        Err(e) => {
            return Err(e);
        },
    };
    Ok((offset, p2))
}

/// Reads one operation. Anything outside the supported subset is refused
/// here, before any translation starts.
pub fn read_op(bytes: &[u8], pos: usize) -> (r: Result<(WasmOp, usize), PvfError>)
    requires
        pos <= bytes@.len(),
    ensures
        match r {
            Ok((_, np)) => pos < np <= bytes@.len(),
            Err(e) => e is ParseError || e is ValidationError,
        },
{
    if pos >= bytes.len() {
        return Err(parse_error("truncated expression"));
    }
    let opcode = bytes[pos];
    let p = pos + 1;
    match opcode {
        0x00 => Ok((WasmOp::Unreachable, p)),
        0x01 => Ok((WasmOp::Nop, p)),
        0x02 | 0x03 => {
            if p >= bytes.len() {
                return Err(parse_error("truncated block type"));
            }
            let bt = bytes[p];
            let has_result = if bt == 0x40 {
                false
            } else if bt == 0x7f || bt == 0x7e {
                true
            } else {
                return Err(validation_error("unsupported block type"));
            };
            if opcode == 0x02 {
                Ok((WasmOp::Block { has_result }, p + 1))
            } else {
                Ok((WasmOp::Loop { has_result }, p + 1))
            }
        },
        0x0b => Ok((WasmOp::End, p)),
        0x0c | 0x0d => {
            let (depth, p2) = match read_u32(bytes, p) {
                Ok(x) => x,
                Err(e) => {
                    return Err(e);
                },
            };
            if opcode == 0x0c {
                Ok((WasmOp::Br(depth), p2))
            } else {
                Ok((WasmOp::BrIf(depth), p2))
            }
        },
        0x0e => {
            let (count, mut p2) = match read_u32(bytes, p) {
                Ok(x) => x,
                Err(e) => {
                    return Err(e);
                },
            };
            if count >= 0x10000 {
                return Err(validation_error("too many branch targets"));
            }
            let mut targets: Vec<u32> = Vec::new();
            let mut i: u32 = 0;
            // one more than `count`: the default target comes last
            while i <= count
                invariant
                    pos < p2 <= bytes@.len(),
                    i <= count + 1,
                    count < 0x10000,
                decreases count + 1 - i,
            {
                let (t, p3) = match read_u32(bytes, p2) {
                    Ok(x) => x,
                    Err(e) => {
                        return Err(e);
                    },
                };
                targets.push(t);
                p2 = p3;
                i = i + 1;
            }
            Ok((WasmOp::BrTable(targets), p2))
        },
        0x0f => Ok((WasmOp::Return, p)),
        0x10 => {
            let (idx, p2) = match read_u32(bytes, p) {
                Ok(x) => x,
                Err(e) => {
                    return Err(e);
                },
            };
            Ok((WasmOp::Call(idx), p2))
        },
        0x11 => {
            let (type_index, p2) = match read_u32(bytes, p) {
                Ok(x) => x,
                Err(e) => {
                    return Err(e);
                },
            };
            let (table_index, p3) = match read_u32(bytes, p2) {
                Ok(x) => x,
                Err(e) => {
                    return Err(e);
                },
            };
            Ok((WasmOp::CallIndirect { type_index, table_index }, p3))
        },
        0x1a => Ok((WasmOp::Drop, p)),
        0x1b => Ok((WasmOp::Select, p)),
        0x20 | 0x21 | 0x22 | 0x23 | 0x24 => {
            let (idx, p2) = match read_u32(bytes, p) {
                Ok(x) => x,
                Err(e) => {
                    return Err(e);
                },
            };
            match opcode {
                0x20 => Ok((WasmOp::LocalGet(idx), p2)),
                0x21 => Ok((WasmOp::LocalSet(idx), p2)),
                0x22 => Ok((WasmOp::LocalTee(idx), p2)),
                0x23 => Ok((WasmOp::GlobalGet(idx), p2)),
                _ => Ok((WasmOp::GlobalSet(idx), p2)),
            }
        },
        0x28 | 0x29 | 0x2c | 0x2d | 0x2e | 0x2f | 0x30 | 0x31 | 0x32 | 0x33 | 0x34 | 0x35 | 0x36
            | 0x37 | 0x3a | 0x3b | 0x3c | 0x3d | 0x3e => {
            let (offset, p2) = match read_memarg(bytes, p) {
                Ok(x) => x,
                Err(e) => {
                    return Err(e);
                },
            };
            let op = match opcode {
                0x28 => WasmOp::I32Load(offset),
                0x29 => WasmOp::I64Load(offset),
                0x2c => WasmOp::I32Load8S(offset),
                0x2d => WasmOp::I32Load8U(offset),
                0x2e => WasmOp::I32Load16S(offset),
                0x2f => WasmOp::I32Load16U(offset),
                0x30 => WasmOp::I64Load8S(offset),
                0x31 => WasmOp::I64Load8U(offset),
                0x32 => WasmOp::I64Load16S(offset),
                0x33 => WasmOp::I64Load16U(offset),
                0x34 => WasmOp::I64Load32S(offset),
                0x35 => WasmOp::I64Load32U(offset),
                0x36 => WasmOp::I32Store(offset),
                0x37 => WasmOp::I64Store(offset),
                0x3a => WasmOp::I32Store8(offset),
                0x3b => WasmOp::I32Store16(offset),
                0x3c => WasmOp::I64Store8(offset),
                0x3d => WasmOp::I64Store16(offset),
                _ => WasmOp::I64Store32(offset),
            };
            Ok((op, p2))
        },
        0x3f | 0x40 => {
            if p >= bytes.len() {
                return Err(parse_error("truncated memory operation"));
            }
            if bytes[p] != 0 {
                return Err(validation_error("unsupported memory index"));
            }
            if opcode == 0x3f {
                Ok((WasmOp::MemorySize, p + 1))
            } else {
                Ok((WasmOp::MemoryGrow, p + 1))
            }
        },
        0x41 => {
            let (v, p2) = match read_i32(bytes, p) {
                Ok(x) => x,
                Err(e) => {
                    return Err(e);
                },
            };
            Ok((WasmOp::I32Const(v), p2))
        },
        0x42 => {
            let (v, p2) = match read_i64(bytes, p) {
                Ok(x) => x,
                Err(e) => {
                    return Err(e);
                },
            };
            Ok((WasmOp::I64Const(v), p2))
        },
        0x45 => Ok((WasmOp::I32Eqz, p)),
        0x46 => Ok((WasmOp::I32Eq, p)),
        0x47 => Ok((WasmOp::I32Ne, p)),
        0x48 => Ok((WasmOp::I32LtS, p)),
        0x49 => Ok((WasmOp::I32LtU, p)),
        0x4a => Ok((WasmOp::I32GtS, p)),
        0x4b => Ok((WasmOp::I32GtU, p)),
        0x4c => Ok((WasmOp::I32LeS, p)),
        0x4d => Ok((WasmOp::I32LeU, p)),
        0x4e => Ok((WasmOp::I32GeS, p)),
        0x4f => Ok((WasmOp::I32GeU, p)),
        0x50 => Ok((WasmOp::I64Eqz, p)),
        0x51 => Ok((WasmOp::I64Eq, p)),
        0x52 => Ok((WasmOp::I64Ne, p)),
        0x53 => Ok((WasmOp::I64LtS, p)),
        0x54 => Ok((WasmOp::I64LtU, p)),
        0x55 => Ok((WasmOp::I64GtS, p)),
        0x56 => Ok((WasmOp::I64GtU, p)),
        0x57 => Ok((WasmOp::I64LeS, p)),
        0x58 => Ok((WasmOp::I64LeU, p)),
        0x59 => Ok((WasmOp::I64GeS, p)),
        0x5a => Ok((WasmOp::I64GeU, p)),
        0x67 => Ok((WasmOp::I32Clz, p)),
        0x68 => Ok((WasmOp::I32Ctz, p)),
        0x69 => Ok((WasmOp::I32Popcnt, p)),
        0x6a => Ok((WasmOp::I32Add, p)),
        0x6b => Ok((WasmOp::I32Sub, p)),
        0x6c => Ok((WasmOp::I32Mul, p)),
        0x6d => Ok((WasmOp::I32DivS, p)),
        0x6e => Ok((WasmOp::I32DivU, p)),
        0x6f => Ok((WasmOp::I32RemS, p)),
        0x70 => Ok((WasmOp::I32RemU, p)),
        0x71 => Ok((WasmOp::I32And, p)),
        0x72 => Ok((WasmOp::I32Or, p)),
        0x73 => Ok((WasmOp::I32Xor, p)),
        0x74 => Ok((WasmOp::I32Shl, p)),
        0x75 => Ok((WasmOp::I32ShrS, p)),
        0x76 => Ok((WasmOp::I32ShrU, p)),
        0x77 => Ok((WasmOp::I32Rotl, p)),
        0x78 => Ok((WasmOp::I32Rotr, p)),
        0x79 => Ok((WasmOp::I64Clz, p)),
        0x7a => Ok((WasmOp::I64Ctz, p)),
        0x7b => Ok((WasmOp::I64Popcnt, p)),
        0x7c => Ok((WasmOp::I64Add, p)),
        0x7d => Ok((WasmOp::I64Sub, p)),
        0x7e => Ok((WasmOp::I64Mul, p)),
        0x7f => Ok((WasmOp::I64DivS, p)),
        0x80 => Ok((WasmOp::I64DivU, p)),
        0x81 => Ok((WasmOp::I64RemS, p)),
        0x82 => Ok((WasmOp::I64RemU, p)),
        0x83 => Ok((WasmOp::I64And, p)),
        0x84 => Ok((WasmOp::I64Or, p)),
        0x85 => Ok((WasmOp::I64Xor, p)),
        0x86 => Ok((WasmOp::I64Shl, p)),
        0x87 => Ok((WasmOp::I64ShrS, p)),
        0x88 => Ok((WasmOp::I64ShrU, p)),
        0x89 => Ok((WasmOp::I64Rotl, p)),
        0x8a => Ok((WasmOp::I64Rotr, p)),
        0xa7 => Ok((WasmOp::I32WrapI64, p)),
        0xac => Ok((WasmOp::I64ExtendI32S, p)),
        0xad => Ok((WasmOp::I64ExtendI32U, p)),
        _ => Err(validation_error("unsupported opcode")),
    }
}

/// Reads a constant expression up to and excluding its terminator; only
/// integer constants are allowed in one.
fn read_const_expr(bytes: &[u8], pos: usize) -> (r: Result<(Vec<WasmOp>, usize), PvfError>)
    requires
        pos <= bytes@.len(),
    ensures
        match r {
            Ok((_, np)) => pos < np <= bytes@.len(),
            Err(e) => e is ParseError || e is ValidationError,
        },
{
    let mut ops: Vec<WasmOp> = Vec::new();
    let mut p = pos;
    loop
        invariant
            pos <= p <= bytes@.len(),
        decreases bytes@.len() - p,
    {
        let (op, p2) = match read_op(bytes, p) {
            Ok(x) => x,
            Err(e) => {
                return Err(e);
            },
        };
        p = p2;
        match op {
            WasmOp::I32Const(_) | WasmOp::I64Const(_) => {
                ops.push(op);
            },
            WasmOp::End => {
                return Ok((ops, p));
            },
            _ => {
                return Err(
                    validation_error("a constant expression may hold integer constants only"),
                );
            },
        }
    }
}

/// Reads one function type: `0x60`, the parameter types, the result types.
fn read_func_type(bytes: &[u8], pos: usize) -> (r: Result<(IrSignature, usize), PvfError>)
    requires
        pos <= bytes@.len(),
    ensures
        match r {
            Ok((sig, np)) => pos < np <= bytes@.len() && sig.params < 16 && sig.results <= 1,
            Err(e) => e is ParseError || e is ValidationError,
        },
{
    if pos >= bytes.len() {
        return Err(parse_error("truncated type section"));
    }
    if bytes[pos] != 0x60 {
        return Err(validation_error("unsupported composite type"));
    }
    let (n_params, mut p) = match read_u32(bytes, pos + 1) {
        Ok(x) => x,
        Err(e) => {
            return Err(e);
        },
    };
    if n_params >= 16 {
        return Err(validation_error("too many parameters"));
    }
    let mut i: u32 = 0;
    while i < n_params
        invariant
            pos < p <= bytes@.len(),
            i <= n_params < 16,
        decreases n_params - i,
    {
        p = match read_valtype(bytes, p) {
            Ok(x) => x,
            Err(e) => {
                return Err(e);
            },
        };
        i = i + 1;
    }
    let (n_results, mut p2) = match read_u32(bytes, p) {
        Ok(x) => x,
        Err(e) => {
            return Err(e);
        },
    };
    if n_results > 1 {
        return Err(validation_error("more than one result"));
    }
    if n_results == 1 {
        p2 = match read_valtype(bytes, p2) {
            Ok(x) => x,
            Err(e) => {
                return Err(e);
            },
        };
    }
    Ok((IrSignature { params: n_params, results: n_results }, p2))
}

/// Reads one code-section entry: the locals declarations, then the body.
fn read_code_entry(bytes: &[u8], pos: usize, entry_end: usize) -> (r: Result<
    WasmFuncBody,
    PvfError,
>)
    requires
        pos <= entry_end <= bytes@.len(),
    ensures
        match r {
            Ok(body) => body.n_locals < 0x10000,
            Err(e) => e is ParseError || e is ValidationError,
        },
{
    let (n_decls, mut p) = match read_u32(bytes, pos) {
        Ok(x) => x,
        Err(e) => {
            return Err(e);
        },
    };
    if n_decls >= 0x10000 {
        return Err(validation_error("too many locals"));
    }
    let mut n_locals: u64 = 0;
    let mut i: u32 = 0;
    while i < n_decls
        invariant
            p <= bytes@.len(),
            i <= n_decls < 0x10000,
            n_locals <= 0x100000000u64 * i,
        decreases n_decls - i,
    {
        let (count, p2) = match read_u32(bytes, p) {
            Ok(x) => x,
            Err(e) => {
                return Err(e);
            },
        };
        p = match read_valtype(bytes, p2) {
            Ok(x) => x,
            Err(e) => {
                return Err(e);
            },
        };
        n_locals = n_locals + count as u64;
        i = i + 1;
    }
    if n_locals >= 0x10000 {
        return Err(validation_error("too many locals"));
    }
    let mut ops: Vec<WasmOp> = Vec::new();
    while p < entry_end
        invariant
            p <= bytes@.len(),
            entry_end <= bytes@.len(),
        decreases bytes@.len() - p,
    {
        let (op, p2) = match read_op(bytes, p) {
            Ok(x) => x,
            Err(e) => {
                return Err(e);
            },
        };
        ops.push(op);
        p = p2;
    }
    if p != entry_end {
        return Err(parse_error("function body overruns its declared size"));
    }
    Ok(WasmFuncBody { n_locals: n_locals as u32, ops })
}

/// Checks every index the module mentions, so that `wf` holds of what the
/// decoder hands out.
fn validate(m: &WasmModule) -> (r: bool)
    ensures
        r == m.wf(),
{
    if m.func_type_indices.len() != m.code.len() {
        return false;
    }
    if m.func_imports.len() >= 0x10000 {
        return false;
    }
    if m.code.len() >= 0x10000 - m.func_imports.len() {
        return false;
    }
    let n_types = m.types.len();
    let mut i: usize = 0;
    while i < m.func_type_indices.len()
        invariant
            i <= m.func_type_indices@.len(),
            n_types == m.types@.len(),
            forall|k: int| 0 <= k < i ==> m.func_type_indices@[k] < n_types,
        decreases m.func_type_indices@.len() - i,
    {
        if m.func_type_indices[i] as usize >= n_types {
            return false;
        }
        i = i + 1;
    }
    let mut i: usize = 0;
    while i < m.func_imports.len()
        invariant
            i <= m.func_imports@.len(),
            n_types == m.types@.len(),
            forall|k: int| 0 <= k < i ==> m.func_imports@[k].type_index < n_types,
        decreases m.func_imports@.len() - i,
    {
        if m.func_imports[i].type_index as usize >= n_types {
            return false;
        }
        i = i + 1;
    }
    let n_funcs = m.func_imports.len() + m.code.len();
    let mut i: usize = 0;
    while i < m.exports.len()
        invariant
            i <= m.exports@.len(),
            n_funcs == m.n_funcs(),
            forall|k: int| 0 <= k < i ==> m.exports@[k].func_index < n_funcs,
        decreases m.exports@.len() - i,
    {
        if m.exports[i].func_index as usize >= n_funcs {
            return false;
        }
        i = i + 1;
    }
    let mut i: usize = 0;
    while i < m.elements.len()
        invariant
            i <= m.elements@.len(),
            n_funcs == m.n_funcs(),
            forall|k: int, j: int|
                0 <= k < i && 0 <= j < m.elements@[k].func_indices@.len()
                    ==> m.elements@[k].func_indices@[j] < n_funcs,
        decreases m.elements@.len() - i,
    {
        let elem = &m.elements[i];
        let mut j: usize = 0;
        while j < elem.func_indices.len()
            invariant
                j <= elem.func_indices@.len(),
                n_funcs == m.n_funcs(),
                elem == &m.elements@[i as int],
                i < m.elements@.len(),
                forall|q: int| 0 <= q < j ==> elem.func_indices@[q] < n_funcs,
                forall|k: int, q: int|
                    0 <= k < i && 0 <= q < m.elements@[k].func_indices@.len()
                        ==> m.elements@[k].func_indices@[q] < n_funcs,
            decreases elem.func_indices@.len() - j,
        {
            if elem.func_indices[j] as usize >= n_funcs {
                return false;
            }
            j = j + 1;
        }
        i = i + 1;
    }
    let mut i: usize = 0;
    while i < m.types.len()
        invariant
            i <= m.types@.len(),
            forall|k: int|
                0 <= k < i ==> (#[trigger] m.types@[k]).params < 16 && m.types@[k].results <= 1,
        decreases m.types@.len() - i,
    {
        let t = &m.types[i];
        if t.params >= 16 || t.results > 1 {
            return false;
        }
        i = i + 1;
    }
    let mut i: usize = 0;
    while i < m.code.len()
        invariant
            i <= m.code@.len(),
            forall|k: int| 0 <= k < i ==> (#[trigger] m.code@[k]).n_locals < 0x10000,
        decreases m.code@.len() - i,
    {
        if m.code[i].n_locals >= 0x10000 {
            return false;
        }
        i = i + 1;
    }
    true
}

/// Decodes a whole binary module. On success the result is well-formed:
/// every index it mentions stays inside the module.
pub fn decode_module(bytes: &[u8]) -> (r: Result<WasmModule, PvfError>)
    ensures
        match r {
            Ok(m) => m.wf(),
            Err(e) => e is ParseError || e is ValidationError,
        },
{
    if bytes.len() < 8 {
        return Err(parse_error("not a module: too short"));
    }
    if bytes[0] != 0x00 || bytes[1] != 0x61 || bytes[2] != 0x73 || bytes[3] != 0x6d {
        return Err(parse_error("not a module: bad magic"));
    }
    if bytes[4] != 0x01 || bytes[5] != 0x00 || bytes[6] != 0x00 || bytes[7] != 0x00 {
        return Err(parse_error("unsupported version"));
    }
    let mut m = WasmModule {
        types: Vec::new(),
        func_imports: Vec::new(),
        imported_globals: 0,
        func_type_indices: Vec::new(),
        tables: Vec::new(),
        memory: None,
        globals: Vec::new(),
        exports: Vec::new(),
        elements: Vec::new(),
        datas: Vec::new(),
        code: Vec::new(),
    };
    let mut pos: usize = 8;
    let mut last_section: u8 = 0;
    while pos < bytes.len()
        invariant
            pos <= bytes@.len(),
        decreases bytes@.len() - pos,
    {
        let section_id = bytes[pos];
        // sections come at most once, in ascending order; custom sections
        // may stand anywhere
        if section_id != 0 {
            if section_id <= last_section {
                return Err(parse_error("section out of order"));
            }
            last_section = section_id;
        }
        let (size, p) = match read_u32(bytes, pos + 1) {
            Ok(x) => x,
            Err(e) => {
                return Err(e);
            },
        };
        if bytes.len() - p < size as usize {
            return Err(parse_error("section overruns the module"));
        }
        let section_end = p + size as usize;
        match section_id {
            0 => {
                // custom section: skipped
            },
            1 => {
                let (count, mut sp) = match read_u32(bytes, p) {
                    Ok(x) => x,
                    Err(e) => {
                        return Err(e);
                    },
                };
                let mut i: u32 = 0;
                while i < count
                    invariant
                        sp <= bytes@.len(),
                        i <= count,
                    decreases count - i,
                {
                    let (sig, sp2) = match read_func_type(bytes, sp) {
                        Ok(x) => x,
                        Err(e) => {
                            return Err(e);
                        },
                    };
                    m.types.push(sig);
                    sp = sp2;
                    i = i + 1;
                }
                if sp != section_end {
                    return Err(parse_error("type section size mismatch"));
                }
            },
            2 => {
                let (count, mut sp) = match read_u32(bytes, p) {
                    Ok(x) => x,
                    Err(e) => {
                        return Err(e);
                    },
                };
                let mut i: u32 = 0;
                while i < count
                    invariant
                        sp <= bytes@.len(),
                        i <= count,
                    decreases count - i,
                {
                    let (module, sp2) = match read_name(bytes, sp) {
                        Ok(x) => x,
                        Err(e) => {
                            return Err(e);
                        },
                    };
                    let (name, sp3) = match read_name(bytes, sp2) {
                        Ok(x) => x,
                        Err(e) => {
                            return Err(e);
                        },
                    };
                    if sp3 >= bytes.len() {
                        return Err(parse_error("truncated import section"));
                    }
                    let kind = bytes[sp3];
                    if kind == 0x00 {
                        let (ti, sp4) = match read_u32(bytes, sp3 + 1) {
                            Ok(x) => x,
                            Err(e) => {
                                return Err(e);
                            },
                        };
                        m.func_imports.push(WasmImport { module, name, type_index: ti });
                        sp = sp4;
                    } else if kind == 0x03 {
                        let sp4 = match read_valtype(bytes, sp3 + 1) {
                            Ok(x) => x,
                            Err(e) => {
                                return Err(e);
                            },
                        };
                        if sp4 >= bytes.len() {
                            return Err(parse_error("truncated import section"));
                        }
                        if bytes[sp4] > 1 {
                            return Err(validation_error("bad mutability flag"));
                        }
                        if m.imported_globals == u32::MAX {
                            return Err(validation_error("too many imported globals"));
                        }
                        m.imported_globals = m.imported_globals + 1;
                        sp = sp4 + 1;
                    } else {
                        return Err(validation_error("unsupported import kind"));
                    }
                    i = i + 1;
                }
                if sp != section_end {
                    return Err(parse_error("import section size mismatch"));
                }
            },
            3 => {
                let (count, mut sp) = match read_u32(bytes, p) {
                    Ok(x) => x,
                    Err(e) => {
                        return Err(e);
                    },
                };
                let mut i: u32 = 0;
                while i < count
                    invariant
                        sp <= bytes@.len(),
                        i <= count,
                    decreases count - i,
                {
                    let (ti, sp2) = match read_u32(bytes, sp) {
                        Ok(x) => x,
                        Err(e) => {
                            return Err(e);
                        },
                    };
                    m.func_type_indices.push(ti);
                    sp = sp2;
                    i = i + 1;
                }
                if sp != section_end {
                    return Err(parse_error("function section size mismatch"));
                }
            },
            4 => {
                let (count, mut sp) = match read_u32(bytes, p) {
                    Ok(x) => x,
                    Err(e) => {
                        return Err(e);
                    },
                };
                let mut i: u32 = 0;
                while i < count
                    invariant
                        sp <= bytes@.len(),
                        i <= count,
                    decreases count - i,
                {
                    if sp >= bytes.len() {
                        return Err(parse_error("truncated table section"));
                    }
                    if bytes[sp] != 0x70 {
                        return Err(validation_error("unsupported element type"));
                    }
                    let (min, max, sp2) = match read_limits(bytes, sp + 1) {
                        Ok(x) => x,
                        Err(e) => {
                            return Err(e);
                        },
                    };
                    let max_size = match max {
                        Some(x) => x,
                        None => min,
                    };
                    m.tables.push(max_size);
                    sp = sp2;
                    i = i + 1;
                }
                if sp != section_end {
                    return Err(parse_error("table section size mismatch"));
                }
            },
            5 => {
                let (count, mut sp) = match read_u32(bytes, p) {
                    Ok(x) => x,
                    Err(e) => {
                        return Err(e);
                    },
                };
                if count > 1 {
                    return Err(validation_error("more than one memory"));
                }
                if count == 1 {
                    let (min, max, sp2) = match read_limits(bytes, sp) {
                        Ok(x) => x,
                        Err(e) => {
                            return Err(e);
                        },
                    };
                    let max_pages = match max {
                        Some(x) => x,
                        None => min,
                    };
                    m.memory = Some((min, max_pages));
                    sp = sp2;
                }
                if sp != section_end {
                    return Err(parse_error("memory section size mismatch"));
                }
            },
            6 => {
                let (count, mut sp) = match read_u32(bytes, p) {
                    Ok(x) => x,
                    Err(e) => {
                        return Err(e);
                    },
                };
                let mut i: u32 = 0;
                while i < count
                    invariant
                        sp <= bytes@.len(),
                        i <= count,
                    decreases count - i,
                {
                    let sp2 = match read_valtype(bytes, sp) {
                        Ok(x) => x,
                        Err(e) => {
                            return Err(e);
                        },
                    };
                    if sp2 >= bytes.len() {
                        return Err(parse_error("truncated global section"));
                    }
                    if bytes[sp2] > 1 {
                        return Err(validation_error("bad mutability flag"));
                    }
                    let (init, sp3) = match read_const_expr(bytes, sp2 + 1) {
                        Ok(x) => x,
                        Err(e) => {
                            return Err(e);
                        },
                    };
                    m.globals.push(WasmGlobal { init });
                    sp = sp3;
                    i = i + 1;
                }
                if sp != section_end {
                    return Err(parse_error("global section size mismatch"));
                }
            },
            7 => {
                let (count, mut sp) = match read_u32(bytes, p) {
                    Ok(x) => x,
                    Err(e) => {
                        return Err(e);
                    },
                };
                let mut i: u32 = 0;
                while i < count
                    invariant
                        sp <= bytes@.len(),
                        i <= count,
                    decreases count - i,
                {
                    let (name, sp2) = match read_name(bytes, sp) {
                        Ok(x) => x,
                        Err(e) => {
                            return Err(e);
                        },
                    };
                    if sp2 >= bytes.len() {
                        return Err(parse_error("truncated export section"));
                    }
                    let kind = bytes[sp2];
                    let (idx, sp3) = match read_u32(bytes, sp2 + 1) {
                        Ok(x) => x,
                        Err(e) => {
                            return Err(e);
                        },
                    };
                    if kind == 0x00 {
                        m.exports.push(WasmExport { name, func_index: idx });
                    }
                    // exports of other kinds carry no address: skipped
                    sp = sp3;
                    i = i + 1;
                }
                if sp != section_end {
                    return Err(parse_error("export section size mismatch"));
                }
            },
            9 => {
                let (count, mut sp) = match read_u32(bytes, p) {
                    Ok(x) => x,
                    Err(e) => {
                        return Err(e);
                    },
                };
                let mut i: u32 = 0;
                while i < count
                    invariant
                        sp <= bytes@.len(),
                        i <= count,
                    decreases count - i,
                {
                    let (flags, sp2) = match read_u32(bytes, sp) {
                        Ok(x) => x,
                        Err(e) => {
                            return Err(e);
                        },
                    };
                    if flags != 0 {
                        return Err(validation_error("unsupported element segment mode"));
                    }
                    let (offset, sp3) = match read_const_expr(bytes, sp2) {
                        Ok(x) => x,
                        Err(e) => {
                            return Err(e);
                        },
                    };
                    let (n, mut sp4) = match read_u32(bytes, sp3) {
                        Ok(x) => x,
                        Err(e) => {
                            return Err(e);
                        },
                    };
                    if n >= 0x10000 {
                        return Err(validation_error("too many element entries"));
                    }
                    let mut func_indices: Vec<u32> = Vec::new();
                    let mut j: u32 = 0;
                    while j < n
                        invariant
                            sp4 <= bytes@.len(),
                            j <= n,
                        decreases n - j,
                    {
                        let (fi, sp5) = match read_u32(bytes, sp4) {
                            Ok(x) => x,
                            Err(e) => {
                                return Err(e);
                            },
                        };
                        func_indices.push(fi);
                        sp4 = sp5;
                        j = j + 1;
                    }
                    m.elements.push(WasmElement { offset, func_indices });
                    sp = sp4;
                    i = i + 1;
                }
                if sp != section_end {
                    return Err(parse_error("element section size mismatch"));
                }
            },
            10 => {
                let (count, mut sp) = match read_u32(bytes, p) {
                    Ok(x) => x,
                    Err(e) => {
                        return Err(e);
                    },
                };
                let mut i: u32 = 0;
                while i < count
                    invariant
                        sp <= bytes@.len(),
                        i <= count,
                    decreases count - i,
                {
                    let (body_size, sp2) = match read_u32(bytes, sp) {
                        Ok(x) => x,
                        Err(e) => {
                            return Err(e);
                        },
                    };
                    if bytes.len() - sp2 < body_size as usize {
                        return Err(parse_error("function body overruns the module"));
                    }
                    let entry_end = sp2 + body_size as usize;
                    let body = match read_code_entry(bytes, sp2, entry_end) {
                        Ok(x) => x,
                        Err(e) => {
                            return Err(e);
                        },
                    };
                    m.code.push(body);
                    sp = entry_end;
                    i = i + 1;
                }
                if sp != section_end {
                    return Err(parse_error("code section size mismatch"));
                }
            },
            11 => {
                let (count, mut sp) = match read_u32(bytes, p) {
                    Ok(x) => x,
                    Err(e) => {
                        return Err(e);
                    },
                };
                let mut i: u32 = 0;
                while i < count
                    invariant
                        sp <= bytes@.len(),
                        i <= count,
                    decreases count - i,
                {
                    let (flags, sp2) = match read_u32(bytes, sp) {
                        Ok(x) => x,
                        Err(e) => {
                            return Err(e);
                        },
                    };
                    if flags != 0 {
                        return Err(validation_error("unsupported data segment mode"));
                    }
                    let (offset, sp3) = match read_const_expr(bytes, sp2) {
                        Ok(x) => x,
                        Err(e) => {
                            return Err(e);
                        },
                    };
                    let (n, sp4) = match read_u32(bytes, sp3) {
                        Ok(x) => x,
                        Err(e) => {
                            return Err(e);
                        },
                    };
                    if bytes.len() - sp4 < n as usize {
                        return Err(parse_error("data segment overruns the module"));
                    }
                    let seg_end = sp4 + n as usize;
                    let mut seg: Vec<u8> = Vec::new();
                    let mut q = sp4;
                    while q < seg_end
                        invariant
                            q <= seg_end <= bytes@.len(),
                        decreases seg_end - q,
                    {
                        seg.push(bytes[q]);
                        q = q + 1;
                    }
                    m.datas.push(WasmData { offset, bytes: seg });
                    sp = seg_end;
                    i = i + 1;
                }
                if sp != section_end {
                    return Err(parse_error("data section size mismatch"));
                }
            },
            _ => {
                return Err(validation_error("unsupported section"));
            },
        }
        pos = section_end;
    }
    if !validate(&m) {
        return Err(validation_error("the module mentions an index outside itself"));
    }
    Ok(m)
}

} // verus!
