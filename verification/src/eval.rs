//! A reference evaluator for the IR: it gives the register operations the
//! same meaning the x86-64 lowering gives them, one 64-bit slot per value,
//! so a translated module can be executed and checked without placing any
//! machine code in memory.

use vstd::prelude::*;

use crate::ir::{IrCond, IrCp, IrFunc, IrLabel, IrOperand, IrPvf, IrReg};

verus! {

/// How an evaluation ends early: a runtime trap (what the machine code
/// would raise as a signal), exhausted fuel, or a state the lowering could
/// never reach.
#[derive(Debug, Clone, PartialEq, Eq, Structural)]
pub enum EvalError {
    Trap,
    OutOfFuel,
    Invalid,
    ExportNotFound,
}

/// The value of the low `w` bits of `v`.
pub open spec fn low_bits(v: u64, w: nat) -> u64 {
    (v as nat % vstd::arithmetic::power2::pow2(w)) as u64
}

/// Sign extension of the low byte to 64 bits: the low bits kept, the rest
/// filled from the sign bit.
pub open spec fn sign_extend8_spec(v: u64) -> u64 {
    if v & 0x80 == 0 {
        v & 0xFF
    } else {
        (v & 0xFF) | 0xFFFFFFFFFFFFFF00
    }
}

/// Sign extension of the low 16 bits to 64 bits.
pub open spec fn sign_extend16_spec(v: u64) -> u64 {
    if v & 0x8000 == 0 {
        v & 0xFFFF
    } else {
        (v & 0xFFFF) | 0xFFFFFFFFFFFF0000
    }
}

/// Sign extension of the low 32 bits to 64 bits.
pub open spec fn sign_extend32_spec(v: u64) -> u64 {
    if v & 0x80000000 == 0 {
        v & 0xFFFFFFFF
    } else {
        (v & 0xFFFFFFFF) | 0xFFFFFFFF00000000
    }
}

/// The evaluator's sign extensions mean exactly that: a loaded narrow value,
/// re-widened through the signed casts the machine instructions perform,
/// keeps its low bits and fills the rest from its sign bit.
pub proof fn lemma_sign_extension_matches(v: u64)
    ensures
        ((((v as u8) as i8) as i64) as u64) == sign_extend8_spec(v),
        ((((v as u16) as i16) as i64) as u64) == sign_extend16_spec(v),
        ((((v as u32) as i32) as i64) as u64) == sign_extend32_spec(v),
{
    assert((((v as u8) as i8) as i64) as u64 == (if v & 0x80 == 0 {
        v & 0xFF
    } else {
        (v & 0xFF) | 0xFFFFFFFFFFFFFF00
    })) by (bit_vector);
    assert((((v as u16) as i16) as i64) as u64 == (if v & 0x8000 == 0 {
        v & 0xFFFF
    } else {
        (v & 0xFFFF) | 0xFFFFFFFFFFFF0000
    })) by (bit_vector);
    assert((((v as u32) as i32) as i64) as u64 == (if v & 0x80000000 == 0 {
        v & 0xFFFFFFFF
    } else {
        (v & 0xFFFFFFFF) | 0xFFFFFFFF00000000
    })) by (bit_vector);
}

/// Truncates to the low 32 bits, zero-extended: what every 32-bit register
/// write does.
pub fn zx32(v: u64) -> (r: u64)
    ensures
        r == v & 0xFFFFFFFFu64,
        r <= 0xFFFFFFFF,
{
    let r = v & 0xFFFFFFFF;
    proof {
        assert(v & 0xFFFFFFFFu64 <= 0xFFFFFFFF) by (bit_vector);
    }
    r
}

/// Wasm's unsigned division. Defined exactly when the divisor is not zero;
/// the machine instruction raises a trap otherwise, and the evaluator
/// reports one before calling this.
pub fn wasm_div_u(a: u64, b: u64) -> (r: u64)
    requires
        b != 0,
    ensures
        r == a as int / b as int,
{
    a / b
}

/// Wasm's unsigned remainder.
pub fn wasm_rem_u(a: u64, b: u64) -> (r: u64)
    requires
        b != 0,
    ensures
        r == a as int % b as int,
{
    a % b
}

/// The absolute value, as an integer.
pub open spec fn abs_int(a: int) -> int {
    if a < 0 {
        -a
    } else {
        a
    }
}

/// Truncated division, the source language's signed `div`: the quotient of
/// the magnitudes, negated when the signs differ.
pub open spec fn div_trunc(a: int, b: int) -> int {
    if (a < 0) == (b < 0) {
        abs_int(a) / abs_int(b)
    } else {
        -(abs_int(a) / abs_int(b))
    }
}

/// Truncated remainder: what is left of `a` after removing `b` times the
/// truncated quotient; its sign follows the dividend.
pub open spec fn rem_trunc(a: int, b: int) -> int {
    a - b * div_trunc(a, b)
}

/// Wasm's signed division: truncated toward zero. Defined exactly when the
/// divisor is not zero and the quotient fits, which excludes only the
/// smallest value divided by minus one; both excluded inputs trap in the
/// machine code and in the evaluator.
pub fn wasm_div_s(a: i64, b: i64) -> (r: i64)
    requires
        b != 0,
        !(a == i64::MIN && b == -1),
    ensures
        r == div_trunc(a as int, b as int),
{
    let neg = (a < 0) != (b < 0);
    let ua: u64 = if a < 0 {
        (-(a as i128)) as u64
    } else {
        a as u64
    };
    let ub: u64 = if b < 0 {
        (-(b as i128)) as u64
    } else {
        b as u64
    };
    let q = ua / ub;
    proof {
        assert(ua == abs_int(a as int));
        assert(ub == abs_int(b as int));
        if neg {
            assert(a == i64::MIN && b == 1 ==> q == 0x8000000000000000u64);
            assert(q <= 0x8000000000000000u64) by {
                vstd::arithmetic::div_mod::lemma_div_is_ordered(
                    ua as int,
                    0x8000000000000000int,
                    ub as int,
                );
                vstd::arithmetic::div_mod::lemma_div_basics(0x8000000000000000int);
                if ub > 1 {
                    vstd::arithmetic::div_mod::lemma_div_is_ordered_by_denominator(
                        0x8000000000000000int,
                        1,
                        ub as int,
                    );
                }
            }
        } else {
            assert(q < 0x8000000000000000u64) by {
                if b < 0 {
                    // the excluded input is the only one whose magnitude
                    // quotient reaches the sign bit
                    assert(ub >= 2 || (b == -1 && a != i64::MIN));
                    if ub >= 2 {
                        vstd::arithmetic::div_mod::lemma_div_is_ordered(
                            ua as int,
                            0x10000000000000000int - 1,
                            ub as int,
                        );
                        assert((0x10000000000000000int - 1) / 2 < 0x8000000000000000int);
                        vstd::arithmetic::div_mod::lemma_div_is_ordered_by_denominator(
                            0x10000000000000000int - 1,
                            2,
                            ub as int,
                        );
                    } else {
                        vstd::arithmetic::div_mod::lemma_div_basics(ua as int);
                    }
                } else {
                    vstd::arithmetic::div_mod::lemma_div_is_ordered(
                        ua as int,
                        0x8000000000000000int - 1,
                        ub as int,
                    );
                    vstd::arithmetic::div_mod::lemma_div_basics(0x8000000000000000int - 1);
                    if ub > 1 {
                        vstd::arithmetic::div_mod::lemma_div_is_ordered_by_denominator(
                            0x8000000000000000int - 1,
                            1,
                            ub as int,
                        );
                    }
                }
            }
        }
    }
    if neg {
        (-(q as i128)) as i64
    } else {
        q as i64
    }
}

/// Wasm's signed remainder: the sign follows the dividend, and
/// `a == b * (a div b) + (a rem b)` under truncated division.
pub fn wasm_rem_s(a: i64, b: i64) -> (r: i64)
    requires
        b != 0,
    ensures
        r == rem_trunc(a as int, b as int),
{
    let ua: u64 = if a < 0 {
        (-(a as i128)) as u64
    } else {
        a as u64
    };
    let ub: u64 = if b < 0 {
        (-(b as i128)) as u64
    } else {
        b as u64
    };
    let m = ua % ub;
    proof {
        assert(ua == abs_int(a as int));
        assert(ub == abs_int(b as int));
        vstd::arithmetic::div_mod::lemma_fundamental_div_mod(ua as int, ub as int);
        let q = abs_int(a as int) / abs_int(b as int);
        // remove the signs: in every case the leftover magnitude is the
        // magnitude remainder
        if (a < 0) == (b < 0) {
            assert(a as int - b as int * q == (if a < 0 {
                -(ua as int - ub as int * q)
            } else {
                ua as int - ub as int * q
            })) by (nonlinear_arith)
                requires
                    ua == abs_int(a as int),
                    ub == abs_int(b as int),
                    (a < 0) == (b < 0),
                    q == abs_int(a as int) / abs_int(b as int),
            ;
        } else {
            assert(a as int - b as int * (-q) == (if a < 0 {
                -(ua as int - ub as int * q)
            } else {
                ua as int - ub as int * q
            })) by (nonlinear_arith)
                requires
                    ua == abs_int(a as int),
                    ub == abs_int(b as int),
                    (a < 0) != (b < 0),
                    q == abs_int(a as int) / abs_int(b as int),
            ;
        }
    }
    if a < 0 {
        (-(m as i128)) as i64
    } else {
        m as i64
    }
}

/// The shift count an operation of width 64 actually uses: the machine
/// reduces it modulo the operand width, exactly as the source language asks.
pub fn shift_count_64(cnt: u64) -> (r: u64)
    ensures
        r == cnt % 64,
        r < 64,
{
    proof {
        assert(cnt & 63 == cnt % 64) by (bit_vector);
    }
    cnt & 63
}

/// The shift count an operation of width 32 actually uses.
pub fn shift_count_32(cnt: u64) -> (r: u64)
    ensures
        r == cnt % 32,
        r < 32,
{
    proof {
        assert(cnt & 31 == cnt % 32) by (bit_vector);
    }
    cnt & 31
}

/// Clamping a branch-table selector: the translator compares the selector
/// with the table's last index and replaces it on strictly-above, so the
/// jump's index is the selector while it is in range and the last index --
/// the default target -- as soon as it goes past the end.
pub proof fn lemma_br_table_clamp(s: u64, limit: u64)
    ensures
        ({
            let clamped = if cond_spec(s, limit, false, IrCond::GreaterUnsigned) {
                limit
            } else {
                s
            };
            &&& clamped <= limit
            &&& (s <= limit ==> clamped == s)
            &&& (s > limit ==> clamped == limit)
        }),
{
}

/// The machine state the evaluator drives: the operand stack as 64-bit
/// slots, the three scratches, the frame registers holding stack indices,
/// the comparison flags, the linear memory with its page accounting, the
/// globals and the tables.
pub struct EvalState {
    pub stack: Vec<u64>,
    pub sp: usize,
    pub reg_a: u64,
    pub reg_c: u64,
    pub reg_d: u64,
    pub ffp: u64,
    pub bfp: u64,
    pub flag_lhs: u64,
    pub flag_rhs: u64,
    pub flag_is64: bool,
    pub memory: Vec<u8>,
    pub mem_pages: u32,
    pub mem_max_pages: u32,
    pub globals: Vec<u64>,
    pub tables: Vec<Vec<u64>>,
    pub abi_params: Vec<u64>,
    pub table_cursor: usize,
}

/// What each condition means over the recorded comparison operands.
pub open spec fn cond_spec(lhs: u64, rhs: u64, is64: bool, cond: IrCond) -> bool {
    match cond {
        IrCond::Zero => lhs == rhs,
        IrCond::Equal => lhs == rhs,
        IrCond::NotEqual => lhs != rhs,
        IrCond::LessUnsigned => lhs < rhs,
        IrCond::GreaterUnsigned => lhs > rhs,
        IrCond::LessOrEqualUnsigned => lhs <= rhs,
        IrCond::GreaterOrEqualUnsigned => lhs >= rhs,
        IrCond::LessSigned => if is64 {
            (lhs as i64) < (rhs as i64)
        } else {
            ((lhs as u32) as i32) < ((rhs as u32) as i32)
        },
        IrCond::GreaterSigned => if is64 {
            (lhs as i64) > (rhs as i64)
        } else {
            ((lhs as u32) as i32) > ((rhs as u32) as i32)
        },
        IrCond::LessOrEqualSigned => if is64 {
            (lhs as i64) <= (rhs as i64)
        } else {
            ((lhs as u32) as i32) <= ((rhs as u32) as i32)
        },
        IrCond::GreaterOrEqualSigned => if is64 {
            (lhs as i64) >= (rhs as i64)
        } else {
            ((lhs as u32) as i32) >= ((rhs as u32) as i32)
        },
    }
}

fn eval_cond(st: &EvalState, cond: &IrCond) -> (r: bool)
    ensures
        r == cond_spec(st.flag_lhs, st.flag_rhs, st.flag_is64, *cond),
{
    let l = st.flag_lhs;
    let r = st.flag_rhs;
    match cond {
        IrCond::Zero => l == r,
        IrCond::Equal => l == r,
        IrCond::NotEqual => l != r,
        IrCond::LessUnsigned => l < r,
        IrCond::GreaterUnsigned => l > r,
        IrCond::LessOrEqualUnsigned => l <= r,
        IrCond::GreaterOrEqualUnsigned => l >= r,
        IrCond::LessSigned => {
            if st.flag_is64 {
                (l as i64) < (r as i64)
            } else {
                (#[verifier::truncate] (l as u32) as i32) < (#[verifier::truncate] (r as u32) as i32)
            }
        },
        IrCond::GreaterSigned => {
            if st.flag_is64 {
                (l as i64) > (r as i64)
            } else {
                (#[verifier::truncate] (l as u32) as i32) > (#[verifier::truncate] (r as u32) as i32)
            }
        },
        IrCond::LessOrEqualSigned => {
            if st.flag_is64 {
                (l as i64) <= (r as i64)
            } else {
                (#[verifier::truncate] (l as u32) as i32) <= (#[verifier::truncate] (r as u32) as i32)
            }
        },
        IrCond::GreaterOrEqualSigned => {
            if st.flag_is64 {
                (l as i64) >= (r as i64)
            } else {
                (#[verifier::truncate] (l as u32) as i32) >= (#[verifier::truncate] (r as u32) as i32)
            }
        },
    }
}

fn read_reg(st: &EvalState, r: &IrReg) -> (v: u64) {
    match r {
        IrReg::Sra => st.reg_a,
        IrReg::Src => st.reg_c,
        IrReg::Srd => st.reg_d,
        IrReg::Ffp => st.ffp,
        IrReg::Bfp => st.bfp,
        IrReg::Stp => st.sp as u64,
    }
}

/// Writes a full register. Writing the stack pointer moves the top of the
/// stack: the lowering only ever lowers it, unwinding a frame.
fn write_reg(st: &mut EvalState, r: &IrReg, v: u64) -> (ok: bool) {
    match r {
        IrReg::Sra => {
            st.reg_a = v;
            true
        },
        IrReg::Src => {
            st.reg_c = v;
            true
        },
        IrReg::Srd => {
            st.reg_d = v;
            true
        },
        IrReg::Ffp => {
            st.ffp = v;
            true
        },
        IrReg::Bfp => {
            st.bfp = v;
            true
        },
        IrReg::Stp => {
            if v <= st.stack.len() as u64 {
                st.sp = v as usize;
                true
            } else {
                false
            }
        },
    }
}

/// The little-endian value of `w` bytes at `base`.
pub open spec fn load_le_spec(mem: Seq<u8>, base: int, w: int) -> u64
    decreases w,
{
    if w <= 0 {
        0
    } else {
        load_le_spec(mem, base, w - 1) | ((mem[base + (w - 1)] as u64) << (8 * (w - 1)) as u64)
    }
}

/// Pushes one slot; the arena is fixed, so running past it is reported.
fn push_slot(st: &mut EvalState, v: u64) -> (ok: bool)
    ensures
        final(st).abi_params == old(st).abi_params,
        final(st).memory == old(st).memory,
{
    if st.sp < st.stack.len() {
        let sp = st.sp;
        st.stack.set(sp, v);
        st.sp = sp + 1;
        true
    } else {
        false
    }
}

/// Pops one slot.
fn pop_slot(st: &mut EvalState) -> (r: Option<u64>)
    ensures
        final(st).abi_params == old(st).abi_params,
        final(st).memory == old(st).memory,
{
    if st.sp > 0 && st.sp <= st.stack.len() {
        st.sp = st.sp - 1;
        Some(st.stack[st.sp])
    } else {
        None
    }
}

/// Loads `width` bytes little-endian from memory, zero-extended.
fn mem_load_bytes(mem: &Vec<u8>, addr: u64, width: u32) -> (r: Option<u64>)
    requires
        width == 1 || width == 2 || width == 4 || width == 8,
    ensures
        match r {
            Some(v) => addr + width <= mem@.len() && v == load_le_spec(
                mem@,
                addr as int,
                width as int,
            ),
            None => true,
        },
{
    if addr > u64::MAX - width as u64 {
        return None;
    }
    let end = addr + width as u64;
    if end > mem.len() as u64 {
        return None;
    }
    let base = addr as usize;
    let mlen = mem.len();
    let mut v: u64 = 0;
    let mut i: usize = 0;
    while i < width as usize
        invariant
            width <= 8,
            base + width <= mlen,
            base == addr,
            mlen == mem@.len(),
            i <= width,
            v == load_le_spec(mem@, base as int, i as int),
        decreases width - i,
    {
        let b = mem[base + i];
        v = v | ((b as u64) << ((8 * i) as u64));
        i = i + 1;
    }
    Some(v)
}

fn mem_load(st: &EvalState, addr: u64, width: u32) -> (r: Option<u64>)
    requires
        width == 1 || width == 2 || width == 4 || width == 8,
{
    mem_load_bytes(&st.memory, addr, width)
}

/// Stores the low `width` bytes of `v` little-endian into memory.
fn mem_store_bytes(mem: &mut Vec<u8>, addr: u64, width: u32, v: u64) -> (ok: bool)
    requires
        width == 1 || width == 2 || width == 4 || width == 8,
    ensures
        ok ==> {
            &&& final(mem)@.len() == old(mem)@.len()
            &&& addr + width <= old(mem)@.len()
            &&& forall|i: int|
                0 <= i < width ==> #[trigger] final(mem)@[addr + i] == ((v >> (8 * i) as u64)
                    as u8)
            &&& forall|j: int|
                0 <= j < old(mem)@.len() && !(addr <= j < addr + width) ==> final(mem)@[j] == old(
                    mem,
                )@[j]
        },
        !ok ==> final(mem)@ == old(mem)@,
{
    if addr > u64::MAX - width as u64 {
        return false;
    }
    let end = addr + width as u64;
    if end > mem.len() as u64 {
        return false;
    }
    let base = addr as usize;
    let mlen = mem.len();
    let mut i: usize = 0;
    while i < width as usize
        invariant
            width <= 8,
            base + width <= mlen,
            base == addr,
            mlen == mem@.len(),
            i <= width,
            forall|k: int| 0 <= k < i ==> #[trigger] mem@[base + k] == ((v >> (8 * k) as u64) as u8),
            forall|j: int|
                0 <= j < mem@.len() && !(base <= j < base + i) ==> mem@[j] == old(mem)@[j],
        decreases width - i,
    {
        let b = #[verifier::truncate] ((v >> ((8 * i) as u64)) as u8);
        mem.set(base + i, b);
        i = i + 1;
    }
    true
}

fn mem_store(st: &mut EvalState, addr: u64, width: u32, v: u64) -> (ok: bool)
    requires
        width == 1 || width == 2 || width == 4 || width == 8,
{
    mem_store_bytes(&mut st.memory, addr, width, v)
}

/// A value stored at any width and loaded back is preserved up to that
/// width: the load returns exactly the value's low bits, ready for the
/// zero- or sign-extension the operation asks for.
pub proof fn lemma_store_load_roundtrip(mem: Seq<u8>, base: int, v: u64, width: int)
    requires
        width == 1 || width == 2 || width == 4 || width == 8,
        0 <= base,
        base + width <= mem.len(),
        forall|i: int| 0 <= i < width ==> #[trigger] mem[base + i] == ((v >> (8 * i) as u64) as u8),
    ensures
        load_le_spec(mem, base, width) == low_bits(v, (8 * width) as nat),
{
    vstd::arithmetic::power2::lemma2_to64();
    assert(mem[base + 0] == ((v >> 0u64) as u8));
    let b0 = mem[base + 0] as u64;
    assert(load_le_spec(mem, base, 0) == 0);
    assert(load_le_spec(mem, base, 1) == 0u64 | (b0 << 0u64));
    if width == 1 {
        assert(0u64 | (b0 << 0u64) == v % 0x100) by (bit_vector)
            requires
                b0 == ((v >> 0u64) as u8) as u64,
        ;
    } else if width == 2 {
        assert(mem[base + 1] == ((v >> 8u64) as u8));
        let b1 = mem[base + 1] as u64;
        assert(load_le_spec(mem, base, 2) == (0u64 | (b0 << 0u64)) | (b1 << 8u64));
        assert((0u64 | (b0 << 0u64)) | (b1 << 8u64) == v % 0x10000) by (bit_vector)
            requires
                b0 == ((v >> 0u64) as u8) as u64,
                b1 == ((v >> 8u64) as u8) as u64,
        ;
    } else if width == 4 {
        assert(mem[base + 1] == ((v >> 8u64) as u8));
        assert(mem[base + 2] == ((v >> 16u64) as u8));
        assert(mem[base + 3] == ((v >> 24u64) as u8));
        let b1 = mem[base + 1] as u64;
        let b2 = mem[base + 2] as u64;
        let b3 = mem[base + 3] as u64;
        assert(load_le_spec(mem, base, 2) == (0u64 | (b0 << 0u64)) | (b1 << 8u64));
        assert(load_le_spec(mem, base, 3) == ((0u64 | (b0 << 0u64)) | (b1 << 8u64)) | (b2
            << 16u64));
        assert(load_le_spec(mem, base, 4) == (((0u64 | (b0 << 0u64)) | (b1 << 8u64)) | (b2
            << 16u64)) | (b3 << 24u64));
        assert((((0u64 | (b0 << 0u64)) | (b1 << 8u64)) | (b2 << 16u64)) | (b3 << 24u64) == v
            % 0x100000000) by (bit_vector)
            requires
                b0 == ((v >> 0u64) as u8) as u64,
                b1 == ((v >> 8u64) as u8) as u64,
                b2 == ((v >> 16u64) as u8) as u64,
                b3 == ((v >> 24u64) as u8) as u64,
        ;
    } else {
        assert(mem[base + 1] == ((v >> 8u64) as u8));
        assert(mem[base + 2] == ((v >> 16u64) as u8));
        assert(mem[base + 3] == ((v >> 24u64) as u8));
        assert(mem[base + 4] == ((v >> 32u64) as u8));
        assert(mem[base + 5] == ((v >> 40u64) as u8));
        assert(mem[base + 6] == ((v >> 48u64) as u8));
        assert(mem[base + 7] == ((v >> 56u64) as u8));
        let b1 = mem[base + 1] as u64;
        let b2 = mem[base + 2] as u64;
        let b3 = mem[base + 3] as u64;
        let b4 = mem[base + 4] as u64;
        let b5 = mem[base + 5] as u64;
        let b6 = mem[base + 6] as u64;
        let b7 = mem[base + 7] as u64;
        assert(load_le_spec(mem, base, 2) == (0u64 | (b0 << 0u64)) | (b1 << 8u64));
        assert(load_le_spec(mem, base, 3) == load_le_spec(mem, base, 2) | (b2 << 16u64));
        assert(load_le_spec(mem, base, 4) == load_le_spec(mem, base, 3) | (b3 << 24u64));
        assert(load_le_spec(mem, base, 5) == load_le_spec(mem, base, 4) | (b4 << 32u64));
        assert(load_le_spec(mem, base, 6) == load_le_spec(mem, base, 5) | (b5 << 40u64));
        assert(load_le_spec(mem, base, 7) == load_le_spec(mem, base, 6) | (b6 << 48u64));
        assert(load_le_spec(mem, base, 8) == load_le_spec(mem, base, 7) | (b7 << 56u64));
        assert(((((((((0u64 | (b0 << 0u64)) | (b1 << 8u64)) | (b2 << 16u64)) | (b3 << 24u64)) | (b4
            << 32u64)) | (b5 << 40u64)) | (b6 << 48u64)) | (b7 << 56u64)) == v) by (bit_vector)
            requires
                b0 == ((v >> 0u64) as u8) as u64,
                b1 == ((v >> 8u64) as u8) as u64,
                b2 == ((v >> 16u64) as u8) as u64,
                b3 == ((v >> 24u64) as u8) as u64,
                b4 == ((v >> 32u64) as u8) as u64,
                b5 == ((v >> 40u64) as u8) as u64,
                b6 == ((v >> 48u64) as u8) as u64,
                b7 == ((v >> 56u64) as u8) as u64,
        ;
        assert(v as nat % vstd::arithmetic::power2::pow2(64) == v) by {
            assert(v < vstd::arithmetic::power2::pow2(64));
            vstd::arithmetic::div_mod::lemma_small_mod(
                v as nat,
                vstd::arithmetic::power2::pow2(64),
            );
        }
    }
}

/// Counts the set bits/// The number of set bits among the low `bits` of `v`.
pub open spec fn ones_count(v: u64, bits: nat) -> int
    decreases bits,
{
    if bits == 0 {
        0
    } else {
        (v & 1) + ones_count(v >> 1u64, (bits - 1) as nat)
    }
}

/// Counts the set bits: what the population-count instruction returns.
pub fn popcount64(v: u64) -> (r: u64)
    ensures
        r == ones_count(v, 64),
        r <= 64,
{
    let mut x = v;
    let mut count: u64 = 0;
    let mut i: u32 = 0;
    while i < 64
        invariant
            count <= i,
            i <= 64,
            count + ones_count(x, (64 - i) as nat) == ones_count(v, 64),
        decreases 64 - i,
    {
        let bit = x & 1;
        proof {
            assert(x & 1u64 <= 1) by (bit_vector);
        }
        count = count + bit;
        x = x >> 1u64;
        i = i + 1;
    }
    proof {
        assert(ones_count(x, 0) == 0);
    }
    count
}

/// Resolves the address operand of a memory access: the base register plus
/// the static displacement.
fn mem_addr(st: &EvalState, raddr: &IrReg, offset: i32) -> (r: Option<u64>) {
    let base = read_reg(st, raddr);
    if offset >= 0 {
        let off = offset as u64;
        if base > u64::MAX - off {
            None
        } else {
            Some(base + off)
        }
    } else {
        let mag = (-(offset as i64)) as u64;
        if base < mag {
            None
        } else {
            Some(base - mag)
        }
    }
}

/// Looks up the position of a label within a body.
fn find_label_in(ops: &Vec<IrCp>, target: &IrLabel) -> (r: Option<usize>)
    ensures
        match r {
            Some(p) => p < ops@.len(),
            None => true,
        },
{
    let mut i: usize = 0;
    while i < ops.len()
        invariant
            i <= ops@.len(),
        decreases ops@.len() - i,
    {
        let hit = match &ops[i] {
            IrCp::Label(l) => l.matches(target),
            _ => false,
        };
        if hit {
            return Some(i);
        }
        i = i + 1;
    }
    None
}

/// Reads an operand's value at full width; a 32-, 16- or 8-bit register
/// view reads the whole register, as the lowering's encodings do before
/// narrowing.
fn read_operand_reg(st: &EvalState, op: &IrOperand) -> (r: Option<u64>) {
    match op {
        IrOperand::Reg(r) => Some(read_reg(st, r)),
        IrOperand::Reg32(r) => Some(read_reg(st, r) & 0xFFFFFFFF),
        IrOperand::Reg16(r) => Some(read_reg(st, r) & 0xFFFF),
        IrOperand::Reg8(r) => Some(read_reg(st, r) & 0xFF),
        _ => None,
    }
}

/// The register name under an operand, at any width.
fn operand_reg_name(op: &IrOperand) -> (r: Option<IrReg>) {
    match op {
        IrOperand::Reg(r) => Some(*r),
        IrOperand::Reg32(r) => Some(*r),
        IrOperand::Reg16(r) => Some(*r),
        IrOperand::Reg8(r) => Some(*r),
        _ => None,
    }
}

/// Executes one two-operand arithmetic or bitwise operation; 32-bit forms
/// compute on and zero-extend the low halves, exactly as the machine does.
fn eval_binop(st: &mut EvalState, insn: &IrCp) -> (r: Result<(), EvalError>)
    ensures
        r is Err ==> !(r->Err_0 is ExportNotFound),
{
    let (dest, src) = match insn {
        IrCp::Add(d, s) | IrCp::Subtract(d, s) | IrCp::And(d, s) | IrCp::Or(d, s) | IrCp::Xor(
            d,
            s,
        ) | IrCp::Multiply(d, s) | IrCp::DivideUnsigned(d, s) | IrCp::DivideSigned(d, s)
            | IrCp::RemainderUnsigned(d, s) | IrCp::RemainderSigned(d, s) | IrCp::ShiftLeft(d, s)
            | IrCp::ShiftRightUnsigned(d, s) | IrCp::ShiftRightSigned(d, s) | IrCp::RotateLeft(
            d,
            s,
        ) | IrCp::RotateRight(d, s) => (d, s),
        _ => {
            return Err(EvalError::Invalid);
        },
    };
    let is64 = match (dest, src) {
        (IrOperand::Reg(_), IrOperand::Reg(_)) => true,
        (IrOperand::Reg32(_), IrOperand::Reg32(_)) => false,
        _ => {
            return Err(EvalError::Invalid);
        },
    };
    let dr = match operand_reg_name(dest) {
        Some(x) => x,
        None => {
            return Err(EvalError::Invalid);
        },
    };
    let a_full = match read_operand_reg(st, dest) {
        Some(x) => x,
        None => {
            return Err(EvalError::Invalid);
        },
    };
    let b_full = match read_operand_reg(st, src) {
        Some(x) => x,
        None => {
            return Err(EvalError::Invalid);
        },
    };
    let a = if is64 {
        a_full
    } else {
        zx32(a_full)
    };
    let b = if is64 {
        b_full
    } else {
        zx32(b_full)
    };
    let set_flags: bool = matches!(
        insn,
        IrCp::Add(_, _) | IrCp::Subtract(_, _) | IrCp::And(_, _) | IrCp::Or(_, _) | IrCp::Xor(
            _,
            _,
        ),
    );
    let result: u64 = match insn {
        IrCp::Add(_, _) => a.wrapping_add(b),
        IrCp::Subtract(_, _) => a.wrapping_sub(b),
        IrCp::And(_, _) => a & b,
        IrCp::Or(_, _) => a | b,
        IrCp::Xor(_, _) => a ^ b,
        IrCp::Multiply(_, _) => a.wrapping_mul(b),
        IrCp::DivideUnsigned(_, _) => {
            if b == 0 {
                return Err(EvalError::Trap);
            }
            wasm_div_u(a, b)
        },
        IrCp::RemainderUnsigned(_, _) => {
            if b == 0 {
                return Err(EvalError::Trap);
            }
            wasm_rem_u(a, b)
        },
        IrCp::DivideSigned(_, _) => {
            if is64 {
                let sa = a as i64;
                let sb = b as i64;
                if sb == 0 || (sa == i64::MIN && sb == -1) {
                    return Err(EvalError::Trap);
                }
                wasm_div_s(sa, sb) as u64
            } else {
                let sa = (#[verifier::truncate] (a as u32)) as i32;
                let sb = (#[verifier::truncate] (b as u32)) as i32;
                if sb == 0 || (sa == i32::MIN && sb == -1) {
                    return Err(EvalError::Trap);
                }
                (#[verifier::truncate] (wasm_div_s(sa as i64, sb as i64) as u32)) as u64
            }
        },
        IrCp::RemainderSigned(_, _) => {
            if is64 {
                let sa = a as i64;
                let sb = b as i64;
                if sb == 0 {
                    return Err(EvalError::Trap);
                }
                wasm_rem_s(sa, sb) as u64
            } else {
                let sa = (#[verifier::truncate] (a as u32)) as i32;
                let sb = (#[verifier::truncate] (b as u32)) as i32;
                if sb == 0 {
                    return Err(EvalError::Trap);
                }
                (#[verifier::truncate] (wasm_rem_s(sa as i64, sb as i64) as u32)) as u64
            }
        },
        IrCp::ShiftLeft(_, _) => {
            if is64 {
                a << shift_count_64(b)
            } else {
                a << shift_count_32(b)
            }
        },
        IrCp::ShiftRightUnsigned(_, _) => {
            if is64 {
                a >> shift_count_64(b)
            } else {
                a >> shift_count_32(b)
            }
        },
        IrCp::ShiftRightSigned(_, _) => {
            if is64 {
                ((a as i64) >> shift_count_64(b)) as u64
            } else {
                let sa = (#[verifier::truncate] (a as u32)) as i32;
                (#[verifier::truncate] ((sa >> shift_count_32(b)) as u32)) as u64
            }
        },
        IrCp::RotateLeft(_, _) => {
            if is64 {
                let c = shift_count_64(b);
                if c == 0 {
                    a
                } else {
                    (a << c) | (a >> ((64 - c) as u64))
                }
            } else {
                let c = shift_count_32(b);
                if c == 0 {
                    a
                } else {
                    zx32((a << c) | (a >> ((32 - c) as u64)))
                }
            }
        },
        IrCp::RotateRight(_, _) => {
            if is64 {
                let c = shift_count_64(b);
                if c == 0 {
                    a
                } else {
                    (a >> c) | (a << ((64 - c) as u64))
                }
            } else {
                let c = shift_count_32(b);
                if c == 0 {
                    a
                } else {
                    zx32((a >> c) | (a << ((32 - c) as u64)))
                }
            }
        },
        _ => {
            return Err(EvalError::Invalid);
        },
    };
    let result = if is64 {
        result
    } else {
        zx32(result)
    };
    // multiplication, division and remainder land in scratch A, like the
    // machine's rax-based forms; everything else lands in its destination
    let out_reg = match insn {
        IrCp::Multiply(_, _) | IrCp::DivideUnsigned(_, _) | IrCp::DivideSigned(_, _)
            | IrCp::RemainderUnsigned(_, _) | IrCp::RemainderSigned(_, _) => IrReg::Sra,
        _ => dr,
    };
    let _ = write_reg(st, &out_reg, result);
    if set_flags {
        st.flag_lhs = result;
        st.flag_rhs = 0;
        st.flag_is64 = is64;
    }
    Ok(())
}

/// Executes one `Move` form with the lowering's semantics: a 32-bit
/// immediate or register write zero-extends; narrow loads merge into the
/// low bits until extended.
fn eval_move(st: &mut EvalState, dest: &IrOperand, src: &IrOperand) -> (r: Result<(), EvalError>)
    ensures
        r is Err ==> !(r->Err_0 is ExportNotFound),
{
    match (dest, src) {
        (IrOperand::Reg(rdest), IrOperand::Reg(rsrc)) => {
            let v = read_reg(st, rsrc);
            if write_reg(st, rdest, v) {
                Ok(())
            } else {
                Err(EvalError::Invalid)
            }
        },
        (IrOperand::Reg(rdest), IrOperand::Imm32(imm)) | (
            IrOperand::Reg32(rdest),
            IrOperand::Imm32(imm),
        ) => {
            let v = (#[verifier::truncate] (*imm as u32)) as u64;
            if write_reg(st, rdest, v) {
                Ok(())
            } else {
                Err(EvalError::Invalid)
            }
        },
        (IrOperand::Reg(rdest), IrOperand::Imm64(imm)) => {
            let v = #[verifier::truncate] (*imm as u64);
            if write_reg(st, rdest, v) {
                Ok(())
            } else {
                Err(EvalError::Invalid)
            }
        },
        (IrOperand::Reg(rdest), IrOperand::Local(index)) => {
            let base = st.ffp;
            if base > u64::MAX - *index as u64 {
                return Err(EvalError::Invalid);
            }
            let slot = base + *index as u64;
            if slot >= st.stack.len() as u64 {
                return Err(EvalError::Invalid);
            }
            let v = st.stack[slot as usize];
            let _ = write_reg(st, rdest, v);
            Ok(())
        },
        (IrOperand::Local(index), IrOperand::Reg(rsrc)) => {
            let base = st.ffp;
            if base > u64::MAX - *index as u64 {
                return Err(EvalError::Invalid);
            }
            let slot = base + *index as u64;
            if slot >= st.stack.len() as u64 {
                return Err(EvalError::Invalid);
            }
            let v = read_reg(st, rsrc);
            let sl = slot as usize;
            st.stack.set(sl, v);
            Ok(())
        },
        (IrOperand::Reg(rdest), IrOperand::Global(index)) => {
            if (*index as usize) >= st.globals.len() {
                return Err(EvalError::Invalid);
            }
            let v = st.globals[*index as usize];
            let _ = write_reg(st, rdest, v);
            Ok(())
        },
        (IrOperand::Global(index), IrOperand::Reg(rsrc)) => {
            if (*index as usize) >= st.globals.len() {
                return Err(EvalError::Invalid);
            }
            let v = read_reg(st, rsrc);
            st.globals.set(*index as usize, v);
            Ok(())
        },
        (IrOperand::Reg8(rdest), IrOperand::Memory8(off, raddr)) => {
            let addr = match mem_addr(st, raddr, *off) {
                Some(a) => a,
                None => {
                    return Err(EvalError::Trap);
                },
            };
            let v = match mem_load(st, addr, 1) {
                Some(v) => v,
                None => {
                    return Err(EvalError::Trap);
                },
            };
            let cur = read_reg(st, rdest);
            let _ = write_reg(st, rdest, (cur & 0xFFFFFFFFFFFFFF00) | v);
            Ok(())
        },
        (IrOperand::Reg16(rdest), IrOperand::Memory16(off, raddr)) => {
            let addr = match mem_addr(st, raddr, *off) {
                Some(a) => a,
                None => {
                    return Err(EvalError::Trap);
                },
            };
            let v = match mem_load(st, addr, 2) {
                Some(v) => v,
                None => {
                    return Err(EvalError::Trap);
                },
            };
            let cur = read_reg(st, rdest);
            let _ = write_reg(st, rdest, (cur & 0xFFFFFFFFFFFF0000) | v);
            Ok(())
        },
        (IrOperand::Reg32(rdest), IrOperand::Memory32(off, raddr)) => {
            let addr = match mem_addr(st, raddr, *off) {
                Some(a) => a,
                None => {
                    return Err(EvalError::Trap);
                },
            };
            let v = match mem_load(st, addr, 4) {
                Some(v) => v,
                None => {
                    return Err(EvalError::Trap);
                },
            };
            // a 32-bit load zero-extends
            let _ = write_reg(st, rdest, v);
            Ok(())
        },
        (IrOperand::Reg(rdest), IrOperand::Memory64(off, raddr)) => {
            let addr = match mem_addr(st, raddr, *off) {
                Some(a) => a,
                None => {
                    return Err(EvalError::Trap);
                },
            };
            let v = match mem_load(st, addr, 8) {
                Some(v) => v,
                None => {
                    return Err(EvalError::Trap);
                },
            };
            let _ = write_reg(st, rdest, v);
            Ok(())
        },
        (IrOperand::Memory8(off, raddr), IrOperand::Reg8(rsrc)) => {
            let addr = match mem_addr(st, raddr, *off) {
                Some(a) => a,
                None => {
                    return Err(EvalError::Trap);
                },
            };
            let v = read_reg(st, rsrc);
            if mem_store(st, addr, 1, v) {
                Ok(())
            } else {
                Err(EvalError::Trap)
            }
        },
        (IrOperand::Memory16(off, raddr), IrOperand::Reg16(rsrc)) => {
            let addr = match mem_addr(st, raddr, *off) {
                Some(a) => a,
                None => {
                    return Err(EvalError::Trap);
                },
            };
            let v = read_reg(st, rsrc);
            if mem_store(st, addr, 2, v) {
                Ok(())
            } else {
                Err(EvalError::Trap)
            }
        },
        (IrOperand::Memory32(off, raddr), IrOperand::Reg32(rsrc)) => {
            let addr = match mem_addr(st, raddr, *off) {
                Some(a) => a,
                None => {
                    return Err(EvalError::Trap);
                },
            };
            let v = read_reg(st, rsrc);
            if mem_store(st, addr, 4, v) {
                Ok(())
            } else {
                Err(EvalError::Trap)
            }
        },
        (IrOperand::Memory64(off, raddr), IrOperand::Reg(rsrc)) => {
            let addr = match mem_addr(st, raddr, *off) {
                Some(a) => a,
                None => {
                    return Err(EvalError::Trap);
                },
            };
            let v = read_reg(st, rsrc);
            if mem_store(st, addr, 8, v) {
                Ok(())
            } else {
                Err(EvalError::Trap)
            }
        },
        _ => Err(EvalError::Invalid),
    }
}

/// Runs one function body to its return. Calls recurse, burning fuel; the
/// shared stack carries frames exactly as the lowering lays them out.
#[verifier::loop_isolation(false)]
fn run_func(pvf: &IrPvf, st: &mut EvalState, func_idx: usize, fuel: u64) -> (r: Result<
    (),
    EvalError,
>)
    ensures
        r is Err ==> !(r->Err_0 is ExportNotFound),
    decreases fuel,
{
    if fuel == 0 {
        return Err(EvalError::OutOfFuel);
    }
    if func_idx >= pvf.funcs.len() {
        return Err(EvalError::Invalid);
    }
    let ir = match &pvf.funcs[func_idx] {
        Some(IrFunc::Function(ir)) => ir,
        _ => {
            return Err(EvalError::Invalid);
        },
    };
    let ops = ir.code();
    let mut ip: usize = 0;
    let mut fuel_left: u64 = fuel - 1;
    while ip < ops.len()
        invariant
            fuel_left < fuel,
        decreases fuel_left,
    {
        if fuel_left == 0 {
            return Err(EvalError::OutOfFuel);
        }
        fuel_left = fuel_left - 1;
        let insn = &ops[ip];
        let mut next_ip = ip + 1;
        match insn {
            IrCp::Label(_) => (),
            IrCp::Preamble => (),
            IrCp::Postamble => (),
            IrCp::InitTablePostamble => (),
            IrCp::InitLocals(n_locals) => {
                // the parameters arrive through the calling bridge; the
                // declared locals start zeroed
                let mut i: usize = 0;
                while i < st.abi_params.len()
                    invariant
                        fuel_left < fuel,
                    decreases st.abi_params@.len() - i,
                {
                    let v = st.abi_params[i];
                    if !push_slot(st, v) {
                        return Err(EvalError::Invalid);
                    }
                    i = i + 1;
                }
                let mut i: u32 = 0;
                while i < *n_locals
                    invariant
                        fuel_left < fuel,
                    decreases *n_locals - i,
                {
                    if !push_slot(st, 0) {
                        return Err(EvalError::Invalid);
                    }
                    i = i + 1;
                }
            },
            IrCp::Push(op) => {
                match op {
                    IrOperand::Reg(r) => {
                        let v = read_reg(st, r);
                        if !push_slot(st, v) {
                            return Err(EvalError::Invalid);
                        }
                    },
                    _ => {
                        return Err(EvalError::Invalid);
                    },
                }
            },
            IrCp::Pop(op) => {
                match op {
                    IrOperand::Reg(r) => {
                        let v = match pop_slot(st) {
                            Some(v) => v,
                            None => {
                                return Err(EvalError::Invalid);
                            },
                        };
                        if !write_reg(st, r, v) {
                            return Err(EvalError::Invalid);
                        }
                    },
                    _ => {
                        return Err(EvalError::Invalid);
                    },
                }
            },
            IrCp::Move(dest, src) => {
                match eval_move(st, dest, src) {
                    Ok(()) => (),
                    Err(e) => {
                        return Err(e);
                    },
                }
            },
            IrCp::MoveIf(cond, dest, src) => {
                if eval_cond(st, cond) {
                    match eval_move_if_taken(st, dest, src) {
                        Ok(()) => (),
                        Err(e) => {
                            return Err(e);
                        },
                    }
                }
            },
            IrCp::ZeroExtend(op) => {
                match op {
                    IrOperand::Reg8(r) => {
                        let v = read_reg(st, r);
                        let _ = write_reg(st, r, v & 0xFF);
                    },
                    IrOperand::Reg16(r) => {
                        let v = read_reg(st, r);
                        let _ = write_reg(st, r, v & 0xFFFF);
                    },
                    IrOperand::Reg32(r) => {
                        let v = read_reg(st, r);
                        let _ = write_reg(st, r, zx32(v));
                    },
                    _ => {
                        return Err(EvalError::Invalid);
                    },
                }
            },
            IrCp::SignExtend(op) => {
                match op {
                    IrOperand::Reg8(r) => {
                        let v = read_reg(st, r);
                        let b = #[verifier::truncate] (v as u8);
                        let _ = write_reg(st, r, ((b as i8) as i64) as u64);
                    },
                    IrOperand::Reg16(r) => {
                        let v = read_reg(st, r);
                        let h = #[verifier::truncate] (v as u16);
                        let _ = write_reg(st, r, ((h as i16) as i64) as u64);
                    },
                    IrOperand::Reg32(r) => {
                        let v = read_reg(st, r);
                        let w = #[verifier::truncate] (v as u32);
                        let _ = write_reg(st, r, ((w as i32) as i64) as u64);
                    },
                    _ => {
                        return Err(EvalError::Invalid);
                    },
                }
            },
            IrCp::Compare(dest, src) => {
                let is64 = matches!(dest, IrOperand::Reg(_));
                let a = match read_operand_reg(st, dest) {
                    Some(x) => x,
                    None => {
                        return Err(EvalError::Invalid);
                    },
                };
                let b = match read_operand_reg(st, src) {
                    Some(x) => x,
                    None => {
                        return Err(EvalError::Invalid);
                    },
                };
                st.flag_lhs = a;
                st.flag_rhs = b;
                st.flag_is64 = is64;
            },
            IrCp::SetIf(cond, dest) => {
                let dr = match operand_reg_name(dest) {
                    Some(x) => x,
                    None => {
                        return Err(EvalError::Invalid);
                    },
                };
                let v: u64 = if eval_cond(st, cond) {
                    1
                } else {
                    0
                };
                let _ = write_reg(st, &dr, v);
            },
            IrCp::CheckIfZero(op) => {
                let dr = match operand_reg_name(op) {
                    Some(x) => x,
                    None => {
                        return Err(EvalError::Invalid);
                    },
                };
                let v = match read_operand_reg(st, op) {
                    Some(x) => x,
                    None => {
                        return Err(EvalError::Invalid);
                    },
                };
                let out: u64 = if v == 0 {
                    1
                } else {
                    0
                };
                let _ = write_reg(st, &dr, out);
            },
            IrCp::Select(check, if_zero, if_not_zero, _result) => {
                match (check, if_zero, if_not_zero) {
                    (IrOperand::Reg32(c), IrOperand::Reg(a), IrOperand::Reg(b)) => {
                        let cv = zx32(read_reg(st, c));
                        if cv != 0 {
                            let v = read_reg(st, b);
                            let _ = write_reg(st, a, v);
                        }
                    },
                    _ => {
                        return Err(EvalError::Invalid);
                    },
                }
            },
            IrCp::Add(_, _) | IrCp::Subtract(_, _) | IrCp::And(_, _) | IrCp::Or(_, _) | IrCp::Xor(
                _,
                _,
            ) | IrCp::Multiply(_, _) | IrCp::DivideUnsigned(_, _) | IrCp::DivideSigned(_, _)
                | IrCp::RemainderUnsigned(_, _) | IrCp::RemainderSigned(_, _) | IrCp::ShiftLeft(
                _,
                _,
            ) | IrCp::ShiftRightUnsigned(_, _) | IrCp::ShiftRightSigned(_, _) | IrCp::RotateLeft(
                _,
                _,
            ) | IrCp::RotateRight(_, _) => {
                match eval_binop(st, insn) {
                    Ok(()) => (),
                    Err(e) => {
                        return Err(e);
                    },
                }
            },
            IrCp::LeadingZeroes(op) | IrCp::TrailingZeroes(op) | IrCp::BitPopulationCount(op) => {
                let dr = match operand_reg_name(op) {
                    Some(x) => x,
                    None => {
                        return Err(EvalError::Invalid);
                    },
                };
                let is64 = matches!(op, IrOperand::Reg(_));
                let full = read_reg(st, &dr);
                let out: u64 = match insn {
                    IrCp::LeadingZeroes(_) => {
                        if is64 {
                            full.leading_zeros() as u64
                        } else {
                            (#[verifier::truncate] (full as u32)).leading_zeros() as u64
                        }
                    },
                    IrCp::TrailingZeroes(_) => {
                        if is64 {
                            full.trailing_zeros() as u64
                        } else {
                            (#[verifier::truncate] (full as u32)).trailing_zeros() as u64
                        }
                    },
                    _ => {
                        if is64 {
                            popcount64(full)
                        } else {
                            popcount64(zx32(full))
                        }
                    },
                };
                let _ = write_reg(st, &dr, out);
            },
            IrCp::Jump(label) => {
                match find_label_in(ops, label) {
                    Some(p) => {
                        next_ip = p;
                    },
                    None => {
                        return Err(EvalError::Invalid);
                    },
                }
            },
            IrCp::JumpIf(cond, label) => {
                if eval_cond(st, cond) {
                    match find_label_in(ops, label) {
                        Some(p) => {
                            next_ip = p;
                        },
                        None => {
                            return Err(EvalError::Invalid);
                        },
                    }
                }
            },
            IrCp::JumpTable(sel, targets) => {
                let idx = match sel {
                    IrOperand::Reg32(r) => zx32(read_reg(st, r)),
                    _ => {
                        return Err(EvalError::Invalid);
                    },
                };
                if idx >= targets.len() as u64 {
                    return Err(EvalError::Trap);
                }
                match find_label_in(ops, &targets[idx as usize]) {
                    Some(p) => {
                        next_ip = p;
                    },
                    None => {
                        return Err(EvalError::Invalid);
                    },
                }
            },
            IrCp::Call(label) => {
                let (callee, params, results): (usize, u32, u32) = match label {
                    IrLabel::AnonymousFunc(i) | IrLabel::ExportedFunc(i, _) => {
                        if (*i as usize) >= pvf.signatures.len() {
                            return Err(EvalError::Invalid);
                        }
                        let sig = match &pvf.signatures[*i as usize] {
                            Some(s) => *s,
                            None => {
                                return Err(EvalError::Invalid);
                            },
                        };
                        (*i as usize, sig.params, sig.results)
                    },
                    IrLabel::Indirect(t, selop, sig) => {
                        let selv = match selop {
                            IrOperand::Reg32(r) => zx32(read_reg(st, r)),
                            _ => {
                                return Err(EvalError::Invalid);
                            },
                        };
                        if (*t as usize) >= st.tables.len() {
                            return Err(EvalError::Invalid);
                        }
                        let table = &st.tables[*t as usize];
                        if selv >= table.len() as u64 {
                            return Err(EvalError::Trap);
                        }
                        let fi = table[selv as usize];
                        if fi >= pvf.funcs.len() as u64 {
                            return Err(EvalError::Trap);
                        }
                        (fi as usize, sig.params, sig.results)
                    },
                    _ => {
                        return Err(EvalError::Invalid);
                    },
                };
                // the arguments are the top operand-stack slots, first
                // argument deepest; the callee reads them from the bridge
                if (params as usize) > st.sp || st.sp > st.stack.len() {
                    return Err(EvalError::Invalid);
                }
                let arg_base = st.sp - params as usize;
                let mut args: Vec<u64> = Vec::new();
                let mut i: usize = 0;
                while i < params as usize
                    invariant
                        fuel_left < fuel,
                        arg_base + params <= st.stack@.len(),
                    decreases params - i,
                {
                    let v = st.stack[arg_base + i];
                    args.push(v);
                    i = i + 1;
                }
                let mut saved_params = args;
                core::mem::swap(&mut st.abi_params, &mut saved_params);
                let res = run_func(pvf, st, callee, fuel_left);
                st.abi_params = saved_params;
                match res {
                    Ok(()) => (),
                    Err(e) => {
                        return Err(e);
                    },
                }
                // drop the arguments, then push the result slot
                let mut i: u32 = 0;
                while i < params
                    invariant
                        fuel_left < fuel,
                    decreases params - i,
                {
                    match pop_slot(st) {
                        Some(_) => (),
                        None => {
                            return Err(EvalError::Invalid);
                        },
                    }
                    i = i + 1;
                }
                if results > 0 {
                    let v = st.reg_a;
                    if !push_slot(st, v) {
                        return Err(EvalError::Invalid);
                    }
                }
            },
            IrCp::Return => {
                return Ok(());
            },
            IrCp::Trap => {
                return Err(EvalError::Trap);
            },
            IrCp::InitTablePreamble(offset) => {
                match offset {
                    IrOperand::Reg(r) => {
                        let v = read_reg(st, r);
                        if v > usize::MAX as u64 {
                            return Err(EvalError::Invalid);
                        }
                        st.table_cursor = v as usize;
                    },
                    _ => {
                        return Err(EvalError::Invalid);
                    },
                }
            },
            IrCp::InitTableElement(op) => {
                match op {
                    IrOperand::Imm32(fi) => {
                        if *fi < 0 {
                            return Err(EvalError::Invalid);
                        }
                        if st.tables.len() == 0 {
                            return Err(EvalError::Invalid);
                        }
                        let cur = st.table_cursor;
                        let tlen = st.tables[0].len();
                        if cur >= tlen {
                            return Err(EvalError::Trap);
                        }
                        let fi64 = *fi as u64;
                        set_table_entry(st, cur, fi64);
                        st.table_cursor = cur + 1;
                    },
                    _ => {
                        return Err(EvalError::Invalid);
                    },
                }
            },
            IrCp::InitMemoryFromChunk(chunk_idx, chunk_len, offset) => {
                let base = match offset {
                    IrOperand::Reg(r) => read_reg(st, r),
                    _ => {
                        return Err(EvalError::Invalid);
                    },
                };
                if (*chunk_idx as usize) >= pvf.data_chunks.len() {
                    return Err(EvalError::Invalid);
                }
                let chunk = &pvf.data_chunks[*chunk_idx as usize];
                if (*chunk_len as usize) > chunk.data.len() {
                    return Err(EvalError::Invalid);
                }
                if base > u64::MAX - *chunk_len as u64 {
                    return Err(EvalError::Trap);
                }
                if base + *chunk_len as u64 > st.memory.len() as u64 {
                    return Err(EvalError::Trap);
                }
                let b = base as usize;
                let mut i: usize = 0;
                while i < *chunk_len as usize
                    invariant
                        fuel_left < fuel,
                        i <= *chunk_len,
                        *chunk_len <= chunk.data@.len(),
                        b + *chunk_len <= st.memory@.len(),
                        chunk == &pvf.data_chunks@[*chunk_idx as int],
                        *chunk_idx < pvf.data_chunks@.len(),
                    decreases *chunk_len - i,
                {
                    let byte = chunk.data[i];
                    st.memory.set(b + i, byte);
                    i = i + 1;
                }
            },
            IrCp::MemoryGrow(op) => {
                match op {
                    IrOperand::Reg32(r) => {
                        let pages = zx32(read_reg(st, r)) as u32;
                        if pages > st.mem_max_pages || st.mem_pages > st.mem_max_pages - pages {
                            let _ = write_reg(st, r, 0xFFFFFFFF);
                        } else {
                            let old_pages = st.mem_pages;
                            st.mem_pages = st.mem_pages + pages;
                            let mut grown: u64 = 0;
                            let need = pages as u64 * 0x10000;
                            while grown < need
                                invariant
                                    fuel_left < fuel,
                                    need <= 0xFFFFFFFF0000u64,
                                decreases need - grown,
                            {
                                st.memory.push(0);
                                grown = grown + 1;
                            }
                            let _ = write_reg(st, r, old_pages as u64);
                        }
                    },
                    _ => {
                        return Err(EvalError::Invalid);
                    },
                }
            },
            IrCp::MemorySize(op) => {
                match op {
                    IrOperand::Reg32(r) => {
                        let v = st.mem_pages as u64;
                        let _ = write_reg(st, r, v);
                    },
                    _ => {
                        return Err(EvalError::Invalid);
                    },
                }
            },
        }
        ip = next_ip;
    }
    // a body that runs off its end never came from the translator
    Err(EvalError::Invalid)
}

/// A conditional move whose condition held.
fn eval_move_if_taken(st: &mut EvalState, dest: &IrOperand, src: &IrOperand) -> (r: Result<
    (),
    EvalError,
>)
    ensures
        r is Err ==> !(r->Err_0 is ExportNotFound),
{
    match (dest, src) {
        (IrOperand::Reg(rdest), IrOperand::Reg(rsrc)) => {
            let v = read_reg(st, rsrc);
            if write_reg(st, rdest, v) {
                Ok(())
            } else {
                Err(EvalError::Invalid)
            }
        },
        (IrOperand::Reg32(rdest), IrOperand::Reg32(rsrc)) => {
            let v = zx32(read_reg(st, rsrc));
            if write_reg(st, rdest, v) {
                Ok(())
            } else {
                Err(EvalError::Invalid)
            }
        },
        _ => Err(EvalError::Invalid),
    }
}

/// Writes one slot of the first table; segments address only table zero.
fn set_table_entry(st: &mut EvalState, idx: usize, v: u64)
    requires
        old(st).tables@.len() > 0,
        idx < old(st).tables@[0]@.len(),
{
    let mut t0 = st.tables.remove(0);
    t0.set(idx, v);
    st.tables.insert(0, t0);
}

/// The evaluator's memory ceiling, in pages: what it will allocate eagerly
/// where the machine code would only reserve address space.
pub const EVAL_MAX_PAGES: u32 = 0x100;

/// Builds the initial machine state for a module: its minimum of linear
/// memory zeroed, the globals cleared, one empty slot per table entry.
fn initial_state(pvf: &IrPvf) -> (r: Option<EvalState>) {
    let min_pages = pvf.memory.0;
    let declared_max = pvf.memory.1;
    if min_pages > EVAL_MAX_PAGES {
        return None;
    }
    let max_pages = if declared_max > EVAL_MAX_PAGES {
        EVAL_MAX_PAGES
    } else if declared_max < min_pages {
        min_pages
    } else {
        declared_max
    };
    let mut memory: Vec<u8> = Vec::new();
    let need: u64 = min_pages as u64 * 0x10000;
    let mut grown: u64 = 0;
    while grown < need
        invariant
            need <= 0x1000000,
        decreases need - grown,
    {
        memory.push(0);
        grown = grown + 1;
    }
    let mut globals: Vec<u64> = Vec::new();
    while globals.len() < 0x10000
        decreases 0x10000 - globals@.len(),
    {
        globals.push(0);
    }
    let mut tables: Vec<Vec<u64>> = Vec::new();
    let mut ti: usize = 0;
    while ti < pvf.tables.len()
        decreases pvf.tables@.len() - ti,
    {
        let max_size = match &pvf.tables[ti] {
            crate::ir::IrTable::Table(m) => *m,
            crate::ir::IrTable::Import(_) => 0,
        };
        if max_size > 0xFFFF {
            return None;
        }
        let mut t: Vec<u64> = Vec::new();
        let mut i: u32 = 0;
        while i < max_size
            invariant
                max_size <= 0xFFFF,
        decreases max_size - i,
        {
            // an empty slot points past every function: calling it traps
            t.push(0xFFFFFFFFFFFFFFFF);
            i = i + 1;
        }
        tables.push(t);
        ti = ti + 1;
    }
    let mut stack: Vec<u64> = Vec::new();
    while stack.len() < 0x10000
        decreases 0x10000 - stack@.len(),
    {
        stack.push(0);
    }
    Some(
        EvalState {
            stack,
            sp: 0,
            reg_a: 0,
            reg_c: 0,
            reg_d: 0,
            ffp: 0,
            bfp: 0,
            flag_lhs: 0,
            flag_rhs: 0,
            flag_is64: false,
            memory,
            mem_pages: min_pages,
            mem_max_pages: max_pages,
            globals,
            tables,
            abi_params: Vec::new(),
            table_cursor: 0,
        },
    )
}

/// The slot holds a body whose entry label exports it under `name`.
pub open spec fn export_slot_named(f: Option<IrFunc>, name: Seq<char>) -> bool {
    match f {
        Some(IrFunc::Function(ir)) => ir@.len() > 0 && match ir@[0] {
            IrCp::Label(IrLabel::ExportedFunc(_, n)) => n@ == name,
            _ => false,
        },
        _ => false,
    }
}

/// Some slot is exported under `name`.
pub open spec fn has_export(funcs: Seq<Option<IrFunc>>, name: Seq<char>) -> bool {
    exists|i: int| 0 <= i < funcs.len() && export_slot_named(#[trigger] funcs[i], name)
}

/// Finds the function whose body starts with an exported entry label under
/// `name`: the first such slot, and none exactly when no slot carries the
/// name.
fn find_export(pvf: &IrPvf, name: &String) -> (r: Option<usize>)
    ensures
        match r {
            Some(i) => i < pvf.funcs@.len() && export_slot_named(pvf.funcs@[i as int], name@),
            None => !has_export(pvf.funcs@, name@),
        },
{
    let mut i: usize = 0;
    while i < pvf.funcs.len()
        invariant
            i <= pvf.funcs@.len(),
            forall|j: int| 0 <= j < i ==> !export_slot_named(#[trigger] pvf.funcs@[j], name@),
        decreases pvf.funcs@.len() - i,
    {
        match &pvf.funcs[i] {
            Some(IrFunc::Function(ir)) => {
                if ir.ops.len() > 0 {
                    match &ir.ops[0] {
                        IrCp::Label(IrLabel::ExportedFunc(_, n)) => {
                            if n.eq(name) {
                                return Some(i);
                            }
                        },
                        _ => (),
                    }
                }
            },
            _ => (),
        }
        i = i + 1;
    }
    None
}

/// Runs a translated module: the synthesized initializer first, then the
/// function exported under `name` with the given argument slots. The result
/// is the callee's scratch A, the 64-bit slot every value kind lives in.
/// The not-found error comes back only when no body carries the name, and
/// without such a body no value ever comes back.
pub fn evaluate_export(pvf: &IrPvf, name: &String, args: &Vec<u64>, fuel: u64) -> (r: Result<
    u64,
    EvalError,
>)
    ensures
        (match r {
            Err(e) => e is ExportNotFound,
            _ => false,
        }) ==> !has_export(pvf.funcs@, name@),
        !has_export(pvf.funcs@, name@) ==> r is Err,
{
    let mut st = match initial_state(pvf) {
        Some(s) => s,
        None => {
            return Err(EvalError::Invalid);
        },
    };
    if pvf.funcs.len() == 0 {
        return Err(EvalError::Invalid);
    }
    // the initializer sits in the last slot
    let init_idx = pvf.funcs.len() - 1;
    st.abi_params = Vec::new();
    match run_func(pvf, &mut st, init_idx, fuel) {
        Ok(()) => (),
        Err(e) => {
            return Err(e);
        },
    }
    let target = match find_export(pvf, name) {
        Some(i) => i,
        None => {
            return Err(EvalError::ExportNotFound);
        },
    };
    st.abi_params = args.clone();
    match run_func(pvf, &mut st, target, fuel) {
        Ok(()) => (),
        Err(e) => {
            return Err(e);
        },
    }
    Ok(st.reg_a)
}

} // verus!
