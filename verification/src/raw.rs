//! The translator: from a decoded module to the IR container. The operand
//! stack is lowered one operation at a time; structured control flow is
//! tracked on a frame stack; globals, tables and data segments become a
//! synthesized initializer function.

use vstd::prelude::*;
use vstd::string::StringExecFns;

use crate::decode::decode_module;
use crate::error::PvfError;
use crate::ir::{Ir, IrCp, IrFunc, IrHints, IrLabel, IrOperand, IrPvf, IrReg, IrSignature, IrTable};
use crate::ir::IrCond;
use crate::ir::IrDataChunk;
use crate::wasm::{WasmData, WasmElement, WasmExport, WasmFuncBody, WasmGlobal, WasmImport, WasmModule, WasmOp};

verus! {

/// How an operation changes the depth of the operand stack: what the
/// generator's lowering of each operation does to the machine stack, one
/// 8-byte slot per unit.
pub open spec fn cp_stack_effect(cp: IrCp, sigs: Seq<Option<IrSignature>>) -> int {
    match cp {
        IrCp::Push(_) => 1,
        IrCp::Pop(_) => -1,
        IrCp::Call(l) => match l {
            IrLabel::Indirect(_, _, sig) => sig.results - sig.params,
            IrLabel::ExportedFunc(i, _) => call_effect(i, sigs),
            IrLabel::AnonymousFunc(i) => call_effect(i, sigs),
            IrLabel::ImportedFunc(i) => call_effect(i, sigs),
            _ => 0,
        },
        _ => 0,
    }
}

pub open spec fn call_effect(i: u32, sigs: Seq<Option<IrSignature>>) -> int {
    if i < sigs.len() {
        match sigs[i as int] {
            Some(s) => s.results - s.params,
            None => 0,
        }
    } else {
        0
    }
}

/// The summed stack effect of a sequence of operations.
pub open spec fn seq_stack_effect(ops: Seq<IrCp>, sigs: Seq<Option<IrSignature>>) -> int
    decreases ops.len(),
{
    if ops.len() == 0 {
        0
    } else {
        seq_stack_effect(ops.drop_last(), sigs) + cp_stack_effect(ops.last(), sigs)
    }
}

pub broadcast proof fn lemma_seq_stack_effect_push(
    ops: Seq<IrCp>,
    cp: IrCp,
    sigs: Seq<Option<IrSignature>>,
)
    ensures
        #[trigger] seq_stack_effect(ops.push(cp), sigs) == seq_stack_effect(ops, sigs)
            + cp_stack_effect(cp, sigs),
{
    assert(ops.push(cp).drop_last() =~= ops);
}

/// What each operation of the plain (non-control) subset does to the Wasm
/// operand stack; the translator's output has exactly this effect.
pub open spec fn wasm_op_effect(
    op: WasmOp,
    sigs: Seq<Option<IrSignature>>,
    types: Seq<IrSignature>,
) -> int {
    match op {
        WasmOp::I32Const(_) => 1,
        WasmOp::I64Const(_) => 1,
        WasmOp::LocalGet(_) => 1,
        WasmOp::GlobalGet(_) => 1,
        WasmOp::MemorySize => 1,
        WasmOp::LocalSet(_) => -1,
        WasmOp::GlobalSet(_) => -1,
        WasmOp::Drop => -1,
        WasmOp::Select => -2,
        WasmOp::I32Store(_) => -2,
        WasmOp::I64Store(_) => -2,
        WasmOp::I32Store8(_) => -2,
        WasmOp::I32Store16(_) => -2,
        WasmOp::I64Store8(_) => -2,
        WasmOp::I64Store16(_) => -2,
        WasmOp::I64Store32(_) => -2,
        WasmOp::I32Add => -1,
        WasmOp::I32Sub => -1,
        WasmOp::I32Mul => -1,
        WasmOp::I32DivS => -1,
        WasmOp::I32DivU => -1,
        WasmOp::I32RemS => -1,
        WasmOp::I32RemU => -1,
        WasmOp::I32And => -1,
        WasmOp::I32Or => -1,
        WasmOp::I32Xor => -1,
        WasmOp::I32Shl => -1,
        WasmOp::I32ShrS => -1,
        WasmOp::I32ShrU => -1,
        WasmOp::I32Rotl => -1,
        WasmOp::I32Rotr => -1,
        WasmOp::I64Add => -1,
        WasmOp::I64Sub => -1,
        WasmOp::I64Mul => -1,
        WasmOp::I64DivS => -1,
        WasmOp::I64DivU => -1,
        WasmOp::I64RemS => -1,
        WasmOp::I64RemU => -1,
        WasmOp::I64And => -1,
        WasmOp::I64Or => -1,
        WasmOp::I64Xor => -1,
        WasmOp::I64Shl => -1,
        WasmOp::I64ShrS => -1,
        WasmOp::I64ShrU => -1,
        WasmOp::I64Rotl => -1,
        WasmOp::I64Rotr => -1,
        WasmOp::I32Eq => -1,
        WasmOp::I32Ne => -1,
        WasmOp::I32LtS => -1,
        WasmOp::I32LtU => -1,
        WasmOp::I32GtS => -1,
        WasmOp::I32GtU => -1,
        WasmOp::I32LeS => -1,
        WasmOp::I32LeU => -1,
        WasmOp::I32GeS => -1,
        WasmOp::I32GeU => -1,
        WasmOp::I64Eq => -1,
        WasmOp::I64Ne => -1,
        WasmOp::I64LtS => -1,
        WasmOp::I64LtU => -1,
        WasmOp::I64GtS => -1,
        WasmOp::I64GtU => -1,
        WasmOp::I64LeS => -1,
        WasmOp::I64LeU => -1,
        WasmOp::I64GeS => -1,
        WasmOp::I64GeU => -1,
        WasmOp::Call(i) => call_effect(i, sigs),
        WasmOp::CallIndirect { type_index: ti, table_index: _ } => if ti < types.len() {
            types[ti as int].results - types[ti as int].params - 1
        } else {
            0
        },
        _ => 0,
    }
}

/// The operations whose lowering materializes exactly one result slot,
/// left on top of the stack by a final push of scratch A.
pub open spec fn value_producing(op: WasmOp) -> bool {
    match op {
        WasmOp::I32Const(_) | WasmOp::I64Const(_) => true,
        WasmOp::LocalGet(_) | WasmOp::LocalTee(_) | WasmOp::GlobalGet(_) => true,
        WasmOp::MemorySize | WasmOp::MemoryGrow => true,
        WasmOp::Select => true,
        WasmOp::I32Load(_) | WasmOp::I64Load(_) => true,
        WasmOp::I32Load8S(_) | WasmOp::I32Load8U(_) | WasmOp::I32Load16S(_) | WasmOp::I32Load16U(
            _,
        ) => true,
        WasmOp::I64Load8S(_) | WasmOp::I64Load8U(_) | WasmOp::I64Load16S(_) | WasmOp::I64Load16U(
            _,
        ) | WasmOp::I64Load32S(_) | WasmOp::I64Load32U(_) => true,
        WasmOp::I32Eqz | WasmOp::I64Eqz => true,
        WasmOp::I32Eq | WasmOp::I32Ne | WasmOp::I32LtS | WasmOp::I32LtU | WasmOp::I32GtS
            | WasmOp::I32GtU | WasmOp::I32LeS | WasmOp::I32LeU | WasmOp::I32GeS
            | WasmOp::I32GeU => true,
        WasmOp::I64Eq | WasmOp::I64Ne | WasmOp::I64LtS | WasmOp::I64LtU | WasmOp::I64GtS
            | WasmOp::I64GtU | WasmOp::I64LeS | WasmOp::I64LeU | WasmOp::I64GeS
            | WasmOp::I64GeU => true,
        WasmOp::I32Clz | WasmOp::I32Ctz | WasmOp::I32Popcnt => true,
        WasmOp::I64Clz | WasmOp::I64Ctz | WasmOp::I64Popcnt => true,
        WasmOp::I32Add | WasmOp::I32Sub | WasmOp::I32Mul | WasmOp::I32DivS | WasmOp::I32DivU
            | WasmOp::I32RemS | WasmOp::I32RemU | WasmOp::I32And | WasmOp::I32Or | WasmOp::I32Xor
            | WasmOp::I32Shl | WasmOp::I32ShrS | WasmOp::I32ShrU | WasmOp::I32Rotl
            | WasmOp::I32Rotr => true,
        WasmOp::I64Add | WasmOp::I64Sub | WasmOp::I64Mul | WasmOp::I64DivS | WasmOp::I64DivU
            | WasmOp::I64RemS | WasmOp::I64RemU | WasmOp::I64And | WasmOp::I64Or | WasmOp::I64Xor
            | WasmOp::I64Shl | WasmOp::I64ShrS | WasmOp::I64ShrU | WasmOp::I64Rotl
            | WasmOp::I64Rotr => true,
        WasmOp::I32WrapI64 | WasmOp::I64ExtendI32S | WasmOp::I64ExtendI32U => true,
        _ => false,
    }
}

fn verr(what: &str) -> (r: PvfError)
    ensures
        r is ValidationError,
{
    PvfError::ValidationError(what.to_owned())
}

/// A structured control frame open while a body is translated.
enum ControlFrameType {
    Func,
    Block,
    Loop,
}

struct ControlFrame {
    cftype: ControlFrameType,
    block_index: u64,
    has_retval: bool,
}

/// The operations this lowering handles, with their indices in range: the
/// structured control flow is lowered elsewhere.
pub open spec fn simple_op_ok(
    op: WasmOp,
    n_slots: u32,
    n_globals: u32,
    nfuncs: u32,
    types: Seq<IrSignature>,
    n_tables: u32,
) -> bool {
    match op {
        WasmOp::Block { .. } | WasmOp::Loop { .. } | WasmOp::Br(_) | WasmOp::BrIf(_)
            | WasmOp::BrTable(_) | WasmOp::End | WasmOp::Return => false,
        WasmOp::LocalGet(i) | WasmOp::LocalSet(i) | WasmOp::LocalTee(i) => i < n_slots,
        WasmOp::GlobalGet(i) | WasmOp::GlobalSet(i) => i < n_globals,
        WasmOp::I32Load(off) | WasmOp::I64Load(off) | WasmOp::I32Load8S(off) | WasmOp::I32Load8U(
            off,
        ) | WasmOp::I32Load16S(off) | WasmOp::I32Load16U(off) | WasmOp::I64Load8S(off)
            | WasmOp::I64Load8U(off) | WasmOp::I64Load16S(off) | WasmOp::I64Load16U(off)
            | WasmOp::I64Load32S(off) | WasmOp::I64Load32U(off) | WasmOp::I32Store(off)
            | WasmOp::I64Store(off) | WasmOp::I32Store8(off) | WasmOp::I32Store16(off)
            | WasmOp::I64Store8(off) | WasmOp::I64Store16(off) | WasmOp::I64Store32(off) => off
            <= 0x7fffffff,
        WasmOp::Call(i) => i < nfuncs,
        WasmOp::CallIndirect { type_index, table_index } => table_index < n_tables && type_index
            < types.len(),
        _ => true,
    }
}

/// Lowers one plain (non-control) operation. Every value-consuming operation
/// starts by popping its arguments into scratches; every value-producing one
/// ends by pushing scratch A, so it leaves exactly one new slot on the stack:
/// the emitted sequence changes the stack depth by exactly the operation's
/// own effect. Success is owed exactly on the operations `simple_op_ok`
/// admits.
#[allow(unused_variables)]
pub fn translate_simple_op(
    ir: &mut Ir,
    op: &WasmOp,
    n_slots: u32,
    n_globals: u32,
    nimports: u32,
    nfuncs: u32,
    types: &Vec<IrSignature>,
    n_tables: u32,
    sigs: Ghost<Seq<Option<IrSignature>>>,
) -> (r: Result<(), PvfError>)
    ensures
        r is Ok <==> simple_op_ok(*op, n_slots, n_globals, nfuncs, types@, n_tables),
        match r {
            Ok(_) => {
                &&& seq_stack_effect(final(ir)@, sigs@) == seq_stack_effect(old(ir)@, sigs@)
                    + wasm_op_effect(*op, sigs@, types@)
                &&& (value_producing(*op) ==> final(ir)@.len() > 0 && final(ir)@.last()
                    == IrCp::Push(IrOperand::Reg(IrReg::Sra)))
            },
            Err(e) => e is ValidationError,
        },
{
    broadcast use lemma_seq_stack_effect_push;

    let sra = IrOperand::Reg(IrReg::Sra);
    let src = IrOperand::Reg(IrReg::Src);
    let srd = IrOperand::Reg(IrReg::Srd);
    let sra32 = IrOperand::Reg32(IrReg::Sra);
    let src32 = IrOperand::Reg32(IrReg::Src);
    let srd32 = IrOperand::Reg32(IrReg::Srd);
    match op {
        WasmOp::Nop => Ok(()),
        WasmOp::Unreachable => {
            ir.trap();
            Ok(())
        },
        WasmOp::Drop => {
            ir.pop(sra);
            Ok(())
        },
        WasmOp::I32Const(v) => {
            ir.mov(sra, IrOperand::Imm32(*v));
            ir.push(sra);
            Ok(())
        },
        WasmOp::I64Const(v) => {
            ir.mov(sra, IrOperand::Imm64(*v));
            ir.push(sra);
            Ok(())
        },
        WasmOp::I32Add | WasmOp::I32And | WasmOp::I32Or | WasmOp::I32Xor => {
            ir.pop(sra);
            ir.pop(srd);
            match op {
                WasmOp::I32Add => ir.add(sra32, srd32),
                WasmOp::I32And => ir.and(sra32, srd32),
                WasmOp::I32Or => ir.or(sra32, srd32),
                _ => ir.xor(sra32, srd32),
            }
            ir.push(sra);
            Ok(())
        },
        WasmOp::I64Add | WasmOp::I64And | WasmOp::I64Or | WasmOp::I64Xor => {
            ir.pop(sra);
            ir.pop(srd);
            match op {
                WasmOp::I64Add => ir.add(sra, srd),
                WasmOp::I64And => ir.and(sra, srd),
                WasmOp::I64Or => ir.or(sra, srd),
                _ => ir.xor(sra, srd),
            }
            ir.push(sra);
            Ok(())
        },
        WasmOp::I32Sub => {
            ir.pop(srd);
            ir.pop(sra);
            ir.subtract(sra32, srd32);
            ir.push(sra);
            Ok(())
        },
        WasmOp::I64Sub => {
            ir.pop(srd);
            ir.pop(sra);
            ir.subtract(sra, srd);
            ir.push(sra);
            Ok(())
        },
        WasmOp::I32Mul => {
            ir.pop(sra);
            ir.pop(srd);
            ir.multiply(sra32, srd32);
            ir.push(sra);
            Ok(())
        },
        WasmOp::I64Mul => {
            ir.pop(sra);
            ir.pop(srd);
            ir.multiply(sra, srd);
            ir.push(sra);
            Ok(())
        },
        WasmOp::I32DivS | WasmOp::I32DivU | WasmOp::I32RemS | WasmOp::I32RemU => {
            ir.pop(src);
            ir.pop(sra);
            match op {
                WasmOp::I32DivS => ir.divide_signed(sra32, src32),
                WasmOp::I32DivU => ir.divide_unsigned(sra32, src32),
                WasmOp::I32RemS => ir.remainder_signed(sra32, src32),
                _ => ir.remainder_unsigned(sra32, src32),
            }
            ir.push(sra);
            Ok(())
        },
        WasmOp::I64DivS | WasmOp::I64DivU | WasmOp::I64RemS | WasmOp::I64RemU => {
            ir.pop(src);
            ir.pop(sra);
            match op {
                WasmOp::I64DivS => ir.divide_signed(sra, src),
                WasmOp::I64DivU => ir.divide_unsigned(sra, src),
                WasmOp::I64RemS => ir.remainder_signed(sra, src),
                _ => ir.remainder_unsigned(sra, src),
            }
            ir.push(sra);
            Ok(())
        },
        WasmOp::I32Shl | WasmOp::I32ShrS | WasmOp::I32ShrU | WasmOp::I32Rotl | WasmOp::I32Rotr => {
            ir.pop(src);
            ir.pop(sra);
            match op {
                WasmOp::I32Shl => ir.shift_left(sra32, src32),
                WasmOp::I32ShrS => ir.shift_right_signed(sra32, src32),
                WasmOp::I32ShrU => ir.shift_right_unsigned(sra32, src32),
                WasmOp::I32Rotl => ir.rotate_left(sra32, src32),
                _ => ir.rotate_right(sra32, src32),
            }
            ir.push(sra);
            Ok(())
        },
        WasmOp::I64Shl | WasmOp::I64ShrS | WasmOp::I64ShrU | WasmOp::I64Rotl | WasmOp::I64Rotr => {
            ir.pop(src);
            ir.pop(sra);
            match op {
                WasmOp::I64Shl => ir.shift_left(sra, src),
                WasmOp::I64ShrS => ir.shift_right_signed(sra, src),
                WasmOp::I64ShrU => ir.shift_right_unsigned(sra, src),
                WasmOp::I64Rotl => ir.rotate_left(sra, src),
                _ => ir.rotate_right(sra, src),
            }
            ir.push(sra);
            Ok(())
        },
        WasmOp::I32Clz | WasmOp::I32Ctz | WasmOp::I32Popcnt => {
            ir.pop(sra);
            match op {
                WasmOp::I32Clz => ir.leading_zeroes(sra32),
                WasmOp::I32Ctz => ir.trailing_zeroes(sra32),
                _ => ir.bit_population_count(sra32),
            }
            ir.push(sra);
            Ok(())
        },
        WasmOp::I64Clz | WasmOp::I64Ctz | WasmOp::I64Popcnt => {
            ir.pop(sra);
            match op {
                WasmOp::I64Clz => ir.leading_zeroes(sra),
                WasmOp::I64Ctz => ir.trailing_zeroes(sra),
                _ => ir.bit_population_count(sra),
            }
            ir.push(sra);
            Ok(())
        },
        WasmOp::I32Eqz => {
            ir.pop(sra);
            ir.check_if_zero(sra32);
            ir.push(sra);
            Ok(())
        },
        WasmOp::I64Eqz => {
            ir.pop(sra);
            ir.check_if_zero(sra);
            ir.push(sra);
            Ok(())
        },
        WasmOp::I32Eq | WasmOp::I32Ne | WasmOp::I32LtS | WasmOp::I32LtU | WasmOp::I32GtS
            | WasmOp::I32GtU | WasmOp::I32LeS | WasmOp::I32LeU | WasmOp::I32GeS
            | WasmOp::I32GeU => {
            ir.pop(srd);
            ir.pop(sra);
            ir.compare(sra32, srd32);
            let cond = match op {
                WasmOp::I32Eq => IrCond::Equal,
                WasmOp::I32Ne => IrCond::NotEqual,
                WasmOp::I32LtS => IrCond::LessSigned,
                WasmOp::I32LtU => IrCond::LessUnsigned,
                WasmOp::I32GtS => IrCond::GreaterSigned,
                WasmOp::I32GtU => IrCond::GreaterUnsigned,
                WasmOp::I32LeS => IrCond::LessOrEqualSigned,
                WasmOp::I32LeU => IrCond::LessOrEqualUnsigned,
                WasmOp::I32GeS => IrCond::GreaterOrEqualSigned,
                _ => IrCond::GreaterOrEqualUnsigned,
            };
            ir.set_if(cond, sra);
            ir.push(sra);
            Ok(())
        },
        WasmOp::I64Eq | WasmOp::I64Ne | WasmOp::I64LtS | WasmOp::I64LtU | WasmOp::I64GtS
            | WasmOp::I64GtU | WasmOp::I64LeS | WasmOp::I64LeU | WasmOp::I64GeS
            | WasmOp::I64GeU => {
            ir.pop(srd);
            ir.pop(sra);
            ir.compare(sra, srd);
            let cond = match op {
                WasmOp::I64Eq => IrCond::Equal,
                WasmOp::I64Ne => IrCond::NotEqual,
                WasmOp::I64LtS => IrCond::LessSigned,
                WasmOp::I64LtU => IrCond::LessUnsigned,
                WasmOp::I64GtS => IrCond::GreaterSigned,
                WasmOp::I64GtU => IrCond::GreaterUnsigned,
                WasmOp::I64LeS => IrCond::LessOrEqualSigned,
                WasmOp::I64LeU => IrCond::LessOrEqualUnsigned,
                WasmOp::I64GeS => IrCond::GreaterOrEqualSigned,
                _ => IrCond::GreaterOrEqualUnsigned,
            };
            ir.set_if(cond, sra);
            ir.push(sra);
            Ok(())
        },
        WasmOp::LocalGet(i) => {
            if *i >= n_slots {
                return Err(verr("local index out of range"));
            }
            ir.mov(sra, IrOperand::Local(*i));
            ir.push(sra);
            Ok(())
        },
        WasmOp::LocalSet(i) => {
            if *i >= n_slots {
                return Err(verr("local index out of range"));
            }
            ir.pop(sra);
            ir.mov(IrOperand::Local(*i), sra);
            Ok(())
        },
        WasmOp::LocalTee(i) => {
            if *i >= n_slots {
                return Err(verr("local index out of range"));
            }
            ir.pop(sra);
            ir.mov(IrOperand::Local(*i), sra);
            ir.push(sra);
            Ok(())
        },
        WasmOp::GlobalGet(i) => {
            if *i >= n_globals {
                return Err(verr("global index out of range"));
            }
            ir.mov(sra, IrOperand::Global(*i));
            ir.push(sra);
            Ok(())
        },
        WasmOp::GlobalSet(i) => {
            if *i >= n_globals {
                return Err(verr("global index out of range"));
            }
            ir.pop(sra);
            ir.mov(IrOperand::Global(*i), sra);
            Ok(())
        },
        WasmOp::I32Load(off) | WasmOp::I64Load(off) | WasmOp::I32Load8S(off) | WasmOp::I32Load8U(
            off,
        ) | WasmOp::I32Load16S(off) | WasmOp::I32Load16U(off) | WasmOp::I64Load8S(off)
            | WasmOp::I64Load8U(off) | WasmOp::I64Load16S(off) | WasmOp::I64Load16U(off)
            | WasmOp::I64Load32S(off) | WasmOp::I64Load32U(off) => {
            if *off > 0x7fffffff {
                return Err(verr("address offset out of range"));
            }
            let o = *off as i32;
            ir.pop(srd);
            match op {
                WasmOp::I32Load(_) => {
                    ir.mov(sra32, IrOperand::Memory32(o, IrReg::Srd));
                    ir.zero_extend(sra32);
                },
                WasmOp::I64Load(_) => {
                    ir.mov(sra, IrOperand::Memory64(o, IrReg::Srd));
                },
                WasmOp::I32Load8S(_) | WasmOp::I64Load8S(_) => {
                    ir.mov(IrOperand::Reg8(IrReg::Sra), IrOperand::Memory8(o, IrReg::Srd));
                    ir.sign_extend(IrOperand::Reg8(IrReg::Sra));
                },
                WasmOp::I32Load8U(_) | WasmOp::I64Load8U(_) => {
                    ir.mov(IrOperand::Reg8(IrReg::Sra), IrOperand::Memory8(o, IrReg::Srd));
                    ir.zero_extend(IrOperand::Reg8(IrReg::Sra));
                },
                WasmOp::I32Load16S(_) | WasmOp::I64Load16S(_) => {
                    ir.mov(IrOperand::Reg16(IrReg::Sra), IrOperand::Memory16(o, IrReg::Srd));
                    ir.sign_extend(IrOperand::Reg16(IrReg::Sra));
                },
                WasmOp::I32Load16U(_) | WasmOp::I64Load16U(_) => {
                    ir.mov(IrOperand::Reg16(IrReg::Sra), IrOperand::Memory16(o, IrReg::Srd));
                    ir.zero_extend(IrOperand::Reg16(IrReg::Sra));
                },
                WasmOp::I64Load32S(_) => {
                    ir.mov(sra32, IrOperand::Memory32(o, IrReg::Srd));
                    ir.sign_extend(sra32);
                },
                _ => {
                    ir.mov(sra32, IrOperand::Memory32(o, IrReg::Srd));
                    ir.zero_extend(sra32);
                },
            }
            ir.push(sra);
            Ok(())
        },
        WasmOp::I32Store(off) | WasmOp::I64Store(off) | WasmOp::I32Store8(off)
            | WasmOp::I32Store16(off) | WasmOp::I64Store8(off) | WasmOp::I64Store16(off)
            | WasmOp::I64Store32(off) => {
            if *off > 0x7fffffff {
                return Err(verr("address offset out of range"));
            }
            let o = *off as i32;
            ir.pop(sra);
            ir.pop(srd);
            match op {
                WasmOp::I64Store(_) => {
                    ir.mov(IrOperand::Memory64(o, IrReg::Srd), sra);
                },
                WasmOp::I32Store8(_) | WasmOp::I64Store8(_) => {
                    ir.mov(IrOperand::Memory8(o, IrReg::Srd), IrOperand::Reg8(IrReg::Sra));
                },
                WasmOp::I32Store16(_) | WasmOp::I64Store16(_) => {
                    ir.mov(IrOperand::Memory16(o, IrReg::Srd), IrOperand::Reg16(IrReg::Sra));
                },
                _ => {
                    ir.mov(IrOperand::Memory32(o, IrReg::Srd), sra32);
                },
            }
            Ok(())
        },
        WasmOp::Select => {
            ir.pop(src);
            ir.pop(sra);
            ir.pop(srd);
            ir.select(src32, sra, srd, sra);
            ir.push(sra);
            Ok(())
        },
        WasmOp::I32WrapI64 | WasmOp::I64ExtendI32U => {
            ir.pop(sra);
            ir.zero_extend(sra32);
            ir.push(sra);
            Ok(())
        },
        WasmOp::I64ExtendI32S => {
            ir.pop(sra);
            ir.sign_extend(sra32);
            ir.push(sra);
            Ok(())
        },
        WasmOp::MemorySize => {
            ir.memory_size(sra32);
            ir.push(sra);
            Ok(())
        },
        WasmOp::MemoryGrow => {
            ir.pop(sra);
            ir.memory_grow(sra32);
            ir.push(sra);
            Ok(())
        },
        WasmOp::Call(i) => {
            if *i >= nfuncs {
                return Err(verr("call to a function index outside the module"));
            }
            if *i < nimports {
                ir.call(IrLabel::ImportedFunc(*i));
            } else {
                ir.call(IrLabel::AnonymousFunc(*i));
            }
            Ok(())
        },
        WasmOp::CallIndirect { type_index, table_index } => {
            if *table_index >= n_tables {
                return Err(verr("call through a table the module does not have"));
            }
            if (*type_index as usize) >= types.len() {
                return Err(verr("call through a type the module does not have"));
            }
            let sig = types[*type_index as usize];
            ir.pop(sra);
            ir.call(IrLabel::Indirect(*table_index, sra32, sig));
            Ok(())
        },
        _ => Err(verr("operation not handled here")),
    }
}

/// A constant expression the initializer can evaluate: exactly one integer
/// constant (the decoder already rules out everything else).
pub open spec fn const_expr_ok(init: Seq<WasmOp>) -> bool {
    init.len() == 1 && (init[0] is I32Const || init[0] is I64Const)
}

/// The two operations a constant expression becomes: its value moved into
/// scratch A and pushed onto the operand stack.
pub open spec fn const_expr_ops(init: Seq<WasmOp>) -> Seq<IrCp>
    recommends
        const_expr_ok(init),
{
    let imm = match init[0] {
        WasmOp::I32Const(v) => IrOperand::Imm32(v),
        WasmOp::I64Const(v) => IrOperand::Imm64(v),
        _ => IrOperand::Imm32(0),
    };
    seq![
        IrCp::Move(IrOperand::Reg(IrReg::Sra), imm),
        IrCp::Push(IrOperand::Reg(IrReg::Sra)),
    ]
}

/// Emits the constant expression's value onto the operand stack. The decoder
/// admits integer constants only; exactly one is required here, so that one
/// value is left on the stack.
fn parse_const_expr(ir: &mut Ir, init: &Vec<WasmOp>) -> (r: Result<(), PvfError>)
    ensures
        r is Ok <==> const_expr_ok(init@),
        r is Ok ==> final(ir)@ == old(ir)@ + const_expr_ops(init@),
        r is Err ==> r->Err_0 is ValidationError && final(ir)@ == old(ir)@,
{
    if init.len() != 1 {
        return Err(verr("a constant expression must hold exactly one constant"));
    }
    let sra = IrOperand::Reg(IrReg::Sra);
    match &init[0] {
        WasmOp::I32Const(v) => {
            ir.mov(sra, IrOperand::Imm32(*v));
            ir.push(sra);
            proof {
                assert(final(ir)@ =~= old(ir)@ + const_expr_ops(init@));
            }
            Ok(())
        },
        WasmOp::I64Const(v) => {
            ir.mov(sra, IrOperand::Imm64(*v));
            ir.push(sra);
            proof {
                assert(final(ir)@ =~= old(ir)@ + const_expr_ops(init@));
            }
            Ok(())
        },
        _ => Err(verr("a constant expression may hold integer constants only")),
    }
}

/// Emits the function epilogue: result into scratch A, stack unwound to the
/// frame base, saved registers restored.
fn emit_epilogue(ir: &mut Ir, has_result: bool) {
    if has_result {
        ir.pop(IrOperand::Reg(IrReg::Sra));
    }
    ir.mov(IrOperand::Reg(IrReg::Stp), IrOperand::Reg(IrReg::Ffp));
    ir.pop(IrOperand::Reg(IrReg::Bfp));
    ir.pop(IrOperand::Reg(IrReg::Ffp));
    ir.postamble();
    ir.ret();
}

/// Emits the branch path to the frame `depth` levels up: the target frame's
/// result into scratch A if it carries one, one block unwind per level, then
/// the jump.
fn emit_branch(ir: &mut Ir, depth: u32, target_block: u64, target_has_retval: bool) {
    if target_has_retval {
        ir.pop(IrOperand::Reg(IrReg::Sra));
    }
    let mut lvl: u32 = 0;
    while lvl < depth
        decreases depth - lvl,
    {
        ir.mov(IrOperand::Reg(IrReg::Stp), IrOperand::Reg(IrReg::Bfp));
        ir.pop(IrOperand::Reg(IrReg::Bfp));
        lvl = lvl + 1;
    }
    ir.jump(IrLabel::BranchTarget(target_block));
}

/// The selector clamp a branch table opens with: the selector is popped, and
/// anything unsigned-above the last entry's index is replaced by it, the
/// default target.
pub open spec fn br_table_clamp_ops(n_targets: u32) -> Seq<IrCp> {
    seq![
        IrCp::Pop(IrOperand::Reg(IrReg::Src)),
        IrCp::Move(IrOperand::Reg(IrReg::Srd), IrOperand::Imm32((n_targets - 1) as i32)),
        IrCp::Compare(IrOperand::Reg32(IrReg::Src), IrOperand::Reg32(IrReg::Srd)),
        IrCp::MoveIf(
            IrCond::GreaterUnsigned,
            IrOperand::Reg32(IrReg::Src),
            IrOperand::Reg32(IrReg::Srd),
        ),
    ]
}

/// Emits the branch-table selector clamp, exactly `br_table_clamp_ops`.
fn emit_br_table_clamp(ir: &mut Ir, n_targets: u32)
    requires
        1 <= n_targets <= 0xFFFF,
    ensures
        final(ir)@ == old(ir)@ + br_table_clamp_ops(n_targets),
{
    ir.pop(IrOperand::Reg(IrReg::Src));
    ir.mov(IrOperand::Reg(IrReg::Srd), IrOperand::Imm32((n_targets - 1) as i32));
    ir.compare(IrOperand::Reg32(IrReg::Src), IrOperand::Reg32(IrReg::Srd));
    ir.move_if(
        IrCond::GreaterUnsigned,
        IrOperand::Reg32(IrReg::Src),
        IrOperand::Reg32(IrReg::Srd),
    );
    proof {
        assert(final(ir)@ =~= old(ir)@ + br_table_clamp_ops(n_targets));
    }
}

/// Translates one defined function's body into IR.
fn translate_func_body(
    body: &WasmFuncBody,
    findex: u32,
    export_name: Option<String>,
    n_params: u32,
    has_result: bool,
    nimports: u32,
    nfuncs: u32,
    types: &Vec<IrSignature>,
    n_globals: u32,
    n_tables: u32,
    block_counter: &mut u64,
    local_label_counter: &mut u32,
    sigs: Ghost<Seq<Option<IrSignature>>>,
) -> (r: Result<Ir, PvfError>)
    requires
        body.n_locals < 0x10000,
        n_params < 16,
    ensures
        r is Err ==> r->Err_0 is ValidationError,
{
    let mut ir = Ir::new();
    let mut cstack: Vec<ControlFrame> = Vec::new();
    let n_slots = n_params + body.n_locals;

    cstack.push(
        ControlFrame { cftype: ControlFrameType::Func, block_index: 0, has_retval: has_result },
    );

    match export_name {
        Some(name) => ir.label(IrLabel::ExportedFunc(findex, name)),
        None => ir.label(IrLabel::AnonymousFunc(findex)),
    }
    ir.preamble();
    ir.push(IrOperand::Reg(IrReg::Ffp));
    ir.push(IrOperand::Reg(IrReg::Bfp));
    ir.mov(IrOperand::Reg(IrReg::Ffp), IrOperand::Reg(IrReg::Stp));
    ir.mov(IrOperand::Reg(IrReg::Bfp), IrOperand::Reg(IrReg::Stp));
    ir.init_locals(body.n_locals);

    let mut oi: usize = 0;
    while oi < body.ops.len()
        decreases body.ops@.len() - oi,
    {
        if cstack.len() == 0 {
            return Err(verr("operations after the function frame was closed"));
        }
        let op = &body.ops[oi];
        match op {
            WasmOp::Block { has_result: block_result } | WasmOp::Loop {
                has_result: block_result,
            } => {
                if *block_counter == u64::MAX {
                    return Err(verr("too many blocks"));
                }
                *block_counter = *block_counter + 1;
                let is_loop = matches!(op, WasmOp::Loop { .. });
                cstack.push(
                    ControlFrame {
                        cftype: if is_loop {
                            ControlFrameType::Loop
                        } else {
                            ControlFrameType::Block
                        },
                        block_index: *block_counter,
                        has_retval: *block_result,
                    },
                );
                ir.push(IrOperand::Reg(IrReg::Bfp));
                ir.mov(IrOperand::Reg(IrReg::Bfp), IrOperand::Reg(IrReg::Stp));
                if is_loop {
                    ir.label(IrLabel::BranchTarget(*block_counter));
                }
            },
            WasmOp::Br(depth) => {
                if (*depth as usize) >= cstack.len() {
                    return Err(verr("branch depth out of range"));
                }
                let fidx = cstack.len() - 1 - (*depth as usize);
                let target_block = cstack[fidx].block_index;
                let target_has_retval = cstack[fidx].has_retval;
                if matches!(cstack[fidx].cftype, ControlFrameType::Func) {
                    return Err(verr("branch to the function frame is not supported"));
                }
                emit_branch(&mut ir, *depth, target_block, target_has_retval);
            },
            WasmOp::BrIf(depth) => {
                if (*depth as usize) >= cstack.len() {
                    return Err(verr("branch depth out of range"));
                }
                let fidx = cstack.len() - 1 - (*depth as usize);
                let target_block = cstack[fidx].block_index;
                let target_has_retval = cstack[fidx].has_retval;
                if matches!(cstack[fidx].cftype, ControlFrameType::Func) {
                    return Err(verr("branch to the function frame is not supported"));
                }
                if *local_label_counter == u32::MAX {
                    return Err(verr("too many local labels"));
                }
                let else_label = *local_label_counter;
                *local_label_counter = *local_label_counter + 1;
                ir.pop(IrOperand::Reg(IrReg::Sra));
                ir.and(IrOperand::Reg32(IrReg::Sra), IrOperand::Reg32(IrReg::Sra));
                ir.jump_if(IrCond::Zero, IrLabel::LocalLabel(else_label));
                emit_branch(&mut ir, *depth, target_block, target_has_retval);
                ir.label(IrLabel::LocalLabel(else_label));
            },
            WasmOp::BrTable(targets) => {
                if targets.len() == 0 || targets.len() > 0xFFFF {
                    return Err(verr("branch table size out of range"));
                }
                let n_targets = targets.len();
                emit_br_table_clamp(&mut ir, n_targets as u32);
                // a result, when the targets carry one, is popped once here
                let first_fidx = {
                    if (targets[0] as usize) >= cstack.len() {
                        return Err(verr("branch depth out of range"));
                    }
                    cstack.len() - 1 - (targets[0] as usize)
                };
                if cstack[first_fidx].has_retval {
                    ir.pop(IrOperand::Reg(IrReg::Sra));
                }
                if u32::MAX - *local_label_counter <= n_targets as u32 {
                    return Err(verr("too many local labels"));
                }
                let first_label = *local_label_counter;
                *local_label_counter = *local_label_counter + n_targets as u32;
                let mut labels: Vec<IrLabel> = Vec::new();
                let mut k: usize = 0;
                while k < n_targets
                    invariant
                        n_targets <= 0xFFFF,
                        first_label + n_targets <= u32::MAX,
                    decreases n_targets - k,
                {
                    labels.push(IrLabel::LocalLabel(first_label + k as u32));
                    k = k + 1;
                }
                ir.jump_table(IrOperand::Reg32(IrReg::Src), labels);
                let mut k: usize = 0;
                while k < n_targets
                    invariant
                        n_targets <= 0xFFFF,
                        n_targets == targets@.len(),
                        first_label + n_targets <= u32::MAX,
                    decreases n_targets - k,
                {
                    let depth = targets[k];
                    if (depth as usize) >= cstack.len() {
                        return Err(verr("branch depth out of range"));
                    }
                    let fidx = cstack.len() - 1 - (depth as usize);
                    if matches!(cstack[fidx].cftype, ControlFrameType::Func) {
                        return Err(verr("branch to the function frame is not supported"));
                    }
                    ir.label(IrLabel::LocalLabel(first_label + k as u32));
                    // the result already sits in scratch A; unwind and jump
                    let target_block = cstack[fidx].block_index;
                    let mut lvl: u32 = 0;
                    while lvl < depth
                        decreases depth - lvl,
                    {
                        ir.mov(IrOperand::Reg(IrReg::Stp), IrOperand::Reg(IrReg::Bfp));
                        ir.pop(IrOperand::Reg(IrReg::Bfp));
                        lvl = lvl + 1;
                    }
                    ir.jump(IrLabel::BranchTarget(target_block));
                    k = k + 1;
                }
            },
            WasmOp::End => {
                let frame = match cstack.pop() {
                    Some(f) => f,
                    None => {
                        return Err(verr("unbalanced block end"));
                    },
                };
                match frame.cftype {
                    ControlFrameType::Func => {
                        emit_epilogue(&mut ir, has_result);
                    },
                    ControlFrameType::Block | ControlFrameType::Loop => {
                        if frame.has_retval {
                            ir.pop(IrOperand::Reg(IrReg::Sra));
                        }
                        if matches!(frame.cftype, ControlFrameType::Block) {
                            ir.label(IrLabel::BranchTarget(frame.block_index));
                        }
                        ir.mov(IrOperand::Reg(IrReg::Stp), IrOperand::Reg(IrReg::Bfp));
                        ir.pop(IrOperand::Reg(IrReg::Bfp));
                        if frame.has_retval {
                            ir.push(IrOperand::Reg(IrReg::Sra));
                        }
                    },
                }
            },
            WasmOp::Return => {
                emit_epilogue(&mut ir, has_result);
            },
            _ => {
                match translate_simple_op(
                    &mut ir,
                    op,
                    n_slots,
                    n_globals,
                    nimports,
                    nfuncs,
                    types,
                    n_tables,
                    sigs,
                ) {
                    Ok(()) => (),
                    Err(e) => {
                        return Err(e);
                    },
                }
            },
        }
        oi = oi + 1;
    }
    if cstack.len() != 0 {
        return Err(verr("the function body ends inside a block"));
    }
    Ok(ir)
}

/// Every function in a well-formed container carries exactly one entry
/// label, its own, at the top of its body, and every branch target any of
/// its jumps references is defined exactly once within the same body.
pub proof fn lemma_translated_container_structure(p: IrPvf)
    requires
        p.wf(),
    ensures
        forall|i: int|
            0 <= i < p.funcs@.len() ==> match #[trigger] p.funcs@[i] {
                Some(IrFunc::Function(ir)) => crate::ir::func_entry_shaped(ir@, i as u32)
                    && crate::ir::branch_closed(ir@),
                _ => true,
            },
{
}

/// The last function slot holds the synthesized initializer, labeled with
/// its own index and the reserved export name, framed like every compiled
/// function: prologue first, epilogue and return last. Between them stand,
/// in order, the globals' constant stores, the table fills and the memory
/// copies.
/// The initializer's operations for one defined global: its constant
/// expression, popped and stored into the global's slot.
pub open spec fn global_init_ops(g: WasmGlobal, gi: u32) -> Seq<IrCp> {
    const_expr_ops(g.init@) + seq![
        IrCp::Pop(IrOperand::Reg(IrReg::Sra)),
        IrCp::Move(IrOperand::Global(gi), IrOperand::Reg(IrReg::Sra)),
    ]
}

/// The initializer's operations for all defined globals, in order, each
/// stored past the imported ones.
pub open spec fn globals_init_ops(globals: Seq<WasmGlobal>, imported: u32) -> Seq<IrCp>
    decreases globals.len(),
{
    if globals.len() == 0 {
        Seq::empty()
    } else {
        globals_init_ops(globals.drop_last(), imported) + global_init_ops(
            globals.last(),
            (imported + globals.len() - 1) as u32,
        )
    }
}

/// One table-entry write per function index of an element segment, in order.
pub open spec fn element_entry_ops(fis: Seq<u32>) -> Seq<IrCp>
    decreases fis.len(),
{
    if fis.len() == 0 {
        Seq::empty()
    } else {
        element_entry_ops(fis.drop_last()) + seq![
            IrCp::InitTableElement(IrOperand::Imm32(fis.last() as i32)),
        ]
    }
}

/// The initializer's operations for one element segment: its offset
/// expression, the table-write preamble, one write per entry, the postamble.
pub open spec fn element_init_ops(e: WasmElement) -> Seq<IrCp> {
    const_expr_ops(e.offset@) + seq![
        IrCp::Pop(IrOperand::Reg(IrReg::Sra)),
        IrCp::InitTablePreamble(IrOperand::Reg(IrReg::Sra)),
    ] + element_entry_ops(e.func_indices@) + seq![IrCp::InitTablePostamble]
}

/// The initializer's operations for all element segments, in order.
pub open spec fn elements_init_ops(es: Seq<WasmElement>) -> Seq<IrCp>
    decreases es.len(),
{
    if es.len() == 0 {
        Seq::empty()
    } else {
        elements_init_ops(es.drop_last()) + element_init_ops(es.last())
    }
}

/// The initializer's operations for one data segment: its offset expression
/// and the copy from the segment's chunk.
pub open spec fn data_init_ops(d: WasmData, idx: u32) -> Seq<IrCp> {
    const_expr_ops(d.offset@) + seq![
        IrCp::Pop(IrOperand::Reg(IrReg::Sra)),
        IrCp::InitMemoryFromChunk(idx, d.bytes@.len() as u32, IrOperand::Reg(IrReg::Sra)),
    ]
}

/// The initializer's operations for all data segments, in order, each copied
/// from the chunk of its own index.
pub open spec fn datas_init_ops(ds: Seq<WasmData>) -> Seq<IrCp>
    decreases ds.len(),
{
    if ds.len() == 0 {
        Seq::empty()
    } else {
        datas_init_ops(ds.drop_last()) + data_init_ops(ds.last(), (ds.len() - 1) as u32)
    }
}

/// Between its fixed head and tail the initializer holds exactly the global
/// stores, then the table writes, then the memory copies, in module order.
pub open spec fn init_middle_shaped(p: IrPvf, m: WasmModule) -> bool {
    match p.funcs@.last() {
        Some(IrFunc::Function(ir)) => ir@.len() >= 5 && ir@.subrange(3, ir@.len() - 2)
            == globals_init_ops(m.globals@, m.imported_globals) + elements_init_ops(m.elements@)
            + datas_init_ops(m.datas@),
        _ => false,
    }
}

pub open spec fn init_shaped(p: IrPvf) -> bool {
    &&& p.funcs@.len() >= 1
    &&& match p.funcs@.last() {
        Some(IrFunc::Function(ir)) => {
            &&& ir@.len() >= 5
            &&& match ir@[0] {
                IrCp::Label(IrLabel::ExportedFunc(i, name)) => i == p.funcs@.len() - 1 && name@
                    == "_pvf_init"@,
                _ => false,
            }
            &&& ir@[1] is Preamble
            &&& ir@[2] == IrCp::InitLocals(0u32)
            &&& ir@[ir@.len() - 2] is Postamble
            &&& ir@.last() is Return
        },
        _ => false,
    }
}

fn check_init_shaped(p: &IrPvf) -> (r: bool)
    ensures
        r == init_shaped(*p),
{
    if p.funcs.len() == 0 {
        return false;
    }
    let expected = init_export_name();
    let n = p.funcs.len();
    match &p.funcs[n - 1] {
        Some(IrFunc::Function(ir)) => {
            if ir.ops.len() < 5 {
                return false;
            }
            let head_ok = match &ir.ops[0] {
                IrCp::Label(IrLabel::ExportedFunc(i, name)) => (*i as usize) == n - 1 && name.eq(
                    &expected,
                ),
                _ => false,
            };
            let m = ir.ops.len();
            head_ok && matches!(&ir.ops[1], IrCp::Preamble) && matches!(
                &ir.ops[2],
                IrCp::InitLocals(0u32),
            ) && matches!(&ir.ops[m - 2], IrCp::Postamble) && matches!(&ir.ops[m - 1], IrCp::Return)
        },
        _ => false,
    }
}

/// The reserved export name under which the initializer is labeled.
pub fn init_export_name() -> (r: String)
    ensures
        r@ == "_pvf_init"@,
{
    "_pvf_init".to_owned()
}

/// The first export name the module gives function `findex`, if any.
pub open spec fn first_export_name(exports: Seq<WasmExport>, findex: u32) -> Option<Seq<char>>
    decreases exports.len(),
{
    if exports.len() == 0 {
        None
    } else if exports[0].func_index == findex {
        Some(exports[0].name@)
    } else {
        first_export_name(exports.skip(1), findex)
    }
}

/// Looks `findex` up among the exports; the first name wins.
fn find_export_name(m: &WasmModule, findex: u32) -> (r: Option<String>)
    ensures
        match r {
            Some(s) => first_export_name(m.exports@, findex) == Some(s@),
            None => first_export_name(m.exports@, findex) is None,
        },
{
    proof {
        assert(m.exports@.skip(0) =~= m.exports@);
    }
    let mut i: usize = 0;
    while i < m.exports.len()
        invariant
            i <= m.exports@.len(),
            first_export_name(m.exports@, findex) == first_export_name(
                m.exports@.skip(i as int),
                findex,
            ),
        decreases m.exports@.len() - i,
    {
        proof {
            assert(m.exports@.skip(i as int)[0] == m.exports@[i as int]);
            assert(m.exports@.skip(i as int).skip(1) =~= m.exports@.skip(i + 1));
        }
        if m.exports[i].func_index == findex {
            return Some(m.exports[i].name.clone());
        }
        i = i + 1;
    }
    proof {
        assert(m.exports@.skip(m.exports@.len() as int).len() == 0);
    }
    None
}

/// The slot's body opens with the entry label the module asks for: its own
/// index, exported under the module's first name for it, anonymous without
/// one.
pub open spec fn entry_named(f: Option<IrFunc>, fi: u32, exports: Seq<WasmExport>) -> bool {
    match f {
        Some(IrFunc::Function(ir)) => ir@.len() > 0 && (match first_export_name(exports, fi) {
            Some(nm) => (match ir@[0] {
                IrCp::Label(IrLabel::ExportedFunc(i2, s)) => i2 == fi && s@ == nm,
                _ => false,
            }),
            None => ir@[0] == IrCp::Label(IrLabel::AnonymousFunc(fi)),
        }),
        _ => false,
    }
}

/// Decides `entry_named` for every defined slot of the given range.
fn check_entry_names(
    funcs: &Vec<Option<IrFunc>>,
    m: &WasmModule,
    lo: usize,
    hi: usize,
) -> (r: bool)
    requires
        hi <= funcs@.len(),
        hi < 0x10000,
    ensures
        r == forall|fi: int|
            lo <= fi < hi ==> entry_named(#[trigger] funcs@[fi], fi as u32, m.exports@),
{
    let mut fi: usize = lo;
    if lo >= hi {
        return true;
    }
    while fi < hi
        invariant
            lo <= fi <= hi,
            hi <= funcs@.len(),
            hi < 0x10000,
            forall|j: int| lo <= j < fi ==> entry_named(#[trigger] funcs@[j], j as u32, m.exports@),
        decreases hi - fi,
    {
        let ok = match &funcs[fi] {
            Some(IrFunc::Function(ir)) => {
                if ir.ops.len() == 0 {
                    false
                } else {
                    match (find_export_name(m, fi as u32), &ir.ops[0]) {
                        (Some(nm), IrCp::Label(IrLabel::ExportedFunc(i2, s))) => *i2 == fi as u32
                            && s.eq(&nm),
                        (None, IrCp::Label(IrLabel::AnonymousFunc(i2))) => *i2 == fi as u32,
                        _ => false,
                    }
                }
            },
            _ => false,
        };
        if !ok {
            return false;
        }
        fi = fi + 1;
    }
    true
}

/// The resolver table holds an entry for this import's module and name.
pub open spec fn import_in_table(imp: WasmImport, table: Seq<(String, String, u64)>) -> bool {
    exists|p: int|
        0 <= p < table.len() && (#[trigger] table[p]).0@ == imp.module@ && table[p].1@
            == imp.name@
}

/// Looks an import up in the resolver table by module and field name; the
/// first matching entry's address wins. A result comes exactly when the
/// table holds a match.
fn resolve_import(table: &Vec<(String, String, u64)>, module: &String, name: &String) -> (r:
    Option<u64>)
    ensures
        r is Some <==> exists|p: int|
            0 <= p < table@.len() && (#[trigger] table@[p]).0@ == module@ && table@[p].1@
                == name@,
{
    let mut i: usize = 0;
    while i < table.len()
        invariant
            i <= table@.len(),
            forall|p: int|
                0 <= p < i ==> !((#[trigger] table@[p]).0@ == module@ && table@[p].1@ == name@),
        decreases table@.len() - i,
    {
        if table[i].0.eq(module) && table[i].1.eq(name) {
            return Some(table[i].2);
        }
        i = i + 1;
    }
    None
}

/// The module's imports can all be resolved against the embedder's table:
/// vacuously so without imports, and never without a table.
pub open spec fn imports_resolvable(
    imports: Seq<WasmImport>,
    resolver: Option<Vec<(String, String, u64)>>,
) -> bool {
    imports.len() == 0 || match resolver {
        Some(t) => forall|i: int|
            0 <= i < imports.len() ==> import_in_table(#[trigger] imports[i], t@),
        None => false,
    }
}

/// The function slots split at `k`: import stubs below it, translated bodies
/// from it on, with no slot left empty.
pub open spec fn import_split_shaped(funcs: Seq<Option<IrFunc>>, k: int) -> bool {
    &&& 0 <= k < funcs.len()
    &&& forall|i: int| 0 <= i < k ==> ((#[trigger] funcs[i]) matches Some(IrFunc::Import(_)))
    &&& forall|i: int|
        k <= i < funcs.len() ==> ((#[trigger] funcs[i]) matches Some(IrFunc::Function(_)))
}

/// Decides `import_split_shaped` at the given split point.
fn check_import_split(funcs: &Vec<Option<IrFunc>>, k: usize) -> (r: bool)
    ensures
        r == import_split_shaped(funcs@, k as int),
{
    if k >= funcs.len() {
        return false;
    }
    let mut i: usize = 0;
    while i < k
        invariant
            k < funcs@.len(),
            i <= k,
            forall|j: int| 0 <= j < i ==> ((#[trigger] funcs@[j]) matches Some(IrFunc::Import(_))),
        decreases k - i,
    {
        if !matches!(&funcs[i], Some(IrFunc::Import(_))) {
            return false;
        }
        i = i + 1;
    }
    let mut i: usize = k;
    let n = funcs.len();
    while i < n
        invariant
            k < funcs@.len(),
            n == funcs@.len(),
            k <= i <= n,
            forall|j: int| 0 <= j < k ==> ((#[trigger] funcs@[j]) matches Some(IrFunc::Import(_))),
            forall|j: int|
                k <= j < i ==> ((#[trigger] funcs@[j]) matches Some(IrFunc::Function(_))),
        decreases n - i,
    {
        if !matches!(&funcs[i], Some(IrFunc::Function(_))) {
            return false;
        }
        i = i + 1;
    }
    true
}

/// Resolves every imported function to its host address. Success is owed
/// exactly when every import has a table entry; the first import without
/// one is reported under its full `module::name`.
pub fn resolve_imports(imports: &Vec<WasmImport>, table: &Vec<(String, String, u64)>) -> (r:
    Result<Vec<u64>, PvfError>)
    ensures
        r is Ok <==> (forall|i: int|
            0 <= i < imports@.len() ==> import_in_table(#[trigger] imports@[i], table@)),
        r is Ok ==> r->Ok_0@.len() == imports@.len(),
        r is Err ==> r->Err_0 is UnresolvedImport,
{
    let mut addrs: Vec<u64> = Vec::new();
    let mut i: usize = 0;
    while i < imports.len()
        invariant
            i <= imports@.len(),
            addrs@.len() == i,
            forall|p: int| 0 <= p < i ==> import_in_table(#[trigger] imports@[p], table@),
        decreases imports@.len() - i,
    {
        let imp = &imports[i];
        match resolve_import(table, &imp.module, &imp.name) {
            Some(a) => {
                addrs.push(a);
            },
            None => {
                proof {
                    assert(!import_in_table(imports@[i as int], table@));
                }
                return Err(
                    PvfError::UnresolvedImport(
                        imp.module.clone().concat("::").concat(imp.name.as_str()),
                    ),
                );
            },
        }
        i = i + 1;
    }
    Ok(addrs)
}

/// A module still in its binary form, with the import resolution table the
/// embedder supplied: each entry maps an import's module and field name to
/// the host function's address.
pub struct RawPvf {
    pub wasm_code: Vec<u8>,
    pub block_index: u64,
    pub import_resolver: Option<Vec<(String, String, u64)>>,
}

impl RawPvf {
    pub fn from_bytes(bytes: &[u8]) -> (r: Self)
        ensures
            r.wasm_code@ == bytes@,
            r.import_resolver is None,
    {
        RawPvf {
            wasm_code: vstd::slice::slice_to_vec(bytes),
            block_index: 0,
            import_resolver: None,
        }
    }

    /// Supplies the import resolution table: one entry per host function,
    /// keyed by module and field name, carrying the address of a function
    /// that obeys the host ABI with the import's arity. The table is
    /// pre-resolved — a plain-value boundary in place of a host callback —
    /// so resolution itself is verified.
    pub fn set_import_resolver(&mut self, resolver: Vec<(String, String, u64)>)
        ensures
            final(self).import_resolver == Some(resolver),
            final(self).wasm_code == old(self).wasm_code,
            final(self).block_index == old(self).block_index,
    {
        self.import_resolver = Some(resolver);
    }

    /// Translates a decoded module. On success the IR container is
    /// well-formed: every defined function holds exactly one entry label, its
    /// own, at the top of its body; every branch target any of its jumps
    /// references is defined exactly once across the module; every direct
    /// call names a defined function and every import call an import slot;
    /// the slots mirror the module, import stubs first, one translated body
    /// per code entry after them; and the last slot holds the synthesized
    /// initializer under the reserved export name. Imports are resolved
    /// before anything else is judged, so the unresolved-import error comes
    /// back exactly when some import has no table entry.
    pub fn translate_module(
        m: &WasmModule,
        resolver: &Option<Vec<(String, String, u64)>>,
        start_block: u64,
    ) -> (r: Result<IrPvf, PvfError>)
        requires
            m.wf(),
        ensures
            match r {
                Ok(p) => {
                    &&& p.wf()
                    &&& init_shaped(p)
                    &&& init_middle_shaped(p, *m)
                    &&& p.funcs@.len() == m.func_imports@.len() + m.code@.len() + 1
                    &&& import_split_shaped(p.funcs@, m.func_imports@.len() as int)
                    &&& forall|fi: int|
                        m.func_imports@.len() <= fi < m.func_imports@.len() + m.code@.len()
                            ==> entry_named(#[trigger] p.funcs@[fi], fi as u32, m.exports@)
                },
                Err(e) => e is ValidationError || e is UnresolvedImport,
            },
            (match r {
                Err(e) => e is UnresolvedImport,
                _ => false,
            }) <==> !imports_resolvable(m.func_imports@, *resolver),
    {
        let nimports_us = m.func_imports.len();
        let ndefined_us = m.code.len();

        // resolve the imports to host addresses through the embedder's
        // pre-resolved lookup table; without one, the first import is
        // already unresolvable
        let addrs: Vec<u64> = if nimports_us == 0 {
            Vec::new()
        } else {
            match resolver {
                Some(table) => match resolve_imports(&m.func_imports, table) {
                    Ok(a) => a,
                    Err(e) => {
                        return Err(e);
                    },
                },
                None => {
                    let imp = &m.func_imports[0];
                    return Err(
                        PvfError::UnresolvedImport(
                            imp.module.clone().concat("::").concat(imp.name.as_str()),
                        ),
                    );
                },
            }
        };
        proof {
            assert(imports_resolvable(m.func_imports@, *resolver));
        }

        let nfuncs_us = nimports_us + ndefined_us;
        // bounded so that every function index, the initializer's included,
        // fits the label space
        if nfuncs_us >= 0xFFFF {
            return Err(verr("too many functions"));
        }
        let nimports = nimports_us as u32;
        let nfuncs = nfuncs_us as u32;

        if m.imported_globals > 0x8000 {
            return Err(verr("too many imported globals"));
        }
        if m.globals.len() > 0x8000 {
            return Err(verr("too many globals"));
        }
        let n_globals_us = (m.imported_globals as usize) + m.globals.len();
        // the segment map addresses every table and chunk by a 32-bit
        // displacement below the linear-memory base; these counts keep the
        // whole map inside that range
        if m.tables.len() >= 0x100 {
            return Err(verr("too many tables"));
        }
        if m.datas.len() >= 0x100 {
            return Err(verr("too many data segments"));
        }
        let n_globals = n_globals_us as u32;
        let n_tables = m.tables.len() as u32;

        // the signature of every function slot, the initializer's included
        let mut signatures: Vec<Option<IrSignature>> = Vec::new();
        let mut i: usize = 0;
        while i < nimports_us
            invariant
                imports_resolvable(m.func_imports@, *resolver),
                nimports_us == m.func_imports@.len(),
                m.wf(),
                signatures@.len() == i,
                i <= nimports_us,
            decreases nimports_us - i,
        {
            let ti = m.func_imports[i].type_index;
            signatures.push(Some(m.types[ti as usize]));
            i = i + 1;
        }
        let mut i: usize = 0;
        while i < ndefined_us
            invariant
                imports_resolvable(m.func_imports@, *resolver),
                ndefined_us == m.code@.len(),
                m.wf(),
                signatures@.len() == nimports_us + i,
                i <= ndefined_us,
            decreases ndefined_us - i,
        {
            let ti = m.func_type_indices[i];
            signatures.push(Some(m.types[ti as usize]));
            i = i + 1;
        }
        signatures.push(Some(IrSignature { params: 0, results: 0 }));
        let ghost sigs_view = signatures@;

        let mut funcs: Vec<Option<IrFunc>> = Vec::new();
        let mut i: usize = 0;
        while i < nimports_us
            invariant
                imports_resolvable(m.func_imports@, *resolver),
                nimports_us == m.func_imports@.len(),
                nimports_us > 0 ==> addrs@.len() == nimports_us,
                funcs@.len() == i,
                i <= nimports_us,
            decreases nimports_us - i,
        {
            funcs.push(Some(IrFunc::Import(addrs[i])));
            i = i + 1;
        }

        // translate each defined function
        let mut block_counter: u64 = start_block;
        let mut local_label_counter: u32 = 0;
        let mut i: usize = 0;
        while i < ndefined_us
            invariant
                imports_resolvable(m.func_imports@, *resolver),
                ndefined_us == m.code@.len(),
                nimports_us == m.func_imports@.len(),
                nfuncs_us == nimports_us + ndefined_us,
                nfuncs_us < 0xFFFF,
                nimports == nimports_us,
                nfuncs == nfuncs_us,
                m.wf(),
                signatures@ == sigs_view,
                signatures@.len() == nfuncs_us + 1,
                funcs@.len() == nimports_us + i,
                i <= ndefined_us,
            decreases ndefined_us - i,
        {
            let findex = (nimports_us + i) as u32;
            let body = &m.code[i];
            let ti = m.func_type_indices[i];
            let sig = m.types[ti as usize];
            let export_name = find_export_name(&m, findex);
            let ir = match translate_func_body(
                body,
                findex,
                export_name,
                sig.params,
                sig.results > 0,
                nimports,
                nfuncs,
                &m.types,
                n_globals,
                n_tables,
                &mut block_counter,
                &mut local_label_counter,
                Ghost(sigs_view),
            ) {
                Ok(ir) => ir,
                Err(e) => {
                    return Err(e);
                },
            };
            funcs.push(Some(IrFunc::Function(ir)));
            i = i + 1;
        }

        // synthesize the initializer: globals, then tables, then memory
        let mut init_ir = Ir::new();
        init_ir.label(IrLabel::ExportedFunc(nfuncs, init_export_name()));
        init_ir.preamble();
        init_ir.init_locals(0);
        let ghost init_header = init_ir@;
        proof {
            assert(m.globals@.take(0) =~= Seq::<WasmGlobal>::empty());
            assert(init_ir@ =~= init_header + globals_init_ops(
                m.globals@.take(0),
                m.imported_globals,
            ));
        }
        let mut i: usize = 0;
        while i < m.globals.len()
            invariant
                imports_resolvable(m.func_imports@, *resolver),
                m.imported_globals + m.globals@.len() <= 0x10000,
                i <= m.globals@.len(),
                init_header.len() == 3,
                init_ir@ == init_header + globals_init_ops(
                    m.globals@.take(i as int),
                    m.imported_globals,
                ),
            decreases m.globals@.len() - i,
        {
            match parse_const_expr(&mut init_ir, &m.globals[i].init) {
                Ok(()) => (),
                Err(e) => {
                    return Err(e);
                },
            }
            init_ir.pop(IrOperand::Reg(IrReg::Sra));
            let gi = m.imported_globals + i as u32;
            init_ir.mov(IrOperand::Global(gi), IrOperand::Reg(IrReg::Sra));
            proof {
                assert(m.globals@.take(i + 1).drop_last() =~= m.globals@.take(i as int));
                assert(m.globals@.take(i + 1).last() == m.globals@[i as int]);
                assert(init_ir@ =~= init_header + globals_init_ops(
                    m.globals@.take(i + 1),
                    m.imported_globals,
                ));
            }
            i = i + 1;
        }
        proof {
            assert(m.globals@.take(m.globals@.len() as int) =~= m.globals@);
            assert(m.elements@.take(0) =~= Seq::<WasmElement>::empty());
            assert(init_ir@ =~= init_header + globals_init_ops(m.globals@, m.imported_globals)
                + elements_init_ops(m.elements@.take(0)));
        }
        if m.elements.len() > 0 && m.tables.len() == 0 {
            return Err(verr("an element segment needs a table"));
        }
        let mut i: usize = 0;
        while i < m.elements.len()
            invariant
                imports_resolvable(m.func_imports@, *resolver),
                m.wf(),
                nimports_us == m.func_imports@.len(),
                nfuncs_us == nimports_us + m.code@.len(),
                nfuncs_us < 0xFFFF,
                i <= m.elements@.len(),
                init_header.len() == 3,
                init_ir@ == init_header + globals_init_ops(m.globals@, m.imported_globals)
                    + elements_init_ops(m.elements@.take(i as int)),
            decreases m.elements@.len() - i,
        {
            match parse_const_expr(&mut init_ir, &m.elements[i].offset) {
                Ok(()) => (),
                Err(e) => {
                    return Err(e);
                },
            }
            init_ir.pop(IrOperand::Reg(IrReg::Sra));
            init_ir.init_table_preamble(IrOperand::Reg(IrReg::Sra));
            let elem = &m.elements[i];
            proof {
                assert(elem.func_indices@.take(0) =~= Seq::<u32>::empty());
                assert(init_ir@ =~= init_header + globals_init_ops(m.globals@, m.imported_globals)
                    + elements_init_ops(m.elements@.take(i as int)) + const_expr_ops(elem.offset@)
                    + seq![
                    IrCp::Pop(IrOperand::Reg(IrReg::Sra)),
                    IrCp::InitTablePreamble(IrOperand::Reg(IrReg::Sra)),
                ] + element_entry_ops(elem.func_indices@.take(0)));
            }
            let mut j: usize = 0;
            while j < elem.func_indices.len()
                invariant
                    imports_resolvable(m.func_imports@, *resolver),
                    m.wf(),
                    nimports_us == m.func_imports@.len(),
                    nfuncs_us == nimports_us + m.code@.len(),
                    nfuncs_us < 0xFFFF,
                    i < m.elements@.len(),
                    elem == &m.elements@[i as int],
                    j <= elem.func_indices@.len(),
                    init_header.len() == 3,
                    init_ir@ == init_header + globals_init_ops(m.globals@, m.imported_globals)
                        + elements_init_ops(m.elements@.take(i as int)) + const_expr_ops(
                        elem.offset@,
                    ) + seq![
                        IrCp::Pop(IrOperand::Reg(IrReg::Sra)),
                        IrCp::InitTablePreamble(IrOperand::Reg(IrReg::Sra)),
                    ] + element_entry_ops(elem.func_indices@.take(j as int)),
                decreases elem.func_indices@.len() - j,
            {
                let fi = elem.func_indices[j];
                if (fi as usize) < nimports_us {
                    return Err(verr("an imported function cannot enter a table"));
                }
                init_ir.init_table_element(IrOperand::Imm32(fi as i32));
                proof {
                    assert(elem.func_indices@.take(j + 1).drop_last() =~= elem.func_indices@.take(
                        j as int,
                    ));
                    assert(elem.func_indices@.take(j + 1).last() == elem.func_indices@[j as int]);
                    assert(init_ir@ =~= init_header + globals_init_ops(
                        m.globals@,
                        m.imported_globals,
                    ) + elements_init_ops(m.elements@.take(i as int)) + const_expr_ops(
                        elem.offset@,
                    ) + seq![
                        IrCp::Pop(IrOperand::Reg(IrReg::Sra)),
                        IrCp::InitTablePreamble(IrOperand::Reg(IrReg::Sra)),
                    ] + element_entry_ops(elem.func_indices@.take(j + 1)));
                }
                j = j + 1;
            }
            init_ir.init_table_postamble();
            proof {
                assert(elem.func_indices@.take(elem.func_indices@.len() as int)
                    =~= elem.func_indices@);
                assert(m.elements@.take(i + 1).drop_last() =~= m.elements@.take(i as int));
                assert(m.elements@.take(i + 1).last() == m.elements@[i as int]);
                assert(init_ir@ =~= init_header + globals_init_ops(m.globals@, m.imported_globals)
                    + elements_init_ops(m.elements@.take(i + 1)));
            }
            i = i + 1;
        }
        proof {
            assert(m.elements@.take(m.elements@.len() as int) =~= m.elements@);
            assert(m.datas@.take(0) =~= Seq::<WasmData>::empty());
            assert(init_ir@ =~= init_header + globals_init_ops(m.globals@, m.imported_globals)
                + elements_init_ops(m.elements@) + datas_init_ops(m.datas@.take(0)));
        }
        let mut chunks: Vec<IrDataChunk> = Vec::new();
        let mut i: usize = 0;
        while i < m.datas.len()
            invariant
                imports_resolvable(m.func_imports@, *resolver),
                m.datas@.len() < 0x100,
                chunks@.len() == i,
                i <= m.datas@.len(),
                init_header.len() == 3,
                init_ir@ == init_header + globals_init_ops(m.globals@, m.imported_globals)
                    + elements_init_ops(m.elements@) + datas_init_ops(m.datas@.take(i as int)),
            decreases m.datas@.len() - i,
        {
            let d = &m.datas[i];
            // bounded so that every displacement from the linear-memory
            // base still fits the addressing form's 32-bit field
            if d.bytes.len() > 0x400000 {
                return Err(verr("data segment too large"));
            }
            match parse_const_expr(&mut init_ir, &d.offset) {
                Ok(()) => (),
                Err(e) => {
                    return Err(e);
                },
            }
            init_ir.pop(IrOperand::Reg(IrReg::Sra));
            init_ir.init_memory_from_chunk(
                i as u32,
                d.bytes.len() as u32,
                IrOperand::Reg(IrReg::Sra),
            );
            chunks.push(IrDataChunk { data: d.bytes.clone() });
            proof {
                assert(m.datas@.take(i + 1).drop_last() =~= m.datas@.take(i as int));
                assert(m.datas@.take(i + 1).last() == m.datas@[i as int]);
                assert(init_ir@ =~= init_header + globals_init_ops(m.globals@, m.imported_globals)
                    + elements_init_ops(m.elements@) + datas_init_ops(m.datas@.take(i + 1)));
            }
            i = i + 1;
        }
        init_ir.postamble();
        init_ir.ret();
        proof {
            assert(m.datas@.take(m.datas@.len() as int) =~= m.datas@);
        }
        let ghost init_ops_view = init_ir@;
        proof {
            assert(init_ops_view.subrange(3, init_ops_view.len() - 2) =~= globals_init_ops(
                m.globals@,
                m.imported_globals,
            ) + elements_init_ops(m.elements@) + datas_init_ops(m.datas@));
        }
        funcs.push(Some(IrFunc::Function(init_ir)));

        let mut tables: Vec<IrTable> = Vec::new();
        let mut i: usize = 0;
        while i < m.tables.len()
            invariant
                imports_resolvable(m.func_imports@, *resolver),
                funcs@.len() >= 1,
                (match funcs@.last() {
                    Some(IrFunc::Function(f)) => f@ == init_ops_view,
                    _ => false,
                }),
                init_ops_view.len() >= 5,
                init_ops_view.subrange(3, init_ops_view.len() - 2) == globals_init_ops(
                    m.globals@,
                    m.imported_globals,
                ) + elements_init_ops(m.elements@) + datas_init_ops(m.datas@),
            decreases m.tables@.len() - i,
        {
            let max_size = m.tables[i];
            if max_size > 0xFFFF {
                return Err(verr("table too large"));
            }
            tables.push(IrTable::Table(max_size));
            i = i + 1;
        }

        let memory = match m.memory {
            Some((min, max)) => {
                if max < min {
                    return Err(verr("memory maximum below its minimum"));
                }
                (min, max)
            },
            None => (0u32, 0u32),
        };
        let hints = IrHints {
            has_globals: n_globals > 0,
            has_memory: m.memory.is_some(),
            has_tables: m.tables.len() > 0,
        };

        let pvf = IrPvf {
            hints,
            funcs,
            signatures,
            memory,
            tables,
            data_chunks: chunks,
        };
        if !pvf.check_wf() {
            return Err(verr("translation left an ill-formed container"));
        }
        if !check_init_shaped(&pvf) {
            return Err(verr("translation left an ill-formed initializer"));
        }
        proof {
            assert(m.func_imports@.len() + m.code@.len() < 0x10000);
        }
        if pvf.funcs.len() != m.func_imports.len() + m.code.len() + 1 {
            return Err(verr("translation left an ill-formed container"));
        }
        if !check_import_split(&pvf.funcs, m.func_imports.len()) {
            return Err(verr("translation left an ill-formed container"));
        }
        if !check_entry_names(
            &pvf.funcs,
            m,
            m.func_imports.len(),
            m.func_imports.len() + m.code.len(),
        ) {
            return Err(verr("translation left an ill-formed container"));
        }
        Ok(pvf)
    }

    /// Decodes and translates the module in one step: the byte-level decoder
    /// first, then the module translation, whose container shape carries
    /// over. The import stubs stand below some split point and the
    /// translated bodies, the initializer last, above it.
    pub fn translate(self) -> (r: Result<IrPvf, PvfError>)
        ensures
            match r {
                Ok(p) => {
                    &&& p.wf()
                    &&& init_shaped(p)
                    &&& exists|k: int| #[trigger] import_split_shaped(p.funcs@, k)
                },
                Err(e) => e is ParseError || e is ValidationError || e is UnresolvedImport,
            },
    {
        let m = match decode_module(self.wasm_code.as_slice()) {
            Ok(m) => m,
            Err(e) => {
                return Err(e);
            },
        };
        let r = Self::translate_module(&m, &self.import_resolver, self.block_index);
        proof {
            if r is Ok {
                assert(import_split_shaped(r->Ok_0.funcs@, m.func_imports@.len() as int));
            }
        }
        r
    }
}

} // verus!
