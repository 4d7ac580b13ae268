//! The x86-64 code generator: lowers IR operations to System-V AMD64 machine
//! bytes, bridges Wasm's stack-passing calling convention to the host ABI,
//! and patches every direct call site once all functions are placed.
//!
//! Memory segment map, as displacements from the linear-memory base held in
//! r15 (tables and data chunks are aligned to the 64 KiB page):
//!
//! ```text
//!                 +-------------------+
//!                 | DataChunkN        |
//!                ~~~~~~~~~~~~~~~~~~~~~~~
//!                 +-------------------+
//!                 | DataChunk0        |
//!                 +-------------------+
//!                 | TableN            |
//!                ~~~~~~~~~~~~~~~~~~~~~~~
//!                 +-------------------+
//!                 | Table0            |
//!        -0x20000 +-------------------+
//!                 | Globals           |
//!        -0x10000 +-------------------+
//!                 | Transient VM data |
//! base pointer -> +-------------------+
//!                 | Wasm linear memory|
//!                 +-------------------+
//! ```

use vstd::prelude::*;

use crate::codegen::{
    abs_site_patched, abs_site_undisturbed, bytes_preserved, call_site_patched,
    call_site_undisturbed, entry_registered, label_registered, labels_in_code,
    lemma_window_preserved, link_targets_ok, relocs_ok, windows_disjoint, CodeEmitter,
    CodeGenerator, LinkTarget, OffsetMap, Relocation, VM_DATA_MEM_ALLOC, VM_DATA_MEM_TOTAL,
    VM_DATA_TMP_0,
};
use crate::error::PvfError;
use crate::ir::{
    branch_closed, calls_resolvable, count_branch_labels, count_local_labels, func_entry_shaped,
    target_resolved, Ir, IrCond, IrCp, IrDataChunk, IrFunc, IrLabel, IrOperand, IrReg, IrSignature,
    IrTable,
};


verus! {

const AX: u8 = 0;
const CX: u8 = 1;
const DX: u8 = 2;
const BX: u8 = 3;
const SP: u8 = 4;
const BP: u8 = 5;
const SI: u8 = 6;
const DI: u8 = 7;
const R8: u8 = 0;
const R9: u8 = 1;
const R10: u8 = 2;
const R11: u8 = 3;
const R12: u8 = 4;
const R15: u8 = 7;

const REX_B: u8 = 0x41;
const REX_R: u8 = 0x44;
const REX_W: u8 = 0x48;

const MOD_RM: u8 = 0x00;
const MOD_DISP8: u8 = 0x40;
const MOD_DISP32: u8 = 0x80;
const MOD_REG: u8 = 0xc0;

const MOD_SIB: u8 = 0x4;
const MOD_RIPREL: u8 = 0x5;

const SIB1: u8 = 0x00;
const SIB8: u8 = 0xc0;

const OPER_SIZE_OVR: u8 = 0x66;
const REP: u8 = 0xf3;

/// The register number assignment, for reasoning about the lowering.
pub open spec fn reg_num(r: IrReg) -> u8 {
    match r {
        IrReg::Sra => 0,
        IrReg::Src => 1,
        IrReg::Srd => 2,
        IrReg::Ffp => 3,
        IrReg::Bfp => 5,
        IrReg::Stp => 4,
    }
}

/// The native register number each IR register maps to. The three scratches
/// take rax, rcx and rdx; the function frame base lives in rbx, the block
/// frame base in rbp, and the stack pointer is rsp itself.
pub fn native_reg(r: &IrReg) -> (n: u8)
    ensures
        n <= 7,
        n == reg_num(*r),
{
    match r {
        IrReg::Sra => AX,
        IrReg::Src => CX,
        IrReg::Srd => DX,
        IrReg::Ffp => BX,
        IrReg::Bfp => BP,
        IrReg::Stp => SP,
    }
}

/// The condition-code nibble assignment, for reasoning about the lowering.
/// Signed and unsigned variants always map to distinct codes.
pub open spec fn cond_num(cond: IrCond) -> u8 {
    match cond {
        IrCond::Zero => 0x04,
        IrCond::Equal => 0x04,
        IrCond::NotEqual => 0x05,
        IrCond::LessSigned => 0x0c,
        IrCond::LessUnsigned => 0x02,
        IrCond::GreaterSigned => 0x0f,
        IrCond::GreaterUnsigned => 0x07,
        IrCond::LessOrEqualSigned => 0x0e,
        IrCond::LessOrEqualUnsigned => 0x06,
        IrCond::GreaterOrEqualSigned => 0x0d,
        IrCond::GreaterOrEqualUnsigned => 0x03,
    }
}

/// The condition-code nibble of each IR condition.
pub fn native_cond(cond: &IrCond) -> (n: u8)
    ensures
        n <= 0x0f,
        n == cond_num(*cond),
{
    match cond {
        IrCond::Zero => 0x04,
        IrCond::Equal => 0x04,
        IrCond::NotEqual => 0x05,
        IrCond::LessSigned => 0x0c,
        IrCond::LessUnsigned => 0x02,
        IrCond::GreaterSigned => 0x0f,
        IrCond::GreaterUnsigned => 0x07,
        IrCond::LessOrEqualSigned => 0x0e,
        IrCond::LessOrEqualUnsigned => 0x06,
        IrCond::GreaterOrEqualSigned => 0x0d,
        IrCond::GreaterOrEqualUnsigned => 0x03,
    }
}

/// The host ABI's parameter registers in order: any needed REX prefix, and
/// the register number.
fn abi_param_reg(i: u32) -> (r: (u8, u8))
    requires
        i < 6,
{
    match i {
        0 => (0, DI),
        1 => (0, SI),
        2 => (0, DX),
        3 => (0, CX),
        4 => (REX_R, R8),
        _ => (REX_R, R9),
    }
}

fn too_hard(what: &str) -> (r: PvfError)
    ensures
        r is ValidationError,
{
    PvfError::ValidationError(what.to_owned())
}

/// Emits two opcode bytes and a register-to-memory form with the shortest
/// displacement encoding that fits.
fn emit_disp(code: &mut CodeEmitter, b0: u8, b1: u8, modrm_bits: u8, offset: i32)
    ensures
        final(code).code@.len() > old(code).code@.len(),
        bytes_preserved(old(code).code@, final(code).code@),
        final(code).labels == old(code).labels,
        final(code).relocs == old(code).relocs,
{
    code.emit(b0);
    code.emit(b1);
    if offset < -128 || offset > 127 {
        code.emit(MOD_DISP32 | modrm_bits);
        code.emit_imm32_le(offset);
    } else {
        code.emit(MOD_DISP8 | modrm_bits);
        code.emit(#[verifier::truncate] (offset as u8));
    }
}

/// As `emit_disp`, with a SIB byte between the mode and the displacement.
fn emit_disp_sib(code: &mut CodeEmitter, b0: u8, b1: u8, modrm_bits: u8, sib: u8, offset: i32)
    ensures
        final(code).code@.len() > old(code).code@.len(),
        bytes_preserved(old(code).code@, final(code).code@),
        final(code).labels == old(code).labels,
        final(code).relocs == old(code).relocs,
{
    code.emit(b0);
    code.emit(b1);
    if offset < -128 || offset > 127 {
        code.emit(MOD_DISP32 | modrm_bits);
        code.emit(sib);
        code.emit_imm32_le(offset);
    } else {
        code.emit(MOD_DISP8 | modrm_bits);
        code.emit(sib);
        code.emit(#[verifier::truncate] (offset as u8));
    }
}

/// A pending intra-function jump displacement, patched at end of function.
#[derive(Debug, Clone, Copy, PartialEq, Eq, Structural)]
pub enum JmpKind {
    Branch(u64),
    Local(u32),
}

/// The jump target of a pending fixup, as a label for the registry scan.
pub open spec fn jmp_kind_label(k: JmpKind) -> IrLabel {
    match k {
        JmpKind::Branch(b) => IrLabel::BranchTarget(b),
        JmpKind::Local(id) => IrLabel::LocalLabel(id),
    }
}

/// Clones a label; the copy names the same code location, and carries the
/// same export name where there is one.
fn clone_label(l: &IrLabel) -> (r: IrLabel)
    ensures
        !(l is Indirect) ==> r.same_target(l),
        r.func_index_spec() == l.func_index_spec(),
        (l is BranchTarget || l is LocalLabel) ==> r == *l,
        match (l, r) {
            (IrLabel::ExportedFunc(i, n), IrLabel::ExportedFunc(j, m)) => i == j && n@ == m@,
            (IrLabel::ExportedFunc(_, _), _) => false,
            _ => true,
        },
{
    match l {
        IrLabel::ExportedFunc(i, n) => IrLabel::ExportedFunc(*i, n.clone()),
        IrLabel::AnonymousFunc(i) => IrLabel::AnonymousFunc(*i),
        IrLabel::ImportedFunc(i) => IrLabel::ImportedFunc(*i),
        IrLabel::BranchTarget(b) => IrLabel::BranchTarget(*b),
        IrLabel::LocalLabel(id) => IrLabel::LocalLabel(*id),
        IrLabel::Indirect(t, op, sig) => IrLabel::Indirect(*t, *op, *sig),
    }
}

/// There is an operation `Label(BranchTarget(b))` wherever `ops` holds a
/// positive count for `b`.
proof fn lemma_count_branch_nonzero(ops: Seq<IrCp>, b: u64)
    requires
        count_branch_labels(ops, b) > 0,
    ensures
        exists|k: int| 0 <= k < ops.len() && ops[k] == IrCp::Label(IrLabel::BranchTarget(b)),
    decreases ops.len(),
{
    if ops.len() > 0 {
        let hit = match ops[0] {
            IrCp::Label(IrLabel::BranchTarget(x)) => x == b,
            _ => false,
        };
        if hit {
            assert(ops[0] == IrCp::Label(IrLabel::BranchTarget(b)));
        } else {
            lemma_count_branch_nonzero(ops.skip(1), b);
            let k = choose|k: int|
                0 <= k < ops.skip(1).len() && ops.skip(1)[k] == IrCp::Label(
                    IrLabel::BranchTarget(b),
                );
            assert(ops[k + 1] == IrCp::Label(IrLabel::BranchTarget(b)));
        }
    }
}

/// The same for local labels.
proof fn lemma_count_local_nonzero(ops: Seq<IrCp>, id: u32)
    requires
        count_local_labels(ops, id) > 0,
    ensures
        exists|k: int| 0 <= k < ops.len() && ops[k] == IrCp::Label(IrLabel::LocalLabel(id)),
    decreases ops.len(),
{
    if ops.len() > 0 {
        let hit = match ops[0] {
            IrCp::Label(IrLabel::LocalLabel(x)) => x == id,
            _ => false,
        };
        if hit {
            assert(ops[0] == IrCp::Label(IrLabel::LocalLabel(id)));
        } else {
            lemma_count_local_nonzero(ops.skip(1), id);
            let k = choose|k: int|
                0 <= k < ops.skip(1).len() && ops.skip(1)[k] == IrCp::Label(IrLabel::LocalLabel(id));
            assert(ops[k + 1] == IrCp::Label(IrLabel::LocalLabel(id)));
        }
    }
}

/// After the whole body was walked, every non-indirect label it holds is on
/// record; so every resolved local jump target is too.
proof fn lemma_all_body_labels_registered(body_ops: Seq<IrCp>, labels: Seq<(IrLabel, usize)>)
    requires
        forall|j: int|
            0 <= j < body_ops.len() ==> match #[trigger] body_ops[j] {
                IrCp::Label(l) => l is Indirect || label_registered(labels, l),
                _ => true,
            },
    ensures
        forall|l: IrLabel|
            ((l is BranchTarget || l is LocalLabel) && target_resolved(body_ops, l))
                ==> #[trigger] label_registered(labels, l),
{
    assert forall|l: IrLabel|
        ((l is BranchTarget || l is LocalLabel) && target_resolved(
            body_ops,
            l,
        )) implies #[trigger] label_registered(labels, l) by {
        match l {
            IrLabel::BranchTarget(b) => {
                lemma_count_branch_nonzero(body_ops, b);
                let k = choose|k: int|
                    0 <= k < body_ops.len() && body_ops[k] == IrCp::Label(IrLabel::BranchTarget(b));
                assert(label_registered(labels, IrLabel::BranchTarget(b)));
            },
            IrLabel::LocalLabel(id) => {
                lemma_count_local_nonzero(body_ops, id);
                let k = choose|k: int|
                    0 <= k < body_ops.len() && body_ops[k] == IrCp::Label(IrLabel::LocalLabel(id));
                assert(label_registered(labels, IrLabel::LocalLabel(id)));
            },
            _ => {},
        }
    }
}

/// Scans the label registry, newest first, for a label naming the same
/// location; the registry is known to hold one.
fn find_label_pc(labels: &Vec<(IrLabel, usize)>, target: &IrLabel) -> (r: usize)
    requires
        label_registered(labels@, *target),
    ensures
        exists|j: int|
            0 <= j < labels@.len() && (#[trigger] labels@[j]).0.same_target(target)
                && labels@[j].1 == r,
{
    let mut j: usize = labels.len();
    while j > 0
        invariant
            j <= labels@.len(),
            exists|q: int| 0 <= q < j && (#[trigger] labels@[q]).0.same_target(target),
        decreases j,
    {
        j = j - 1;
        if labels[j].0.matches(target) {
            return labels[j].1;
        }
    }
    proof {
        assert(false);
    }
    0
}

/// Scans the label registry, newest first, for an entry label of function
/// `fi`; the registry is known to hold one.
fn find_func_pc(labels: &Vec<(IrLabel, usize)>, fi: u32) -> (r: usize)
    requires
        entry_registered(labels@, fi),
    ensures
        exists|j: int|
            0 <= j < labels@.len() && (#[trigger] labels@[j]).0.func_index_spec() == Some(fi)
                && labels@[j].1 == r,
{
    let mut j: usize = labels.len();
    while j > 0
        invariant
            j <= labels@.len(),
            exists|q: int| 0 <= q < j && (#[trigger] labels@[q]).0.func_index_spec() == Some(fi),
        decreases j,
    {
        j = j - 1;
        let hit = match &labels[j].0 {
            IrLabel::ExportedFunc(i, _) => *i == fi,
            IrLabel::AnonymousFunc(i) => *i == fi,
            IrLabel::ImportedFunc(i) => *i == fi,
            _ => false,
        };
        if hit {
            return labels[j].1;
        }
    }
    proof {
        assert(false);
    }
    0
}

/// A pending label-address relocation names either a label already on record
/// or a local target the body being compiled defines.
pub open spec fn relocs_partial(
    relocs: Seq<(Relocation, usize)>,
    labels: Seq<(IrLabel, usize)>,
    body_ops: Seq<IrCp>,
) -> bool {
    forall|j: int|
        0 <= j < relocs.len() ==> match (#[trigger] relocs[j]).0 {
            Relocation::LabelAbsoluteAddress(l) => label_registered(labels, l) || ((l
                is BranchTarget || l is LocalLabel) && target_resolved(body_ops, l)),
            _ => true,
        }
}

/// The two- or three-byte form of a register-pair ALU instruction: an
/// operand-size prefix for the full width, the opcode, and the mod/reg/rm
/// byte naming both registers.
pub open spec fn alu_bytes(opcode: u8, dest: IrOperand, src: IrOperand) -> Seq<u8> {
    match (dest, src) {
        (IrOperand::Reg32(a), IrOperand::Reg32(b)) => seq![
            opcode,
            (0xc0 | (reg_num(b) << 3) | reg_num(a)) as u8,
        ],
        (IrOperand::Reg(a), IrOperand::Reg(b)) => seq![
            0x48u8,
            opcode,
            (0xc0 | (reg_num(b) << 3) | reg_num(a)) as u8,
        ],
        _ => Seq::empty(),
    }
}

/// Emits one two-operand ALU instruction over same-width register pairs.
fn emit_alu(code: &mut CodeEmitter, opcode: u8, dest: &IrOperand, src: &IrOperand) -> (r: Result<
    (),
    PvfError,
>)
    ensures
        final(code).code@.len() >= old(code).code@.len(),
        bytes_preserved(old(code).code@, final(code).code@),
        final(code).labels == old(code).labels,
        final(code).relocs == old(code).relocs,
        r is Ok ==> final(code).code@ == old(code).code@ + alu_bytes(opcode, *dest, *src),
        r is Err ==> r->Err_0 is ValidationError,
{
    match (dest, src) {
        (IrOperand::Reg32(rdest), IrOperand::Reg32(rsrc)) => {
            code.emit(opcode);
            code.emit(MOD_REG | (native_reg(rsrc) << 3) | native_reg(rdest));
            proof {
                assert(final(code).code@ =~= old(code).code@ + alu_bytes(opcode, *dest, *src));
            }
            Ok(())
        },
        (IrOperand::Reg(rdest), IrOperand::Reg(rsrc)) => {
            code.emit(REX_W);
            code.emit(opcode);
            code.emit(MOD_REG | (native_reg(rsrc) << 3) | native_reg(rdest));
            proof {
                assert(final(code).code@ =~= old(code).code@ + alu_bytes(opcode, *dest, *src));
            }
            Ok(())
        },
        _ => Err(too_hard("arithmetic operands")),
    }
}

/// Emits a widening multiply; the product's low half lands in rax.
fn emit_mul(code: &mut CodeEmitter, dest: &IrOperand, src: &IrOperand) -> (r: Result<(), PvfError>)
    ensures
        final(code).code@.len() >= old(code).code@.len(),
        bytes_preserved(old(code).code@, final(code).code@),
        final(code).labels == old(code).labels,
        final(code).relocs == old(code).relocs,
        r is Err ==> r->Err_0 is ValidationError,
{
    let (rdest, rsrc, is64) = match (dest, src) {
        (IrOperand::Reg32(a), IrOperand::Reg32(b)) => (a, b, false),
        (IrOperand::Reg(a), IrOperand::Reg(b)) => (a, b, true),
        _ => {
            return Err(too_hard("multiply operands"));
        },
    };
    if native_reg(rdest) != AX {
        if native_reg(rsrc) == AX {
            if is64 {
                code.emit(REX_W);
            }
            code.emit(0x90 | native_reg(rdest));  // xchg <rdest>, rax
        } else {
            if is64 {
                code.emit(REX_W);
            }
            code.emit(0x89);
            code.emit(MOD_REG | (native_reg(rdest) << 3) | AX);  // mov rax, <rdest>
        }
    }
    if is64 {
        code.emit(REX_W);
    }
    code.emit(0xf7);
    code.emit(MOD_REG | (0x5 << 3) | native_reg(rsrc));  // imul <rsrc>
    Ok(())
}

/// Emits a division or remainder: the dividend is permuted into rax, the
/// divisor into rcx, the top half is zero- or sign-extended into rdx, and
/// for remainders the result moves back from rdx.
fn emit_div(
    code: &mut CodeEmitter,
    dest: &IrOperand,
    src: &IrOperand,
    signed: bool,
    remainder: bool,
) -> (r: Result<(), PvfError>)
    ensures
        final(code).code@.len() >= old(code).code@.len(),
        bytes_preserved(old(code).code@, final(code).code@),
        final(code).labels == old(code).labels,
        final(code).relocs == old(code).relocs,
        r is Err ==> r->Err_0 is ValidationError,
{
    let (rdest, rsrc, is64) = match (dest, src) {
        (IrOperand::Reg32(a), IrOperand::Reg32(b)) => (a, b, false),
        (IrOperand::Reg(a), IrOperand::Reg(b)) => (a, b, true),
        _ => {
            return Err(too_hard("division operands"));
        },
    };
    let nd = native_reg(rdest);
    let ns = native_reg(rsrc);
    if nd == AX && ns == CX {
        // already in place
    } else if nd == CX && ns == AX {
        if is64 {
            code.emit(REX_W);
        }
        code.emit(0x90 | CX);  // xchg rax, rcx
    } else if nd == AX && ns == DX {
        if is64 {
            code.emit(REX_W);
        }
        code.emit(0x89);
        code.emit(MOD_REG | (DX << 3) | CX);  // mov rcx, rdx
    } else if nd == DX && ns == AX {
        if is64 {
            code.emit(REX_W);
        }
        code.emit(0x89);
        code.emit(MOD_REG | (AX << 3) | CX);  // mov rcx, rax
        if is64 {
            code.emit(REX_W);
        }
        code.emit(0x89);
        code.emit(MOD_REG | (DX << 3) | AX);  // mov rax, rdx
    } else if nd == CX && ns == DX {
        if is64 {
            code.emit(REX_W);
        }
        code.emit(0x89);
        code.emit(MOD_REG | (CX << 3) | AX);  // mov rax, rcx
        if is64 {
            code.emit(REX_W);
        }
        code.emit(0x89);
        code.emit(MOD_REG | (DX << 3) | CX);  // mov rcx, rdx
    } else if nd == DX && ns == CX {
        if is64 {
            code.emit(REX_W);
        }
        code.emit(0x89);
        code.emit(MOD_REG | (DX << 3) | AX);  // mov rax, rdx
    } else {
        return Err(too_hard("division operands"));
    }
    if signed {
        if is64 {
            code.emit(REX_W);
        }
        code.emit(0x99);  // cdq or cqo
        if is64 {
            code.emit(REX_W);
        }
        code.emit(0xf7);
        code.emit(MOD_REG | (0x7 << 3) | CX);  // idiv rcx
    } else {
        code.emit(0x31);
        code.emit(MOD_REG | (DX << 3) | DX);  // xor edx, edx
        if is64 {
            code.emit(REX_W);
        }
        code.emit(0xf7);
        code.emit(MOD_REG | (0x6 << 3) | CX);  // div rcx
    }
    if remainder {
        if is64 {
            code.emit(REX_W);
        }
        code.emit(0x89);
        code.emit(MOD_REG | (DX << 3) | AX);  // mov rax, rdx
    }
    Ok(())
}

/// Emits a shift or rotation; the count is routed through rcx, with the
/// destination swapped out of the way when it collides.
fn emit_shift(code: &mut CodeEmitter, add: u8, dest: &IrOperand, cnt: &IrOperand) -> (r: Result<
    (),
    PvfError,
>)
    ensures
        final(code).code@.len() >= old(code).code@.len(),
        bytes_preserved(old(code).code@, final(code).code@),
        final(code).labels == old(code).labels,
        final(code).relocs == old(code).relocs,
        r is Err ==> r->Err_0 is ValidationError,
{
    let (rdest, rcnt, is64) = match (dest, cnt) {
        (IrOperand::Reg32(a), IrOperand::Reg32(b)) => (a, b, false),
        (IrOperand::Reg(a), IrOperand::Reg(b)) => (a, b, true),
        _ => {
            return Err(too_hard("shift operands"));
        },
    };
    let nr_dest: u8 = if native_reg(rcnt) == CX {
        native_reg(rdest)
    } else if native_reg(rdest) == CX {
        if is64 {
            code.emit(REX_W);
        }
        code.emit(0x87);
        code.emit(MOD_REG | (native_reg(rdest) << 3) | CX);  // xchg <rdest>, rcx
        native_reg(rcnt)
    } else {
        if is64 {
            code.emit(REX_W);
        }
        code.emit(0x89);
        code.emit(MOD_REG | (native_reg(rcnt) << 3) | CX);  // mov rcx, <rcnt>
        native_reg(rdest)
    };
    if is64 {
        code.emit(REX_W);
    }
    code.emit(0xd3);
    code.emit(MOD_REG | (add << 3) | nr_dest);  // shl/shr/sar/rol/ror <rdest>, cl
    Ok(())
}

/// Emits one `Move` form: between registers, from an immediate, a local
/// slot, a global or a linear-memory cell, or into one of those.
fn emit_move(
    code: &mut CodeEmitter,
    offset_map: &OffsetMap,
    dest: &IrOperand,
    src: &IrOperand,
) -> (r: Result<(), PvfError>)
    requires
        offset_map.wf(),
    ensures
        final(code).code@.len() >= old(code).code@.len(),
        bytes_preserved(old(code).code@, final(code).code@),
        final(code).labels == old(code).labels,
        final(code).relocs == old(code).relocs,
        r is Err ==> r->Err_0 is ValidationError,
{
    match (dest, src) {
        (IrOperand::Reg(rdest), IrOperand::Reg(rsrc)) => {
            code.emit(REX_W);
            code.emit(0x89);
            code.emit(MOD_REG | (native_reg(rsrc) << 3) | native_reg(rdest));  // mov <dreg>, <sreg>
            Ok(())
        },
        (IrOperand::Reg(rdest), IrOperand::Imm32(imm))
            | (IrOperand::Reg32(rdest), IrOperand::Imm32(imm)) => {
            code.emit(0xb8 | native_reg(rdest));  // mov <dreg32>, imm32
            code.emit_imm32_le(*imm);
            Ok(())
        },
        (IrOperand::Reg(rdest), IrOperand::Imm64(imm)) => {
            if *imm > 0 && *imm < u32::MAX as i64 {
                code.emit(0xb8 | native_reg(rdest));  // mov <dreg32>, imm32
                code.emit_imm32_le(#[verifier::truncate] (*imm as i32));
            } else {
                code.emit(REX_W);
                code.emit(0xb8 | native_reg(rdest));  // movabs <dreg>, imm64
                code.emit_imm64_le(*imm);
            }
            Ok(())
        },
        (IrOperand::Reg(rdest), IrOperand::Local(index)) => {
            if *index >= 0x10010 {
                return Err(too_hard("local index out of range"));
            }
            emit_disp(code, REX_W, 0x8b, (native_reg(rdest) << 3) | BX, -((*index as i32 + 1) * 8));  // mov <dreg>, [rbx - 8*(index+1)]
            Ok(())
        },
        (IrOperand::Local(index), IrOperand::Reg(rsrc)) => {
            if *index >= 0x10010 {
                return Err(too_hard("local index out of range"));
            }
            emit_disp(code, REX_W, 0x89, (native_reg(rsrc) << 3) | BX, -((*index as i32 + 1) * 8));  // mov [rbx - 8*(index+1)], <sreg>
            Ok(())
        },
        (IrOperand::Reg(rdest), IrOperand::Global(index)) => {
            if *index >= 0x10000 {
                return Err(too_hard("global index out of range"));
            }
            let offset = offset_map.globals() + (*index as i32) * 8;
            code.emit(REX_W | REX_B);
            code.emit(0x8b);
            code.emit(MOD_DISP32 | (native_reg(rdest) << 3) | R15);  // mov <dreg>, [r15+<offset>]
            code.emit_imm32_le(offset);
            Ok(())
        },
        (IrOperand::Global(index), IrOperand::Reg(rsrc)) => {
            if *index >= 0x10000 {
                return Err(too_hard("global index out of range"));
            }
            let offset = offset_map.globals() + (*index as i32) * 8;
            code.emit(REX_W | REX_B);
            code.emit(0x89);
            code.emit(MOD_DISP32 | (native_reg(rsrc) << 3) | R15);  // mov [r15+<offset>], <sreg>
            code.emit_imm32_le(offset);
            Ok(())
        },
        (IrOperand::Memory8(offset, raddr), IrOperand::Reg8(rsrc)) => {
            code.emit(REX_B);
            code.emit(0x88);
            code.emit(MOD_DISP32 | (native_reg(rsrc) << 3) | MOD_SIB);
            code.emit(SIB1 | (native_reg(raddr) << 3) | R15);  // mov [r15+<raddr>+<offset>], <sreg8>
            code.emit_imm32_le(*offset);
            Ok(())
        },
        (IrOperand::Memory16(offset, raddr), IrOperand::Reg16(rsrc)) => {
            code.emit(OPER_SIZE_OVR);
            code.emit(REX_B);
            code.emit(0x89);
            code.emit(MOD_DISP32 | (native_reg(rsrc) << 3) | MOD_SIB);
            code.emit(SIB1 | (native_reg(raddr) << 3) | R15);  // mov [r15+<raddr>+<offset>], <sreg16>
            code.emit_imm32_le(*offset);
            Ok(())
        },
        (IrOperand::Memory32(offset, raddr), IrOperand::Reg32(rsrc)) => {
            code.emit(REX_B);
            code.emit(0x89);
            code.emit(MOD_DISP32 | (native_reg(rsrc) << 3) | MOD_SIB);
            code.emit(SIB1 | (native_reg(raddr) << 3) | R15);  // mov [r15+<raddr>+<offset>], <sreg32>
            code.emit_imm32_le(*offset);
            Ok(())
        },
        (IrOperand::Memory64(offset, raddr), IrOperand::Reg(rsrc)) => {
            code.emit(REX_W | REX_B);
            code.emit(0x89);
            code.emit(MOD_DISP32 | (native_reg(rsrc) << 3) | MOD_SIB);
            code.emit(SIB1 | (native_reg(raddr) << 3) | R15);  // mov [r15+<raddr>+<offset>], <sreg>
            code.emit_imm32_le(*offset);
            Ok(())
        },
        (IrOperand::Reg8(rdest), IrOperand::Memory8(offset, raddr)) => {
            code.emit(REX_B);
            code.emit(0x8a);
            code.emit(MOD_DISP32 | (native_reg(rdest) << 3) | MOD_SIB);
            code.emit(SIB1 | (native_reg(raddr) << 3) | R15);  // mov <dreg8>, [r15+<raddr>+<offset>]
            code.emit_imm32_le(*offset);
            Ok(())
        },
        (IrOperand::Reg16(rdest), IrOperand::Memory16(offset, raddr)) => {
            code.emit(OPER_SIZE_OVR);
            code.emit(REX_B);
            code.emit(0x8b);
            code.emit(MOD_DISP32 | (native_reg(rdest) << 3) | MOD_SIB);
            code.emit(SIB1 | (native_reg(raddr) << 3) | R15);  // mov <dreg16>, [r15+<raddr>+<offset>]
            code.emit_imm32_le(*offset);
            Ok(())
        },
        (IrOperand::Reg32(rdest), IrOperand::Memory32(offset, raddr)) => {
            code.emit(REX_B);
            code.emit(0x8b);
            code.emit(MOD_DISP32 | (native_reg(rdest) << 3) | MOD_SIB);
            code.emit(SIB1 | (native_reg(raddr) << 3) | R15);  // mov <dreg32>, [r15+<raddr>+<offset>]
            code.emit_imm32_le(*offset);
            Ok(())
        },
        (IrOperand::Reg(rdest), IrOperand::Memory64(offset, raddr)) => {
            code.emit(REX_W | REX_B);
            code.emit(0x8b);
            code.emit(MOD_DISP32 | (native_reg(rdest) << 3) | MOD_SIB);
            code.emit(SIB1 | (native_reg(raddr) << 3) | R15);  // mov <dreg>, [r15+<raddr>+<offset>]
            code.emit_imm32_le(*offset);
            Ok(())
        },
        _ => Err(too_hard("move operands")),
    }
}

/// Emits the frame part of the prologue: up to six register-passed
/// parameters fetched and pushed in order, stack-passed ones walked over
/// from the caller's frame, then the declared locals pushed zeroed.
fn emit_init_locals(code: &mut CodeEmitter, n_locals: u32, n_params: u32)
    requires
        n_locals < 0x10000,
        n_params < 16,
    ensures
        final(code).code@.len() >= old(code).code@.len(),
        bytes_preserved(old(code).code@, final(code).code@),
        final(code).labels == old(code).labels,
        final(code).relocs == old(code).relocs,
{
    let n_total = n_locals + n_params;
    if n_total == 0 {
        return ;
    }
    let n_reg_params = if n_params < 6 {
        n_params
    } else {
        6
    };
    let mut i: u32 = 0;
    while i < n_reg_params
        invariant
            n_reg_params <= 6,
            code.code@.len() >= old(code).code@.len(),
            bytes_preserved(old(code).code@, code.code@),
            code.labels == old(code).labels,
            code.relocs == old(code).relocs,
        decreases n_reg_params - i,
    {
        let (rex, reg) = abi_param_reg(i);
        if rex > 0 {
            code.emit(REX_B);
        }
        code.emit(0x50 | reg);  // push <abi_reg>
        i = i + 1;
    }
    if n_params > 6 {
        let n_stack_params = n_params - 6;
        // after the last off-stack argument, the caller's frame holds the
        // return address, r12, r15, rbx and rbp, pushed in that order
        let mut caller_frame_off: i32 = 5 * 8;
        let mut i: u32 = 0;
        while i < n_stack_params
            invariant
                n_stack_params < 16,
                caller_frame_off == 40 + i * 8,
                i <= n_stack_params,
                code.code@.len() >= old(code).code@.len(),
                bytes_preserved(old(code).code@, code.code@),
                code.labels == old(code).labels,
                code.relocs == old(code).relocs,
            decreases n_stack_params - i,
        {
            emit_disp(code, REX_W, 0x8b, (AX << 3) | BX, caller_frame_off);  // mov rax, [rbx+off]
            code.emit(0x50 | AX);  // push rax
            caller_frame_off = caller_frame_off + 8;
            i = i + 1;
        }
    }
    if n_locals > 0 {
        // locals are zero-initialized
        code.emit(0x31);
        code.emit(MOD_REG | (AX << 3) | AX);  // xor eax, eax
        let mut i: u32 = 0;
        while i < n_locals
            invariant
                i <= n_locals,
                code.code@.len() >= old(code).code@.len(),
                bytes_preserved(old(code).code@, code.code@),
                code.labels == old(code).labels,
                code.relocs == old(code).relocs,
            decreases n_locals - i,
        {
            code.emit(0x50 | AX);  // push rax
            i = i + 1;
        }
    }
}

/// Copies the top operand-stack slots into the host ABI's parameter
/// registers, first argument deepest.
fn emit_call_reg_args(code: &mut CodeEmitter, n_params: u32)
    requires
        0 < n_params < 16,
    ensures
        final(code).code@.len() >= old(code).code@.len(),
        bytes_preserved(old(code).code@, final(code).code@),
        final(code).labels == old(code).labels,
        final(code).relocs == old(code).relocs,
{
    let mut sp_off: i32 = 8 * (n_params as i32 - 1);
    let n_reg_params = if n_params < 6 {
        n_params
    } else {
        6
    };
    let mut i: u32 = 0;
    while i < n_reg_params
        invariant
            n_reg_params <= 6,
            n_params < 16,
            sp_off == 8 * (n_params - 1) - 8 * i,
            i <= n_reg_params,
            code.code@.len() >= old(code).code@.len(),
            bytes_preserved(old(code).code@, code.code@),
            code.labels == old(code).labels,
            code.relocs == old(code).relocs,
        decreases n_reg_params - i,
    {
        let (rex, reg) = abi_param_reg(i);
        emit_disp_sib(code, REX_W | rex, 0x8b, (reg << 3) | SP, SIB1 | (SP << 3) | SP, sp_off);  // mov <reg>, [rsp + sp_off]
        sp_off = sp_off - 8;
        i = i + 1;
    }
}

/// Emits the part of the calling bridge that walks stack-passed arguments
/// into an aligned ABI frame, stashing the old rsp and rbp inside the freed
/// area.
fn emit_call_stack_args(code: &mut CodeEmitter, n_stack_params: u32)
    requires
        0 < n_stack_params < 16,
    ensures
        final(code).code@.len() >= old(code).code@.len(),
        bytes_preserved(old(code).code@, final(code).code@),
        final(code).labels == old(code).labels,
        final(code).relocs == old(code).relocs,
{
    code.emit(REX_W);
    code.emit(0x89);
    code.emit(MOD_REG | (SP << 3) | AX);  // mov rax, rsp
    code.emit(REX_W);
    code.emit(0x83);
    code.emit(MOD_REG | (0x0 << 3) | AX);
    code.emit(0x20);  // add rax, 0x20
    code.emit(REX_W);
    code.emit(0x83);
    code.emit(MOD_REG | (0x4 << 3) | AX);
    code.emit(0xf0);  // and rax, -16: align the ABI frame
    emit_disp(code, REX_W, 0x89, (SP << 3) | AX, n_stack_params as i32 * 8);  // mov [rax + stored_sp_off], rsp
    emit_disp(code, REX_W, 0x89, (BP << 3) | AX, (n_stack_params as i32 + 1) * 8);  // mov [rax + stored_bp_off], rbp
    code.emit(REX_W);
    code.emit(0x89);
    code.emit(MOD_REG | (AX << 3) | BP);  // mov rbp, rax
    code.emit(REX_W | REX_B);
    code.emit(0x89);
    code.emit(MOD_REG | (BP << 3) | R11);  // mov r11, rbp
    let frame_off = (n_stack_params as i32 - 1) * 8;
    if frame_off > 127 {
        code.emit(REX_W | REX_B);
        code.emit(0x81);
        code.emit(MOD_REG | (0x0 << 3) | R11);  // add r11, imm32
        code.emit_imm32_le(frame_off);
    } else {
        code.emit(REX_W | REX_B);
        code.emit(0x83);
        code.emit(MOD_REG | (0x0 << 3) | R11);  // add r11, imm8
        code.emit(#[verifier::truncate] (frame_off as u8));
    }
    // l1: descend, moving slots; if the regions meet, fall through to the
    // straight swap
    code.emit(0x58 | AX);  // pop rax
    code.emit(REX_W | REX_B);
    code.emit(0x89);
    code.emit(MOD_RM | (AX << 3) | R11);  // mov [r11], rax
    code.emit(REX_W | REX_B);
    code.emit(0x83);
    code.emit(MOD_REG | (0x5 << 3) | R11);
    code.emit(0x08);  // sub r11, 8
    code.emit(REX_W | REX_B);
    code.emit(0x39);
    code.emit(MOD_REG | (BP << 3) | R11);  // cmp r11, rbp
    code.emit(REX_W);
    code.emit(0x0f);
    code.emit(0x42);
    code.emit(MOD_REG | (SP << 3) | BP);  // cmovb rsp, rbp
    code.emit(0x72);
    code.emit(0x20);  // jb l3
    code.emit(REX_W);
    code.emit(0x39);
    code.emit(MOD_REG | (SP << 3) | BP);  // cmp rbp, rsp
    code.emit(0x75);
    code.emit(0xea);  // jne l1
    // l2: swap through the middle to keep the order when the regions overlap
    code.emit(REX_W);
    code.emit(0x8b);
    code.emit(MOD_DISP8 | (AX << 3) | BP);
    code.emit(0x00);  // mov rax, [rbp+0]
    code.emit(REX_W | REX_R | REX_B);
    code.emit(0x8b);
    code.emit(MOD_RM | (R10 << 3) | R11);  // mov r10, [r11]
    code.emit(REX_W | REX_B);
    code.emit(0x89);
    code.emit(MOD_RM | (AX << 3) | R11);  // mov [r11], rax
    code.emit(REX_W | REX_R);
    code.emit(0x89);
    code.emit(MOD_DISP8 | (R10 << 3) | BP);
    code.emit(0x00);  // mov [rbp+0], r10
    code.emit(REX_W | REX_B);
    code.emit(0x83);
    code.emit(MOD_REG | (0x5 << 3) | R11);
    code.emit(0x08);  // sub r11, 8
    code.emit(REX_W);
    code.emit(0x83);
    code.emit(MOD_REG | (0x0 << 3) | BP);
    code.emit(0x08);  // add rbp, 8
    code.emit(REX_W | REX_B);
    code.emit(0x39);
    code.emit(MOD_REG | (BP << 3) | R11);  // cmp r11, rbp
    code.emit(0x73);
    code.emit(0xe5);  // jae l2
    // l3:
}

/// Snapshots rsp into r12 and aligns the stack, for calls that pass no
/// arguments on the native stack.
fn emit_call_align_only(code: &mut CodeEmitter)
    ensures
        final(code).code@.len() >= old(code).code@.len(),
        bytes_preserved(old(code).code@, final(code).code@),
        final(code).labels == old(code).labels,
        final(code).relocs == old(code).relocs,
{
    code.emit(REX_W | REX_B);
    code.emit(0x89);
    code.emit(MOD_REG | (SP << 3) | R12);  // mov r12, rsp
    code.emit(REX_W);
    code.emit(0x83);
    code.emit(MOD_REG | (0x4 << 3) | SP);
    code.emit(0xf0);  // and rsp, -16
}

/// Restores the stack after a call and drops the operand-stack arguments;
/// the returned value, if any, goes back onto the operand stack.
fn emit_call_cleanup(code: &mut CodeEmitter, n_params: u32, n_stack_params: u32, has_result: bool)
    requires
        n_params < 16,
        n_stack_params <= n_params,
    ensures
        final(code).code@.len() >= old(code).code@.len(),
        bytes_preserved(old(code).code@, final(code).code@),
        final(code).labels == old(code).labels,
        final(code).relocs == old(code).relocs,
{
    if n_params > 0 {
        if n_stack_params > 0 {
            // rsp points at the ABI frame bottom; the stashed rsp and rbp
            // sit at known offsets
            emit_disp_sib(
                code,
                REX_W,
                0x8b,
                (BP << 3) | SP,
                SIB1 | (SP << 3) | SP,
                (n_stack_params as i32 + 1) * 8,
            );  // mov rbp, [rsp + stored_bp_off]
            emit_disp_sib(
                code,
                REX_W,
                0x8b,
                (SP << 3) | SP,
                SIB1 | (SP << 3) | SP,
                n_stack_params as i32 * 8,
            );  // mov rsp, [rsp + stored_sp_off]
        } else {
            code.emit(REX_W | REX_R);
            code.emit(0x89);
            code.emit(MOD_REG | (R12 << 3) | SP);  // mov rsp, r12
        }
        code.emit(REX_W);
        code.emit(0x83);
        code.emit(MOD_REG | (0x0 << 3) | SP);
        code.emit(#[verifier::truncate] ((n_params * 8) as u8));  // add rsp, n_params*8
    } else {
        code.emit(REX_W | REX_R);
        code.emit(0x89);
        code.emit(MOD_REG | (R12 << 3) | SP);  // mov rsp, r12
    }
    if has_result {
        code.emit(0x50 | AX);  // push rax
    }
}

/// Emits the absolute-address table that follows an indirect jump: one
/// 8-byte relocation per target.
#[verifier::rlimit(100)]
fn emit_jump_table_entries(
    code: &mut CodeEmitter,
    targets: &Vec<IrLabel>,
    body_ops: Ghost<Seq<IrCp>>,
)
    requires
        forall|j: int|
            0 <= j < targets@.len() ==> target_resolved(body_ops@, #[trigger] targets@[j]),
        relocs_partial(old(code).relocs@, old(code).labels@, body_ops@),
    ensures
        final(code).code@.len() >= old(code).code@.len(),
        bytes_preserved(old(code).code@, final(code).code@),
        final(code).labels == old(code).labels,
        final(code).relocs@.len() >= old(code).relocs@.len(),
        final(code).relocs@.subrange(0, old(code).relocs@.len() as int) == old(code).relocs@,
        relocs_partial(final(code).relocs@, final(code).labels@, body_ops@),
{
    let mut q: usize = 0;
    while q < targets.len()
        invariant
            q <= targets@.len(),
            forall|j: int|
                0 <= j < targets@.len() ==> target_resolved(body_ops@, #[trigger] targets@[j]),
            code.code@.len() >= old(code).code@.len(),
            bytes_preserved(old(code).code@, code.code@),
            code.labels == old(code).labels,
            code.relocs@.len() >= old(code).relocs@.len(),
            code.relocs@.subrange(0, old(code).relocs@.len() as int) == old(code).relocs@,
            relocs_partial(code.relocs@, code.labels@, body_ops@),
        decreases targets@.len() - q,
    {
        let t = &targets[q];
        let ghost pre_relocs = code.relocs@;
        proof {
            assert(target_resolved(body_ops@, targets@[q as int]));
        }
        let cl = clone_label(t);
        let ghost cl_spec = cl;
        code.reloc(Relocation::LabelAbsoluteAddress(cl));
        code.emit_imm64_le(0);
        proof {
            assert(code.relocs@.subrange(0, old(code).relocs@.len() as int) =~= old(code).relocs@);
            assert forall|j: int|
                0 <= j < code.relocs@.len() implies match (#[trigger] code.relocs@[j]).0 {
                Relocation::LabelAbsoluteAddress(l) => label_registered(code.labels@, l) || ((l
                    is BranchTarget || l is LocalLabel) && target_resolved(body_ops@, l)),
                _ => true,
            } by {
                if j < pre_relocs.len() {
                    assert(code.relocs@[j] == pre_relocs[j]);
                } else {
                    assert(code.relocs@[j].0 == Relocation::LabelAbsoluteAddress(cl_spec));
                    assert(cl_spec == targets@[q as int]);
                }
            };
        }
        q = q + 1;
    }
}

/// Lowers one call: parks an indirect call's selector, bridges the operand
/// stack to the host ABI, issues the call, and restores the stack.
#[verifier::rlimit(100)]
fn compile_call_op(
    code: &mut CodeEmitter,
    label: &IrLabel,
    signatures: &Vec<Option<IrSignature>>,
    import_addrs: &Vec<u64>,
    offset_map: &OffsetMap,
    call_targets: &mut Vec<LinkTarget>,
    funcs: Ghost<Seq<Option<IrFunc>>>,
    body_ops: Ghost<Seq<IrCp>>,
    k: Ghost<int>,
) -> (r: Result<(), PvfError>)
    requires
        offset_map.wf(),
        0 <= k@ < body_ops@.len(),
        body_ops@[k@] == IrCp::Call(*label),
        calls_resolvable(body_ops@, funcs@),
        import_addrs@.len() == funcs@.len(),
        link_targets_ok(old(call_targets)@, funcs@),
        forall|j: int|
            0 <= j < old(call_targets)@.len() ==> (#[trigger] old(call_targets)@[j]).offset + 4
                <= old(code).code@.len(),
    ensures
        final(code).code@.len() >= old(code).code@.len(),
        bytes_preserved(old(code).code@, final(code).code@),
        final(code).labels == old(code).labels,
        final(code).relocs == old(code).relocs,
        link_targets_ok(final(call_targets)@, funcs@),
        final(call_targets)@.len() >= old(call_targets)@.len(),
        final(call_targets)@.len() <= old(call_targets)@.len() + 1,
        final(call_targets)@.subrange(0, old(call_targets)@.len() as int) == old(call_targets)@,
        forall|j: int|
            0 <= j < final(call_targets)@.len() ==> (#[trigger] final(call_targets)@[j]).offset + 4
                <= final(code).code@.len(),
        forall|j: int|
            old(call_targets)@.len() <= j < final(call_targets)@.len() ==> old(code).code@.len()
                <= (#[trigger] final(call_targets)@[j]).offset as int,
        r is Err ==> r->Err_0 is ValidationError,
{
    let signature: IrSignature = match label {
        IrLabel::AnonymousFunc(i) | IrLabel::ExportedFunc(i, _) | IrLabel::ImportedFunc(i) => {
            if (*i as usize) >= signatures.len() {
                return Err(too_hard("call outside the signature table"));
            }
            match &signatures[*i as usize] {
                Some(s) => *s,
                None => {
                    return Err(too_hard("call to a function without a signature"));
                },
            }
        },
        IrLabel::Indirect(_, sel, sig) => {
            match sel {
                IrOperand::Reg32(op_reg) => {
                    let offset = offset_map.vm_data() + VM_DATA_TMP_0 * 8;
                    code.emit(REX_W | REX_B);
                    code.emit(0x89);
                    code.emit(MOD_DISP32 | (native_reg(op_reg) << 3) | R15);  // mov [r15+<offset>], <sel>
                    code.emit_imm32_le(offset);
                },
                _ => {
                    return Err(too_hard("indirect call selector operand"));
                },
            }
            *sig
        },
        _ => {
            return Err(too_hard("call to a non-function label"));
        },
    };
    if signature.params >= 16 || signature.results > 1 {
        return Err(too_hard("callee arity out of range"));
    }
    let n_params = signature.params;
    let n_stack_params: u32 = if n_params > 6 {
        n_params - 6
    } else {
        0
    };
    if n_params > 0 {
        emit_call_reg_args(code, n_params);
        if n_stack_params > 0 {
            emit_call_stack_args(code, n_stack_params);
        } else {
            emit_call_align_only(code);
        }
    } else {
        emit_call_align_only(code);
    }
    match label {
        IrLabel::AnonymousFunc(i) | IrLabel::ExportedFunc(i, _) => {
            code.emit(0xe8);  // call near, no displacement yet
            let pc = code.pc();
            call_targets.push(LinkTarget { offset: pc, func_index: *i });
            code.emit_imm32_le(0);
            proof {
                vstd::bytes::lemma_auto_spec_u32_to_from_le_bytes();
                assert(call_targets@[call_targets@.len() - 1] == LinkTarget {
                    offset: pc,
                    func_index: *i,
                });
                assert(call_targets@[call_targets@.len() - 1].offset + 4 <= code.code@.len());
            }
            proof {
                assert(*i < funcs@.len() && funcs@[*i as int] matches Some(IrFunc::Function(_)))
                    by {
                    assert(match body_ops@[k@] {
                        IrCp::Call(l) => match l {
                            IrLabel::ExportedFunc(fi, _) => fi < funcs@.len() && funcs@[fi as int]
                                matches Some(IrFunc::Function(_)),
                            IrLabel::AnonymousFunc(fi) => fi < funcs@.len() && funcs@[fi as int]
                                matches Some(IrFunc::Function(_)),
                            _ => true,
                        },
                        _ => true,
                    });
                }
            }
        },
        IrLabel::ImportedFunc(i) => {
            if (*i as usize) >= import_addrs.len() {
                return Err(too_hard("import without a resolved address"));
            }
            let addr = import_addrs[*i as usize];
            code.emit(REX_W);
            code.emit(0xb8);  // movabs rax, <addr>
            code.emit_imm64_le(#[verifier::truncate] (addr as i64));
            code.emit(0xff);
            code.emit(MOD_REG | (0x2 << 3) | AX);  // call rax
        },
        IrLabel::Indirect(table_index, _, _) => {
            if (*table_index as usize) >= offset_map.tables.len() {
                return Err(too_hard("call through a table outside the map"));
            }
            let table_offset = offset_map.table(*table_index);
            let stored_off = offset_map.vm_data() + VM_DATA_TMP_0 * 8;
            code.emit(REX_W | REX_B);
            code.emit(0x8b);
            code.emit(MOD_DISP32 | (AX << 3) | R15);  // mov rax, [r15+<stored>]
            code.emit_imm32_le(stored_off);
            code.emit(REX_W | REX_B);
            code.emit(0x8b);
            code.emit(MOD_DISP32 | (AX << 3) | MOD_SIB);
            code.emit(SIB8 | (AX << 3) | R15);  // mov rax, [r15+rax*8+<table>]
            code.emit_imm32_le(table_offset);
            code.emit(0xff);
            code.emit(MOD_REG | (0x2 << 3) | AX);  // call rax
        },
        _ => {
            return Err(too_hard("call to a non-function label"));
        },
    }
    emit_call_cleanup(code, n_params, n_stack_params, signature.results > 0);
    proof {
        assert(call_targets@.subrange(0, old(call_targets)@.len() as int) =~= old(call_targets)@);
        assert forall|j: int|
            0 <= j < call_targets@.len() implies (#[trigger] call_targets@[j]).offset + 4
            <= code.code@.len() by {
            if j < old(call_targets)@.len() {
                assert(call_targets@[j] == old(call_targets)@[j]);
            }
        };
    }
    Ok(())
}

/// Lowers the data-movement and arithmetic operations: they only append
/// bytes, leaving every book of the generator untouched.
#[verifier::rlimit(100)]
pub fn compile_data_op(code: &mut CodeEmitter, insn: &IrCp, offset_map: &OffsetMap) -> (r: Result<
    (),
    PvfError,
>)
    requires
        offset_map.wf(),
    ensures
        final(code).code@.len() >= old(code).code@.len(),
        bytes_preserved(old(code).code@, final(code).code@),
        final(code).labels == old(code).labels,
        final(code).relocs == old(code).relocs,
        r is Ok ==> match *insn {
            IrCp::Push(op) => match op {
                IrOperand::Reg(rg) => final(code).code@ == old(code).code@.push(
                    (0x50 | reg_num(rg)) as u8,
                ),
                _ => true,
            },
            IrCp::Pop(op) => match op {
                IrOperand::Reg(rg) => final(code).code@ == old(code).code@.push(
                    (0x58 | reg_num(rg)) as u8,
                ),
                _ => true,
            },
            IrCp::Return => final(code).code@ == old(code).code@.push(0xc3u8),
            IrCp::Trap => final(code).code@ == old(code).code@ + seq![0x0fu8, 0x0bu8],
            IrCp::Postamble => final(code).code@ == old(code).code@ + seq![
                0x41u8,
                0x5fu8,
                0x41u8,
                0x5cu8,
            ],
            IrCp::SetIf(cc, dest) => match dest {
                IrOperand::Reg(rg) | IrOperand::Reg32(rg) => final(code).code@ == old(code).code@
                    + seq![
                    0x0fu8,
                    (0x90 | cond_num(cc)) as u8,
                    (0xc0 | reg_num(rg)) as u8,
                    0x0fu8,
                    0xb6u8,
                    (0xc0 | (reg_num(rg) << 3) | reg_num(rg)) as u8,
                ],
                _ => true,
            },
            IrCp::Add(dest, src) => final(code).code@ == old(code).code@ + alu_bytes(
                0x01,
                dest,
                src,
            ),
            IrCp::Subtract(dest, src) => final(code).code@ == old(code).code@ + alu_bytes(
                0x29,
                dest,
                src,
            ),
            IrCp::And(dest, src) => final(code).code@ == old(code).code@ + alu_bytes(
                0x21,
                dest,
                src,
            ),
            IrCp::Or(dest, src) => final(code).code@ == old(code).code@ + alu_bytes(
                0x09,
                dest,
                src,
            ),
            IrCp::Xor(dest, src) => final(code).code@ == old(code).code@ + alu_bytes(
                0x31,
                dest,
                src,
            ),
            IrCp::Compare(dest, src) => final(code).code@ == old(code).code@ + alu_bytes(
                0x39,
                dest,
                src,
            ),
            _ => true,
        },
        r is Err ==> r->Err_0 is ValidationError,
{
    match insn {
        IrCp::Push(op) => {
            match op {
                IrOperand::Reg(r) => code.emit(0x50 | native_reg(r)),  // push <reg>
                _ => {
                    return Err(too_hard("push of a non-register operand"));
                },
            }
        },
        IrCp::Pop(op) => {
            match op {
                IrOperand::Reg(r) => code.emit(0x58 | native_reg(r)),  // pop <reg>
                _ => {
                    return Err(too_hard("pop of a non-register operand"));
                },
            }
        },
        IrCp::Move(dest, src) => {
            return emit_move(code, offset_map, dest, src);
        },
        IrCp::MoveIf(cond, dest, src) => {
            match (dest, src) {
                (IrOperand::Reg(rdest), IrOperand::Reg(rsrc)) => {
                    code.emit(REX_W);
                    code.emit(0x0f);
                    code.emit(0x40 | native_cond(cond));
                    code.emit(MOD_REG | (native_reg(rdest) << 3) | native_reg(rsrc));  // cmovcc <rdest>, <rsrc>
                },
                (IrOperand::Reg32(rdest), IrOperand::Reg32(rsrc)) => {
                    code.emit(0x0f);
                    code.emit(0x40 | native_cond(cond));
                    code.emit(MOD_REG | (native_reg(rdest) << 3) | native_reg(rsrc));  // cmovcc <rdest32>, <rsrc32>
                },
                _ => {
                    return Err(too_hard("conditional move operands"));
                },
            }
        },
        IrCp::ZeroExtend(src) => {
            match src {
                IrOperand::Reg8(rsrc) => {
                    code.emit(0x0f);
                    code.emit(0xb6);
                    code.emit(MOD_REG | (native_reg(rsrc) << 3) | native_reg(rsrc));  // movzx <rsrc32>, <rsrc8>
                },
                IrOperand::Reg16(rsrc) => {
                    code.emit(0x0f);
                    code.emit(0xb7);
                    code.emit(MOD_REG | (native_reg(rsrc) << 3) | native_reg(rsrc));  // movzx <rsrc32>, <rsrc16>
                },
                IrOperand::Reg32(rsrc) => {
                    // a 32-bit move zero-extends to 64 bits
                    code.emit(0x89);
                    code.emit(MOD_REG | (native_reg(rsrc) << 3) | native_reg(rsrc));  // mov <rsrc32>, <rsrc32>
                },
                _ => {
                    return Err(too_hard("zero extension operand"));
                },
            }
        },
        IrCp::SignExtend(src) => {
            match src {
                IrOperand::Reg8(rsrc) => {
                    code.emit(REX_W);
                    code.emit(0x0f);
                    code.emit(0xbe);
                    code.emit(MOD_REG | (native_reg(rsrc) << 3) | native_reg(rsrc));  // movsx <rsrc>, <rsrc8>
                },
                IrOperand::Reg16(rsrc) => {
                    code.emit(REX_W);
                    code.emit(0x0f);
                    code.emit(0xbf);
                    code.emit(MOD_REG | (native_reg(rsrc) << 3) | native_reg(rsrc));  // movsx <rsrc>, <rsrc16>
                },
                IrOperand::Reg32(rsrc) => {
                    code.emit(REX_W);
                    code.emit(0x63);
                    code.emit(MOD_REG | (native_reg(rsrc) << 3) | native_reg(rsrc));  // movsxd <rsrc>, <rsrc32>
                },
                _ => {
                    return Err(too_hard("sign extension operand"));
                },
            }
        },
        IrCp::Add(dest, src) => {
            return emit_alu(code, 0x01, dest, src);
        },
        IrCp::Subtract(dest, src) => {
            return emit_alu(code, 0x29, dest, src);
        },
        IrCp::And(dest, src) => {
            return emit_alu(code, 0x21, dest, src);
        },
        IrCp::Or(dest, src) => {
            return emit_alu(code, 0x09, dest, src);
        },
        IrCp::Xor(dest, src) => {
            return emit_alu(code, 0x31, dest, src);
        },
        IrCp::Compare(dest, src) => {
            return emit_alu(code, 0x39, dest, src);
        },
        IrCp::Multiply(dest, src) => {
            return emit_mul(code, dest, src);
        },
        IrCp::DivideUnsigned(dest, src) => {
            return emit_div(code, dest, src, false, false);
        },
        IrCp::DivideSigned(dest, src) => {
            return emit_div(code, dest, src, true, false);
        },
        IrCp::RemainderUnsigned(dest, src) => {
            return emit_div(code, dest, src, false, true);
        },
        IrCp::RemainderSigned(dest, src) => {
            return emit_div(code, dest, src, true, true);
        },
        IrCp::SetIf(cond, dest) => {
            match dest {
                IrOperand::Reg(rdest) | IrOperand::Reg32(rdest) => {
                    code.emit(0x0f);
                    code.emit(0x90 | native_cond(cond));
                    code.emit(MOD_REG | native_reg(rdest));  // setcc <dreg8>
                    code.emit(0x0f);
                    code.emit(0xb6);
                    code.emit(MOD_REG | (native_reg(rdest) << 3) | native_reg(rdest));  // movzx <dreg32>, <dreg8>
                    proof {
                        assert(code.code@ =~= old(code).code@ + seq![
                            0x0fu8,
                            (0x90 | cond_num(*cond)) as u8,
                            (0xc0 | reg_num(*rdest)) as u8,
                            0x0fu8,
                            0xb6u8,
                            (0xc0 | (reg_num(*rdest) << 3) | reg_num(*rdest)) as u8,
                        ]);
                    }
                },
                _ => {
                    return Err(too_hard("flag materialization operand"));
                },
            }
        },
        IrCp::CheckIfZero(op) => {
            match op {
                IrOperand::Reg(r) => {
                    code.emit(REX_W);
                    code.emit(0x85);
                    code.emit(MOD_REG | (native_reg(r) << 3) | native_reg(r));  // test <reg>, <reg>
                    code.emit(0x0f);
                    code.emit(0x94);
                    code.emit(MOD_REG | native_reg(r));  // setz <reg8>
                    code.emit(0x0f);
                    code.emit(0xb6);
                    code.emit(MOD_REG | (native_reg(r) << 3) | native_reg(r));  // movzx <reg32>, <reg8>
                },
                IrOperand::Reg32(r) => {
                    code.emit(0x85);
                    code.emit(MOD_REG | (native_reg(r) << 3) | native_reg(r));  // test <reg32>, <reg32>
                    code.emit(0x0f);
                    code.emit(0x94);
                    code.emit(MOD_REG | native_reg(r));  // setz <reg8>
                    code.emit(0x0f);
                    code.emit(0xb6);
                    code.emit(MOD_REG | (native_reg(r) << 3) | native_reg(r));  // movzx <reg32>, <reg8>
                },
                _ => {
                    return Err(too_hard("zero test operand"));
                },
            }
        },
        IrCp::Select(check, if_zero, if_not_zero, _result) => {
            match (check, if_zero, if_not_zero) {
                (IrOperand::Reg32(c), IrOperand::Reg(a), IrOperand::Reg(b)) => {
                    code.emit(0x85);
                    code.emit(MOD_REG | (native_reg(c) << 3) | native_reg(c));  // test <c32>, <c32>
                    code.emit(REX_W);
                    code.emit(0x0f);
                    code.emit(0x45);
                    code.emit(MOD_REG | (native_reg(a) << 3) | native_reg(b));  // cmovnz <a>, <b>
                },
                _ => {
                    return Err(too_hard("select operands"));
                },
            }
        },
        IrCp::ShiftLeft(dest, cnt) => {
            return emit_shift(code, 0x4, dest, cnt);
        },
        IrCp::ShiftRightUnsigned(dest, cnt) => {
            return emit_shift(code, 0x5, dest, cnt);
        },
        IrCp::ShiftRightSigned(dest, cnt) => {
            return emit_shift(code, 0x7, dest, cnt);
        },
        IrCp::RotateLeft(dest, cnt) => {
            return emit_shift(code, 0x0, dest, cnt);
        },
        IrCp::RotateRight(dest, cnt) => {
            return emit_shift(code, 0x1, dest, cnt);
        },
        IrCp::LeadingZeroes(src) | IrCp::TrailingZeroes(src) | IrCp::BitPopulationCount(src) => {
            let op2: u8 = match insn {
                IrCp::LeadingZeroes(_) => 0xbd,  // lzcnt, encoded as rep bsr
                IrCp::TrailingZeroes(_) => 0xbc,  // tzcnt, encoded as rep bsf
                _ => 0xb8,  // popcnt
            };
            match src {
                IrOperand::Reg32(rsrc) => {
                    code.emit(REP);
                    code.emit(0x0f);
                    code.emit(op2);
                    code.emit(MOD_REG | (native_reg(rsrc) << 3) | native_reg(rsrc));
                },
                IrOperand::Reg(rsrc) => {
                    code.emit(REP);
                    code.emit(REX_W);
                    code.emit(0x0f);
                    code.emit(op2);
                    code.emit(MOD_REG | (native_reg(rsrc) << 3) | native_reg(rsrc));
                },
                _ => {
                    return Err(too_hard("bit count operand"));
                },
            }
        },
        IrCp::InitTablePreamble(offset) => {
            match offset {
                IrOperand::Reg(offset_reg) => {
                    if offset_map.tables.len() == 0 {
                        return Err(too_hard("table initialization without a table"));
                    }
                    code.emit(REX_W | REX_B);
                    code.emit(0x8d);
                    code.emit(MOD_DISP32 | (DI << 3) | MOD_SIB);
                    code.emit(SIB8 | (native_reg(offset_reg) << 3) | R15);  // lea rdi, [r15+<roffset>*8+<table>]
                    code.emit_imm32_le(offset_map.table(0));
                    code.emit(0xfc);  // cld
                },
                _ => {
                    return Err(too_hard("table initialization operand"));
                },
            }
        },
        IrCp::InitTablePostamble => (),
        IrCp::InitMemoryFromChunk(chunk_idx, chunk_len, offset) => {
            match offset {
                IrOperand::Reg(offset_reg) => {
                    code.emit(REX_W | REX_B);
                    code.emit(0x8d);
                    code.emit(MOD_RM | (DI << 3) | MOD_SIB);
                    code.emit(SIB1 | (native_reg(offset_reg) << 3) | R15);  // lea rdi, [r15+<roffset>]
                },
                _ => {
                    return Err(too_hard("memory initialization operand"));
                },
            }
            if (*chunk_idx as usize) >= offset_map.data_chunks.len() {
                return Err(too_hard("memory initialization from a chunk outside the map"));
            }
            code.emit(REX_W | REX_B);
            code.emit(0x8d);
            code.emit(MOD_DISP32 | (SI << 3) | R15);  // lea rsi, [r15+<chunk>]
            code.emit_imm32_le(offset_map.data_chunk(*chunk_idx));
            code.emit(0xb8 | CX);  // mov ecx, <len>
            code.emit_imm32_le(#[verifier::truncate] (*chunk_len as i32));
            code.emit(0xfc);  // cld
            code.emit(0xf3);
            code.emit(0xa4);  // rep movsb
        },
        IrCp::MemoryGrow(pages) => {
            match pages {
                IrOperand::Reg32(rpages) => {
                    code.emit(REX_W | REX_B);
                    code.emit(0x8b);
                    code.emit(MOD_DISP32 | (SI << 3) | R15);  // mov rsi, [r15+<alloc>]
                    code.emit_imm32_le(offset_map.vm_data() + VM_DATA_MEM_ALLOC);
                    code.emit(REX_W);
                    code.emit(0x89);
                    code.emit(MOD_REG | (SI << 3) | DI);  // mov rdi, rsi: the old size is the result
                    code.emit(REX_W);
                    code.emit(0x01);
                    code.emit(MOD_REG | (native_reg(rpages) << 3) | SI);  // add rsi, <pages>
                    code.emit(REX_W | REX_B);
                    code.emit(0x3b);
                    code.emit(MOD_DISP32 | (SI << 3) | R15);  // cmp rsi, [r15+<total>]
                    code.emit_imm32_le(offset_map.vm_data() + VM_DATA_MEM_TOTAL);
                    code.emit(0x77);
                    code.emit(0x09);  // ja fail
                    code.emit(REX_W | REX_B);
                    code.emit(0x89);
                    code.emit(MOD_DISP32 | (SI << 3) | R15);  // mov [r15+<alloc>], rsi
                    code.emit_imm32_le(offset_map.vm_data() + VM_DATA_MEM_ALLOC);
                    code.emit(0xeb);
                    code.emit(0x05);  // jmp done
                    // fail:
                    code.emit(0xb8 | DI);  // mov edi, -1
                    code.emit(0xff);
                    code.emit(0xff);
                    code.emit(0xff);
                    code.emit(0xff);
                    // done:
                    code.emit(0x89);
                    code.emit(MOD_REG | (DI << 3) | native_reg(rpages));  // mov <pages32>, edi
                },
                _ => {
                    return Err(too_hard("memory growth operand"));
                },
            }
        },
        IrCp::MemorySize(dest) => {
            match dest {
                IrOperand::Reg32(rdest) => {
                    code.emit(REX_W | REX_B);
                    code.emit(0x8b);
                    code.emit(MOD_DISP32 | (native_reg(rdest) << 3) | R15);  // mov <dest>, [r15+<alloc>]
                    code.emit_imm32_le(offset_map.vm_data() + VM_DATA_MEM_ALLOC);
                },
                _ => {
                    return Err(too_hard("memory size operand"));
                },
            }
        },
        IrCp::Postamble => {
            code.emit(REX_B);
            code.emit(0x58 | R15);  // pop r15
            code.emit(REX_B);
            code.emit(0x58 | R12);  // pop r12
            proof {
                assert(0x58u8 | 7u8 == 0x5fu8) by (bit_vector);
                assert(0x58u8 | 4u8 == 0x5cu8) by (bit_vector);
                assert(code.code@ =~= old(code).code@ + seq![0x41u8, 0x5fu8, 0x41u8, 0x5cu8]);
            }
        },
        IrCp::Return => {
            code.emit(0xc3);  // ret near
        },
        IrCp::Trap => {
            code.emit(0x0f);
            code.emit(0x0b);  // ud2
            proof {
                assert(code.code@ =~= old(code).code@ + seq![0x0fu8, 0x0bu8]);
            }
        },
        _ => {
            return Err(too_hard("operation not handled here"));
        },
    }
    Ok(())
}

/// Lowers one operation, keeping every book the generator maintains in
/// step: the label registry grows only at its end, every pending fixup site
/// stays inside the code, and every recorded call names a defined function.
#[verifier::rlimit(100)]
pub fn compile_one_op(
    code: &mut CodeEmitter,
    insn: &IrCp,
    self_signature: IrSignature,
    signatures: &Vec<Option<IrSignature>>,
    import_addrs: &Vec<u64>,
    offset_map: &OffsetMap,
    call_targets: &mut Vec<LinkTarget>,
    abs_off_targets: &mut Vec<LinkTarget>,
    jmp_targets: &mut Vec<(usize, JmpKind)>,
    index: u32,
    first: bool,
    funcs: Ghost<Seq<Option<IrFunc>>>,
    body_ops: Ghost<Seq<IrCp>>,
    k: Ghost<int>,
    lo: Ghost<int>,
) -> (r: Result<(), PvfError>)
    requires
        offset_map.wf(),
        self_signature.params < 16,
        0 <= k@ < body_ops@.len(),
        body_ops@[k@] == *insn,
        branch_closed(body_ops@),
        calls_resolvable(body_ops@, funcs@),
        func_entry_shaped(body_ops@, index),
        import_addrs@.len() == funcs@.len(),
        first <==> k@ == 0,
        labels_in_code(old(code).labels@, old(code).code@.len() as int),
        0 <= lo@ <= old(code).code@.len(),
        forall|j: int|
            0 <= j < old(jmp_targets)@.len() ==> {
                &&& target_resolved(
                    body_ops@,
                    jmp_kind_label((#[trigger] old(jmp_targets)@[j]).1),
                )
                &&& lo@ <= old(jmp_targets)@[j].0
                &&& old(jmp_targets)@[j].0 + 4 <= old(code).code@.len()
            },
        link_targets_ok(old(call_targets)@, funcs@),
        link_targets_ok(old(abs_off_targets)@, funcs@),
        forall|j: int|
            0 <= j < old(call_targets)@.len() ==> (#[trigger] old(call_targets)@[j]).offset + 4
                <= old(code).code@.len(),
        forall|j: int|
            0 <= j < old(abs_off_targets)@.len() ==> (#[trigger] old(abs_off_targets)@[j]).offset
                + 8 <= old(code).code@.len(),
        relocs_partial(old(code).relocs@, old(code).labels@, body_ops@),
    ensures
        match r {
            Ok(_) => {
                &&& final(code).code@.len() >= old(code).code@.len()
                &&& bytes_preserved(old(code).code@, final(code).code@)
                &&& final(code).relocs@.len() >= old(code).relocs@.len()
                &&& final(code).relocs@.subrange(0, old(code).relocs@.len() as int) == old(
                    code,
                ).relocs@
                &&& final(code).labels@.len() >= old(code).labels@.len()
                &&& final(code).labels@.subrange(0, old(code).labels@.len() as int) == old(
                    code,
                ).labels@
                &&& labels_in_code(final(code).labels@, final(code).code@.len() as int)
                &&& forall|l: IrLabel|
                    label_registered(old(code).labels@, l) ==> #[trigger] label_registered(
                        final(code).labels@,
                        l,
                    )
                &&& (match body_ops@[k@] {
                    IrCp::Label(l) => l is Indirect || label_registered(final(code).labels@, l),
                    _ => true,
                })
                &&& (body_ops@[k@] is Preamble ==> {
                    &&& final(code).code@ == old(code).code@ + seq![
                        0x41u8,
                        0x54u8,
                        0x41u8,
                        0x57u8,
                        0x49u8,
                        0xbfu8,
                    ] + vstd::bytes::spec_u64_to_le_bytes(0)
                    &&& final(code).relocs@ == old(code).relocs@.push(
                        (Relocation::MemoryAbsolute64, (old(code).code@.len() + 6) as usize),
                    )
                })
                &&& ((first || entry_registered(old(code).labels@, index)) ==> entry_registered(
                    final(code).labels@,
                    index,
                ))
                &&& (first ==> (match body_ops@[0] {
                    IrCp::Label(IrLabel::ExportedFunc(fi, n)) => crate::codegen::export_registered(
                        final(code).labels@,
                        fi,
                        n@,
                    ),
                    _ => true,
                }))
                &&& forall|j: int|
                    0 <= j < final(jmp_targets)@.len() ==> {
                        &&& target_resolved(
                            body_ops@,
                            jmp_kind_label((#[trigger] final(jmp_targets)@[j]).1),
                        )
                        &&& lo@ <= final(jmp_targets)@[j].0
                        &&& final(jmp_targets)@[j].0 + 4 <= final(code).code@.len()
                    }
                &&& final(jmp_targets)@.len() >= old(jmp_targets)@.len()
                &&& final(jmp_targets)@.len() <= old(jmp_targets)@.len() + 1
                &&& final(jmp_targets)@.subrange(0, old(jmp_targets)@.len() as int) == old(
                    jmp_targets,
                )@
                &&& forall|j: int|
                    old(jmp_targets)@.len() <= j < final(jmp_targets)@.len() ==> old(
                        code,
                    ).code@.len() <= (#[trigger] final(jmp_targets)@[j]).0 as int
                &&& link_targets_ok(final(call_targets)@, funcs@)
                &&& link_targets_ok(final(abs_off_targets)@, funcs@)
                &&& forall|j: int|
                    0 <= j < final(call_targets)@.len() ==> (
                    #[trigger] final(call_targets)@[j]).offset + 4 <= final(code).code@.len()
                &&& forall|j: int|
                    0 <= j < final(abs_off_targets)@.len() ==> (
                    #[trigger] final(abs_off_targets)@[j]).offset + 8 <= final(code).code@.len()
                &&& final(call_targets)@.len() >= old(call_targets)@.len()
                &&& forall|j: int|
                    0 <= j < old(call_targets)@.len() ==> #[trigger] final(call_targets)@[j]
                        == old(call_targets)@[j]
                &&& final(abs_off_targets)@.len() >= old(abs_off_targets)@.len()
                &&& forall|j: int|
                    0 <= j < old(abs_off_targets)@.len() ==> #[trigger] final(abs_off_targets)@[j]
                        == old(abs_off_targets)@[j]
                &&& final(call_targets)@.len() + final(abs_off_targets)@.len() <= old(
                    call_targets,
                )@.len() + old(abs_off_targets)@.len() + 1
                &&& forall|j: int|
                    old(call_targets)@.len() <= j < final(call_targets)@.len() ==> old(
                        code,
                    ).code@.len() <= (#[trigger] final(call_targets)@[j]).offset as int
                &&& forall|j: int|
                    old(abs_off_targets)@.len() <= j < final(abs_off_targets)@.len() ==> old(
                        code,
                    ).code@.len() <= (#[trigger] final(abs_off_targets)@[j]).offset as int
                &&& relocs_partial(final(code).relocs@, final(code).labels@, body_ops@)
            },
            Err(e) => e is ValidationError,
        },
{
    broadcast use crate::codegen::lemma_label_registered_push;
    broadcast use crate::codegen::lemma_entry_registered_push;

    let ghost pre_labels = old(code).labels@;
    match insn {
        IrCp::Label(label) => {
            let registered = clone_label(label);
            code.label(registered);
            proof {
                assert(code.labels@.subrange(0, pre_labels.len() as int) =~= pre_labels);
                let last = code.labels@.len() - 1;
                if !(label is Indirect) {
                    assert(code.labels@[last].0.same_target(label));
                    assert(label_registered(code.labels@, *label));
                }
                if first {
                    assert(code.labels@[last].0.func_index_spec() == Some(index));
                    assert(entry_registered(code.labels@, index));
                    match body_ops@[0] {
                        IrCp::Label(IrLabel::ExportedFunc(fi, n)) => {
                            assert(match code.labels@[last].0 {
                                IrLabel::ExportedFunc(i2, n2) => i2 == fi && n2@ == n@,
                                _ => false,
                            });
                            assert(crate::codegen::export_registered(code.labels@, fi, n@));
                        },
                        _ => {},
                    }
                }
            }
        },
        IrCp::Preamble => {
            code.emit(REX_B);
            code.emit(0x50 | R12);  // push r12
            code.emit(REX_B);
            code.emit(0x50 | R15);  // push r15
            code.emit(REX_W | REX_B);
            code.emit(0xb8 | R15);  // movabs r15, imm64: the linear-memory base
            code.reloc(Relocation::MemoryAbsolute64);
            code.emit_imm64_le(0);
            proof {
                assert(0x50u8 | 4u8 == 0x54u8) by (bit_vector);
                assert(0x50u8 | 7u8 == 0x57u8) by (bit_vector);
                assert(0x48u8 | 0x41u8 == 0x49u8) by (bit_vector);
                assert(0xb8u8 | 7u8 == 0xbfu8) by (bit_vector);
                assert(code.code@ =~= old(code).code@ + seq![
                    0x41u8,
                    0x54u8,
                    0x41u8,
                    0x57u8,
                    0x49u8,
                    0xbfu8,
                ] + vstd::bytes::spec_u64_to_le_bytes(0));
            }
        },
        IrCp::InitLocals(n_locals) => {
            if *n_locals >= 0x10000 {
                return Err(too_hard("too many locals"));
            }
            emit_init_locals(code, *n_locals, self_signature.params);
        },
        IrCp::Jump(label) => {
            let kind = match label {
                IrLabel::BranchTarget(b) => JmpKind::Branch(*b),
                IrLabel::LocalLabel(id) => JmpKind::Local(*id),
                _ => {
                    return Err(too_hard("jump to a non-local label"));
                },
            };
            proof {
                assert(target_resolved(body_ops@, jmp_kind_label(kind))) by {
                    assert(match body_ops@[k@] {
                        IrCp::Jump(l) => target_resolved(body_ops@, l),
                        _ => true,
                    });
                }
            }
            code.emit(0xe9);  // jmp near rel32, no displacement yet
            let pc = code.pc();
            jmp_targets.push((pc, kind));
            code.emit_imm32_le(0);
            proof {
                vstd::bytes::lemma_auto_spec_u32_to_from_le_bytes();
                assert(jmp_targets@[jmp_targets@.len() - 1] == (pc, kind));
                assert(pc + 4 <= code.code@.len());
            }
        },
        IrCp::JumpIf(cond, label) => {
            let kind = match label {
                IrLabel::BranchTarget(b) => JmpKind::Branch(*b),
                IrLabel::LocalLabel(id) => JmpKind::Local(*id),
                _ => {
                    return Err(too_hard("jump to a non-local label"));
                },
            };
            proof {
                assert(target_resolved(body_ops@, jmp_kind_label(kind))) by {
                    assert(match body_ops@[k@] {
                        IrCp::JumpIf(_, l) => target_resolved(body_ops@, l),
                        _ => true,
                    });
                }
            }
            code.emit(0x0f);
            code.emit(0x80 | native_cond(cond));  // jcc near rel32, no displacement yet
            let pc = code.pc();
            jmp_targets.push((pc, kind));
            code.emit_imm32_le(0);
            proof {
                vstd::bytes::lemma_auto_spec_u32_to_from_le_bytes();
                assert(jmp_targets@[jmp_targets@.len() - 1] == (pc, kind));
                assert(pc + 4 <= code.code@.len());
            }
        },
        IrCp::JumpTable(op, targets) => {
            match op {
                IrOperand::Reg32(rindex) => {
                    // the table of absolute addresses follows the indirect
                    // jump immediately
                    code.emit(REX_W);
                    code.emit(0x8d);
                    code.emit(MOD_RM | (DI << 3) | MOD_RIPREL);  // lea rdi, [rip+8]
                    code.emit(0x08);
                    code.emit(0x00);
                    code.emit(0x00);
                    code.emit(0x00);
                    code.emit(0xc1);
                    code.emit(MOD_REG | (0x4 << 3) | native_reg(rindex));
                    code.emit(0x03);  // shl <rindex32>, 3
                    code.emit(REX_W);
                    code.emit(0x01);
                    code.emit(MOD_REG | (native_reg(rindex) << 3) | DI);  // add rdi, <rindex>
                    code.emit(0xff);
                    code.emit(MOD_RM | (0x4 << 3) | DI);  // jmp [rdi]
                    proof {
                        assert(forall|j: int|
                            0 <= j < targets@.len() ==> target_resolved(
                                body_ops@,
                                #[trigger] targets@[j],
                            )) by {
                            assert(match body_ops@[k@] {
                                IrCp::JumpTable(_, ts) => forall|j: int|
                                    0 <= j < ts@.len() ==> target_resolved(
                                        body_ops@,
                                        #[trigger] ts@[j],
                                    ),
                                _ => true,
                            });
                        }
                    }
                    emit_jump_table_entries(code, targets, body_ops);
                },
                _ => {
                    return Err(too_hard("table jump selector operand"));
                },
            }
        },
        IrCp::Call(label) => {
            proof {
                assert(body_ops@[k@] == IrCp::Call(*label));
            }
            match compile_call_op(
                code,
                label,
                signatures,
                import_addrs,
                offset_map,
                call_targets,
                funcs,
                body_ops,
                k,
            ) {
                Ok(()) => (),
                Err(e) => {
                    return Err(e);
                },
            }
        },
        IrCp::InitTableElement(func_index_op) => {
            match func_index_op {
                IrOperand::Imm32(func_index) => {
                    if *func_index < 0 {
                        return Err(too_hard("negative function index"));
                    }
                    code.emit(REX_W);
                    code.emit(0xb8 | AX);  // movabs rax, <imm64>
                    let pc = code.pc();
                    abs_off_targets.push(LinkTarget { offset: pc, func_index: *func_index as u32 });
                    code.reloc(Relocation::FunctionAbsoluteAddress);
                    code.emit_imm64_le(0);
                    code.emit(REX_W);
                    code.emit(0xab);  // stosq
                    proof {
                        vstd::bytes::lemma_auto_spec_u64_to_from_le_bytes();
                        assert(abs_off_targets@[abs_off_targets@.len() - 1] == LinkTarget {
                            offset: pc,
                            func_index: *func_index as u32,
                        });
                        assert(abs_off_targets@[abs_off_targets@.len() - 1].offset + 8
                            <= code.code@.len());
                        assert(abs_off_targets@.subrange(0, old(abs_off_targets)@.len() as int)
                            =~= old(abs_off_targets)@);
                    }
                    proof {
                        assert(0 <= *func_index < funcs@.len() && funcs@[*func_index as int]
                            matches Some(IrFunc::Function(_))) by {
                            assert(match body_ops@[k@] {
                                IrCp::InitTableElement(o) => match o {
                                    IrOperand::Imm32(fi) => 0 <= fi < funcs@.len() && funcs@[
                                        fi as int] matches Some(IrFunc::Function(_)),
                                    _ => true,
                                },
                                _ => true,
                            });
                        }
                    }
                },
                _ => {
                    return Err(too_hard("table element operand"));
                },
            }
        },
        _ => {
            match compile_data_op(code, insn, offset_map) {
                Ok(()) => (),
                Err(e) => {
                    return Err(e);
                },
            }
        },
    }
    proof {
        assert forall|j: int|
            0 <= j < call_targets@.len() implies (#[trigger] call_targets@[j]).offset + 4
            <= code.code@.len() by {
            if j < old(call_targets)@.len() {
                assert(call_targets@[j] == old(call_targets)@.subrange(
                    0,
                    old(call_targets)@.len() as int,
                )[j]);
                assert(call_targets@[j] == old(call_targets)@[j]);
            }
        };
        assert forall|j: int|
            0 <= j < abs_off_targets@.len() implies (#[trigger] abs_off_targets@[j]).offset + 8
            <= code.code@.len() by {
            if j < old(abs_off_targets)@.len() {
                assert(abs_off_targets@[j] == old(abs_off_targets)@[j]);
            }
        };
        assert forall|j: int|
            0 <= j < jmp_targets@.len() implies {
            &&& target_resolved(body_ops@, jmp_kind_label((#[trigger] jmp_targets@[j]).1))
            &&& lo@ <= jmp_targets@[j].0
            &&& jmp_targets@[j].0 + 4 <= code.code@.len()
        } by {
            if j < old(jmp_targets)@.len() {
                assert(jmp_targets@[j] == old(jmp_targets)@[j]);
            }
        };
    }
    Ok(())
}

/// The x86-64 generator: collects the direct-call and absolute-address
/// sites while lowering, and patches them at link time.
pub struct IntelX64Compiler {
    pub call_targets: Vec<LinkTarget>,
    pub abs_off_targets: Vec<LinkTarget>,
}

impl IntelX64Compiler {
    pub fn new() -> (r: Self)
        ensures
            r.call_targets@.len() == 0,
            r.abs_off_targets@.len() == 0,
    {
        IntelX64Compiler { call_targets: Vec::new(), abs_off_targets: Vec::new() }
    }
}

/// The four bytes at `site` hold, little-endian, the displacement from the
/// end of the window to the position some registered label of the jump's
/// target records.
pub open spec fn jmp_site_patched(
    code: Seq<u8>,
    labels: Seq<(IrLabel, usize)>,
    site: int,
    target: IrLabel,
) -> bool {
    exists|q: int|
        0 <= q < labels.len() && (#[trigger] labels[q]).0.same_target(&target)
            && code.subrange(site, site + 4) == vstd::bytes::spec_u32_to_le_bytes(
            (((labels[q].1 - (site + 4)) as i32) as u32),
        )
}

/// Patches every recorded intra-function jump site with the displacement to
/// its target label's position. The sites' windows are in order and disjoint,
/// so each one ends holding exactly that displacement; every byte outside the
/// windows is untouched.
pub fn patch_jump_sites(code: &mut CodeEmitter, jmp_targets: &Vec<(usize, JmpKind)>)
    requires
        old(code).code@.len() <= 0x40000000,
        forall|j: int|
            0 <= j < jmp_targets@.len() ==> {
                &&& label_registered(
                    old(code).labels@,
                    jmp_kind_label((#[trigger] jmp_targets@[j]).1),
                )
                &&& (#[trigger] jmp_targets@[j]).0 + 4 <= old(code).code@.len()
            },
        forall|j: int, j2: int|
            0 <= j < j2 < jmp_targets@.len() ==> (#[trigger] jmp_targets@[j]).0 + 4 <= (
            #[trigger] jmp_targets@[j2]).0,
        labels_in_code(old(code).labels@, old(code).code@.len() as int),
    ensures
        final(code).code@.len() == old(code).code@.len(),
        final(code).labels == old(code).labels,
        final(code).relocs == old(code).relocs,
        forall|i: int|
            0 <= i < old(code).code@.len() && (forall|j: int|
                0 <= j < jmp_targets@.len() ==> !((#[trigger] jmp_targets@[j]).0 <= i
                    < jmp_targets@[j].0 + 4)) ==> final(code).code@[i] == old(code).code@[i],
        forall|j: int|
            0 <= j < jmp_targets@.len() ==> jmp_site_patched(
                final(code).code@,
                final(code).labels@,
                (#[trigger] jmp_targets@[j]).0 as int,
                jmp_kind_label(jmp_targets@[j].1),
            ),
{
    let mut t: usize = 0;
    while t < jmp_targets.len()
        invariant
            t <= jmp_targets@.len(),
            code.code@.len() == old(code).code@.len(),
            code.code@.len() <= 0x40000000,
            code.labels == old(code).labels,
            code.relocs == old(code).relocs,
            forall|j: int|
                0 <= j < jmp_targets@.len() ==> {
                    &&& label_registered(
                        code.labels@,
                        jmp_kind_label((#[trigger] jmp_targets@[j]).1),
                    )
                    &&& (#[trigger] jmp_targets@[j]).0 + 4 <= code.code@.len()
                },
            forall|j: int, j2: int|
                0 <= j < j2 < jmp_targets@.len() ==> (#[trigger] jmp_targets@[j]).0 + 4 <= (
                #[trigger] jmp_targets@[j2]).0,
            labels_in_code(code.labels@, code.code@.len() as int),
            forall|i: int|
                0 <= i < code.code@.len() && (forall|j: int|
                    0 <= j < t ==> !((#[trigger] jmp_targets@[j]).0 <= i < jmp_targets@[j].0 + 4))
                    ==> code.code@[i] == old(code).code@[i],
            forall|j: int|
                0 <= j < t ==> jmp_site_patched(
                    code.code@,
                    code.labels@,
                    (#[trigger] jmp_targets@[j]).0 as int,
                    jmp_kind_label(jmp_targets@[j].1),
                ),
        decreases jmp_targets@.len() - t,
    {
        let ghost pre_code = code.code@;
        let (site, kind) = jmp_targets[t];
        let target = match kind {
            JmpKind::Branch(b) => IrLabel::BranchTarget(b),
            JmpKind::Local(id) => IrLabel::LocalLabel(id),
        };
        proof {
            assert(jmp_kind_label(kind) == target);
        }
        let label_pc = find_label_pc(&code.labels, &target);
        let disp: i64 = (label_pc as i64) - (site as i64 + 4);
        code.patch32_le(site, disp as i32);
        proof {
            let q = choose|q: int|
                0 <= q < code.labels@.len() && (#[trigger] code.labels@[q]).0.same_target(&target)
                    && code.labels@[q].1 == label_pc;
            assert(code.code@.subrange(site as int, site + 4) == vstd::bytes::spec_u32_to_le_bytes(
                (((code.labels@[q].1 - (site + 4)) as i32) as u32),
            ));
            assert(jmp_site_patched(
                code.code@,
                code.labels@,
                site as int,
                jmp_kind_label(kind),
            ));
            assert forall|j: int| 0 <= j < t + 1 implies jmp_site_patched(
                code.code@,
                code.labels@,
                (#[trigger] jmp_targets@[j]).0 as int,
                jmp_kind_label(jmp_targets@[j].1),
            ) by {
                if j < t {
                    let sj = jmp_targets@[j].0 as int;
                    let q2 = choose|q2: int|
                        0 <= q2 < code.labels@.len() && (#[trigger] code.labels@[q2]).0.same_target(
                            &jmp_kind_label(jmp_targets@[j].1),
                        ) && pre_code.subrange(sj, sj + 4) == vstd::bytes::spec_u32_to_le_bytes(
                            (((code.labels@[q2].1 - (sj + 4)) as i32) as u32),
                        );
                    crate::codegen::lemma_window_preserved(
                        pre_code,
                        code.code@,
                        sj,
                        4,
                        site as int,
                        4,
                    );
                }
            }
        }
        t = t + 1;
    }
}


impl CodeGenerator for IntelX64Compiler {
    open spec fn call_sites(&self) -> Seq<LinkTarget> {
        self.call_targets@
    }

    open spec fn abs_sites(&self) -> Seq<LinkTarget> {
        self.abs_off_targets@
    }

    fn build_offset_map(&self, ir_tables: &Vec<IrTable>, ir_chunks: &Vec<IrDataChunk>) -> (r:
        OffsetMap) {
        let mut map = OffsetMap::new();
        let mut i: usize = 0;
        while i < ir_tables.len()
            invariant
                map.wf(),
                ir_tables@.len() < 0x100,
                i <= ir_tables@.len(),
                forall|q: int|
                    0 <= q < ir_tables@.len() ==> match #[trigger] ir_tables@[q] {
                        IrTable::Table(m) => m <= 0xFFFF,
                        IrTable::Import(_) => false,
                    },
                map.tables@.len() == i,
                map.data_chunks@.len() == 0,
                map.top >= -0x20000 - i * 0x90000,
                map.top == (if i == 0 {
                    -0x20000
                } else {
                    map.tables@[i - 1] as int
                }),
                forall|q: int|
                    0 <= q < i ==> (#[trigger] map.tables@[q]) as int == (if q == 0 {
                        -0x20000
                    } else {
                        map.tables@[q - 1] as int
                    }) - 0x10000 * crate::codegen::table_pages(ir_tables@[q]),
            decreases ir_tables@.len() - i,
        {
            let max_size = match &ir_tables[i] {
                IrTable::Table(m) => *m,
                IrTable::Import(_) => 0,
            };
            // each table is rounded up to whole 64 KiB pages, one at least
            let bytes = max_size * 8;
            let num_pages = if bytes == 0 {
                1
            } else {
                (bytes + 0xFFFF) / 0x10000
            };
            map.add_table(num_pages);
            i = i + 1;
        }
        let ghost tables_done = map.tables@;
        let mut i: usize = 0;
        while i < ir_chunks.len()
            invariant
                map.wf(),
                ir_chunks@.len() < 0x100,
                i <= ir_chunks@.len(),
                forall|q: int|
                    0 <= q < ir_chunks@.len() ==> (#[trigger] ir_chunks@[q]).data@.len()
                        <= 0x400000,
                map.tables@ == tables_done,
                map.tables@.len() == ir_tables@.len(),
                map.data_chunks@.len() == i,
                map.top >= -0x20000 - 0x100 * 0x90000 - i * 0x410000,
                map.top == (if i == 0 {
                    if ir_tables@.len() == 0 {
                        -0x20000
                    } else {
                        map.tables@[ir_tables@.len() - 1] as int
                    }
                } else {
                    map.data_chunks@[i - 1] as int
                }),
                forall|q: int|
                    0 <= q < ir_tables@.len() ==> (#[trigger] map.tables@[q]) as int == (if q == 0 {
                        -0x20000
                    } else {
                        map.tables@[q - 1] as int
                    }) - 0x10000 * crate::codegen::table_pages(ir_tables@[q]),
                forall|q: int|
                    0 <= q < i ==> (#[trigger] map.data_chunks@[q]) as int == (if q == 0 {
                        if ir_tables@.len() == 0 {
                            -0x20000
                        } else {
                            map.tables@[ir_tables@.len() - 1] as int
                        }
                    } else {
                        map.data_chunks@[q - 1] as int
                    }) - 0x10000 * crate::prepared_pvf::chunk_pages(
                        ir_chunks@[q].data@.len() as int,
                    ),
            decreases ir_chunks@.len() - i,
        {
            let len = ir_chunks[i].data_len();
            // each chunk is rounded up to whole 64 KiB pages, one at least
            let num_pages = if len == 0 {
                1
            } else {
                ((len as u64 + 0xFFFF) / 0x10000) as u32
            };
            map.add_data_chunk(num_pages);
            i = i + 1;
        }
        map
    }

    fn compile_func(
        &mut self,
        code: &mut CodeEmitter,
        index: u32,
        body: &Ir,
        signatures: &Vec<Option<IrSignature>>,
        import_addrs: &Vec<u64>,
        offset_map: &OffsetMap,
        funcs: Ghost<Seq<Option<IrFunc>>>,
    ) -> (r: Result<(), PvfError>) {
        broadcast use crate::codegen::lemma_label_registered_push;

        let mut jmp_targets: Vec<(usize, JmpKind)> = Vec::new();
        if (index as usize) >= signatures.len() {
            return Err(too_hard("function index outside the signature table"));
        }
        let self_signature = match &signatures[index as usize] {
            Some(s) => *s,
            None => {
                return Err(too_hard("function without a signature"));
            },
        };
        if self_signature.params >= 16 {
            return Err(too_hard("too many parameters"));
        }
        let ops = body.code();
        let mut k: usize = 0;
        while k < ops.len()
            invariant
                self_signature.params < 16,
                offset_map.wf(),
                ops@ == body@,
                k <= ops@.len(),
                branch_closed(body@),
                calls_resolvable(body@, funcs@),
                func_entry_shaped(body@, index),
                import_addrs@.len() == funcs@.len(),
                code.code@.len() >= old(code).code@.len(),
                bytes_preserved(old(code).code@, code.code@),
                code.relocs@.len() >= old(code).relocs@.len(),
                code.relocs@.subrange(0, old(code).relocs@.len() as int) == old(code).relocs@,
                code.labels@.len() >= old(code).labels@.len(),
                code.labels@.subrange(0, old(code).labels@.len() as int) == old(code).labels@,
                labels_in_code(code.labels@, code.code@.len() as int),
                forall|j: int|
                    0 <= j < k ==> match #[trigger] body@[j] {
                        IrCp::Label(l) => l is Indirect || label_registered(code.labels@, l),
                        _ => true,
                    },
                k > 0 ==> entry_registered(code.labels@, index),
                k > 0 ==> (match body@[0] {
                    IrCp::Label(IrLabel::ExportedFunc(fi, n)) => crate::codegen::export_registered(
                        code.labels@,
                        fi,
                        n@,
                    ),
                    _ => true,
                }),
                forall|j: int|
                    0 <= j < jmp_targets@.len() ==> {
                        &&& target_resolved(
                            body@,
                            jmp_kind_label((#[trigger] jmp_targets@[j]).1),
                        )
                        &&& old(code).code@.len() <= jmp_targets@[j].0
                        &&& jmp_targets@[j].0 + 4 <= code.code@.len()
                    },
                forall|j: int, j2: int|
                    0 <= j < j2 < jmp_targets@.len() ==> (#[trigger] jmp_targets@[j]).0 + 4 <= (
                    #[trigger] jmp_targets@[j2]).0,
                link_targets_ok(self.call_targets@, funcs@),
                link_targets_ok(self.abs_off_targets@, funcs@),
                forall|j: int|
                    0 <= j < self.call_targets@.len() ==> (
                    #[trigger] self.call_targets@[j]).offset + 4 <= code.code@.len(),
                forall|j: int|
                    0 <= j < self.abs_off_targets@.len() ==> (
                    #[trigger] self.abs_off_targets@[j]).offset + 8 <= code.code@.len(),
                self.call_targets@.len() >= old(self).call_targets@.len(),
                forall|j: int|
                    0 <= j < old(self).call_targets@.len() ==> #[trigger] self.call_targets@[j]
                        == old(self).call_targets@[j],
                self.abs_off_targets@.len() >= old(self).abs_off_targets@.len(),
                forall|j: int|
                    0 <= j < old(self).abs_off_targets@.len() ==> #[trigger] self.abs_off_targets@[
                        j] == old(self).abs_off_targets@[j],
                crate::codegen::sites_disjoint(self.call_targets@, self.abs_off_targets@),
                forall|j: int|
                    old(self).call_targets@.len() <= j < self.call_targets@.len() ==> old(
                        code,
                    ).code@.len() <= (#[trigger] self.call_targets@[j]).offset as int,
                forall|j: int|
                    old(self).abs_off_targets@.len() <= j < self.abs_off_targets@.len() ==> old(
                        code,
                    ).code@.len() <= (#[trigger] self.abs_off_targets@[j]).offset as int,
                relocs_partial(code.relocs@, code.labels@, body@),
            decreases ops@.len() - k,
        {
            let ghost pre_labels = code.labels@;
            let ghost pre_calls = self.call_targets@;
            let ghost pre_abss = self.abs_off_targets@;
            let ghost pre_jmps = jmp_targets@;
            let ghost pre_len = code.code@.len() as int;
            let insn = &ops[k];
            proof {
                assert(body@[k as int] == ops@[k as int]);
            }
            let res = compile_one_op(
                code,
                insn,
                self_signature,
                signatures,
                import_addrs,
                offset_map,
                &mut self.call_targets,
                &mut self.abs_off_targets,
                &mut jmp_targets,
                index,
                k == 0,
                funcs,
                Ghost(body@),
                Ghost(k as int),
                Ghost(old(code).code@.len() as int),
            );
            match res {
                Ok(()) => (),
                Err(e) => {
                    return Err(e);
                },
            }
            proof {
                assert(code.labels@.subrange(0, old(code).labels@.len() as int) =~= old(
                    code,
                ).labels@);
                assert(code.relocs@.subrange(0, old(code).relocs@.len() as int) =~= old(
                    code,
                ).relocs@);
                if k > 0 {
                    match body@[0] {
                        IrCp::Label(IrLabel::ExportedFunc(fi, n)) => {
                            crate::codegen::lemma_export_prefix(pre_labels, code.labels@, fi, n@);
                        },
                        _ => {},
                    }
                }
                // any jump site this operation recorded starts past every
                // window already closed, so the windows stay in order
                assert forall|j: int, j2: int|
                    0 <= j < j2 < jmp_targets@.len() implies (#[trigger] jmp_targets@[j]).0 + 4 <= (
                    #[trigger] jmp_targets@[j2]).0 by {
                    if j2 < pre_jmps.len() {
                        assert(jmp_targets@.subrange(0, pre_jmps.len() as int)[j]
                            == pre_jmps[j]);
                        assert(jmp_targets@.subrange(0, pre_jmps.len() as int)[j2]
                            == pre_jmps[j2]);
                    } else {
                        assert(j < pre_jmps.len());
                        assert(jmp_targets@.subrange(0, pre_jmps.len() as int)[j]
                            == pre_jmps[j]);
                        assert(pre_jmps[j].0 + 4 <= pre_len);
                        assert(pre_len <= jmp_targets@[j2].0 as int);
                    }
                }
                // any site this operation recorded starts past every window
                // already closed, so the windows stay pairwise disjoint
                let calls_now = self.call_targets@;
                let abss_now = self.abs_off_targets@;
                assert(calls_now.len() + abss_now.len() <= pre_calls.len() + pre_abss.len() + 1);
                assert forall|j: int, k2: int| 0 <= j < k2 < calls_now.len() implies windows_disjoint(
                    (#[trigger] calls_now[j]).offset as int,
                    4,
                    (#[trigger] calls_now[k2]).offset as int,
                    4,
                ) by {
                    if k2 < pre_calls.len() {
                        assert(calls_now[j] == pre_calls[j]);
                        assert(calls_now[k2] == pre_calls[k2]);
                    } else {
                        assert(j < pre_calls.len());
                        assert(calls_now[j] == pre_calls[j]);
                        assert(pre_calls[j].offset + 4 <= pre_len);
                        assert(pre_len <= calls_now[k2].offset as int);
                    }
                }
                assert forall|j: int, k2: int| 0 <= j < k2 < abss_now.len() implies windows_disjoint(
                    (#[trigger] abss_now[j]).offset as int,
                    8,
                    (#[trigger] abss_now[k2]).offset as int,
                    8,
                ) by {
                    if k2 < pre_abss.len() {
                        assert(abss_now[j] == pre_abss[j]);
                        assert(abss_now[k2] == pre_abss[k2]);
                    } else {
                        assert(j < pre_abss.len());
                        assert(abss_now[j] == pre_abss[j]);
                        assert(pre_abss[j].offset + 8 <= pre_len);
                        assert(pre_len <= abss_now[k2].offset as int);
                    }
                }
                assert forall|j: int, k2: int|
                    0 <= j < calls_now.len() && 0 <= k2 < abss_now.len() implies windows_disjoint(
                    (#[trigger] calls_now[j]).offset as int,
                    4,
                    (#[trigger] abss_now[k2]).offset as int,
                    8,
                ) by {
                    if j < pre_calls.len() && k2 < pre_abss.len() {
                        assert(calls_now[j] == pre_calls[j]);
                        assert(abss_now[k2] == pre_abss[k2]);
                    } else if j >= pre_calls.len() {
                        assert(abss_now.len() == pre_abss.len());
                        assert(abss_now[k2] == pre_abss[k2]);
                        assert(pre_abss[k2].offset + 8 <= pre_len);
                        assert(pre_len <= calls_now[j].offset as int);
                    } else {
                        assert(calls_now[j] == pre_calls[j]);
                        assert(pre_calls[j].offset + 4 <= pre_len);
                        assert(pre_len <= abss_now[k2].offset as int);
                    }
                }
                assert forall|j: int| 0 <= j < k + 1 implies match #[trigger] body@[j] {
                    IrCp::Label(l) => l is Indirect || label_registered(code.labels@, l),
                    _ => true,
                } by {
                    if j < k {
                        match body@[j] {
                            IrCp::Label(l) => {
                                if !(l is Indirect) {
                                    assert(label_registered(pre_labels, l));
                                    assert(label_registered(code.labels@, l));
                                }
                            },
                            _ => {},
                        }
                    }
                }
            }
            k = k + 1;
        }
        if code.pc() > 0x40000000 {
            return Err(too_hard("emitted code too large"));
        }
        // patch the intra-function jumps now that every label of the body
        // has a position
        proof {
            lemma_all_body_labels_registered(body@, code.labels@);
        }
        let ghost pre_patch = code.code@;
        patch_jump_sites(code, &jmp_targets);
        proof {
            // every jump window lies past the code this function was handed,
            // so those bytes are untouched
            assert forall|i: int| 0 <= i < old(code).code@.len() implies #[trigger] code.code@[i]
                == old(code).code@[i] by {
                assert forall|j: int|
                    0 <= j < jmp_targets@.len() implies !((#[trigger] jmp_targets@[j]).0 <= i
                    < jmp_targets@[j].0 + 4) by {
                    assert(old(code).code@.len() <= jmp_targets@[j].0);
                }
                assert(code.code@[i] == pre_patch[i]);
            }
        }
        Ok(())
    }

    fn link(&mut self, code: &mut CodeEmitter) {
        proof {
            assert(self.call_targets@ == old(self).call_sites());
            assert(self.abs_off_targets@ == old(self).abs_sites());
        }
        let ghost calls = self.call_targets@;
        let ghost abss = self.abs_off_targets@;
        let mut t: usize = 0;
        while t < self.call_targets.len()
            invariant
                t <= calls.len(),
                self.call_targets@ == calls,
                self.abs_off_targets@ == abss,
                code.code@.len() == old(code).code@.len(),
                code.code@.len() <= 0x40000000,
                code.labels == old(code).labels,
                code.relocs == old(code).relocs,
                labels_in_code(code.labels@, code.code@.len() as int),
                forall|j: int|
                    0 <= j < calls.len() ==> {
                        &&& entry_registered(code.labels@, (#[trigger] calls[j]).func_index)
                        &&& calls[j].offset + 4 <= code.code@.len()
                    },
                forall|j: int|
                    0 <= j < abss.len() ==> {
                        &&& entry_registered(code.labels@, (#[trigger] abss[j]).func_index)
                        &&& abss[j].offset + 8 <= code.code@.len()
                    },
                forall|i: int|
                    0 <= i < code.code@.len() && (forall|k: int|
                        0 <= k < t ==> !((#[trigger] calls[k]).offset <= i < calls[k].offset + 4))
                        ==> code.code@[i] == old(code).code@[i],
                forall|k: int|
                    0 <= k < t && (forall|k2: int|
                        k < k2 < t ==> windows_disjoint(
                            calls[k].offset as int,
                            4,
                            (#[trigger] calls[k2]).offset as int,
                            4,
                        )) ==> call_site_patched(code.code@, code.labels@, #[trigger] calls[k]),
            decreases calls.len() - t,
        {
            let ghost pre_code = code.code@;
            let target = self.call_targets[t];
            let func_pc = find_func_pc(&code.labels, target.func_index);
            let disp: i64 = (func_pc as i64) - (target.offset as i64 + 4);
            code.patch32_le(target.offset, disp as i32);
            proof {
                // the freshly patched window holds the displacement to a
                // registered entry of the named function
                let q = choose|q: int|
                    0 <= q < code.labels@.len() && (#[trigger] code.labels@[q]).0.func_index_spec()
                        == Some(target.func_index) && code.labels@[q].1 == func_pc;
                assert(code.code@.subrange(target.offset as int, target.offset + 4)
                    == vstd::bytes::spec_u32_to_le_bytes(
                    (((code.labels@[q].1 - (target.offset + 4)) as i32) as u32),
                ));
                assert(call_site_patched(code.code@, code.labels@, calls[t as int]));
                // windows no later patch in this pass disturbs keep their bytes
                assert forall|k: int|
                    0 <= k < t + 1 && (forall|k2: int|
                        k < k2 < t + 1 ==> windows_disjoint(
                            calls[k].offset as int,
                            4,
                            (#[trigger] calls[k2]).offset as int,
                            4,
                        )) implies call_site_patched(
                    code.code@,
                    code.labels@,
                    #[trigger] calls[k],
                ) by {
                    if k < t {
                        assert(windows_disjoint(
                            calls[k].offset as int,
                            4,
                            calls[t as int].offset as int,
                            4,
                        ));
                        assert(call_site_patched(pre_code, code.labels@, calls[k]));
                        let q2 = choose|q2: int|
                            0 <= q2 < code.labels@.len() && (
                            #[trigger] code.labels@[q2]).0.func_index_spec() == Some(
                                calls[k].func_index,
                            ) && pre_code.subrange(calls[k].offset as int, calls[k].offset + 4)
                                == vstd::bytes::spec_u32_to_le_bytes(
                                (((code.labels@[q2].1 - (calls[k].offset + 4)) as i32) as u32),
                            );
                        lemma_window_preserved(
                            pre_code,
                            code.code@,
                            calls[k].offset as int,
                            4,
                            calls[t as int].offset as int,
                            4,
                        );
                    }
                }
            }
            t = t + 1;
        }
        let ghost mid_code = code.code@;
        let mut t: usize = 0;
        while t < self.abs_off_targets.len()
            invariant
                t <= abss.len(),
                self.call_targets@ == calls,
                self.abs_off_targets@ == abss,
                code.code@.len() == old(code).code@.len(),
                code.code@.len() <= 0x40000000,
                code.labels == old(code).labels,
                code.relocs == old(code).relocs,
                labels_in_code(code.labels@, code.code@.len() as int),
                mid_code.len() == code.code@.len(),
                forall|j: int|
                    0 <= j < calls.len() ==> (#[trigger] calls[j]).offset + 4
                        <= code.code@.len(),
                forall|j: int|
                    0 <= j < abss.len() ==> {
                        &&& entry_registered(code.labels@, (#[trigger] abss[j]).func_index)
                        &&& abss[j].offset + 8 <= code.code@.len()
                    },
                forall|i: int|
                    0 <= i < code.code@.len() && (forall|k: int|
                        0 <= k < t ==> !((#[trigger] abss[k]).offset <= i < abss[k].offset + 8))
                        ==> code.code@[i] == mid_code[i],
                forall|i: int|
                    0 <= i < code.code@.len() && (forall|k: int|
                        0 <= k < calls.len() ==> !((#[trigger] calls[k]).offset <= i < calls[k].offset
                            + 4)) ==> mid_code[i] == old(code).code@[i],
                forall|k: int|
                    0 <= k < calls.len() && (forall|k2: int|
                        k < k2 < calls.len() ==> windows_disjoint(
                            calls[k].offset as int,
                            4,
                            (#[trigger] calls[k2]).offset as int,
                            4,
                        )) ==> call_site_patched(mid_code, code.labels@, #[trigger] calls[k]),
                forall|k: int|
                    0 <= k < calls.len() && call_site_undisturbed(k, calls, abss.take(t as int))
                        ==> call_site_patched(code.code@, code.labels@, #[trigger] calls[k]),
                forall|k: int|
                    0 <= k < t && (forall|k2: int|
                        k < k2 < t ==> windows_disjoint(
                            abss[k].offset as int,
                            8,
                            (#[trigger] abss[k2]).offset as int,
                            8,
                        )) ==> abs_site_patched(code.code@, code.labels@, #[trigger] abss[k]),
            decreases abss.len() - t,
        {
            let ghost pre_code = code.code@;
            let target = self.abs_off_targets[t];
            let func_pc = find_func_pc(&code.labels, target.func_index);
            code.patch64_le(target.offset, func_pc as i64);
            proof {
                let q = choose|q: int|
                    0 <= q < code.labels@.len() && (#[trigger] code.labels@[q]).0.func_index_spec()
                        == Some(target.func_index) && code.labels@[q].1 == func_pc;
                assert(code.code@.subrange(target.offset as int, target.offset + 8)
                    == vstd::bytes::spec_u64_to_le_bytes(code.labels@[q].1 as u64));
                assert(abs_site_patched(code.code@, code.labels@, abss[t as int]));
                assert(abss.take(t + 1).len() == t + 1);
                assert forall|k: int|
                    0 <= k < calls.len() && call_site_undisturbed(
                        k,
                        calls,
                        abss.take(t + 1),
                    ) implies call_site_patched(code.code@, code.labels@, #[trigger] calls[k]) by {
                    assert(call_site_undisturbed(k, calls, abss.take(t as int))) by {
                        assert forall|k2: int|
                            0 <= k2 < abss.take(t as int).len() implies windows_disjoint(
                            calls[k].offset as int,
                            4,
                            (#[trigger] abss.take(t as int)[k2]).offset as int,
                            8,
                        ) by {
                            assert(abss.take(t + 1)[k2] == abss.take(t as int)[k2]);
                        }
                    }
                    assert(abss.take(t + 1)[t as int] == abss[t as int]);
                    assert(windows_disjoint(
                        calls[k].offset as int,
                        4,
                        abss[t as int].offset as int,
                        8,
                    ));
                    let q2 = choose|q2: int|
                        0 <= q2 < code.labels@.len() && (
                        #[trigger] code.labels@[q2]).0.func_index_spec() == Some(
                            calls[k].func_index,
                        ) && pre_code.subrange(calls[k].offset as int, calls[k].offset + 4)
                            == vstd::bytes::spec_u32_to_le_bytes(
                            (((code.labels@[q2].1 - (calls[k].offset + 4)) as i32) as u32),
                        );
                    lemma_window_preserved(
                        pre_code,
                        code.code@,
                        calls[k].offset as int,
                        4,
                        abss[t as int].offset as int,
                        8,
                    );
                }
                assert forall|k: int|
                    0 <= k < t + 1 && (forall|k2: int|
                        k < k2 < t + 1 ==> windows_disjoint(
                            abss[k].offset as int,
                            8,
                            (#[trigger] abss[k2]).offset as int,
                            8,
                        )) implies abs_site_patched(
                    code.code@,
                    code.labels@,
                    #[trigger] abss[k],
                ) by {
                    if k < t {
                        assert(windows_disjoint(
                            abss[k].offset as int,
                            8,
                            abss[t as int].offset as int,
                            8,
                        ));
                        assert(abs_site_patched(pre_code, code.labels@, abss[k]));
                        let q2 = choose|q2: int|
                            0 <= q2 < code.labels@.len() && (
                            #[trigger] code.labels@[q2]).0.func_index_spec() == Some(
                                abss[k].func_index,
                            ) && pre_code.subrange(abss[k].offset as int, abss[k].offset + 8)
                                == vstd::bytes::spec_u64_to_le_bytes(code.labels@[q2].1 as u64);
                        lemma_window_preserved(
                            pre_code,
                            code.code@,
                            abss[k].offset as int,
                            8,
                            abss[t as int].offset as int,
                            8,
                        );
                    }
                }
            }
            t = t + 1;
        }
        proof {
            assert(abss.take(abss.len() as int) =~= abss);
        }
    }
}

} // verus!
