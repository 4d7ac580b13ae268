//! The intermediate representation: a linear sequence of register-style
//! operations per function, produced by the translator and consumed by the
//! code generator.

use vstd::prelude::*;

verus! {

/// The registers the IR knows. `Sra`, `Src` and `Srd` are the three scratch
/// registers every operation may clobber; `Ffp` is the function frame base,
/// `Bfp` the current block frame base, `Stp` the stack pointer.
#[derive(Debug, Clone, Copy, PartialEq, Eq, Structural)]
pub enum IrReg {
    Sra,
    Src,
    Srd,
    Bfp,
    Ffp,
    Stp,
}

/// An operand: a full or size-narrowed register view, a memory cell addressed
/// off the linear-memory base by a register plus displacement, an immediate,
/// a function-local slot or a module global.
#[derive(Debug, Clone, Copy, PartialEq, Eq, Structural)]
pub enum IrOperand {
    Reg(IrReg),
    Reg8(IrReg),
    Reg16(IrReg),
    Reg32(IrReg),
    Memory8(i32, IrReg),
    Memory16(i32, IrReg),
    Memory32(i32, IrReg),
    Memory64(i32, IrReg),
    Imm32(i32),
    Imm64(i64),
    Local(u32),
    Global(u32),
}

/// A condition over the flags set by the latest `Compare` or `CheckIfZero`.
#[derive(Debug, Clone, Copy, PartialEq, Eq, Structural)]
pub enum IrCond {
    Zero,
    Equal,
    NotEqual,
    LessSigned,
    LessUnsigned,
    GreaterSigned,
    GreaterUnsigned,
    LessOrEqualSigned,
    LessOrEqualUnsigned,
    GreaterOrEqualSigned,
    GreaterOrEqualUnsigned,
}

/// The number of parameter and result slots of a function. Every value is a
/// 64-bit slot, so counts are all the generator needs.
#[derive(Debug, Clone, Copy, PartialEq, Eq, Structural)]
pub struct IrSignature {
    pub params: u32,
    pub results: u32,
}

/// A symbolic code location. Functions defined in the module are labeled
/// `AnonymousFunc` or, when exported under a name, `ExportedFunc`; imports
/// are `ImportedFunc` and carry the index into the side table of resolved
/// host addresses. `BranchTarget` and `LocalLabel` are intra-function
/// targets made unique by monotonic counters. `Indirect` is a call through
/// a table; the signature travels with it so the generator can build the
/// right frame.
#[derive(Debug, Clone)]
pub enum IrLabel {
    ExportedFunc(u32, String),
    AnonymousFunc(u32),
    ImportedFunc(u32),
    BranchTarget(u64),
    LocalLabel(u32),
    Indirect(u32, IrOperand, IrSignature),
}

impl IrLabel {
    /// The function index, for the three function-entry label forms.
    pub open spec fn func_index_spec(&self) -> Option<u32> {
        match self {
            IrLabel::ExportedFunc(i, _) => Some(*i),
            IrLabel::AnonymousFunc(i) => Some(*i),
            IrLabel::ImportedFunc(i) => Some(*i),
            _ => None,
        }
    }

    /// True when two labels name the same code location.
    pub open spec fn same_target(&self, other: &IrLabel) -> bool {
        match (self, other) {
            (IrLabel::ExportedFunc(a, _), IrLabel::ExportedFunc(b, _)) => a == b,
            (IrLabel::AnonymousFunc(a), IrLabel::AnonymousFunc(b)) => a == b,
            (IrLabel::ImportedFunc(a), IrLabel::ImportedFunc(b)) => a == b,
            (IrLabel::BranchTarget(a), IrLabel::BranchTarget(b)) => a == b,
            (IrLabel::LocalLabel(a), IrLabel::LocalLabel(b)) => a == b,
            _ => false,
        }
    }

    /// Decides `same_target`, the equality the label map is keyed by.
    pub fn matches(&self, other: &IrLabel) -> (r: bool)
        ensures
            r == self.same_target(other),
    {
        match (self, other) {
            (IrLabel::ExportedFunc(a, _), IrLabel::ExportedFunc(b, _)) => a == b,
            (IrLabel::AnonymousFunc(a), IrLabel::AnonymousFunc(b)) => a == b,
            (IrLabel::ImportedFunc(a), IrLabel::ImportedFunc(b)) => a == b,
            (IrLabel::BranchTarget(a), IrLabel::BranchTarget(b)) => a == b,
            (IrLabel::LocalLabel(a), IrLabel::LocalLabel(b)) => a == b,
            _ => false,
        }
    }
}

/// One IR operation. `Preamble`/`Postamble` save and restore what the
/// machine-level calling convention needs around a function; `InitLocals`
/// fetches the parameters into the frame and zero-initializes the declared
/// locals; the rest mirror the Wasm operations one small step at a time.
#[derive(Debug, Clone)]
pub enum IrCp {
    Label(IrLabel),
    Preamble,
    InitLocals(u32),
    InitTablePreamble(IrOperand),
    InitTableElement(IrOperand),
    InitTablePostamble,
    InitMemoryFromChunk(u32, u32, IrOperand),
    Push(IrOperand),
    Pop(IrOperand),
    Move(IrOperand, IrOperand),
    MoveIf(IrCond, IrOperand, IrOperand),
    ZeroExtend(IrOperand),
    SignExtend(IrOperand),
    Compare(IrOperand, IrOperand),
    SetIf(IrCond, IrOperand),
    CheckIfZero(IrOperand),
    Select(IrOperand, IrOperand, IrOperand, IrOperand),
    Add(IrOperand, IrOperand),
    Subtract(IrOperand, IrOperand),
    Multiply(IrOperand, IrOperand),
    DivideUnsigned(IrOperand, IrOperand),
    DivideSigned(IrOperand, IrOperand),
    RemainderUnsigned(IrOperand, IrOperand),
    RemainderSigned(IrOperand, IrOperand),
    And(IrOperand, IrOperand),
    Or(IrOperand, IrOperand),
    Xor(IrOperand, IrOperand),
    ShiftLeft(IrOperand, IrOperand),
    ShiftRightUnsigned(IrOperand, IrOperand),
    ShiftRightSigned(IrOperand, IrOperand),
    RotateLeft(IrOperand, IrOperand),
    RotateRight(IrOperand, IrOperand),
    LeadingZeroes(IrOperand),
    TrailingZeroes(IrOperand),
    BitPopulationCount(IrOperand),
    Jump(IrLabel),
    JumpIf(IrCond, IrLabel),
    JumpTable(IrOperand, Vec<IrLabel>),
    Call(IrLabel),
    MemoryGrow(IrOperand),
    MemorySize(IrOperand),
    Postamble,
    Return,
    Trap,
}

/// The body of one function: an ordered sequence of IR operations.
#[derive(Debug, Clone)]
pub struct Ir {
    pub ops: Vec<IrCp>,
}

impl View for Ir {
    type V = Seq<IrCp>;

    open spec fn view(&self) -> Seq<IrCp> {
        self.ops@
    }
}

impl Ir {
    pub fn new() -> (r: Self)
        ensures
            r@ == Seq::<IrCp>::empty(),
    {
        Ir { ops: Vec::new() }
    }

    pub fn code(&self) -> (r: &Vec<IrCp>)
        ensures
            r@ == self@,
    {
        &self.ops
    }

    /// Splices `other`'s operations onto the end of `self`, draining `other`.
    pub fn append(&mut self, other: &mut Ir)
        ensures
            final(self)@ == old(self)@ + old(other)@,
            final(other)@ == Seq::<IrCp>::empty(),
    {
        self.ops.append(&mut other.ops);
    }

    pub fn label(&mut self, l: IrLabel)
        ensures
            final(self)@ == old(self)@.push(IrCp::Label(l)),
    {
        self.ops.push(IrCp::Label(l));
    }

    pub fn preamble(&mut self)
        ensures
            final(self)@ == old(self)@.push(IrCp::Preamble),
    {
        self.ops.push(IrCp::Preamble);
    }

    pub fn init_locals(&mut self, n_locals: u32)
        ensures
            final(self)@ == old(self)@.push(IrCp::InitLocals(n_locals)),
    {
        self.ops.push(IrCp::InitLocals(n_locals));
    }

    pub fn init_table_preamble(&mut self, offset_reg: IrOperand)
        ensures
            final(self)@ == old(self)@.push(IrCp::InitTablePreamble(offset_reg)),
    {
        self.ops.push(IrCp::InitTablePreamble(offset_reg));
    }

    pub fn init_table_element(&mut self, element: IrOperand)
        ensures
            final(self)@ == old(self)@.push(IrCp::InitTableElement(element)),
    {
        self.ops.push(IrCp::InitTableElement(element));
    }

    pub fn init_table_postamble(&mut self)
        ensures
            final(self)@ == old(self)@.push(IrCp::InitTablePostamble),
    {
        self.ops.push(IrCp::InitTablePostamble);
    }

    pub fn init_memory_from_chunk(&mut self, chunk_idx: u32, chunk_len: u32, offset_reg: IrOperand)
        ensures
            final(self)@ == old(self)@.push(
                IrCp::InitMemoryFromChunk(chunk_idx, chunk_len, offset_reg),
            ),
    {
        self.ops.push(IrCp::InitMemoryFromChunk(chunk_idx, chunk_len, offset_reg));
    }

    pub fn push(&mut self, src: IrOperand)
        ensures
            final(self)@ == old(self)@.push(IrCp::Push(src)),
    {
        self.ops.push(IrCp::Push(src));
    }

    pub fn pop(&mut self, dest: IrOperand)
        ensures
            final(self)@ == old(self)@.push(IrCp::Pop(dest)),
    {
        self.ops.push(IrCp::Pop(dest));
    }

    pub fn mov(&mut self, dest: IrOperand, src: IrOperand)
        ensures
            final(self)@ == old(self)@.push(IrCp::Move(dest, src)),
    {
        self.ops.push(IrCp::Move(dest, src));
    }

    pub fn move_if(&mut self, cond: IrCond, dest: IrOperand, src: IrOperand)
        ensures
            final(self)@ == old(self)@.push(IrCp::MoveIf(cond, dest, src)),
    {
        self.ops.push(IrCp::MoveIf(cond, dest, src));
    }

    pub fn zero_extend(&mut self, src: IrOperand)
        ensures
            final(self)@ == old(self)@.push(IrCp::ZeroExtend(src)),
    {
        self.ops.push(IrCp::ZeroExtend(src));
    }

    pub fn sign_extend(&mut self, src: IrOperand)
        ensures
            final(self)@ == old(self)@.push(IrCp::SignExtend(src)),
    {
        self.ops.push(IrCp::SignExtend(src));
    }

    pub fn add(&mut self, dest: IrOperand, src: IrOperand)
        ensures
            final(self)@ == old(self)@.push(IrCp::Add(dest, src)),
    {
        self.ops.push(IrCp::Add(dest, src));
    }

    pub fn subtract(&mut self, dest: IrOperand, src: IrOperand)
        ensures
            final(self)@ == old(self)@.push(IrCp::Subtract(dest, src)),
    {
        self.ops.push(IrCp::Subtract(dest, src));
    }

    pub fn multiply(&mut self, dest: IrOperand, src: IrOperand)
        ensures
            final(self)@ == old(self)@.push(IrCp::Multiply(dest, src)),
    {
        self.ops.push(IrCp::Multiply(dest, src));
    }

    pub fn divide_unsigned(&mut self, dest: IrOperand, src: IrOperand)
        ensures
            final(self)@ == old(self)@.push(IrCp::DivideUnsigned(dest, src)),
    {
        self.ops.push(IrCp::DivideUnsigned(dest, src));
    }

    pub fn divide_signed(&mut self, dest: IrOperand, src: IrOperand)
        ensures
            final(self)@ == old(self)@.push(IrCp::DivideSigned(dest, src)),
    {
        self.ops.push(IrCp::DivideSigned(dest, src));
    }

    pub fn remainder_unsigned(&mut self, dest: IrOperand, src: IrOperand)
        ensures
            final(self)@ == old(self)@.push(IrCp::RemainderUnsigned(dest, src)),
    {
        self.ops.push(IrCp::RemainderUnsigned(dest, src));
    }

    pub fn remainder_signed(&mut self, dest: IrOperand, src: IrOperand)
        ensures
            final(self)@ == old(self)@.push(IrCp::RemainderSigned(dest, src)),
    {
        self.ops.push(IrCp::RemainderSigned(dest, src));
    }

    pub fn compare(&mut self, dest: IrOperand, src: IrOperand)
        ensures
            final(self)@ == old(self)@.push(IrCp::Compare(dest, src)),
    {
        self.ops.push(IrCp::Compare(dest, src));
    }

    pub fn set_if(&mut self, cond: IrCond, dest: IrOperand)
        ensures
            final(self)@ == old(self)@.push(IrCp::SetIf(cond, dest)),
    {
        self.ops.push(IrCp::SetIf(cond, dest));
    }

    pub fn check_if_zero(&mut self, op: IrOperand)
        ensures
            final(self)@ == old(self)@.push(IrCp::CheckIfZero(op)),
    {
        self.ops.push(IrCp::CheckIfZero(op));
    }

    pub fn select(
        &mut self,
        check: IrOperand,
        if_zero: IrOperand,
        if_not_zero: IrOperand,
        result: IrOperand,
    )
        ensures
            final(self)@ == old(self)@.push(IrCp::Select(check, if_zero, if_not_zero, result)),
    {
        self.ops.push(IrCp::Select(check, if_zero, if_not_zero, result));
    }

    pub fn and(&mut self, dest: IrOperand, src: IrOperand)
        ensures
            final(self)@ == old(self)@.push(IrCp::And(dest, src)),
    {
        self.ops.push(IrCp::And(dest, src));
    }

    pub fn or(&mut self, dest: IrOperand, src: IrOperand)
        ensures
            final(self)@ == old(self)@.push(IrCp::Or(dest, src)),
    {
        self.ops.push(IrCp::Or(dest, src));
    }

    pub fn xor(&mut self, dest: IrOperand, src: IrOperand)
        ensures
            final(self)@ == old(self)@.push(IrCp::Xor(dest, src)),
    {
        self.ops.push(IrCp::Xor(dest, src));
    }

    pub fn shift_left(&mut self, dest: IrOperand, cnt: IrOperand)
        ensures
            final(self)@ == old(self)@.push(IrCp::ShiftLeft(dest, cnt)),
    {
        self.ops.push(IrCp::ShiftLeft(dest, cnt));
    }

    pub fn shift_right_unsigned(&mut self, dest: IrOperand, cnt: IrOperand)
        ensures
            final(self)@ == old(self)@.push(IrCp::ShiftRightUnsigned(dest, cnt)),
    {
        self.ops.push(IrCp::ShiftRightUnsigned(dest, cnt));
    }

    pub fn shift_right_signed(&mut self, dest: IrOperand, cnt: IrOperand)
        ensures
            final(self)@ == old(self)@.push(IrCp::ShiftRightSigned(dest, cnt)),
    {
        self.ops.push(IrCp::ShiftRightSigned(dest, cnt));
    }

    pub fn rotate_left(&mut self, dest: IrOperand, cnt: IrOperand)
        ensures
            final(self)@ == old(self)@.push(IrCp::RotateLeft(dest, cnt)),
    {
        self.ops.push(IrCp::RotateLeft(dest, cnt));
    }

    pub fn rotate_right(&mut self, dest: IrOperand, cnt: IrOperand)
        ensures
            final(self)@ == old(self)@.push(IrCp::RotateRight(dest, cnt)),
    {
        self.ops.push(IrCp::RotateRight(dest, cnt));
    }

    pub fn leading_zeroes(&mut self, src: IrOperand)
        ensures
            final(self)@ == old(self)@.push(IrCp::LeadingZeroes(src)),
    {
        self.ops.push(IrCp::LeadingZeroes(src));
    }

    pub fn trailing_zeroes(&mut self, src: IrOperand)
        ensures
            final(self)@ == old(self)@.push(IrCp::TrailingZeroes(src)),
    {
        self.ops.push(IrCp::TrailingZeroes(src));
    }

    pub fn bit_population_count(&mut self, src: IrOperand)
        ensures
            final(self)@ == old(self)@.push(IrCp::BitPopulationCount(src)),
    {
        self.ops.push(IrCp::BitPopulationCount(src));
    }

    pub fn jump(&mut self, target: IrLabel)
        ensures
            final(self)@ == old(self)@.push(IrCp::Jump(target)),
    {
        self.ops.push(IrCp::Jump(target));
    }

    pub fn jump_if(&mut self, cond: IrCond, target: IrLabel)
        ensures
            final(self)@ == old(self)@.push(IrCp::JumpIf(cond, target)),
    {
        self.ops.push(IrCp::JumpIf(cond, target));
    }

    pub fn jump_table(&mut self, index: IrOperand, targets: Vec<IrLabel>)
        ensures
            final(self)@ == old(self)@.push(IrCp::JumpTable(index, targets)),
    {
        self.ops.push(IrCp::JumpTable(index, targets));
    }

    pub fn call(&mut self, target: IrLabel)
        ensures
            final(self)@ == old(self)@.push(IrCp::Call(target)),
    {
        self.ops.push(IrCp::Call(target));
    }

    pub fn memory_grow(&mut self, pages: IrOperand)
        ensures
            final(self)@ == old(self)@.push(IrCp::MemoryGrow(pages)),
    {
        self.ops.push(IrCp::MemoryGrow(pages));
    }

    pub fn memory_size(&mut self, dest: IrOperand)
        ensures
            final(self)@ == old(self)@.push(IrCp::MemorySize(dest)),
    {
        self.ops.push(IrCp::MemorySize(dest));
    }

    pub fn trap(&mut self)
        ensures
            final(self)@ == old(self)@.push(IrCp::Trap),
    {
        self.ops.push(IrCp::Trap);
    }

    pub fn postamble(&mut self)
        ensures
            final(self)@ == old(self)@.push(IrCp::Postamble),
    {
        self.ops.push(IrCp::Postamble);
    }

    pub fn ret(&mut self)
        ensures
            final(self)@ == old(self)@.push(IrCp::Return),
    {
        self.ops.push(IrCp::Return);
    }
}

/// A function slot of the module: either an import, holding the index into
/// the side table of resolved host addresses, or a body of IR.
#[derive(Debug, Clone)]
pub enum IrFunc {
    Import(u64),
    Function(Ir),
}

/// A table of function references, by its maximum element count. An imported
/// table carries the resolved host address of its storage; the translator
/// does not produce imports yet.
#[derive(Debug, Clone)]
pub enum IrTable {
    Import(u64),
    Table(u32),
}

// They are called "data segments" in the Wasm spec. "Data chunk" is used
// throughout to avoid confusion with the data segment of the OS process.
#[derive(Debug, Clone)]
pub struct IrDataChunk {
    pub data: Vec<u8>,
}

impl IrDataChunk {
    pub fn data_len(&self) -> (r: usize)
        ensures
            r == self.data@.len(),
    {
        self.data.len()
    }
}

/// What the module declares, summarized for the generator.
#[derive(Debug, Clone)]
pub struct IrHints {
    pub has_globals: bool,
    pub has_memory: bool,
    pub has_tables: bool,
}

impl Default for IrHints {
    fn default() -> (r: Self)
        ensures
            !r.has_globals && !r.has_memory && !r.has_tables,
    {
        IrHints { has_globals: false, has_memory: false, has_tables: false }
    }
}

/// The compiled-from-Wasm module in IR form: one optional function per slot
/// (imports hold a host-address index), a parallel list of signatures, the
/// memory limits in pages, the tables, and the raw data chunks.
#[derive(Debug)]
pub struct IrPvf {
    pub hints: IrHints,
    pub funcs: Vec<Option<IrFunc>>,
    pub signatures: Vec<Option<IrSignature>>,
    pub memory: (u32, u32),
    pub tables: Vec<IrTable>,
    pub data_chunks: Vec<IrDataChunk>,
}

impl IrPvf {
    pub fn new() -> (r: Self)
        ensures
            r.funcs@.len() == 0,
            r.signatures@.len() == 0,
            r.tables@.len() == 0,
            r.data_chunks@.len() == 0,
            r.memory == (0u32, 0u32),
    {
        IrPvf {
            hints: IrHints::default(),
            funcs: Vec::new(),
            signatures: Vec::new(),
            memory: (0, 0),
            tables: Vec::new(),
            data_chunks: Vec::new(),
        }
    }

    /// Grows the function and signature lists so that `index` is a valid slot.
    pub fn ensure_func_vec_size(&mut self, index: u32)
        requires
            old(self).funcs@.len() == old(self).signatures@.len(),
        ensures
            final(self).funcs@.len() == final(self).signatures@.len(),
            final(self).funcs@.len() > index,
            final(self).funcs@.len() >= old(self).funcs@.len(),
            forall|i: int|
                0 <= i < old(self).funcs@.len() ==> final(self).funcs@[i] == old(self).funcs@[i]
                    && final(self).signatures@[i] == old(self).signatures@[i],
            forall|i: int|
                old(self).funcs@.len() <= i < final(self).funcs@.len() ==> final(self).funcs@[i]
                    is None && final(self).signatures@[i] is None,
            final(self).tables == old(self).tables,
            final(self).data_chunks == old(self).data_chunks,
            final(self).memory == old(self).memory,
            final(self).hints == old(self).hints,
    {
        while self.funcs.len() <= index as usize
            invariant
                self.funcs@.len() == self.signatures@.len(),
                self.funcs@.len() >= old(self).funcs@.len(),
                forall|i: int|
                    0 <= i < old(self).funcs@.len() ==> self.funcs@[i] == old(self).funcs@[i]
                        && self.signatures@[i] == old(self).signatures@[i],
                forall|i: int|
                    old(self).funcs@.len() <= i < self.funcs@.len() ==> self.funcs@[i] is None
                        && self.signatures@[i] is None,
                self.tables == old(self).tables,
                self.data_chunks == old(self).data_chunks,
                self.memory == old(self).memory,
                self.hints == old(self).hints,
            decreases index as int + 1 - self.funcs@.len(),
        {
            self.funcs.push(None);
            self.signatures.push(None);
        }
    }

    /// Installs a compiled body and its signature at function slot `index`.
    pub fn add_func(&mut self, index: u32, body: Ir, signature: IrSignature)
        requires
            old(self).funcs@.len() == old(self).signatures@.len(),
        ensures
            final(self).funcs@.len() == final(self).signatures@.len(),
            final(self).funcs@.len() > index,
            final(self).funcs@.len() >= old(self).funcs@.len(),
            final(self).funcs@[index as int] == Some(IrFunc::Function(body)),
            final(self).signatures@[index as int] == Some(signature),
            forall|i: int|
                0 <= i < final(self).funcs@.len() && i != index ==> final(self).funcs@[i] == (
                if i < old(self).funcs@.len() {
                    old(self).funcs@[i]
                } else {
                    None
                }) && final(self).signatures@[i] == (
                if i < old(self).signatures@.len() {
                    old(self).signatures@[i]
                } else {
                    None
                }),
            final(self).tables == old(self).tables,
            final(self).data_chunks == old(self).data_chunks,
            final(self).memory == old(self).memory,
            final(self).hints == old(self).hints,
    {
        self.ensure_func_vec_size(index);
        self.funcs.set(index as usize, Some(IrFunc::Function(body)));
        self.signatures.set(index as usize, Some(signature));
    }

    /// Installs an import at function slot `index`; `addr` is the resolved
    /// host address of the imported function.
    pub fn add_func_import(&mut self, index: u32, addr: u64, signature: IrSignature)
        requires
            old(self).funcs@.len() == old(self).signatures@.len(),
        ensures
            final(self).funcs@.len() == final(self).signatures@.len(),
            final(self).funcs@.len() > index,
            final(self).funcs@.len() >= old(self).funcs@.len(),
            final(self).funcs@[index as int] == Some(IrFunc::Import(addr)),
            final(self).signatures@[index as int] == Some(signature),
            forall|i: int|
                0 <= i < final(self).funcs@.len() && i != index ==> final(self).funcs@[i] == (
                if i < old(self).funcs@.len() {
                    old(self).funcs@[i]
                } else {
                    None
                }) && final(self).signatures@[i] == (
                if i < old(self).signatures@.len() {
                    old(self).signatures@[i]
                } else {
                    None
                }),
            final(self).tables == old(self).tables,
            final(self).data_chunks == old(self).data_chunks,
            final(self).memory == old(self).memory,
            final(self).hints == old(self).hints,
    {
        self.ensure_func_vec_size(index);
        self.funcs.set(index as usize, Some(IrFunc::Import(addr)));
        self.signatures.set(index as usize, Some(signature));
    }

    pub fn add_table(&mut self, max_size: u32)
        ensures
            final(self).tables@ == old(self).tables@.push(IrTable::Table(max_size)),
            final(self).funcs == old(self).funcs,
            final(self).signatures == old(self).signatures,
            final(self).data_chunks == old(self).data_chunks,
            final(self).memory == old(self).memory,
            final(self).hints == old(self).hints,
    {
        self.tables.push(IrTable::Table(max_size));
    }

    pub fn add_data_chunk(&mut self, data: Vec<u8>)
        ensures
            final(self).data_chunks@ == old(self).data_chunks@.push(IrDataChunk { data }),
            final(self).funcs == old(self).funcs,
            final(self).signatures == old(self).signatures,
            final(self).tables == old(self).tables,
            final(self).memory == old(self).memory,
            final(self).hints == old(self).hints,
    {
        self.data_chunks.push(IrDataChunk { data });
    }

    pub fn set_memory(&mut self, min: u32, max: u32)
        ensures
            final(self).memory == (min, max),
            final(self).funcs == old(self).funcs,
            final(self).signatures == old(self).signatures,
            final(self).tables == old(self).tables,
            final(self).data_chunks == old(self).data_chunks,
            final(self).hints == old(self).hints,
    {
        self.memory = (min, max);
    }

    /// Every body the container holds is well-formed against its own tables:
    /// what the translator promises and the code generator relies on.
    pub open spec fn wf(&self) -> bool {
        &&& self.funcs@.len() == self.signatures@.len()
        &&& self.funcs@.len() < 0x10000
        &&& self.tables@.len() < 0x100
        &&& self.data_chunks@.len() < 0x100
        &&& forall|i: int|
            0 <= i < self.tables@.len() ==> match #[trigger] self.tables@[i] {
                IrTable::Table(m) => m <= 0xFFFF,
                IrTable::Import(_) => false,
            }
        &&& forall|i: int|
            0 <= i < self.data_chunks@.len() ==> (#[trigger] self.data_chunks@[i]).data@.len()
                <= 0x400000
        &&& forall|i: int|
            0 <= i < self.funcs@.len() ==> ((#[trigger] self.funcs@[i]) is Some <==> self.signatures@[i] is Some)
        &&& forall|i: int|
            0 <= i < self.signatures@.len() ==> match #[trigger] self.signatures@[i] {
                Some(sig) => sig.params < 16 && sig.results <= 1,
                None => true,
            }
        &&& forall|i: int|
            0 <= i < self.funcs@.len() ==> match #[trigger] self.funcs@[i] {
                Some(IrFunc::Function(ir)) => {
                    &&& func_entry_shaped(ir@, i as u32)
                    &&& branch_closed(ir@)
                    &&& calls_resolvable(ir@, self.funcs@)
                    &&& ops_wf(ir@, self.signatures@, self.tables@.len() as int, self.data_chunks@.len() as int)
                },
                _ => true,
            }
        &&& forall|b: u64| #[trigger] module_branch_defs(self.funcs@, b) <= 1
        &&& forall|id: u32| #[trigger] module_local_defs(self.funcs@, id) <= 1
    }

    pub fn set_hints(&mut self, hints: IrHints)
        ensures
            final(self).hints == hints,
            final(self).funcs == old(self).funcs,
            final(self).signatures == old(self).signatures,
            final(self).tables == old(self).tables,
            final(self).data_chunks == old(self).data_chunks,
            final(self).memory == old(self).memory,
    {
        self.hints = hints;
    }
}

/// A label that names the start of a compiled function body.
pub open spec fn is_entry_label(l: IrLabel) -> bool {
    l is ExportedFunc || l is AnonymousFunc
}

/// How many operations of `ops` are entry labels.
pub open spec fn count_entry_labels(ops: Seq<IrCp>) -> int
    decreases ops.len(),
{
    if ops.len() == 0 {
        0
    } else {
        (match ops[0] {
            IrCp::Label(l) => if is_entry_label(l) {
                1int
            } else {
                0int
            },
            _ => 0int,
        }) + count_entry_labels(ops.skip(1))
    }
}

/// The body starts with its own entry label, and holds no other.
pub open spec fn func_entry_shaped(ops: Seq<IrCp>, index: u32) -> bool {
    &&& ops.len() > 0
    &&& match ops[0] {
        IrCp::Label(l) => is_entry_label(l) && l.func_index_spec() == Some(index),
        _ => false,
    }
    &&& count_entry_labels(ops) == 1
}

/// How many operations of `ops` are `Label(BranchTarget(b))`.
pub open spec fn count_branch_labels(ops: Seq<IrCp>, b: u64) -> int
    decreases ops.len(),
{
    if ops.len() == 0 {
        0
    } else {
        (match ops[0] {
            IrCp::Label(IrLabel::BranchTarget(x)) => if x == b {
                1int
            } else {
                0int
            },
            _ => 0int,
        }) + count_branch_labels(ops.skip(1), b)
    }
}

/// How many operations of `ops` are `Label(LocalLabel(id))`.
pub open spec fn count_local_labels(ops: Seq<IrCp>, id: u32) -> int
    decreases ops.len(),
{
    if ops.len() == 0 {
        0
    } else {
        (match ops[0] {
            IrCp::Label(IrLabel::LocalLabel(x)) => if x == id {
                1int
            } else {
                0int
            },
            _ => 0int,
        }) + count_local_labels(ops.skip(1), id)
    }
}

/// A jump target is resolved when exactly one matching label stands in the
/// same body.
pub open spec fn target_resolved(ops: Seq<IrCp>, l: IrLabel) -> bool {
    match l {
        IrLabel::BranchTarget(b) => count_branch_labels(ops, b) == 1,
        IrLabel::LocalLabel(id) => count_local_labels(ops, id) == 1,
        _ => false,
    }
}

/// Every branch target any jump of `ops` references is defined exactly once
/// within `ops`.
pub open spec fn branch_closed(ops: Seq<IrCp>) -> bool {
    forall|k: int|
        0 <= k < ops.len() ==> match #[trigger] ops[k] {
            IrCp::Jump(l) => target_resolved(ops, l),
            IrCp::JumpIf(_, l) => target_resolved(ops, l),
            IrCp::JumpTable(_, ts) => forall|j: int|
                0 <= j < ts@.len() ==> target_resolved(ops, #[trigger] ts@[j]),
            _ => true,
        }
}

/// Every direct call of `ops` names a function the container defines, every
/// import call an import slot, and every table element a defined function.
pub open spec fn calls_resolvable(ops: Seq<IrCp>, funcs: Seq<Option<IrFunc>>) -> bool {
    forall|k: int|
        0 <= k < ops.len() ==> match #[trigger] ops[k] {
            IrCp::Call(l) => match l {
                IrLabel::ExportedFunc(i, _) => i < funcs.len() && funcs[i as int] matches Some(
                    IrFunc::Function(_),
                ),
                IrLabel::AnonymousFunc(i) => i < funcs.len() && funcs[i as int] matches Some(
                    IrFunc::Function(_),
                ),
                IrLabel::ImportedFunc(i) => i < funcs.len() && funcs[i as int] matches Some(
                    IrFunc::Import(_),
                ),
                IrLabel::Indirect(_, _, _) => true,
                _ => false,
            },
            IrCp::InitTableElement(op) => match op {
                IrOperand::Imm32(fi) => 0 <= fi < funcs.len() && funcs[fi as int] matches Some(
                    IrFunc::Function(_),
                ),
                _ => false,
            },
            _ => true,
        }
}

/// The operand forms the x86-64 lowering accepts, with the bounds that keep
/// its displacement arithmetic inside `i32`.
pub open spec fn cp_wf(
    cp: IrCp,
    sigs: Seq<Option<IrSignature>>,
    n_tables: int,
    n_chunks: int,
) -> bool {
    match cp {
        IrCp::Label(_) => true,
        IrCp::Preamble => true,
        IrCp::InitLocals(n) => n < 0x10000,
        IrCp::InitTablePreamble(off) => (off matches IrOperand::Reg(_)) && n_tables > 0,
        IrCp::InitTableElement(op) => op matches IrOperand::Imm32(_),
        IrCp::InitTablePostamble => true,
        IrCp::InitMemoryFromChunk(idx, _, off) => idx < n_chunks && (off matches IrOperand::Reg(
            _,
        )),
        IrCp::Push(op) => op matches IrOperand::Reg(_),
        IrCp::Pop(op) => op matches IrOperand::Reg(_),
        IrCp::Move(dest, src) => move_wf(dest, src),
        IrCp::MoveIf(_, dest, src) => (dest matches IrOperand::Reg(_) && src matches IrOperand::Reg(
            _,
        )) || (dest matches IrOperand::Reg32(_) && src matches IrOperand::Reg32(_)),
        IrCp::ZeroExtend(op) => op matches IrOperand::Reg8(_) || op matches IrOperand::Reg16(_)
            || op matches IrOperand::Reg32(_),
        IrCp::SignExtend(op) => op matches IrOperand::Reg8(_) || op matches IrOperand::Reg16(_)
            || op matches IrOperand::Reg32(_),
        IrCp::Compare(dest, src) => reg_pair_wf(dest, src),
        IrCp::SetIf(_, dest) => dest matches IrOperand::Reg(_) || dest matches IrOperand::Reg32(_),
        IrCp::CheckIfZero(op) => op matches IrOperand::Reg(_) || op matches IrOperand::Reg32(_),
        IrCp::Select(check, if_zero, if_not_zero, result) => (check matches IrOperand::Reg32(_))
            && (if_zero matches IrOperand::Reg(_)) && (if_not_zero matches IrOperand::Reg(_))
            && result == if_zero,
        IrCp::Add(dest, src) => reg_pair_wf(dest, src),
        IrCp::Subtract(dest, src) => reg_pair_wf(dest, src),
        IrCp::Multiply(dest, src) => reg_pair_wf(dest, src),
        IrCp::DivideUnsigned(dest, src) => div_pair_wf(dest, src),
        IrCp::DivideSigned(dest, src) => div_pair_wf(dest, src),
        IrCp::RemainderUnsigned(dest, src) => div_pair_wf(dest, src),
        IrCp::RemainderSigned(dest, src) => div_pair_wf(dest, src),
        IrCp::And(dest, src) => reg_pair_wf(dest, src),
        IrCp::Or(dest, src) => reg_pair_wf(dest, src),
        IrCp::Xor(dest, src) => reg_pair_wf(dest, src),
        IrCp::ShiftLeft(dest, cnt) => reg_pair_wf(dest, cnt),
        IrCp::ShiftRightUnsigned(dest, cnt) => reg_pair_wf(dest, cnt),
        IrCp::ShiftRightSigned(dest, cnt) => reg_pair_wf(dest, cnt),
        IrCp::RotateLeft(dest, cnt) => reg_pair_wf(dest, cnt),
        IrCp::RotateRight(dest, cnt) => reg_pair_wf(dest, cnt),
        IrCp::LeadingZeroes(op) => op matches IrOperand::Reg(_) || op matches IrOperand::Reg32(_),
        IrCp::TrailingZeroes(op) => op matches IrOperand::Reg(_) || op matches IrOperand::Reg32(_),
        IrCp::BitPopulationCount(op) => op matches IrOperand::Reg(_) || op matches IrOperand::Reg32(
            _,
        ),
        IrCp::Jump(l) => l is BranchTarget || l is LocalLabel,
        IrCp::JumpIf(_, l) => l is BranchTarget || l is LocalLabel,
        IrCp::JumpTable(index, ts) => (index matches IrOperand::Reg32(_)) && ts@.len() < 0x10000
            && (forall|j: int|
            0 <= j < ts@.len() ==> ((#[trigger] ts@[j]) is BranchTarget || ts@[j] is LocalLabel)),
        IrCp::Call(l) => match l {
            IrLabel::ExportedFunc(i, _) => i < sigs.len() && sigs[i as int] is Some,
            IrLabel::AnonymousFunc(i) => i < sigs.len() && sigs[i as int] is Some,
            IrLabel::ImportedFunc(i) => i < sigs.len() && sigs[i as int] is Some,
            IrLabel::Indirect(t, op, sig) => t < n_tables && (op matches IrOperand::Reg32(_))
                && sig.params < 16 && sig.results <= 1,
            _ => false,
        },
        IrCp::MemoryGrow(op) => op matches IrOperand::Reg32(_),
        IrCp::MemorySize(op) => op matches IrOperand::Reg32(_),
        IrCp::Postamble => true,
        IrCp::Return => true,
        IrCp::Trap => true,
    }
}

/// The `Move` operand pairs the lowering knows.
pub open spec fn move_wf(dest: IrOperand, src: IrOperand) -> bool {
    match (dest, src) {
        (IrOperand::Reg(_), IrOperand::Reg(_)) => true,
        (IrOperand::Reg(_), IrOperand::Imm32(_)) => true,
        (IrOperand::Reg32(_), IrOperand::Imm32(_)) => true,
        (IrOperand::Reg(_), IrOperand::Imm64(_)) => true,
        (IrOperand::Reg(_), IrOperand::Local(i)) => i < 0x10010,
        (IrOperand::Local(i), IrOperand::Reg(_)) => i < 0x10010,
        (IrOperand::Reg(_), IrOperand::Global(i)) => i < 0x10000,
        (IrOperand::Global(i), IrOperand::Reg(_)) => i < 0x10000,
        (IrOperand::Memory8(_, _), IrOperand::Reg8(_)) => true,
        (IrOperand::Memory16(_, _), IrOperand::Reg16(_)) => true,
        (IrOperand::Memory32(_, _), IrOperand::Reg32(_)) => true,
        (IrOperand::Memory64(_, _), IrOperand::Reg(_)) => true,
        (IrOperand::Reg8(_), IrOperand::Memory8(_, _)) => true,
        (IrOperand::Reg16(_), IrOperand::Memory16(_, _)) => true,
        (IrOperand::Reg32(_), IrOperand::Memory32(_, _)) => true,
        (IrOperand::Reg(_), IrOperand::Memory64(_, _)) => true,
        _ => false,
    }
}

/// Both operands are full registers, or both are 32-bit register views.
pub open spec fn reg_pair_wf(dest: IrOperand, src: IrOperand) -> bool {
    ||| (dest matches IrOperand::Reg(_) && src matches IrOperand::Reg(_))
    ||| (dest matches IrOperand::Reg32(_) && src matches IrOperand::Reg32(_))
}

/// Division additionally permutes its operands through the three scratches,
/// so both must be scratch registers.
pub open spec fn div_pair_wf(dest: IrOperand, src: IrOperand) -> bool {
    match (dest, src) {
        (IrOperand::Reg(a), IrOperand::Reg(b)) => is_scratch(a) && is_scratch(b) && a != b,
        (IrOperand::Reg32(a), IrOperand::Reg32(b)) => is_scratch(a) && is_scratch(b) && a != b,
        _ => false,
    }
}

pub open spec fn is_scratch(r: IrReg) -> bool {
    r is Sra || r is Src || r is Srd
}

/// Every operation of `ops` is well-formed.
pub open spec fn ops_wf(
    ops: Seq<IrCp>,
    sigs: Seq<Option<IrSignature>>,
    n_tables: int,
    n_chunks: int,
) -> bool {
    forall|k: int| 0 <= k < ops.len() ==> cp_wf(#[trigger] ops[k], sigs, n_tables, n_chunks)
}

/// How many entries of a list of branch-target ids equal `b`.
pub open spec fn count_in64(s: Seq<u64>, b: u64) -> int
    decreases s.len(),
{
    if s.len() == 0 {
        0
    } else {
        count_in64(s.drop_last(), b) + (if s.last() == b {
            1int
        } else {
            0int
        })
    }
}

/// How many entries of a list of local-label ids equal `id`.
pub open spec fn count_in32(s: Seq<u32>, id: u32) -> int
    decreases s.len(),
{
    if s.len() == 0 {
        0
    } else {
        count_in32(s.drop_last(), id) + (if s.last() == id {
            1int
        } else {
            0int
        })
    }
}

/// The branch-target definitions one function slot holds.
pub open spec fn body_branch_defs(f: Option<IrFunc>, b: u64) -> int {
    match f {
        Some(IrFunc::Function(ir)) => count_branch_labels(ir@, b),
        _ => 0,
    }
}

/// The local-label definitions one function slot holds.
pub open spec fn body_local_defs(f: Option<IrFunc>, id: u32) -> int {
    match f {
        Some(IrFunc::Function(ir)) => count_local_labels(ir@, id),
        _ => 0,
    }
}

/// How often `BranchTarget(b)` is defined across the whole module: the
/// translator's monotonic block counter keeps this at one, so the label
/// lookups can never pick a label of another function.
pub open spec fn module_branch_defs(funcs: Seq<Option<IrFunc>>, b: u64) -> int
    decreases funcs.len(),
{
    if funcs.len() == 0 {
        0
    } else {
        module_branch_defs(funcs.drop_last(), b) + body_branch_defs(funcs.last(), b)
    }
}

/// How often `LocalLabel(id)` is defined across the whole module.
pub open spec fn module_local_defs(funcs: Seq<Option<IrFunc>>, id: u32) -> int
    decreases funcs.len(),
{
    if funcs.len() == 0 {
        0
    } else {
        module_local_defs(funcs.drop_last(), id) + body_local_defs(funcs.last(), id)
    }
}

proof fn lemma_count_branch_nonneg(ops: Seq<IrCp>, b: u64)
    ensures
        count_branch_labels(ops, b) >= 0,
    decreases ops.len(),
{
    if ops.len() > 0 {
        lemma_count_branch_nonneg(ops.skip(1), b);
    }
}

proof fn lemma_count_local_nonneg(ops: Seq<IrCp>, id: u32)
    ensures
        count_local_labels(ops, id) >= 0,
    decreases ops.len(),
{
    if ops.len() > 0 {
        lemma_count_local_nonneg(ops.skip(1), id);
    }
}

/// The module sums only grow along a prefix.
proof fn lemma_module_branch_defs_take_le(funcs: Seq<Option<IrFunc>>, i: int, b: u64)
    requires
        0 <= i <= funcs.len(),
    ensures
        module_branch_defs(funcs.take(i), b) <= module_branch_defs(funcs, b),
    decreases funcs.len() - i,
{
    if i < funcs.len() {
        assert(funcs.take(i + 1).drop_last() =~= funcs.take(i));
        assert(funcs.take(i + 1).last() == funcs[i]);
        match funcs[i] {
            Some(IrFunc::Function(ir)) => {
                lemma_count_branch_nonneg(ir@, b);
            },
            _ => {},
        }
        lemma_module_branch_defs_take_le(funcs, i + 1, b);
        if i + 1 == funcs.len() {
            assert(funcs.take(funcs.len() as int) =~= funcs);
        }
    } else {
        assert(funcs.take(funcs.len() as int) =~= funcs);
    }
}

proof fn lemma_module_local_defs_take_le(funcs: Seq<Option<IrFunc>>, i: int, id: u32)
    requires
        0 <= i <= funcs.len(),
    ensures
        module_local_defs(funcs.take(i), id) <= module_local_defs(funcs, id),
    decreases funcs.len() - i,
{
    if i < funcs.len() {
        assert(funcs.take(i + 1).drop_last() =~= funcs.take(i));
        assert(funcs.take(i + 1).last() == funcs[i]);
        match funcs[i] {
            Some(IrFunc::Function(ir)) => {
                lemma_count_local_nonneg(ir@, id);
            },
            _ => {},
        }
        lemma_module_local_defs_take_le(funcs, i + 1, id);
        if i + 1 == funcs.len() {
            assert(funcs.take(funcs.len() as int) =~= funcs);
        }
    } else {
        assert(funcs.take(funcs.len() as int) =~= funcs);
    }
}

/// Walking one operation extends the prefix count by that operation's own
/// contribution.
proof fn lemma_count_branch_take_step(s: Seq<IrCp>, k: int, b: u64)
    requires
        0 <= k < s.len(),
    ensures
        count_branch_labels(s.take(k + 1), b) == count_branch_labels(s.take(k), b) + (
        match s[k] {
            IrCp::Label(IrLabel::BranchTarget(x)) => if x == b {
                1int
            } else {
                0int
            },
            _ => 0int,
        }),
    decreases k,
{
    if k == 0 {
        assert(s.take(0) =~= Seq::<IrCp>::empty());
        assert(s.take(1).skip(1) =~= Seq::<IrCp>::empty());
        assert(s.take(1)[0] == s[0]);
    } else {
        assert(s.take(k + 1)[0] == s[0]);
        assert(s.take(k)[0] == s[0]);
        assert(s.take(k + 1).skip(1) =~= s.skip(1).take(k));
        assert(s.take(k).skip(1) =~= s.skip(1).take(k - 1));
        assert(s.skip(1)[k - 1] == s[k]);
        lemma_count_branch_take_step(s.skip(1), k - 1, b);
    }
}

proof fn lemma_count_local_take_step(s: Seq<IrCp>, k: int, id: u32)
    requires
        0 <= k < s.len(),
    ensures
        count_local_labels(s.take(k + 1), id) == count_local_labels(s.take(k), id) + (
        match s[k] {
            IrCp::Label(IrLabel::LocalLabel(x)) => if x == id {
                1int
            } else {
                0int
            },
            _ => 0int,
        }),
    decreases k,
{
    if k == 0 {
        assert(s.take(0) =~= Seq::<IrCp>::empty());
        assert(s.take(1).skip(1) =~= Seq::<IrCp>::empty());
        assert(s.take(1)[0] == s[0]);
    } else {
        assert(s.take(k + 1)[0] == s[0]);
        assert(s.take(k)[0] == s[0]);
        assert(s.take(k + 1).skip(1) =~= s.skip(1).take(k));
        assert(s.take(k).skip(1) =~= s.skip(1).take(k - 1));
        assert(s.skip(1)[k - 1] == s[k]);
        lemma_count_local_take_step(s.skip(1), k - 1, id);
    }
}

/// Collects the branch-target ids one body defines, occurrence for
/// occurrence.
fn branch_ids_of(ops: &Vec<IrCp>) -> (r: Vec<u64>)
    ensures
        forall|b: u64| #[trigger] count_in64(r@, b) == count_branch_labels(ops@, b),
{
    let mut ids: Vec<u64> = Vec::new();
    let mut k: usize = 0;
    while k < ops.len()
        invariant
            k <= ops@.len(),
            forall|b: u64| #[trigger] count_in64(ids@, b) == count_branch_labels(
                ops@.take(k as int),
                b,
            ),
        decreases ops@.len() - k,
    {
        let ghost pre_ids = ids@;
        match &ops[k] {
            IrCp::Label(IrLabel::BranchTarget(b)) => {
                let x = *b;
                ids.push(x);
                proof {
                    assert(ids@.drop_last() =~= pre_ids);
                    assert(ids@.last() == x);
                    assert(ops@[k as int] == IrCp::Label(IrLabel::BranchTarget(x)));
                    assert forall|bb: u64| #[trigger] count_in64(ids@, bb) == count_branch_labels(
                        ops@.take(k + 1),
                        bb,
                    ) by {
                        lemma_count_branch_take_step(ops@, k as int, bb);
                        assert(count_in64(ids@, bb) == count_in64(pre_ids, bb) + (if x == bb {
                            1int
                        } else {
                            0int
                        }));
                    }
                }
            },
            _ => {
                proof {
                    assert forall|bb: u64| #[trigger] count_in64(ids@, bb) == count_branch_labels(
                        ops@.take(k + 1),
                        bb,
                    ) by {
                        lemma_count_branch_take_step(ops@, k as int, bb);
                    }
                }
            },
        }
        k = k + 1;
    }
    proof {
        assert(ops@.take(ops@.len() as int) =~= ops@);
    }
    ids
}

/// Collects the local-label ids one body defines.
fn local_ids_of(ops: &Vec<IrCp>) -> (r: Vec<u32>)
    ensures
        forall|id: u32| #[trigger] count_in32(r@, id) == count_local_labels(ops@, id),
{
    let mut ids: Vec<u32> = Vec::new();
    let mut k: usize = 0;
    while k < ops.len()
        invariant
            k <= ops@.len(),
            forall|id: u32| #[trigger] count_in32(ids@, id) == count_local_labels(
                ops@.take(k as int),
                id,
            ),
        decreases ops@.len() - k,
    {
        let ghost pre_ids = ids@;
        match &ops[k] {
            IrCp::Label(IrLabel::LocalLabel(id)) => {
                let x = *id;
                ids.push(x);
                proof {
                    assert(ids@.drop_last() =~= pre_ids);
                    assert(ids@.last() == x);
                    assert(ops@[k as int] == IrCp::Label(IrLabel::LocalLabel(x)));
                    assert forall|xx: u32| #[trigger] count_in32(ids@, xx) == count_local_labels(
                        ops@.take(k + 1),
                        xx,
                    ) by {
                        lemma_count_local_take_step(ops@, k as int, xx);
                        assert(count_in32(ids@, xx) == count_in32(pre_ids, xx) + (if x == xx {
                            1int
                        } else {
                            0int
                        }));
                    }
                }
            },
            _ => {
                proof {
                    assert forall|xx: u32| #[trigger] count_in32(ids@, xx) == count_local_labels(
                        ops@.take(k + 1),
                        xx,
                    ) by {
                        lemma_count_local_take_step(ops@, k as int, xx);
                    }
                }
            },
        }
        k = k + 1;
    }
    proof {
        assert(ops@.take(ops@.len() as int) =~= ops@);
    }
    ids
}

fn contains64(s: &Vec<u64>, x: u64) -> (r: bool)
    ensures
        r == (count_in64(s@, x) > 0),
{
    let mut k: usize = 0;
    while k < s.len()
        invariant
            k <= s@.len(),
            count_in64(s@.subrange(0, k as int), x) == 0,
        decreases s@.len() - k,
    {
        proof {
            assert(s@.subrange(0, k + 1).drop_last() =~= s@.subrange(0, k as int));
        }
        if s[k] == x {
            proof {
                lemma_count_in64_nonneg(s@.subrange(0, k as int), x);
                lemma_count_in64_prefix_le(s@, k + 1, x);
            }
            return true;
        }
        k = k + 1;
    }
    proof {
        assert(s@.subrange(0, s@.len() as int) =~= s@);
    }
    false
}

fn contains32(s: &Vec<u32>, x: u32) -> (r: bool)
    ensures
        r == (count_in32(s@, x) > 0),
{
    let mut k: usize = 0;
    while k < s.len()
        invariant
            k <= s@.len(),
            count_in32(s@.subrange(0, k as int), x) == 0,
        decreases s@.len() - k,
    {
        proof {
            assert(s@.subrange(0, k + 1).drop_last() =~= s@.subrange(0, k as int));
        }
        if s[k] == x {
            proof {
                lemma_count_in32_nonneg(s@.subrange(0, k as int), x);
                lemma_count_in32_prefix_le(s@, k + 1, x);
            }
            return true;
        }
        k = k + 1;
    }
    proof {
        assert(s@.subrange(0, s@.len() as int) =~= s@);
    }
    false
}

proof fn lemma_count_in64_nonneg(s: Seq<u64>, x: u64)
    ensures
        count_in64(s, x) >= 0,
    decreases s.len(),
{
    if s.len() > 0 {
        lemma_count_in64_nonneg(s.drop_last(), x);
    }
}

proof fn lemma_count_in32_nonneg(s: Seq<u32>, x: u32)
    ensures
        count_in32(s, x) >= 0,
    decreases s.len(),
{
    if s.len() > 0 {
        lemma_count_in32_nonneg(s.drop_last(), x);
    }
}

proof fn lemma_count_in64_prefix_le(s: Seq<u64>, i: int, x: u64)
    requires
        0 <= i <= s.len(),
    ensures
        count_in64(s.subrange(0, i), x) <= count_in64(s, x),
    decreases s.len() - i,
{
    if i < s.len() {
        assert(s.subrange(0, i + 1).drop_last() =~= s.subrange(0, i));
        lemma_count_in64_prefix_le(s, i + 1, x);
        if i + 1 == s.len() {
            assert(s.subrange(0, s.len() as int) =~= s);
        }
    } else {
        assert(s.subrange(0, s.len() as int) =~= s);
    }
}

proof fn lemma_count_in32_prefix_le(s: Seq<u32>, i: int, x: u32)
    requires
        0 <= i <= s.len(),
    ensures
        count_in32(s.subrange(0, i), x) <= count_in32(s, x),
    decreases s.len() - i,
{
    if i < s.len() {
        assert(s.subrange(0, i + 1).drop_last() =~= s.subrange(0, i));
        lemma_count_in32_prefix_le(s, i + 1, x);
        if i + 1 == s.len() {
            assert(s.subrange(0, s.len() as int) =~= s);
        }
    } else {
        assert(s.subrange(0, s.len() as int) =~= s);
    }
}

proof fn lemma_module_branch_defs_take_step(funcs: Seq<Option<IrFunc>>, i: int, b: u64)
    requires
        0 <= i < funcs.len(),
    ensures
        module_branch_defs(funcs.take(i + 1), b) == module_branch_defs(funcs.take(i), b)
            + body_branch_defs(funcs[i], b),
{
    assert(funcs.take(i + 1).drop_last() =~= funcs.take(i));
    assert(funcs.take(i + 1).last() == funcs[i]);
}

proof fn lemma_module_local_defs_take_step(funcs: Seq<Option<IrFunc>>, i: int, id: u32)
    requires
        0 <= i < funcs.len(),
    ensures
        module_local_defs(funcs.take(i + 1), id) == module_local_defs(funcs.take(i), id)
            + body_local_defs(funcs[i], id),
{
    assert(funcs.take(i + 1).drop_last() =~= funcs.take(i));
    assert(funcs.take(i + 1).last() == funcs[i]);
}

/// Decides that no branch-target id and no local-label id is defined by two
/// labels anywhere in the module.
fn check_module_label_uniqueness(funcs: &Vec<Option<IrFunc>>) -> (r: bool)
    ensures
        r == ((forall|b: u64| #[trigger] module_branch_defs(funcs@, b) <= 1) && (forall|id: u32|
            #[trigger] module_local_defs(funcs@, id) <= 1)),
{
    let mut seen_b: Vec<u64> = Vec::new();
    let mut seen_l: Vec<u32> = Vec::new();
    let n = funcs.len();
    let mut i: usize = 0;
    while i < n
        invariant
            i <= n,
            n == funcs@.len(),
            forall|b: u64| #[trigger] count_in64(seen_b@, b) == module_branch_defs(
                funcs@.take(i as int),
                b,
            ),
            forall|b: u64| #[trigger] count_in64(seen_b@, b) <= 1,
            forall|id: u32| #[trigger] count_in32(seen_l@, id) == module_local_defs(
                funcs@.take(i as int),
                id,
            ),
            forall|id: u32| #[trigger] count_in32(seen_l@, id) <= 1,
        decreases n - i,
    {
        match &funcs[i] {
            Some(IrFunc::Function(ir)) => {
                let ids_b = branch_ids_of(&ir.ops);
                let ids_l = local_ids_of(&ir.ops);
                proof {
                    assert(funcs@[i as int] == Some(IrFunc::Function(*ir)));
                    assert(ids_b@.subrange(0, 0) =~= Seq::<u64>::empty());
                    assert(ids_l@.subrange(0, 0) =~= Seq::<u32>::empty());
                }
                let mut j: usize = 0;
                while j < ids_b.len()
                    invariant
                        j <= ids_b@.len(),
                        i < funcs@.len(),
                        forall|b: u64| #[trigger] count_in64(ids_b@, b) == body_branch_defs(
                            funcs@[i as int],
                            b,
                        ),
                        forall|b: u64| #[trigger] count_in64(seen_b@, b) == module_branch_defs(
                            funcs@.take(i as int),
                            b,
                        ) + count_in64(ids_b@.subrange(0, j as int), b),
                        forall|b: u64| #[trigger] count_in64(seen_b@, b) <= 1,
                    decreases ids_b@.len() - j,
                {
                    let x = ids_b[j];
                    proof {
                        assert(ids_b@.subrange(0, j + 1).drop_last() =~= ids_b@.subrange(
                            0,
                            j as int,
                        ));
                        assert(ids_b@.subrange(0, j + 1).last() == x);
                    }
                    if contains64(&seen_b, x) {
                        proof {
                            lemma_count_in64_prefix_le(ids_b@, j + 1, x);
                            lemma_module_branch_defs_take_step(funcs@, i as int, x);
                            lemma_module_branch_defs_take_le(funcs@, i as int + 1, x);
                            assert(module_branch_defs(funcs@, x) >= 2);
                        }
                        return false;
                    }
                    let ghost pre_seen = seen_b@;
                    seen_b.push(x);
                    proof {
                        assert(seen_b@.drop_last() =~= pre_seen);
                        assert(seen_b@.last() == x);
                        assert forall|b: u64| #[trigger] count_in64(seen_b@, b)
                            == module_branch_defs(funcs@.take(i as int), b) + count_in64(
                            ids_b@.subrange(0, j + 1),
                            b,
                        ) && count_in64(seen_b@, b) <= 1 by {
                            assert(count_in64(seen_b@, b) == count_in64(pre_seen, b) + (if x == b {
                                1int
                            } else {
                                0int
                            }));
                            assert(count_in64(ids_b@.subrange(0, j + 1), b) == count_in64(
                                ids_b@.subrange(0, j as int),
                                b,
                            ) + (if x == b {
                                1int
                            } else {
                                0int
                            }));
                        }
                    }
                    j = j + 1;
                }
                proof {
                    assert(ids_b@.subrange(0, ids_b@.len() as int) =~= ids_b@);
                }
                let mut j: usize = 0;
                while j < ids_l.len()
                    invariant
                        j <= ids_l@.len(),
                        i < funcs@.len(),
                        forall|id: u32| #[trigger] count_in32(ids_l@, id) == body_local_defs(
                            funcs@[i as int],
                            id,
                        ),
                        forall|id: u32| #[trigger] count_in32(seen_l@, id) == module_local_defs(
                            funcs@.take(i as int),
                            id,
                        ) + count_in32(ids_l@.subrange(0, j as int), id),
                        forall|id: u32| #[trigger] count_in32(seen_l@, id) <= 1,
                    decreases ids_l@.len() - j,
                {
                    let x = ids_l[j];
                    proof {
                        assert(ids_l@.subrange(0, j + 1).drop_last() =~= ids_l@.subrange(
                            0,
                            j as int,
                        ));
                        assert(ids_l@.subrange(0, j + 1).last() == x);
                    }
                    if contains32(&seen_l, x) {
                        proof {
                            lemma_count_in32_prefix_le(ids_l@, j + 1, x);
                            lemma_module_local_defs_take_step(funcs@, i as int, x);
                            lemma_module_local_defs_take_le(funcs@, i as int + 1, x);
                            assert(module_local_defs(funcs@, x) >= 2);
                        }
                        return false;
                    }
                    let ghost pre_seen = seen_l@;
                    seen_l.push(x);
                    proof {
                        assert(seen_l@.drop_last() =~= pre_seen);
                        assert(seen_l@.last() == x);
                        assert forall|id: u32| #[trigger] count_in32(seen_l@, id)
                            == module_local_defs(funcs@.take(i as int), id) + count_in32(
                            ids_l@.subrange(0, j + 1),
                            id,
                        ) && count_in32(seen_l@, id) <= 1 by {
                            assert(count_in32(seen_l@, id) == count_in32(pre_seen, id) + (if x == id {
                                1int
                            } else {
                                0int
                            }));
                            assert(count_in32(ids_l@.subrange(0, j + 1), id) == count_in32(
                                ids_l@.subrange(0, j as int),
                                id,
                            ) + (if x == id {
                                1int
                            } else {
                                0int
                            }));
                        }
                    }
                    j = j + 1;
                }
                proof {
                    assert(ids_l@.subrange(0, ids_l@.len() as int) =~= ids_l@);
                    assert forall|b: u64| #[trigger] count_in64(seen_b@, b) == module_branch_defs(
                        funcs@.take(i as int + 1),
                        b,
                    ) by {
                        lemma_module_branch_defs_take_step(funcs@, i as int, b);
                    }
                    assert forall|id: u32| #[trigger] count_in32(seen_l@, id) == module_local_defs(
                        funcs@.take(i as int + 1),
                        id,
                    ) by {
                        lemma_module_local_defs_take_step(funcs@, i as int, id);
                    }
                }
            },
            _ => {
                proof {
                    assert forall|b: u64| #[trigger] count_in64(seen_b@, b) == module_branch_defs(
                        funcs@.take(i as int + 1),
                        b,
                    ) by {
                        lemma_module_branch_defs_take_step(funcs@, i as int, b);
                    }
                    assert forall|id: u32| #[trigger] count_in32(seen_l@, id) == module_local_defs(
                        funcs@.take(i as int + 1),
                        id,
                    ) by {
                        lemma_module_local_defs_take_step(funcs@, i as int, id);
                    }
                }
            },
        }
        i = i + 1;
    }
    proof {
        assert(funcs@.take(n as int) =~= funcs@);
        assert forall|b: u64| #[trigger] module_branch_defs(funcs@, b) <= 1 by {
            assert(count_in64(seen_b@, b) == module_branch_defs(funcs@.take(n as int), b));
        }
        assert forall|id: u32| #[trigger] module_local_defs(funcs@, id) <= 1 by {
            assert(count_in32(seen_l@, id) == module_local_defs(funcs@.take(n as int), id));
        }
    }
    true
}

/// Counts the `Label(BranchTarget(b))` operations of `ops`.
pub fn count_branch_labels_exec(ops: &Vec<IrCp>, b: u64) -> (r: usize)
    ensures
        r == count_branch_labels(ops@, b),
{
    let ghost s = ops@;
    let n = ops.len();
    let mut acc: usize = 0;
    let mut k: usize = n;
    proof {
        assert(s.skip(k as int) =~= Seq::<IrCp>::empty());
    }
    while k > 0
        invariant
            k <= ops@.len(),
            ops@ == s,
            acc == count_branch_labels(s.skip(k as int), b),
            acc <= n - k,
            n == ops@.len(),
        decreases k,
    {
        k = k - 1;
        let hit = match &ops[k] {
            IrCp::Label(IrLabel::BranchTarget(x)) => *x == b,
            _ => false,
        };
        proof {
            assert(s.skip(k as int)[0] == s[k as int]);
            assert(s.skip(k as int).skip(1) =~= s.skip(k + 1 as int));
        }
        if hit {
            acc = acc + 1;
        }
    }
    proof {
        assert(s.skip(0) =~= s);
    }
    acc
}

/// Counts the `Label(LocalLabel(id))` operations of `ops`.
pub fn count_local_labels_exec(ops: &Vec<IrCp>, id: u32) -> (r: usize)
    ensures
        r == count_local_labels(ops@, id),
{
    let ghost s = ops@;
    let n = ops.len();
    let mut acc: usize = 0;
    let mut k: usize = n;
    proof {
        assert(s.skip(k as int) =~= Seq::<IrCp>::empty());
    }
    while k > 0
        invariant
            k <= ops@.len(),
            ops@ == s,
            acc == count_local_labels(s.skip(k as int), id),
            acc <= n - k,
            n == ops@.len(),
        decreases k,
    {
        k = k - 1;
        let hit = match &ops[k] {
            IrCp::Label(IrLabel::LocalLabel(x)) => *x == id,
            _ => false,
        };
        proof {
            assert(s.skip(k as int)[0] == s[k as int]);
            assert(s.skip(k as int).skip(1) =~= s.skip(k + 1 as int));
        }
        if hit {
            acc = acc + 1;
        }
    }
    proof {
        assert(s.skip(0) =~= s);
    }
    acc
}

/// Counts the entry labels of `ops`.
pub fn count_entry_labels_exec(ops: &Vec<IrCp>) -> (r: usize)
    ensures
        r == count_entry_labels(ops@),
{
    let ghost s = ops@;
    let n = ops.len();
    let mut acc: usize = 0;
    let mut k: usize = n;
    proof {
        assert(s.skip(k as int) =~= Seq::<IrCp>::empty());
    }
    while k > 0
        invariant
            k <= ops@.len(),
            ops@ == s,
            acc == count_entry_labels(s.skip(k as int)),
            acc <= n - k,
            n == ops@.len(),
        decreases k,
    {
        k = k - 1;
        let hit = match &ops[k] {
            IrCp::Label(l) => match l {
                IrLabel::ExportedFunc(_, _) => true,
                IrLabel::AnonymousFunc(_) => true,
                _ => false,
            },
            _ => false,
        };
        proof {
            assert(s.skip(k as int)[0] == s[k as int]);
            assert(s.skip(k as int).skip(1) =~= s.skip(k + 1 as int));
        }
        if hit {
            acc = acc + 1;
        }
    }
    proof {
        assert(s.skip(0) =~= s);
    }
    acc
}

/// Decides `target_resolved` for one jump target.
fn check_target_resolved(ops: &Vec<IrCp>, l: &IrLabel) -> (r: bool)
    ensures
        r == target_resolved(ops@, *l),
{
    match l {
        IrLabel::BranchTarget(b) => count_branch_labels_exec(ops, *b) == 1,
        IrLabel::LocalLabel(id) => count_local_labels_exec(ops, *id) == 1,
        _ => false,
    }
}

/// Decides `branch_closed`.
pub fn check_branch_closed(ops: &Vec<IrCp>) -> (r: bool)
    ensures
        r == branch_closed(ops@),
{
    let mut k: usize = 0;
    while k < ops.len()
        invariant
            k <= ops@.len(),
            forall|j: int|
                0 <= j < k ==> match #[trigger] ops@[j] {
                    IrCp::Jump(l) => target_resolved(ops@, l),
                    IrCp::JumpIf(_, l) => target_resolved(ops@, l),
                    IrCp::JumpTable(_, ts) => forall|q: int|
                        0 <= q < ts@.len() ==> target_resolved(ops@, #[trigger] ts@[q]),
                    _ => true,
                },
        decreases ops@.len() - k,
    {
        let ok = match &ops[k] {
            IrCp::Jump(l) => check_target_resolved(ops, l),
            IrCp::JumpIf(_, l) => check_target_resolved(ops, l),
            IrCp::JumpTable(_, ts) => {
                let mut q: usize = 0;
                let mut all = true;
                while q < ts.len()
                    invariant
                        q <= ts@.len(),
                        all == forall|j: int|
                            0 <= j < q ==> target_resolved(ops@, #[trigger] ts@[j]),
                    decreases ts@.len() - q,
                {
                    if !check_target_resolved(ops, &ts[q]) {
                        all = false;
                    }
                    q = q + 1;
                }
                all
            },
            _ => true,
        };
        if !ok {
            return false;
        }
        k = k + 1;
    }
    true
}

/// Decides `func_entry_shaped`.
pub fn check_entry_shape(ops: &Vec<IrCp>, index: u32) -> (r: bool)
    ensures
        r == func_entry_shaped(ops@, index),
{
    if ops.len() == 0 {
        return false;
    }
    let head_ok = match &ops[0] {
        IrCp::Label(l) => match l {
            IrLabel::ExportedFunc(i, _) => *i == index,
            IrLabel::AnonymousFunc(i) => *i == index,
            _ => false,
        },
        _ => false,
    };
    head_ok && count_entry_labels_exec(ops) == 1
}

/// Decides `calls_resolvable`.
pub fn check_calls_resolvable(ops: &Vec<IrCp>, funcs: &Vec<Option<IrFunc>>) -> (r: bool)
    ensures
        r == calls_resolvable(ops@, funcs@),
{
    let n = funcs.len();
    let mut k: usize = 0;
    while k < ops.len()
        invariant
            k <= ops@.len(),
            n == funcs@.len(),
            forall|j: int|
                0 <= j < k ==> match #[trigger] ops@[j] {
                    IrCp::Call(l) => match l {
                        IrLabel::ExportedFunc(i, _) => i < funcs@.len() && funcs@[i as int]
                            matches Some(IrFunc::Function(_)),
                        IrLabel::AnonymousFunc(i) => i < funcs@.len() && funcs@[i as int]
                            matches Some(IrFunc::Function(_)),
                        IrLabel::ImportedFunc(i) => i < funcs@.len() && funcs@[i as int]
                            matches Some(IrFunc::Import(_)),
                        IrLabel::Indirect(_, _, _) => true,
                        _ => false,
                    },
                    IrCp::InitTableElement(op) => match op {
                        IrOperand::Imm32(fi) => 0 <= fi < funcs@.len() && funcs@[fi as int]
                            matches Some(IrFunc::Function(_)),
                        _ => false,
                    },
                    _ => true,
                },
        decreases ops@.len() - k,
    {
        let ok = match &ops[k] {
            IrCp::Call(l) => match l {
                IrLabel::ExportedFunc(i, _) => (*i as usize) < n && (match &funcs[*i as usize] {
                    Some(IrFunc::Function(_)) => true,
                    _ => false,
                }),
                IrLabel::AnonymousFunc(i) => (*i as usize) < n && (match &funcs[*i as usize] {
                    Some(IrFunc::Function(_)) => true,
                    _ => false,
                }),
                IrLabel::ImportedFunc(i) => (*i as usize) < n && (match &funcs[*i as usize] {
                    Some(IrFunc::Import(_)) => true,
                    _ => false,
                }),
                IrLabel::Indirect(_, _, _) => true,
                _ => false,
            },
            IrCp::InitTableElement(op) => match op {
                IrOperand::Imm32(fi) => *fi >= 0 && (*fi as usize) < n && (
                match &funcs[*fi as usize] {
                    Some(IrFunc::Function(_)) => true,
                    _ => false,
                }),
                _ => false,
            },
            _ => true,
        };
        if !ok {
            return false;
        }
        k = k + 1;
    }
    true
}

/// Decides `cp_wf` for one operation.
pub fn check_cp_wf(
    cp: &IrCp,
    sigs: &Vec<Option<IrSignature>>,
    n_tables: usize,
    n_chunks: usize,
) -> (r: bool)
    ensures
        r == cp_wf(*cp, sigs@, n_tables as int, n_chunks as int),
{
    match cp {
        IrCp::Label(_) => true,
        IrCp::Preamble => true,
        IrCp::InitLocals(n) => *n < 0x10000,
        IrCp::InitTablePreamble(off) => (matches!(off, IrOperand::Reg(_))) && n_tables > 0,
        IrCp::InitTableElement(op) => matches!(op, IrOperand::Imm32(_)),
        IrCp::InitTablePostamble => true,
        IrCp::InitMemoryFromChunk(idx, _, off) => (*idx as usize) < n_chunks && matches!(
            off,
            IrOperand::Reg(_),
        ),
        IrCp::Push(op) => matches!(op, IrOperand::Reg(_)),
        IrCp::Pop(op) => matches!(op, IrOperand::Reg(_)),
        IrCp::Move(dest, src) => check_move_wf(dest, src),
        IrCp::MoveIf(_, dest, src) => (matches!(dest, IrOperand::Reg(_)) && matches!(
            src,
            IrOperand::Reg(_),
        )) || (matches!(dest, IrOperand::Reg32(_)) && matches!(src, IrOperand::Reg32(_))),
        IrCp::ZeroExtend(op) => matches!(op, IrOperand::Reg8(_)) || matches!(
            op,
            IrOperand::Reg16(_),
        ) || matches!(op, IrOperand::Reg32(_)),
        IrCp::SignExtend(op) => matches!(op, IrOperand::Reg8(_)) || matches!(
            op,
            IrOperand::Reg16(_),
        ) || matches!(op, IrOperand::Reg32(_)),
        IrCp::Compare(dest, src) => check_reg_pair_wf(dest, src),
        IrCp::SetIf(_, dest) => matches!(dest, IrOperand::Reg(_)) || matches!(
            dest,
            IrOperand::Reg32(_),
        ),
        IrCp::CheckIfZero(op) => matches!(op, IrOperand::Reg(_)) || matches!(
            op,
            IrOperand::Reg32(_),
        ),
        IrCp::Select(check, if_zero, if_not_zero, result) => matches!(check, IrOperand::Reg32(_))
            && matches!(if_zero, IrOperand::Reg(_)) && matches!(if_not_zero, IrOperand::Reg(_)) && (
        match (if_zero, result) {
            (IrOperand::Reg(a), IrOperand::Reg(b)) => a == b,
            _ => false,
        }),
        IrCp::Add(dest, src) => check_reg_pair_wf(dest, src),
        IrCp::Subtract(dest, src) => check_reg_pair_wf(dest, src),
        IrCp::Multiply(dest, src) => check_reg_pair_wf(dest, src),
        IrCp::DivideUnsigned(dest, src) => check_div_pair_wf(dest, src),
        IrCp::DivideSigned(dest, src) => check_div_pair_wf(dest, src),
        IrCp::RemainderUnsigned(dest, src) => check_div_pair_wf(dest, src),
        IrCp::RemainderSigned(dest, src) => check_div_pair_wf(dest, src),
        IrCp::And(dest, src) => check_reg_pair_wf(dest, src),
        IrCp::Or(dest, src) => check_reg_pair_wf(dest, src),
        IrCp::Xor(dest, src) => check_reg_pair_wf(dest, src),
        IrCp::ShiftLeft(dest, cnt) => check_reg_pair_wf(dest, cnt),
        IrCp::ShiftRightUnsigned(dest, cnt) => check_reg_pair_wf(dest, cnt),
        IrCp::ShiftRightSigned(dest, cnt) => check_reg_pair_wf(dest, cnt),
        IrCp::RotateLeft(dest, cnt) => check_reg_pair_wf(dest, cnt),
        IrCp::RotateRight(dest, cnt) => check_reg_pair_wf(dest, cnt),
        IrCp::LeadingZeroes(op) => matches!(op, IrOperand::Reg(_)) || matches!(
            op,
            IrOperand::Reg32(_),
        ),
        IrCp::TrailingZeroes(op) => matches!(op, IrOperand::Reg(_)) || matches!(
            op,
            IrOperand::Reg32(_),
        ),
        IrCp::BitPopulationCount(op) => matches!(op, IrOperand::Reg(_)) || matches!(
            op,
            IrOperand::Reg32(_),
        ),
        IrCp::Jump(l) => matches!(l, IrLabel::BranchTarget(_)) || matches!(
            l,
            IrLabel::LocalLabel(_),
        ),
        IrCp::JumpIf(_, l) => matches!(l, IrLabel::BranchTarget(_)) || matches!(
            l,
            IrLabel::LocalLabel(_),
        ),
        IrCp::JumpTable(index, ts) => {
            if !matches!(index, IrOperand::Reg32(_)) || ts.len() >= 0x10000 {
                false
            } else {
                let mut q: usize = 0;
                let mut all = true;
                while q < ts.len()
                    invariant
                        q <= ts@.len(),
                        all == forall|j: int|
                            0 <= j < q ==> ((#[trigger] ts@[j]) is BranchTarget
                                || ts@[j] is LocalLabel),
                    decreases ts@.len() - q,
                {
                    let ok = matches!(&ts[q], IrLabel::BranchTarget(_)) || matches!(
                        &ts[q],
                        IrLabel::LocalLabel(_),
                    );
                    if !ok {
                        all = false;
                    }
                    q = q + 1;
                }
                all
            }
        },
        IrCp::Call(l) => match l {
            IrLabel::ExportedFunc(i, _) => (*i as usize) < sigs.len() && matches!(
                &sigs[*i as usize],
                Some(_),
            ),
            IrLabel::AnonymousFunc(i) => (*i as usize) < sigs.len() && matches!(
                &sigs[*i as usize],
                Some(_),
            ),
            IrLabel::ImportedFunc(i) => (*i as usize) < sigs.len() && matches!(
                &sigs[*i as usize],
                Some(_),
            ),
            IrLabel::Indirect(t, op, sig) => (*t as usize) < n_tables && matches!(
                op,
                IrOperand::Reg32(_),
            ) && sig.params < 16 && sig.results <= 1,
            _ => false,
        },
        IrCp::MemoryGrow(op) => matches!(op, IrOperand::Reg32(_)),
        IrCp::MemorySize(op) => matches!(op, IrOperand::Reg32(_)),
        IrCp::Postamble => true,
        IrCp::Return => true,
        IrCp::Trap => true,
    }
}

fn check_move_wf(dest: &IrOperand, src: &IrOperand) -> (r: bool)
    ensures
        r == move_wf(*dest, *src),
{
    match (dest, src) {
        (IrOperand::Reg(_), IrOperand::Reg(_)) => true,
        (IrOperand::Reg(_), IrOperand::Imm32(_)) => true,
        (IrOperand::Reg32(_), IrOperand::Imm32(_)) => true,
        (IrOperand::Reg(_), IrOperand::Imm64(_)) => true,
        (IrOperand::Reg(_), IrOperand::Local(i)) => *i < 0x10010,
        (IrOperand::Local(i), IrOperand::Reg(_)) => *i < 0x10010,
        (IrOperand::Reg(_), IrOperand::Global(i)) => *i < 0x10000,
        (IrOperand::Global(i), IrOperand::Reg(_)) => *i < 0x10000,
        (IrOperand::Memory8(_, _), IrOperand::Reg8(_)) => true,
        (IrOperand::Memory16(_, _), IrOperand::Reg16(_)) => true,
        (IrOperand::Memory32(_, _), IrOperand::Reg32(_)) => true,
        (IrOperand::Memory64(_, _), IrOperand::Reg(_)) => true,
        (IrOperand::Reg8(_), IrOperand::Memory8(_, _)) => true,
        (IrOperand::Reg16(_), IrOperand::Memory16(_, _)) => true,
        (IrOperand::Reg32(_), IrOperand::Memory32(_, _)) => true,
        (IrOperand::Reg(_), IrOperand::Memory64(_, _)) => true,
        _ => false,
    }
}

fn check_reg_pair_wf(dest: &IrOperand, src: &IrOperand) -> (r: bool)
    ensures
        r == reg_pair_wf(*dest, *src),
{
    (matches!(dest, IrOperand::Reg(_)) && matches!(src, IrOperand::Reg(_))) || (matches!(
        dest,
        IrOperand::Reg32(_),
    ) && matches!(src, IrOperand::Reg32(_)))
}

fn check_div_pair_wf(dest: &IrOperand, src: &IrOperand) -> (r: bool)
    ensures
        r == div_pair_wf(*dest, *src),
{
    match (dest, src) {
        (IrOperand::Reg(a), IrOperand::Reg(b)) => check_is_scratch(a) && check_is_scratch(b) && a
            != b,
        (IrOperand::Reg32(a), IrOperand::Reg32(b)) => check_is_scratch(a) && check_is_scratch(b)
            && a != b,
        _ => false,
    }
}

fn check_is_scratch(r: &IrReg) -> (res: bool)
    ensures
        res == is_scratch(*r),
{
    matches!(r, IrReg::Sra) || matches!(r, IrReg::Src) || matches!(r, IrReg::Srd)
}

/// Decides `ops_wf`.
pub fn check_ops_wf(
    ops: &Vec<IrCp>,
    sigs: &Vec<Option<IrSignature>>,
    n_tables: usize,
    n_chunks: usize,
) -> (r: bool)
    ensures
        r == ops_wf(ops@, sigs@, n_tables as int, n_chunks as int),
{
    let mut k: usize = 0;
    while k < ops.len()
        invariant
            k <= ops@.len(),
            forall|j: int|
                0 <= j < k ==> cp_wf(#[trigger] ops@[j], sigs@, n_tables as int, n_chunks as int),
        decreases ops@.len() - k,
    {
        if !check_cp_wf(&ops[k], sigs, n_tables, n_chunks) {
            return false;
        }
        k = k + 1;
    }
    true
}

impl IrPvf {
    /// Decides `wf`: the container's own validation, run by the translator
    /// before it hands its output on.
    pub fn check_wf(&self) -> (r: bool)
        ensures
            r == self.wf(),
    {
        if self.funcs.len() != self.signatures.len() {
            return false;
        }
        if self.funcs.len() >= 0x10000 || self.tables.len() >= 0x100 || self.data_chunks.len()
            >= 0x100 {
            return false;
        }
        let mut i: usize = 0;
        while i < self.tables.len()
            invariant
                i <= self.tables@.len(),
                forall|j: int|
                    0 <= j < i ==> match #[trigger] self.tables@[j] {
                        IrTable::Table(m) => m <= 0xFFFF,
                        IrTable::Import(_) => false,
                    },
            decreases self.tables@.len() - i,
        {
            let ok = match &self.tables[i] {
                IrTable::Table(m) => *m <= 0xFFFF,
                IrTable::Import(_) => false,
            };
            if !ok {
                return false;
            }
            i = i + 1;
        }
        let mut i: usize = 0;
        while i < self.data_chunks.len()
            invariant
                i <= self.data_chunks@.len(),
                forall|j: int|
                    0 <= j < i ==> (#[trigger] self.data_chunks@[j]).data@.len() <= 0x400000,
            decreases self.data_chunks@.len() - i,
        {
            if self.data_chunks[i].data.len() > 0x400000 {
                return false;
            }
            i = i + 1;
        }
        let mut i: usize = 0;
        while i < self.funcs.len()
            invariant
                i <= self.funcs@.len(),
                self.funcs@.len() == self.signatures@.len(),
                self.funcs@.len() < 0x10000,
                forall|j: int|
                    0 <= j < i ==> ((#[trigger] self.funcs@[j]) is Some <==> self.signatures@[j]
                        is Some),
                forall|j: int|
                    0 <= j < i ==> match #[trigger] self.signatures@[j] {
                        Some(sig) => sig.params < 16 && sig.results <= 1,
                        None => true,
                    },
                forall|j: int|
                    0 <= j < i ==> match #[trigger] self.funcs@[j] {
                        Some(IrFunc::Function(ir)) => {
                            &&& func_entry_shaped(ir@, j as u32)
                            &&& branch_closed(ir@)
                            &&& calls_resolvable(ir@, self.funcs@)
                            &&& ops_wf(
                                ir@,
                                self.signatures@,
                                self.tables@.len() as int,
                                self.data_chunks@.len() as int,
                            )
                        },
                        _ => true,
                    },
            decreases self.funcs@.len() - i,
        {
            let fok = match &self.funcs[i] {
                Some(_) => matches!(&self.signatures[i], Some(_)),
                None => matches!(&self.signatures[i], None),
            };
            if !fok {
                return false;
            }
            let sok = match &self.signatures[i] {
                Some(sig) => sig.params < 16 && sig.results <= 1,
                None => true,
            };
            if !sok {
                return false;
            }
            let bok = match &self.funcs[i] {
                Some(IrFunc::Function(ir)) => {
                    check_entry_shape(&ir.ops, i as u32) && check_branch_closed(&ir.ops)
                        && check_calls_resolvable(&ir.ops, &self.funcs) && check_ops_wf(
                        &ir.ops,
                        &self.signatures,
                        self.tables.len(),
                        self.data_chunks.len(),
                    )
                },
                _ => true,
            };
            if !bok {
                return false;
            }
            i = i + 1;
        }
        check_module_label_uniqueness(&self.funcs)
    }
}

} // verus!
