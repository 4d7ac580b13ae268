//! Plain-value description of a decoded Wasm module: exactly what the
//! translator reads, with every index checked by the decoder.

use vstd::prelude::*;

use crate::ir::IrSignature;

verus! {

/// One operation of the supported Wasm subset. Loads and stores carry their
/// static address offset; the alignment hint is dropped since it never
/// changes behaviour.
#[derive(Debug, Clone)]
pub enum WasmOp {
    Unreachable,
    Nop,
    Block { has_result: bool },
    Loop { has_result: bool },
    Br(u32),
    BrIf(u32),
    End,
    Return,
    Call(u32),
    CallIndirect { type_index: u32, table_index: u32 },
    Drop,
    Select,
    LocalGet(u32),
    LocalSet(u32),
    LocalTee(u32),
    GlobalGet(u32),
    GlobalSet(u32),
    I32Load(u32),
    I64Load(u32),
    I32Load8S(u32),
    I32Load8U(u32),
    I32Load16S(u32),
    I32Load16U(u32),
    I64Load8S(u32),
    I64Load8U(u32),
    I64Load16S(u32),
    I64Load16U(u32),
    I64Load32S(u32),
    I64Load32U(u32),
    I32Store(u32),
    I64Store(u32),
    I32Store8(u32),
    I32Store16(u32),
    I64Store8(u32),
    I64Store16(u32),
    I64Store32(u32),
    MemorySize,
    MemoryGrow,
    I32Const(i32),
    I64Const(i64),
    I32Eqz,
    I32Eq,
    I32Ne,
    I32LtS,
    I32LtU,
    I32GtS,
    I32GtU,
    I32LeS,
    I32LeU,
    I32GeS,
    I32GeU,
    I64Eqz,
    I64Eq,
    I64Ne,
    I64LtS,
    I64LtU,
    I64GtS,
    I64GtU,
    I64LeS,
    I64LeU,
    I64GeS,
    I64GeU,
    I32Clz,
    I32Ctz,
    I32Popcnt,
    I32Add,
    I32Sub,
    I32Mul,
    I32DivS,
    I32DivU,
    I32RemS,
    I32RemU,
    I32And,
    I32Or,
    I32Xor,
    I32Shl,
    I32ShrS,
    I32ShrU,
    I32Rotl,
    I32Rotr,
    I64Clz,
    I64Ctz,
    I64Popcnt,
    I64Add,
    I64Sub,
    I64Mul,
    I64DivS,
    I64DivU,
    I64RemS,
    I64RemU,
    I64And,
    I64Or,
    I64Xor,
    I64Shl,
    I64ShrS,
    I64ShrU,
    I64Rotl,
    I64Rotr,
    I32WrapI64,
    I64ExtendI32S,
    I64ExtendI32U,
    BrTable(Vec<u32>),
}

/// An imported function: where it comes from and the index of its type.
#[derive(Debug, Clone)]
pub struct WasmImport {
    pub module: String,
    pub name: String,
    pub type_index: u32,
}

/// A defined global; the initializer is a constant expression, terminator
/// included.
#[derive(Debug, Clone)]
pub struct WasmGlobal {
    pub init: Vec<WasmOp>,
}

/// A function exported under a name.
#[derive(Debug, Clone)]
pub struct WasmExport {
    pub name: String,
    pub func_index: u32,
}

/// An active element segment: a constant offset expression and the function
/// indices placed there.
#[derive(Debug, Clone)]
pub struct WasmElement {
    pub offset: Vec<WasmOp>,
    pub func_indices: Vec<u32>,
}

/// An active data segment: a constant offset expression and the raw bytes.
#[derive(Debug, Clone)]
pub struct WasmData {
    pub offset: Vec<WasmOp>,
    pub bytes: Vec<u8>,
}

/// The body of one defined function: how many locals it declares beyond its
/// parameters, and its operations, terminator included.
#[derive(Debug, Clone)]
pub struct WasmFuncBody {
    pub n_locals: u32,
    pub ops: Vec<WasmOp>,
}

/// A decoded module. Function index space: imports first, then the defined
/// functions, `func_type_indices[i]` giving the type of defined function `i`.
#[derive(Debug, Clone)]
pub struct WasmModule {
    pub types: Vec<IrSignature>,
    pub func_imports: Vec<WasmImport>,
    pub imported_globals: u32,
    pub func_type_indices: Vec<u32>,
    pub tables: Vec<u32>,
    pub memory: Option<(u32, u32)>,
    pub globals: Vec<WasmGlobal>,
    pub exports: Vec<WasmExport>,
    pub elements: Vec<WasmElement>,
    pub datas: Vec<WasmData>,
    pub code: Vec<WasmFuncBody>,
}

impl WasmModule {
    /// How many slots the function index space has: imports, defined
    /// functions, and one more for the synthesized initializer.
    pub open spec fn n_imports(&self) -> int {
        self.func_imports@.len() as int
    }

    pub open spec fn n_defined(&self) -> int {
        self.code@.len() as int
    }

    pub open spec fn n_funcs(&self) -> int {
        self.n_imports() + self.n_defined()
    }

    /// Every index the module mentions stays inside the module; the decoder
    /// establishes this, the translator relies on it.
    pub open spec fn wf(&self) -> bool {
        &&& self.func_type_indices@.len() == self.code@.len()
        &&& forall|i: int|
            0 <= i < self.func_type_indices@.len() ==> self.func_type_indices@[i]
                < self.types@.len()
        &&& forall|i: int|
            0 <= i < self.func_imports@.len() ==> self.func_imports@[i].type_index
                < self.types@.len()
        &&& forall|i: int|
            0 <= i < self.exports@.len() ==> self.exports@[i].func_index < self.n_funcs()
        &&& forall|i: int, j: int|
            0 <= i < self.elements@.len() && 0 <= j < self.elements@[i].func_indices@.len()
                ==> self.elements@[i].func_indices@[j] < self.n_funcs()
        &&& self.n_funcs() < 0x10000
        &&& forall|i: int| 0 <= i < self.types@.len() ==> (#[trigger] self.types@[i]).params < 16
        &&& forall|i: int| 0 <= i < self.types@.len() ==> (#[trigger] self.types@[i]).results <= 1
        &&& forall|i: int| 0 <= i < self.code@.len() ==> (#[trigger] self.code@[i]).n_locals < 0x10000
    }
}

} // verus!
