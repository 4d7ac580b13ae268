//! Ahead-of-time compiler for the WebAssembly 1.0 integer subset.
//!
//! A binary module is decoded into a plain-value description, lowered into a
//! register-style intermediate representation, and finally emitted as x86-64
//! machine bytes together with the label map and relocations an embedder
//! needs to place the code in executable memory.

pub mod codegen;
pub mod decode;
pub mod error;
pub mod eval;
pub mod intel_x64;
pub mod ir;
pub mod prepared_pvf;
pub mod raw;
pub mod wasm;

pub use codegen::CodeGenerator;
pub use error::PvfError;
pub use intel_x64::IntelX64Compiler;
pub use ir::IrPvf;
pub use prepared_pvf::PreparedPvf;
pub use raw::RawPvf;

use vstd::prelude::*;

verus! {

/// Adds a signed displacement to a base, the way the segment map is laid out
/// around the linear-memory base address.
pub fn offset_by(base: usize, offset: i32) -> (r: usize)
    requires
        base + offset >= 0,
        base + offset <= usize::MAX,
    ensures
        r == base + offset,
{
    if offset < 0 {
        let mag: i64 = -(offset as i64);
        base - (mag as usize)
    } else {
        base + (offset as usize)
    }
}

} // verus!
