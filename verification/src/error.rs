use vstd::prelude::*;

verus! {

/// Everything that can go wrong between reading a module and calling into it.
///
/// Each variant carries plain values only, so the whole pipeline can be
/// reasoned about; an embedder that wants `std::error::Error` plumbing wraps
/// this type on its own side.
#[derive(Debug, Clone)]
pub enum PvfError {
    /// The source module could not be read from its file.
    FilesystemError(String),
    /// The binary module is malformed; the payload names the offending part.
    ParseError(String),
    /// The module is structurally sound but holds disallowed content,
    /// for example a constant expression with a non-constant opcode.
    ValidationError(String),
    /// The name passed to a call was not among the module's exports.
    ExportNotFound,
    /// The import resolver knew nothing under `module::name`.
    UnresolvedImport(String),
}

impl PvfError {
    /// A short machine-readable tag for the variant, usable by embedders in
    /// place of a `Display` implementation.
    pub fn tag(&self) -> (r: &'static str)
        ensures
            r@ == self.tag_spec(),
    {
        match self {
            PvfError::FilesystemError(_) => "filesystem",
            PvfError::ParseError(_) => "parse",
            PvfError::ValidationError(_) => "validation",
            PvfError::ExportNotFound => "export-not-found",
            PvfError::UnresolvedImport(_) => "unresolved-import",
        }
    }

    pub open spec fn tag_spec(&self) -> Seq<char> {
        match self {
            PvfError::FilesystemError(_) => "filesystem"@,
            PvfError::ParseError(_) => "parse"@,
            PvfError::ValidationError(_) => "validation"@,
            PvfError::ExportNotFound => "export-not-found"@,
            PvfError::UnresolvedImport(_) => "unresolved-import"@,
        }
    }
}

} // verus!
