//! Loader error types.

use vstd::prelude::*;

verus! {

/// Errors that can occur while loading a BPF object.
#[derive(Debug, Clone, PartialEq, Eq, Structural)]
pub enum LoadError {
    /// The ELF data is too small for a header.
    ElfTooSmall,
    /// Wrong ELF magic number.
    InvalidMagic,
    /// Not a 64-bit ELF.
    UnsupportedClass,
    /// Neither little- nor big-endian.
    UnsupportedEndian,
    /// Not the BPF machine.
    UnsupportedMachine,
    /// Malformed ELF header.
    InvalidHeader,
    /// A section header lies outside the file.
    SectionOutOfBounds,
    /// Malformed section header.
    InvalidSectionHeader,
    /// Section contents lie outside the file.
    SectionDataOutOfBounds,
    /// A string table is missing, out of range, or not valid UTF-8.
    InvalidStringTable,
    /// Too many programs in the object.
    TooManyPrograms,
    /// Too many maps in the object.
    TooManyMaps,
    /// Malformed map definition data.
    InvalidMapData,
    /// A map type code outside the vocabulary.
    UnsupportedMapType(u32),
    /// Instruction bytes that are not a whole number of records.
    InvalidInstructionData,
    /// A relocation that cannot be applied.
    InvalidRelocation,
    /// A relocation names a symbol that does not exist.
    UndefinedSymbol,
    /// No symbol table in the object.
    NoSymbolTable,
    /// No license section.
    LicenseNotFound,
    /// A license string that is not valid UTF-8.
    InvalidLicense,
    /// Malformed BTF data.
    BtfError,
}

/// Result type for loading operations.
pub type LoadResult<T> = Result<T, LoadError>;

} // verus!
