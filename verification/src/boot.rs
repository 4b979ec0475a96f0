//! What the kernel reads from the boot information, as plain values.

use vstd::prelude::*;

verus! {

/// Section flag: writable during execution.
pub const ELF_SECTION_WRITABLE: u64 = 0x1;

/// Section flag: occupies memory during execution.
pub const ELF_SECTION_ALLOCATED: u64 = 0x2;

/// Section flag: holds executable machine instructions.
pub const ELF_SECTION_EXECUTABLE: u64 = 0x4;

/// One section of the kernel's ELF image.
pub struct ElfSection {
    pub start_address: u64,
    pub end_address: u64,
    pub flags: u64,
}

impl ElfSection {
    pub open spec fn is_allocated_spec(&self) -> bool {
        self.flags & ELF_SECTION_ALLOCATED == ELF_SECTION_ALLOCATED
    }

    pub open spec fn is_writable_spec(&self) -> bool {
        self.flags & ELF_SECTION_WRITABLE == ELF_SECTION_WRITABLE
    }

    pub open spec fn is_executable_spec(&self) -> bool {
        self.flags & ELF_SECTION_EXECUTABLE == ELF_SECTION_EXECUTABLE
    }

    pub fn is_allocated(&self) -> (r: bool)
        ensures
            r == self.is_allocated_spec(),
    {
        self.flags & ELF_SECTION_ALLOCATED == ELF_SECTION_ALLOCATED
    }

    pub fn is_writable(&self) -> (r: bool)
        ensures
            r == self.is_writable_spec(),
    {
        self.flags & ELF_SECTION_WRITABLE == ELF_SECTION_WRITABLE
    }

    pub fn is_executable(&self) -> (r: bool)
        ensures
            r == self.is_executable_spec(),
    {
        self.flags & ELF_SECTION_EXECUTABLE == ELF_SECTION_EXECUTABLE
    }
}

/// What the boot loader hands over: where its own information lies in memory and, when
/// it passed them, the sections of the kernel image.
pub struct BootInformation {
    pub start_address: u64,
    pub end_address: u64,
    pub elf_sections: Option<Vec<ElfSection>>,
}

} // verus!
