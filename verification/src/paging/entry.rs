//! Page table entries and their flag bits (x86_64 layout: 64-bit entries).

use vstd::prelude::*;

use crate::boot::ElfSection;
use crate::memory::Frame;
use crate::paging::{MAX_FRAME_NUMBER, PAGE_SIZE, PHYS_ADDR_MASK};

verus! {

pub const PRESENT: u64 = 0x1;

pub const WRITABLE: u64 = 0x2;

pub const USER_ACCESSIBLE: u64 = 0x4;

pub const WRITE_THROUGH: u64 = 0x8;

pub const NO_CACHE: u64 = 0x10;

pub const ACCESSED: u64 = 0x20;

pub const DIRTY: u64 = 0x40;

pub const HUGE_PAGE: u64 = 0x80;

pub const GLOBAL: u64 = 0x100;

pub const NO_EXECUTE: u64 = 0x8000_0000_0000_0000;

/// Every bit that names a flag.
pub const ALL_FLAGS: u64 = 0x8000_0000_0000_01ff;

/// An entry is present when its lowest bit is set.
pub open spec fn is_present(e: u64) -> bool {
    e & PRESENT == PRESENT
}

/// An entry maps a huge page (or a large frame) when bit 7 is set.
pub open spec fn is_huge(e: u64) -> bool {
    e & HUGE_PAGE == HUGE_PAGE
}

/// The number of the frame whose address an entry holds.
pub open spec fn frame_of(e: u64) -> u64 {
    ((e & PHYS_ADDR_MASK) / 4096) as u64
}

/// The frame an entry points to, if the entry is present.
pub open spec fn pointed_frame_of(e: u64) -> Option<u64> {
    if is_present(e) {
        Some(frame_of(e))
    } else {
        None
    }
}

/// The flag bits an ELF section of the kernel is mapped with.
pub open spec fn elf_section_entry_flags(section: ElfSection) -> u64 {
    (if section.is_allocated_spec() { PRESENT } else { 0 }) | (if section.is_writable_spec() {
        WRITABLE
    } else {
        0
    }) | (if section.is_executable_spec() {
        0
    } else {
        NO_EXECUTE
    })
}

/// The raw value that `Entry::set` stores for a frame number and flag bits.
pub open spec fn entry_value(frame_number: u64, flag_bits: u64) -> u64 {
    ((frame_number * 4096) as u64) | flag_bits
}

pub proof fn lemma_unused_entry()
    ensures
        !is_present(0u64),
        !is_huge(0u64),
        pointed_frame_of(0u64) is None,
{
    assert(0u64 & 0x1u64 != 0x1u64 && 0u64 & 0x80u64 != 0x80u64) by (bit_vector);
}

pub proof fn lemma_frame_of_bound(e: u64)
    ensures
        frame_of(e) < MAX_FRAME_NUMBER,
{
    assert((e & 0x000f_ffff_ffff_f000u64) <= 0x000f_ffff_ffff_f000u64) by (bit_vector);
}

/// What an entry built from a valid frame number and flag bits reads back as.
pub proof fn lemma_entry_value(n: u64, fl: u64)
    requires
        n < MAX_FRAME_NUMBER,
        fl & !ALL_FLAGS == 0,
    ensures
        is_present(entry_value(n, fl)) == (fl & PRESENT == PRESENT),
        is_huge(entry_value(n, fl)) == (fl & HUGE_PAGE == HUGE_PAGE),
        frame_of(entry_value(n, fl)) == n,
        entry_value(n, fl) & ALL_FLAGS == fl,
{
    let s: u64 = (n * 4096) as u64;
    assert(n * 4096 < 0x10_0000_0000_0000) by (nonlinear_arith)
        requires
            n < 0x100_0000_0000u64,
    ;
    assert((s | fl) & 0x80u64 == fl & 0x80u64 && (s | fl) & 0x1u64 == fl & 0x1u64 && (s | fl)
        & 0x000f_ffff_ffff_f000u64 == s && (s | fl) & 0x8000_0000_0000_01ffu64 == fl) by (bit_vector)
        requires
            s == n * 4096,
            n < 0x100_0000_0000u64,
            fl & !0x8000_0000_0000_01ffu64 == 0,
    ;
    assert(s / 4096 == n);
}

/// A kernel section is mapped present exactly when it is allocated (ELF flag 0x2),
/// writable exactly when it is writable (0x1), and not executable exactly when its
/// executable flag (0x4) is clear, whatever its other flags; no other bit is set.
pub proof fn lemma_section_flags(section: ElfSection)
    ensures
        (elf_section_entry_flags(section) & PRESENT == PRESENT) == (section.flags & 0x2 == 0x2),
        (elf_section_entry_flags(section) & WRITABLE == WRITABLE) == (section.flags & 0x1 == 0x1),
        (elf_section_entry_flags(section) & NO_EXECUTE == NO_EXECUTE) == (section.flags & 0x4 != 0x4),
        elf_section_entry_flags(section) & !(PRESENT | WRITABLE | NO_EXECUTE) == 0,
{
    let v = elf_section_entry_flags(section);
    let p: u64 = if section.flags & 0x2 == 0x2 { 1 } else { 0 };
    let w: u64 = if section.flags & 0x1 == 0x1 { 2 } else { 0 };
    let x: u64 = if section.flags & 0x4 == 0x4 { 0 } else { 0x8000_0000_0000_0000 };
    assert(v == p | w | x);
    assert(((p | w | x) & 0x1u64 == 0x1u64) == (p == 1) && ((p | w | x) & 0x2u64 == 0x2u64) == (w
        == 2) && ((p | w | x) & 0x8000_0000_0000_0000u64 == 0x8000_0000_0000_0000u64) == (x
        == 0x8000_0000_0000_0000u64) && (p | w | x) & !(0x1u64 | 0x2u64 | 0x8000_0000_0000_0000u64)
        == 0) by (bit_vector)
        requires
            p == 1 || p == 0,
            w == 2 || w == 0,
            x == 0 || x == 0x8000_0000_0000_0000u64,
    ;
}

/// An entry set to frame `n` with flag bits `fl` reads back `fl` as its flags, points to
/// `n` exactly when `fl` holds `PRESENT`, and is unused only for frame 0 with no flag.
pub proof fn lemma_entry_reads_back(n: u64, fl: u64)
    requires
        n < MAX_FRAME_NUMBER,
        fl & !ALL_FLAGS == 0,
    ensures
        entry_value(n, fl) & ALL_FLAGS == fl,
        pointed_frame_of(entry_value(n, fl)) == if fl & PRESENT == PRESENT {
            Some(n)
        } else {
            None
        },
        (entry_value(n, fl) == 0) == (n == 0 && fl == 0),
{
    lemma_entry_value(n, fl);
    let s: u64 = (n * 4096) as u64;
    assert(n * 4096 < 0x10_0000_0000_0000) by (nonlinear_arith)
        requires
            n < 0x100_0000_0000u64,
    ;
    assert(s / 4096 == n);
    assert((s | fl) == 0 <==> (s == 0 && fl == 0)) by (bit_vector);
}

proof fn lemma_or_zero()
    ensures
        forall|x: u64| #[trigger] (x | 0u64) == x,
        forall|x: u64| #[trigger] (0u64 | x) == x,
        0u64 & ALL_FLAGS == 0,
{
    assert((forall|x: u64| #[trigger] (x | 0u64) == x) && (forall|x: u64| #[trigger] (0u64 | x) == x)
        && 0u64 & 0x8000_0000_0000_01ffu64 == 0) by (bit_vector);
}

pub proof fn lemma_named_flags()
    ensures
        0u64 & ALL_FLAGS == 0,
        PRESENT & ALL_FLAGS == PRESENT,
        WRITABLE & ALL_FLAGS == WRITABLE,
        HUGE_PAGE & ALL_FLAGS == HUGE_PAGE,
        NO_EXECUTE & ALL_FLAGS == NO_EXECUTE,
{
    assert(0u64 & 0x8000_0000_0000_01ffu64 == 0 && 0x1u64 & 0x8000_0000_0000_01ffu64 == 0x1u64
        && 0x2u64 & 0x8000_0000_0000_01ffu64 == 0x2u64 && 0x80u64 & 0x8000_0000_0000_01ffu64
        == 0x80u64 && 0x8000_0000_0000_0000u64 & 0x8000_0000_0000_01ffu64
        == 0x8000_0000_0000_0000u64) by (bit_vector);
}

pub proof fn lemma_table_entry_flags()
    ensures
        PRESENT | WRITABLE == 3u64,
        3u64 & !ALL_FLAGS == 0,
        3u64 & PRESENT == PRESENT,
        3u64 & HUGE_PAGE != HUGE_PAGE,
        forall|x: u64| #[trigger] ((x | PRESENT) & PRESENT) == PRESENT,
{
    assert(0x1u64 | 0x2u64 == 3u64 && 3u64 & !0x8000_0000_0000_01ffu64 == 0 && 3u64 & 0x1u64
        == 0x1u64 && 3u64 & 0x80u64 != 0x80u64) by (bit_vector);
    assert(forall|x: u64| #[trigger] ((x | 0x1u64) & 0x1u64) == 0x1u64) by (bit_vector);
}

pub proof fn lemma_flag_bits()
    ensures
        forall|e: u64| #[trigger] (e & ALL_FLAGS) & !ALL_FLAGS == 0,
        forall|a: u64, b: u64|
            a & !ALL_FLAGS == 0 && b & !ALL_FLAGS == 0 ==> #[trigger] (a | b) & !ALL_FLAGS == 0,
        forall|e: u64| #[trigger] ((e & ALL_FLAGS) & PRESENT) == e & PRESENT,
        forall|e: u64| #[trigger] ((e & ALL_FLAGS) & HUGE_PAGE) == e & HUGE_PAGE,
        forall|e: u64| #[trigger] ((e & ALL_FLAGS) & WRITABLE) == e & WRITABLE,
{
    assert(forall|e: u64| #[trigger] (e & 0x8000_0000_0000_01ffu64) & !0x8000_0000_0000_01ffu64
        == 0) by (bit_vector);
    assert(forall|a: u64, b: u64|
        a & !0x8000_0000_0000_01ffu64 == 0 && b & !0x8000_0000_0000_01ffu64 == 0 ==> #[trigger] (a
            | b) & !0x8000_0000_0000_01ffu64 == 0) by (bit_vector);
    assert(forall|e: u64| #[trigger] ((e & 0x8000_0000_0000_01ffu64) & 0x1u64) == e & 0x1u64)
        by (bit_vector);
    assert(forall|e: u64| #[trigger] ((e & 0x8000_0000_0000_01ffu64) & 0x80u64) == e & 0x80u64)
        by (bit_vector);
    assert(forall|e: u64| #[trigger] ((e & 0x8000_0000_0000_01ffu64) & 0x2u64) == e & 0x2u64)
        by (bit_vector);
}

/// A set of entry flags; only bits that name a flag are ever set.
#[derive(Clone, Copy)]
pub struct EntryFlags {
    bits: u64,
}

impl EntryFlags {
    #[verifier::type_invariant]
    spec fn only_flag_bits(self) -> bool {
        self.bits & !ALL_FLAGS == 0
    }

    pub closed spec fn view(self) -> u64 {
        self.bits
    }

    /// The flags whose bits are set in `bits`; other bits are dropped.
    pub fn from_bits_truncate(bits: u64) -> (r: EntryFlags)
        ensures
            r@ == bits & ALL_FLAGS,
    {
        proof {
            lemma_flag_bits();
        }
        EntryFlags { bits: bits & ALL_FLAGS }
    }

    pub fn empty() -> (r: EntryFlags)
        ensures
            r@ == 0,
    {
        proof {
            lemma_named_flags();
        }
        EntryFlags::from_bits_truncate(0)
    }

    pub fn present() -> (r: EntryFlags)
        ensures
            r@ == PRESENT,
    {
        proof {
            lemma_named_flags();
        }
        EntryFlags::from_bits_truncate(PRESENT)
    }

    pub fn writable() -> (r: EntryFlags)
        ensures
            r@ == WRITABLE,
    {
        proof {
            lemma_named_flags();
        }
        EntryFlags::from_bits_truncate(WRITABLE)
    }

    pub fn huge_page() -> (r: EntryFlags)
        ensures
            r@ == HUGE_PAGE,
    {
        proof {
            lemma_named_flags();
        }
        EntryFlags::from_bits_truncate(HUGE_PAGE)
    }

    pub fn no_execute() -> (r: EntryFlags)
        ensures
            r@ == NO_EXECUTE,
    {
        proof {
            lemma_named_flags();
        }
        EntryFlags::from_bits_truncate(NO_EXECUTE)
    }

    pub fn bits(&self) -> (r: u64)
        ensures
            r == self@,
            r & !ALL_FLAGS == 0,
    {
        proof {
            use_type_invariant(self);
        }
        self.bits
    }

    /// Whether every flag of `other` is set in `self`.
    pub fn contains(&self, other: EntryFlags) -> (r: bool)
        ensures
            r == (self@ & other@ == other@),
    {
        self.bits & other.bits == other.bits
    }

    /// The flags set in either operand.
    pub fn union(self, other: EntryFlags) -> (r: EntryFlags)
        ensures
            r@ == self@ | other@,
    {
        proof {
            use_type_invariant(&self);
            use_type_invariant(&other);
            lemma_flag_bits();
        }
        EntryFlags { bits: self.bits | other.bits }
    }

    /// The flags that an ELF section of the kernel is mapped with: present when the
    /// section is allocated, writable when it is writable, and not executable unless it
    /// is executable.
    pub fn from_elf_section_flags(section: &ElfSection) -> (r: EntryFlags)
        ensures
            r@ == elf_section_entry_flags(*section),
    {
        let mut flags = EntryFlags::empty();
        if section.is_allocated() {
            flags = flags.union(EntryFlags::present());
        }
        if section.is_writable() {
            flags = flags.union(EntryFlags::writable());
        }
        if !section.is_executable() {
            flags = flags.union(EntryFlags::no_execute());
        }
        proof {
            lemma_or_zero();
        }
        flags
    }
}

/// One entry of a page table.
pub struct Entry(u64);

impl Entry {
    pub closed spec fn view(&self) -> u64 {
        self.0
    }

    /// An entry that maps nothing.
    pub fn unused() -> (r: Entry)
        ensures
            r@ == 0,
    {
        Entry(0)
    }

    /// An entry with the given raw bits.
    pub fn from_bits(bits: u64) -> (r: Entry)
        ensures
            r@ == bits,
    {
        Entry(bits)
    }

    pub fn bits(&self) -> (r: u64)
        ensures
            r == self@,
    {
        self.0
    }

    pub fn is_unused(&self) -> (r: bool)
        ensures
            r == (self@ == 0),
    {
        self.0 == 0
    }

    pub fn set_unused(&mut self)
        ensures
            final(self)@ == 0,
    {
        self.0 = 0;
    }

    pub fn flags(&self) -> (r: EntryFlags)
        ensures
            r@ == self@ & ALL_FLAGS,
    {
        EntryFlags::from_bits_truncate(self.0)
    }

    /// The frame this entry points to, when it is present.
    pub fn pointed_frame(&self) -> (r: Option<Frame>)
        ensures
            r == (match pointed_frame_of(self@) {
                Some(n) => Some(Frame { number: n }),
                None => None,
            }),
    {
        proof {
            lemma_flag_bits();
        }
        if self.flags().contains(EntryFlags::present()) {
            Some(Frame::containing_address(self.0 & PHYS_ADDR_MASK))
        } else {
            None
        }
    }

    /// Points this entry at `frame` with `flags`: it then reads back `flags`, points to
    /// `frame` exactly when `flags` holds `PRESENT`, and is unused only for frame 0 with no
    /// flag.
    pub fn set(&mut self, frame: Frame, flags: EntryFlags)
        requires
            frame.number < MAX_FRAME_NUMBER,
        ensures
            final(self)@ == entry_value(frame.number, flags@),
            final(self)@ & ALL_FLAGS == flags@,
            pointed_frame_of(final(self)@) == if flags@ & PRESENT == PRESENT {
                Some(frame.number)
            } else {
                None
            },
            (final(self)@ == 0) == (frame.number == 0 && flags@ == 0),
    {
        let start = frame.start_address();
        let bits = flags.bits();
        proof {
            lemma_entry_reads_back(frame.number, flags@);
        }
        self.0 = start | bits;
    }
}

} // verus!
