//! The bits of the descriptors of the GDT, as the `x86` crate builds them.

use vstd::prelude::*;

use x86::segmentation::{
    BuildDescriptor, CodeSegmentType, DataSegmentType, Descriptor, DescriptorBuilder,
    GateDescriptorBuilder, SegmentDescriptorBuilder,
};
use x86::Ring;

use super::{PrivilegeLevel, SegmentBitness, SegmentDescriptor, SegmentType};

verus! {

/// The 64 bits of a present segment descriptor as Intel lays them out and the `x86`
/// crate's builder writes them: the low 16 bits of the limit and of the base in the low word;
/// in the high word bits 16-23 of the base, the type (bits 8-11), the S bit (12), the
/// privilege level `dpl` (13-14), P (15), bits 16-19 of the limit (16-19), L (21), D/B (22) and bits
/// 24-31 of the base (24-31).
pub open spec fn descriptor_layout(
    base: u32,
    limit: u32,
    segment_type: u64,
    s: bool,
    dpl: u64,
    l: bool,
    db: bool,
) -> u64 {
    let low: u64 = ((limit as u64) & 0xffff) | (((base as u64) & 0xffff) << 16u64);
    let high: u64 = (((base as u64) >> 16u64) & 0xff) | (segment_type << 8u64) | ((if s {
        1u64
    } else {
        0u64
    }) << 12u64) | (dpl << 13u64) | (1u64 << 15u64) | ((((limit as u64)
        >> 16u64) & 0xf) << 16u64) | ((if l {
        1u64
    } else {
        0u64
    }) << 21u64) | ((if db {
        1u64
    } else {
        0u64
    }) << 22u64) | (((base as u64) >> 24u64) << 24u64);
    (high << 32u64) | low
}

/// The 64 bits of a present, not yet accessed memory segment with the given base, limit,
/// type (code: execute/read, type 0b1010; data: read/write, type 0b0010), privilege and
/// bitness (the L bit for 64-bit segments, the D/B bit for 32-bit ones).
pub open spec fn memory_descriptor_bits(
    base: u32,
    limit: u32,
    segment_type: SegmentType,
    privilege: PrivilegeLevel,
    bitness: SegmentBitness,
) -> u64 {
    descriptor_layout(
        base,
        limit,
        if segment_type == SegmentType::CodeRead {
            0b1010
        } else {
            0b0010
        },
        true,
        privilege.level_spec() as u64,
        bitness == SegmentBitness::Bits64,
        bitness == SegmentBitness::Bits32,
    )
}

/// `x86`'s descriptor builder on a present, not yet accessed code segment with `base`,
/// `limit`, privilege `privilege` and the L bit: the contract claims that its bits are
/// `memory_descriptor_bits` of these values, as the builder's source sets them.
#[verifier::external_body]
fn code_descriptor_64(base: u32, limit: u32, privilege: PrivilegeLevel) -> (r: u64)
    ensures
        r == memory_descriptor_bits(base, limit, SegmentType::CodeRead, privilege, SegmentBitness::Bits64),
{
    let ring = match privilege {
        PrivilegeLevel::Ring0 => Ring::Ring0,
        PrivilegeLevel::Ring1 => Ring::Ring1,
        PrivilegeLevel::Ring2 => Ring::Ring2,
        PrivilegeLevel::Ring3 => Ring::Ring3,
    };
    let builder = <DescriptorBuilder as SegmentDescriptorBuilder<u32>>::code_descriptor(base, limit, CodeSegmentType::ExecuteRead);
    let raw: Descriptor = builder.present().dpl(ring).l().finish();
    raw.as_u64()
}

/// `x86`'s descriptor builder on a present, not yet accessed data segment with `base`,
/// `limit`, privilege `privilege` and the L bit: the contract claims that its bits are
/// `memory_descriptor_bits` of these values, as the builder's source sets them.
#[verifier::external_body]
fn data_descriptor_64(base: u32, limit: u32, privilege: PrivilegeLevel) -> (r: u64)
    ensures
        r == memory_descriptor_bits(base, limit, SegmentType::DataWrite, privilege, SegmentBitness::Bits64),
{
    let ring = match privilege {
        PrivilegeLevel::Ring0 => Ring::Ring0,
        PrivilegeLevel::Ring1 => Ring::Ring1,
        PrivilegeLevel::Ring2 => Ring::Ring2,
        PrivilegeLevel::Ring3 => Ring::Ring3,
    };
    let builder = <DescriptorBuilder as SegmentDescriptorBuilder<u32>>::data_descriptor(base, limit, DataSegmentType::ReadWrite);
    let raw: Descriptor = builder.present().dpl(ring).l().finish();
    raw.as_u64()
}

/// `x86`'s descriptor builder on a present, not yet accessed code segment with `base`,
/// `limit`, privilege `privilege` and the D/B bit: the contract claims that its bits are
/// `memory_descriptor_bits` of these values, as the builder's source sets them.
#[verifier::external_body]
fn code_descriptor_32(base: u32, limit: u32, privilege: PrivilegeLevel) -> (r: u64)
    ensures
        r == memory_descriptor_bits(base, limit, SegmentType::CodeRead, privilege, SegmentBitness::Bits32),
{
    let ring = match privilege {
        PrivilegeLevel::Ring0 => Ring::Ring0,
        PrivilegeLevel::Ring1 => Ring::Ring1,
        PrivilegeLevel::Ring2 => Ring::Ring2,
        PrivilegeLevel::Ring3 => Ring::Ring3,
    };
    let builder = <DescriptorBuilder as SegmentDescriptorBuilder<u32>>::code_descriptor(base, limit, CodeSegmentType::ExecuteRead);
    let raw: Descriptor = builder.present().dpl(ring).db().finish();
    raw.as_u64()
}

/// `x86`'s descriptor builder on a present, not yet accessed data segment with `base`,
/// `limit`, privilege `privilege` and the D/B bit: the contract claims that its bits are
/// `memory_descriptor_bits` of these values, as the builder's source sets them.
#[verifier::external_body]
fn data_descriptor_32(base: u32, limit: u32, privilege: PrivilegeLevel) -> (r: u64)
    ensures
        r == memory_descriptor_bits(base, limit, SegmentType::DataWrite, privilege, SegmentBitness::Bits32),
{
    let ring = match privilege {
        PrivilegeLevel::Ring0 => Ring::Ring0,
        PrivilegeLevel::Ring1 => Ring::Ring1,
        PrivilegeLevel::Ring2 => Ring::Ring2,
        PrivilegeLevel::Ring3 => Ring::Ring3,
    };
    let builder = <DescriptorBuilder as SegmentDescriptorBuilder<u32>>::data_descriptor(base, limit, DataSegmentType::ReadWrite);
    let raw: Descriptor = builder.present().dpl(ring).db().finish();
    raw.as_u64()
}

/// The 64 bits of a present, available 32-bit task state segment descriptor (type 0b1001,
/// S clear) at address `base` (its low 32 bits) with limit `limit` (its low 20 bits).
pub open spec fn tss_descriptor_bits(base: u64, limit: u64, privilege: PrivilegeLevel) -> u64 {
    descriptor_layout(base as u32, limit as u32, 0b1001, false, privilege.level_spec() as u64, false, false)
}

/// `x86`'s descriptor builder on a present, available 32-bit TSS with `base`, `limit` and
/// privilege `privilege`: the contract claims that its bits are
/// `tss_descriptor_bits` of these values, as the builder's source sets them.
#[verifier::external_body]
fn tss_descriptor(base: u64, limit: u64, privilege: PrivilegeLevel) -> (r: u64)
    ensures
        r == tss_descriptor_bits(base, limit, privilege),
{
    let ring = match privilege {
        PrivilegeLevel::Ring0 => Ring::Ring0,
        PrivilegeLevel::Ring1 => Ring::Ring1,
        PrivilegeLevel::Ring2 => Ring::Ring2,
        PrivilegeLevel::Ring3 => Ring::Ring3,
    };
    let builder = <DescriptorBuilder as GateDescriptorBuilder<u32>>::tss_descriptor(base, limit, true);
    let raw: Descriptor = builder.present().dpl(ring).finish();
    raw.as_u64()
}

/// The 64 bits of descriptor `d` as the processor reads them (see `descriptor_bits`).
pub open spec fn descriptor_bits_spec(d: SegmentDescriptor) -> Option<u64> {
    match d {
        SegmentDescriptor::Null => Some(0u64),
        SegmentDescriptor::Memory { base, limit, segment_type, accessed, privilege, bitness } => if accessed {
            None
        } else {
            Some(memory_descriptor_bits(base, limit, segment_type, privilege, bitness))
        },
        SegmentDescriptor::Tss { base, limit, privilege } => Some(tss_descriptor_bits(base, limit, privilege)),
        SegmentDescriptor::TssUpper { base } => Some(base >> 32u64),
    }
}

/// The 64 bits of descriptor `d` as the processor reads them: zero for the null descriptor,
/// what `x86`'s builder makes of a memory segment that is not yet accessed and of an
/// available TSS; for the upper half of a 64-bit TSS descriptor, the top half of the TSS
/// address (the lower half reads as the 32-bit descriptor, as in Intel's layout). `None`
/// for an accessed memory segment.
pub fn descriptor_bits(d: SegmentDescriptor) -> (r: Option<u64>)
    ensures
        r == descriptor_bits_spec(d),
{
    match d {
        SegmentDescriptor::Null => Some(0),
        SegmentDescriptor::Memory { base, limit, segment_type, accessed, privilege, bitness } => {
            if accessed {
                return None;
            }
            match (segment_type, bitness) {
                (SegmentType::CodeRead, SegmentBitness::Bits64) => Some(code_descriptor_64(base, limit, privilege)),
                (SegmentType::DataWrite, SegmentBitness::Bits64) => Some(data_descriptor_64(base, limit, privilege)),
                (SegmentType::CodeRead, SegmentBitness::Bits32) => Some(code_descriptor_32(base, limit, privilege)),
                (SegmentType::DataWrite, SegmentBitness::Bits32) => Some(data_descriptor_32(base, limit, privilege)),
            }
        },
        SegmentDescriptor::Tss { base, limit, privilege } => Some(tss_descriptor(base, limit, privilege)),
        SegmentDescriptor::TssUpper { base } => Some(base >> 32u64),
    }
}

/// The bits of each descriptor of `gdt`, in order; `None` if one of them is an accessed
/// memory segment.
pub fn encode_gdt(gdt: &Vec<SegmentDescriptor>) -> (r: Option<Vec<u64>>)
    ensures
        (forall|i: int| 0 <= i < gdt@.len() ==> #[trigger] descriptor_bits_spec(gdt@[i]) is Some) ==> r is Some,
        r matches Some(bits) ==> bits@.len() == gdt@.len() && forall|i: int|
            0 <= i < gdt@.len() ==> descriptor_bits_spec(gdt@[i]) == Some(#[trigger] bits@[i]),
        r is None ==> exists|i: int| 0 <= i < gdt@.len() && #[trigger] descriptor_bits_spec(gdt@[i]) is None,
{
    let mut bits: Vec<u64> = Vec::new();
    let mut i: usize = 0;
    while i < gdt.len()
        invariant
            i <= gdt@.len(),
            bits@.len() == i,
            forall|j: int| 0 <= j < i ==> descriptor_bits_spec(gdt@[j]) == Some(#[trigger] bits@[j]),
        decreases gdt@.len() - i,
    {
        match descriptor_bits(gdt[i]) {
            Some(b) => bits.push(b),
            None => {
                return None;
            },
        }
        i = i + 1;
    }
    Some(bits)
}

} // verus!
