//! The CPU exceptions: their vectors, and what the kernel's handler of each reports and
//! whether it resumes the interrupted code or halts.

use vstd::prelude::*;

verus! {

/// The exceptions the kernel handles.
#[derive(Clone, Copy, PartialEq, Eq, Structural, Debug)]
pub enum Exception {
    DivideError,
    Debug,
    NonMaskableInterrupt,
    Breakpoint,
    Overflow,
    BoundRangeExceeded,
    InvalidOpcode,
    DeviceNotAvailable,
    DoubleFault,
    InvalidTss,
    SegmentNotPresent,
    StackSegmentFault,
    GeneralProtectionFault,
    PageFault,
    X87FloatingPoint,
    AlignmentCheck,
    MachineCheck,
    SimdFloatingPoint,
    Virtualization,
    SecurityException,
}

/// What happens after a handler has reported an exception.
#[derive(Clone, Copy, PartialEq, Eq, Structural, Debug)]
pub enum ExceptionOutcome {
    /// the handler returns to the interrupted code
    Resume,
    /// the handler halts the CPU for good
    Halt,
}

/// The vector of each exception.
pub open spec fn vector_of(e: Exception) -> u8 {
    match e {
        Exception::DivideError => 0,
        Exception::Debug => 1,
        Exception::NonMaskableInterrupt => 2,
        Exception::Breakpoint => 3,
        Exception::Overflow => 4,
        Exception::BoundRangeExceeded => 5,
        Exception::InvalidOpcode => 6,
        Exception::DeviceNotAvailable => 7,
        Exception::DoubleFault => 8,
        Exception::InvalidTss => 10,
        Exception::SegmentNotPresent => 11,
        Exception::StackSegmentFault => 12,
        Exception::GeneralProtectionFault => 13,
        Exception::PageFault => 14,
        Exception::X87FloatingPoint => 16,
        Exception::AlignmentCheck => 17,
        Exception::MachineCheck => 18,
        Exception::SimdFloatingPoint => 19,
        Exception::Virtualization => 20,
        Exception::SecurityException => 30,
    }
}

/// Each exception has the vector Intel assigns it: divide error 0, debug 1, NMI 2,
/// breakpoint 3, overflow 4, bound range 5, invalid opcode 6, device not available 7,
/// double fault 8, invalid TSS 10, segment not present 11, stack segment 12, general
/// protection 13, page fault 14, x87 16, alignment check 17, machine check 18, SIMD 19,
/// virtualization 20, security 30.
pub proof fn lemma_intel_vectors()
    ensures
        vector_of(Exception::DivideError) == 0,
        vector_of(Exception::Debug) == 1,
        vector_of(Exception::NonMaskableInterrupt) == 2,
        vector_of(Exception::Breakpoint) == 3,
        vector_of(Exception::Overflow) == 4,
        vector_of(Exception::BoundRangeExceeded) == 5,
        vector_of(Exception::InvalidOpcode) == 6,
        vector_of(Exception::DeviceNotAvailable) == 7,
        vector_of(Exception::DoubleFault) == 8,
        vector_of(Exception::InvalidTss) == 10,
        vector_of(Exception::SegmentNotPresent) == 11,
        vector_of(Exception::StackSegmentFault) == 12,
        vector_of(Exception::GeneralProtectionFault) == 13,
        vector_of(Exception::PageFault) == 14,
        vector_of(Exception::X87FloatingPoint) == 16,
        vector_of(Exception::AlignmentCheck) == 17,
        vector_of(Exception::MachineCheck) == 18,
        vector_of(Exception::SimdFloatingPoint) == 19,
        vector_of(Exception::Virtualization) == 20,
        vector_of(Exception::SecurityException) == 30,
{
}

/// The handler of the exception at each vector reports that exception: a page fault
/// (vector 14) as a page fault, a general protection fault (vector 13) as one, and so on;
/// exactly the exceptions at vectors 8, 10 to 14, 17 and 30 push an error code.
pub proof fn lemma_vector_reports(e: Exception)
    ensures
        vector_of(e) == 14 <==> message_of(e) == "\nPage fault",
        vector_of(e) == 13 <==> message_of(e) == "\nGeneral Protection Fault",
        vector_of(e) == 3 <==> message_of(e) == "\nBreakpoint trap",
        vector_of(e) == 8 <==> message_of(e) == "\nDouble Fault",
        has_error_code(e) <==> (vector_of(e) == 8 || (10 <= vector_of(e) <= 14) || vector_of(e) == 17
            || vector_of(e) == 30),
{
}

/// Whether the CPU pushes an error code for the exception.
/// No two exceptions share a vector, so `from_vector` gives back the exception of a
/// vector.
pub proof fn lemma_vector_injective(e1: Exception, e2: Exception)
    ensures
        vector_of(e1) == vector_of(e2) ==> e1 == e2,
{
}

pub open spec fn has_error_code(e: Exception) -> bool {
    match e {
        Exception::DoubleFault | Exception::InvalidTss | Exception::SegmentNotPresent
        | Exception::StackSegmentFault | Exception::GeneralProtectionFault | Exception::PageFault
        | Exception::AlignmentCheck | Exception::SecurityException => true,
        _ => false,
    }
}

impl Exception {
    pub fn vector(self) -> (r: u8)
        ensures
            r == vector_of(self),
    {
        match self {
            Exception::DivideError => 0,
            Exception::Debug => 1,
            Exception::NonMaskableInterrupt => 2,
            Exception::Breakpoint => 3,
            Exception::Overflow => 4,
            Exception::BoundRangeExceeded => 5,
            Exception::InvalidOpcode => 6,
            Exception::DeviceNotAvailable => 7,
            Exception::DoubleFault => 8,
            Exception::InvalidTss => 10,
            Exception::SegmentNotPresent => 11,
            Exception::StackSegmentFault => 12,
            Exception::GeneralProtectionFault => 13,
            Exception::PageFault => 14,
            Exception::X87FloatingPoint => 16,
            Exception::AlignmentCheck => 17,
            Exception::MachineCheck => 18,
            Exception::SimdFloatingPoint => 19,
            Exception::Virtualization => 20,
            Exception::SecurityException => 30,
        }
    }

    /// The exception with vector `vector`, if the kernel handles one there.
    pub fn from_vector(vector: u8) -> (r: Option<Exception>)
        ensures
            r matches Some(e) ==> vector_of(e) == vector,
            r is None ==> forall|e: Exception| vector_of(e) != vector,
    {
        match vector {
            0 => Some(Exception::DivideError),
            1 => Some(Exception::Debug),
            2 => Some(Exception::NonMaskableInterrupt),
            3 => Some(Exception::Breakpoint),
            4 => Some(Exception::Overflow),
            5 => Some(Exception::BoundRangeExceeded),
            6 => Some(Exception::InvalidOpcode),
            7 => Some(Exception::DeviceNotAvailable),
            8 => Some(Exception::DoubleFault),
            10 => Some(Exception::InvalidTss),
            11 => Some(Exception::SegmentNotPresent),
            12 => Some(Exception::StackSegmentFault),
            13 => Some(Exception::GeneralProtectionFault),
            14 => Some(Exception::PageFault),
            16 => Some(Exception::X87FloatingPoint),
            17 => Some(Exception::AlignmentCheck),
            18 => Some(Exception::MachineCheck),
            19 => Some(Exception::SimdFloatingPoint),
            20 => Some(Exception::Virtualization),
            30 => Some(Exception::SecurityException),
            _ => None,
        }
    }

    /// Whether the CPU pushes an error code for this exception.
    pub fn has_error_code(self) -> (r: bool)
        ensures
            r == has_error_code(self),
    {
        match self {
            Exception::DoubleFault | Exception::InvalidTss | Exception::SegmentNotPresent
            | Exception::StackSegmentFault | Exception::GeneralProtectionFault
            | Exception::PageFault | Exception::AlignmentCheck | Exception::SecurityException => true,
            _ => false,
        }
    }
}

/// The handlers that never return: invalid opcode, double fault, general protection fault
/// and page fault halt the CPU.
pub open spec fn outcome_of(e: Exception) -> ExceptionOutcome {
    match e {
        Exception::InvalidOpcode | Exception::DoubleFault | Exception::GeneralProtectionFault
        | Exception::PageFault => ExceptionOutcome::Halt,
        _ => ExceptionOutcome::Resume,
    }
}

/// The line the handler of `e` prints.
pub open spec fn message_of(e: Exception) -> &'static str {
    match e {
        Exception::DivideError => "\nDivide By Zero Fault",
        Exception::Debug => "\nDebug Trap",
        Exception::NonMaskableInterrupt => "\nNon-maskable Interrupt",
        Exception::Breakpoint => "\nBreakpoint trap",
        Exception::Overflow => "\nOverflow trap",
        Exception::BoundRangeExceeded => "\nBound Range Exceeded Fault",
        Exception::InvalidOpcode => "\nInvalid Opcode Fault",
        Exception::DeviceNotAvailable => "\nDevice Not Available Fault",
        Exception::DoubleFault => "\nDouble Fault",
        Exception::InvalidTss => "\nInvalid TSS Fault",
        Exception::SegmentNotPresent => "\nSegment Not Present Fault",
        Exception::StackSegmentFault => "\nStack Segment Fault",
        Exception::GeneralProtectionFault => "\nGeneral Protection Fault",
        Exception::PageFault => "\nPage fault",
        Exception::X87FloatingPoint => "\nx87 Floating Point Exception",
        Exception::AlignmentCheck => "\nAlignment Check Fault",
        Exception::MachineCheck => "\nMachine Check Abort",
        Exception::SimdFloatingPoint => "\nSIMD Floating Point Exception",
        Exception::Virtualization => "\nVirtualization Exception",
        Exception::SecurityException => "\nSecurity Exception",
    }
}

/// The line the handler of `e` prints, and whether it then resumes or halts.
pub fn handle(e: Exception) -> (r: (&'static str, ExceptionOutcome))
    ensures
        r.0 == message_of(e),
        r.1 == outcome_of(e),
{
    match e {
        Exception::DivideError => ("\nDivide By Zero Fault", ExceptionOutcome::Resume),
        Exception::Debug => ("\nDebug Trap", ExceptionOutcome::Resume),
        Exception::NonMaskableInterrupt => ("\nNon-maskable Interrupt", ExceptionOutcome::Resume),
        Exception::Breakpoint => ("\nBreakpoint trap", ExceptionOutcome::Resume),
        Exception::Overflow => ("\nOverflow trap", ExceptionOutcome::Resume),
        Exception::BoundRangeExceeded => ("\nBound Range Exceeded Fault", ExceptionOutcome::Resume),
        Exception::InvalidOpcode => ("\nInvalid Opcode Fault", ExceptionOutcome::Halt),
        Exception::DeviceNotAvailable => ("\nDevice Not Available Fault", ExceptionOutcome::Resume),
        Exception::DoubleFault => ("\nDouble Fault", ExceptionOutcome::Halt),
        Exception::InvalidTss => ("\nInvalid TSS Fault", ExceptionOutcome::Resume),
        Exception::SegmentNotPresent => ("\nSegment Not Present Fault", ExceptionOutcome::Resume),
        Exception::StackSegmentFault => ("\nStack Segment Fault", ExceptionOutcome::Resume),
        Exception::GeneralProtectionFault => ("\nGeneral Protection Fault", ExceptionOutcome::Halt),
        Exception::PageFault => ("\nPage fault", ExceptionOutcome::Halt),
        Exception::X87FloatingPoint => ("\nx87 Floating Point Exception", ExceptionOutcome::Resume),
        Exception::AlignmentCheck => ("\nAlignment Check Fault", ExceptionOutcome::Resume),
        Exception::MachineCheck => ("\nMachine Check Abort", ExceptionOutcome::Resume),
        Exception::SimdFloatingPoint => ("\nSIMD Floating Point Exception", ExceptionOutcome::Resume),
        Exception::Virtualization => ("\nVirtualization Exception", ExceptionOutcome::Resume),
        Exception::SecurityException => ("\nSecurity Exception", ExceptionOutcome::Resume),
    }
}

} // verus!
