//! What the CPU pushes on the stack when it enters an exception, interrupt or system call
//! handler, and which of the values a report shows in hexadecimal.

use vstd::prelude::*;
use vstd::string::{StrSliceExecFns, StringExecFns};

verus! {

/// The digit characters, lowest first.
pub open spec fn digit_char(d: int) -> char {
    "0123456789abcdef"@[d]
}

/// The digits of `x` in base `base` (10 or 16), most significant first, with no leading
/// zero (one `0` for zero).
pub open spec fn digits(x: nat, base: nat) -> Seq<char>
    decreases x,
{
    if base < 2 || x < base {
        seq![digit_char(x as int)]
    } else {
        proof {
            assert(x / base < x) by (nonlinear_arith)
                requires
                    base >= 2,
                    x >= base,
            ;
        }
        digits(x / base, base) + seq![digit_char((x % base) as int)]
    }
}

/// `x` in hexadecimal with a `0x` prefix, as `{:#x}` writes it.
pub open spec fn hex_text(x: nat) -> Seq<char> {
    "0x"@ + digits(x, 16)
}

/// Appends the digit `d` (below 16).
fn push_digit(s: &mut String, d: u64)
    requires
        d < 16,
    ensures
        final(s)@ == old(s)@ + seq![digit_char(d as int)],
{
    let all = "0123456789abcdef";
    proof {
        reveal_strlit("0123456789abcdef");
    }
    let one = all.substring_ascii(d as usize, d as usize + 1);
    proof {
        assert(one@ =~= seq![digit_char(d as int)]);
    }
    s.append(one);
}

/// Appends the digits of `x` in base `base`.
fn push_digits(s: &mut String, x: u64, base: u64)
    requires
        base == 10 || base == 16,
    ensures
        final(s)@ == old(s)@ + digits(x as nat, base as nat),
    decreases x,
{
    if x >= base {
        push_digits(s, x / base, base);
    }
    push_digit(s, x % base);
    proof {
        if x >= base {
            assert(digits(x as nat, base as nat) == digits((x / base) as nat, base as nat) + seq![
                digit_char((x % base) as int),
            ]);
        }
        assert(final(s)@ =~= old(s)@ + digits(x as nat, base as nat));
    }
}

/// Appends `x` in hexadecimal with a `0x` prefix.
fn push_hex(s: &mut String, x: u64)
    ensures
        final(s)@ == old(s)@ + hex_text(x as nat),
{
    let ghost before = s@;
    s.append("0x");
    push_digits(s, x, 16);
    proof {
        assert(s@ =~= before + hex_text(x as nat));
    }
}

/// Appends `x` in decimal.
fn push_decimal(s: &mut String, x: u64)
    ensures
        final(s)@ == old(s)@ + digits(x as nat, 10),
{
    push_digits(s, x, 10);
}

/// An exception stack frame with these values as `{:#?}` writes it: one field a line,
/// addresses and flags in hexadecimal, segments in decimal.
pub open spec fn frame_pretty_text(ip: nat, cs: nat, flags: nat, sp: nat, ss: nat) -> Seq<char> {
    "ExceptionStackFrame {\n    instruction_pointer: "@ + hex_text(ip) + ",\n    code_segment: "@
        + digits(cs, 10) + ",\n    cpu_flags: "@ + hex_text(flags) + ",\n    stack_pointer: "@
        + hex_text(sp) + ",\n    stack_segment: "@ + digits(ss, 10) + ",\n}"@
}

/// Appends the exception stack frame with these values as `{:#?}` writes it.
fn push_frame_pretty(s: &mut String, ip: u64, cs: u64, flags: u64, sp: u64, ss: u64)
    ensures
        final(s)@ == old(s)@ + frame_pretty_text(ip as nat, cs as nat, flags as nat, sp as nat, ss as nat),
{
    let ghost before = s@;
    s.append("ExceptionStackFrame {\n    instruction_pointer: ");
    push_hex(s, ip);
    s.append(",\n    code_segment: ");
    push_decimal(s, cs);
    s.append(",\n    cpu_flags: ");
    push_hex(s, flags);
    s.append(",\n    stack_pointer: ");
    push_hex(s, sp);
    s.append(",\n    stack_segment: ");
    push_decimal(s, ss);
    s.append(",\n}");
    proof {
        assert(s@ =~= before + frame_pretty_text(ip as nat, cs as nat, flags as nat, sp as nat, ss as nat));
    }
}

/// One value of a stack frame as a report shows it.
#[derive(Clone, Copy, Debug)]
pub struct StackField {
    pub name: &'static str,
    pub value: u64,
    /// shown in hexadecimal rather than decimal
    pub hex: bool,
}

/// The frame of an exception without error code (64-bit).
#[derive(Clone, Copy, PartialEq, Eq, Structural, Debug)]
pub struct ExceptionStackFrame {
    pub instruction_pointer: u64,
    pub code_segment: u64,
    pub cpu_flags: u64,
    pub stack_pointer: u64,
    pub stack_segment: u64,
}

impl ExceptionStackFrame {
    /// The frame as its report writes it: the struct name and each field, addresses and
    /// flags in hexadecimal, segments in decimal.
    pub open spec fn debug_text(&self) -> Seq<char> {
        "ExceptionStackFrame { instruction_pointer: "@ + hex_text(self.instruction_pointer as nat)
            + ", code_segment: "@ + digits(self.code_segment as nat, 10) + ", cpu_flags: "@
            + hex_text(self.cpu_flags as nat) + ", stack_pointer: "@ + hex_text(
            self.stack_pointer as nat,
        ) + ", stack_segment: "@ + digits(self.stack_segment as nat, 10) + " }"@
    }

    /// The frame as `{:#?}` writes it.
    pub open spec fn pretty_text(&self) -> Seq<char> {
        frame_pretty_text(
            self.instruction_pointer as nat,
            self.code_segment as nat,
            self.cpu_flags as nat,
            self.stack_pointer as nat,
            self.stack_segment as nat,
        )
    }

    /// The frame as `{:#?}` writes it (see `pretty_text`).
    pub fn pretty_string(&self) -> (r: String)
        ensures
            r@ == self.pretty_text(),
    {
        let mut s = String::new();
        push_frame_pretty(
            &mut s,
            self.instruction_pointer,
            self.code_segment,
            self.cpu_flags,
            self.stack_pointer,
            self.stack_segment,
        );
        proof {
            assert(s@ =~= self.pretty_text());
        }
        s
    }

    /// What the breakpoint handler prints: the exception's name and the frame.
    pub fn breakpoint_report(&self) -> (r: String)
        ensures
            r@ == "EXCEPTION: BREAKPOINT\n"@ + self.pretty_text(),
    {
        let mut s = String::new();
        s.append("EXCEPTION: BREAKPOINT\n");
        proof {
            assert(s@ =~= "EXCEPTION: BREAKPOINT\n"@);
        }
        push_frame_pretty(
            &mut s,
            self.instruction_pointer,
            self.code_segment,
            self.cpu_flags,
            self.stack_pointer,
            self.stack_segment,
        );
        s
    }

    /// The frame as its report writes it (see `debug_text`).
    pub fn debug_string(&self) -> (r: String)
        ensures
            r@ == self.debug_text(),
    {
        let mut s = String::new();
        s.append("ExceptionStackFrame { instruction_pointer: ");
        proof {
            assert(s@ =~= "ExceptionStackFrame { instruction_pointer: "@);
        }
        push_hex(&mut s, self.instruction_pointer);
        s.append(", code_segment: ");
        push_decimal(&mut s, self.code_segment);
        s.append(", cpu_flags: ");
        push_hex(&mut s, self.cpu_flags);
        s.append(", stack_pointer: ");
        push_hex(&mut s, self.stack_pointer);
        s.append(", stack_segment: ");
        push_decimal(&mut s, self.stack_segment);
        s.append(" }");
        s
    }

    /// The values in the order of the report; addresses and flags in hexadecimal.
    pub fn fields(&self) -> (r: Vec<StackField>)
        ensures
            r@ == seq![
                StackField { name: "instruction_pointer", value: self.instruction_pointer, hex: true },
                StackField { name: "code_segment", value: self.code_segment, hex: false },
                StackField { name: "cpu_flags", value: self.cpu_flags, hex: true },
                StackField { name: "stack_pointer", value: self.stack_pointer, hex: true },
                StackField { name: "stack_segment", value: self.stack_segment, hex: false },
            ],
    {
        let mut s: Vec<StackField> = Vec::new();
        s.push(StackField { name: "instruction_pointer", value: self.instruction_pointer, hex: true });
        s.push(StackField { name: "code_segment", value: self.code_segment, hex: false });
        s.push(StackField { name: "cpu_flags", value: self.cpu_flags, hex: true });
        s.push(StackField { name: "stack_pointer", value: self.stack_pointer, hex: true });
        s.push(StackField { name: "stack_segment", value: self.stack_segment, hex: false });
        s
    }
}

/// The frame of an exception with error code (32-bit).
#[derive(Clone, Copy, PartialEq, Eq, Structural, Debug)]
pub struct ErrorExceptionStackFrame {
    pub error_code: u32,
    pub instruction_pointer: u32,
    pub code_segment: u32,
    pub cpu_flags: u32,
    pub stack_pointer: u32,
    pub stack_segment: u32,
}

impl ErrorExceptionStackFrame {
    /// The values in the order of the report; addresses and flags in hexadecimal.
    pub fn fields(&self) -> (r: Vec<StackField>)
        ensures
            r@ == seq![
                StackField { name: "error_code", value: self.error_code as u64, hex: false },
                StackField { name: "instruction_pointer", value: self.instruction_pointer as u64, hex: true },
                StackField { name: "code_segment", value: self.code_segment as u64, hex: false },
                StackField { name: "cpu_flags", value: self.cpu_flags as u64, hex: true },
                StackField { name: "stack_pointer", value: self.stack_pointer as u64, hex: true },
                StackField { name: "stack_segment", value: self.stack_segment as u64, hex: false },
            ],
    {
        let mut s: Vec<StackField> = Vec::new();
        s.push(StackField { name: "error_code", value: self.error_code as u64, hex: false });
        s.push(StackField { name: "instruction_pointer", value: self.instruction_pointer as u64, hex: true });
        s.push(StackField { name: "code_segment", value: self.code_segment as u64, hex: false });
        s.push(StackField { name: "cpu_flags", value: self.cpu_flags as u64, hex: true });
        s.push(StackField { name: "stack_pointer", value: self.stack_pointer as u64, hex: true });
        s.push(StackField { name: "stack_segment", value: self.stack_segment as u64, hex: false });
        s
    }
}

/// The error code an exception pushes.
#[derive(Clone, Copy, PartialEq, Eq, Structural, Debug)]
pub struct ErrorCode(pub u64);

/// A value shown in hexadecimal.
#[derive(Clone, Copy, PartialEq, Eq, Structural, Debug)]
pub struct StackHex(pub u64);

/// The frame of an exception without error code (32-bit).
#[derive(Clone, Copy, PartialEq, Eq, Structural, Debug)]
pub struct ExceptionStack32 {
    pub instruction_pointer: u32,
    pub code_segment: u32,
    pub cpu_flags: u32,
    pub stack_pointer: u32,
    pub stack_segment: u32,
}

impl ExceptionStack32 {
    /// The frame as `{:#?}` writes it, as the 32-bit handlers print it.
    pub open spec fn pretty_text(&self) -> Seq<char> {
        frame_pretty_text(
            self.instruction_pointer as nat,
            self.code_segment as nat,
            self.cpu_flags as nat,
            self.stack_pointer as nat,
            self.stack_segment as nat,
        )
    }

    /// What a 32-bit exception handler prints first: an empty line, then the frame.
    pub fn report(&self) -> (r: String)
        ensures
            r@ == "\n"@ + self.pretty_text(),
    {
        let mut s = String::new();
        s.append("\n");
        proof {
            assert(s@ =~= "\n"@);
        }
        push_frame_pretty(
            &mut s,
            self.instruction_pointer as u64,
            self.code_segment as u64,
            self.cpu_flags as u64,
            self.stack_pointer as u64,
            self.stack_segment as u64,
        );
        s
    }
}

/// The frame of an exception with error code (32-bit).
#[derive(Clone, Copy, PartialEq, Eq, Structural, Debug)]
pub struct ErrorStack32 {
    pub error_code: u32,
    pub instruction_pointer: u32,
    pub code_segment: u32,
    pub cpu_flags: u32,
    pub stack_pointer: u32,
    pub stack_segment: u32,
}

impl ErrorStack32 {
    /// The values in the order of the report, all in hexadecimal.
    pub fn fields(&self) -> (r: Vec<StackField>)
        ensures
            r@ == seq![
                StackField { name: "error_code", value: self.error_code as u64, hex: true },
                StackField { name: "instruction_pointer", value: self.instruction_pointer as u64, hex: true },
                StackField { name: "code_segment", value: self.code_segment as u64, hex: true },
                StackField { name: "cpu_flags", value: self.cpu_flags as u64, hex: true },
                StackField { name: "stack_pointer", value: self.stack_pointer as u64, hex: true },
                StackField { name: "stack_segment", value: self.stack_segment as u64, hex: true },
            ],
    {
        let mut s: Vec<StackField> = Vec::new();
        s.push(StackField { name: "error_code", value: self.error_code as u64, hex: true });
        s.push(StackField { name: "instruction_pointer", value: self.instruction_pointer as u64, hex: true });
        s.push(StackField { name: "code_segment", value: self.code_segment as u64, hex: true });
        s.push(StackField { name: "cpu_flags", value: self.cpu_flags as u64, hex: true });
        s.push(StackField { name: "stack_pointer", value: self.stack_pointer as u64, hex: true });
        s.push(StackField { name: "stack_segment", value: self.stack_segment as u64, hex: true });
        s
    }
}

/// The frame of an exception (64-bit); the error code, where there is one, is passed apart.
#[derive(Clone, Copy, PartialEq, Eq, Structural, Debug)]
pub struct ExceptionStack64 {
    pub instruction_pointer: u64,
    pub code_segment: u64,
    pub cpu_flags: u64,
    pub stack_pointer: u64,
    pub stack_segment: u64,
}

/// The registers saved on entry to the system call handler.
#[derive(Clone, Copy, PartialEq, Eq, Structural, Debug)]
pub struct SyscallStack {
    pub fs: u64,
    pub r11: u64,
    pub r10: u64,
    pub r9: u64,
    pub r8: u64,
    pub rsi: u64,
    pub rdi: u64,
    pub rdx: u64,
    pub rcx: u64,
    pub rip: u64,
    pub cs: u64,
    pub rflags: u64,
}

impl SyscallStack {
    /// The registers as the report writes them: the struct name and each register in
    /// hexadecimal.
    pub open spec fn debug_text(&self) -> Seq<char> {
        "SyscallStack { fs: "@ + hex_text(self.fs as nat) + ", r11: "@ + hex_text(self.r11 as nat)
            + ", r10: "@ + hex_text(self.r10 as nat) + ", r9: "@ + hex_text(self.r9 as nat)
            + ", r8: "@ + hex_text(self.r8 as nat) + ", rsi: "@ + hex_text(self.rsi as nat)
            + ", rdi: "@ + hex_text(self.rdi as nat) + ", rdx: "@ + hex_text(self.rdx as nat)
            + ", rcx: "@ + hex_text(self.rcx as nat) + ", rip: "@ + hex_text(self.rip as nat)
            + ", cs: "@ + hex_text(self.cs as nat) + ", rflags: "@ + hex_text(self.rflags as nat)
            + " }"@
    }

    /// The registers as the report writes them (see `debug_text`).
    pub fn debug_string(&self) -> (r: String)
        ensures
            r@ == self.debug_text(),
    {
        let mut s = String::new();
        s.append("SyscallStack { fs: ");
        proof {
            assert(s@ =~= "SyscallStack { fs: "@);
        }
        push_hex(&mut s, self.fs);
        s.append(", r11: ");
        push_hex(&mut s, self.r11);
        s.append(", r10: ");
        push_hex(&mut s, self.r10);
        s.append(", r9: ");
        push_hex(&mut s, self.r9);
        s.append(", r8: ");
        push_hex(&mut s, self.r8);
        s.append(", rsi: ");
        push_hex(&mut s, self.rsi);
        s.append(", rdi: ");
        push_hex(&mut s, self.rdi);
        s.append(", rdx: ");
        push_hex(&mut s, self.rdx);
        s.append(", rcx: ");
        push_hex(&mut s, self.rcx);
        s.append(", rip: ");
        push_hex(&mut s, self.rip);
        s.append(", cs: ");
        push_hex(&mut s, self.cs);
        s.append(", rflags: ");
        push_hex(&mut s, self.rflags);
        s.append(" }");
        s
    }

    /// The registers in the order of the report, all in hexadecimal.
    pub fn fields(&self) -> (r: Vec<StackField>)
        ensures
            r@ == seq![
                StackField { name: "fs", value: self.fs, hex: true },
                StackField { name: "r11", value: self.r11, hex: true },
                StackField { name: "r10", value: self.r10, hex: true },
                StackField { name: "r9", value: self.r9, hex: true },
                StackField { name: "r8", value: self.r8, hex: true },
                StackField { name: "rsi", value: self.rsi, hex: true },
                StackField { name: "rdi", value: self.rdi, hex: true },
                StackField { name: "rdx", value: self.rdx, hex: true },
                StackField { name: "rcx", value: self.rcx, hex: true },
                StackField { name: "rip", value: self.rip, hex: true },
                StackField { name: "cs", value: self.cs, hex: true },
                StackField { name: "rflags", value: self.rflags, hex: true },
            ],
    {
        let mut s: Vec<StackField> = Vec::new();
        s.push(StackField { name: "fs", value: self.fs, hex: true });
        s.push(StackField { name: "r11", value: self.r11, hex: true });
        s.push(StackField { name: "r10", value: self.r10, hex: true });
        s.push(StackField { name: "r9", value: self.r9, hex: true });
        s.push(StackField { name: "r8", value: self.r8, hex: true });
        s.push(StackField { name: "rsi", value: self.rsi, hex: true });
        s.push(StackField { name: "rdi", value: self.rdi, hex: true });
        s.push(StackField { name: "rdx", value: self.rdx, hex: true });
        s.push(StackField { name: "rcx", value: self.rcx, hex: true });
        s.push(StackField { name: "rip", value: self.rip, hex: true });
        s.push(StackField { name: "cs", value: self.cs, hex: true });
        s.push(StackField { name: "rflags", value: self.rflags, hex: true });
        s
    }
}

} // verus!
