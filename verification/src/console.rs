//! The kernel console: the VGA text screen or the first serial port.

use vstd::prelude::*;
use vstd::string::StringSliceAdditionalSpecFns;

use crate::serial::{encoded, encoded_all, SerialPort, MAX_HEIGHT};
use crate::vga::{blank_row, write_bytes_spec, Writer};

verus! {

/// The device the console writes to.
pub enum Console {
    Vga(Writer),
    Serial(SerialPort),
}

impl Console {
    pub open spec fn wf(&self) -> bool {
        match self {
            Console::Vga(w) => w.wf(),
            Console::Serial(_) => true,
        }
    }

    /// Writes `s` to the device.
    pub fn write_str(&mut self, s: &str)
        requires
            old(self).wf(),
        ensures
            final(self).wf(),
            match (*old(self), *final(self)) {
                (Console::Vga(before), Console::Vga(after)) => {
                    &&& after.color() == before.color()
                    &&& (after.rows(), after.column()) == write_bytes_spec(
                        before.rows(),
                        before.column(),
                        before.color(),
                        s.spec_bytes(),
                    )
                },
                (Console::Serial(before), Console::Serial(after)) => after.queued()
                    == before.queued() + encoded_all(s.spec_bytes()),
                _ => false,
            },
    {
        match self {
            Console::Vga(w) => w.write_str(s),
            Console::Serial(p) => p.write_str(s),
        }
    }
}

/// Clears the device: blanks the screen, or scrolls the serial terminal by a screenful.
pub fn clear_screen(console: &mut Console)
    requires
        old(console).wf(),
    ensures
        final(console).wf(),
        match (*old(console), *final(console)) {
            (Console::Vga(before), Console::Vga(after)) => {
                &&& after.column() == before.column()
                &&& after.color() == before.color()
                &&& after.rows() == Seq::new(25, |r: int| blank_row(before.color()))
            },
            (Console::Serial(before), Console::Serial(after)) => after.queued() == before.queued()
                + Seq::new(
                2 * MAX_HEIGHT as nat,
                |i: int|
                    if i % 2 == 0 {
                        10u8
                    } else {
                        13u8
                    },
            ),
            _ => false,
        },
{
    match console {
        Console::Vga(w) => w.clear_screen(),
        Console::Serial(p) => p.clear_screen(),
    }
}

/// Sets the console up: clears it.
pub fn init(console: &mut Console)
    requires
        old(console).wf(),
    ensures
        final(console).wf(),
        match (*old(console), *final(console)) {
            (Console::Vga(before), Console::Vga(after)) => after.rows() == Seq::new(
                25,
                |r: int| blank_row(before.color()),
            ),
            (Console::Serial(before), Console::Serial(after)) => after.queued() == before.queued()
                + Seq::new(
                2 * MAX_HEIGHT as nat,
                |i: int|
                    if i % 2 == 0 {
                        10u8
                    } else {
                        13u8
                    },
            ),
            _ => false,
        },
{
    clear_screen(console);
}

} // verus!
