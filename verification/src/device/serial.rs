//! Setting up the two serial ports of the kernel.

use vstd::prelude::*;

use crate::port::PortWrite;
use crate::serial::{init_sequence, SerialPort};

verus! {

pub const SERIAL_PORT1: u16 = 0x3F8;

pub const SERIAL_PORT2: u16 = 0x2F8;

/// The writes that set up both serial ports, the first one first.
pub fn init(com1: &SerialPort, com2: &SerialPort) -> (r: Vec<PortWrite>)
    ensures
        r@ == init_sequence(com1) + init_sequence(com2),
{
    crate::serial::init(com1, com2)
}

} // verus!
