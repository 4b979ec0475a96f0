//! Setting the interrupt controllers and the serial ports up.

use vstd::prelude::*;

use crate::port::PortWrite;
use crate::serial::{init_sequence, SerialPort};

pub mod pic;
pub mod serial;

verus! {

/// The writes that set up the interrupt controllers, then the serial ports.
pub fn init(com1: &SerialPort, com2: &SerialPort) -> (r: Vec<PortWrite>)
    ensures
        r@ == pic::init_sequence() + init_sequence(com1) + init_sequence(com2),
{
    let mut writes = pic::init();
    let mut more = serial::init(com1, com2);
    writes.append(&mut more);
    proof {
        assert(pic::init_sequence() + init_sequence(com1) + init_sequence(com2) =~= pic::init_sequence()
            + (init_sequence(com1) + init_sequence(com2)));
    }
    writes
}

} // verus!
