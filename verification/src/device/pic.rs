//! Setting up the interrupt controllers with a short wait after each write: a write to the
//! unused port 0x80 takes long enough on the hardware that needs it.

use vstd::prelude::*;

use crate::pic::{Pic, ICW1_ICW4_NOT_NEEDED, ICW1_INIT, ICW4_MODE_8086, MASTER_PORT, SLAVE_PORT};
use crate::port::PortWrite;

verus! {

/// The port whose writes only take time.
pub const WAIT_PORT: u16 = 0x80;

/// A write, then a write to the wait port.
pub open spec fn then_wait(port: u16, value: u8) -> Seq<PortWrite> {
    seq![PortWrite { port, value }, PortWrite { port: WAIT_PORT, value: 0 }]
}

/// Start, vector offsets 0x20 and 0x28, cascade on line 2, 8086 mode; each write followed
/// by a wait.
pub open spec fn init_sequence() -> Seq<PortWrite> {
    then_wait(0x20, 0x11) + then_wait(0xA0, 0x11) + then_wait(0x21, 0x20) + then_wait(0xA1, 0x28)
        + then_wait(0x21, 4) + then_wait(0xA1, 2) + then_wait(0x21, 1) + then_wait(0xA1, 1)
}

fn write_then_wait(writes: &mut Vec<PortWrite>, port: u16, data: u8)
    ensures
        final(writes)@ == old(writes)@ + then_wait(port, data),
{
    writes.push(PortWrite { port, value: data });
    writes.push(PortWrite { port: WAIT_PORT, value: 0 });
    assert(writes@ =~= old(writes)@ + then_wait(port, data));
}

/// The writes that initialize both controllers.
pub fn init() -> (r: Vec<PortWrite>)
    ensures
        r@ == init_sequence(),
{
    let master = Pic::new(MASTER_PORT);
    let slave = Pic::new(SLAVE_PORT);
    let mut writes: Vec<PortWrite> = Vec::new();
    // start initialization
    let init_value: u8 = ICW1_INIT + ICW1_ICW4_NOT_NEEDED;
    write_then_wait(&mut writes, master.cmd, init_value);
    write_then_wait(&mut writes, slave.cmd, init_value);
    // set offsets
    write_then_wait(&mut writes, master.data, 0x20);
    write_then_wait(&mut writes, slave.data, 0x28);
    // set up cascade (chaining between master and slave)
    write_then_wait(&mut writes, master.data, 0x4);
    write_then_wait(&mut writes, slave.data, 0x2);
    // set up interrupt mode
    write_then_wait(&mut writes, master.data, ICW4_MODE_8086);
    write_then_wait(&mut writes, slave.data, ICW4_MODE_8086);
    assert(writes@ =~= init_sequence());
    writes
}

} // verus!
