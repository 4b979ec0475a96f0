//! The 8259 programmable interrupt controllers (a master and a slave).

use vstd::prelude::*;

use crate::port::PortWrite;

verus! {

/// Initialization command word 1: start initialization.
pub const ICW1_INIT: u8 = 0x10;

/// Initialization command word 1: no fourth command word will follow.
pub const ICW1_ICW4_NOT_NEEDED: u8 = 0x01;

/// Initialization command word 4: 8086/88 mode.
pub const ICW4_MODE_8086: u8 = 0x01;

/// End of interrupt.
pub const EOI: u8 = 0x20;

pub const MASTER_PORT: u16 = 0x20;

pub const SLAVE_PORT: u16 = 0xA0;

/// The command and data ports of one controller.
#[derive(Clone, Copy, PartialEq, Eq, Structural, Debug)]
pub struct Pic {
    pub cmd: u16,
    pub data: u16,
}

impl Pic {
    /// The controller whose command port is `port` and data port the one after it.
    pub fn new(port: u16) -> (r: Pic)
        requires
            port < u16::MAX,
        ensures
            r.cmd == port,
            r.data == port + 1,
    {
        Pic { cmd: port, data: port + 1 }
    }

    /// Acknowledges the interrupt being served.
    pub fn ack(&self) -> (r: PortWrite)
        ensures
            r == (PortWrite { port: self.cmd, value: EOI }),
    {
        PortWrite { port: self.cmd, value: EOI }
    }

    /// Masks line `irq`, given the mask last read from the data port.
    pub fn mask_set(&self, mask: u8, irq: u8) -> (r: PortWrite)
        requires
            irq < 8,
        ensures
            r.port == self.data,
            r.value == mask | (1u8 << irq),
            forall|i: u8| i < 8 ==> #[trigger] ((r.value >> i) & 1) == if i == irq {
                1
            } else {
                (mask >> i) & 1
            },
    {
        let value = mask | (1u8 << irq);
        assert(forall|i: u8|
            i < 8 ==> #[trigger] (((mask | (1u8 << irq)) >> i) & 1) == if i == irq {
                1
            } else {
                (mask >> i) & 1
            }) by (bit_vector)
            requires
                irq < 8,
        ;
        PortWrite { port: self.data, value }
    }

    /// Unmasks line `irq`, given the mask last read from the data port.
    pub fn mask_clear(&self, mask: u8, irq: u8) -> (r: PortWrite)
        requires
            irq < 8,
        ensures
            r.port == self.data,
            r.value == mask & !(1u8 << irq),
            forall|i: u8| i < 8 ==> #[trigger] ((r.value >> i) & 1) == if i == irq {
                0
            } else {
                (mask >> i) & 1
            },
    {
        let value = mask & !(1u8 << irq);
        assert(forall|i: u8|
            i < 8 ==> #[trigger] (((mask & !(1u8 << irq)) >> i) & 1) == if i == irq {
                0
            } else {
                (mask >> i) & 1
            }) by (bit_vector)
            requires
                irq < 8,
        ;
        PortWrite { port: self.data, value }
    }
}

/// Masking a line and unmasking it again leaves the mask as unmasking alone does, and the
/// other way round; each line's bit is its own.
pub proof fn lemma_mask_set_clear(mask: u8, irq: u8)
    requires
        irq < 8,
    ensures
        (mask | (1u8 << irq)) & !(1u8 << irq) == mask & !(1u8 << irq),
        (mask & !(1u8 << irq)) | (1u8 << irq) == mask | (1u8 << irq),
        (mask | (1u8 << irq)) | (1u8 << irq) == mask | (1u8 << irq),
{
    assert((mask | (1u8 << irq)) & !(1u8 << irq) == mask & !(1u8 << irq) && (mask & !(1u8 << irq))
        | (1u8 << irq) == mask | (1u8 << irq) && (mask | (1u8 << irq)) | (1u8 << irq) == mask | (1u8
        << irq)) by (bit_vector)
        requires
            irq < 8,
    ;
}

/// The line of the main controller that the worker controller is wired to.
pub const SLAVE_LINE: u8 = 2;

/// The cascade words of the initialization agree on the wiring: the main controller is
/// told the worker sits on line `SLAVE_LINE` (as the bit mask `1 << SLAVE_LINE`), and the
/// worker is told its cascade identity `SLAVE_LINE`; each goes to its controller's data port.
pub proof fn lemma_cascade_words()
    ensures
        init_sequence()[4] == (PortWrite { port: (MASTER_PORT + 1) as u16, value: 1u8 << SLAVE_LINE }),
        init_sequence()[5] == (PortWrite { port: (SLAVE_PORT + 1) as u16, value: SLAVE_LINE }),
        init_sequence()[4].value == 1u8 << init_sequence()[5].value,
{
    assert(1u8 << 2u8 == 4u8) by (bit_vector);
}

/// The writes that initialize both controllers, in order: start, vector offsets 0x20 and
/// 0x28, cascade on line 2, 8086 mode, nothing masked, and an acknowledgement of what is
/// pending.
pub open spec fn init_sequence() -> Seq<PortWrite> {
    seq![
            PortWrite { port: 0x20u16, value: 0x11u8 },
            PortWrite { port: 0xA0u16, value: 0x11u8 },
            PortWrite { port: 0x21u16, value: 0x20u8 },
            PortWrite { port: 0xA1u16, value: 0x28u8 },
            PortWrite { port: 0x21u16, value: 4u8 },
            PortWrite { port: 0xA1u16, value: 2u8 },
            PortWrite { port: 0x21u16, value: 1u8 },
            PortWrite { port: 0xA1u16, value: 1u8 },
            PortWrite { port: 0x21u16, value: 0u8 },
            PortWrite { port: 0xA1u16, value: 0u8 },
            PortWrite { port: 0x20u16, value: 0x20u8 },
            PortWrite { port: 0xA0u16, value: 0x20u8 },
        ]
}

/// The writes that initialize both controllers (see `init_sequence`).
pub fn init() -> (r: Vec<PortWrite>)
    ensures
        r@ == init_sequence(),
{
    let master = Pic::new(MASTER_PORT);
    let slave = Pic::new(SLAVE_PORT);
    let mut writes: Vec<PortWrite> = Vec::new();
    // start initialization
    writes.push(PortWrite { port: master.cmd, value: ICW1_INIT + ICW1_ICW4_NOT_NEEDED });
    writes.push(PortWrite { port: slave.cmd, value: ICW1_INIT + ICW1_ICW4_NOT_NEEDED });
    // set offsets
    writes.push(PortWrite { port: master.data, value: 0x20 });
    writes.push(PortWrite { port: slave.data, value: 0x28 });
    // set up cascade
    writes.push(PortWrite { port: master.data, value: 4 });
    writes.push(PortWrite { port: slave.data, value: 2 });
    // interrupt mode
    writes.push(PortWrite { port: master.data, value: ICW4_MODE_8086 });
    writes.push(PortWrite { port: slave.data, value: ICW4_MODE_8086 });
    // unmask interrupts
    writes.push(PortWrite { port: master.data, value: 0 });
    writes.push(PortWrite { port: slave.data, value: 0 });
    // acknowledge remaining interrupts
    writes.push(master.ack());
    writes.push(slave.ack());
    writes
}

} // verus!
