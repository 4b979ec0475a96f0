//! The 16550 UART serial ports. What is sent is queued here as bytes for the data register;
//! the caller hands them to the port, waiting for an empty transmitter before each.

use vstd::prelude::*;
use vstd::string::StringSliceAdditionalSpecFns;

use crate::port::PortWrite;

verus! {

pub const MAX_HEIGHT: usize = 25;

pub const COM1_PORT: u16 = 0x3F8;

pub const COM2_PORT: u16 = 0x2F8;

/// Line status: received data is ready.
pub const DATA_READY: u8 = 0x01;

/// Line status: the transmitter holding register is empty.
pub const THR_EMPTY: u8 = 0x20;

/// Line status: the transmitter is empty.
pub const TRANS_EMPTY: u8 = 0x40;

/// The bits of the line status register.
#[derive(Clone, Copy, PartialEq, Eq, Structural, Debug)]
pub struct LineStsFlags {
    pub bits: u8,
}

impl LineStsFlags {
    /// The named flags among `bits`; other bits are dropped.
    pub fn from_bits_truncate(bits: u8) -> (r: LineStsFlags)
        ensures
            r.bits == bits & (DATA_READY | THR_EMPTY | TRANS_EMPTY),
    {
        LineStsFlags { bits: bits & (DATA_READY | THR_EMPTY | TRANS_EMPTY) }
    }

    pub fn contains(&self, flag: u8) -> (r: bool)
        ensures
            r == (self.bits & flag == flag),
    {
        self.bits & flag == flag
    }
}

/// The bytes the data register receives to show `data`: a backspace or delete rubs out
/// the previous character, a line feed is followed by a carriage return.
pub open spec fn encoded(data: u8) -> Seq<u8> {
    if data == 8 || data == 0x7F {
        seq![8u8, 32u8, 8u8]
    } else if data == 10 {
        seq![10u8, 13u8]
    } else {
        seq![data]
    }
}

/// The bytes the data register receives to show `bytes`, one after the other.
pub open spec fn encoded_all(bytes: Seq<u8>) -> Seq<u8>
    decreases bytes.len(),
{
    if bytes.len() == 0 {
        Seq::empty()
    } else {
        encoded_all(bytes.drop_last()) + encoded(bytes.last())
    }
}

/// Sending two strings one after the other sends their concatenation.
pub proof fn lemma_encoded_all_concat(a: Seq<u8>, b: Seq<u8>)
    ensures
        encoded_all(a + b) == encoded_all(a) + encoded_all(b),
    decreases b.len(),
{
    if b.len() == 0 {
        assert(a + b =~= a);
        assert(encoded_all(a) + encoded_all(b) =~= encoded_all(a));
    } else {
        assert((a + b).drop_last() =~= a + b.drop_last());
        lemma_encoded_all_concat(a, b.drop_last());
        assert(encoded_all(a) + (encoded_all(b.drop_last()) + encoded(b.last())) =~= (encoded_all(a)
            + encoded_all(b.drop_last())) + encoded(b.last()));
    }
}

/// The register writes that set a port up.
pub open spec fn init_sequence(port: &SerialPort) -> Seq<PortWrite> {
    seq![
                PortWrite { port: port.int_en, value: 0x00u8 },
                PortWrite { port: port.line_ctrl, value: 0x80u8 },
                PortWrite { port: port.data, value: 0x03u8 },
                PortWrite { port: port.int_en, value: 0x00u8 },
                PortWrite { port: port.line_ctrl, value: 0x03u8 },
                PortWrite { port: port.fifo_ctrl, value: 0xC7u8 },
                PortWrite { port: port.modem_ctrl, value: 0x0Bu8 },
                PortWrite { port: port.int_en, value: 0x01u8 },
            ]
}

/// One serial port: the numbers of its registers and the bytes queued for its data register.
pub struct SerialPort {
    pub data: u16,
    pub int_en: u16,
    pub fifo_ctrl: u16,
    pub line_ctrl: u16,
    pub modem_ctrl: u16,
    pub line_sts: u16,
    pub modem_sts: u16,
    pub pending: Vec<u8>,
}

impl SerialPort {
    /// The bytes queued for the data register, oldest first.
    pub open spec fn queued(&self) -> Seq<u8> {
        self.pending@
    }

    /// The port whose registers start at `base`.
    pub fn new(base: u16) -> (r: SerialPort)
        requires
            base <= u16::MAX - 6,
        ensures
            r.data == base,
            r.int_en == base + 1,
            r.fifo_ctrl == base + 2,
            r.line_ctrl == base + 3,
            r.modem_ctrl == base + 4,
            r.line_sts == base + 5,
            r.modem_sts == base + 6,
            r.queued() == Seq::<u8>::empty(),
    {
        SerialPort {
            data: base,
            int_en: base + 1,
            fifo_ctrl: base + 2,
            line_ctrl: base + 3,
            modem_ctrl: base + 4,
            line_sts: base + 5,
            modem_sts: base + 6,
            pending: Vec::new(),
        }
    }

    /// The register writes that set the port up: interrupts off, 38400 baud, 8 bits, no
    /// parity, one stop bit, FIFOs on and cleared, then the receive interrupt on.
    pub fn init(&self) -> (r: Vec<PortWrite>)
        ensures
            r@ == init_sequence(self),
    {
        let mut writes: Vec<PortWrite> = Vec::new();
        writes.push(PortWrite { port: self.int_en, value: 0x00 });  // disable interrupts
        writes.push(PortWrite { port: self.line_ctrl, value: 0x80 });  // enable the divisor latch
        writes.push(PortWrite { port: self.data, value: 0x03 });  // divisor 3, low byte
        writes.push(PortWrite { port: self.int_en, value: 0x00 });  // divisor, high byte
        writes.push(PortWrite { port: self.line_ctrl, value: 0x03 });  // 8 bits, no parity, one stop bit
        writes.push(PortWrite { port: self.fifo_ctrl, value: 0xC7 });  // FIFOs on, cleared, 14-byte threshold
        writes.push(PortWrite { port: self.modem_ctrl, value: 0x0B });  // IRQs enabled, RTS/DSR set
        writes.push(PortWrite { port: self.int_en, value: 0x01 });
        writes
    }

    /// The line status flags among the raw status `bits` read from the port.
    pub fn line_sts(&self, bits: u8) -> (r: LineStsFlags)
        ensures
            r.bits == bits & (DATA_READY | THR_EMPTY | TRANS_EMPTY),
    {
        LineStsFlags::from_bits_truncate(bits)
    }

    /// One poll of receiving a byte, with line status `status`: `None` while the line
    /// reports data ready (the caller polls the status again), then the register to read
    /// the byte from.
    pub fn receive(&self, status: LineStsFlags) -> (r: Option<u16>)
        ensures
            r == (if status.bits & DATA_READY == DATA_READY {
                None
            } else {
                Some(self.data)
            }),
    {
        if status.contains(DATA_READY) {
            None
        } else {
            Some(self.data)
        }
    }

    /// Queues the bytes that show `data`.
    pub fn send(&mut self, data: u8)
        ensures
            final(self).queued() == old(self).queued() + encoded(data),
            final(self).data == old(self).data,
            final(self).line_sts == old(self).line_sts,
    {
        if data == 8 || data == 0x7F {
            // backspace or delete
            self.pending.push(8);
            self.pending.push(32);
            self.pending.push(8);
        } else if data == 10 {
            self.pending.push(data);
            self.pending.push(13);
        } else {
            self.pending.push(data);
        }
        assert(self.pending@ =~= old(self).pending@ + encoded(data));
    }

    /// Scrolls the terminal on the other end by `MAX_HEIGHT` lines.
    pub fn clear_screen(&mut self)
        ensures
            final(self).queued() == old(self).queued() + Seq::new(
                2 * MAX_HEIGHT as nat,
                |i: int|
                    if i % 2 == 0 {
                        10u8
                    } else {
                        13u8
                    },
            ),
    {
        let mut i: usize = 0;
        while i < MAX_HEIGHT
            invariant
                i <= MAX_HEIGHT,
                self.queued() == old(self).queued() + Seq::new(
                    2 * i as nat,
                    |k: int|
                        if k % 2 == 0 {
                            10u8
                        } else {
                            13u8
                        },
                ),
            decreases MAX_HEIGHT - i,
        {
            self.send(10);
            i = i + 1;
            assert(self.queued() =~= old(self).queued() + Seq::new(
                2 * i as nat,
                |k: int|
                    if k % 2 == 0 {
                        10u8
                    } else {
                        13u8
                    },
            ));
        }
    }

    /// Queues the bytes that show `s`.
    pub fn write_str(&mut self, s: &str)
        ensures
            final(self).queued() == old(self).queued() + encoded_all(s.spec_bytes()),
    {
        let bytes = s.as_bytes();
        let mut i: usize = 0;
        while i < bytes.len()
            invariant
                bytes@ == s.spec_bytes(),
                i <= bytes@.len(),
                self.queued() == old(self).queued() + encoded_all(bytes@.subrange(0, i as int)),
            decreases bytes@.len() - i,
        {
            proof {
                assert(bytes@.subrange(0, i + 1).drop_last() =~= bytes@.subrange(0, i as int));
            }
            self.send(bytes[i]);
            i = i + 1;
            assert(self.queued() =~= old(self).queued() + encoded_all(bytes@.subrange(0, i as int)));
        }
        assert(bytes@.subrange(0, bytes@.len() as int) =~= bytes@);
    }

    /// Hands over the queued bytes, oldest first, and empties the queue.
    pub fn take_queued(&mut self) -> (r: Vec<u8>)
        ensures
            r@ == old(self).queued(),
            final(self).queued() == Seq::<u8>::empty(),
    {
        let mut out: Vec<u8> = Vec::new();
        std::mem::swap(&mut out, &mut self.pending);
        out
    }
}

/// The register writes that set up both serial ports.
pub fn init(com1: &SerialPort, com2: &SerialPort) -> (r: Vec<PortWrite>)
    ensures
        r@ == init_sequence(com1) + init_sequence(com2),
{
    let mut writes = com1.init();
    let mut more = com2.init();
    writes.append(&mut more);
    writes
}

} // verus!
