//! The first serial port, as far as it is decided without touching it: which
//! registers are written to set it up, and when a byte may be sent.

use vstd::prelude::*;
use vstd::string::StringSliceAdditionalSpecFns;

verus! {

/// First serial port
pub const COM1: u16 = 0x3F8;

/// The highest base that leaves room for the registers of a port.
pub const HIGHEST_BASE: u16 = 0xfffa;

/// The bit of the line status that says that the transmit buffer is empty.
pub const TRANSMIT_EMPTY: u8 = 0x20;

/// How the bit of the line status is read.
proof fn lemma_transmit_bit(status: u8)
    by (bit_vector)
    ensures
        (status & 0x20 == 0) == ((status / 32u8) % 2u8 == 0),
{
}

/// A serial port: eight I/O ports from `base` on.
#[derive(Debug, Clone, Copy, PartialEq, Eq)]
pub struct SerialPort {
    base: u16,
}

impl SerialPort {
    /// What holds of every serial port: its registers fit the I/O ports.
    #[verifier::type_invariant]
    spec fn inv(self) -> bool {
        self.base <= HIGHEST_BASE
    }

    /// The I/O port of the first register.
    pub closed spec fn base(self) -> u16 {
        self.base
    }

    /// The serial port at `base`, or `None` for a base that leaves no room
    /// for its registers.
    pub fn new(base: u16) -> (r: Option<SerialPort>)
        ensures
            r.is_some() == (base <= HIGHEST_BASE),
            r.is_some() ==> r.unwrap().base() == base,
    {
        if base <= HIGHEST_BASE {
            Some(SerialPort { base })
        } else {
            None
        }
    }

    /// The I/O port from which the line status is read.
    pub fn status_port(&self) -> (port: u16)
        ensures
            port == self.base() + 5,
    {
        proof {
            use_type_invariant(self);
        }
        self.base + 5
    }

    /// The writes that set the port up, in order, each as the I/O port and
    /// the byte: interrupts off, the divisor 3 for 38400 baud behind the
    /// divisor latch, 8 bits without parity and one stop bit, the FIFO on
    /// and cleared with a threshold of 14 bytes, and RTS/DSR set.
    pub fn init(&self) -> (writes: [(u16, u8); 7])
        ensures
            writes@ == seq![
                ((self.base() + 1) as u16, 0x00u8),
                ((self.base() + 3) as u16, 0x80u8),
                ((self.base() + 0) as u16, 0x03u8),
                ((self.base() + 1) as u16, 0x00u8),
                ((self.base() + 3) as u16, 0x03u8),
                ((self.base() + 2) as u16, 0xC7u8),
                ((self.base() + 4) as u16, 0x0Bu8),
            ],
    {
        proof {
            use_type_invariant(self);
        }
        let writes = [
            // Disable interrupts
            (self.base + 1, 0x00),
            // Enable DLAB (set baud rate divisor)
            (self.base + 3, 0x80),
            // Set divisor to 3 (lo byte) 38400 baud
            (self.base + 0, 0x03),
            // (hi byte)
            (self.base + 1, 0x00),
            // 8 bits, no parity, one stop bit
            (self.base + 3, 0x03),
            // Enable FIFO, clear them, with 14-byte threshold
            (self.base + 2, 0xC7),
            // IRQs enabled, RTS/DSR set
            (self.base + 4, 0x0B),
        ];
        assert(writes@ =~= seq![
            ((self.base() + 1) as u16, 0x00u8),
            ((self.base() + 3) as u16, 0x80u8),
            ((self.base() + 0) as u16, 0x03u8),
            ((self.base() + 1) as u16, 0x00u8),
            ((self.base() + 3) as u16, 0x03u8),
            ((self.base() + 2) as u16, 0xC7u8),
            ((self.base() + 4) as u16, 0x0Bu8),
        ]);
        writes
    }

    /// What sends `byte` when the line status reads `status`: the write of
    /// the byte to the first register once bit 5 of the status says that the
    /// transmit buffer is empty, and nothing before that.
    pub fn write_byte(&self, status: u8, byte: u8) -> (write: Option<(u16, u8)>)
        ensures
            write == if (status / 32) % 2 == 0 {
                None
            } else {
                Some((self.base(), byte))
            },
    {
        proof {
            lemma_transmit_bit(status);
        }
        if (status & TRANSMIT_EMPTY) == 0 {
            None
        } else {
            Some((self.base, byte))
        }
    }

    /// The writes that send `s`, one for each of its bytes in order. Each of
    /// them waits until the transmit buffer is empty.
    pub fn write_str(&self, s: &str) -> (writes: Vec<(u16, u8)>)
        ensures
            writes@.len() == s.spec_bytes().len(),
            forall|i: int|
                0 <= i < writes@.len() ==> #[trigger] writes@[i] == (self.base(), s.spec_bytes()[i]),
    {
        let bytes = s.as_bytes();
        let mut writes: Vec<(u16, u8)> = Vec::new();
        for i in 0..bytes.len()
            invariant
                bytes@ == s.spec_bytes(),
                writes@.len() == i,
                forall|j: int| 0 <= j < i ==> #[trigger] writes@[j] == (self.base(), bytes@[j]),
        {
            writes.push((self.base, bytes[i]));
        }
        writes
    }
}

} // verus!
