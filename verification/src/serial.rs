//! The serial UART driver.
//!
//! The device sits behind I/O ports; the model holds what the driver reads
//! and writes: the line-status byte, the received bytes the wire has
//! delivered, and the transmitted bytes. Hardware events (`receive`,
//! `raise_line_error`) feed the model; on the chip, reading the line
//! status register clears the error bits, mirrored here whenever an error
//! is reported.

use vstd::prelude::*;

verus! {

/// The serial ports by their conventional I/O base.
#[derive(Clone, Copy, PartialEq, Eq, Structural)]
pub enum ComPort {
    COM1,
    COM2,
    COM3,
    COM4,
}

/// The I/O port base of a serial port.
pub open spec fn spec_com_base(c: ComPort) -> u16 {
    match c {
        ComPort::COM1 => 0x3f8,
        ComPort::COM2 => 0x2f8,
        ComPort::COM3 => 0x3e8,
        ComPort::COM4 => 0x2e8,
    }
}

/// The I/O port base of a serial port.
pub fn com_base(c: ComPort) -> (r: u16)
    ensures
        r == spec_com_base(c),
{
    match c {
        ComPort::COM1 => 0x3f8,
        ComPort::COM2 => 0x2f8,
        ComPort::COM3 => 0x3e8,
        ComPort::COM4 => 0x2e8,
    }
}

/// The supported line speeds.
#[derive(Clone, Copy, PartialEq, Eq, Structural)]
pub enum BaudRate {
    BAUD_300,
    BAUD_600,
    BAUD_1200,
    BAUD_2400,
    BAUD_4800,
    BAUD_9600,
    BAUD_19200,
    BAUD_38400,
    BAUD_57600,
    BAUD_115200,
}

/// The divisor latch value of a baud rate.
pub open spec fn spec_baud_divisor(b: BaudRate) -> u16 {
    match b {
        BaudRate::BAUD_300 => 384,
        BaudRate::BAUD_600 => 192,
        BaudRate::BAUD_1200 => 96,
        BaudRate::BAUD_2400 => 48,
        BaudRate::BAUD_4800 => 24,
        BaudRate::BAUD_9600 => 12,
        BaudRate::BAUD_19200 => 6,
        BaudRate::BAUD_38400 => 3,
        BaudRate::BAUD_57600 => 2,
        BaudRate::BAUD_115200 => 1,
    }
}

/// The divisor latch value of a baud rate.
pub fn baud_divisor(b: BaudRate) -> (r: u16)
    ensures
        r == spec_baud_divisor(b),
{
    match b {
        BaudRate::BAUD_300 => 384,
        BaudRate::BAUD_600 => 192,
        BaudRate::BAUD_1200 => 96,
        BaudRate::BAUD_2400 => 48,
        BaudRate::BAUD_4800 => 24,
        BaudRate::BAUD_9600 => 12,
        BaudRate::BAUD_19200 => 6,
        BaudRate::BAUD_38400 => 3,
        BaudRate::BAUD_57600 => 2,
        BaudRate::BAUD_115200 => 1,
    }
}

/// Line-status bit: a received byte is waiting.
pub const LSR_DATA_READY: u8 = 1;
/// Line-status bit: a received byte was lost.
pub const LSR_OVERRUN_ERROR: u8 = 2;
/// Line-status bit: a parity mismatch.
pub const LSR_PARITY_ERROR: u8 = 4;
/// Line-status bit: a malformed frame.
pub const LSR_FRAMING_ERROR: u8 = 8;
/// Line-status bit: the transmit holding register is empty.
pub const LSR_THR_EMPTY: u8 = 0x20;
/// Line-status bit: the transmitter is completely idle.
pub const LSR_TRANSMITTER_EMPTY: u8 = 0x40;

/// The ways a serial operation can fail.
#[derive(Debug, Clone, PartialEq, Eq, Structural)]
pub enum SerialError {
    /// No byte waiting, or no room to send.
    Busy,
    /// A received byte was lost.
    OverrunError,
    /// A parity mismatch.
    ParityError,
    /// A malformed frame.
    FramingError,
}

/// The register writes that initialize a port: enable the divisor latch,
/// program the divisor, select 8N1 and close the latch, disable interrupts,
/// disable loopback. Returned as `(register index, value)` pairs in write
/// order.
pub fn init(com: ComPort, baud: BaudRate) -> (r: Vec<(u8, u8)>)
    ensures
        r@ =~= seq![
            (3u8, 0x80u8),
            (0u8, (spec_baud_divisor(baud) & 0xff) as u8),
            (1u8, (spec_baud_divisor(baud) >> 8) as u8),
            (3u8, 0x03u8),
            (1u8, 0u8),
            (4u8, 0u8),
        ],
{
    let d = baud_divisor(baud);
    let mut r: Vec<(u8, u8)> = Vec::new();
    r.push((3, 0b1000_0000));
    r.push((0, (d & 0xff) as u8));
    r.push((1, (d >> 8) as u8));
    r.push((3, 0b0000_0011));
    r.push((1, 0));
    r.push((4, 0));
    r
}

/// The receiving half of a port: its line status and the bytes the wire
/// has delivered but the driver has not read yet.
pub struct ReadPort {
    com: ComPort,
    status: u8,
    rx: Vec<u8>,
}

impl ReadPort {
    /// Which port this is.
    pub closed spec fn port(self) -> ComPort {
        self.com
    }

    /// The line-status byte.
    pub closed spec fn status(self) -> u8 {
        self.status
    }

    /// The delivered, unread bytes, oldest first.
    pub closed spec fn rx_seq(self) -> Seq<u8> {
        self.rx@
    }

    /// Well-formedness: the data-ready bit mirrors the receive queue.
    pub open spec fn wf(self) -> bool {
        (self.status() & LSR_DATA_READY != 0) <==> self.rx_seq().len() > 0
    }

    /// Whether an error bit is raised.
    pub open spec fn has_error(self) -> bool {
        self.status() & (LSR_OVERRUN_ERROR | LSR_PARITY_ERROR | LSR_FRAMING_ERROR) != 0
    }

    /// A quiet port.
    pub fn new(com: ComPort) -> (r: Self)
        ensures
            r.wf(),
            r.port() == com,
            r.rx_seq().len() == 0,
            r.status() == 0,
    {
        proof {
            assert(0u8 & LSR_DATA_READY == 0) by (bit_vector);
        }
        ReadPort { com, status: 0, rx: Vec::new() }
    }

    /// The wire delivers a byte: it queues up and the data-ready bit rises.
    pub fn receive(&mut self, byte: u8)
        requires
            old(self).wf(),
        ensures
            final(self).wf(),
            final(self).port() == old(self).port(),
            final(self).rx_seq() == old(self).rx_seq().push(byte),
            final(self).status() == old(self).status() | LSR_DATA_READY,
    {
        self.rx.push(byte);
        self.status = self.status | LSR_DATA_READY;
        proof {
            let s = old(self).status();
            assert((s | LSR_DATA_READY) & LSR_DATA_READY != 0) by (bit_vector);
            assert((s | LSR_DATA_READY) & (LSR_OVERRUN_ERROR | LSR_PARITY_ERROR
                | LSR_FRAMING_ERROR) == s & (LSR_OVERRUN_ERROR | LSR_PARITY_ERROR
                | LSR_FRAMING_ERROR)) by (bit_vector);
        }
    }

    /// The line breaks: an error bit rises.
    pub fn raise_line_error(&mut self, bits: u8)
        requires
            old(self).wf(),
        ensures
            final(self).wf(),
            final(self).port() == old(self).port(),
            final(self).rx_seq() == old(self).rx_seq(),
            final(self).status() == old(self).status() | (bits & (LSR_OVERRUN_ERROR
                | LSR_PARITY_ERROR | LSR_FRAMING_ERROR)),
    {
        self.status = self.status | (bits & (LSR_OVERRUN_ERROR | LSR_PARITY_ERROR
            | LSR_FRAMING_ERROR));
        proof {
            let s = old(self).status();
            let b = bits;
            assert((s | (b & (LSR_OVERRUN_ERROR | LSR_PARITY_ERROR | LSR_FRAMING_ERROR)))
                & LSR_DATA_READY == s & LSR_DATA_READY) by (bit_vector);
        }
    }

    /// One poll: an error outranks data, and the status read that found
    /// it clears it; a waiting byte is taken; otherwise the port is busy.
    pub fn try_read(&mut self) -> (r: Result<u8, SerialError>)
        requires
            old(self).wf(),
        ensures
            final(self).wf(),
            final(self).port() == old(self).port(),
            old(self).status() & LSR_OVERRUN_ERROR != 0 ==> r == Err::<u8, SerialError>(
                SerialError::OverrunError,
            ),
            old(self).status() & LSR_OVERRUN_ERROR == 0 && old(self).status() & LSR_PARITY_ERROR
                != 0 ==> r == Err::<u8, SerialError>(SerialError::ParityError),
            old(self).status() & (LSR_OVERRUN_ERROR | LSR_PARITY_ERROR) == 0 && old(self).status()
                & LSR_FRAMING_ERROR != 0 ==> r == Err::<u8, SerialError>(SerialError::FramingError),
            r is Err && r != Err::<u8, SerialError>(SerialError::Busy) ==> final(self).status()
                == old(self).status() & !(LSR_OVERRUN_ERROR | LSR_PARITY_ERROR
                | LSR_FRAMING_ERROR) && final(self).rx_seq() == old(self).rx_seq(),
            !old(self).has_error() && old(self).rx_seq().len() > 0 ==> r == Ok::<u8, SerialError>(
                old(self).rx_seq()[0],
            ) && final(self).rx_seq() == old(self).rx_seq().drop_first(),
            !old(self).has_error() && old(self).rx_seq().len() == 0 ==> r == Err::<
                u8,
                SerialError,
            >(SerialError::Busy) && *final(self) == *old(self),
            !old(self).has_error() ==> !final(self).has_error(),
    {
        let status = self.status;
        if status & LSR_OVERRUN_ERROR != 0 || status & LSR_PARITY_ERROR != 0 || status
            & LSR_FRAMING_ERROR != 0 {
            self.status = status & !(LSR_OVERRUN_ERROR | LSR_PARITY_ERROR | LSR_FRAMING_ERROR);
            proof {
                let s = status;
                assert((s & !(LSR_OVERRUN_ERROR | LSR_PARITY_ERROR | LSR_FRAMING_ERROR))
                    & LSR_DATA_READY == s & LSR_DATA_READY) by (bit_vector);
            }
            proof {
                let s = status;
                assert((s & LSR_OVERRUN_ERROR != 0 ==> s & (LSR_OVERRUN_ERROR | LSR_PARITY_ERROR
                    | LSR_FRAMING_ERROR) != 0) && (s & LSR_PARITY_ERROR != 0 ==> s & (
                LSR_OVERRUN_ERROR | LSR_PARITY_ERROR | LSR_FRAMING_ERROR) != 0) && (s
                    & LSR_FRAMING_ERROR != 0 ==> s & (LSR_OVERRUN_ERROR | LSR_PARITY_ERROR
                    | LSR_FRAMING_ERROR) != 0) && (s & (LSR_OVERRUN_ERROR | LSR_PARITY_ERROR) == 0
                    ==> (s & LSR_OVERRUN_ERROR == 0 && s & LSR_PARITY_ERROR == 0)))
                    by (bit_vector);
            }
            if status & LSR_OVERRUN_ERROR != 0 {
                return Err(SerialError::OverrunError);
            }
            if status & LSR_PARITY_ERROR != 0 {
                return Err(SerialError::ParityError);
            }
            return Err(SerialError::FramingError);
        }
        proof {
            let s = status;
            assert((s & LSR_OVERRUN_ERROR == 0 && s & LSR_PARITY_ERROR == 0 && s
                & LSR_FRAMING_ERROR == 0) ==> s & (LSR_OVERRUN_ERROR | LSR_PARITY_ERROR
                | LSR_FRAMING_ERROR) == 0) by (bit_vector);
        }
        if status & LSR_DATA_READY != 0 {
            proof {
                assert(old(self).rx_seq().remove(0) =~= old(self).rx_seq().drop_first());
            }
            let b = self.rx.remove(0);
            if self.rx.len() == 0 {
                self.status = status & !LSR_DATA_READY;
                proof {
                    let s = status;
                    assert((s & !LSR_DATA_READY) & LSR_DATA_READY == 0) by (bit_vector);
                    assert((s & !LSR_DATA_READY) & (LSR_OVERRUN_ERROR | LSR_PARITY_ERROR
                        | LSR_FRAMING_ERROR) == s & (LSR_OVERRUN_ERROR | LSR_PARITY_ERROR
                        | LSR_FRAMING_ERROR)) by (bit_vector);
                }
            }
            Ok(b)
        } else {
            Err(SerialError::Busy)
        }
    }

    /// Reads one byte, polling until the port is not busy: returns the
    /// oldest waiting byte, or the line error that outranks it. A byte or
    /// an error must already be present for the poll to end.
    pub fn read(&mut self) -> (r: Result<u8, SerialError>)
        requires
            old(self).wf(),
            old(self).has_error() || old(self).rx_seq().len() > 0,
        ensures
            final(self).wf(),
            final(self).port() == old(self).port(),
            r != Err::<u8, SerialError>(SerialError::Busy),
            !old(self).has_error() ==> r == Ok::<u8, SerialError>(old(self).rx_seq()[0])
                && final(self).rx_seq() == old(self).rx_seq().drop_first() && !final(self).has_error(),
    {
        let r = self.try_read();
        proof {
            let s = old(self).status();
            if old(self).has_error() {
                assert(s & (LSR_OVERRUN_ERROR | LSR_PARITY_ERROR | LSR_FRAMING_ERROR) != 0 ==> (s
                    & LSR_OVERRUN_ERROR != 0 || s & LSR_PARITY_ERROR != 0 || s & LSR_FRAMING_ERROR
                    != 0)) by (bit_vector);
                assert((s & LSR_OVERRUN_ERROR == 0 && s & LSR_PARITY_ERROR == 0) ==> s & (
                LSR_OVERRUN_ERROR | LSR_PARITY_ERROR) == 0) by (bit_vector);
            }
        }
        r
    }
}

/// The printable bytes of `rx` before its first carriage return: what
/// `read_line` hands back, with non-ASCII bytes dropped.
pub open spec fn line_of(rx: Seq<u8>) -> Seq<u8>
    decreases rx.len(),
{
    if rx.len() == 0 {
        Seq::empty()
    } else if rx[0] == 13 {
        Seq::empty()
    } else if rx[0] < 128 {
        seq![rx[0]] + line_of(rx.drop_first())
    } else {
        line_of(rx.drop_first())
    }
}

impl ReadPort {
    /// Reads bytes until a carriage return arrives, dropping non-ASCII
    /// bytes, and returns the line's bytes; a line error that arrives
    /// first is returned instead. The queue must already hold the
    /// carriage return the poll would otherwise wait for.
    pub fn read_line(&mut self) -> (r: Result<Vec<u8>, SerialError>)
        requires
            old(self).wf(),
            !old(self).has_error(),
            old(self).rx_seq().contains(13),
        ensures
            final(self).wf(),
            final(self).port() == old(self).port(),
            r matches Ok(line) ==> line@ == line_of(old(self).rx_seq()),
    {
        let mut line: Vec<u8> = Vec::new();
        loop
            invariant
                self.wf(),
                !self.has_error(),
                self.rx_seq().contains(13),
                self.port() == old(self).port(),
                line_of(old(self).rx_seq()) == line@ + line_of(self.rx_seq()),
            decreases self.rx_seq().len(),
        {
            proof {
                let k = choose|k: int|
                    0 <= k < self.rx_seq().len() && self.rx_seq()[k] == 13;
                assert(self.rx_seq().len() > 0);
            }
            let ghost pre = self.rx_seq();
            let c = match self.read() {
                Ok(c) => c,
                Err(e) => {
                    return Err(e);
                },
            };
            if c == 13 {
                proof {
                    assert(line_of(pre) =~= Seq::<u8>::empty());
                    assert(line@ + line_of(pre) =~= line@);
                }
                return Ok(line);
            }
            proof {
                if self.rx_seq().contains(13) {
                } else {
                    let k = choose|k: int| 0 <= k < pre.len() && pre[k] == 13;
                    assert(pre.drop_first()[k - 1] == 13);
                    assert(self.rx_seq().contains(13));
                }
                if c < 128 {
                    assert(line_of(pre) =~= seq![c] + line_of(pre.drop_first()));
                    assert(line@ + line_of(pre) =~= line@.push(c) + line_of(self.rx_seq()));
                } else {
                    assert(line_of(pre) =~= line_of(pre.drop_first()));
                }
            }
            if c < 128 {
                line.push(c);
            }
        }
    }
}

/// The transmitting half of a port: its line status and the bytes sent so
/// far.
pub struct WritePort {
    com: ComPort,
    status: u8,
    tx: Vec<u8>,
}

impl WritePort {
    /// Which port this is.
    pub closed spec fn port(self) -> ComPort {
        self.com
    }

    /// The line-status byte.
    pub closed spec fn status(self) -> u8 {
        self.status
    }

    /// Every byte handed to the transmitter, oldest first.
    pub closed spec fn tx_seq(self) -> Seq<u8> {
        self.tx@
    }

    /// Whether an error bit is raised.
    pub open spec fn has_error(self) -> bool {
        self.status() & (LSR_OVERRUN_ERROR | LSR_PARITY_ERROR | LSR_FRAMING_ERROR) != 0
    }

    /// Whether the transmit holding register has room.
    pub open spec fn ready(self) -> bool {
        self.status() & LSR_THR_EMPTY != 0
    }

    /// An idle transmitter, ready to send.
    pub fn new(com: ComPort) -> (r: Self)
        ensures
            r.port() == com,
            r.tx_seq().len() == 0,
            r.status() == LSR_THR_EMPTY | LSR_TRANSMITTER_EMPTY,
    {
        WritePort { com, status: LSR_THR_EMPTY | LSR_TRANSMITTER_EMPTY, tx: Vec::new() }
    }

    /// One poll: an error outranks sending (and is cleared by the status
    /// read); with room in the holding register the byte is accepted;
    /// otherwise the port is busy.
    pub fn try_write(&mut self, value: u8) -> (r: Result<(), SerialError>)
        ensures
            final(self).port() == old(self).port(),
            old(self).status() & LSR_OVERRUN_ERROR != 0 ==> r == Err::<(), SerialError>(
                SerialError::OverrunError,
            ),
            old(self).status() & LSR_OVERRUN_ERROR == 0 && old(self).status() & LSR_PARITY_ERROR
                != 0 ==> r == Err::<(), SerialError>(SerialError::ParityError),
            old(self).status() & (LSR_OVERRUN_ERROR | LSR_PARITY_ERROR) == 0 && old(self).status()
                & LSR_FRAMING_ERROR != 0 ==> r == Err::<(), SerialError>(SerialError::FramingError),
            r is Err && r != Err::<(), SerialError>(SerialError::Busy) ==> final(self).status()
                == old(self).status() & !(LSR_OVERRUN_ERROR | LSR_PARITY_ERROR
                | LSR_FRAMING_ERROR) && final(self).tx_seq() == old(self).tx_seq(),
            !old(self).has_error() && old(self).ready() ==> r == Ok::<(), SerialError>(())
                && final(self).tx_seq() == old(self).tx_seq().push(value) && final(self).status()
                == old(self).status(),
            !old(self).has_error() && !old(self).ready() ==> r == Err::<(), SerialError>(
                SerialError::Busy,
            ) && *final(self) == *old(self),
    {
        let status = self.status;
        if status & LSR_OVERRUN_ERROR != 0 || status & LSR_PARITY_ERROR != 0 || status
            & LSR_FRAMING_ERROR != 0 {
            self.status = status & !(LSR_OVERRUN_ERROR | LSR_PARITY_ERROR | LSR_FRAMING_ERROR);
            proof {
                let s = status;
                assert((s & LSR_OVERRUN_ERROR != 0 ==> s & (LSR_OVERRUN_ERROR | LSR_PARITY_ERROR
                    | LSR_FRAMING_ERROR) != 0) && (s & LSR_PARITY_ERROR != 0 ==> s & (
                LSR_OVERRUN_ERROR | LSR_PARITY_ERROR | LSR_FRAMING_ERROR) != 0) && (s
                    & LSR_FRAMING_ERROR != 0 ==> s & (LSR_OVERRUN_ERROR | LSR_PARITY_ERROR
                    | LSR_FRAMING_ERROR) != 0) && (s & (LSR_OVERRUN_ERROR | LSR_PARITY_ERROR) == 0
                    ==> (s & LSR_OVERRUN_ERROR == 0 && s & LSR_PARITY_ERROR == 0)))
                    by (bit_vector);
            }
            if status & LSR_OVERRUN_ERROR != 0 {
                return Err(SerialError::OverrunError);
            }
            if status & LSR_PARITY_ERROR != 0 {
                return Err(SerialError::ParityError);
            }
            return Err(SerialError::FramingError);
        }
        proof {
            let s = status;
            assert((s & LSR_OVERRUN_ERROR == 0 && s & LSR_PARITY_ERROR == 0 && s
                & LSR_FRAMING_ERROR == 0) ==> s & (LSR_OVERRUN_ERROR | LSR_PARITY_ERROR
                | LSR_FRAMING_ERROR) == 0) by (bit_vector);
        }
        if status & LSR_THR_EMPTY != 0 {
            self.tx.push(value);
            Ok(())
        } else {
            Err(SerialError::Busy)
        }
    }

    /// Sends one byte, polling until the transmitter takes it: a line
    /// error consumed by the first poll clears, and the next poll hands
    /// the byte to the transmitter, which must have room.
    pub fn write(&mut self, value: u8)
        requires
            old(self).ready(),
        ensures
            final(self).port() == old(self).port(),
            final(self).tx_seq() == old(self).tx_seq().push(value),
            final(self).ready(),
    {
        let ghost s0 = self.status();
        let r = self.try_write(value);
        proof {
            assert(s0 & LSR_THR_EMPTY != 0 ==> ((s0 & !(LSR_OVERRUN_ERROR | LSR_PARITY_ERROR
                | LSR_FRAMING_ERROR)) & LSR_THR_EMPTY != 0)) by (bit_vector);
            assert(((s0 & !(LSR_OVERRUN_ERROR | LSR_PARITY_ERROR | LSR_FRAMING_ERROR)) & (
            LSR_OVERRUN_ERROR | LSR_PARITY_ERROR | LSR_FRAMING_ERROR)) == 0) by (bit_vector);
            assert(s0 & (LSR_OVERRUN_ERROR | LSR_PARITY_ERROR | LSR_FRAMING_ERROR) != 0 ==> (s0
                & LSR_OVERRUN_ERROR != 0 || s0 & LSR_PARITY_ERROR != 0 || s0 & LSR_FRAMING_ERROR
                != 0)) by (bit_vector);
            assert((s0 & LSR_OVERRUN_ERROR == 0 && s0 & LSR_PARITY_ERROR == 0) ==> s0 & (
            LSR_OVERRUN_ERROR | LSR_PARITY_ERROR) == 0) by (bit_vector);
        }
        if r.is_err() {
            proof {
                assert(old(self).has_error());
                assert(r != Err::<(), SerialError>(SerialError::Busy));
                assert(self.status() == s0 & !(LSR_OVERRUN_ERROR | LSR_PARITY_ERROR
                    | LSR_FRAMING_ERROR));
                assert(self.tx_seq() == old(self).tx_seq());
                assert(!self.has_error());
                assert(self.ready());
            }
            let r2 = self.try_write(value);
            proof {
                assert(r2 is Ok);
            }
        }
    }

    /// Waits until the transmitter is completely idle. The model's
    /// transmitter drains instantly once the idle bit is set.
    pub fn flush(&self) -> (r: bool)
        ensures
            r == (self.status() & LSR_TRANSMITTER_EMPTY != 0),
    {
        self.status & LSR_TRANSMITTER_EMPTY != 0
    }
}

} // verus!
