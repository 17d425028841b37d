//! The 16550 UART behind the serial console: its registers, the order in
//! which it is set up and tested, and its line status.

use vstd::prelude::*;

verus! {

pub const DATA_OFFSET: u16 = 0;
pub const INTERRUPT_ENABLE_OFFSET: u16 = 1;
pub const FIFO_CONTROL_OFFSET: u16 = 2;
pub const LINE_CONTROL_OFFSET: u16 = 3;
pub const MODEM_CONTROL_OFFSET: u16 = 4;
pub const LINE_STATUS_OFFSET: u16 = 5;

/// Line control: 8 data bits, no parity, one stop bit.
pub const LCR_DATA_BITS_8: u8 = 0b0000_0011;
/// Line control: the divisor latch is reachable.
pub const LCR_DLAB: u8 = 0b1000_0000;
/// FIFO control: enabled, both FIFOs cleared, interrupt at 14 bytes.
pub const FCR_SETUP: u8 = 0b1100_0111;
/// Modem control: data terminal ready, request to send, OUT2 (interrupts).
pub const MCR_NORMAL_IRQ: u8 = 0b0000_1011;
/// Modem control: request to send, OUT1, OUT2 and loopback, for the self-test.
pub const MCR_LOOPBACK: u8 = 0b0001_1110;
/// Modem control: data terminal ready, request to send, OUT1 and OUT2.
pub const MCR_NORMAL: u8 = 0b0000_1111;
/// The byte sent to itself in the self-test.
pub const SELF_TEST_BYTE: u8 = 0xAE;

/// One step of setting the UART up.
#[derive(Clone, Copy, Debug, PartialEq, Eq, Structural)]
pub enum UartOp {
    /// Write a byte to the register at this offset from the base port.
    Write(u16, u8),
    /// Read the register at this offset; it must hold the byte (the
    /// self-test), or the UART is broken.
    Expect(u16, u8),
    /// The UART is set up.
    Done,
}

/// The number of steps that set the UART up.
pub const UART_INIT_STEPS: u32 = 11;

/// Step `step` of setting the UART up: interrupts off; the divisor latch on,
/// the divisor 3 (38400 baud) written; 8N1 with the latch off; the FIFOs on
/// and cleared; normal modem control with interrupts; loopback, a test byte
/// sent and read back; normal modem control again.
pub open spec fn spec_uart_init_op(step: u32) -> UartOp {
    if step == 0 {
        UartOp::Write(INTERRUPT_ENABLE_OFFSET, 0x00)
    } else if step == 1 {
        UartOp::Write(LINE_CONTROL_OFFSET, LCR_DLAB)
    } else if step == 2 {
        UartOp::Write(DATA_OFFSET, 0x03)
    } else if step == 3 {
        UartOp::Write(INTERRUPT_ENABLE_OFFSET, 0x00)
    } else if step == 4 {
        UartOp::Write(LINE_CONTROL_OFFSET, LCR_DATA_BITS_8)
    } else if step == 5 {
        UartOp::Write(FIFO_CONTROL_OFFSET, FCR_SETUP)
    } else if step == 6 {
        UartOp::Write(MODEM_CONTROL_OFFSET, MCR_NORMAL_IRQ)
    } else if step == 7 {
        UartOp::Write(MODEM_CONTROL_OFFSET, MCR_LOOPBACK)
    } else if step == 8 {
        UartOp::Write(DATA_OFFSET, SELF_TEST_BYTE)
    } else if step == 9 {
        UartOp::Expect(DATA_OFFSET, SELF_TEST_BYTE)
    } else if step == 10 {
        UartOp::Write(MODEM_CONTROL_OFFSET, MCR_NORMAL)
    } else {
        UartOp::Done
    }
}

/// Step `step` of setting the UART up.
pub fn uart_init_op(step: u32) -> (r: UartOp)
    ensures
        r == spec_uart_init_op(step),
{
    if step == 0 {
        UartOp::Write(INTERRUPT_ENABLE_OFFSET, 0x00)
    } else if step == 1 {
        UartOp::Write(LINE_CONTROL_OFFSET, LCR_DLAB)
    } else if step == 2 {
        UartOp::Write(DATA_OFFSET, 0x03)
    } else if step == 3 {
        UartOp::Write(INTERRUPT_ENABLE_OFFSET, 0x00)
    } else if step == 4 {
        UartOp::Write(LINE_CONTROL_OFFSET, LCR_DATA_BITS_8)
    } else if step == 5 {
        UartOp::Write(FIFO_CONTROL_OFFSET, FCR_SETUP)
    } else if step == 6 {
        UartOp::Write(MODEM_CONTROL_OFFSET, MCR_NORMAL_IRQ)
    } else if step == 7 {
        UartOp::Write(MODEM_CONTROL_OFFSET, MCR_LOOPBACK)
    } else if step == 8 {
        UartOp::Write(DATA_OFFSET, SELF_TEST_BYTE)
    } else if step == 9 {
        UartOp::Expect(DATA_OFFSET, SELF_TEST_BYTE)
    } else if step == 10 {
        UartOp::Write(MODEM_CONTROL_OFFSET, MCR_NORMAL)
    } else {
        UartOp::Done
    }
}

/// The port of a register: the base port plus the register's offset.
pub fn register_port(base: u16, offset: u16) -> (r: u16)
    requires
        base + offset <= u16::MAX,
    ensures
        r == base + offset,
{
    base + offset
}

/// Whether the line status says a received byte waits (bit 0).
pub fn data_ready(status: u8) -> (r: bool)
    ensures
        r == (status % 2 == 1),
{
    let b = status & 0x01;
    assert(b == status % 2) by (bit_vector)
        requires
            b == status & 0x01,
    ;
    b != 0
}

/// Whether the line status says a byte may be sent (bit 5, transmitter
/// holding register empty).
pub fn transmit_empty(status: u8) -> (r: bool)
    ensures
        r == ((status / 32) % 2 == 1),
{
    let b = status & 0x20;
    assert((b != 0) == ((status / 32) % 2 == 1)) by (bit_vector)
        requires
            b == status & 0x20,
    ;
    b != 0
}

} // verus!
