//! Output with no operating system to print through.
//!
//! On both architectures there is a UART at a known address that needs little
//! or no initialisation, and that is where the results go. Where there is no
//! UART the port is given up on at the first byte it does not take.

use crate::text::utf8;
use vstd::prelude::*;

verus! {

/// The address every PC has had at this port since 1981.
pub const COM1: u16 = 0x3F8;

/// Where a PL011 sits on the `virt` machine, and its flag register.
pub const UART0: u64 = 0x0900_0000;

pub const UARTFR: u64 = 0x0900_0018;

/// How long to wait for the transmitter, in looks. Bounded: a laptop has no
/// UART, and an unbounded wait for a bit that will never set hangs the
/// machine on the first character printed.
pub const TX_SPIN_LIMIT: u32 = 100_000;

/// A byte to write to a port.
#[derive(Debug, Clone, Copy, PartialEq, Eq, Structural)]
pub struct PortByte {
    pub port: u16,
    pub value: u8,
}

/// The 16550's initialisation, in the documented order: writing it out of
/// order leaves the divisor latch open and the port silent.
pub open spec fn uart_setup() -> Seq<PortByte> {
    seq![
        // No interrupts: there is no handler.
        PortByte { port: 0x3F9, value: 0x00 },
        // Divisor latch on, so the next two writes set the speed.
        PortByte { port: 0x3FB, value: 0x80 },
        // Divisor 1: 115200 baud.
        PortByte { port: 0x3F8, value: 0x01 },
        PortByte { port: 0x3F9, value: 0x00 },
        // Divisor latch off; eight bits, no parity, one stop bit.
        PortByte { port: 0x3FB, value: 0x03 },
        // Enable and clear the FIFOs.
        PortByte { port: 0x3FA, value: 0xC7 },
        // RTS and DSR set.
        PortByte { port: 0x3FC, value: 0x0B },
    ]
}

/// A UART, and whether output is still being attempted.
pub struct Serial {
    pub live: bool,
}

/// What a string becomes on a terminal: a bare newline leaves the cursor in
/// its column, so a carriage return goes before each.
pub open spec fn on_the_wire(bytes: Seq<u8>) -> Seq<u8>
    decreases bytes.len(),
{
    if bytes.len() == 0 {
        seq![]
    } else {
        let before = on_the_wire(bytes.drop_last());
        if bytes.last() == 10 {
            before.push(13).push(10)
        } else {
            before.push(bytes.last())
        }
    }
}

impl Serial {
    /// What prepares the port for output.
    pub fn init() -> (r: (Serial, Vec<PortByte>))
        ensures
            r.0.live,
            r.1@ == uart_setup(),
    {
        let mut writes: Vec<PortByte> = Vec::new();
        writes.push(PortByte { port: 0x3F9, value: 0x00 });
        writes.push(PortByte { port: 0x3FB, value: 0x80 });
        writes.push(PortByte { port: 0x3F8, value: 0x01 });
        writes.push(PortByte { port: 0x3F9, value: 0x00 });
        writes.push(PortByte { port: 0x3FB, value: 0x03 });
        writes.push(PortByte { port: 0x3FA, value: 0xC7 });
        writes.push(PortByte { port: 0x3FC, value: 0x0B });
        (Serial { live: true }, writes)
    }

    /// Whether output is still going anywhere.
    ///
    /// On a machine with no serial port the log goes nowhere, and that is not
    /// the same as a kernel that produced none.
    pub fn is_live(&self) -> (r: bool)
        ensures
            r == self.live,
    {
        self.live
    }

    /// Takes whether a byte was sent. Once one is not, there is no port or
    /// nothing is draining it, and further attempts would only pay the wait
    /// again.
    pub fn put(&mut self, sent: bool)
        ensures
            final(self).live == (old(self).live && sent),
    {
        if !sent {
            self.live = false;
        }
    }

    /// The bytes of a string, as they go out.
    pub fn write_str(s: &str) -> (r: Vec<u8>)
        ensures
            r@ == on_the_wire(utf8(s)),
    {
        let bytes: &[u8] = s.as_bytes();
        let mut out: Vec<u8> = Vec::new();
        let mut i: usize = 0;
        assert(bytes@.take(0) =~= Seq::<u8>::empty());
        while i < bytes.len()
            invariant
                i <= bytes@.len(),
                bytes@ == utf8(s),
                out@ == on_the_wire(bytes@.take(i as int)),
            decreases bytes@.len() - i,
        {
            proof {
                assert(bytes@.take(i + 1).drop_last() =~= bytes@.take(i as int));
            }
            if bytes[i] == 10 {
                out.push(13);
            }
            out.push(bytes[i]);
            i += 1;
        }
        assert(bytes@.take(i as int) =~= bytes@);
        out
    }
}

/// Whether a 16550's line status says its transmitter is empty.
pub open spec fn uart_is_ready(line_status: u8) -> bool {
    line_status & 0x20 != 0
}

pub fn uart_ready(line_status: u8) -> (r: bool)
    ensures
        r == uart_is_ready(line_status),
{
    line_status & 0x20 != 0
}

/// Whether a PL011's flags say its transmit queue has room.
pub open spec fn pl011_is_ready(flags: u32) -> bool {
    flags & 0x20 == 0
}

pub fn pl011_ready(flags: u32) -> (r: bool)
    ensures
        r == pl011_is_ready(flags),
{
    flags & 0x20 == 0
}

/// Whether a port is still live once these bytes have been tried.
pub open spec fn live_after(live: bool, sent: Seq<bool>) -> bool
    decreases sent.len(),
{
    if sent.len() == 0 {
        live
    } else {
        live_after(live, sent.drop_last()) && sent.last()
    }
}

/// A port that has failed once stays given up on, whatever comes after, and
/// one that has not failed is still used.
pub proof fn one_failure_is_enough(live: bool, sent: Seq<bool>)
    ensures
        live_after(live, sent) == (live && forall|i: int| 0 <= i < sent.len() ==> sent[i]),
    decreases sent.len(),
{
    if sent.len() > 0 {
        one_failure_is_enough(live, sent.drop_last());
        let before = sent.drop_last();
        assert((forall|i: int| 0 <= i < sent.len() ==> sent[i]) == ((forall|i: int|
            0 <= i < before.len() ==> before[i]) && sent.last())) by {
            if forall|i: int| 0 <= i < sent.len() ==> sent[i] {
                assert(forall|i: int| 0 <= i < before.len() ==> before[i] == sent[i]);
                assert(sent[sent.len() - 1]);
            }
            if (forall|i: int| 0 <= i < before.len() ==> before[i]) && sent.last() {
                assert forall|i: int| 0 <= i < sent.len() implies sent[i] by {
                    if i < before.len() {
                        assert(before[i]);
                    }
                }
            }
        }
    }
}

/// Every newline goes out behind a carriage return, and every other byte as
/// it is.
pub proof fn newlines_are_preceded(bytes: Seq<u8>, i: int)
    requires
        0 <= i < on_the_wire(bytes).len(),
        on_the_wire(bytes)[i] == 10,
    ensures
        i > 0 && on_the_wire(bytes)[i - 1] == 13,
    decreases bytes.len(),
{
    let before = on_the_wire(bytes.drop_last());
    if i < before.len() {
        newlines_are_preceded(bytes.drop_last(), i);
    }
}

/// What goes out of one string and then another is what goes out of both
/// together; a byte that is no newline goes out as it is, and a newline behind a
/// carriage return.
pub proof fn strings_go_out_one_after_the_other(a: Seq<u8>, b: Seq<u8>, byte: u8)
    ensures
        on_the_wire(a + b) == on_the_wire(a) + on_the_wire(b),
        on_the_wire(seq![]) == Seq::<u8>::empty(),
        byte != 10 ==> on_the_wire(seq![byte]) == seq![byte],
        on_the_wire(seq![10u8]) == seq![13u8, 10],
    decreases b.len(),
{
    let one = seq![byte];
    let line = seq![10u8];
    assert(one.drop_last() =~= Seq::<u8>::empty());
    assert(line.drop_last() =~= Seq::<u8>::empty());
    assert(on_the_wire(Seq::<u8>::empty()) =~= Seq::<u8>::empty());
    assert(on_the_wire(line) =~= seq![13u8, 10]);
    assert(byte != 10 ==> on_the_wire(one) =~= seq![byte]);
    if b.len() == 0 {
        assert(a + b =~= a);
        assert(b =~= Seq::<u8>::empty());
        assert(on_the_wire(a) + on_the_wire(b) =~= on_the_wire(a));
    } else {
        strings_go_out_one_after_the_other(a, b.drop_last(), byte);
        assert((a + b).drop_last() =~= a + b.drop_last());
        assert(on_the_wire(a + b) =~= on_the_wire(a) + on_the_wire(b));
    }
}

/// The port is set up with its speed between opening and closing the divisor
/// latch, at divisor one, without interrupts, with eight bits and no parity, and
/// its queues cleared.
pub proof fn the_port_is_set_up_in_order()
    ensures
        ({
            let s = uart_setup();
            &&& s.len() == 7
            &&& s[0] == (PortByte { port: 0x3F9, value: 0 })
            &&& s[1] == (PortByte { port: 0x3FB, value: 0x80 })
            &&& s[2] == (PortByte { port: 0x3F8, value: 1 })
            &&& s[3] == (PortByte { port: 0x3F9, value: 0 })
            &&& s[4] == (PortByte { port: 0x3FB, value: 3 })
            &&& s[5] == (PortByte { port: 0x3FA, value: 0xC7 })
            &&& s[6] == (PortByte { port: 0x3FC, value: 0x0B })
        }),
{
}

/// Both ports tell by the sixth bit: a 16550 is ready where it is set, which says
/// that its transmitter is empty, and a PL011 where it is clear, which says that
/// its queue is not full.
pub proof fn the_sixth_bit_says_when_to_send(line_status: u8, flags: u32)
    ensures
        uart_is_ready(line_status) <==> line_status as int / 32 % 2 == 1,
        pl011_is_ready(flags) <==> flags as int / 32 % 2 == 0,
{
    assert((line_status & 0x20 != 0) <==> line_status / 32 % 2 == 1) by (bit_vector);
    assert((flags & 0x20 == 0) <==> flags / 32 % 2 == 0) by (bit_vector);
}

} // verus!
