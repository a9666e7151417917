//! The programmable interval timer, 8253/8254: the divider arithmetic for
//! its three channels.
//!
//! The oscillator runs at about 1.193182 MHz; a channel fires at that
//! frequency divided by a 16-bit divider.  Computing the divider is the
//! logic; writing it to the mode/command port (0x43) and the channel's data
//! port is the hardware edge, left to the surrounding program.

use vstd::prelude::*;

verus! {

/// The oscillator frequency in Hz.
pub const CLK_FREQ: u32 = 1193182;

/// A counter channel of the interval timer.
#[derive(Clone, Copy, Debug, PartialEq, Eq, Structural)]
pub enum Chan {
    /// Channel 0, wired to the interrupt controller's IRQ 0.
    CH0,
    /// Channel 1, unused legacy DMA refresh.
    CH1,
    /// Channel 2, wired to the PC speaker.
    CH2,
}

impl Chan {
    /// The I/O port of this channel's data register.
    pub fn data_port(&self) -> (p: u16)
        ensures
            p == match *self {
                Chan::CH0 => 0x40u16,
                Chan::CH1 => 0x41u16,
                Chan::CH2 => 0x42u16,
            },
    {
        match *self {
            Chan::CH0 => 0x40,
            Chan::CH1 => 0x41,
            Chan::CH2 => 0x42,
        }
    }
}

/// The divider that makes `ch` fire at `freq` Hz: the clock frequency
/// divided by the requested one, rounded down.  The caller writes the two
/// bytes of the result to the channel's data port.
///
/// A frequency so low that the divider overflows 16 bits is a configuration
/// error and is excluded; about 19 Hz is the slowest reachable rate.
pub fn set_frequency(ch: Chan, freq: u32) -> (div: u16)
    requires
        freq > 0,
        CLK_FREQ / freq <= u16::MAX,
    ensures
        div == CLK_FREQ / freq,
{
    (CLK_FREQ / freq) as u16
}

/// The low and high byte of a divider, in the order the data port takes
/// them.
pub fn divider_bytes(div: u16) -> (r: (u8, u8))
    ensures
        r.0 == div & 0xff,
        r.1 == div >> 8,
{
    proof {
        assert(div & 0xff <= 0xff && div >> 8 <= 0xff) by (bit_vector);
    }
    ((div & 0xff) as u8, (div >> 8) as u8)
}

} // verus!
