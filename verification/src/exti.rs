//! External interrupt lines (EXTI) of the STM32H5: how a GPIO pin is routed
//! to its line, and what the handlers decide when a line fires.

use vstd::prelude::*;
use crate::i2c::bit;

verus! {

/// GPIO port indices as EXTICR takes them.
pub const PORT_A: u8 = 0;
pub const PORT_B: u8 = 1;
pub const PORT_C: u8 = 2;

/// How one pin is connected to its EXTI line.
#[derive(Debug, Clone, Copy, PartialEq, Eq, Structural)]
pub struct LineSetup {
    /// Which EXTICR register selects the port of the pin's line.
    pub exticr_index: usize,
    /// Which field of that register.
    pub exticr_field: usize,
    /// The port selected.
    pub port: u8,
    /// The line's bit in RTSR, FTSR, RPR, FPR and IMR.
    pub line_mask: u32,
    /// Whether a rising edge triggers the line.
    pub rising: bool,
    /// Whether a falling edge triggers the line.
    pub falling: bool,
}

/// The routing of pin `pin` of port `port` to EXTI line `pin`: four lines
/// share an EXTICR register.
pub fn line_setup(pin: u8, port: u8, rising: bool, falling: bool) -> (s: LineSetup)
    requires
        pin < 16,
    ensures
        s.exticr_index == pin / 4,
        s.exticr_field == pin % 4,
        s.port == port,
        s.line_mask == 1u32 << pin,
        s.rising == rising,
        s.falling == falling,
{
    LineSetup {
        exticr_index: (pin / 4) as usize,
        exticr_field: (pin % 4) as usize,
        port,
        line_mask: 1u32 << pin,
        rising,
        falling,
    }
}

/// The user button: PC13, interrupting on a rising edge only.
pub fn button_line() -> (s: LineSetup)
    ensures
        s.exticr_index == 3,
        s.exticr_field == 1,
        s.port == PORT_C,
        s.line_mask == 0x2000,
        s.rising,
        !s.falling,
{
    let s = line_setup(13, PORT_C, true, false);
    assert(1u32 << 13u8 == 0x2000) by (bit_vector);
    s
}

/// The accelerometer's INT1 pin: PC1, interrupting on a rising edge (INT1
/// goes high when data is ready).
pub fn accelerometer_line() -> (s: LineSetup)
    ensures
        s.exticr_index == 0,
        s.exticr_field == 1,
        s.port == PORT_C,
        s.line_mask == 0x2,
        s.rising,
        !s.falling,
{
    let s = line_setup(1, PORT_C, true, false);
    assert(1u32 << 1u8 == 0x2) by (bit_vector);
    s
}

/// What the handler of EXTI line 13 does with the registers it finds.
#[derive(Debug, Clone, Copy, PartialEq, Eq, Structural)]
pub struct Line13Service {
    /// The pending GPIO lines (0 to 15), rising or falling; written back
    /// to RPR and FPR to clear them.
    pub pending: u32,
    /// IMR with the pending lines masked.
    pub masked_imr: u32,
    /// Whether line 13 was masked at that point, which the handler
    /// reports.
    pub line13_was_masked: bool,
    /// IMR at the end: line 13 unmasked again.
    pub final_imr: u32,
}

/// The EXTI line 13 handler: masks and clears every pending GPIO line,
/// reports when line 13 ended up masked, and unmasks line 13.
pub fn service_line13(rpr: u32, fpr: u32, imr: u32) -> (s: Line13Service)
    ensures
        s.pending == (rpr | fpr) & 0xffff,
        s.masked_imr == imr & !s.pending,
        s.line13_was_masked == !bit(s.masked_imr, 13),
        s.final_imr == s.masked_imr | 0x2000,
        bit(s.final_imr, 13),
        forall|n: u32| 16 <= n < 32 ==> bit(s.final_imr, n) == bit(imr, n),
{
    let pending = (rpr | fpr) & 0x0000_ffff;
    let masked_imr = imr & !pending;
    let line13_was_masked = !((masked_imr >> 13) & 1 == 1);
    let final_imr = masked_imr | (1u32 << 13);
    assert(bit(final_imr, 13)) by (bit_vector)
        requires final_imr == masked_imr | (1u32 << 13);
    assert forall|n: u32| 16 <= n < 32 implies bit(final_imr, n) == bit(imr, n) by {
        assert(((final_imr >> n) & 1 == 1) == ((imr >> n) & 1 == 1)) by (bit_vector)
            requires
                final_imr == masked_imr | (1u32 << 13),
                masked_imr == imr & !pending,
                pending == (rpr | fpr) & 0x0000_ffff,
                16 <= n < 32;
    }
    assert(final_imr == masked_imr | 0x2000) by (bit_vector)
        requires final_imr == masked_imr | (1u32 << 13);
    Line13Service { pending, masked_imr, line13_was_masked, final_imr }
}

/// Takes the data-ready flag the INT1 handler sets: returns whether it was
/// set, and clears it.
pub fn take_flag(flag: &mut bool) -> (was_set: bool)
    ensures
        was_set == *old(flag),
        !*final(flag),
{
    let ready = *flag;
    if ready {
        *flag = false;
    }
    ready
}

} // verus!
