//! The LIS3DH accelerometer: its registers and the interrupt
//! configurations the firmware programs.

use vstd::prelude::*;

verus! {

/// 7-bit I2C address with SDO/SA0 tied to ground (0x19 with it tied to
/// the supply).
pub const LIS3DH_ADDR: u8 = 0x18;

pub const WHO_AM_I: u8 = 0x0F;
pub const CTRL_REG1: u8 = 0x20;
pub const CTRL_REG2: u8 = 0x21;
pub const CTRL_REG3: u8 = 0x22;
pub const CTRL_REG4: u8 = 0x23;
pub const CTRL_REG5: u8 = 0x24;
pub const CTRL_REG6: u8 = 0x25;
pub const STATUS_REG: u8 = 0x27;
pub const OUT_X_L: u8 = 0x28;
pub const OUT_X_H: u8 = 0x29;
pub const OUT_Y_L: u8 = 0x2A;
pub const OUT_Y_H: u8 = 0x2B;
pub const OUT_Z_L: u8 = 0x2C;
pub const OUT_Z_H: u8 = 0x2D;
pub const INT1_CFG: u8 = 0x30;
pub const INT1_SRC: u8 = 0x31;
pub const INT1_THS: u8 = 0x32;
pub const INT1_DURATION: u8 = 0x33;

/// What WHO_AM_I reads on a LIS3DH.
pub const EXPECTED_WHO_AM_I: u8 = 0x33;

/// Output data rates (CTRL_REG1 bits 7:4).
pub const ODR_POWERDOWN: u8 = 0b0000_0000;
pub const ODR_1HZ: u8 = 0b0001_0000;
pub const ODR_10HZ: u8 = 0b0010_0000;
pub const ODR_25HZ: u8 = 0b0011_0000;
pub const ODR_50HZ: u8 = 0b0100_0000;
pub const ODR_100HZ: u8 = 0b0101_0000;

/// CTRL_REG1: X, Y and Z enabled.
pub const XYZEN: u8 = 0b0000_0111;

/// CTRL_REG3 with I1_ZYXDA: data ready drives INT1.
pub const CTRL_REG3_I1_ZYXDA: u8 = 0b0001_0000;
/// CTRL_REG3 with I1_IA1: interrupt generator 1 drives INT1.
pub const CTRL_REG3_I1_IA1: u8 = 0b0100_0000;
/// CTRL_REG5 with LIR_INT1: the INT1 request stays latched until INT1_SRC
/// is read.
pub const CTRL_REG5_LIR_INT1: u8 = 0b0000_1000;
/// INT1_CFG with XHIE, YHIE and ZHIE: an event when any axis goes above
/// the threshold.
pub const INT1_CFG_XYZ_HIGH: u8 = 0b0010_1010;

/// The register writes that make INT1 signal new data: data ready routed
/// to INT1, then the request latched.
pub open spec fn spec_data_ready_writes() -> Seq<(u8, u8)> {
    seq![(CTRL_REG3, CTRL_REG3_I1_ZYXDA), (CTRL_REG5, CTRL_REG5_LIR_INT1)]
}

/// INT1_THS for a threshold in milli-g: one step per 16 mg on the 2 g
/// scale, the quotient taken modulo 256 as a byte cast does.
pub open spec fn spec_threshold_register(threshold_mg: u16) -> u8 {
    ((threshold_mg / 16) % 256) as u8
}

/// The register writes that make INT1 signal movement: high events on
/// all axes, the threshold, no minimum duration, and interrupt generator 1
/// routed to INT1.
pub open spec fn spec_movement_writes(threshold_mg: u16) -> Seq<(u8, u8)> {
    seq![
        (INT1_CFG, INT1_CFG_XYZ_HIGH),
        (INT1_THS, spec_threshold_register(threshold_mg)),
        (INT1_DURATION, 0u8),
        (CTRL_REG3, CTRL_REG3_I1_IA1),
    ]
}

/// The INT1_THS value for a threshold in milli-g.
pub fn threshold_register(threshold_mg: u16) -> (r: u8)
    ensures
        r == spec_threshold_register(threshold_mg),
{
    let q = threshold_mg / 16;
    (q % 256) as u8
}

/// The register writes, as (register, value) in the order they are made,
/// that configure INT1 to go high when new data is ready.
pub fn data_ready_interrupt_writes() -> (w: [(u8, u8); 2])
    ensures
        w@ == spec_data_ready_writes(),
{
    let w = [(CTRL_REG3, CTRL_REG3_I1_ZYXDA), (CTRL_REG5, CTRL_REG5_LIR_INT1)];
    assert(w@ =~= spec_data_ready_writes());
    w
}

/// The register writes, in order, that configure INT1 to go high when any
/// axis exceeds `threshold_mg`.
pub fn movement_interrupt_writes(threshold_mg: u16) -> (w: [(u8, u8); 4])
    ensures
        w@ == spec_movement_writes(threshold_mg),
{
    let ths = threshold_register(threshold_mg);
    let w = [(INT1_CFG, INT1_CFG_XYZ_HIGH), (INT1_THS, ths), (INT1_DURATION, 0u8), (CTRL_REG3, CTRL_REG3_I1_IA1)];
    assert(w@ =~= spec_movement_writes(threshold_mg));
    w
}

/// How many bytes a register of `size_bits` bits occupies: the bits
/// rounded up to whole bytes.
pub fn register_byte_count(size_bits: u32) -> (n: u32)
    requires
        size_bits <= u32::MAX - 7,
    ensures
        n == (size_bits + 7) / 8,
        n * 8 >= size_bits,
        n * 8 < size_bits + 8,
{
    (size_bits + 7) / 8
}

/// The bus write that sets a one-byte register: the register address,
/// then the first byte of `data`.
pub fn register_write_frame(address: u8, data: &[u8]) -> (f: [u8; 2])
    requires
        data@.len() >= 1,
    ensures
        f@ == seq![address, data@[0]],
{
    let f = [address, data[0]];
    assert(f@ =~= seq![address, data@[0]]);
    f
}

} // verus!
