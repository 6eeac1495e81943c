//! GPIO configuration of the I2C pins: the register fields a pin owns and
//! how a field is written.

use vstd::prelude::*;

verus! {

/// I2C1 runs on PB8 (SCL) and PB9 (SDA), alternate function 4.
pub const I2C1_SCL_PIN: u8 = 8;
pub const I2C1_SDA_PIN: u8 = 9;
pub const I2C1_ALTERNATE_FUNCTION: u8 = 4;

/// MODER values.
pub const MODE_INPUT: u32 = 0b00;
pub const MODE_ALTERNATE: u32 = 0b10;
/// OTYPER value for an open-drain output.
pub const OUTPUT_OPEN_DRAIN: u32 = 1;
/// PUPDR value for the internal pull-up.
pub const PULL_UP: u32 = 0b01;

/// `word` with the `width`-bit field at `shift` replaced by the low
/// `width` bits of `value`.
pub open spec fn spec_set_field(word: u32, shift: u32, width: u32, value: u32) -> u32 {
    let mask = ((1u32 << width) - 1) as u32;
    (word & !(mask << shift)) | ((value & mask) << shift)
}

/// The `width`-bit field at `shift` of `word`.
pub open spec fn spec_field(word: u32, shift: u32, width: u32) -> u32 {
    (word >> shift) & (((1u32 << width) - 1) as u32)
}

/// Writes a field of a register value, keeping every other bit: what a
/// field setter inside a read-modify-write of the register does.
pub fn set_field(word: u32, shift: u32, width: u32, value: u32) -> (r: u32)
    requires
        1 <= width <= 4,
        shift + width <= 32,
    ensures
        r == spec_set_field(word, shift, width, value),
        spec_field(r, shift, width) == spec_field(value, 0, width),
        forall|n: u32| n < 32 && !(shift <= n < shift + width) ==> #[trigger] ((r >> n) & 1) == (word >> n) & 1,
{
    let one = 1u32 << width;
    assert(one >= 1) by (bit_vector)
        requires one == 1u32 << width, 1 <= width <= 4;
    let mask = one - 1;
    let r = (word & !(mask << shift)) | ((value & mask) << shift);
    assert(((r >> shift) & mask) == ((value >> 0u32) & mask)) by (bit_vector)
        requires
            r == (word & !(mask << shift)) | ((value & mask) << shift),
            mask == (1u32 << width) - 1,
            1 <= width <= 4,
            shift + width <= 32;
    assert forall|n: u32| n < 32 && !(shift <= n < shift + width) implies #[trigger] ((r >> n) & 1) == (word >> n) & 1 by {
        assert(((r >> n) & 1) == (word >> n) & 1) by (bit_vector)
            requires
                r == (word & !(mask << shift)) | ((value & mask) << shift),
                mask == (1u32 << width) - 1,
                1 <= width <= 4,
                shift + width <= 32,
                n < 32,
                !(shift <= n && n < shift + width);
    }
    r
}

/// The alternate-function register (0: AFRL, 1: AFRH) and field that
/// select the alternate function of `pin`.
pub fn alternate_function_slot(pin: u8) -> (slot: (usize, usize))
    requires
        pin < 16,
    ensures
        slot.0 == pin / 8,
        slot.1 == pin % 8,
{
    ((pin / 8) as usize, (pin % 8) as usize)
}

} // verus!
