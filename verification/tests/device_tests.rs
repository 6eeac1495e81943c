use embedded_workshop::demo::{command_message, produce_sample, sender_step, Command, RawSample};
use embedded_workshop::diagnostics::{check_panic_history, panic_number, PanicHistory};
use embedded_workshop::exti::{accelerometer_line, button_line, line_setup, service_line13, take_flag, PORT_C};
use embedded_workshop::gpio::{alternate_function_slot, set_field, I2C1_SCL_PIN, I2C1_SDA_PIN, MODE_ALTERNATE};
use embedded_workshop::lis3dh::{
    data_ready_interrupt_writes, movement_interrupt_writes, register_byte_count, register_write_frame, threshold_register,
    CTRL_REG3, CTRL_REG5, INT1_CFG, INT1_DURATION, INT1_THS,
};
use embedded_workshop::sensor::{TemperatureSensor, TimerFuture};

#[test]
fn data_ready_interrupt_writes_in_order() {
    assert_eq!(data_ready_interrupt_writes(), [(CTRL_REG3, 0b0001_0000), (CTRL_REG5, 0b0000_1000)]);
}

#[test]
fn movement_interrupt_writes_in_order() {
    assert_eq!(
        movement_interrupt_writes(1100),
        [(INT1_CFG, 0b0010_1010), (INT1_THS, 68), (INT1_DURATION, 0), (CTRL_REG3, 0b0100_0000)]
    );
}

#[test]
fn threshold_in_sixteen_milli_g_steps() {
    assert_eq!(threshold_register(0), 0);
    assert_eq!(threshold_register(15), 0);
    assert_eq!(threshold_register(16), 1);
    assert_eq!(threshold_register(2000), 125);
    // the quotient is cut to a byte
    assert_eq!(threshold_register(4096), 0);
    assert_eq!(threshold_register(65535), 255);
}

#[test]
fn register_interface_helpers() {
    assert_eq!(register_byte_count(8), 1);
    assert_eq!(register_byte_count(1), 1);
    assert_eq!(register_byte_count(9), 2);
    assert_eq!(register_byte_count(0), 0);
    assert_eq!(register_write_frame(0x20, &[0x57, 0xff]), [0x20, 0x57]);
}

#[test]
fn exti_lines() {
    let b = button_line();
    assert_eq!((b.exticr_index, b.exticr_field, b.port, b.line_mask), (3, 1, PORT_C, 1 << 13));
    assert!(b.rising && !b.falling);
    let a = accelerometer_line();
    assert_eq!((a.exticr_index, a.exticr_field, a.line_mask), (0, 1, 2));
    let s = line_setup(6, 0, false, true);
    assert_eq!((s.exticr_index, s.exticr_field, s.line_mask), (1, 2, 64));
}

#[test]
fn line13_handler() {
    let s = service_line13(0x0001_2000, 0x0000_0004, 0xffff_ffff);
    assert_eq!(s.pending, 0x2004);
    assert_eq!(s.masked_imr, 0xffff_dffb);
    assert!(s.line13_was_masked);
    assert_eq!(s.final_imr, 0xffff_fffb);
    let s = service_line13(0, 0x8, 0x2008);
    assert!(!s.line13_was_masked);
    assert_eq!(s.final_imr, 0x2000);
}

#[test]
fn data_ready_flag_is_taken_once() {
    let mut flag = true;
    assert!(take_flag(&mut flag));
    assert!(!flag);
    assert!(!take_flag(&mut flag));
}

#[test]
fn gpio_fields() {
    assert_eq!(alternate_function_slot(I2C1_SCL_PIN), (1, 0));
    assert_eq!(alternate_function_slot(I2C1_SDA_PIN), (1, 1));
    assert_eq!(set_field(0, 2 * 8, 2, MODE_ALTERNATE), 0b10 << 16);
    assert_eq!(set_field(0xffff_ffff, 4, 4, 4), 0xffff_ff4f);
    assert_eq!(set_field(0, 0, 1, 3), 1);
}

#[test]
fn panic_history() {
    assert_eq!(check_panic_history(0), PanicHistory::Clean);
    assert_eq!(check_panic_history(1), PanicHistory::Panicked(1));
    assert_eq!(check_panic_history(5), PanicHistory::Panicked(5));
    assert_eq!(check_panic_history(6), PanicHistory::PanicLoop(6));
    assert_eq!(panic_number(0), 1);
}

#[test]
fn producer_and_commands() {
    assert_eq!(produce_sample(0), RawSample { x: 0, y: 1, z: 2 });
    assert_eq!(produce_sample(-5), RawSample { x: -5, y: -4, z: -3 });
    assert_eq!(command_message(Command::Start), "Starting...");
    assert_eq!(command_message(Command::Stop), "Stopping...");
    assert_eq!(command_message(Command::Reset), "Resetting...");
    assert_eq!(sender_step(0), (1000, Command::Start));
    assert_eq!(sender_step(1), (2000, Command::Stop));
    assert_eq!(sender_step(2), (1000, Command::Start));
}

#[test]
fn handles_hold_their_parts() {
    let s = TemperatureSensor::new("bus", 0x18);
    assert_eq!(s.address, 0x18);
    assert_eq!(s.i2c, "bus");
    assert_eq!(TimerFuture::new(100).polls_remaining, 100);
}
