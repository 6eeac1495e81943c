use embedded_workshop::protocol::{decode_frame, encode_sample, AxisBits};
use embedded_workshop::render::{
    accepts_surface_size, aligned_uniform_size, dynamic_offset, instance_offset, recovery_for, uniform_buffer_size, Recovery,
    SurfaceFailure, MAX_INSTANCES, UNIFORM_SIZE,
};
use embedded_workshop::uplink::{seed_from_bytes, Uplink, UplinkAction, UplinkEvent, UplinkState, RECONNECT_DELAY_MS};

#[test]
fn uniforms_are_aligned_to_256() {
    assert_eq!(aligned_uniform_size(UNIFORM_SIZE), 256);
    assert_eq!(aligned_uniform_size(0), 0);
    assert_eq!(aligned_uniform_size(256), 256);
    assert_eq!(aligned_uniform_size(257), 512);
    assert_eq!(aligned_uniform_size(u32::MAX - 255), u32::MAX - 255);
    assert_eq!(aligned_uniform_size(u32::MAX - 300), u32::MAX - 255);
    assert_eq!(uniform_buffer_size(256), 256 * 64);
    assert_eq!(instance_offset(3, 256), 768);
    assert_eq!(dynamic_offset(3, 256), 768);
    assert_eq!(instance_offset(MAX_INSTANCES - 1, 256) + UNIFORM_SIZE as u64 <= uniform_buffer_size(256), true);
}

#[test]
fn surface_decisions() {
    assert!(accepts_surface_size(800, 600));
    assert!(!accepts_surface_size(0, 600));
    assert!(!accepts_surface_size(800, 0));
    assert_eq!(recovery_for(SurfaceFailure::Lost), Recovery::Reconfigure);
    assert_eq!(recovery_for(SurfaceFailure::OutOfMemory), Recovery::Exit);
    assert_eq!(recovery_for(SurfaceFailure::Timeout), Recovery::Report);
    assert_eq!(recovery_for(SurfaceFailure::Outdated), Recovery::Report);
}

#[test]
fn seed_is_little_endian() {
    assert_eq!(seed_from_bytes([1, 0, 0, 0, 0, 0, 0, 0]), 1);
    assert_eq!(seed_from_bytes([0xef, 0xcd, 0xab, 0x89, 0x67, 0x45, 0x23, 0x01]), 0x0123_4567_89ab_cdef);
}

#[test]
fn uplink_reconnects_after_failures() {
    let backend = UplinkAction::Connect(0x0A00_0001, 8080);
    let mut u = Uplink::new();
    assert_eq!(u.action(), backend);
    assert_eq!(u.step(UplinkEvent::ConnectFailed), UplinkAction::Sleep(RECONNECT_DELAY_MS));
    assert_eq!(u.step(UplinkEvent::Slept), backend);
    assert_eq!(u.step(UplinkEvent::Connected), UplinkAction::Receive);
    let s = AxisBits { x: 1.0f32.to_bits(), y: 2.0f32.to_bits(), z: 3.0f32.to_bits() };
    assert_eq!(u.step(UplinkEvent::Sample(s)), UplinkAction::Send(1.0f32.to_le_bytes()));
    assert_eq!(u.step(UplinkEvent::Sent), UplinkAction::Send(2.0f32.to_le_bytes()));
    assert_eq!(u.step(UplinkEvent::Sent), UplinkAction::Send(3.0f32.to_le_bytes()));
    assert_eq!(u.step(UplinkEvent::Sent), UplinkAction::Receive);
    u.step(UplinkEvent::Sample(s));
    // x goes out, then writing y fails: the connection is dropped
    assert_eq!(u.step(UplinkEvent::Sent), UplinkAction::Send(2.0f32.to_le_bytes()));
    assert_eq!(u.step(UplinkEvent::SendFailed), backend);
    assert_eq!(u.state, UplinkState::Connecting);
    // events that answer nothing pending change nothing
    assert_eq!(u.step(UplinkEvent::Sent), backend);
}

#[test]
fn uplink_forwards_samples_in_order() {
    let mut u = Uplink::new();
    u.step(UplinkEvent::Connected);
    let samples = [
        AxisBits { x: 0.5f32.to_bits(), y: (-1.25f32).to_bits(), z: 9.81f32.to_bits() },
        AxisBits { x: 1.0f32.to_bits(), y: 0.0f32.to_bits(), z: (-0.0f32).to_bits() },
        AxisBits { x: 3.0f32.to_bits(), y: 2.0f32.to_bits(), z: 1.0f32.to_bits() },
    ];
    let mut written: Vec<u8> = Vec::new();
    for s in samples {
        let mut action = u.step(UplinkEvent::Sample(s));
        for _ in 0..3 {
            match action {
                UplinkAction::Send(bytes) => written.extend_from_slice(&bytes),
                other => panic!("expected a write, got {:?}", other),
            }
            action = u.step(UplinkEvent::Sent);
        }
        assert_eq!(action, UplinkAction::Receive);
    }
    assert_eq!(written.len(), 12 * samples.len());
    for (k, s) in samples.iter().enumerate() {
        let frame: [u8; 12] = written[12 * k..12 * k + 12].try_into().unwrap();
        assert_eq!(frame, encode_sample(*s));
        assert_eq!(decode_frame(&frame), *s);
        assert_eq!(f32::from_le_bytes(frame[0..4].try_into().unwrap()).to_bits(), s.x);
    }
}

#[test]
fn uplink_waits_for_pause_before_reconnecting() {
    let mut u = Uplink::new();
    assert_eq!(u.step(UplinkEvent::ConnectFailed), UplinkAction::Sleep(RECONNECT_DELAY_MS));
    assert_eq!(RECONNECT_DELAY_MS, 1000);
    // nothing but the pause ends the back-off
    assert_eq!(u.step(UplinkEvent::Connected), UplinkAction::Sleep(1000));
    assert_eq!(u.step(UplinkEvent::Sent), UplinkAction::Sleep(1000));
    assert_eq!(u.step(UplinkEvent::Slept), UplinkAction::Connect(0x0A00_0001, 8080));
}
