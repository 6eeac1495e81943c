# embedded_workshop

A sensor-to-display system from an embedded Rust workshop, with its logic
verified in Verus.

- The firmware (STM32H563 with a LIS3DH accelerometer) reads samples over
  I2C and streams each one to the backend over TCP as twelve bytes: x, y
  and z as little-endian `f32`.
- The backend accepts the sensors' connections and draws one 3D shape per
  sensor, rotated by the sensor's latest sample.

## Layout

- `src/`: the verified library.
  - `protocol`: the wire format, with both round trips proved.
  - `registry`, `endpoint_registry`, `addr_table`: the backend's client
    tables. Clients keep their shape across reconnections; frames with
    non-finite axes are dropped.
  - `geometry`, `render`, `shape`: index lists of the solids, and
    uniform-buffer layout.
  - `uplink`: the firmware's connect and forward loop as a state machine,
    with laws about whole runs.
  - `i2c`, `lis3dh`, `exti`, `gpio`, `diagnostics`: the register-level
    decisions of the firmware (polled register read, interrupt set-up, pin
    fields, panic history).
  - `demo`, `sensor`: the message-passing examples and small building
    blocks.
  - `rng`: the only outside calls the library makes, to `rand`.
- `tests/`: tests of the library on concrete values.
- `app/`: the programs around the library.
  - `main.rs`, `renderer.rs`, `shader.rs`: the backend, with the tokio
    server and the wgpu/winit renderer.
  - `firmware/`: the embassy firmware. It is compiled only for the
    microcontroller.
