//! The message-passing examples: a producer of accelerometer-like samples
//! and a command channel.

use vstd::prelude::*;

verus! {

/// A raw accelerometer sample.
#[derive(Debug, Clone, Copy, PartialEq, Eq, Structural)]
pub struct RawSample {
    pub x: i16,
    pub y: i16,
    pub z: i16,
}

/// The sample the producer sends on its `count`-th round: `count`,
/// `count + 1`, `count + 2`.
pub fn produce_sample(count: i16) -> (s: RawSample)
    requires
        count <= i16::MAX - 2,
    ensures
        s.x == count,
        s.y == count + 1,
        s.z == count + 2,
{
    RawSample { x: count, y: count + 1, z: count + 2 }
}

/// A command sent to the handler task.
#[derive(Debug, Clone, Copy, PartialEq, Eq, Structural)]
pub enum Command {
    Start,
    Stop,
    Reset,
}

/// What the handler reports for a command.
pub fn command_message(cmd: Command) -> (m: &'static str)
    ensures
        m@ == (match cmd {
            Command::Start => "Starting..."@,
            Command::Stop => "Stopping..."@,
            Command::Reset => "Resetting..."@,
        }),
{
    match cmd {
        Command::Start => "Starting...",
        Command::Stop => "Stopping...",
        Command::Reset => "Resetting...",
    }
}

/// One step of the command sender: the pause before the next command and
/// the command itself. It sends `Start` after one second and `Stop` two
/// seconds later, over and over; `round` counts the commands sent.
pub fn sender_step(round: u64) -> (r: (u64, Command))
    ensures
        r == (if round % 2 == 0 { (1000u64, Command::Start) } else { (2000u64, Command::Stop) }),
{
    if round % 2 == 0 {
        (1000, Command::Start)
    } else {
        (2000, Command::Stop)
    }
}

} // verus!
