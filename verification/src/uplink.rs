//! The sensor's side of the link: the network settings of the firmware and
//! the loop that keeps a TCP connection to the backend and forwards every
//! sample over it.

use vstd::prelude::*;
use crate::protocol::{AxisBits, encode_sample, spec_encode, spec_decode, lemma_decode_encode};

verus! {

/// The sensor's own IPv4 address, 10.0.0.2.
pub const DEVICE_IPV4: u32 = 0x0A00_0002;
/// The prefix length of the sensor's network (10.0.0.0/24).
pub const DEVICE_PREFIX_LEN: u8 = 24;
/// The gateway, 10.0.0.1.
pub const GATEWAY_IPV4: u32 = 0x0A00_0001;
/// The backend the sensor streams to: 10.0.0.1, port 8080.
pub const BACKEND_IPV4: u32 = 0x0A00_0001;
pub const BACKEND_PORT: u16 = 8080;
/// How long the sensor waits after a failed connection attempt.
pub const RECONNECT_DELAY_MS: u64 = 1000;

/// The seed for the network stack from eight random bytes, taken as a
/// little-endian `u64`.
pub open spec fn spec_seed(b: Seq<u8>) -> int {
    b[0] + 0x100 * b[1] + 0x1_0000 * b[2] + 0x100_0000 * b[3]
        + 0x1_0000_0000 * (b[4] + 0x100 * b[5] + 0x1_0000 * b[6] + 0x100_0000 * b[7])
}

/// `u64::from_le_bytes` of the random bytes the firmware draws.
pub fn seed_from_bytes(b: [u8; 8]) -> (seed: u64)
    ensures
        seed == spec_seed(b@),
{
    let lo = (b[0] as u64) | ((b[1] as u64) << 8) | ((b[2] as u64) << 16) | ((b[3] as u64) << 24);
    let hi = (b[4] as u64) | ((b[5] as u64) << 8) | ((b[6] as u64) << 16) | ((b[7] as u64) << 24);
    let b0 = b[0] as u64;
    let b1 = b[1] as u64;
    let b2 = b[2] as u64;
    let b3 = b[3] as u64;
    let b4 = b[4] as u64;
    let b5 = b[5] as u64;
    let b6 = b[6] as u64;
    let b7 = b[7] as u64;
    assert(lo == b0 + 0x100 * b1 + 0x1_0000 * b2 + 0x100_0000 * b3) by (bit_vector)
        requires lo == b0 | (b1 << 8) | (b2 << 16) | (b3 << 24), b0 < 256, b1 < 256, b2 < 256, b3 < 256;
    assert(hi == b4 + 0x100 * b5 + 0x1_0000 * b6 + 0x100_0000 * b7) by (bit_vector)
        requires hi == b4 | (b5 << 8) | (b6 << 16) | (b7 << 24), b4 < 256, b5 < 256, b6 < 256, b7 < 256;
    let seed = lo | (hi << 32);
    assert(seed == lo + 0x1_0000_0000 * hi) by (bit_vector)
        requires seed == lo | (hi << 32), lo < 0x1_0000_0000, hi < 0x1_0000_0000;
    seed
}

/// One axis of a sample, in the order they go on the wire.
#[derive(Debug, Clone, Copy, PartialEq, Eq, Structural)]
pub enum Axis {
    X,
    Y,
    Z,
}

/// The position of an axis in a frame: x first, then y, then z.
pub open spec fn spec_axis_index(a: Axis) -> int {
    match a {
        Axis::X => 0,
        Axis::Y => 1,
        Axis::Z => 2,
    }
}

/// The four bytes of axis `a` of the frame of `s`.
pub open spec fn spec_axis_bytes(s: AxisBits, a: Axis) -> Seq<u8> {
    spec_encode(s).subrange(4 * spec_axis_index(a), 4 * spec_axis_index(a) + 4)
}

/// Where the forwarding loop stands.
#[derive(Debug, Clone, Copy, PartialEq, Eq, Structural)]
pub enum UplinkState {
    /// Connecting to the backend.
    Connecting,
    /// Waiting before the next connection attempt.
    BackingOff,
    /// Connected, waiting for the next sample.
    Receiving,
    /// Connected, writing this axis of the sample; the axes before it are
    /// written.
    Sending(Axis),
}

/// What the loop asks the network and the sample stream for.
#[derive(Debug, Clone, Copy, PartialEq, Eq)]
pub enum UplinkAction {
    /// Open a TCP connection to this IPv4 address and port.
    Connect(u32, u16),
    /// Sleep this many milliseconds.
    Sleep(u64),
    /// Take the next sample from the stream.
    Receive,
    /// Write these four bytes, one axis of the sample, to the connection.
    Send([u8; 4]),
}

/// What happened to the loop's last request.
#[derive(Debug, Clone, Copy, PartialEq, Eq, Structural)]
pub enum UplinkEvent {
    Connected,
    ConnectFailed,
    Slept,
    Sample(AxisBits),
    Sent,
    SendFailed,
}

/// The transition of the forwarding loop: a failed connection attempt is
/// retried after a pause; every sample is written as it arrives, axis after
/// axis; a failed write drops the connection and connects anew. Events
/// that do not answer the pending request change nothing.
pub open spec fn spec_uplink_step(s: UplinkState, e: UplinkEvent) -> UplinkState {
    match (s, e) {
        (UplinkState::Connecting, UplinkEvent::Connected) => UplinkState::Receiving,
        (UplinkState::Connecting, UplinkEvent::ConnectFailed) => UplinkState::BackingOff,
        (UplinkState::BackingOff, UplinkEvent::Slept) => UplinkState::Connecting,
        (UplinkState::Receiving, UplinkEvent::Sample(_)) => UplinkState::Sending(Axis::X),
        (UplinkState::Sending(Axis::X), UplinkEvent::Sent) => UplinkState::Sending(Axis::Y),
        (UplinkState::Sending(Axis::Y), UplinkEvent::Sent) => UplinkState::Sending(Axis::Z),
        (UplinkState::Sending(Axis::Z), UplinkEvent::Sent) => UplinkState::Receiving,
        (UplinkState::Sending(_), UplinkEvent::SendFailed) => UplinkState::Connecting,
        _ => s,
    }
}

/// The forwarding loop: its state, and the sample being sent.
#[derive(Debug, Clone, Copy, PartialEq, Eq, Structural)]
pub struct Uplink {
    pub state: UplinkState,
    pub pending: AxisBits,
}

/// The loop before its first connection attempt.
pub open spec fn spec_uplink_initial() -> Uplink {
    Uplink { state: UplinkState::Connecting, pending: AxisBits::spec_zero() }
}

/// What the loop in state `u` asks for, as a request: `Connect` to the
/// backend, a pause of `RECONNECT_DELAY_MS`, the next sample, or the bytes
/// of the axis being written.
pub open spec fn spec_action_matches(u: Uplink, a: UplinkAction) -> bool {
    match a {
        UplinkAction::Connect(ip, port) => u.state == UplinkState::Connecting && ip == BACKEND_IPV4 && port == BACKEND_PORT,
        UplinkAction::Sleep(ms) => u.state == UplinkState::BackingOff && ms == RECONNECT_DELAY_MS,
        UplinkAction::Receive => u.state == UplinkState::Receiving,
        UplinkAction::Send(b) => u.state is Sending && b@ == spec_axis_bytes(u.pending, u.state->0),
    }
}

impl Uplink {
    /// The loop before its first connection attempt.
    pub fn new() -> (u: Uplink)
        ensures
            u == spec_uplink_initial(),
    {
        Uplink { state: UplinkState::Connecting, pending: AxisBits::zero() }
    }

    /// Takes in what became of the last request and returns the next
    /// one. A sample that arrives is what the next writes carry.
    pub fn step(&mut self, e: UplinkEvent) -> (a: UplinkAction)
        ensures
            *final(self) == spec_uplink_next(*old(self), e),
            spec_action_matches(*final(self), a),
    {
        match (self.state, e) {
            (UplinkState::Connecting, UplinkEvent::Connected) => {
                self.state = UplinkState::Receiving;
            },
            (UplinkState::Connecting, UplinkEvent::ConnectFailed) => {
                self.state = UplinkState::BackingOff;
            },
            (UplinkState::BackingOff, UplinkEvent::Slept) => {
                self.state = UplinkState::Connecting;
            },
            (UplinkState::Receiving, UplinkEvent::Sample(s)) => {
                self.state = UplinkState::Sending(Axis::X);
                self.pending = s;
            },
            (UplinkState::Sending(Axis::X), UplinkEvent::Sent) => {
                self.state = UplinkState::Sending(Axis::Y);
            },
            (UplinkState::Sending(Axis::Y), UplinkEvent::Sent) => {
                self.state = UplinkState::Sending(Axis::Z);
            },
            (UplinkState::Sending(Axis::Z), UplinkEvent::Sent) => {
                self.state = UplinkState::Receiving;
            },
            (UplinkState::Sending(_), UplinkEvent::SendFailed) => {
                self.state = UplinkState::Connecting;
            },
            _ => {},
        }
        self.action()
    }

    /// The request of the loop in its current state.
    pub fn action(&self) -> (a: UplinkAction)
        ensures
            spec_action_matches(*self, a),
    {
        match self.state {
            UplinkState::Connecting => UplinkAction::Connect(BACKEND_IPV4, BACKEND_PORT),
            UplinkState::BackingOff => UplinkAction::Sleep(RECONNECT_DELAY_MS),
            UplinkState::Receiving => UplinkAction::Receive,
            UplinkState::Sending(axis) => {
                let f = encode_sample(self.pending);
                let b = match axis {
                    Axis::X => [f[0], f[1], f[2], f[3]],
                    Axis::Y => [f[4], f[5], f[6], f[7]],
                    Axis::Z => [f[8], f[9], f[10], f[11]],
                };
                assert(b@ =~= spec_axis_bytes(self.pending, axis));
                UplinkAction::Send(b)
            },
        }
    }
}

/// The loop after one event: the state moves by [`spec_uplink_step`], and
/// a sample taken while receiving becomes the one to send.
pub open spec fn spec_uplink_next(u: Uplink, e: UplinkEvent) -> Uplink {
    Uplink {
        state: spec_uplink_step(u.state, e),
        pending: match (u.state, e) {
            (UplinkState::Receiving, UplinkEvent::Sample(s)) => s,
            _ => u.pending,
        },
    }
}

/// The loop after the events `evs`, one after the other.
pub open spec fn spec_uplink_run(u: Uplink, evs: Seq<UplinkEvent>) -> Uplink
    decreases evs.len(),
{
    if evs.len() == 0 {
        u
    } else {
        spec_uplink_run(spec_uplink_next(u, evs[0]), evs.drop_first())
    }
}

/// The state of the loop started in `u` after the first `i` events of
/// `evs`.
pub open spec fn spec_state_at(u: Uplink, evs: Seq<UplinkEvent>, i: int) -> UplinkState {
    spec_uplink_run(u, evs.take(i)).state
}

/// The bytes that reach the connection during the events `evs`: each
/// `Sent` that answers a write stands for the four bytes of that axis,
/// written in full. A write that fails is not counted; the axes written
/// before it are.
pub open spec fn spec_written(u: Uplink, evs: Seq<UplinkEvent>) -> Seq<u8>
    decreases evs.len(),
{
    if evs.len() == 0 {
        Seq::empty()
    } else {
        let w = if u.state is Sending && evs[0] == UplinkEvent::Sent {
            spec_axis_bytes(u.pending, u.state->0)
        } else {
            Seq::empty()
        };
        w + spec_written(spec_uplink_next(u, evs[0]), evs.drop_first())
    }
}

/// The events of a connection over which the samples `samples` arrive one
/// after the other and every write succeeds.
pub open spec fn spec_forward_events(samples: Seq<AxisBits>) -> Seq<UplinkEvent>
    decreases samples.len(),
{
    if samples.len() == 0 {
        Seq::empty()
    } else {
        seq![UplinkEvent::Sample(samples[0]), UplinkEvent::Sent, UplinkEvent::Sent, UplinkEvent::Sent]
            + spec_forward_events(samples.drop_first())
    }
}

/// The frames of `samples`, one after the other.
pub open spec fn spec_stream(samples: Seq<AxisBits>) -> Seq<u8>
    decreases samples.len(),
{
    if samples.len() == 0 {
        Seq::empty()
    } else {
        spec_encode(samples[0]) + spec_stream(samples.drop_first())
    }
}

/// Running the first `i + 1` events is running the first `i` and then
/// event `i`.
proof fn lemma_run_take_step(u: Uplink, evs: Seq<UplinkEvent>, i: int)
    requires
        0 <= i < evs.len(),
    ensures
        spec_uplink_run(u, evs.take(i + 1)) == spec_uplink_next(spec_uplink_run(u, evs.take(i)), evs[i]),
    decreases i,
{
    let u1 = spec_uplink_next(u, evs[0]);
    let d = evs.drop_first();
    assert(evs.take(i + 1)[0] == evs[0]);
    assert(evs.take(i + 1).drop_first() =~= d.take(i));
    assert(spec_uplink_run(u, evs.take(i + 1)) == spec_uplink_run(u1, d.take(i)));
    if i == 0 {
        assert(d.take(0) =~= Seq::<UplinkEvent>::empty());
        assert(evs.take(0) =~= Seq::<UplinkEvent>::empty());
        assert(spec_uplink_run(u1, d.take(0)) == u1);
        assert(spec_uplink_run(u, evs.take(0)) == u);
    } else {
        assert(evs.take(i)[0] == evs[0]);
        assert(evs.take(i).drop_first() =~= d.take(i - 1));
        assert(spec_uplink_run(u, evs.take(i)) == spec_uplink_run(u1, d.take(i - 1)));
        lemma_run_take_step(u1, d, i - 1);
        assert(d[i - 1] == evs[i]);
    }
}

proof fn lemma_connected_until_write_fails(u: Uplink, evs: Seq<UplinkEvent>, i: int, j: int)
    requires
        0 <= i < j <= evs.len(),
        spec_state_at(u, evs, i) == UplinkState::Connecting,
        evs[i] == UplinkEvent::Connected,
        forall|k: int| i < k < j ==> !(#[trigger] spec_state_at(u, evs, k) is Sending && evs[k] == UplinkEvent::SendFailed),
    ensures
        spec_state_at(u, evs, j) is Receiving || spec_state_at(u, evs, j) is Sending,
    decreases j - i,
{
    lemma_run_take_step(u, evs, j - 1);
    if j > i + 1 {
        lemma_connected_until_write_fails(u, evs, i, j - 1);
        assert(!(spec_state_at(u, evs, j - 1) is Sending && evs[j - 1] == UplinkEvent::SendFailed));
    }
}

proof fn lemma_backing_off_until_slept(u: Uplink, evs: Seq<UplinkEvent>, i: int, m: int)
    requires
        0 <= i < m <= evs.len(),
        spec_state_at(u, evs, i) == UplinkState::Connecting,
        evs[i] == UplinkEvent::ConnectFailed,
        forall|k: int| i < k < m ==> !(#[trigger] spec_state_at(u, evs, k) == UplinkState::BackingOff && evs[k] == UplinkEvent::Slept),
    ensures
        spec_state_at(u, evs, m) == UplinkState::BackingOff,
    decreases m - i,
{
    lemma_run_take_step(u, evs, m - 1);
    if m > i + 1 {
        lemma_backing_off_until_slept(u, evs, i, m - 1);
        assert(!(spec_state_at(u, evs, m - 1) == UplinkState::BackingOff && evs[m - 1] == UplinkEvent::Slept));
    }
}

/// The loop never runs out of requests: in every state there is one that
/// matches it, so the loop asks for something after every event.
pub proof fn lemma_always_a_request(u: Uplink)
    ensures
        exists|a: UplinkAction| spec_action_matches(u, a),
{
    match u.state {
        UplinkState::Connecting => {
            assert(spec_action_matches(u, UplinkAction::Connect(BACKEND_IPV4, BACKEND_PORT)));
        },
        UplinkState::BackingOff => {
            assert(spec_action_matches(u, UplinkAction::Sleep(RECONNECT_DELAY_MS)));
        },
        UplinkState::Receiving => {
            assert(spec_action_matches(u, UplinkAction::Receive));
        },
        UplinkState::Sending(a) => {
            let b = spec_axis_bytes(u.pending, a);
            let arr: [u8; 4] = [b[0], b[1], b[2], b[3]];
            assert(arr@ =~= b);
            assert(spec_action_matches(u, UplinkAction::Send(arr)));
        },
    }
}

/// The run of the forwarding loop, whatever happens to its requests: in
/// every state it has a next request (a connection request goes to the
/// backend, see [`spec_action_matches`]), so it never ends. Once connected
/// it forwards the stream until a write fails; a failed write makes it
/// connect anew; and after a failed connection attempt it does not try
/// again before the pause of `RECONNECT_DELAY_MS` has been slept.
pub proof fn lemma_uplink_run(evs: Seq<UplinkEvent>, i: int, j: int)
    requires
        0 <= i < j <= evs.len(),
    ensures
        exists|a: UplinkAction| spec_action_matches(spec_uplink_run(spec_uplink_initial(), evs.take(i)), a),
        spec_state_at(spec_uplink_initial(), evs, i) == UplinkState::Connecting && evs[i] == UplinkEvent::Connected
            && (forall|k: int| i < k < j ==> !(#[trigger] spec_state_at(spec_uplink_initial(), evs, k) is Sending
                && evs[k] == UplinkEvent::SendFailed))
            ==> (spec_state_at(spec_uplink_initial(), evs, j) is Receiving
                || spec_state_at(spec_uplink_initial(), evs, j) is Sending),
        spec_state_at(spec_uplink_initial(), evs, i) is Sending && evs[i] == UplinkEvent::SendFailed
            ==> spec_state_at(spec_uplink_initial(), evs, i + 1) == UplinkState::Connecting,
        spec_state_at(spec_uplink_initial(), evs, i) == UplinkState::Connecting && evs[i] == UplinkEvent::ConnectFailed
            && spec_state_at(spec_uplink_initial(), evs, j) == UplinkState::Connecting
            ==> exists|k: int| i < k < j && #[trigger] spec_state_at(spec_uplink_initial(), evs, k) == UplinkState::BackingOff
                && evs[k] == UplinkEvent::Slept,
{
    let u0 = spec_uplink_initial();
    lemma_always_a_request(spec_uplink_run(u0, evs.take(i)));
    lemma_run_take_step(u0, evs, i);
    if spec_state_at(u0, evs, i) == UplinkState::Connecting && evs[i] == UplinkEvent::Connected
        && (forall|k: int| i < k < j ==> !(#[trigger] spec_state_at(u0, evs, k) is Sending
            && evs[k] == UplinkEvent::SendFailed)) {
        lemma_connected_until_write_fails(u0, evs, i, j);
    }
    if spec_state_at(u0, evs, i) == UplinkState::Connecting && evs[i] == UplinkEvent::ConnectFailed
        && spec_state_at(u0, evs, j) == UplinkState::Connecting {
        if !exists|k: int| i < k < j && #[trigger] spec_state_at(u0, evs, k) == UplinkState::BackingOff
            && evs[k] == UplinkEvent::Slept {
            lemma_backing_off_until_slept(u0, evs, i, j);
        }
    }
}

proof fn lemma_frame_is_axes(s: AxisBits)
    ensures
        spec_axis_bytes(s, Axis::X) + spec_axis_bytes(s, Axis::Y) + spec_axis_bytes(s, Axis::Z) == spec_encode(s),
{
    assert(spec_axis_bytes(s, Axis::X) + spec_axis_bytes(s, Axis::Y) + spec_axis_bytes(s, Axis::Z) =~= spec_encode(s));
}

proof fn lemma_forward_written(u: Uplink, samples: Seq<AxisBits>)
    requires
        u.state == UplinkState::Receiving,
    ensures
        spec_written(u, spec_forward_events(samples)) == spec_stream(samples),
        spec_uplink_run(u, spec_forward_events(samples)).state == UplinkState::Receiving,
    decreases samples.len(),
{
    if samples.len() > 0 {
        let s0 = samples[0];
        let rest = samples.drop_first();
        let evs = spec_forward_events(samples);
        let r = spec_forward_events(rest);
        let t1 = seq![UplinkEvent::Sent, UplinkEvent::Sent, UplinkEvent::Sent] + r;
        let t2 = seq![UplinkEvent::Sent, UplinkEvent::Sent] + r;
        let t3 = seq![UplinkEvent::Sent] + r;
        assert(evs[0] == UplinkEvent::Sample(s0));
        assert(evs.drop_first() =~= t1);
        assert(t1[0] == UplinkEvent::Sent && t1.drop_first() =~= t2);
        assert(t2[0] == UplinkEvent::Sent && t2.drop_first() =~= t3);
        assert(t3[0] == UplinkEvent::Sent && t3.drop_first() =~= r);
        let u1 = spec_uplink_next(u, UplinkEvent::Sample(s0));
        let u2 = spec_uplink_next(u1, UplinkEvent::Sent);
        let u3 = spec_uplink_next(u2, UplinkEvent::Sent);
        let u4 = spec_uplink_next(u3, UplinkEvent::Sent);
        assert(u1.state == UplinkState::Sending(Axis::X) && u1.pending == s0);
        assert(u2.state == UplinkState::Sending(Axis::Y) && u2.pending == s0);
        assert(u3.state == UplinkState::Sending(Axis::Z) && u3.pending == s0);
        assert(u4.state == UplinkState::Receiving);
        lemma_forward_written(u4, rest);
        assert(spec_uplink_run(u3, t3) == spec_uplink_run(u4, r));
        assert(spec_uplink_run(u2, t2) == spec_uplink_run(u3, t3));
        assert(spec_uplink_run(u1, t1) == spec_uplink_run(u2, t2));
        assert(spec_uplink_run(u, evs) == spec_uplink_run(u1, t1));
        lemma_frame_is_axes(s0);
        assert(spec_written(u3, t3) == spec_axis_bytes(s0, Axis::Z) + spec_written(u4, r));
        assert(spec_written(u2, t2) == spec_axis_bytes(s0, Axis::Y) + spec_written(u3, t3));
        assert(spec_written(u1, t1) == spec_axis_bytes(s0, Axis::X) + spec_written(u2, t2));
        assert(spec_written(u, evs) =~= Seq::<u8>::empty() + spec_written(u1, t1));
        assert(spec_written(u, evs) =~= spec_encode(s0) + spec_stream(rest));
    }
}

proof fn lemma_stream_frames(samples: Seq<AxisBits>, k: int)
    requires
        0 <= k < samples.len(),
    ensures
        spec_stream(samples).len() == 12 * samples.len(),
        spec_stream(samples).subrange(12 * k, 12 * k + 12) == spec_encode(samples[k]),
    decreases samples.len(),
{
    let rest = samples.drop_first();
    let head = spec_encode(samples[0]);
    assert(head.len() == 12);
    if k == 0 {
        if rest.len() > 0 {
            lemma_stream_frames(rest, 0);
        }
        assert(spec_stream(samples).subrange(0, 12) =~= head);
    } else {
        lemma_stream_frames(rest, k - 1);
        assert(rest[k - 1] == samples[k]);
        assert(spec_stream(samples).subrange(12 * k, 12 * k + 12)
            =~= spec_stream(rest).subrange(12 * (k - 1), 12 * (k - 1) + 12));
    }
    if rest.len() == 0 {
        assert(spec_stream(rest).len() == 0);
    } else {
        lemma_stream_frames(rest, 0);
    }
}

/// Forwarding: over a connection whose writes all succeed, the loop writes
/// exactly the frames of the samples it takes, in the order it takes them,
/// twelve bytes each, so that bytes `12 k .. 12 k + 12` decode to the
/// `k`-th sample bit for bit; afterwards it waits for the next sample.
pub proof fn lemma_forwards_samples_in_order(u: Uplink, samples: Seq<AxisBits>)
    requires
        u.state == UplinkState::Receiving,
    ensures
        spec_written(u, spec_forward_events(samples)) == spec_stream(samples),
        spec_stream(samples).len() == 12 * samples.len(),
        forall|k: int| 0 <= k < samples.len() ==> #[trigger] spec_decode(spec_stream(samples).subrange(12 * k, 12 * k + 12)) == samples[k],
        spec_uplink_run(u, spec_forward_events(samples)).state == UplinkState::Receiving,
{
    lemma_forward_written(u, samples);
    if samples.len() > 0 {
        lemma_stream_frames(samples, 0);
    } else {
        assert(spec_stream(samples).len() == 0);
    }
    assert forall|k: int| 0 <= k < samples.len() implies #[trigger] spec_decode(spec_stream(samples).subrange(12 * k, 12 * k + 12)) == samples[k] by {
        lemma_stream_frames(samples, k);
        lemma_decode_encode(samples[k]);
    }
}

/// The events of a sample whose first `n` axes are written and whose next
/// write fails.
pub open spec fn spec_failed_send_events(s: AxisBits, n: int) -> Seq<UplinkEvent> {
    seq![UplinkEvent::Sample(s)] + Seq::new(n as nat, |i: int| UplinkEvent::Sent) + seq![UplinkEvent::SendFailed]
}

/// A failed write ends the connection: the loop connects anew. What
/// reached the connection is the part of the frame written before the
/// failure: the first `n` axes, `4 n` bytes.
pub proof fn lemma_send_failure_reconnects(u: Uplink, s: AxisBits, n: int)
    requires
        u.state == UplinkState::Receiving,
        0 <= n < 3,
    ensures
        spec_uplink_run(u, spec_failed_send_events(s, n)).state == UplinkState::Connecting,
        spec_written(u, spec_failed_send_events(s, n)) == spec_encode(s).subrange(0, 4 * n),
{
    let evs = spec_failed_send_events(s, n);
    let fail = seq![UplinkEvent::SendFailed];
    let u1 = spec_uplink_next(u, UplinkEvent::Sample(s));
    let u2 = spec_uplink_next(u1, UplinkEvent::Sent);
    let u3 = spec_uplink_next(u2, UplinkEvent::Sent);
    assert(evs[0] == UplinkEvent::Sample(s));
    assert(fail[0] == UplinkEvent::SendFailed && fail.drop_first() =~= Seq::<UplinkEvent>::empty());
    let e0 = Seq::<UplinkEvent>::empty();
    lemma_frame_is_axes(s);
    if n == 0 {
        assert(evs.drop_first() =~= fail);
        let uf = spec_uplink_next(u1, UplinkEvent::SendFailed);
        assert(spec_uplink_run(uf, e0) == uf);
        assert(spec_uplink_run(u1, fail) == uf);
        assert(spec_uplink_run(u, evs) == spec_uplink_run(u1, fail));
        assert(spec_written(uf, e0) =~= Seq::<u8>::empty());
        assert(spec_written(u1, fail) =~= Seq::<u8>::empty());
        assert(spec_written(u, evs) =~= Seq::<u8>::empty());
        assert(spec_encode(s).subrange(0, 0) =~= Seq::<u8>::empty());
    } else if n == 1 {
        let t1 = seq![UplinkEvent::Sent] + fail;
        assert(evs.drop_first() =~= t1);
        assert(t1[0] == UplinkEvent::Sent && t1.drop_first() =~= fail);
        let uf = spec_uplink_next(u2, UplinkEvent::SendFailed);
        assert(spec_uplink_run(uf, e0) == uf);
        assert(spec_uplink_run(u2, fail) == uf);
        assert(spec_uplink_run(u1, t1) == uf);
        assert(spec_uplink_run(u, evs) == spec_uplink_run(u1, t1));
        assert(spec_written(uf, e0) =~= Seq::<u8>::empty());
        assert(spec_written(u2, fail) =~= Seq::<u8>::empty());
        assert(spec_written(u1, t1) =~= spec_axis_bytes(s, Axis::X));
        assert(spec_written(u, evs) =~= spec_axis_bytes(s, Axis::X));
        assert(spec_encode(s).subrange(0, 4) =~= spec_axis_bytes(s, Axis::X));
    } else {
        let t1 = seq![UplinkEvent::Sent, UplinkEvent::Sent] + fail;
        let t2 = seq![UplinkEvent::Sent] + fail;
        assert(evs.drop_first() =~= t1);
        assert(t1[0] == UplinkEvent::Sent && t1.drop_first() =~= t2);
        assert(t2[0] == UplinkEvent::Sent && t2.drop_first() =~= fail);
        let uf = spec_uplink_next(u3, UplinkEvent::SendFailed);
        assert(spec_uplink_run(uf, e0) == uf);
        assert(spec_uplink_run(u3, fail) == uf);
        assert(spec_uplink_run(u2, t2) == uf);
        assert(spec_uplink_run(u1, t1) == uf);
        assert(spec_uplink_run(u, evs) == spec_uplink_run(u1, t1));
        assert(spec_written(uf, e0) =~= Seq::<u8>::empty());
        assert(spec_written(u3, fail) =~= Seq::<u8>::empty());
        assert(spec_written(u2, t2) =~= spec_axis_bytes(s, Axis::Y));
        assert(spec_written(u1, t1) =~= spec_axis_bytes(s, Axis::X) + spec_axis_bytes(s, Axis::Y));
        assert(spec_written(u, evs) =~= spec_axis_bytes(s, Axis::X) + spec_axis_bytes(s, Axis::Y));
        assert(spec_encode(s).subrange(0, 8) =~= spec_axis_bytes(s, Axis::X) + spec_axis_bytes(s, Axis::Y));
    }
}

} // verus!
