//! A register read over the STM32 I2C peripheral, polled.
//!
//! Reading one register of a device takes two transfers: a one-byte write
//! of the register address, then, after a repeated start, a one-byte read.
//! Between the steps the driver polls the interrupt-and-status register
//! (ISR) for a flag, giving up after a fixed number of polls. The decisions
//! of that protocol are made here; the register accesses themselves are
//! performed by the caller, which runs the loop: it carries out the
//! [`I2cAction`] the transaction asks for and feeds back what it observed
//! as an [`I2cEvent`].

use vstd::prelude::*;

verus! {

/// How often a wait polls the ISR before it gives up.
pub const POLL_LIMIT: u32 = 100000;

/// Why a transfer failed.
#[derive(Debug, Clone, Copy, PartialEq, Eq, Structural)]
pub enum I2cError {
    /// The awaited flag did not come up within [`POLL_LIMIT`] polls.
    Timeout,
    /// The addressed device did not acknowledge.
    Nack,
}

/// The ISR flags the driver looks at.
#[derive(Debug, Clone, Copy, PartialEq, Eq, Structural)]
pub struct IsrFlags {
    /// TXIS: the transmit data register wants the next byte.
    pub txis: bool,
    /// RXNE: a received byte waits in the receive data register.
    pub rxne: bool,
    /// NACKF: a NACK was received.
    pub nackf: bool,
    /// STOPF: a stop condition was detected.
    pub stopf: bool,
    /// TC: the transfer of NBYTES bytes is complete.
    pub tc: bool,
    /// BUSY: a communication is in progress on the bus.
    pub busy: bool,
}

/// Whether bit `n` of `word` is set.
pub open spec fn bit(word: u32, n: u32) -> bool {
    (word >> n) & 1 == 1
}

impl IsrFlags {
    /// The flags of a raw ISR value: TXIS is bit 1, RXNE bit 2, NACKF bit 4,
    /// STOPF bit 5, TC bit 6 and BUSY bit 15.
    pub fn from_isr(isr: u32) -> (f: IsrFlags)
        ensures
            f.txis == bit(isr, 1),
            f.rxne == bit(isr, 2),
            f.nackf == bit(isr, 4),
            f.stopf == bit(isr, 5),
            f.tc == bit(isr, 6),
            f.busy == bit(isr, 15),
    {
        IsrFlags {
            txis: (isr >> 1) & 1 == 1,
            rxne: (isr >> 2) & 1 == 1,
            nackf: (isr >> 4) & 1 == 1,
            stopf: (isr >> 5) & 1 == 1,
            tc: (isr >> 6) & 1 == 1,
            busy: (isr >> 15) & 1 == 1,
        }
    }
}

/// What a wait waits for.
#[derive(Debug, Clone, Copy, PartialEq, Eq, Structural)]
pub enum WaitCondition {
    /// The bus is free (BUSY clear).
    NotBusy,
    /// TXIS set.
    TxReady,
    /// TC set.
    TransferComplete,
    /// RXNE set.
    RxReady,
    /// STOPF set.
    Stop,
}

/// Whether `flags` satisfy the condition.
pub open spec fn spec_condition_met(c: WaitCondition, flags: IsrFlags) -> bool {
    match c {
        WaitCondition::NotBusy => !flags.busy,
        WaitCondition::TxReady => flags.txis,
        WaitCondition::TransferComplete => flags.tc,
        WaitCondition::RxReady => flags.rxne,
        WaitCondition::Stop => flags.stopf,
    }
}

/// Whether a NACK ends the wait: the waits for TXIS, TC and RXNE look at
/// NACKF (after their own flag), the waits for a free bus and for STOPF do
/// not.
pub open spec fn spec_fails_on_nack(c: WaitCondition) -> bool {
    match c {
        WaitCondition::TxReady | WaitCondition::TransferComplete | WaitCondition::RxReady => true,
        _ => false,
    }
}

/// The outcome of one poll of a wait.
#[derive(Debug, Clone, Copy, PartialEq, Eq, Structural)]
pub enum PollOutcome {
    /// The condition holds; the wait is over.
    Ready,
    /// Poll again.
    Pending,
    /// The wait failed.
    Failed(I2cError),
}

/// A wait for an ISR condition, with the number of polls it may still
/// make.
#[derive(Debug, Clone, Copy, PartialEq, Eq, Structural)]
pub struct FlagWait {
    pub condition: WaitCondition,
    pub remaining: u32,
}

/// One poll of a wait that may still poll `remaining` times: the
/// condition is checked first, then NACKF where the wait looks at it, and a
/// poll that finds neither uses up one of the remaining polls, the last one
/// ending the wait with a timeout.
pub open spec fn spec_poll(w: FlagWait, flags: IsrFlags) -> (PollOutcome, FlagWait) {
    if spec_condition_met(w.condition, flags) {
        (PollOutcome::Ready, w)
    } else if spec_fails_on_nack(w.condition) && flags.nackf {
        (PollOutcome::Failed(I2cError::Nack), w)
    } else if w.remaining <= 1 {
        (PollOutcome::Failed(I2cError::Timeout), FlagWait { condition: w.condition, remaining: 0 })
    } else {
        (PollOutcome::Pending, FlagWait { condition: w.condition, remaining: (w.remaining - 1) as u32 })
    }
}

impl FlagWait {
    /// A fresh wait with the full budget of [`POLL_LIMIT`] polls.
    pub fn new(condition: WaitCondition) -> (w: FlagWait)
        ensures
            w.condition == condition,
            w.remaining == POLL_LIMIT,
    {
        FlagWait { condition, remaining: POLL_LIMIT }
    }

    /// Whether `flags` satisfy the condition of this wait.
    pub fn condition_met(&self, flags: IsrFlags) -> (r: bool)
        ensures
            r == spec_condition_met(self.condition, flags),
    {
        match self.condition {
            WaitCondition::NotBusy => !flags.busy,
            WaitCondition::TxReady => flags.txis,
            WaitCondition::TransferComplete => flags.tc,
            WaitCondition::RxReady => flags.rxne,
            WaitCondition::Stop => flags.stopf,
        }
    }

    /// Takes one ISR reading into account.
    pub fn poll(&mut self, flags: IsrFlags) -> (out: PollOutcome)
        ensures
            (out, *final(self)) == spec_poll(*old(self), flags),
    {
        if self.condition_met(flags) {
            return PollOutcome::Ready;
        }
        let nack_ends = match self.condition {
            WaitCondition::TxReady | WaitCondition::TransferComplete | WaitCondition::RxReady => true,
            _ => false,
        };
        if nack_ends && flags.nackf {
            return PollOutcome::Failed(I2cError::Nack);
        }
        if self.remaining <= 1 {
            self.remaining = 0;
            PollOutcome::Failed(I2cError::Timeout)
        } else {
            self.remaining = self.remaining - 1;
            PollOutcome::Pending
        }
    }
}

/// A transfer as programmed into CR2.
#[derive(Debug, Clone, Copy, PartialEq, Eq, Structural)]
pub struct TransferConfig {
    /// SADD: the slave address field; a 7-bit address goes in bits 7:1.
    pub sadd: u16,
    /// NBYTES: how many bytes the transfer moves.
    pub nbytes: u8,
    /// RD_WRN: a read (the slave sends) rather than a write.
    pub read: bool,
    /// AUTOEND: send a stop condition by itself after the last byte.
    pub autoend: bool,
    /// START: generate a (repeated) start condition.
    pub start: bool,
}

/// The CR2 bits a transfer configuration owns: SADD (bits 9:0), RD_WRN
/// (bit 10), START (bit 13), NBYTES (bits 23:16) and AUTOEND (bit 25).
pub const CR2_TRANSFER_MASK: u32 = 0x02ff_27ff;

/// The one-byte write that selects register `reg` of the device at the
/// 7-bit address `addr`: no stop afterwards, so a read can follow.
pub open spec fn spec_write_config(addr: u8) -> TransferConfig {
    TransferConfig { sadd: (addr * 2) as u16, nbytes: 1, read: false, autoend: false, start: true }
}

/// The one-byte read that follows, ending with an automatic stop.
pub open spec fn spec_read_config(addr: u8) -> TransferConfig {
    TransferConfig { sadd: (addr * 2) as u16, nbytes: 1, read: true, autoend: true, start: true }
}

/// The SADD value of a 7-bit address: the address shifted left by one.
fn address_field(addr: u8) -> (s: u16)
    ensures
        s == addr * 2,
{
    let a = addr as u16;
    let s = a << 1;
    assert(s == a * 2) by (bit_vector)
        requires s == a << 1, a < 256;
    s
}

impl TransferConfig {
    /// The register-address write of a register read from `addr`.
    pub fn register_write(addr: u8) -> (c: TransferConfig)
        ensures
            c == spec_write_config(addr),
    {
        TransferConfig { sadd: address_field(addr), nbytes: 1, read: false, autoend: false, start: true }
    }

    /// The data read of a register read from `addr`.
    pub fn register_read(addr: u8) -> (c: TransferConfig)
        ensures
            c == spec_read_config(addr),
    {
        TransferConfig { sadd: address_field(addr), nbytes: 1, read: true, autoend: true, start: true }
    }

    /// CR2 after programming this transfer into the value `cr2`: the
    /// transfer's fields are replaced, every other bit is kept (a
    /// read-modify-write of the register).
    pub fn apply(&self, cr2: u32) -> (r: u32)
        ensures
            r & !CR2_TRANSFER_MASK == cr2 & !CR2_TRANSFER_MASK,
            r & 0x3ff == (self.sadd as u32) & 0x3ff,
            bit(r, 10) == self.read,
            bit(r, 13) == self.start,
            (r >> 16) & 0xff == self.nbytes as u32,
            bit(r, 25) == self.autoend,
    {
        let raw = self.sadd as u32;
        let sadd = raw & 0x3ff;
        assert(sadd < 0x400) by (bit_vector)
            requires sadd == raw & 0x3ff;
        let nbytes = self.nbytes as u32;
        let rd: u32 = if self.read { 1 } else { 0 };
        let st: u32 = if self.start { 1 } else { 0 };
        let ae: u32 = if self.autoend { 1 } else { 0 };
        let r = (cr2 & !CR2_TRANSFER_MASK) | sadd | (rd << 10) | (st << 13) | (nbytes << 16) | (ae << 25);
        assert(r & !CR2_TRANSFER_MASK == cr2 & !CR2_TRANSFER_MASK
            && r & 0x3ff == sadd
            && ((r >> 10) & 1 == 1) == (rd == 1)
            && ((r >> 13) & 1 == 1) == (st == 1)
            && (r >> 16) & 0xff == nbytes
            && ((r >> 25) & 1 == 1) == (ae == 1)) by (bit_vector)
            requires
                r == (cr2 & !CR2_TRANSFER_MASK) | sadd | (rd << 10) | (st << 13) | (nbytes << 16) | (ae << 25),
                sadd < 0x400,
                nbytes < 0x100,
                rd < 2,
                st < 2,
                ae < 2;
        assert(sadd == (self.sadd as u32) & 0x3ff);
        r
    }
}

/// Where a register read stands.
#[derive(Debug, Clone, Copy, PartialEq, Eq)]
pub enum ReadPhase {
    /// Polling until the bus is free.
    AwaitIdle,
    /// Programming the register-address write.
    ConfigureWrite,
    /// Polling for TXIS.
    AwaitTxReady,
    /// Writing the register address to TXDR.
    SendRegister,
    /// Polling for TC.
    AwaitTransferComplete,
    /// Programming the data read.
    ConfigureRead,
    /// Polling for RXNE.
    AwaitRxReady,
    /// Taking the byte from RXDR.
    ReceiveData,
    /// Polling for STOPF.
    AwaitStop,
    /// Clearing STOPF through ICR.
    ClearStop,
    /// Over, with this result.
    Done(Result<u8, I2cError>),
}

/// The register access a read asks its driver for next.
#[derive(Debug, Clone, Copy, PartialEq, Eq)]
pub enum I2cAction {
    /// Read ISR and report it with [`I2cEvent::Status`].
    ReadStatus,
    /// Program CR2 with this transfer (see [`TransferConfig::apply`]) and
    /// report [`I2cEvent::Written`].
    Configure(TransferConfig),
    /// Write this byte to TXDR and report [`I2cEvent::Written`].
    WriteData(u8),
    /// Read RXDR and report the byte with [`I2cEvent::Data`].
    ReadData,
    /// Set STOPCF in ICR and report [`I2cEvent::Written`].
    ClearStop,
    /// Nothing more to do; the read ended with this result.
    Finish(Result<u8, I2cError>),
}

/// What the driver observed after carrying out an action.
#[derive(Debug, Clone, Copy, PartialEq, Eq, Structural)]
pub enum I2cEvent {
    /// The ISR flags just read.
    Status(IsrFlags),
    /// The requested register write was made.
    Written,
    /// The byte just read from RXDR.
    Data(u8),
}

/// A read of one register of one device.
#[derive(Debug, Clone, Copy, PartialEq, Eq)]
pub struct RegisterRead {
    pub addr: u8,
    pub reg: u8,
    pub phase: ReadPhase,
    /// The wait in progress; meaningful in the polling phases.
    pub wait: FlagWait,
    /// The byte received; meaningful once it was received.
    pub data: u8,
}

/// The condition a polling phase waits for.
pub open spec fn spec_phase_condition(p: ReadPhase) -> Option<WaitCondition> {
    match p {
        ReadPhase::AwaitIdle => Some(WaitCondition::NotBusy),
        ReadPhase::AwaitTxReady => Some(WaitCondition::TxReady),
        ReadPhase::AwaitTransferComplete => Some(WaitCondition::TransferComplete),
        ReadPhase::AwaitRxReady => Some(WaitCondition::RxReady),
        ReadPhase::AwaitStop => Some(WaitCondition::Stop),
        _ => None,
    }
}

/// The action a read in state `s` asks for.
pub open spec fn spec_action(s: RegisterRead) -> I2cAction {
    match s.phase {
        ReadPhase::ConfigureWrite => I2cAction::Configure(spec_write_config(s.addr)),
        ReadPhase::SendRegister => I2cAction::WriteData(s.reg),
        ReadPhase::ConfigureRead => I2cAction::Configure(spec_read_config(s.addr)),
        ReadPhase::ReceiveData => I2cAction::ReadData,
        ReadPhase::ClearStop => I2cAction::ClearStop,
        ReadPhase::Done(r) => I2cAction::Finish(r),
        _ => I2cAction::ReadStatus,
    }
}

/// The state a read enters when the wait of its polling phase is over:
/// the next step of the protocol, with a fresh wait where that step polls.
pub open spec fn spec_after_wait(s: RegisterRead) -> RegisterRead {
    match s.phase {
        ReadPhase::AwaitIdle => RegisterRead { phase: ReadPhase::ConfigureWrite, ..s },
        ReadPhase::AwaitTxReady => RegisterRead { phase: ReadPhase::SendRegister, ..s },
        ReadPhase::AwaitTransferComplete => RegisterRead { phase: ReadPhase::ConfigureRead, ..s },
        ReadPhase::AwaitRxReady => RegisterRead { phase: ReadPhase::ReceiveData, ..s },
        _ => RegisterRead { phase: ReadPhase::ClearStop, ..s },
    }
}

/// A polling phase with a fresh wait for its condition.
pub open spec fn spec_awaiting(s: RegisterRead, p: ReadPhase) -> RegisterRead {
    RegisterRead { phase: p, wait: FlagWait { condition: spec_phase_condition(p)->0, remaining: POLL_LIMIT }, ..s }
}

/// The transition of a read on an event. Each phase accepts one kind of
/// event: the polling phases an ISR reading, the phases that write a
/// register the acknowledgement of that write, the receiving phase the
/// byte. Any other event leaves the read as it was, as does every event
/// once the read is done.
pub open spec fn spec_step(s: RegisterRead, e: I2cEvent) -> RegisterRead {
    match (s.phase, e) {
        (ReadPhase::AwaitIdle, I2cEvent::Status(f))
        | (ReadPhase::AwaitTxReady, I2cEvent::Status(f))
        | (ReadPhase::AwaitTransferComplete, I2cEvent::Status(f))
        | (ReadPhase::AwaitRxReady, I2cEvent::Status(f))
        | (ReadPhase::AwaitStop, I2cEvent::Status(f)) => {
            let (out, w) = spec_poll(s.wait, f);
            match out {
                PollOutcome::Ready => spec_after_wait(s),
                PollOutcome::Pending => RegisterRead { wait: w, ..s },
                PollOutcome::Failed(err) => RegisterRead { phase: ReadPhase::Done(Err(err)), wait: w, ..s },
            }
        },
        (ReadPhase::ConfigureWrite, I2cEvent::Written) => spec_awaiting(s, ReadPhase::AwaitTxReady),
        (ReadPhase::SendRegister, I2cEvent::Written) => spec_awaiting(s, ReadPhase::AwaitTransferComplete),
        (ReadPhase::ConfigureRead, I2cEvent::Written) => spec_awaiting(s, ReadPhase::AwaitRxReady),
        (ReadPhase::ReceiveData, I2cEvent::Data(b)) => RegisterRead { data: b, ..spec_awaiting(s, ReadPhase::AwaitStop) },
        (ReadPhase::ClearStop, I2cEvent::Written) => RegisterRead { phase: ReadPhase::Done(Ok(s.data)), ..s },
        _ => s,
    }
}

/// The state of a read that has not started yet: it first waits for the
/// bus to be free.
pub open spec fn spec_start(addr: u8, reg: u8) -> RegisterRead {
    RegisterRead {
        addr,
        reg,
        phase: ReadPhase::AwaitIdle,
        wait: FlagWait { condition: WaitCondition::NotBusy, remaining: POLL_LIMIT },
        data: 0,
    }
}

/// The reachable states: in a polling phase the wait is for that phase's
/// condition and has at least one poll left.
pub open spec fn spec_read_wf(s: RegisterRead) -> bool {
    match spec_phase_condition(s.phase) {
        Some(c) => s.wait.condition == c && 1 <= s.wait.remaining <= POLL_LIMIT,
        None => true,
    }
}

impl RegisterRead {
    /// Starts a read of register `reg` of the device at 7-bit address
    /// `addr`.
    pub fn new(addr: u8, reg: u8) -> (s: RegisterRead)
        ensures
            s == spec_start(addr, reg),
            spec_read_wf(s),
    {
        RegisterRead { addr, reg, phase: ReadPhase::AwaitIdle, wait: FlagWait::new(WaitCondition::NotBusy), data: 0 }
    }

    /// Whether the read is over.
    pub fn is_done(&self) -> (r: bool)
        ensures
            r == (self.phase is Done),
    {
        match self.phase {
            ReadPhase::Done(_) => true,
            _ => false,
        }
    }

    /// What the driver has to do next.
    pub fn action(&self) -> (a: I2cAction)
        ensures
            a == spec_action(*self),
    {
        match self.phase {
            ReadPhase::ConfigureWrite => I2cAction::Configure(TransferConfig::register_write(self.addr)),
            ReadPhase::SendRegister => I2cAction::WriteData(self.reg),
            ReadPhase::ConfigureRead => I2cAction::Configure(TransferConfig::register_read(self.addr)),
            ReadPhase::ReceiveData => I2cAction::ReadData,
            ReadPhase::ClearStop => I2cAction::ClearStop,
            ReadPhase::Done(r) => I2cAction::Finish(r),
            _ => I2cAction::ReadStatus,
        }
    }

    fn await_phase(&mut self, p: ReadPhase, c: WaitCondition)
        requires
            spec_phase_condition(p) == Some(c),
        ensures
            *final(self) == spec_awaiting(*old(self), p),
    {
        self.phase = p;
        self.wait = FlagWait::new(c);
    }

    /// Feeds the driver's observation to the read and returns what it has
    /// to do next.
    pub fn step(&mut self, e: I2cEvent) -> (a: I2cAction)
        requires
            spec_read_wf(*old(self)),
        ensures
            *final(self) == spec_step(*old(self), e),
            spec_read_wf(*final(self)),
            a == spec_action(*final(self)),
    {
        match (self.phase, e) {
            (ReadPhase::AwaitIdle, I2cEvent::Status(f))
            | (ReadPhase::AwaitTxReady, I2cEvent::Status(f))
            | (ReadPhase::AwaitTransferComplete, I2cEvent::Status(f))
            | (ReadPhase::AwaitRxReady, I2cEvent::Status(f))
            | (ReadPhase::AwaitStop, I2cEvent::Status(f)) => {
                match self.wait.poll(f) {
                    PollOutcome::Ready => {
                        self.phase = match self.phase {
                            ReadPhase::AwaitIdle => ReadPhase::ConfigureWrite,
                            ReadPhase::AwaitTxReady => ReadPhase::SendRegister,
                            ReadPhase::AwaitTransferComplete => ReadPhase::ConfigureRead,
                            ReadPhase::AwaitRxReady => ReadPhase::ReceiveData,
                            _ => ReadPhase::ClearStop,
                        };
                    },
                    PollOutcome::Pending => {},
                    PollOutcome::Failed(err) => {
                        self.phase = ReadPhase::Done(Err(err));
                    },
                }
            },
            (ReadPhase::ConfigureWrite, I2cEvent::Written) => {
                self.await_phase(ReadPhase::AwaitTxReady, WaitCondition::TxReady);
            },
            (ReadPhase::SendRegister, I2cEvent::Written) => {
                self.await_phase(ReadPhase::AwaitTransferComplete, WaitCondition::TransferComplete);
            },
            (ReadPhase::ConfigureRead, I2cEvent::Written) => {
                self.await_phase(ReadPhase::AwaitRxReady, WaitCondition::RxReady);
            },
            (ReadPhase::ReceiveData, I2cEvent::Data(b)) => {
                self.await_phase(ReadPhase::AwaitStop, WaitCondition::Stop);
                self.data = b;
            },
            (ReadPhase::ClearStop, I2cEvent::Written) => {
                self.phase = ReadPhase::Done(Ok(self.data));
            },
            _ => {},
        }
        self.action()
    }
}

/// The read after the events `evs`, one after the other.
pub open spec fn spec_run(s: RegisterRead, evs: Seq<I2cEvent>) -> RegisterRead
    decreases evs.len(),
{
    if evs.len() == 0 {
        s
    } else {
        spec_run(spec_step(s, evs[0]), evs.drop_first())
    }
}

/// How many steps a phase is from the end of a read.
pub open spec fn spec_phases_left(p: ReadPhase) -> int {
    match p {
        ReadPhase::AwaitIdle => 10,
        ReadPhase::ConfigureWrite => 9,
        ReadPhase::AwaitTxReady => 8,
        ReadPhase::SendRegister => 7,
        ReadPhase::AwaitTransferComplete => 6,
        ReadPhase::ConfigureRead => 5,
        ReadPhase::AwaitRxReady => 4,
        ReadPhase::ReceiveData => 3,
        ReadPhase::AwaitStop => 2,
        ReadPhase::ClearStop => 1,
        ReadPhase::Done(_) => 0,
    }
}

/// An upper bound on the events a read can still take before it is done:
/// the polls its current wait may still make and every step after it.
pub open spec fn spec_read_measure(s: RegisterRead) -> int {
    spec_phases_left(s.phase) * (POLL_LIMIT + 1) + if spec_phase_condition(s.phase) is Some {
        s.wait.remaining as int
    } else {
        0
    }
}

/// Every event either is ignored or brings a read strictly closer to its
/// end, and a finished read stays finished: a read ends after at most
/// `spec_read_measure` events that it takes.
pub proof fn lemma_read_progress(s: RegisterRead, e: I2cEvent)
    requires
        spec_read_wf(s),
    ensures
        spec_step(s, e) == s || (0 <= spec_read_measure(spec_step(s, e)) < spec_read_measure(s)),
        s.phase is Done ==> spec_step(s, e) == s,
        0 <= spec_read_measure(s) <= spec_read_measure(spec_start(s.addr, s.reg)),
{
}

/// `n` polls that find neither the awaited flag nor (where the wait looks
/// at it) NACKF.
pub open spec fn spec_fruitless(c: WaitCondition, evs: Seq<I2cEvent>) -> bool {
    forall|i: int| 0 <= i < evs.len() ==> (#[trigger] evs[i] matches I2cEvent::Status(f)
        && !spec_condition_met(c, f) && !(spec_fails_on_nack(c) && f.nackf))
}

/// A wait gives up: after as many fruitless polls as it has left, the read
/// ends with a timeout. A fresh wait has `POLL_LIMIT` of them.
pub proof fn lemma_wait_times_out(s: RegisterRead, evs: Seq<I2cEvent>)
    requires
        spec_read_wf(s),
        spec_phase_condition(s.phase) is Some,
        evs.len() == s.wait.remaining,
        spec_fruitless(s.wait.condition, evs),
    ensures
        spec_run(s, evs).phase == ReadPhase::Done(Err(I2cError::Timeout)),
    decreases evs.len(),
{
    let s1 = spec_step(s, evs[0]);
    let e0 = evs[0];
    assert(e0 matches I2cEvent::Status(f) && !spec_condition_met(s.wait.condition, f)
        && !(spec_fails_on_nack(s.wait.condition) && f.nackf));
    assert(spec_run(s, evs) == spec_run(s1, evs.drop_first()));
    if evs.len() > 1 {
        assert(s1.phase == s.phase && s1.wait.condition == s.wait.condition && s1.wait.remaining == s.wait.remaining - 1);
        assert(spec_fruitless(s1.wait.condition, evs.drop_first())) by {
            assert forall|i: int| 0 <= i < evs.drop_first().len() implies (#[trigger] evs.drop_first()[i] matches I2cEvent::Status(f)
                && !spec_condition_met(s1.wait.condition, f) && !(spec_fails_on_nack(s1.wait.condition) && f.nackf)) by {
                assert(evs.drop_first()[i] == evs[i + 1]);
            }
        }
        lemma_wait_times_out(s1, evs.drop_first());
    } else {
        assert(evs.drop_first().len() == 0);
    }
}

/// A NACK seen while waiting for TXIS, TC or RXNE ends the read at once
/// with `Nack`, unless the awaited flag came up at the same time.
pub proof fn lemma_nack_ends_read(s: RegisterRead, f: IsrFlags)
    requires
        spec_read_wf(s),
        s.phase == ReadPhase::AwaitTxReady || s.phase == ReadPhase::AwaitTransferComplete || s.phase == ReadPhase::AwaitRxReady,
        f.nackf,
        !spec_condition_met(s.wait.condition, f),
    ensures
        spec_step(s, I2cEvent::Status(f)).phase == ReadPhase::Done(Err(I2cError::Nack)),
{
}

/// A read ends with `Ok(d)` only if `d` is the byte the driver read from
/// RXDR.
pub proof fn lemma_ok_carries_received_byte(s: RegisterRead, evs: Seq<I2cEvent>, d: u8)
    requires
        spec_run(s, evs).phase == ReadPhase::Done(Ok(d)),
    ensures
        evs.contains(I2cEvent::Data(d))
            || (s.data == d && (s.phase == ReadPhase::AwaitStop || s.phase == ReadPhase::ClearStop))
            || s.phase == ReadPhase::Done(Ok(d)),
    decreases evs.len(),
{
    if evs.len() > 0 {
        let s1 = spec_step(s, evs[0]);
        lemma_ok_carries_received_byte(s1, evs.drop_first(), d);
        if evs.drop_first().contains(I2cEvent::Data(d)) {
            let i = choose|i: int| 0 <= i < evs.drop_first().len() && evs.drop_first()[i] == I2cEvent::Data(d);
            assert(evs[i + 1] == I2cEvent::Data(d));
        } else if s.phase == ReadPhase::ReceiveData {
            assert(evs[0] == I2cEvent::Data(d));
        }
    }
}

/// The flags of an idle bus with nothing else pending.
pub open spec fn spec_idle_flags() -> IsrFlags {
    IsrFlags { txis: false, rxne: false, nackf: false, stopf: false, tc: false, busy: false }
}

/// What a driver observes when a register read goes right: a free bus,
/// TXIS, TC, RXNE with the byte `d`, and finally STOPF.
pub open spec fn spec_successful_exchange(d: u8) -> Seq<I2cEvent> {
    seq![
        I2cEvent::Status(spec_idle_flags()),
        I2cEvent::Written,
        I2cEvent::Status(IsrFlags { txis: true, ..spec_idle_flags() }),
        I2cEvent::Written,
        I2cEvent::Status(IsrFlags { tc: true, ..spec_idle_flags() }),
        I2cEvent::Written,
        I2cEvent::Status(IsrFlags { rxne: true, ..spec_idle_flags() }),
        I2cEvent::Data(d),
        I2cEvent::Status(IsrFlags { stopf: true, ..spec_idle_flags() }),
        I2cEvent::Written,
    ]
}

/// The actions a read asks for, after each of the events `evs`.
pub open spec fn spec_actions(s: RegisterRead, evs: Seq<I2cEvent>) -> Seq<I2cAction>
    decreases evs.len(),
{
    if evs.len() == 0 {
        seq![]
    } else {
        seq![spec_action(spec_step(s, evs[0]))] + spec_actions(spec_step(s, evs[0]), evs.drop_first())
    }
}

/// The register read protocol: a read that is answered at every step
/// writes the register address in a one-byte write without stop, reads
/// one byte after a repeated start with automatic stop, clears STOPF and
/// returns the byte read.
pub proof fn lemma_successful_read(addr: u8, reg: u8, d: u8)
    ensures
        spec_run(spec_start(addr, reg), spec_successful_exchange(d)).phase == ReadPhase::Done(Ok(d)),
        spec_action(spec_start(addr, reg)) == I2cAction::ReadStatus,
        spec_actions(spec_start(addr, reg), spec_successful_exchange(d)) == seq![
            I2cAction::Configure(spec_write_config(addr)),
            I2cAction::ReadStatus,
            I2cAction::WriteData(reg),
            I2cAction::ReadStatus,
            I2cAction::Configure(spec_read_config(addr)),
            I2cAction::ReadStatus,
            I2cAction::ReadData,
            I2cAction::ReadStatus,
            I2cAction::ClearStop,
            I2cAction::Finish(Ok(d)),
        ],
{
    let evs = spec_successful_exchange(d);
    reveal_with_fuel(spec_run, 11);
    reveal_with_fuel(spec_actions, 11);
    assert(evs.drop_first() =~= evs.subrange(1, 10));
    assert(spec_actions(spec_start(addr, reg), evs) =~= seq![
            I2cAction::Configure(spec_write_config(addr)),
            I2cAction::ReadStatus,
            I2cAction::WriteData(reg),
            I2cAction::ReadStatus,
            I2cAction::Configure(spec_read_config(addr)),
            I2cAction::ReadStatus,
            I2cAction::ReadData,
            I2cAction::ReadStatus,
            I2cAction::ClearStop,
            I2cAction::Finish(Ok(d)),
        ]);
}

/// The TIMINGR fields of the I2C peripheral.
#[derive(Debug, Clone, Copy, PartialEq, Eq, Structural)]
pub struct I2cTiming {
    /// PRESC: the kernel clock is divided by `presc + 1` (4 bits).
    pub presc: u8,
    /// SCLDEL: data setup time, in prescaled periods minus one (4 bits).
    pub scldel: u8,
    /// SDADEL: data hold time, in prescaled periods (4 bits).
    pub sdadel: u8,
    /// SCLH: SCL high period, in prescaled periods minus one.
    pub sclh: u8,
    /// SCLL: SCL low period, in prescaled periods minus one.
    pub scll: u8,
}

/// TIMINGR of a timing: PRESC in bits 31:28, SCLDEL 23:20, SDADEL 19:16,
/// SCLH 15:8, SCLL 7:0.
pub open spec fn spec_timingr(t: I2cTiming) -> int {
    t.presc * 0x1000_0000 + t.scldel * 0x10_0000 + t.sdadel * 0x1_0000 + t.sclh * 0x100 + t.scll
}

impl I2cTiming {
    /// The timing for 100 kHz standard mode from a 64 MHz kernel clock:
    /// PRESC 15, SCLL 0x13, SCLH 0x0F, SDADEL 2, SCLDEL 4.
    pub fn standard_mode_64mhz() -> (t: I2cTiming)
        ensures
            t == (I2cTiming { presc: 15, scldel: 4, sdadel: 2, sclh: 0x0F, scll: 0x13 }),
    {
        I2cTiming { presc: 15, scldel: 4, sdadel: 2, sclh: 0x0F, scll: 0x13 }
    }

    /// The TIMINGR value of this timing.
    pub fn to_register(&self) -> (r: u32)
        requires
            self.presc < 16,
            self.scldel < 16,
            self.sdadel < 16,
        ensures
            r == spec_timingr(*self),
    {
        let p = self.presc as u32;
        let cd = self.scldel as u32;
        let dd = self.sdadel as u32;
        let h = self.sclh as u32;
        let l = self.scll as u32;
        let r = (p << 28) | (cd << 20) | (dd << 16) | (h << 8) | l;
        assert(r == p * 0x1000_0000 + cd * 0x10_0000 + dd * 0x1_0000 + h * 0x100 + l) by (bit_vector)
            requires
                r == (p << 28) | (cd << 20) | (dd << 16) | (h << 8) | l,
                p < 16,
                cd < 16,
                dd < 16,
                h < 256,
                l < 256;
        r
    }
}

} // verus!
