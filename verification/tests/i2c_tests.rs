use embedded_workshop::i2c::{
    FlagWait, I2cAction, I2cError, I2cEvent, I2cTiming, IsrFlags, PollOutcome, ReadPhase, RegisterRead, TransferConfig,
    WaitCondition, CR2_TRANSFER_MASK, POLL_LIMIT,
};

fn idle() -> IsrFlags {
    IsrFlags { txis: false, rxne: false, nackf: false, stopf: false, tc: false, busy: false }
}

#[test]
fn isr_bits_decode() {
    let f = IsrFlags::from_isr((1 << 1) | (1 << 4) | (1 << 15));
    assert!(f.txis && f.nackf && f.busy);
    assert!(!f.rxne && !f.stopf && !f.tc);
    let f = IsrFlags::from_isr((1 << 2) | (1 << 5) | (1 << 6));
    assert!(f.rxne && f.stopf && f.tc && !f.txis && !f.busy);
}

#[test]
fn wait_times_out_after_limit() {
    let mut w = FlagWait::new(WaitCondition::TxReady);
    let busy = idle();
    for _ in 0..POLL_LIMIT - 1 {
        assert_eq!(w.poll(busy), PollOutcome::Pending);
    }
    assert_eq!(w.poll(busy), PollOutcome::Failed(I2cError::Timeout));
}

#[test]
fn wait_checks_flag_before_nack() {
    let mut w = FlagWait::new(WaitCondition::TxReady);
    assert_eq!(w.poll(IsrFlags { nackf: true, ..idle() }), PollOutcome::Failed(I2cError::Nack));
    let mut w = FlagWait::new(WaitCondition::TxReady);
    assert_eq!(w.poll(IsrFlags { nackf: true, txis: true, ..idle() }), PollOutcome::Ready);
    // waiting for the bus or for STOPF ignores NACKF
    let mut w = FlagWait::new(WaitCondition::Stop);
    assert_eq!(w.poll(IsrFlags { nackf: true, ..idle() }), PollOutcome::Pending);
    let mut w = FlagWait::new(WaitCondition::NotBusy);
    assert_eq!(w.poll(IsrFlags { busy: true, ..idle() }), PollOutcome::Pending);
    assert_eq!(w.poll(idle()), PollOutcome::Ready);
}

#[test]
fn transfer_configs() {
    let w = TransferConfig::register_write(0x18);
    assert_eq!(w, TransferConfig { sadd: 0x30, nbytes: 1, read: false, autoend: false, start: true });
    let r = TransferConfig::register_read(0x18);
    assert_eq!(r, TransferConfig { sadd: 0x30, nbytes: 1, read: true, autoend: true, start: true });
    // SADD 0x30, RD_WRN, START, NBYTES 1, AUTOEND
    assert_eq!(r.apply(0), 0x30 | (1 << 10) | (1 << 13) | (1 << 16) | (1 << 25));
    assert_eq!(w.apply(0), 0x30 | (1 << 13) | (1 << 16));
    // bits outside the transfer fields survive
    assert_eq!(w.apply(0xffff_ffff) & !CR2_TRANSFER_MASK, !CR2_TRANSFER_MASK);
}

#[test]
fn successful_register_read() {
    let mut t = RegisterRead::new(0x18, 0x0F);
    assert_eq!(t.action(), I2cAction::ReadStatus);
    assert_eq!(t.step(I2cEvent::Status(IsrFlags { busy: true, ..idle() })), I2cAction::ReadStatus);
    assert_eq!(t.step(I2cEvent::Status(idle())), I2cAction::Configure(TransferConfig::register_write(0x18)));
    assert_eq!(t.step(I2cEvent::Written), I2cAction::ReadStatus);
    assert_eq!(t.step(I2cEvent::Status(IsrFlags { txis: true, ..idle() })), I2cAction::WriteData(0x0F));
    assert_eq!(t.step(I2cEvent::Written), I2cAction::ReadStatus);
    assert_eq!(t.step(I2cEvent::Status(IsrFlags { tc: true, ..idle() })), I2cAction::Configure(TransferConfig::register_read(0x18)));
    assert_eq!(t.step(I2cEvent::Written), I2cAction::ReadStatus);
    assert_eq!(t.step(I2cEvent::Status(IsrFlags { rxne: true, ..idle() })), I2cAction::ReadData);
    assert_eq!(t.step(I2cEvent::Data(0x33)), I2cAction::ReadStatus);
    assert_eq!(t.step(I2cEvent::Status(idle())), I2cAction::ReadStatus);
    assert_eq!(t.step(I2cEvent::Status(IsrFlags { stopf: true, ..idle() })), I2cAction::ClearStop);
    assert_eq!(t.step(I2cEvent::Written), I2cAction::Finish(Ok(0x33)));
    assert!(t.is_done());
    // a finished read ignores everything
    assert_eq!(t.step(I2cEvent::Data(0)), I2cAction::Finish(Ok(0x33)));
}

#[test]
fn nack_ends_read() {
    let mut t = RegisterRead::new(0x19, 0x0F);
    t.step(I2cEvent::Status(idle()));
    t.step(I2cEvent::Written);
    assert_eq!(t.step(I2cEvent::Status(IsrFlags { nackf: true, ..idle() })), I2cAction::Finish(Err(I2cError::Nack)));
    assert_eq!(t.phase, ReadPhase::Done(Err(I2cError::Nack)));
}

#[test]
fn busy_bus_times_out() {
    let mut t = RegisterRead::new(0x18, 0x0F);
    let mut last = I2cAction::ReadStatus;
    for _ in 0..POLL_LIMIT {
        last = t.step(I2cEvent::Status(IsrFlags { busy: true, ..idle() }));
    }
    assert_eq!(last, I2cAction::Finish(Err(I2cError::Timeout)));
}

#[test]
fn unexpected_events_are_ignored() {
    let mut t = RegisterRead::new(0x18, 0x0F);
    assert_eq!(t.step(I2cEvent::Written), I2cAction::ReadStatus);
    assert_eq!(t.step(I2cEvent::Data(7)), I2cAction::ReadStatus);
    assert_eq!(t.phase, ReadPhase::AwaitIdle);
    assert_eq!(t.wait.remaining, POLL_LIMIT);
}

#[test]
fn standard_mode_timing_register() {
    let t = I2cTiming::standard_mode_64mhz();
    assert_eq!(t.to_register(), (15 << 28) | (4 << 20) | (2 << 16) | (0x0F << 8) | 0x13);
}
