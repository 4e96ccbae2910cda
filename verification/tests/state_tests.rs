use tone_mark::state::{
    knob_reset_value, AmpState, DelayState, FxBlock, NsState, ReverbState, TargetChannel,
};

#[test]
fn channel_addresses() {
    assert_eq!(TargetChannel::Panel.msb(), 0x60);
    assert_eq!(TargetChannel::Ch1.msb(), 0x10);
    assert_eq!(TargetChannel::Ch2.msb(), 0x11);
    assert_eq!(TargetChannel::Ch3.msb(), 0x12);
    assert_eq!(TargetChannel::Ch4.msb(), 0x13);
}

#[test]
fn channel_program_changes() {
    assert_eq!(TargetChannel::Panel.program_change(), None);
    assert_eq!(TargetChannel::Ch1.program_change(), Some(0));
    assert_eq!(TargetChannel::Ch2.program_change(), Some(1));
    assert_eq!(TargetChannel::Ch3.program_change(), Some(2));
    assert_eq!(TargetChannel::Ch4.program_change(), Some(3));
}

#[test]
fn channel_labels() {
    assert_eq!(TargetChannel::Panel.short(), "PANEL");
    assert_eq!(TargetChannel::Ch1.short(), "CH1");
    assert_eq!(TargetChannel::Ch4.short(), "CH4");
}

#[test]
fn block_defaults() {
    let a = AmpState::default();
    assert_eq!((a.type_idx, a.gain, a.vol, a.bright, a.sag, a.res), (1, 60, 70, false, 60, 60));
    let d = DelayState::default();
    assert_eq!((d.on, d.type_idx, d.time, d.feedback, d.level, d.e_level), (false, 0, 50, 35, 50, 50));
    let r = ReverbState::default();
    assert_eq!((r.on, r.type_idx, r.time, r.pre, r.density, r.level), (false, 1, 50, 20, 60, 50));
    let n = NsState::default();
    assert_eq!((n.on, n.threshold, n.release), (false, 30, 40));
}

#[test]
fn fx_block_new_sets_knobs() {
    let b = FxBlock::new(true, 26);
    assert_eq!(b, FxBlock { on: true, type_idx: 26, p1: 50, p2: 50, p3: 50, p4: 60 });
}

#[test]
fn knob_reset_goes_to_middle() {
    assert_eq!(knob_reset_value(0, 100), 50);
    assert_eq!(knob_reset_value(0, 120), 60);
    assert_eq!(knob_reset_value(3, 4), 3);
    assert_eq!(knob_reset_value(7, 7), 7);
}
