use tone_mark::edit::{Knob, Switch, TypeSlot};
use tone_mark::katana::{Param, TypeCodes};
use tone_mark::tone::ToneApp;

fn codes() -> TypeCodes {
    TypeCodes {
        amp: vec![0x00, 0x01, 0x08],
        booster: vec![0x00, 0x01],
        mod_fx: vec![0x05, 0x06],
        fx: vec![0x11],
        delay: vec![0x00],
        reverb: vec![0x00, 0x03],
    }
}

fn position(w: &[(Param, u8)], p: Param) -> usize {
    w.iter().position(|x| x.0 == p).expect("every parameter is written")
}

#[test]
fn turning_a_knob_sets_it_and_gives_the_write() {
    let mut app = ToneApp::default();
    assert_eq!(app.turn_knob(Knob::AmpGain, 99), (Param::AmpGain, 99));
    assert_eq!(app.amp.gain, 99);
    assert_eq!(app.turn_knob(Knob::BoosterLevel, 7), (Param::BoosterLevel, 7));
    assert_eq!(app.booster.p4, 7);
    assert_eq!(app.turn_knob(Knob::ReverbPreDelay, 12), (Param::ReverbPreDelay, 12));
    assert_eq!(app.reverb.pre, 12);
    assert_eq!(app.turn_knob(Knob::NsRelease, 0), (Param::NsRelease, 0));
    assert_eq!(app.ns.release, 0);
    assert_eq!(app.status_msg, "Ready.");
}

#[test]
fn setting_a_switch_gives_one_or_zero() {
    let mut app = ToneApp::default();
    assert_eq!(app.set_switch(Switch::AmpBright, true), (Param::AmpBright, 1));
    assert!(app.amp.bright);
    assert_eq!(app.set_switch(Switch::DelayOn, true), (Param::DelayOn, 1));
    assert!(app.delay.on);
    assert_eq!(app.set_switch(Switch::DelayOn, false), (Param::DelayOn, 0));
    assert!(!app.delay.on);
    assert_eq!(app.set_switch(Switch::NsOn, true), (Param::NsOn, 1));
    assert!(app.ns.on);
}

#[test]
fn selecting_a_type_sends_its_code() {
    let mut app = ToneApp::default();
    let c = codes();
    assert_eq!(app.amp.type_idx, 1);
    assert_eq!(app.select_type(TypeSlot::Amp, 1, &c), None);
    assert_eq!(app.select_type(TypeSlot::Amp, 2, &c), Some((Param::AmpType, 0x08)));
    assert_eq!(app.amp.type_idx, 2);
    assert_eq!(app.select_type(TypeSlot::Amp, 9, &c), Some((Param::AmpType, 9)));
    assert_eq!(app.select_type(TypeSlot::Booster, 300, &c), Some((Param::BoosterType, 44)));
    assert_eq!(app.select_type(TypeSlot::Mod, 1, &c), Some((Param::ModType, 0x06)));
    assert_eq!(app.select_type(TypeSlot::Fx, 5, &c), Some((Param::FxType, 0)));
    assert_eq!(app.fx.type_idx, 5);
    assert_eq!(app.select_type(TypeSlot::Reverb, 0, &c), Some((Param::ReverbType, 0x00)));
    assert_eq!(app.select_type(TypeSlot::Reverb, 0, &c), None);
}

#[test]
fn resend_writes_each_parameter_once() {
    let w = ToneApp::default().resend_all(&codes());
    assert_eq!(w.len(), 34);
    for (i, x) in w.iter().enumerate() {
        assert_eq!(position(&w, x.0), i);
    }
}

#[test]
fn edits_agree_with_a_full_resend() {
    let c = codes();
    let mut app = ToneApp::default();
    let before = app.resend_all(&c);
    let k = app.turn_knob(Knob::DelayFeedback, 88);
    let s = app.set_switch(Switch::FxOn, true);
    let t = app.select_type(TypeSlot::Delay, 3, &c).unwrap();
    let after = app.resend_all(&c);
    for write in [k, s, t] {
        assert_eq!(after[position(&after, write.0)], write);
    }
    for (i, x) in after.iter().enumerate() {
        if x.0 != k.0 && x.0 != s.0 && x.0 != t.0 {
            assert_eq!(*x, before[i]);
        }
    }
}
