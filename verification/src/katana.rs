//! The parameters that the editor writes to the amplifier, and the order in
//! which a full resend writes them. The address of each parameter and the
//! amplifier's code for each effect type are the caller's tables.
use vstd::prelude::*;
use crate::state::Snapshot;

verus! {

/// A parameter of the amplifier that the editor controls.
#[derive(PartialEq, Eq, Structural, Clone, Copy, Debug)]
pub enum Param {
    AmpType,
    AmpGain,
    AmpBass,
    AmpMid,
    AmpTreble,
    AmpPresence,
    AmpVolume,
    AmpBright,
    AmpSag,
    AmpResonance,
    BoosterOn,
    BoosterType,
    BoosterDrive,
    BoosterBottom,
    BoosterTone,
    BoosterLevel,
    ModOn,
    ModType,
    FxOn,
    FxType,
    DelayOn,
    DelayType,
    DelayTime,
    DelayFeedback,
    DelayLevel,
    ReverbOn,
    ReverbType,
    ReverbTime,
    ReverbPreDelay,
    ReverbDensity,
    ReverbLevel,
    NsOn,
    NsThreshold,
    NsRelease,
}

/// The amplifier's code for each effect type, by the editor's type index.
pub struct TypeCodes {
    pub amp: Vec<u8>,
    pub booster: Vec<u8>,
    pub mod_fx: Vec<u8>,
    pub fx: Vec<u8>,
    pub delay: Vec<u8>,
    pub reverb: Vec<u8>,
}

/// The code at `idx` of a table, or `fallback` past its end.
pub open spec fn code_or(table: Seq<u8>, idx: usize, fallback: u8) -> u8 {
    if idx < table.len() {
        table[idx as int]
    } else {
        fallback
    }
}

/// A switch as a parameter value.
pub open spec fn switch(on: bool) -> u8 {
    if on {
        1u8
    } else {
        0u8
    }
}

/// Every write of a full resend of the blocks `b`, in order: the amp, the
/// booster, the modulation, the effect, the delay, the reverb and the noise
/// suppressor. The amp and booster types fall back to their index (as a
/// byte) past the end of their table, the other types to 0.
pub open spec fn resend_writes(b: Snapshot, c: TypeCodes) -> Seq<(Param, u8)> {
    seq![
        (Param::AmpType, code_or(c.amp@, b.amp.type_idx, b.amp.type_idx as u8)),
        (Param::AmpGain, b.amp.gain),
        (Param::AmpBass, b.amp.bass),
        (Param::AmpMid, b.amp.mid),
        (Param::AmpTreble, b.amp.treble),
        (Param::AmpPresence, b.amp.pres),
        (Param::AmpVolume, b.amp.vol),
        (Param::AmpBright, switch(b.amp.bright)),
        (Param::AmpSag, b.amp.sag),
        (Param::AmpResonance, b.amp.res),
        (Param::BoosterOn, switch(b.booster.on)),
        (Param::BoosterType, code_or(c.booster@, b.booster.type_idx, b.booster.type_idx as u8)),
        (Param::BoosterDrive, b.booster.p1),
        (Param::BoosterBottom, b.booster.p2),
        (Param::BoosterTone, b.booster.p3),
        (Param::BoosterLevel, b.booster.p4),
        (Param::ModOn, switch(b.mod_fx.on)),
        (Param::ModType, code_or(c.mod_fx@, b.mod_fx.type_idx, 0)),
        (Param::FxOn, switch(b.fx.on)),
        (Param::FxType, code_or(c.fx@, b.fx.type_idx, 0)),
        (Param::DelayOn, switch(b.delay.on)),
        (Param::DelayType, code_or(c.delay@, b.delay.type_idx, 0)),
        (Param::DelayTime, b.delay.time),
        (Param::DelayFeedback, b.delay.feedback),
        (Param::DelayLevel, b.delay.level),
        (Param::ReverbOn, switch(b.reverb.on)),
        (Param::ReverbType, code_or(c.reverb@, b.reverb.type_idx, 0)),
        (Param::ReverbTime, b.reverb.time),
        (Param::ReverbPreDelay, b.reverb.pre),
        (Param::ReverbDensity, b.reverb.density),
        (Param::ReverbLevel, b.reverb.level),
        (Param::NsOn, switch(b.ns.on)),
        (Param::NsThreshold, b.ns.threshold),
        (Param::NsRelease, b.ns.release),
    ]
}

/// The position of the write of `p` in a full resend.
pub open spec fn resend_index(p: Param) -> int {
    match p {
        Param::AmpType => 0,
        Param::AmpGain => 1,
        Param::AmpBass => 2,
        Param::AmpMid => 3,
        Param::AmpTreble => 4,
        Param::AmpPresence => 5,
        Param::AmpVolume => 6,
        Param::AmpBright => 7,
        Param::AmpSag => 8,
        Param::AmpResonance => 9,
        Param::BoosterOn => 10,
        Param::BoosterType => 11,
        Param::BoosterDrive => 12,
        Param::BoosterBottom => 13,
        Param::BoosterTone => 14,
        Param::BoosterLevel => 15,
        Param::ModOn => 16,
        Param::ModType => 17,
        Param::FxOn => 18,
        Param::FxType => 19,
        Param::DelayOn => 20,
        Param::DelayType => 21,
        Param::DelayTime => 22,
        Param::DelayFeedback => 23,
        Param::DelayLevel => 24,
        Param::ReverbOn => 25,
        Param::ReverbType => 26,
        Param::ReverbTime => 27,
        Param::ReverbPreDelay => 28,
        Param::ReverbDensity => 29,
        Param::ReverbLevel => 30,
        Param::NsOn => 31,
        Param::NsThreshold => 32,
        Param::NsRelease => 33,
    }
}

/// A full resend writes every parameter exactly once: it holds one write
/// per parameter, and the write at `resend_index(p)` is that of `p`.
pub proof fn lemma_resend_writes_each_param_once(b: Snapshot, c: TypeCodes)
    ensures
        resend_writes(b, c).len() == 34,
        forall|p: Param|
            #![trigger resend_index(p)]
            0 <= resend_index(p) < 34 && resend_writes(b, c)[resend_index(p)].0 == p,
        forall|p: Param, q: Param| #[trigger] resend_index(p) == #[trigger] resend_index(q) ==> p == q,
{
    let w = resend_writes(b, c);
    assert forall|p: Param| #![trigger resend_index(p)] 0 <= resend_index(p) < 34 && w[resend_index(p)].0 == p by {
        match p {
            Param::AmpType => {},
            Param::AmpGain => {},
            Param::AmpBass => {},
            Param::AmpMid => {},
            Param::AmpTreble => {},
            Param::AmpPresence => {},
            Param::AmpVolume => {},
            Param::AmpBright => {},
            Param::AmpSag => {},
            Param::AmpResonance => {},
            Param::BoosterOn => {},
            Param::BoosterType => {},
            Param::BoosterDrive => {},
            Param::BoosterBottom => {},
            Param::BoosterTone => {},
            Param::BoosterLevel => {},
            Param::ModOn => {},
            Param::ModType => {},
            Param::FxOn => {},
            Param::FxType => {},
            Param::DelayOn => {},
            Param::DelayType => {},
            Param::DelayTime => {},
            Param::DelayFeedback => {},
            Param::DelayLevel => {},
            Param::ReverbOn => {},
            Param::ReverbType => {},
            Param::ReverbTime => {},
            Param::ReverbPreDelay => {},
            Param::ReverbDensity => {},
            Param::ReverbLevel => {},
            Param::NsOn => {},
            Param::NsThreshold => {},
            Param::NsRelease => {},
        }
    }
    assert forall|p: Param, q: Param| #[trigger] resend_index(p) == #[trigger] resend_index(q) implies p == q by {
        assert(w[resend_index(p)].0 == p);
        assert(w[resend_index(q)].0 == q);
    }
}

/// The code at `idx` of `table`, or `fallback` past its end.
pub fn type_code(table: &Vec<u8>, idx: usize, fallback: u8) -> (v: u8)
    ensures
        v == code_or(table@, idx, fallback),
{
    if idx < table.len() {
        table[idx]
    } else {
        fallback
    }
}

fn switch_value(on: bool) -> (v: u8)
    ensures
        v == switch(on),
{
    if on {
        1
    } else {
        0
    }
}

/// Every write of a full resend of the blocks `b` (see `resend_writes`).
pub fn resend_writes_of(b: &Snapshot, c: &TypeCodes) -> (w: Vec<(Param, u8)>)
    ensures
        w@ == resend_writes(*b, *c),
{
    let mut w: Vec<(Param, u8)> = Vec::new();
    w.push((Param::AmpType, type_code(&c.amp, b.amp.type_idx, b.amp.type_idx as u8)));
    w.push((Param::AmpGain, b.amp.gain));
    w.push((Param::AmpBass, b.amp.bass));
    w.push((Param::AmpMid, b.amp.mid));
    w.push((Param::AmpTreble, b.amp.treble));
    w.push((Param::AmpPresence, b.amp.pres));
    w.push((Param::AmpVolume, b.amp.vol));
    w.push((Param::AmpBright, switch_value(b.amp.bright)));
    w.push((Param::AmpSag, b.amp.sag));
    w.push((Param::AmpResonance, b.amp.res));
    w.push((Param::BoosterOn, switch_value(b.booster.on)));
    w.push((Param::BoosterType, type_code(&c.booster, b.booster.type_idx, b.booster.type_idx as u8)));
    w.push((Param::BoosterDrive, b.booster.p1));
    w.push((Param::BoosterBottom, b.booster.p2));
    w.push((Param::BoosterTone, b.booster.p3));
    w.push((Param::BoosterLevel, b.booster.p4));
    w.push((Param::ModOn, switch_value(b.mod_fx.on)));
    w.push((Param::ModType, type_code(&c.mod_fx, b.mod_fx.type_idx, 0)));
    w.push((Param::FxOn, switch_value(b.fx.on)));
    w.push((Param::FxType, type_code(&c.fx, b.fx.type_idx, 0)));
    w.push((Param::DelayOn, switch_value(b.delay.on)));
    w.push((Param::DelayType, type_code(&c.delay, b.delay.type_idx, 0)));
    w.push((Param::DelayTime, b.delay.time));
    w.push((Param::DelayFeedback, b.delay.feedback));
    w.push((Param::DelayLevel, b.delay.level));
    w.push((Param::ReverbOn, switch_value(b.reverb.on)));
    w.push((Param::ReverbType, type_code(&c.reverb, b.reverb.type_idx, 0)));
    w.push((Param::ReverbTime, b.reverb.time));
    w.push((Param::ReverbPreDelay, b.reverb.pre));
    w.push((Param::ReverbDensity, b.reverb.density));
    w.push((Param::ReverbLevel, b.reverb.level));
    w.push((Param::NsOn, switch_value(b.ns.on)));
    w.push((Param::NsThreshold, b.ns.threshold));
    w.push((Param::NsRelease, b.ns.release));
    assert(w@ =~= resend_writes(*b, *c));
    w
}

} // verus!
