//! Edits made on the editor panel. Each edit changes one parameter of the
//! editor's blocks and gives the write to send to the amplifier for it.
use vstd::prelude::*;
use crate::state::{AmpState, FxBlock, DelayState, ReverbState, NsState, Snapshot};
use crate::katana::{Param, TypeCodes, code_or, switch, resend_writes, resend_index, type_code};
use crate::tone::ToneApp;
use crate::export::{Leaf, TypeNames, block_leaves, name_or_empty};

verus! {

/// A knob of the editor panel.
#[derive(PartialEq, Eq, Structural, Clone, Copy, Debug)]
pub enum Knob {
    AmpGain,
    AmpBass,
    AmpMid,
    AmpTreble,
    AmpPresence,
    AmpVolume,
    AmpSag,
    AmpResonance,
    BoosterDrive,
    BoosterBottom,
    BoosterTone,
    BoosterLevel,
    DelayTime,
    DelayFeedback,
    DelayLevel,
    ReverbTime,
    ReverbPreDelay,
    ReverbDensity,
    ReverbLevel,
    NsThreshold,
    NsRelease,
}

impl Knob {
    /// The parameter that the knob sets.
    pub open spec fn spec_param(self) -> Param {
        match self {
            Knob::AmpGain => Param::AmpGain,
            Knob::AmpBass => Param::AmpBass,
            Knob::AmpMid => Param::AmpMid,
            Knob::AmpTreble => Param::AmpTreble,
            Knob::AmpPresence => Param::AmpPresence,
            Knob::AmpVolume => Param::AmpVolume,
            Knob::AmpSag => Param::AmpSag,
            Knob::AmpResonance => Param::AmpResonance,
            Knob::BoosterDrive => Param::BoosterDrive,
            Knob::BoosterBottom => Param::BoosterBottom,
            Knob::BoosterTone => Param::BoosterTone,
            Knob::BoosterLevel => Param::BoosterLevel,
            Knob::DelayTime => Param::DelayTime,
            Knob::DelayFeedback => Param::DelayFeedback,
            Knob::DelayLevel => Param::DelayLevel,
            Knob::ReverbTime => Param::ReverbTime,
            Knob::ReverbPreDelay => Param::ReverbPreDelay,
            Knob::ReverbDensity => Param::ReverbDensity,
            Knob::ReverbLevel => Param::ReverbLevel,
            Knob::NsThreshold => Param::NsThreshold,
            Knob::NsRelease => Param::NsRelease,
        }
    }

    /// The parameter that the knob sets.
    pub fn param(self) -> (p: Param)
        ensures
            p == self.spec_param(),
    {
        match self {
            Knob::AmpGain => Param::AmpGain,
            Knob::AmpBass => Param::AmpBass,
            Knob::AmpMid => Param::AmpMid,
            Knob::AmpTreble => Param::AmpTreble,
            Knob::AmpPresence => Param::AmpPresence,
            Knob::AmpVolume => Param::AmpVolume,
            Knob::AmpSag => Param::AmpSag,
            Knob::AmpResonance => Param::AmpResonance,
            Knob::BoosterDrive => Param::BoosterDrive,
            Knob::BoosterBottom => Param::BoosterBottom,
            Knob::BoosterTone => Param::BoosterTone,
            Knob::BoosterLevel => Param::BoosterLevel,
            Knob::DelayTime => Param::DelayTime,
            Knob::DelayFeedback => Param::DelayFeedback,
            Knob::DelayLevel => Param::DelayLevel,
            Knob::ReverbTime => Param::ReverbTime,
            Knob::ReverbPreDelay => Param::ReverbPreDelay,
            Knob::ReverbDensity => Param::ReverbDensity,
            Knob::ReverbLevel => Param::ReverbLevel,
            Knob::NsThreshold => Param::NsThreshold,
            Knob::NsRelease => Param::NsRelease,
        }
    }
}

/// The blocks `b` with the knob `k` at `v`.
pub open spec fn with_knob(b: Snapshot, k: Knob, v: u8) -> Snapshot {
    match k {
        Knob::AmpGain => Snapshot { amp: AmpState { gain: v, ..b.amp }, ..b },
        Knob::AmpBass => Snapshot { amp: AmpState { bass: v, ..b.amp }, ..b },
        Knob::AmpMid => Snapshot { amp: AmpState { mid: v, ..b.amp }, ..b },
        Knob::AmpTreble => Snapshot { amp: AmpState { treble: v, ..b.amp }, ..b },
        Knob::AmpPresence => Snapshot { amp: AmpState { pres: v, ..b.amp }, ..b },
        Knob::AmpVolume => Snapshot { amp: AmpState { vol: v, ..b.amp }, ..b },
        Knob::AmpSag => Snapshot { amp: AmpState { sag: v, ..b.amp }, ..b },
        Knob::AmpResonance => Snapshot { amp: AmpState { res: v, ..b.amp }, ..b },
        Knob::BoosterDrive => Snapshot { booster: FxBlock { p1: v, ..b.booster }, ..b },
        Knob::BoosterBottom => Snapshot { booster: FxBlock { p2: v, ..b.booster }, ..b },
        Knob::BoosterTone => Snapshot { booster: FxBlock { p3: v, ..b.booster }, ..b },
        Knob::BoosterLevel => Snapshot { booster: FxBlock { p4: v, ..b.booster }, ..b },
        Knob::DelayTime => Snapshot { delay: DelayState { time: v, ..b.delay }, ..b },
        Knob::DelayFeedback => Snapshot { delay: DelayState { feedback: v, ..b.delay }, ..b },
        Knob::DelayLevel => Snapshot { delay: DelayState { level: v, ..b.delay }, ..b },
        Knob::ReverbTime => Snapshot { reverb: ReverbState { time: v, ..b.reverb }, ..b },
        Knob::ReverbPreDelay => Snapshot { reverb: ReverbState { pre: v, ..b.reverb }, ..b },
        Knob::ReverbDensity => Snapshot { reverb: ReverbState { density: v, ..b.reverb }, ..b },
        Knob::ReverbLevel => Snapshot { reverb: ReverbState { level: v, ..b.reverb }, ..b },
        Knob::NsThreshold => Snapshot { ns: NsState { threshold: v, ..b.ns }, ..b },
        Knob::NsRelease => Snapshot { ns: NsState { release: v, ..b.ns }, ..b },
    }
}

/// An on/off switch of the editor panel.
#[derive(PartialEq, Eq, Structural, Clone, Copy, Debug)]
pub enum Switch {
    AmpBright,
    BoosterOn,
    ModOn,
    FxOn,
    DelayOn,
    ReverbOn,
    NsOn,
}

impl Switch {
    /// The parameter that the switch sets.
    pub open spec fn spec_param(self) -> Param {
        match self {
            Switch::AmpBright => Param::AmpBright,
            Switch::BoosterOn => Param::BoosterOn,
            Switch::ModOn => Param::ModOn,
            Switch::FxOn => Param::FxOn,
            Switch::DelayOn => Param::DelayOn,
            Switch::ReverbOn => Param::ReverbOn,
            Switch::NsOn => Param::NsOn,
        }
    }

    /// The parameter that the switch sets.
    pub fn param(self) -> (p: Param)
        ensures
            p == self.spec_param(),
    {
        match self {
            Switch::AmpBright => Param::AmpBright,
            Switch::BoosterOn => Param::BoosterOn,
            Switch::ModOn => Param::ModOn,
            Switch::FxOn => Param::FxOn,
            Switch::DelayOn => Param::DelayOn,
            Switch::ReverbOn => Param::ReverbOn,
            Switch::NsOn => Param::NsOn,
        }
    }
}

/// The blocks `b` with the switch `s` set to `on`.
pub open spec fn with_switch(b: Snapshot, s: Switch, on: bool) -> Snapshot {
    match s {
        Switch::AmpBright => Snapshot { amp: AmpState { bright: on, ..b.amp }, ..b },
        Switch::BoosterOn => Snapshot { booster: FxBlock { on, ..b.booster }, ..b },
        Switch::ModOn => Snapshot { mod_fx: FxBlock { on, ..b.mod_fx }, ..b },
        Switch::FxOn => Snapshot { fx: FxBlock { on, ..b.fx }, ..b },
        Switch::DelayOn => Snapshot { delay: DelayState { on, ..b.delay }, ..b },
        Switch::ReverbOn => Snapshot { reverb: ReverbState { on, ..b.reverb }, ..b },
        Switch::NsOn => Snapshot { ns: NsState { on, ..b.ns }, ..b },
    }
}

/// A block of the editor panel that has a type selector.
#[derive(PartialEq, Eq, Structural, Clone, Copy, Debug)]
pub enum TypeSlot {
    Amp,
    Booster,
    Mod,
    Fx,
    Delay,
    Reverb,
}

impl TypeSlot {
    /// The parameter that the selector sets.
    pub open spec fn spec_param(self) -> Param {
        match self {
            TypeSlot::Amp => Param::AmpType,
            TypeSlot::Booster => Param::BoosterType,
            TypeSlot::Mod => Param::ModType,
            TypeSlot::Fx => Param::FxType,
            TypeSlot::Delay => Param::DelayType,
            TypeSlot::Reverb => Param::ReverbType,
        }
    }

    /// The parameter that the selector sets.
    pub fn param(self) -> (p: Param)
        ensures
            p == self.spec_param(),
    {
        match self {
            TypeSlot::Amp => Param::AmpType,
            TypeSlot::Booster => Param::BoosterType,
            TypeSlot::Mod => Param::ModType,
            TypeSlot::Fx => Param::FxType,
            TypeSlot::Delay => Param::DelayType,
            TypeSlot::Reverb => Param::ReverbType,
        }
    }
}

/// The type index that the block `t` of `b` has selected.
pub open spec fn type_of(b: Snapshot, t: TypeSlot) -> usize {
    match t {
        TypeSlot::Amp => b.amp.type_idx,
        TypeSlot::Booster => b.booster.type_idx,
        TypeSlot::Mod => b.mod_fx.type_idx,
        TypeSlot::Fx => b.fx.type_idx,
        TypeSlot::Delay => b.delay.type_idx,
        TypeSlot::Reverb => b.reverb.type_idx,
    }
}

/// The blocks `b` with the type `idx` selected in the block `t`.
pub open spec fn with_type(b: Snapshot, t: TypeSlot, idx: usize) -> Snapshot {
    match t {
        TypeSlot::Amp => Snapshot { amp: AmpState { type_idx: idx, ..b.amp }, ..b },
        TypeSlot::Booster => Snapshot { booster: FxBlock { type_idx: idx, ..b.booster }, ..b },
        TypeSlot::Mod => Snapshot { mod_fx: FxBlock { type_idx: idx, ..b.mod_fx }, ..b },
        TypeSlot::Fx => Snapshot { fx: FxBlock { type_idx: idx, ..b.fx }, ..b },
        TypeSlot::Delay => Snapshot { delay: DelayState { type_idx: idx, ..b.delay }, ..b },
        TypeSlot::Reverb => Snapshot { reverb: ReverbState { type_idx: idx, ..b.reverb }, ..b },
    }
}

/// The value written for the type `idx` of the block `t`: its code in the
/// block's table; past the table's end, the index itself (as a byte) for
/// the amp and the booster, 0 for the others.
pub open spec fn type_value(c: TypeCodes, t: TypeSlot, idx: usize) -> u8 {
    match t {
        TypeSlot::Amp => code_or(c.amp@, idx, idx as u8),
        TypeSlot::Booster => code_or(c.booster@, idx, idx as u8),
        TypeSlot::Mod => code_or(c.mod_fx@, idx, 0),
        TypeSlot::Fx => code_or(c.fx@, idx, 0),
        TypeSlot::Delay => code_or(c.delay@, idx, 0),
        TypeSlot::Reverb => code_or(c.reverb@, idx, 0),
    }
}

impl ToneApp {
    /// Turns the knob `k` to `v`; the result is the write to send.
    pub fn turn_knob(&mut self, k: Knob, v: u8) -> (w: (Param, u8))
        ensures
            *final(self) == old(self).with_blocks(with_knob(old(self).blocks(), k, v)),
            w == (k.spec_param(), v),
    {
        match k {
            Knob::AmpGain => self.amp.gain = v,
            Knob::AmpBass => self.amp.bass = v,
            Knob::AmpMid => self.amp.mid = v,
            Knob::AmpTreble => self.amp.treble = v,
            Knob::AmpPresence => self.amp.pres = v,
            Knob::AmpVolume => self.amp.vol = v,
            Knob::AmpSag => self.amp.sag = v,
            Knob::AmpResonance => self.amp.res = v,
            Knob::BoosterDrive => self.booster.p1 = v,
            Knob::BoosterBottom => self.booster.p2 = v,
            Knob::BoosterTone => self.booster.p3 = v,
            Knob::BoosterLevel => self.booster.p4 = v,
            Knob::DelayTime => self.delay.time = v,
            Knob::DelayFeedback => self.delay.feedback = v,
            Knob::DelayLevel => self.delay.level = v,
            Knob::ReverbTime => self.reverb.time = v,
            Knob::ReverbPreDelay => self.reverb.pre = v,
            Knob::ReverbDensity => self.reverb.density = v,
            Knob::ReverbLevel => self.reverb.level = v,
            Knob::NsThreshold => self.ns.threshold = v,
            Knob::NsRelease => self.ns.release = v,
        }
        (k.param(), v)
    }

    /// Sets the switch `s` to `on`; the result is the write to send.
    pub fn set_switch(&mut self, s: Switch, on: bool) -> (w: (Param, u8))
        ensures
            *final(self) == old(self).with_blocks(with_switch(old(self).blocks(), s, on)),
            w == (s.spec_param(), switch(on)),
    {
        match s {
            Switch::AmpBright => self.amp.bright = on,
            Switch::BoosterOn => self.booster.on = on,
            Switch::ModOn => self.mod_fx.on = on,
            Switch::FxOn => self.fx.on = on,
            Switch::DelayOn => self.delay.on = on,
            Switch::ReverbOn => self.reverb.on = on,
            Switch::NsOn => self.ns.on = on,
        }
        let value: u8 = if on {
            1
        } else {
            0
        };
        (s.param(), value)
    }

    /// Selects the type `idx` in the block `t`; `codes` are the amplifier's
    /// type codes. Selecting the type already selected changes nothing and
    /// sends nothing; else the result is the write to send.
    pub fn select_type(&mut self, t: TypeSlot, idx: usize, codes: &TypeCodes) -> (w: Option<(Param, u8)>)
        ensures
            idx == type_of(old(self).blocks(), t) ==> *final(self) == *old(self) && w is None,
            idx != type_of(old(self).blocks(), t) ==> *final(self) == old(self).with_blocks(
                with_type(old(self).blocks(), t, idx),
            ) && w == Some((t.spec_param(), type_value(*codes, t, idx))),
    {
        let (current, table, fallback): (usize, &Vec<u8>, u8) = match t {
            TypeSlot::Amp => (self.amp.type_idx, &codes.amp, idx as u8),
            TypeSlot::Booster => (self.booster.type_idx, &codes.booster, idx as u8),
            TypeSlot::Mod => (self.mod_fx.type_idx, &codes.mod_fx, 0),
            TypeSlot::Fx => (self.fx.type_idx, &codes.fx, 0),
            TypeSlot::Delay => (self.delay.type_idx, &codes.delay, 0),
            TypeSlot::Reverb => (self.reverb.type_idx, &codes.reverb, 0),
        };
        if current == idx {
            return None;
        }
        match t {
            TypeSlot::Amp => self.amp.type_idx = idx,
            TypeSlot::Booster => self.booster.type_idx = idx,
            TypeSlot::Mod => self.mod_fx.type_idx = idx,
            TypeSlot::Fx => self.fx.type_idx = idx,
            TypeSlot::Delay => self.delay.type_idx = idx,
            TypeSlot::Reverb => self.reverb.type_idx = idx,
        }
        Some((t.param(), type_code(table, idx, fallback)))
    }
}

/// What turning a knob sends is what a full resend of the edited blocks
/// writes for its parameter, and every other write of a resend stays as it
/// was.
pub proof fn lemma_knob_write_agrees_with_resend(b: Snapshot, c: TypeCodes, k: Knob, v: u8)
    ensures
        resend_writes(with_knob(b, k, v), c)[resend_index(k.spec_param())] == (k.spec_param(), v),
        forall|i: int|
            0 <= i < 34 && i != resend_index(k.spec_param()) ==> #[trigger] resend_writes(
                with_knob(b, k, v),
                c,
            )[i] == resend_writes(b, c)[i],
{
}

/// What setting a switch sends is what a full resend of the edited blocks
/// writes for its parameter, and every other write of a resend stays as it
/// was.
pub proof fn lemma_switch_write_agrees_with_resend(b: Snapshot, c: TypeCodes, s: Switch, on: bool)
    ensures
        resend_writes(with_switch(b, s, on), c)[resend_index(s.spec_param())] == (s.spec_param(), switch(on)),
        forall|i: int|
            0 <= i < 34 && i != resend_index(s.spec_param()) ==> #[trigger] resend_writes(
                with_switch(b, s, on),
                c,
            )[i] == resend_writes(b, c)[i],
{
}

/// What selecting a type sends is what a full resend of the edited blocks
/// writes for its parameter, and every other write of a resend stays as it
/// was.
pub proof fn lemma_type_write_agrees_with_resend(b: Snapshot, c: TypeCodes, t: TypeSlot, idx: usize)
    ensures
        resend_writes(with_type(b, t, idx), c)[resend_index(t.spec_param())] == (
            t.spec_param(),
            type_value(c, t, idx),
        ),
        forall|i: int|
            0 <= i < 34 && i != resend_index(t.spec_param()) ==> #[trigger] resend_writes(
                with_type(b, t, idx),
                c,
            )[i] == resend_writes(b, c)[i],
{
}

/// The position of a knob as the panel shows it: the editor field that the
/// knob is named for.
pub open spec fn knob_value(b: Snapshot, k: Knob) -> u8 {
    match k {
        Knob::AmpGain => b.amp.gain,
        Knob::AmpBass => b.amp.bass,
        Knob::AmpMid => b.amp.mid,
        Knob::AmpTreble => b.amp.treble,
        Knob::AmpPresence => b.amp.pres,
        Knob::AmpVolume => b.amp.vol,
        Knob::AmpSag => b.amp.sag,
        Knob::AmpResonance => b.amp.res,
        Knob::BoosterDrive => b.booster.p1,
        Knob::BoosterBottom => b.booster.p2,
        Knob::BoosterTone => b.booster.p3,
        Knob::BoosterLevel => b.booster.p4,
        Knob::DelayTime => b.delay.time,
        Knob::DelayFeedback => b.delay.feedback,
        Knob::DelayLevel => b.delay.level,
        Knob::ReverbTime => b.reverb.time,
        Knob::ReverbPreDelay => b.reverb.pre,
        Knob::ReverbDensity => b.reverb.density,
        Knob::ReverbLevel => b.reverb.level,
        Knob::NsThreshold => b.ns.threshold,
        Knob::NsRelease => b.ns.release,
    }
}

/// The block of the exported document, and the name of its member, that
/// holds the value of a knob.
pub open spec fn knob_member(k: Knob) -> (int, Seq<char>) {
    match k {
        Knob::AmpGain => (0, "gain"@),
        Knob::AmpBass => (0, "bass"@),
        Knob::AmpMid => (0, "mid"@),
        Knob::AmpTreble => (0, "treble"@),
        Knob::AmpPresence => (0, "presence"@),
        Knob::AmpVolume => (0, "volume"@),
        Knob::AmpSag => (0, "sag"@),
        Knob::AmpResonance => (0, "resonance"@),
        Knob::BoosterDrive => (1, "drive"@),
        Knob::BoosterBottom => (1, "bottom"@),
        Knob::BoosterTone => (1, "tone"@),
        Knob::BoosterLevel => (1, "level"@),
        Knob::DelayTime => (4, "time"@),
        Knob::DelayFeedback => (4, "feedback"@),
        Knob::DelayLevel => (4, "level"@),
        Knob::ReverbTime => (5, "time"@),
        Knob::ReverbPreDelay => (5, "preDelay"@),
        Knob::ReverbDensity => (5, "density"@),
        Knob::ReverbLevel => (5, "level"@),
        Knob::NsThreshold => (6, "threshold"@),
        Knob::NsRelease => (6, "release"@),
    }
}

/// The state of a switch as the panel shows it: the editor field that the
/// switch is named for.
pub open spec fn switch_value(b: Snapshot, s: Switch) -> bool {
    match s {
        Switch::AmpBright => b.amp.bright,
        Switch::BoosterOn => b.booster.on,
        Switch::ModOn => b.mod_fx.on,
        Switch::FxOn => b.fx.on,
        Switch::DelayOn => b.delay.on,
        Switch::ReverbOn => b.reverb.on,
        Switch::NsOn => b.ns.on,
    }
}

/// The block of the exported document, and the name of its member, that
/// holds the state of a switch.
pub open spec fn switch_member(s: Switch) -> (int, Seq<char>) {
    match s {
        Switch::AmpBright => (0, "bright"@),
        Switch::BoosterOn => (1, "on"@),
        Switch::ModOn => (2, "on"@),
        Switch::FxOn => (3, "on"@),
        Switch::DelayOn => (4, "on"@),
        Switch::ReverbOn => (5, "on"@),
        Switch::NsOn => (6, "on"@),
    }
}

proof fn lemma_knob_member_exported(b: Snapshot, n: TypeNames, k: Knob)
    ensures
        block_leaves(b, n)[knob_member(k).0].contains(
            (knob_member(k).1, Some(Leaf::Num(knob_value(b, k) as nat))),
        ),
{
    match k {
        Knob::AmpGain => assert(block_leaves(b, n)[0][1] == ("gain"@, Some(Leaf::Num(b.amp.gain as nat)))),
        Knob::AmpBass => assert(block_leaves(b, n)[0][2] == ("bass"@, Some(Leaf::Num(b.amp.bass as nat)))),
        Knob::AmpMid => assert(block_leaves(b, n)[0][3] == ("mid"@, Some(Leaf::Num(b.amp.mid as nat)))),
        Knob::AmpTreble => assert(block_leaves(b, n)[0][4] == ("treble"@, Some(Leaf::Num(b.amp.treble as nat)))),
        Knob::AmpPresence => assert(block_leaves(b, n)[0][5] == ("presence"@, Some(Leaf::Num(b.amp.pres as nat)))),
        Knob::AmpVolume => assert(block_leaves(b, n)[0][6] == ("volume"@, Some(Leaf::Num(b.amp.vol as nat)))),
        Knob::AmpSag => assert(block_leaves(b, n)[0][8] == ("sag"@, Some(Leaf::Num(b.amp.sag as nat)))),
        Knob::AmpResonance => assert(block_leaves(b, n)[0][9] == ("resonance"@, Some(Leaf::Num(b.amp.res as nat)))),
        Knob::BoosterDrive => assert(block_leaves(b, n)[1][2] == ("drive"@, Some(Leaf::Num(b.booster.p1 as nat)))),
        Knob::BoosterBottom => assert(block_leaves(b, n)[1][3] == ("bottom"@, Some(Leaf::Num(b.booster.p2 as nat)))),
        Knob::BoosterTone => assert(block_leaves(b, n)[1][4] == ("tone"@, Some(Leaf::Num(b.booster.p3 as nat)))),
        Knob::BoosterLevel => assert(block_leaves(b, n)[1][5] == ("level"@, Some(Leaf::Num(b.booster.p4 as nat)))),
        Knob::DelayTime => assert(block_leaves(b, n)[4][2] == ("time"@, Some(Leaf::Num(b.delay.time as nat)))),
        Knob::DelayFeedback => assert(block_leaves(b, n)[4][3] == ("feedback"@, Some(Leaf::Num(b.delay.feedback as nat)))),
        Knob::DelayLevel => assert(block_leaves(b, n)[4][4] == ("level"@, Some(Leaf::Num(b.delay.level as nat)))),
        Knob::ReverbTime => assert(block_leaves(b, n)[5][2] == ("time"@, Some(Leaf::Num(b.reverb.time as nat)))),
        Knob::ReverbPreDelay => assert(block_leaves(b, n)[5][3] == ("preDelay"@, Some(Leaf::Num(b.reverb.pre as nat)))),
        Knob::ReverbDensity => assert(block_leaves(b, n)[5][4] == ("density"@, Some(Leaf::Num(b.reverb.density as nat)))),
        Knob::ReverbLevel => assert(block_leaves(b, n)[5][5] == ("level"@, Some(Leaf::Num(b.reverb.level as nat)))),
        Knob::NsThreshold => assert(block_leaves(b, n)[6][1] == ("threshold"@, Some(Leaf::Num(b.ns.threshold as nat)))),
        Knob::NsRelease => assert(block_leaves(b, n)[6][2] == ("release"@, Some(Leaf::Num(b.ns.release as nat)))),
    }
}

proof fn lemma_switch_member_exported(b: Snapshot, n: TypeNames, s: Switch)
    ensures
        block_leaves(b, n)[switch_member(s).0].contains(
            (switch_member(s).1, Some(Leaf::Flag(switch_value(b, s)))),
        ),
{
    match s {
        Switch::AmpBright => assert(block_leaves(b, n)[0][7] == ("bright"@, Some(Leaf::Flag(b.amp.bright)))),
        Switch::BoosterOn => assert(block_leaves(b, n)[1][0] == ("on"@, Some(Leaf::Flag(b.booster.on)))),
        Switch::ModOn => assert(block_leaves(b, n)[2][0] == ("on"@, Some(Leaf::Flag(b.mod_fx.on)))),
        Switch::FxOn => assert(block_leaves(b, n)[3][0] == ("on"@, Some(Leaf::Flag(b.fx.on)))),
        Switch::DelayOn => assert(block_leaves(b, n)[4][0] == ("on"@, Some(Leaf::Flag(b.delay.on)))),
        Switch::ReverbOn => assert(block_leaves(b, n)[5][0] == ("on"@, Some(Leaf::Flag(b.reverb.on)))),
        Switch::NsOn => assert(block_leaves(b, n)[6][0] == ("on"@, Some(Leaf::Flag(b.ns.on)))),
    }
}

/// Turning a knob moves that knob to the new value and leaves every other
/// knob, every switch, every type selection and the rest of the blocks as
/// they were.
pub proof fn lemma_turning_moves_only_that_knob(b: Snapshot, k: Knob, v: u8)
    ensures
        knob_value(with_knob(b, k, v), k) == v,
        forall|k2: Knob| k2 != k ==> #[trigger] knob_value(with_knob(b, k, v), k2) == knob_value(b, k2),
        forall|s: Switch| #[trigger] switch_value(with_knob(b, k, v), s) == switch_value(b, s),
        forall|t: TypeSlot| #[trigger] selected_type(with_knob(b, k, v), t) == selected_type(b, t),
        with_knob(b, k, v).delay.e_level == b.delay.e_level,
{
}

/// Setting a switch sets that switch and leaves every other switch, every
/// knob and every type selection as they were.
pub proof fn lemma_setting_changes_only_that_switch(b: Snapshot, s: Switch, on: bool)
    ensures
        switch_value(with_switch(b, s, on), s) == on,
        forall|s2: Switch| s2 != s ==> #[trigger] switch_value(with_switch(b, s, on), s2) == switch_value(b, s2),
        forall|k: Knob| #[trigger] knob_value(with_switch(b, s, on), k) == knob_value(b, k),
        forall|t: TypeSlot| #[trigger] selected_type(with_switch(b, s, on), t) == selected_type(b, t),
        with_switch(b, s, on).delay.e_level == b.delay.e_level,
{
}

/// The type index that a block's selector shows: the `type_idx` field of
/// that block.
pub open spec fn selected_type(b: Snapshot, t: TypeSlot) -> usize {
    match t {
        TypeSlot::Amp => b.amp.type_idx,
        TypeSlot::Booster => b.booster.type_idx,
        TypeSlot::Mod => b.mod_fx.type_idx,
        TypeSlot::Fx => b.fx.type_idx,
        TypeSlot::Delay => b.delay.type_idx,
        TypeSlot::Reverb => b.reverb.type_idx,
    }
}

/// Selecting a type in a block changes nothing exactly when that block
/// already shows it; otherwise the block shows the new type and every other
/// block, knob and switch stays as it was. `type_of` reads what the block
/// shows.
pub proof fn lemma_selecting_changes_only_that_block(b: Snapshot, t: TypeSlot, idx: usize)
    ensures
        forall|t2: TypeSlot| #[trigger] type_of(b, t2) == selected_type(b, t2),
        selected_type(with_type(b, t, idx), t) == idx,
        forall|t2: TypeSlot| t2 != t ==> #[trigger] selected_type(with_type(b, t, idx), t2) == selected_type(b, t2),
        forall|k: Knob| #[trigger] knob_value(with_type(b, t, idx), k) == knob_value(b, k),
        forall|s: Switch| #[trigger] switch_value(with_type(b, t, idx), s) == switch_value(b, s),
        with_type(b, t, idx).delay.e_level == b.delay.e_level,
        (with_type(b, t, idx) == b) <==> (idx == selected_type(b, t)),
{
    assert forall|t2: TypeSlot| #[trigger] type_of(b, t2) == selected_type(b, t2) by {
        match t2 {
            TypeSlot::Amp => {},
            TypeSlot::Booster => {},
            TypeSlot::Mod => {},
            TypeSlot::Fx => {},
            TypeSlot::Delay => {},
            TypeSlot::Reverb => {},
        }
    }
    if idx == selected_type(b, t) {
        match t {
            TypeSlot::Amp => assert(with_type(b, t, idx).amp =~= b.amp),
            TypeSlot::Booster => assert(with_type(b, t, idx).booster =~= b.booster),
            TypeSlot::Mod => assert(with_type(b, t, idx).mod_fx =~= b.mod_fx),
            TypeSlot::Fx => assert(with_type(b, t, idx).fx =~= b.fx),
            TypeSlot::Delay => assert(with_type(b, t, idx).delay =~= b.delay),
            TypeSlot::Reverb => assert(with_type(b, t, idx).reverb =~= b.reverb),
        }
    }
}

/// A full resend writes for each knob, switch and type selector the value
/// that the panel shows for it: the knob's position, the switch as 1 or 0,
/// the code of the selected type.
pub proof fn lemma_resend_carries_what_the_panel_shows(b: Snapshot, c: TypeCodes)
    ensures
        forall|k: Knob| #[trigger] resend_writes(b, c)[resend_index(k.spec_param())] == (
            k.spec_param(),
            knob_value(b, k),
        ),
        forall|s: Switch| #[trigger] resend_writes(b, c)[resend_index(s.spec_param())] == (
            s.spec_param(),
            switch(switch_value(b, s)),
        ),
        forall|t: TypeSlot| #[trigger] resend_writes(b, c)[resend_index(t.spec_param())] == (
            t.spec_param(),
            type_value(c, t, selected_type(b, t)),
        ),
{
    assert forall|k: Knob| #[trigger] resend_writes(b, c)[resend_index(k.spec_param())] == (
        k.spec_param(),
        knob_value(b, k),
    ) by {
        match k {
            Knob::AmpGain => {},
            Knob::AmpBass => {},
            Knob::AmpMid => {},
            Knob::AmpTreble => {},
            Knob::AmpPresence => {},
            Knob::AmpVolume => {},
            Knob::AmpSag => {},
            Knob::AmpResonance => {},
            Knob::BoosterDrive => {},
            Knob::BoosterBottom => {},
            Knob::BoosterTone => {},
            Knob::BoosterLevel => {},
            Knob::DelayTime => {},
            Knob::DelayFeedback => {},
            Knob::DelayLevel => {},
            Knob::ReverbTime => {},
            Knob::ReverbPreDelay => {},
            Knob::ReverbDensity => {},
            Knob::ReverbLevel => {},
            Knob::NsThreshold => {},
            Knob::NsRelease => {},
        }
    }
    assert forall|s: Switch| #[trigger] resend_writes(b, c)[resend_index(s.spec_param())] == (
        s.spec_param(),
        switch(switch_value(b, s)),
    ) by {
        match s {
            Switch::AmpBright => {},
            Switch::BoosterOn => {},
            Switch::ModOn => {},
            Switch::FxOn => {},
            Switch::DelayOn => {},
            Switch::ReverbOn => {},
            Switch::NsOn => {},
        }
    }
    assert forall|t: TypeSlot| #[trigger] resend_writes(b, c)[resend_index(t.spec_param())] == (
        t.spec_param(),
        type_value(c, t, selected_type(b, t)),
    ) by {
        match t {
            TypeSlot::Amp => {},
            TypeSlot::Booster => {},
            TypeSlot::Mod => {},
            TypeSlot::Fx => {},
            TypeSlot::Delay => {},
            TypeSlot::Reverb => {},
        }
    }
}

/// The block of the exported document that holds a selector's type, and
/// the names of that block's types.
pub open spec fn type_member(t: TypeSlot, n: TypeNames) -> (int, Seq<String>) {
    match t {
        TypeSlot::Amp => (0, n.amp@),
        TypeSlot::Booster => (1, n.booster@),
        TypeSlot::Mod => (2, n.mod_fx@),
        TypeSlot::Fx => (3, n.fx@),
        TypeSlot::Delay => (4, n.delay@),
        TypeSlot::Reverb => (5, n.reverb@),
    }
}

/// The exported document shows, under `type` in each block with a
/// selector, the name of the type that the selector shows (nothing past
/// the end of the names).
pub proof fn lemma_export_shows_selected_types(b: Snapshot, n: TypeNames)
    ensures
        forall|t: TypeSlot| #[trigger] block_leaves(b, n)[type_member(t, n).0].contains(
            ("type"@, Some(Leaf::Text(name_or_empty(type_member(t, n).1, selected_type(b, t))))),
        ),
{
    assert forall|t: TypeSlot| #[trigger] block_leaves(b, n)[type_member(t, n).0].contains(
        ("type"@, Some(Leaf::Text(name_or_empty(type_member(t, n).1, selected_type(b, t))))),
    ) by {
        match t {
            TypeSlot::Amp => assert(block_leaves(b, n)[0][0] == ("type"@, Some(Leaf::Text(name_or_empty(n.amp@, b.amp.type_idx))))),
            TypeSlot::Booster => assert(block_leaves(b, n)[1][1] == ("type"@, Some(Leaf::Text(name_or_empty(n.booster@, b.booster.type_idx))))),
            TypeSlot::Mod => assert(block_leaves(b, n)[2][1] == ("type"@, Some(Leaf::Text(name_or_empty(n.mod_fx@, b.mod_fx.type_idx))))),
            TypeSlot::Fx => assert(block_leaves(b, n)[3][1] == ("type"@, Some(Leaf::Text(name_or_empty(n.fx@, b.fx.type_idx))))),
            TypeSlot::Delay => assert(block_leaves(b, n)[4][1] == ("type"@, Some(Leaf::Text(name_or_empty(n.delay@, b.delay.type_idx))))),
            TypeSlot::Reverb => assert(block_leaves(b, n)[5][1] == ("type"@, Some(Leaf::Text(name_or_empty(n.reverb@, b.reverb.type_idx))))),
        }
    }
}

/// The exported document shows each knob's position and each switch's
/// state under the member named for it, in the block it belongs to.
pub proof fn lemma_export_shows_what_the_panel_shows(b: Snapshot, n: TypeNames)
    ensures
        forall|k: Knob| #[trigger] block_leaves(b, n)[knob_member(k).0].contains(
            (knob_member(k).1, Some(Leaf::Num(knob_value(b, k) as nat))),
        ),
        forall|s: Switch| #[trigger] block_leaves(b, n)[switch_member(s).0].contains(
            (switch_member(s).1, Some(Leaf::Flag(switch_value(b, s)))),
        ),
{
    assert forall|k: Knob| #[trigger] block_leaves(b, n)[knob_member(k).0].contains(
        (knob_member(k).1, Some(Leaf::Num(knob_value(b, k) as nat))),
    ) by {
        lemma_knob_member_exported(b, n, k);
    }
    assert forall|s: Switch| #[trigger] block_leaves(b, n)[switch_member(s).0].contains(
        (switch_member(s).1, Some(Leaf::Flag(switch_value(b, s)))),
    ) by {
        lemma_switch_member_exported(b, n, s);
    }
}

} // verus!
