//! The editor's state: the amplifier channel that edits go to, the amp and
//! effect blocks, and the A/B snapshots.
use vstd::prelude::*;

verus! {

/// Where edits are sent: the live panel or one of the four stored channels.
#[derive(PartialEq, Eq, Structural, Clone, Copy, Debug)]
pub enum TargetChannel {
    Panel,
    Ch1,
    Ch2,
    Ch3,
    Ch4,
}

impl TargetChannel {
    /// First address byte of the temporary (patch) area of this channel.
    pub open spec fn spec_msb(self) -> u8 {
        match self {
            TargetChannel::Panel => 0x60u8,
            TargetChannel::Ch1 => 0x10u8,
            TargetChannel::Ch2 => 0x11u8,
            TargetChannel::Ch3 => 0x12u8,
            TargetChannel::Ch4 => 0x13u8,
        }
    }

    /// Program number that selects this channel; the panel has none.
    pub open spec fn spec_program_change(self) -> Option<u8> {
        match self {
            TargetChannel::Panel => None,
            TargetChannel::Ch1 => Some(0u8),
            TargetChannel::Ch2 => Some(1u8),
            TargetChannel::Ch3 => Some(2u8),
            TargetChannel::Ch4 => Some(3u8),
        }
    }

    /// Short label of the channel.
    pub open spec fn spec_short(self) -> Seq<char> {
        match self {
            TargetChannel::Panel => "PANEL"@,
            TargetChannel::Ch1 => "CH1"@,
            TargetChannel::Ch2 => "CH2"@,
            TargetChannel::Ch3 => "CH3"@,
            TargetChannel::Ch4 => "CH4"@,
        }
    }

    /// First address byte for parameter writes to this channel.
    pub fn msb(self) -> (b: u8)
        ensures
            b == self.spec_msb(),
    {
        match self {
            TargetChannel::Panel => 0x60,
            TargetChannel::Ch1 => 0x10,
            TargetChannel::Ch2 => 0x11,
            TargetChannel::Ch3 => 0x12,
            TargetChannel::Ch4 => 0x13,
        }
    }

    /// Program number that selects the channel, `None` for the panel.
    pub fn program_change(self) -> (pc: Option<u8>)
        ensures
            pc == self.spec_program_change(),
    {
        match self {
            TargetChannel::Panel => None,
            TargetChannel::Ch1 => Some(0),
            TargetChannel::Ch2 => Some(1),
            TargetChannel::Ch3 => Some(2),
            TargetChannel::Ch4 => Some(3),
        }
    }

    /// Short label shown in the footer and status line.
    pub fn short(self) -> (s: &'static str)
        ensures
            s@ == self.spec_short(),
    {
        match self {
            TargetChannel::Panel => "PANEL",
            TargetChannel::Ch1 => "CH1",
            TargetChannel::Ch2 => "CH2",
            TargetChannel::Ch3 => "CH3",
            TargetChannel::Ch4 => "CH4",
        }
    }
}

/// Distinct channels write to distinct address areas, and exactly the four
/// stored channels are selected by a program change, whose number is a
/// 7-bit MIDI data byte.
pub proof fn lemma_channel_addressing(a: TargetChannel, b: TargetChannel)
    ensures
        a != b ==> a.spec_msb() != b.spec_msb(),
        (a.spec_program_change() is None) <==> (a == TargetChannel::Panel),
        a.spec_program_change() matches Some(pc) ==> pc < 128,
        a != b && a.spec_program_change() is Some && b.spec_program_change() is Some
            ==> a.spec_program_change() != b.spec_program_change(),
{
}

/// The value a knob with the range `lo..=hi` returns to when reset: the
/// middle of the range, rounded down.
pub fn knob_reset_value(lo: u8, hi: u8) -> (v: u8)
    requires
        lo <= hi,
    ensures
        v == lo + (hi - lo) / 2,
        lo <= v <= hi,
{
    lo + (hi - lo) / 2
}

/// The three pages of the application.
#[derive(PartialEq, Eq, Structural, Clone, Copy, Debug)]
pub enum AppTab {
    Library,
    Editor,
    Settings,
}

/// Amplifier block: type index and knob values.
#[derive(PartialEq, Eq, Structural, Clone, Copy, Debug)]
pub struct AmpState {
    pub type_idx: usize,
    pub gain: u8,
    pub bass: u8,
    pub mid: u8,
    pub treble: u8,
    pub pres: u8,
    pub vol: u8,
    pub bright: bool,
    pub sag: u8,
    pub res: u8,
}

impl AmpState {
    /// The amp settings of a fresh editor.
    pub open spec fn initial() -> AmpState {
        AmpState {
            type_idx: 1,
            gain: 60,
            bass: 60,
            mid: 60,
            treble: 60,
            pres: 60,
            vol: 70,
            bright: false,
            sag: 60,
            res: 60,
        }
    }
}

impl Default for AmpState {
    fn default() -> (s: Self)
        ensures
            s == AmpState::initial(),
    {
        AmpState {
            type_idx: 1,
            gain: 60,
            bass: 60,
            mid: 60,
            treble: 60,
            pres: 60,
            vol: 70,
            bright: false,
            sag: 60,
            res: 60,
        }
    }
}

/// An effect block with an on switch, a type and four knobs.
#[derive(PartialEq, Eq, Structural, Clone, Copy, Debug)]
pub struct FxBlock {
    pub on: bool,
    pub type_idx: usize,
    pub p1: u8,
    pub p2: u8,
    pub p3: u8,
    pub p4: u8,
}

impl FxBlock {
    /// A block with the given switch and type and the knobs at their
    /// initial positions (50, 50, 50, 60).
    pub fn new(on: bool, type_idx: usize) -> (b: Self)
        ensures
            b == (FxBlock { on, type_idx, p1: 50, p2: 50, p3: 50, p4: 60 }),
    {
        FxBlock { on, type_idx, p1: 50, p2: 50, p3: 50, p4: 60 }
    }
}

/// Delay block.
#[derive(PartialEq, Eq, Structural, Clone, Copy, Debug)]
pub struct DelayState {
    pub on: bool,
    pub type_idx: usize,
    pub time: u8,
    pub feedback: u8,
    pub level: u8,
    pub e_level: u8,
}

impl DelayState {
    /// The delay settings of a fresh editor.
    pub open spec fn initial() -> DelayState {
        DelayState { on: false, type_idx: 0, time: 50, feedback: 35, level: 50, e_level: 50 }
    }
}

impl Default for DelayState {
    fn default() -> (s: Self)
        ensures
            s == DelayState::initial(),
    {
        DelayState { on: false, type_idx: 0, time: 50, feedback: 35, level: 50, e_level: 50 }
    }
}

/// Reverb block.
#[derive(PartialEq, Eq, Structural, Clone, Copy, Debug)]
pub struct ReverbState {
    pub on: bool,
    pub type_idx: usize,
    pub time: u8,
    pub pre: u8,
    pub density: u8,
    pub level: u8,
}

impl ReverbState {
    /// The reverb settings of a fresh editor.
    pub open spec fn initial() -> ReverbState {
        ReverbState { on: false, type_idx: 1, time: 50, pre: 20, density: 60, level: 50 }
    }
}

impl Default for ReverbState {
    fn default() -> (s: Self)
        ensures
            s == ReverbState::initial(),
    {
        ReverbState { on: false, type_idx: 1, time: 50, pre: 20, density: 60, level: 50 }
    }
}

/// Noise suppressor block.
#[derive(PartialEq, Eq, Structural, Clone, Copy, Debug)]
pub struct NsState {
    pub on: bool,
    pub threshold: u8,
    pub release: u8,
}

impl NsState {
    /// The noise suppressor settings of a fresh editor.
    pub open spec fn initial() -> NsState {
        NsState { on: false, threshold: 30, release: 40 }
    }
}

impl Default for NsState {
    fn default() -> (s: Self)
        ensures
            s == NsState::initial(),
    {
        NsState { on: false, threshold: 30, release: 40 }
    }
}

/// Every block of the editor at one moment, for A/B comparison.
#[derive(PartialEq, Eq, Structural, Clone, Copy, Debug)]
pub struct Snapshot {
    pub amp: AmpState,
    pub booster: FxBlock,
    pub mod_fx: FxBlock,
    pub fx: FxBlock,
    pub delay: DelayState,
    pub reverb: ReverbState,
    pub ns: NsState,
}

/// What the library shows of a patch file.
pub struct PatchInfo {
    pub name: String,
    pub memo: String,
    pub block_count: usize,
}

} // verus!
