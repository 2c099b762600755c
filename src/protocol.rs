//! Message schema shared with the device firmware.
//!
//! The wire format is positional: field order and variant order are the
//! contract. Reordering a field or a variant breaks compatibility.
#![allow(non_camel_case_types)]

use vstd::prelude::*;

verus! {

/// Number of fader channels on the device.
pub const GLOBAL_CHANNELS: usize = 16;

/// Number of parameter slots of one app.
pub const APP_MAX_PARAMS: usize = 16;

/// An IEEE 754 single-precision number, carried as its bit pattern.
#[derive(Clone, Copy, Debug, PartialEq, Eq)]
pub struct F32Bits(pub u32);

#[derive(Clone, Copy, Debug, PartialEq, Eq)]
pub enum ClockSrc {
    Off,
    Atom,
    Meteor,
    Cube,
    Internal,
    MidiIn,
    MidiUsb,
}

#[derive(Clone, Copy, Debug, PartialEq, Eq)]
pub enum ResetSrc {
    Off,
    Atom,
    Meteor,
    Cube,
}

#[derive(Clone, Copy, Debug, PartialEq, Eq)]
pub enum I2cMode {
    Calibration,
    Leader,
    Follower,
}

#[derive(Clone, Copy, Debug, PartialEq, Eq)]
pub enum TakeoverMode {
    Pickup,
    Jump,
    Scale,
}

/// Clock division of an aux output; on the wire each variant is its index.
#[derive(Clone, Copy, Debug, PartialEq, Eq)]
pub enum ClockDivision {
    _1,
    _2,
    _4,
    _6,
    _8,
    _12,
    _24,
    _96,
    _192,
    _384,
}

#[derive(Clone, Copy, Debug, PartialEq, Eq)]
pub enum AuxJackMode {
    Off,
    ClockOut(ClockDivision),
    ResetOut,
}

#[derive(Clone, Copy, Debug, PartialEq, Eq)]
pub enum Note {
    C,
    CSharp,
    D,
    DSharp,
    E,
    F,
    FSharp,
    G,
    GSharp,
    A,
    ASharp,
    B,
}

#[derive(Clone, Copy, Debug, PartialEq, Eq)]
pub enum Key {
    Chromatic,
    Ionian,
    Dorian,
    Phrygian,
    Lydian,
    Mixolydian,
    Aeolian,
    Locrian,
    BluesMaj,
    BluesMin,
    PentatonicMaj,
    PentatonicMin,
    Folk,
    Japanese,
    Gamelan,
    HungarianMin,
}

#[derive(Clone, Copy, Debug, PartialEq, Eq)]
pub enum Curve {
    Linear,
    Logarithmic,
    Exponential,
}

#[derive(Clone, Copy, Debug, PartialEq, Eq)]
pub enum Waveform {
    Triangle,
    Saw,
    SawInv,
    Square,
    Sine,
}

#[derive(Clone, Copy, Debug, PartialEq, Eq)]
pub enum Color {
    White,
    Yellow,
    Orange,
    Red,
    Lime,
    Green,
    Cyan,
    SkyBlue,
    Blue,
    Violet,
    Pink,
    PaleGreen,
    Sand,
    Rose,
    Salmon,
    LightBlue,
    Custom(u8, u8, u8),
}

#[derive(Clone, Copy, Debug, PartialEq, Eq)]
pub enum AppIcon {
    Fader,
    AdEnv,
    Random,
    Euclid,
    Attenuate,
    Die,
    Quantize,
    Sequence,
    Note,
    EnvFollower,
    SoftRandom,
    Sine,
    NoteBox,
    SequenceSquare,
    NoteGrid,
    KnobRound,
    Stereo,
}

#[derive(Clone, Copy, Debug, PartialEq, Eq)]
pub enum Range {
    _0_10V,
    _0_5V,
    _Neg5_5V,
}

#[derive(Clone, Copy, Debug, PartialEq, Eq)]
pub enum MidiOutMode {
    Off,
    Local,
    MidiThru { sources: MidiIn },
    MidiMerge { sources: MidiIn },
}

#[derive(Clone, Copy, Debug, PartialEq, Eq)]
pub enum MidiMode {
    Note,
    Cc,
}

#[derive(Clone, Copy, Debug, PartialEq, Eq)]
pub struct MidiCc(pub u8);

#[derive(Clone, Copy, Debug, PartialEq, Eq)]
pub struct MidiChannel(pub u8);

/// MIDI input ports: `[usb, din]`.
#[derive(Clone, Copy, Debug, PartialEq, Eq)]
pub struct MidiIn(pub [bool; 2]);

#[derive(Clone, Copy, Debug, PartialEq, Eq)]
pub struct MidiNote(pub u8);

/// MIDI output ports: `[usb, out1, out2]`.
#[derive(Clone, Copy, Debug, PartialEq, Eq)]
pub struct MidiOut(pub [bool; 3]);

#[derive(Clone, Copy, Debug, PartialEq, Eq)]
pub struct MidiOutConfig {
    pub send_clock: bool,
    pub send_transport: bool,
    pub mode: MidiOutMode,
}

/// Output configurations: `[usb, out1, out2]`.
#[derive(Clone, Copy, Debug, PartialEq, Eq)]
pub struct MidiConfig {
    pub outs: [MidiOutConfig; 3],
}

#[derive(Clone, Copy, Debug, PartialEq, Eq)]
pub struct ClockConfig {
    pub clock_src: ClockSrc,
    pub ext_ppqn: u8,
    pub reset_src: ResetSrc,
    pub internal_bpm: F32Bits,
}

#[derive(Clone, Copy, Debug, PartialEq, Eq)]
pub struct QuantizerConfig {
    pub key: Key,
    pub tonic: Note,
}

#[derive(Clone, Copy, Debug, PartialEq, Eq)]
pub struct GlobalConfig {
    pub aux: [AuxJackMode; 3],
    pub clock: ClockConfig,
    pub i2c_mode: I2cMode,
    pub led_brightness: u8,
    pub midi: MidiConfig,
    pub quantizer: QuantizerConfig,
    pub takeover_mode: TakeoverMode,
}

/// One occupied slot: `(app_id, channels, layout_id)`.
pub type Slot = (u8, usize, u8);

/// The fader strip: slot `i` holds the app whose channels start at fader `i`.
#[derive(Clone, Copy, Debug, PartialEq, Eq)]
pub struct Layout(pub [Option<Slot>; 16]);

/// Parameter metadata; only ever received from the device.
#[derive(Clone, Debug, PartialEq)]
#[allow(inconsistent_fields)]
pub enum Param {
    Unset,
    Int { name: String, min: i32, max: i32 },
    Float { name: String, min: F32Bits, max: F32Bits },
    Bool { name: String },
    Enum { name: String, variants: Vec<String> },
    Curve { name: String, variants: Vec<Curve> },
    Waveform { name: String, variants: Vec<Waveform> },
    Color { name: String, variants: Vec<Color> },
    Range { name: String, variants: Vec<Range> },
    Note { name: String, variants: Vec<Note> },
    MidiCc { name: String },
    MidiChannel { name: String },
    MidiIn,
    MidiMode,
    MidiNote { name: String },
    MidiOut,
}

/// A parameter value; sent and received.
#[derive(Clone, Copy, Debug, PartialEq, Eq)]
pub enum Value {
    Int(i32),
    Float(F32Bits),
    Bool(bool),
    Enum(usize),
    Curve(Curve),
    Waveform(Waveform),
    Color(Color),
    Range(Range),
    Note(Note),
    MidiCc(MidiCc),
    MidiChannel(MidiChannel),
    MidiIn(MidiIn),
    MidiMode(MidiMode),
    MidiNote(MidiNote),
    MidiOut(MidiOut),
}

/// App description, in wire order.
#[derive(Clone, Debug, PartialEq)]
pub struct AppDetails {
    pub param_count: usize,
    pub name: String,
    pub description: String,
    pub color: Color,
    pub icon: AppIcon,
    pub params: Vec<Param>,
}

/// Host to device.
#[derive(Clone, Copy, Debug, PartialEq, Eq)]
pub enum ConfigMsgIn {
    Ping,
    GetAllApps,
    GetGlobalConfig,
    SetGlobalConfig(GlobalConfig),
    GetLayout,
    SetLayout(Layout),
    GetAllAppParams,
    GetAppParams { layout_id: u8 },
    SetAppParams { layout_id: u8, values: [Option<Value>; 16] },
    FactoryReset,
}

/// Device to host.
#[derive(Clone, Debug, PartialEq)]
pub enum ConfigMsgOut {
    Pong,
    BatchMsgStart(usize),
    BatchMsgEnd,
    GlobalConfig(GlobalConfig),
    Layout(Layout),
    /// `(app_id, channels, details)`
    AppConfig(u8, usize, AppDetails),
    /// `(layout_id, values)`
    AppState(u8, Vec<Value>),
}

} // verus!
