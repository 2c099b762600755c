//! The encoding of every message type, field by field in declaration
//! order. Enum variants are written as their declaration index.
use vstd::prelude::*;

use crate::protocol::{
    AppDetails, AppIcon, AuxJackMode, ClockConfig, ClockDivision, ClockSrc, Color, ConfigMsgIn,
    ConfigMsgOut, Curve, F32Bits, GlobalConfig, I2cMode, Key, Layout, MidiCc, MidiChannel,
    MidiConfig, MidiIn, MidiMode, MidiNote, MidiOut, MidiOutConfig, MidiOutMode, Note, Param,
    QuantizerConfig, Range, ResetSrc, Slot, TakeoverMode, Value, Waveform,
};
use crate::wire::{
    decode_tag, decode_varint, encode_tag, encode_varint, lemma_occurs_concat,
    lemma_occurs_concat_auto, lemma_varint_unique, occurs_at, varint, Tag, Wire,
};

verus! {

impl Tag for ClockSrc {
    open spec fn spec_tag(&self) -> nat {
        match self {
            ClockSrc::Off => 0,
            ClockSrc::Atom => 1,
            ClockSrc::Meteor => 2,
            ClockSrc::Cube => 3,
            ClockSrc::Internal => 4,
            ClockSrc::MidiIn => 5,
            ClockSrc::MidiUsb => 6,
        }
    }

    open spec fn count() -> nat {
        7
    }

    proof fn lemma_tag_range(&self) {
    }

    fn tag(&self) -> (r: u32) {
        match self {
            ClockSrc::Off => 0,
            ClockSrc::Atom => 1,
            ClockSrc::Meteor => 2,
            ClockSrc::Cube => 3,
            ClockSrc::Internal => 4,
            ClockSrc::MidiIn => 5,
            ClockSrc::MidiUsb => 6,
        }
    }

    fn from_tag(t: u32) -> (r: Option<Self>) {
        match t {
            0 => Some(ClockSrc::Off),
            1 => Some(ClockSrc::Atom),
            2 => Some(ClockSrc::Meteor),
            3 => Some(ClockSrc::Cube),
            4 => Some(ClockSrc::Internal),
            5 => Some(ClockSrc::MidiIn),
            6 => Some(ClockSrc::MidiUsb),
            _ => None,
        }
    }
}

impl Wire for ClockSrc {
    open spec fn wire(&self) -> Seq<u8> {
        varint(self.spec_tag())
    }

    open spec fn same(&self, other: &Self) -> bool {
        *self == *other
    }

    fn encode(&self, out: &mut Vec<u8>) {
        encode_tag(self, out);
    }

    fn decode(s: &[u8], pos: usize) -> (r: Option<(Self, usize)>) {
        decode_tag(s, pos)
    }
}

impl Tag for ResetSrc {
    open spec fn spec_tag(&self) -> nat {
        match self {
            ResetSrc::Off => 0,
            ResetSrc::Atom => 1,
            ResetSrc::Meteor => 2,
            ResetSrc::Cube => 3,
        }
    }

    open spec fn count() -> nat {
        4
    }

    proof fn lemma_tag_range(&self) {
    }

    fn tag(&self) -> (r: u32) {
        match self {
            ResetSrc::Off => 0,
            ResetSrc::Atom => 1,
            ResetSrc::Meteor => 2,
            ResetSrc::Cube => 3,
        }
    }

    fn from_tag(t: u32) -> (r: Option<Self>) {
        match t {
            0 => Some(ResetSrc::Off),
            1 => Some(ResetSrc::Atom),
            2 => Some(ResetSrc::Meteor),
            3 => Some(ResetSrc::Cube),
            _ => None,
        }
    }
}

impl Wire for ResetSrc {
    open spec fn wire(&self) -> Seq<u8> {
        varint(self.spec_tag())
    }

    open spec fn same(&self, other: &Self) -> bool {
        *self == *other
    }

    fn encode(&self, out: &mut Vec<u8>) {
        encode_tag(self, out);
    }

    fn decode(s: &[u8], pos: usize) -> (r: Option<(Self, usize)>) {
        decode_tag(s, pos)
    }
}

impl Tag for I2cMode {
    open spec fn spec_tag(&self) -> nat {
        match self {
            I2cMode::Calibration => 0,
            I2cMode::Leader => 1,
            I2cMode::Follower => 2,
        }
    }

    open spec fn count() -> nat {
        3
    }

    proof fn lemma_tag_range(&self) {
    }

    fn tag(&self) -> (r: u32) {
        match self {
            I2cMode::Calibration => 0,
            I2cMode::Leader => 1,
            I2cMode::Follower => 2,
        }
    }

    fn from_tag(t: u32) -> (r: Option<Self>) {
        match t {
            0 => Some(I2cMode::Calibration),
            1 => Some(I2cMode::Leader),
            2 => Some(I2cMode::Follower),
            _ => None,
        }
    }
}

impl Wire for I2cMode {
    open spec fn wire(&self) -> Seq<u8> {
        varint(self.spec_tag())
    }

    open spec fn same(&self, other: &Self) -> bool {
        *self == *other
    }

    fn encode(&self, out: &mut Vec<u8>) {
        encode_tag(self, out);
    }

    fn decode(s: &[u8], pos: usize) -> (r: Option<(Self, usize)>) {
        decode_tag(s, pos)
    }
}

impl Tag for TakeoverMode {
    open spec fn spec_tag(&self) -> nat {
        match self {
            TakeoverMode::Pickup => 0,
            TakeoverMode::Jump => 1,
            TakeoverMode::Scale => 2,
        }
    }

    open spec fn count() -> nat {
        3
    }

    proof fn lemma_tag_range(&self) {
    }

    fn tag(&self) -> (r: u32) {
        match self {
            TakeoverMode::Pickup => 0,
            TakeoverMode::Jump => 1,
            TakeoverMode::Scale => 2,
        }
    }

    fn from_tag(t: u32) -> (r: Option<Self>) {
        match t {
            0 => Some(TakeoverMode::Pickup),
            1 => Some(TakeoverMode::Jump),
            2 => Some(TakeoverMode::Scale),
            _ => None,
        }
    }
}

impl Wire for TakeoverMode {
    open spec fn wire(&self) -> Seq<u8> {
        varint(self.spec_tag())
    }

    open spec fn same(&self, other: &Self) -> bool {
        *self == *other
    }

    fn encode(&self, out: &mut Vec<u8>) {
        encode_tag(self, out);
    }

    fn decode(s: &[u8], pos: usize) -> (r: Option<(Self, usize)>) {
        decode_tag(s, pos)
    }
}

impl Tag for ClockDivision {
    open spec fn spec_tag(&self) -> nat {
        match self {
            ClockDivision::_1 => 0,
            ClockDivision::_2 => 1,
            ClockDivision::_4 => 2,
            ClockDivision::_6 => 3,
            ClockDivision::_8 => 4,
            ClockDivision::_12 => 5,
            ClockDivision::_24 => 6,
            ClockDivision::_96 => 7,
            ClockDivision::_192 => 8,
            ClockDivision::_384 => 9,
        }
    }

    open spec fn count() -> nat {
        10
    }

    proof fn lemma_tag_range(&self) {
    }

    fn tag(&self) -> (r: u32) {
        match self {
            ClockDivision::_1 => 0,
            ClockDivision::_2 => 1,
            ClockDivision::_4 => 2,
            ClockDivision::_6 => 3,
            ClockDivision::_8 => 4,
            ClockDivision::_12 => 5,
            ClockDivision::_24 => 6,
            ClockDivision::_96 => 7,
            ClockDivision::_192 => 8,
            ClockDivision::_384 => 9,
        }
    }

    fn from_tag(t: u32) -> (r: Option<Self>) {
        match t {
            0 => Some(ClockDivision::_1),
            1 => Some(ClockDivision::_2),
            2 => Some(ClockDivision::_4),
            3 => Some(ClockDivision::_6),
            4 => Some(ClockDivision::_8),
            5 => Some(ClockDivision::_12),
            6 => Some(ClockDivision::_24),
            7 => Some(ClockDivision::_96),
            8 => Some(ClockDivision::_192),
            9 => Some(ClockDivision::_384),
            _ => None,
        }
    }
}

impl Wire for ClockDivision {
    open spec fn wire(&self) -> Seq<u8> {
        varint(self.spec_tag())
    }

    open spec fn same(&self, other: &Self) -> bool {
        *self == *other
    }

    fn encode(&self, out: &mut Vec<u8>) {
        encode_tag(self, out);
    }

    fn decode(s: &[u8], pos: usize) -> (r: Option<(Self, usize)>) {
        decode_tag(s, pos)
    }
}

impl Tag for Note {
    open spec fn spec_tag(&self) -> nat {
        match self {
            Note::C => 0,
            Note::CSharp => 1,
            Note::D => 2,
            Note::DSharp => 3,
            Note::E => 4,
            Note::F => 5,
            Note::FSharp => 6,
            Note::G => 7,
            Note::GSharp => 8,
            Note::A => 9,
            Note::ASharp => 10,
            Note::B => 11,
        }
    }

    open spec fn count() -> nat {
        12
    }

    proof fn lemma_tag_range(&self) {
    }

    fn tag(&self) -> (r: u32) {
        match self {
            Note::C => 0,
            Note::CSharp => 1,
            Note::D => 2,
            Note::DSharp => 3,
            Note::E => 4,
            Note::F => 5,
            Note::FSharp => 6,
            Note::G => 7,
            Note::GSharp => 8,
            Note::A => 9,
            Note::ASharp => 10,
            Note::B => 11,
        }
    }

    fn from_tag(t: u32) -> (r: Option<Self>) {
        match t {
            0 => Some(Note::C),
            1 => Some(Note::CSharp),
            2 => Some(Note::D),
            3 => Some(Note::DSharp),
            4 => Some(Note::E),
            5 => Some(Note::F),
            6 => Some(Note::FSharp),
            7 => Some(Note::G),
            8 => Some(Note::GSharp),
            9 => Some(Note::A),
            10 => Some(Note::ASharp),
            11 => Some(Note::B),
            _ => None,
        }
    }
}

impl Wire for Note {
    open spec fn wire(&self) -> Seq<u8> {
        varint(self.spec_tag())
    }

    open spec fn same(&self, other: &Self) -> bool {
        *self == *other
    }

    fn encode(&self, out: &mut Vec<u8>) {
        encode_tag(self, out);
    }

    fn decode(s: &[u8], pos: usize) -> (r: Option<(Self, usize)>) {
        decode_tag(s, pos)
    }
}

impl Tag for Key {
    open spec fn spec_tag(&self) -> nat {
        match self {
            Key::Chromatic => 0,
            Key::Ionian => 1,
            Key::Dorian => 2,
            Key::Phrygian => 3,
            Key::Lydian => 4,
            Key::Mixolydian => 5,
            Key::Aeolian => 6,
            Key::Locrian => 7,
            Key::BluesMaj => 8,
            Key::BluesMin => 9,
            Key::PentatonicMaj => 10,
            Key::PentatonicMin => 11,
            Key::Folk => 12,
            Key::Japanese => 13,
            Key::Gamelan => 14,
            Key::HungarianMin => 15,
        }
    }

    open spec fn count() -> nat {
        16
    }

    proof fn lemma_tag_range(&self) {
    }

    fn tag(&self) -> (r: u32) {
        match self {
            Key::Chromatic => 0,
            Key::Ionian => 1,
            Key::Dorian => 2,
            Key::Phrygian => 3,
            Key::Lydian => 4,
            Key::Mixolydian => 5,
            Key::Aeolian => 6,
            Key::Locrian => 7,
            Key::BluesMaj => 8,
            Key::BluesMin => 9,
            Key::PentatonicMaj => 10,
            Key::PentatonicMin => 11,
            Key::Folk => 12,
            Key::Japanese => 13,
            Key::Gamelan => 14,
            Key::HungarianMin => 15,
        }
    }

    fn from_tag(t: u32) -> (r: Option<Self>) {
        match t {
            0 => Some(Key::Chromatic),
            1 => Some(Key::Ionian),
            2 => Some(Key::Dorian),
            3 => Some(Key::Phrygian),
            4 => Some(Key::Lydian),
            5 => Some(Key::Mixolydian),
            6 => Some(Key::Aeolian),
            7 => Some(Key::Locrian),
            8 => Some(Key::BluesMaj),
            9 => Some(Key::BluesMin),
            10 => Some(Key::PentatonicMaj),
            11 => Some(Key::PentatonicMin),
            12 => Some(Key::Folk),
            13 => Some(Key::Japanese),
            14 => Some(Key::Gamelan),
            15 => Some(Key::HungarianMin),
            _ => None,
        }
    }
}

impl Wire for Key {
    open spec fn wire(&self) -> Seq<u8> {
        varint(self.spec_tag())
    }

    open spec fn same(&self, other: &Self) -> bool {
        *self == *other
    }

    fn encode(&self, out: &mut Vec<u8>) {
        encode_tag(self, out);
    }

    fn decode(s: &[u8], pos: usize) -> (r: Option<(Self, usize)>) {
        decode_tag(s, pos)
    }
}

impl Tag for Curve {
    open spec fn spec_tag(&self) -> nat {
        match self {
            Curve::Linear => 0,
            Curve::Logarithmic => 1,
            Curve::Exponential => 2,
        }
    }

    open spec fn count() -> nat {
        3
    }

    proof fn lemma_tag_range(&self) {
    }

    fn tag(&self) -> (r: u32) {
        match self {
            Curve::Linear => 0,
            Curve::Logarithmic => 1,
            Curve::Exponential => 2,
        }
    }

    fn from_tag(t: u32) -> (r: Option<Self>) {
        match t {
            0 => Some(Curve::Linear),
            1 => Some(Curve::Logarithmic),
            2 => Some(Curve::Exponential),
            _ => None,
        }
    }
}

impl Wire for Curve {
    open spec fn wire(&self) -> Seq<u8> {
        varint(self.spec_tag())
    }

    open spec fn same(&self, other: &Self) -> bool {
        *self == *other
    }

    fn encode(&self, out: &mut Vec<u8>) {
        encode_tag(self, out);
    }

    fn decode(s: &[u8], pos: usize) -> (r: Option<(Self, usize)>) {
        decode_tag(s, pos)
    }
}

impl Tag for Waveform {
    open spec fn spec_tag(&self) -> nat {
        match self {
            Waveform::Triangle => 0,
            Waveform::Saw => 1,
            Waveform::SawInv => 2,
            Waveform::Square => 3,
            Waveform::Sine => 4,
        }
    }

    open spec fn count() -> nat {
        5
    }

    proof fn lemma_tag_range(&self) {
    }

    fn tag(&self) -> (r: u32) {
        match self {
            Waveform::Triangle => 0,
            Waveform::Saw => 1,
            Waveform::SawInv => 2,
            Waveform::Square => 3,
            Waveform::Sine => 4,
        }
    }

    fn from_tag(t: u32) -> (r: Option<Self>) {
        match t {
            0 => Some(Waveform::Triangle),
            1 => Some(Waveform::Saw),
            2 => Some(Waveform::SawInv),
            3 => Some(Waveform::Square),
            4 => Some(Waveform::Sine),
            _ => None,
        }
    }
}

impl Wire for Waveform {
    open spec fn wire(&self) -> Seq<u8> {
        varint(self.spec_tag())
    }

    open spec fn same(&self, other: &Self) -> bool {
        *self == *other
    }

    fn encode(&self, out: &mut Vec<u8>) {
        encode_tag(self, out);
    }

    fn decode(s: &[u8], pos: usize) -> (r: Option<(Self, usize)>) {
        decode_tag(s, pos)
    }
}

impl Tag for AppIcon {
    open spec fn spec_tag(&self) -> nat {
        match self {
            AppIcon::Fader => 0,
            AppIcon::AdEnv => 1,
            AppIcon::Random => 2,
            AppIcon::Euclid => 3,
            AppIcon::Attenuate => 4,
            AppIcon::Die => 5,
            AppIcon::Quantize => 6,
            AppIcon::Sequence => 7,
            AppIcon::Note => 8,
            AppIcon::EnvFollower => 9,
            AppIcon::SoftRandom => 10,
            AppIcon::Sine => 11,
            AppIcon::NoteBox => 12,
            AppIcon::SequenceSquare => 13,
            AppIcon::NoteGrid => 14,
            AppIcon::KnobRound => 15,
            AppIcon::Stereo => 16,
        }
    }

    open spec fn count() -> nat {
        17
    }

    proof fn lemma_tag_range(&self) {
    }

    fn tag(&self) -> (r: u32) {
        match self {
            AppIcon::Fader => 0,
            AppIcon::AdEnv => 1,
            AppIcon::Random => 2,
            AppIcon::Euclid => 3,
            AppIcon::Attenuate => 4,
            AppIcon::Die => 5,
            AppIcon::Quantize => 6,
            AppIcon::Sequence => 7,
            AppIcon::Note => 8,
            AppIcon::EnvFollower => 9,
            AppIcon::SoftRandom => 10,
            AppIcon::Sine => 11,
            AppIcon::NoteBox => 12,
            AppIcon::SequenceSquare => 13,
            AppIcon::NoteGrid => 14,
            AppIcon::KnobRound => 15,
            AppIcon::Stereo => 16,
        }
    }

    fn from_tag(t: u32) -> (r: Option<Self>) {
        match t {
            0 => Some(AppIcon::Fader),
            1 => Some(AppIcon::AdEnv),
            2 => Some(AppIcon::Random),
            3 => Some(AppIcon::Euclid),
            4 => Some(AppIcon::Attenuate),
            5 => Some(AppIcon::Die),
            6 => Some(AppIcon::Quantize),
            7 => Some(AppIcon::Sequence),
            8 => Some(AppIcon::Note),
            9 => Some(AppIcon::EnvFollower),
            10 => Some(AppIcon::SoftRandom),
            11 => Some(AppIcon::Sine),
            12 => Some(AppIcon::NoteBox),
            13 => Some(AppIcon::SequenceSquare),
            14 => Some(AppIcon::NoteGrid),
            15 => Some(AppIcon::KnobRound),
            16 => Some(AppIcon::Stereo),
            _ => None,
        }
    }
}

impl Wire for AppIcon {
    open spec fn wire(&self) -> Seq<u8> {
        varint(self.spec_tag())
    }

    open spec fn same(&self, other: &Self) -> bool {
        *self == *other
    }

    fn encode(&self, out: &mut Vec<u8>) {
        encode_tag(self, out);
    }

    fn decode(s: &[u8], pos: usize) -> (r: Option<(Self, usize)>) {
        decode_tag(s, pos)
    }
}

impl Tag for Range {
    open spec fn spec_tag(&self) -> nat {
        match self {
            Range::_0_10V => 0,
            Range::_0_5V => 1,
            Range::_Neg5_5V => 2,
        }
    }

    open spec fn count() -> nat {
        3
    }

    proof fn lemma_tag_range(&self) {
    }

    fn tag(&self) -> (r: u32) {
        match self {
            Range::_0_10V => 0,
            Range::_0_5V => 1,
            Range::_Neg5_5V => 2,
        }
    }

    fn from_tag(t: u32) -> (r: Option<Self>) {
        match t {
            0 => Some(Range::_0_10V),
            1 => Some(Range::_0_5V),
            2 => Some(Range::_Neg5_5V),
            _ => None,
        }
    }
}

impl Wire for Range {
    open spec fn wire(&self) -> Seq<u8> {
        varint(self.spec_tag())
    }

    open spec fn same(&self, other: &Self) -> bool {
        *self == *other
    }

    fn encode(&self, out: &mut Vec<u8>) {
        encode_tag(self, out);
    }

    fn decode(s: &[u8], pos: usize) -> (r: Option<(Self, usize)>) {
        decode_tag(s, pos)
    }
}

impl Tag for MidiMode {
    open spec fn spec_tag(&self) -> nat {
        match self {
            MidiMode::Note => 0,
            MidiMode::Cc => 1,
        }
    }

    open spec fn count() -> nat {
        2
    }

    proof fn lemma_tag_range(&self) {
    }

    fn tag(&self) -> (r: u32) {
        match self {
            MidiMode::Note => 0,
            MidiMode::Cc => 1,
        }
    }

    fn from_tag(t: u32) -> (r: Option<Self>) {
        match t {
            0 => Some(MidiMode::Note),
            1 => Some(MidiMode::Cc),
            _ => None,
        }
    }
}

impl Wire for MidiMode {
    open spec fn wire(&self) -> Seq<u8> {
        varint(self.spec_tag())
    }

    open spec fn same(&self, other: &Self) -> bool {
        *self == *other
    }

    fn encode(&self, out: &mut Vec<u8>) {
        encode_tag(self, out);
    }

    fn decode(s: &[u8], pos: usize) -> (r: Option<(Self, usize)>) {
        decode_tag(s, pos)
    }
}

impl Color {
    /// Declaration index of the variant.
    pub open spec fn variant_index(&self) -> nat {
        match self {
            Color::White => 0,
            Color::Yellow => 1,
            Color::Orange => 2,
            Color::Red => 3,
            Color::Lime => 4,
            Color::Green => 5,
            Color::Cyan => 6,
            Color::SkyBlue => 7,
            Color::Blue => 8,
            Color::Violet => 9,
            Color::Pink => 10,
            Color::PaleGreen => 11,
            Color::Sand => 12,
            Color::Rose => 13,
            Color::Salmon => 14,
            Color::LightBlue => 15,
            Color::Custom(_a0, _a1, _a2) => 16,
        }
    }

    /// Encoding of the variant's fields.
    pub open spec fn payload_wire(&self) -> Seq<u8> {
        match self {
            Color::White => Seq::empty(),
            Color::Yellow => Seq::empty(),
            Color::Orange => Seq::empty(),
            Color::Red => Seq::empty(),
            Color::Lime => Seq::empty(),
            Color::Green => Seq::empty(),
            Color::Cyan => Seq::empty(),
            Color::SkyBlue => Seq::empty(),
            Color::Blue => Seq::empty(),
            Color::Violet => Seq::empty(),
            Color::Pink => Seq::empty(),
            Color::PaleGreen => Seq::empty(),
            Color::Sand => Seq::empty(),
            Color::Rose => Seq::empty(),
            Color::Salmon => Seq::empty(),
            Color::LightBlue => Seq::empty(),
            Color::Custom(a0, a1, a2) => a0.wire() + a1.wire() + a2.wire(),
        }
    }
}

impl Wire for Color {
    open spec fn wire(&self) -> Seq<u8> {
        varint(self.variant_index()) + self.payload_wire()
    }

    open spec fn same(&self, other: &Self) -> bool {
        match (self, other) {
            (Color::White, Color::White) => true,
            (Color::Yellow, Color::Yellow) => true,
            (Color::Orange, Color::Orange) => true,
            (Color::Red, Color::Red) => true,
            (Color::Lime, Color::Lime) => true,
            (Color::Green, Color::Green) => true,
            (Color::Cyan, Color::Cyan) => true,
            (Color::SkyBlue, Color::SkyBlue) => true,
            (Color::Blue, Color::Blue) => true,
            (Color::Violet, Color::Violet) => true,
            (Color::Pink, Color::Pink) => true,
            (Color::PaleGreen, Color::PaleGreen) => true,
            (Color::Sand, Color::Sand) => true,
            (Color::Rose, Color::Rose) => true,
            (Color::Salmon, Color::Salmon) => true,
            (Color::LightBlue, Color::LightBlue) => true,
            (Color::Custom(a0, a1, a2), Color::Custom(b0, b1, b2)) => a0.same(b0) && a1.same(b1) && a2.same(b2),
            _ => false,
        }
    }

    fn encode(&self, out: &mut Vec<u8>) {
        let ghost start = out@;
        match self {
            Color::White => {
                encode_varint(0, out);
            },
            Color::Yellow => {
                encode_varint(1, out);
            },
            Color::Orange => {
                encode_varint(2, out);
            },
            Color::Red => {
                encode_varint(3, out);
            },
            Color::Lime => {
                encode_varint(4, out);
            },
            Color::Green => {
                encode_varint(5, out);
            },
            Color::Cyan => {
                encode_varint(6, out);
            },
            Color::SkyBlue => {
                encode_varint(7, out);
            },
            Color::Blue => {
                encode_varint(8, out);
            },
            Color::Violet => {
                encode_varint(9, out);
            },
            Color::Pink => {
                encode_varint(10, out);
            },
            Color::PaleGreen => {
                encode_varint(11, out);
            },
            Color::Sand => {
                encode_varint(12, out);
            },
            Color::Rose => {
                encode_varint(13, out);
            },
            Color::Salmon => {
                encode_varint(14, out);
            },
            Color::LightBlue => {
                encode_varint(15, out);
            },
            Color::Custom(a0, a1, a2) => {
                encode_varint(16, out);
                a0.encode(out);
                a1.encode(out);
                a2.encode(out);
            },
        }
        assert(out@ =~= start + self.wire());
    }

    #[verifier::rlimit(40)]
    fn decode(s: &[u8], pos: usize) -> (r: Option<(Self, usize)>) {
        broadcast use lemma_occurs_concat_auto;

        let (t, p1) = match decode_varint(s, pos, 0xffff_ffff) {
            Some(x) => x,
            None => {
                proof {
                    assert forall|y: Self| !#[trigger] occurs_at(s@, pos as int, y.wire()) by {
                        lemma_occurs_concat(s@, pos as int, varint(y.variant_index()), y.payload_wire());
                    }
                }
                return None;
            },
        };
        proof {
            assert(s@.subrange(p1 as int, p1 as int) =~= Seq::<u8>::empty());
            assert forall|y: Self| #[trigger] occurs_at(s@, pos as int, y.wire()) implies y.variant_index()
                == t && occurs_at(s@, p1 as int, y.payload_wire()) by {
                lemma_occurs_concat(s@, pos as int, varint(y.variant_index()), y.payload_wire());
                lemma_varint_unique(s@, pos as int, y.variant_index(), t as nat);
            }
        }
        if t == 0 {
            return Some((Color::White, p1));
        }
        if t == 1 {
            return Some((Color::Yellow, p1));
        }
        if t == 2 {
            return Some((Color::Orange, p1));
        }
        if t == 3 {
            return Some((Color::Red, p1));
        }
        if t == 4 {
            return Some((Color::Lime, p1));
        }
        if t == 5 {
            return Some((Color::Green, p1));
        }
        if t == 6 {
            return Some((Color::Cyan, p1));
        }
        if t == 7 {
            return Some((Color::SkyBlue, p1));
        }
        if t == 8 {
            return Some((Color::Blue, p1));
        }
        if t == 9 {
            return Some((Color::Violet, p1));
        }
        if t == 10 {
            return Some((Color::Pink, p1));
        }
        if t == 11 {
            return Some((Color::PaleGreen, p1));
        }
        if t == 12 {
            return Some((Color::Sand, p1));
        }
        if t == 13 {
            return Some((Color::Rose, p1));
        }
        if t == 14 {
            return Some((Color::Salmon, p1));
        }
        if t == 15 {
            return Some((Color::LightBlue, p1));
        }
        if t == 16 {
            let q = p1;
            let (a0, q_1) = match <u8 as Wire>::decode(s, q) {
                Some(x) => x,
                None => return None,
            };
            let (a1, q_2) = match <u8 as Wire>::decode(s, q_1) {
                Some(x) => x,
                None => return None,
            };
            let (a2, q_3) = match <u8 as Wire>::decode(s, q_2) {
                Some(x) => x,
                None => return None,
            };
            let x = Color::Custom(a0, a1, a2);
            return Some((x, q_3));
        }
        None
    }
}

impl AuxJackMode {
    /// Declaration index of the variant.
    pub open spec fn variant_index(&self) -> nat {
        match self {
            AuxJackMode::Off => 0,
            AuxJackMode::ClockOut(_a0) => 1,
            AuxJackMode::ResetOut => 2,
        }
    }

    /// Encoding of the variant's fields.
    pub open spec fn payload_wire(&self) -> Seq<u8> {
        match self {
            AuxJackMode::Off => Seq::empty(),
            AuxJackMode::ClockOut(a0) => a0.wire(),
            AuxJackMode::ResetOut => Seq::empty(),
        }
    }
}

impl Wire for AuxJackMode {
    open spec fn wire(&self) -> Seq<u8> {
        varint(self.variant_index()) + self.payload_wire()
    }

    open spec fn same(&self, other: &Self) -> bool {
        match (self, other) {
            (AuxJackMode::Off, AuxJackMode::Off) => true,
            (AuxJackMode::ClockOut(a0), AuxJackMode::ClockOut(b0)) => a0.same(b0),
            (AuxJackMode::ResetOut, AuxJackMode::ResetOut) => true,
            _ => false,
        }
    }

    fn encode(&self, out: &mut Vec<u8>) {
        let ghost start = out@;
        match self {
            AuxJackMode::Off => {
                encode_varint(0, out);
            },
            AuxJackMode::ClockOut(a0) => {
                encode_varint(1, out);
                a0.encode(out);
            },
            AuxJackMode::ResetOut => {
                encode_varint(2, out);
            },
        }
        assert(out@ =~= start + self.wire());
    }

    fn decode(s: &[u8], pos: usize) -> (r: Option<(Self, usize)>) {
        broadcast use lemma_occurs_concat_auto;

        let (t, p1) = match decode_varint(s, pos, 0xffff_ffff) {
            Some(x) => x,
            None => {
                proof {
                    assert forall|y: Self| !#[trigger] occurs_at(s@, pos as int, y.wire()) by {
                        lemma_occurs_concat(s@, pos as int, varint(y.variant_index()), y.payload_wire());
                    }
                }
                return None;
            },
        };
        proof {
            assert(s@.subrange(p1 as int, p1 as int) =~= Seq::<u8>::empty());
            assert forall|y: Self| #[trigger] occurs_at(s@, pos as int, y.wire()) implies y.variant_index()
                == t && occurs_at(s@, p1 as int, y.payload_wire()) by {
                lemma_occurs_concat(s@, pos as int, varint(y.variant_index()), y.payload_wire());
                lemma_varint_unique(s@, pos as int, y.variant_index(), t as nat);
            }
        }
        if t == 0 {
            return Some((AuxJackMode::Off, p1));
        }
        if t == 1 {
            let q = p1;
            let (a0, q_1) = match <ClockDivision as Wire>::decode(s, q) {
                Some(x) => x,
                None => return None,
            };
            let x = AuxJackMode::ClockOut(a0);
            return Some((x, q_1));
        }
        if t == 2 {
            return Some((AuxJackMode::ResetOut, p1));
        }
        None
    }
}

impl Wire for MidiCc {
    open spec fn wire(&self) -> Seq<u8> {
        self.0.wire()
    }

    open spec fn same(&self, other: &Self) -> bool {
        self.0.same(&other.0)
    }

    fn encode(&self, out: &mut Vec<u8>) {
        let ghost start = out@;
        self.0.encode(out);
        assert(out@ =~= start + self.wire());
    }

    fn decode(s: &[u8], pos: usize) -> (r: Option<(Self, usize)>) {
        broadcast use lemma_occurs_concat_auto;

        let (f0, p1) = match <u8 as Wire>::decode(s, pos) {
            Some(x) => x,
            None => return None,
        };
        Some((MidiCc(f0), p1))
    }
}

impl Wire for MidiChannel {
    open spec fn wire(&self) -> Seq<u8> {
        self.0.wire()
    }

    open spec fn same(&self, other: &Self) -> bool {
        self.0.same(&other.0)
    }

    fn encode(&self, out: &mut Vec<u8>) {
        let ghost start = out@;
        self.0.encode(out);
        assert(out@ =~= start + self.wire());
    }

    fn decode(s: &[u8], pos: usize) -> (r: Option<(Self, usize)>) {
        broadcast use lemma_occurs_concat_auto;

        let (f0, p1) = match <u8 as Wire>::decode(s, pos) {
            Some(x) => x,
            None => return None,
        };
        Some((MidiChannel(f0), p1))
    }
}

impl Wire for MidiNote {
    open spec fn wire(&self) -> Seq<u8> {
        self.0.wire()
    }

    open spec fn same(&self, other: &Self) -> bool {
        self.0.same(&other.0)
    }

    fn encode(&self, out: &mut Vec<u8>) {
        let ghost start = out@;
        self.0.encode(out);
        assert(out@ =~= start + self.wire());
    }

    fn decode(s: &[u8], pos: usize) -> (r: Option<(Self, usize)>) {
        broadcast use lemma_occurs_concat_auto;

        let (f0, p1) = match <u8 as Wire>::decode(s, pos) {
            Some(x) => x,
            None => return None,
        };
        Some((MidiNote(f0), p1))
    }
}

impl Wire for MidiIn {
    open spec fn wire(&self) -> Seq<u8> {
        self.0.wire()
    }

    open spec fn same(&self, other: &Self) -> bool {
        self.0.same(&other.0)
    }

    fn encode(&self, out: &mut Vec<u8>) {
        let ghost start = out@;
        self.0.encode(out);
        assert(out@ =~= start + self.wire());
    }

    fn decode(s: &[u8], pos: usize) -> (r: Option<(Self, usize)>) {
        broadcast use lemma_occurs_concat_auto;

        let (f0, p1) = match <[bool; 2] as Wire>::decode(s, pos) {
            Some(x) => x,
            None => return None,
        };
        Some((MidiIn(f0), p1))
    }
}

impl Wire for MidiOut {
    open spec fn wire(&self) -> Seq<u8> {
        self.0.wire()
    }

    open spec fn same(&self, other: &Self) -> bool {
        self.0.same(&other.0)
    }

    fn encode(&self, out: &mut Vec<u8>) {
        let ghost start = out@;
        self.0.encode(out);
        assert(out@ =~= start + self.wire());
    }

    fn decode(s: &[u8], pos: usize) -> (r: Option<(Self, usize)>) {
        broadcast use lemma_occurs_concat_auto;

        let (f0, p1) = match <[bool; 3] as Wire>::decode(s, pos) {
            Some(x) => x,
            None => return None,
        };
        Some((MidiOut(f0), p1))
    }
}

impl MidiOutMode {
    /// Declaration index of the variant.
    pub open spec fn variant_index(&self) -> nat {
        match self {
            MidiOutMode::Off => 0,
            MidiOutMode::Local => 1,
            MidiOutMode::MidiThru { sources: _a0 } => 2,
            MidiOutMode::MidiMerge { sources: _a0 } => 3,
        }
    }

    /// Encoding of the variant's fields.
    pub open spec fn payload_wire(&self) -> Seq<u8> {
        match self {
            MidiOutMode::Off => Seq::empty(),
            MidiOutMode::Local => Seq::empty(),
            MidiOutMode::MidiThru { sources: a0 } => a0.wire(),
            MidiOutMode::MidiMerge { sources: a0 } => a0.wire(),
        }
    }
}

impl Wire for MidiOutMode {
    open spec fn wire(&self) -> Seq<u8> {
        varint(self.variant_index()) + self.payload_wire()
    }

    open spec fn same(&self, other: &Self) -> bool {
        match (self, other) {
            (MidiOutMode::Off, MidiOutMode::Off) => true,
            (MidiOutMode::Local, MidiOutMode::Local) => true,
            (MidiOutMode::MidiThru { sources: a0 }, MidiOutMode::MidiThru { sources: b0 }) => a0.same(b0),
            (MidiOutMode::MidiMerge { sources: a0 }, MidiOutMode::MidiMerge { sources: b0 }) => a0.same(b0),
            _ => false,
        }
    }

    fn encode(&self, out: &mut Vec<u8>) {
        let ghost start = out@;
        match self {
            MidiOutMode::Off => {
                encode_varint(0, out);
            },
            MidiOutMode::Local => {
                encode_varint(1, out);
            },
            MidiOutMode::MidiThru { sources: a0 } => {
                encode_varint(2, out);
                a0.encode(out);
            },
            MidiOutMode::MidiMerge { sources: a0 } => {
                encode_varint(3, out);
                a0.encode(out);
            },
        }
        assert(out@ =~= start + self.wire());
    }

    fn decode(s: &[u8], pos: usize) -> (r: Option<(Self, usize)>) {
        broadcast use lemma_occurs_concat_auto;

        let (t, p1) = match decode_varint(s, pos, 0xffff_ffff) {
            Some(x) => x,
            None => {
                proof {
                    assert forall|y: Self| !#[trigger] occurs_at(s@, pos as int, y.wire()) by {
                        lemma_occurs_concat(s@, pos as int, varint(y.variant_index()), y.payload_wire());
                    }
                }
                return None;
            },
        };
        proof {
            assert(s@.subrange(p1 as int, p1 as int) =~= Seq::<u8>::empty());
            assert forall|y: Self| #[trigger] occurs_at(s@, pos as int, y.wire()) implies y.variant_index()
                == t && occurs_at(s@, p1 as int, y.payload_wire()) by {
                lemma_occurs_concat(s@, pos as int, varint(y.variant_index()), y.payload_wire());
                lemma_varint_unique(s@, pos as int, y.variant_index(), t as nat);
            }
        }
        if t == 0 {
            return Some((MidiOutMode::Off, p1));
        }
        if t == 1 {
            return Some((MidiOutMode::Local, p1));
        }
        if t == 2 {
            let q = p1;
            let (a0, q_1) = match <MidiIn as Wire>::decode(s, q) {
                Some(x) => x,
                None => return None,
            };
            let x = MidiOutMode::MidiThru { sources: a0 };
            return Some((x, q_1));
        }
        if t == 3 {
            let q = p1;
            let (a0, q_1) = match <MidiIn as Wire>::decode(s, q) {
                Some(x) => x,
                None => return None,
            };
            let x = MidiOutMode::MidiMerge { sources: a0 };
            return Some((x, q_1));
        }
        None
    }
}

impl Wire for MidiOutConfig {
    open spec fn wire(&self) -> Seq<u8> {
        self.send_clock.wire() + self.send_transport.wire() + self.mode.wire()
    }

    open spec fn same(&self, other: &Self) -> bool {
        self.send_clock.same(&other.send_clock) && self.send_transport.same(&other.send_transport) && self.mode.same(&other.mode)
    }

    fn encode(&self, out: &mut Vec<u8>) {
        let ghost start = out@;
        self.send_clock.encode(out);
        self.send_transport.encode(out);
        self.mode.encode(out);
        assert(out@ =~= start + self.wire());
    }

    fn decode(s: &[u8], pos: usize) -> (r: Option<(Self, usize)>) {
        broadcast use lemma_occurs_concat_auto;

        let (f0, p1) = match <bool as Wire>::decode(s, pos) {
            Some(x) => x,
            None => return None,
        };
        let (f1, p2) = match <bool as Wire>::decode(s, p1) {
            Some(x) => x,
            None => return None,
        };
        let (f2, p3) = match <MidiOutMode as Wire>::decode(s, p2) {
            Some(x) => x,
            None => return None,
        };
        Some((MidiOutConfig { send_clock: f0, send_transport: f1, mode: f2 }, p3))
    }
}

impl Wire for MidiConfig {
    open spec fn wire(&self) -> Seq<u8> {
        self.outs.wire()
    }

    open spec fn same(&self, other: &Self) -> bool {
        self.outs.same(&other.outs)
    }

    fn encode(&self, out: &mut Vec<u8>) {
        let ghost start = out@;
        self.outs.encode(out);
        assert(out@ =~= start + self.wire());
    }

    fn decode(s: &[u8], pos: usize) -> (r: Option<(Self, usize)>) {
        broadcast use lemma_occurs_concat_auto;

        let (f0, p1) = match <[MidiOutConfig; 3] as Wire>::decode(s, pos) {
            Some(x) => x,
            None => return None,
        };
        Some((MidiConfig { outs: f0 }, p1))
    }
}

impl Wire for ClockConfig {
    open spec fn wire(&self) -> Seq<u8> {
        self.clock_src.wire() + self.ext_ppqn.wire() + self.reset_src.wire() + self.internal_bpm.wire()
    }

    open spec fn same(&self, other: &Self) -> bool {
        self.clock_src.same(&other.clock_src) && self.ext_ppqn.same(&other.ext_ppqn) && self.reset_src.same(&other.reset_src) && self.internal_bpm.same(&other.internal_bpm)
    }

    fn encode(&self, out: &mut Vec<u8>) {
        let ghost start = out@;
        self.clock_src.encode(out);
        self.ext_ppqn.encode(out);
        self.reset_src.encode(out);
        self.internal_bpm.encode(out);
        assert(out@ =~= start + self.wire());
    }

    fn decode(s: &[u8], pos: usize) -> (r: Option<(Self, usize)>) {
        broadcast use lemma_occurs_concat_auto;

        let (f0, p1) = match <ClockSrc as Wire>::decode(s, pos) {
            Some(x) => x,
            None => return None,
        };
        let (f1, p2) = match <u8 as Wire>::decode(s, p1) {
            Some(x) => x,
            None => return None,
        };
        let (f2, p3) = match <ResetSrc as Wire>::decode(s, p2) {
            Some(x) => x,
            None => return None,
        };
        let (f3, p4) = match <F32Bits as Wire>::decode(s, p3) {
            Some(x) => x,
            None => return None,
        };
        Some((ClockConfig { clock_src: f0, ext_ppqn: f1, reset_src: f2, internal_bpm: f3 }, p4))
    }
}

impl Wire for QuantizerConfig {
    open spec fn wire(&self) -> Seq<u8> {
        self.key.wire() + self.tonic.wire()
    }

    open spec fn same(&self, other: &Self) -> bool {
        self.key.same(&other.key) && self.tonic.same(&other.tonic)
    }

    fn encode(&self, out: &mut Vec<u8>) {
        let ghost start = out@;
        self.key.encode(out);
        self.tonic.encode(out);
        assert(out@ =~= start + self.wire());
    }

    fn decode(s: &[u8], pos: usize) -> (r: Option<(Self, usize)>) {
        broadcast use lemma_occurs_concat_auto;

        let (f0, p1) = match <Key as Wire>::decode(s, pos) {
            Some(x) => x,
            None => return None,
        };
        let (f1, p2) = match <Note as Wire>::decode(s, p1) {
            Some(x) => x,
            None => return None,
        };
        Some((QuantizerConfig { key: f0, tonic: f1 }, p2))
    }
}

impl Wire for GlobalConfig {
    open spec fn wire(&self) -> Seq<u8> {
        self.aux.wire() + self.clock.wire() + self.i2c_mode.wire() + self.led_brightness.wire() + self.midi.wire() + self.quantizer.wire() + self.takeover_mode.wire()
    }

    open spec fn same(&self, other: &Self) -> bool {
        self.aux.same(&other.aux) && self.clock.same(&other.clock) && self.i2c_mode.same(&other.i2c_mode) && self.led_brightness.same(&other.led_brightness) && self.midi.same(&other.midi) && self.quantizer.same(&other.quantizer) && self.takeover_mode.same(&other.takeover_mode)
    }

    fn encode(&self, out: &mut Vec<u8>) {
        let ghost start = out@;
        self.aux.encode(out);
        self.clock.encode(out);
        self.i2c_mode.encode(out);
        self.led_brightness.encode(out);
        self.midi.encode(out);
        self.quantizer.encode(out);
        self.takeover_mode.encode(out);
        assert(out@ =~= start + self.wire());
    }

    #[verifier::rlimit(40)]
    fn decode(s: &[u8], pos: usize) -> (r: Option<(Self, usize)>) {
        broadcast use lemma_occurs_concat_auto;

        let (f0, p1) = match <[AuxJackMode; 3] as Wire>::decode(s, pos) {
            Some(x) => x,
            None => return None,
        };
        let (f1, p2) = match <ClockConfig as Wire>::decode(s, p1) {
            Some(x) => x,
            None => return None,
        };
        let (f2, p3) = match <I2cMode as Wire>::decode(s, p2) {
            Some(x) => x,
            None => return None,
        };
        let (f3, p4) = match <u8 as Wire>::decode(s, p3) {
            Some(x) => x,
            None => return None,
        };
        let (f4, p5) = match <MidiConfig as Wire>::decode(s, p4) {
            Some(x) => x,
            None => return None,
        };
        let (f5, p6) = match <QuantizerConfig as Wire>::decode(s, p5) {
            Some(x) => x,
            None => return None,
        };
        let (f6, p7) = match <TakeoverMode as Wire>::decode(s, p6) {
            Some(x) => x,
            None => return None,
        };
        Some((GlobalConfig { aux: f0, clock: f1, i2c_mode: f2, led_brightness: f3, midi: f4, quantizer: f5, takeover_mode: f6 }, p7))
    }
}

impl Wire for Layout {
    open spec fn wire(&self) -> Seq<u8> {
        self.0.wire()
    }

    open spec fn same(&self, other: &Self) -> bool {
        self.0.same(&other.0)
    }

    fn encode(&self, out: &mut Vec<u8>) {
        let ghost start = out@;
        self.0.encode(out);
        assert(out@ =~= start + self.wire());
    }

    fn decode(s: &[u8], pos: usize) -> (r: Option<(Self, usize)>) {
        broadcast use lemma_occurs_concat_auto;

        let (f0, p1) = match <[Option<Slot>; 16] as Wire>::decode(s, pos) {
            Some(x) => x,
            None => return None,
        };
        Some((Layout(f0), p1))
    }
}

impl Value {
    /// Declaration index of the variant.
    pub open spec fn variant_index(&self) -> nat {
        match self {
            Value::Int(_a0) => 0,
            Value::Float(_a0) => 1,
            Value::Bool(_a0) => 2,
            Value::Enum(_a0) => 3,
            Value::Curve(_a0) => 4,
            Value::Waveform(_a0) => 5,
            Value::Color(_a0) => 6,
            Value::Range(_a0) => 7,
            Value::Note(_a0) => 8,
            Value::MidiCc(_a0) => 9,
            Value::MidiChannel(_a0) => 10,
            Value::MidiIn(_a0) => 11,
            Value::MidiMode(_a0) => 12,
            Value::MidiNote(_a0) => 13,
            Value::MidiOut(_a0) => 14,
        }
    }

    /// Encoding of the variant's fields.
    pub open spec fn payload_wire(&self) -> Seq<u8> {
        match self {
            Value::Int(a0) => a0.wire(),
            Value::Float(a0) => a0.wire(),
            Value::Bool(a0) => a0.wire(),
            Value::Enum(a0) => a0.wire(),
            Value::Curve(a0) => a0.wire(),
            Value::Waveform(a0) => a0.wire(),
            Value::Color(a0) => a0.wire(),
            Value::Range(a0) => a0.wire(),
            Value::Note(a0) => a0.wire(),
            Value::MidiCc(a0) => a0.wire(),
            Value::MidiChannel(a0) => a0.wire(),
            Value::MidiIn(a0) => a0.wire(),
            Value::MidiMode(a0) => a0.wire(),
            Value::MidiNote(a0) => a0.wire(),
            Value::MidiOut(a0) => a0.wire(),
        }
    }
}

impl Wire for Value {
    open spec fn wire(&self) -> Seq<u8> {
        varint(self.variant_index()) + self.payload_wire()
    }

    open spec fn same(&self, other: &Self) -> bool {
        match (self, other) {
            (Value::Int(a0), Value::Int(b0)) => a0.same(b0),
            (Value::Float(a0), Value::Float(b0)) => a0.same(b0),
            (Value::Bool(a0), Value::Bool(b0)) => a0.same(b0),
            (Value::Enum(a0), Value::Enum(b0)) => a0.same(b0),
            (Value::Curve(a0), Value::Curve(b0)) => a0.same(b0),
            (Value::Waveform(a0), Value::Waveform(b0)) => a0.same(b0),
            (Value::Color(a0), Value::Color(b0)) => a0.same(b0),
            (Value::Range(a0), Value::Range(b0)) => a0.same(b0),
            (Value::Note(a0), Value::Note(b0)) => a0.same(b0),
            (Value::MidiCc(a0), Value::MidiCc(b0)) => a0.same(b0),
            (Value::MidiChannel(a0), Value::MidiChannel(b0)) => a0.same(b0),
            (Value::MidiIn(a0), Value::MidiIn(b0)) => a0.same(b0),
            (Value::MidiMode(a0), Value::MidiMode(b0)) => a0.same(b0),
            (Value::MidiNote(a0), Value::MidiNote(b0)) => a0.same(b0),
            (Value::MidiOut(a0), Value::MidiOut(b0)) => a0.same(b0),
            _ => false,
        }
    }

    fn encode(&self, out: &mut Vec<u8>) {
        let ghost start = out@;
        match self {
            Value::Int(a0) => {
                encode_varint(0, out);
                a0.encode(out);
            },
            Value::Float(a0) => {
                encode_varint(1, out);
                a0.encode(out);
            },
            Value::Bool(a0) => {
                encode_varint(2, out);
                a0.encode(out);
            },
            Value::Enum(a0) => {
                encode_varint(3, out);
                a0.encode(out);
            },
            Value::Curve(a0) => {
                encode_varint(4, out);
                a0.encode(out);
            },
            Value::Waveform(a0) => {
                encode_varint(5, out);
                a0.encode(out);
            },
            Value::Color(a0) => {
                encode_varint(6, out);
                a0.encode(out);
            },
            Value::Range(a0) => {
                encode_varint(7, out);
                a0.encode(out);
            },
            Value::Note(a0) => {
                encode_varint(8, out);
                a0.encode(out);
            },
            Value::MidiCc(a0) => {
                encode_varint(9, out);
                a0.encode(out);
            },
            Value::MidiChannel(a0) => {
                encode_varint(10, out);
                a0.encode(out);
            },
            Value::MidiIn(a0) => {
                encode_varint(11, out);
                a0.encode(out);
            },
            Value::MidiMode(a0) => {
                encode_varint(12, out);
                a0.encode(out);
            },
            Value::MidiNote(a0) => {
                encode_varint(13, out);
                a0.encode(out);
            },
            Value::MidiOut(a0) => {
                encode_varint(14, out);
                a0.encode(out);
            },
        }
        assert(out@ =~= start + self.wire());
    }

    #[verifier::rlimit(60)]
    fn decode(s: &[u8], pos: usize) -> (r: Option<(Self, usize)>) {
        broadcast use lemma_occurs_concat_auto;

        let (t, p1) = match decode_varint(s, pos, 0xffff_ffff) {
            Some(x) => x,
            None => {
                proof {
                    assert forall|y: Self| !#[trigger] occurs_at(s@, pos as int, y.wire()) by {
                        lemma_occurs_concat(s@, pos as int, varint(y.variant_index()), y.payload_wire());
                    }
                }
                return None;
            },
        };
        proof {
            assert(s@.subrange(p1 as int, p1 as int) =~= Seq::<u8>::empty());
            assert forall|y: Self| #[trigger] occurs_at(s@, pos as int, y.wire()) implies y.variant_index()
                == t && occurs_at(s@, p1 as int, y.payload_wire()) by {
                lemma_occurs_concat(s@, pos as int, varint(y.variant_index()), y.payload_wire());
                lemma_varint_unique(s@, pos as int, y.variant_index(), t as nat);
            }
        }
        if t == 0 {
            let q = p1;
            let (a0, q_1) = match <i32 as Wire>::decode(s, q) {
                Some(x) => x,
                None => return None,
            };
            let x = Value::Int(a0);
            return Some((x, q_1));
        }
        if t == 1 {
            let q = p1;
            let (a0, q_1) = match <F32Bits as Wire>::decode(s, q) {
                Some(x) => x,
                None => return None,
            };
            let x = Value::Float(a0);
            return Some((x, q_1));
        }
        if t == 2 {
            let q = p1;
            let (a0, q_1) = match <bool as Wire>::decode(s, q) {
                Some(x) => x,
                None => return None,
            };
            let x = Value::Bool(a0);
            return Some((x, q_1));
        }
        if t == 3 {
            let q = p1;
            let (a0, q_1) = match <usize as Wire>::decode(s, q) {
                Some(x) => x,
                None => return None,
            };
            let x = Value::Enum(a0);
            return Some((x, q_1));
        }
        if t == 4 {
            let q = p1;
            let (a0, q_1) = match <Curve as Wire>::decode(s, q) {
                Some(x) => x,
                None => return None,
            };
            let x = Value::Curve(a0);
            return Some((x, q_1));
        }
        if t == 5 {
            let q = p1;
            let (a0, q_1) = match <Waveform as Wire>::decode(s, q) {
                Some(x) => x,
                None => return None,
            };
            let x = Value::Waveform(a0);
            return Some((x, q_1));
        }
        if t == 6 {
            let q = p1;
            let (a0, q_1) = match <Color as Wire>::decode(s, q) {
                Some(x) => x,
                None => return None,
            };
            let x = Value::Color(a0);
            return Some((x, q_1));
        }
        if t == 7 {
            let q = p1;
            let (a0, q_1) = match <Range as Wire>::decode(s, q) {
                Some(x) => x,
                None => return None,
            };
            let x = Value::Range(a0);
            return Some((x, q_1));
        }
        if t == 8 {
            let q = p1;
            let (a0, q_1) = match <Note as Wire>::decode(s, q) {
                Some(x) => x,
                None => return None,
            };
            let x = Value::Note(a0);
            return Some((x, q_1));
        }
        if t == 9 {
            let q = p1;
            let (a0, q_1) = match <MidiCc as Wire>::decode(s, q) {
                Some(x) => x,
                None => return None,
            };
            let x = Value::MidiCc(a0);
            return Some((x, q_1));
        }
        if t == 10 {
            let q = p1;
            let (a0, q_1) = match <MidiChannel as Wire>::decode(s, q) {
                Some(x) => x,
                None => return None,
            };
            let x = Value::MidiChannel(a0);
            return Some((x, q_1));
        }
        if t == 11 {
            let q = p1;
            let (a0, q_1) = match <MidiIn as Wire>::decode(s, q) {
                Some(x) => x,
                None => return None,
            };
            let x = Value::MidiIn(a0);
            return Some((x, q_1));
        }
        if t == 12 {
            let q = p1;
            let (a0, q_1) = match <MidiMode as Wire>::decode(s, q) {
                Some(x) => x,
                None => return None,
            };
            let x = Value::MidiMode(a0);
            return Some((x, q_1));
        }
        if t == 13 {
            let q = p1;
            let (a0, q_1) = match <MidiNote as Wire>::decode(s, q) {
                Some(x) => x,
                None => return None,
            };
            let x = Value::MidiNote(a0);
            return Some((x, q_1));
        }
        if t == 14 {
            let q = p1;
            let (a0, q_1) = match <MidiOut as Wire>::decode(s, q) {
                Some(x) => x,
                None => return None,
            };
            let x = Value::MidiOut(a0);
            return Some((x, q_1));
        }
        None
    }
}

impl Param {
    /// Declaration index of the variant.
    pub open spec fn variant_index(&self) -> nat {
        match self {
            Param::Unset => 0,
            Param::Int { name: _a0, min: _a1, max: _a2 } => 1,
            Param::Float { name: _a0, min: _a1, max: _a2 } => 2,
            Param::Bool { name: _a0 } => 3,
            Param::Enum { name: _a0, variants: _a1 } => 4,
            Param::Curve { name: _a0, variants: _a1 } => 5,
            Param::Waveform { name: _a0, variants: _a1 } => 6,
            Param::Color { name: _a0, variants: _a1 } => 7,
            Param::Range { name: _a0, variants: _a1 } => 8,
            Param::Note { name: _a0, variants: _a1 } => 9,
            Param::MidiCc { name: _a0 } => 10,
            Param::MidiChannel { name: _a0 } => 11,
            Param::MidiIn => 12,
            Param::MidiMode => 13,
            Param::MidiNote { name: _a0 } => 14,
            Param::MidiOut => 15,
        }
    }

    /// Encoding of the variant's fields.
    pub open spec fn payload_wire(&self) -> Seq<u8> {
        match self {
            Param::Unset => Seq::empty(),
            Param::Int { name: a0, min: a1, max: a2 } => a0.wire() + a1.wire() + a2.wire(),
            Param::Float { name: a0, min: a1, max: a2 } => a0.wire() + a1.wire() + a2.wire(),
            Param::Bool { name: a0 } => a0.wire(),
            Param::Enum { name: a0, variants: a1 } => a0.wire() + a1.wire(),
            Param::Curve { name: a0, variants: a1 } => a0.wire() + a1.wire(),
            Param::Waveform { name: a0, variants: a1 } => a0.wire() + a1.wire(),
            Param::Color { name: a0, variants: a1 } => a0.wire() + a1.wire(),
            Param::Range { name: a0, variants: a1 } => a0.wire() + a1.wire(),
            Param::Note { name: a0, variants: a1 } => a0.wire() + a1.wire(),
            Param::MidiCc { name: a0 } => a0.wire(),
            Param::MidiChannel { name: a0 } => a0.wire(),
            Param::MidiIn => Seq::empty(),
            Param::MidiMode => Seq::empty(),
            Param::MidiNote { name: a0 } => a0.wire(),
            Param::MidiOut => Seq::empty(),
        }
    }
}

impl Wire for Param {
    open spec fn wire(&self) -> Seq<u8> {
        varint(self.variant_index()) + self.payload_wire()
    }

    open spec fn same(&self, other: &Self) -> bool {
        match (self, other) {
            (Param::Unset, Param::Unset) => true,
            (Param::Int { name: a0, min: a1, max: a2 }, Param::Int { name: b0, min: b1, max: b2 }) => a0.same(b0) && a1.same(b1) && a2.same(b2),
            (Param::Float { name: a0, min: a1, max: a2 }, Param::Float { name: b0, min: b1, max: b2 }) => a0.same(b0) && a1.same(b1) && a2.same(b2),
            (Param::Bool { name: a0 }, Param::Bool { name: b0 }) => a0.same(b0),
            (Param::Enum { name: a0, variants: a1 }, Param::Enum { name: b0, variants: b1 }) => a0.same(b0) && a1.same(b1),
            (Param::Curve { name: a0, variants: a1 }, Param::Curve { name: b0, variants: b1 }) => a0.same(b0) && a1.same(b1),
            (Param::Waveform { name: a0, variants: a1 }, Param::Waveform { name: b0, variants: b1 }) => a0.same(b0) && a1.same(b1),
            (Param::Color { name: a0, variants: a1 }, Param::Color { name: b0, variants: b1 }) => a0.same(b0) && a1.same(b1),
            (Param::Range { name: a0, variants: a1 }, Param::Range { name: b0, variants: b1 }) => a0.same(b0) && a1.same(b1),
            (Param::Note { name: a0, variants: a1 }, Param::Note { name: b0, variants: b1 }) => a0.same(b0) && a1.same(b1),
            (Param::MidiCc { name: a0 }, Param::MidiCc { name: b0 }) => a0.same(b0),
            (Param::MidiChannel { name: a0 }, Param::MidiChannel { name: b0 }) => a0.same(b0),
            (Param::MidiIn, Param::MidiIn) => true,
            (Param::MidiMode, Param::MidiMode) => true,
            (Param::MidiNote { name: a0 }, Param::MidiNote { name: b0 }) => a0.same(b0),
            (Param::MidiOut, Param::MidiOut) => true,
            _ => false,
        }
    }

    fn encode(&self, out: &mut Vec<u8>) {
        let ghost start = out@;
        match self {
            Param::Unset => {
                encode_varint(0, out);
            },
            Param::Int { name: a0, min: a1, max: a2 } => {
                encode_varint(1, out);
                a0.encode(out);
                a1.encode(out);
                a2.encode(out);
            },
            Param::Float { name: a0, min: a1, max: a2 } => {
                encode_varint(2, out);
                a0.encode(out);
                a1.encode(out);
                a2.encode(out);
            },
            Param::Bool { name: a0 } => {
                encode_varint(3, out);
                a0.encode(out);
            },
            Param::Enum { name: a0, variants: a1 } => {
                encode_varint(4, out);
                a0.encode(out);
                a1.encode(out);
            },
            Param::Curve { name: a0, variants: a1 } => {
                encode_varint(5, out);
                a0.encode(out);
                a1.encode(out);
            },
            Param::Waveform { name: a0, variants: a1 } => {
                encode_varint(6, out);
                a0.encode(out);
                a1.encode(out);
            },
            Param::Color { name: a0, variants: a1 } => {
                encode_varint(7, out);
                a0.encode(out);
                a1.encode(out);
            },
            Param::Range { name: a0, variants: a1 } => {
                encode_varint(8, out);
                a0.encode(out);
                a1.encode(out);
            },
            Param::Note { name: a0, variants: a1 } => {
                encode_varint(9, out);
                a0.encode(out);
                a1.encode(out);
            },
            Param::MidiCc { name: a0 } => {
                encode_varint(10, out);
                a0.encode(out);
            },
            Param::MidiChannel { name: a0 } => {
                encode_varint(11, out);
                a0.encode(out);
            },
            Param::MidiIn => {
                encode_varint(12, out);
            },
            Param::MidiMode => {
                encode_varint(13, out);
            },
            Param::MidiNote { name: a0 } => {
                encode_varint(14, out);
                a0.encode(out);
            },
            Param::MidiOut => {
                encode_varint(15, out);
            },
        }
        assert(out@ =~= start + self.wire());
    }

    #[verifier::rlimit(80)]
    fn decode(s: &[u8], pos: usize) -> (r: Option<(Self, usize)>) {
        broadcast use lemma_occurs_concat_auto;

        let (t, p1) = match decode_varint(s, pos, 0xffff_ffff) {
            Some(x) => x,
            None => {
                proof {
                    assert forall|y: Self| !#[trigger] occurs_at(s@, pos as int, y.wire()) by {
                        lemma_occurs_concat(s@, pos as int, varint(y.variant_index()), y.payload_wire());
                    }
                }
                return None;
            },
        };
        proof {
            assert(s@.subrange(p1 as int, p1 as int) =~= Seq::<u8>::empty());
            assert forall|y: Self| #[trigger] occurs_at(s@, pos as int, y.wire()) implies y.variant_index()
                == t && occurs_at(s@, p1 as int, y.payload_wire()) by {
                lemma_occurs_concat(s@, pos as int, varint(y.variant_index()), y.payload_wire());
                lemma_varint_unique(s@, pos as int, y.variant_index(), t as nat);
            }
        }
        if t == 0 {
            return Some((Param::Unset, p1));
        }
        if t == 1 {
            let q = p1;
            let (a0, q_1) = match <String as Wire>::decode(s, q) {
                Some(x) => x,
                None => return None,
            };
            let (a1, q_2) = match <i32 as Wire>::decode(s, q_1) {
                Some(x) => x,
                None => return None,
            };
            let (a2, q_3) = match <i32 as Wire>::decode(s, q_2) {
                Some(x) => x,
                None => return None,
            };
            let x = Param::Int { name: a0, min: a1, max: a2 };
            return Some((x, q_3));
        }
        if t == 2 {
            let q = p1;
            let (a0, q_1) = match <String as Wire>::decode(s, q) {
                Some(x) => x,
                None => return None,
            };
            let (a1, q_2) = match <F32Bits as Wire>::decode(s, q_1) {
                Some(x) => x,
                None => return None,
            };
            let (a2, q_3) = match <F32Bits as Wire>::decode(s, q_2) {
                Some(x) => x,
                None => return None,
            };
            let x = Param::Float { name: a0, min: a1, max: a2 };
            return Some((x, q_3));
        }
        if t == 3 {
            let q = p1;
            let (a0, q_1) = match <String as Wire>::decode(s, q) {
                Some(x) => x,
                None => return None,
            };
            let x = Param::Bool { name: a0 };
            return Some((x, q_1));
        }
        if t == 4 {
            let q = p1;
            let (a0, q_1) = match <String as Wire>::decode(s, q) {
                Some(x) => x,
                None => return None,
            };
            let (a1, q_2) = match <Vec<String> as Wire>::decode(s, q_1) {
                Some(x) => x,
                None => return None,
            };
            let x = Param::Enum { name: a0, variants: a1 };
            return Some((x, q_2));
        }
        if t == 5 {
            let q = p1;
            let (a0, q_1) = match <String as Wire>::decode(s, q) {
                Some(x) => x,
                None => return None,
            };
            let (a1, q_2) = match <Vec<Curve> as Wire>::decode(s, q_1) {
                Some(x) => x,
                None => return None,
            };
            let x = Param::Curve { name: a0, variants: a1 };
            return Some((x, q_2));
        }
        if t == 6 {
            let q = p1;
            let (a0, q_1) = match <String as Wire>::decode(s, q) {
                Some(x) => x,
                None => return None,
            };
            let (a1, q_2) = match <Vec<Waveform> as Wire>::decode(s, q_1) {
                Some(x) => x,
                None => return None,
            };
            let x = Param::Waveform { name: a0, variants: a1 };
            return Some((x, q_2));
        }
        if t == 7 {
            let q = p1;
            let (a0, q_1) = match <String as Wire>::decode(s, q) {
                Some(x) => x,
                None => return None,
            };
            let (a1, q_2) = match <Vec<Color> as Wire>::decode(s, q_1) {
                Some(x) => x,
                None => return None,
            };
            let x = Param::Color { name: a0, variants: a1 };
            return Some((x, q_2));
        }
        if t == 8 {
            let q = p1;
            let (a0, q_1) = match <String as Wire>::decode(s, q) {
                Some(x) => x,
                None => return None,
            };
            let (a1, q_2) = match <Vec<Range> as Wire>::decode(s, q_1) {
                Some(x) => x,
                None => return None,
            };
            let x = Param::Range { name: a0, variants: a1 };
            return Some((x, q_2));
        }
        if t == 9 {
            let q = p1;
            let (a0, q_1) = match <String as Wire>::decode(s, q) {
                Some(x) => x,
                None => return None,
            };
            let (a1, q_2) = match <Vec<Note> as Wire>::decode(s, q_1) {
                Some(x) => x,
                None => return None,
            };
            let x = Param::Note { name: a0, variants: a1 };
            return Some((x, q_2));
        }
        if t == 10 {
            let q = p1;
            let (a0, q_1) = match <String as Wire>::decode(s, q) {
                Some(x) => x,
                None => return None,
            };
            let x = Param::MidiCc { name: a0 };
            return Some((x, q_1));
        }
        if t == 11 {
            let q = p1;
            let (a0, q_1) = match <String as Wire>::decode(s, q) {
                Some(x) => x,
                None => return None,
            };
            let x = Param::MidiChannel { name: a0 };
            return Some((x, q_1));
        }
        if t == 12 {
            return Some((Param::MidiIn, p1));
        }
        if t == 13 {
            return Some((Param::MidiMode, p1));
        }
        if t == 14 {
            let q = p1;
            let (a0, q_1) = match <String as Wire>::decode(s, q) {
                Some(x) => x,
                None => return None,
            };
            let x = Param::MidiNote { name: a0 };
            return Some((x, q_1));
        }
        if t == 15 {
            return Some((Param::MidiOut, p1));
        }
        None
    }
}

impl Wire for AppDetails {
    open spec fn wire(&self) -> Seq<u8> {
        self.param_count.wire() + self.name.wire() + self.description.wire() + self.color.wire() + self.icon.wire() + self.params.wire()
    }

    open spec fn same(&self, other: &Self) -> bool {
        self.param_count.same(&other.param_count) && self.name.same(&other.name) && self.description.same(&other.description) && self.color.same(&other.color) && self.icon.same(&other.icon) && self.params.same(&other.params)
    }

    fn encode(&self, out: &mut Vec<u8>) {
        let ghost start = out@;
        self.param_count.encode(out);
        self.name.encode(out);
        self.description.encode(out);
        self.color.encode(out);
        self.icon.encode(out);
        self.params.encode(out);
        assert(out@ =~= start + self.wire());
    }

    #[verifier::rlimit(40)]
    fn decode(s: &[u8], pos: usize) -> (r: Option<(Self, usize)>) {
        broadcast use lemma_occurs_concat_auto;

        let (f0, p1) = match <usize as Wire>::decode(s, pos) {
            Some(x) => x,
            None => return None,
        };
        let (f1, p2) = match <String as Wire>::decode(s, p1) {
            Some(x) => x,
            None => return None,
        };
        let (f2, p3) = match <String as Wire>::decode(s, p2) {
            Some(x) => x,
            None => return None,
        };
        let (f3, p4) = match <Color as Wire>::decode(s, p3) {
            Some(x) => x,
            None => return None,
        };
        let (f4, p5) = match <AppIcon as Wire>::decode(s, p4) {
            Some(x) => x,
            None => return None,
        };
        let (f5, p6) = match <Vec<Param> as Wire>::decode(s, p5) {
            Some(x) => x,
            None => return None,
        };
        Some((AppDetails { param_count: f0, name: f1, description: f2, color: f3, icon: f4, params: f5 }, p6))
    }
}

impl ConfigMsgIn {
    /// Declaration index of the variant.
    pub open spec fn variant_index(&self) -> nat {
        match self {
            ConfigMsgIn::Ping => 0,
            ConfigMsgIn::GetAllApps => 1,
            ConfigMsgIn::GetGlobalConfig => 2,
            ConfigMsgIn::SetGlobalConfig(_a0) => 3,
            ConfigMsgIn::GetLayout => 4,
            ConfigMsgIn::SetLayout(_a0) => 5,
            ConfigMsgIn::GetAllAppParams => 6,
            ConfigMsgIn::GetAppParams { layout_id: _a0 } => 7,
            ConfigMsgIn::SetAppParams { layout_id: _a0, values: _a1 } => 8,
            ConfigMsgIn::FactoryReset => 9,
        }
    }

    /// Encoding of the variant's fields.
    pub open spec fn payload_wire(&self) -> Seq<u8> {
        match self {
            ConfigMsgIn::Ping => Seq::empty(),
            ConfigMsgIn::GetAllApps => Seq::empty(),
            ConfigMsgIn::GetGlobalConfig => Seq::empty(),
            ConfigMsgIn::SetGlobalConfig(a0) => a0.wire(),
            ConfigMsgIn::GetLayout => Seq::empty(),
            ConfigMsgIn::SetLayout(a0) => a0.wire(),
            ConfigMsgIn::GetAllAppParams => Seq::empty(),
            ConfigMsgIn::GetAppParams { layout_id: a0 } => a0.wire(),
            ConfigMsgIn::SetAppParams { layout_id: a0, values: a1 } => a0.wire() + a1.wire(),
            ConfigMsgIn::FactoryReset => Seq::empty(),
        }
    }
}

impl Wire for ConfigMsgIn {
    open spec fn wire(&self) -> Seq<u8> {
        varint(self.variant_index()) + self.payload_wire()
    }

    open spec fn same(&self, other: &Self) -> bool {
        match (self, other) {
            (ConfigMsgIn::Ping, ConfigMsgIn::Ping) => true,
            (ConfigMsgIn::GetAllApps, ConfigMsgIn::GetAllApps) => true,
            (ConfigMsgIn::GetGlobalConfig, ConfigMsgIn::GetGlobalConfig) => true,
            (ConfigMsgIn::SetGlobalConfig(a0), ConfigMsgIn::SetGlobalConfig(b0)) => a0.same(b0),
            (ConfigMsgIn::GetLayout, ConfigMsgIn::GetLayout) => true,
            (ConfigMsgIn::SetLayout(a0), ConfigMsgIn::SetLayout(b0)) => a0.same(b0),
            (ConfigMsgIn::GetAllAppParams, ConfigMsgIn::GetAllAppParams) => true,
            (ConfigMsgIn::GetAppParams { layout_id: a0 }, ConfigMsgIn::GetAppParams { layout_id: b0 }) => a0.same(b0),
            (ConfigMsgIn::SetAppParams { layout_id: a0, values: a1 }, ConfigMsgIn::SetAppParams { layout_id: b0, values: b1 }) => a0.same(b0) && a1.same(b1),
            (ConfigMsgIn::FactoryReset, ConfigMsgIn::FactoryReset) => true,
            _ => false,
        }
    }

    fn encode(&self, out: &mut Vec<u8>) {
        let ghost start = out@;
        match self {
            ConfigMsgIn::Ping => {
                encode_varint(0, out);
            },
            ConfigMsgIn::GetAllApps => {
                encode_varint(1, out);
            },
            ConfigMsgIn::GetGlobalConfig => {
                encode_varint(2, out);
            },
            ConfigMsgIn::SetGlobalConfig(a0) => {
                encode_varint(3, out);
                a0.encode(out);
            },
            ConfigMsgIn::GetLayout => {
                encode_varint(4, out);
            },
            ConfigMsgIn::SetLayout(a0) => {
                encode_varint(5, out);
                a0.encode(out);
            },
            ConfigMsgIn::GetAllAppParams => {
                encode_varint(6, out);
            },
            ConfigMsgIn::GetAppParams { layout_id: a0 } => {
                encode_varint(7, out);
                a0.encode(out);
            },
            ConfigMsgIn::SetAppParams { layout_id: a0, values: a1 } => {
                encode_varint(8, out);
                a0.encode(out);
                a1.encode(out);
            },
            ConfigMsgIn::FactoryReset => {
                encode_varint(9, out);
            },
        }
        assert(out@ =~= start + self.wire());
    }

    #[verifier::rlimit(60)]
    fn decode(s: &[u8], pos: usize) -> (r: Option<(Self, usize)>) {
        broadcast use lemma_occurs_concat_auto;

        let (t, p1) = match decode_varint(s, pos, 0xffff_ffff) {
            Some(x) => x,
            None => {
                proof {
                    assert forall|y: Self| !#[trigger] occurs_at(s@, pos as int, y.wire()) by {
                        lemma_occurs_concat(s@, pos as int, varint(y.variant_index()), y.payload_wire());
                    }
                }
                return None;
            },
        };
        proof {
            assert(s@.subrange(p1 as int, p1 as int) =~= Seq::<u8>::empty());
            assert forall|y: Self| #[trigger] occurs_at(s@, pos as int, y.wire()) implies y.variant_index()
                == t && occurs_at(s@, p1 as int, y.payload_wire()) by {
                lemma_occurs_concat(s@, pos as int, varint(y.variant_index()), y.payload_wire());
                lemma_varint_unique(s@, pos as int, y.variant_index(), t as nat);
            }
        }
        if t == 0 {
            return Some((ConfigMsgIn::Ping, p1));
        }
        if t == 1 {
            return Some((ConfigMsgIn::GetAllApps, p1));
        }
        if t == 2 {
            return Some((ConfigMsgIn::GetGlobalConfig, p1));
        }
        if t == 3 {
            let q = p1;
            let (a0, q_1) = match <GlobalConfig as Wire>::decode(s, q) {
                Some(x) => x,
                None => return None,
            };
            let x = ConfigMsgIn::SetGlobalConfig(a0);
            return Some((x, q_1));
        }
        if t == 4 {
            return Some((ConfigMsgIn::GetLayout, p1));
        }
        if t == 5 {
            let q = p1;
            let (a0, q_1) = match <Layout as Wire>::decode(s, q) {
                Some(x) => x,
                None => return None,
            };
            let x = ConfigMsgIn::SetLayout(a0);
            return Some((x, q_1));
        }
        if t == 6 {
            return Some((ConfigMsgIn::GetAllAppParams, p1));
        }
        if t == 7 {
            let q = p1;
            let (a0, q_1) = match <u8 as Wire>::decode(s, q) {
                Some(x) => x,
                None => return None,
            };
            let x = ConfigMsgIn::GetAppParams { layout_id: a0 };
            return Some((x, q_1));
        }
        if t == 8 {
            let q = p1;
            let (a0, q_1) = match <u8 as Wire>::decode(s, q) {
                Some(x) => x,
                None => return None,
            };
            let (a1, q_2) = match <[Option<Value>; 16] as Wire>::decode(s, q_1) {
                Some(x) => x,
                None => return None,
            };
            let x = ConfigMsgIn::SetAppParams { layout_id: a0, values: a1 };
            return Some((x, q_2));
        }
        if t == 9 {
            return Some((ConfigMsgIn::FactoryReset, p1));
        }
        None
    }
}

impl ConfigMsgOut {
    /// Declaration index of the variant.
    pub open spec fn variant_index(&self) -> nat {
        match self {
            ConfigMsgOut::Pong => 0,
            ConfigMsgOut::BatchMsgStart(_a0) => 1,
            ConfigMsgOut::BatchMsgEnd => 2,
            ConfigMsgOut::GlobalConfig(_a0) => 3,
            ConfigMsgOut::Layout(_a0) => 4,
            ConfigMsgOut::AppConfig(_a0, _a1, _a2) => 5,
            ConfigMsgOut::AppState(_a0, _a1) => 6,
        }
    }

    /// Encoding of the variant's fields.
    pub open spec fn payload_wire(&self) -> Seq<u8> {
        match self {
            ConfigMsgOut::Pong => Seq::empty(),
            ConfigMsgOut::BatchMsgStart(a0) => a0.wire(),
            ConfigMsgOut::BatchMsgEnd => Seq::empty(),
            ConfigMsgOut::GlobalConfig(a0) => a0.wire(),
            ConfigMsgOut::Layout(a0) => a0.wire(),
            ConfigMsgOut::AppConfig(a0, a1, a2) => a0.wire() + a1.wire() + a2.wire(),
            ConfigMsgOut::AppState(a0, a1) => a0.wire() + a1.wire(),
        }
    }
}

impl Wire for ConfigMsgOut {
    open spec fn wire(&self) -> Seq<u8> {
        varint(self.variant_index()) + self.payload_wire()
    }

    open spec fn same(&self, other: &Self) -> bool {
        match (self, other) {
            (ConfigMsgOut::Pong, ConfigMsgOut::Pong) => true,
            (ConfigMsgOut::BatchMsgStart(a0), ConfigMsgOut::BatchMsgStart(b0)) => a0.same(b0),
            (ConfigMsgOut::BatchMsgEnd, ConfigMsgOut::BatchMsgEnd) => true,
            (ConfigMsgOut::GlobalConfig(a0), ConfigMsgOut::GlobalConfig(b0)) => a0.same(b0),
            (ConfigMsgOut::Layout(a0), ConfigMsgOut::Layout(b0)) => a0.same(b0),
            (ConfigMsgOut::AppConfig(a0, a1, a2), ConfigMsgOut::AppConfig(b0, b1, b2)) => a0.same(b0) && a1.same(b1) && a2.same(b2),
            (ConfigMsgOut::AppState(a0, a1), ConfigMsgOut::AppState(b0, b1)) => a0.same(b0) && a1.same(b1),
            _ => false,
        }
    }

    fn encode(&self, out: &mut Vec<u8>) {
        let ghost start = out@;
        match self {
            ConfigMsgOut::Pong => {
                encode_varint(0, out);
            },
            ConfigMsgOut::BatchMsgStart(a0) => {
                encode_varint(1, out);
                a0.encode(out);
            },
            ConfigMsgOut::BatchMsgEnd => {
                encode_varint(2, out);
            },
            ConfigMsgOut::GlobalConfig(a0) => {
                encode_varint(3, out);
                a0.encode(out);
            },
            ConfigMsgOut::Layout(a0) => {
                encode_varint(4, out);
                a0.encode(out);
            },
            ConfigMsgOut::AppConfig(a0, a1, a2) => {
                encode_varint(5, out);
                a0.encode(out);
                a1.encode(out);
                a2.encode(out);
            },
            ConfigMsgOut::AppState(a0, a1) => {
                encode_varint(6, out);
                a0.encode(out);
                a1.encode(out);
            },
        }
        assert(out@ =~= start + self.wire());
    }

    #[verifier::rlimit(60)]
    fn decode(s: &[u8], pos: usize) -> (r: Option<(Self, usize)>) {
        broadcast use lemma_occurs_concat_auto;

        let (t, p1) = match decode_varint(s, pos, 0xffff_ffff) {
            Some(x) => x,
            None => {
                proof {
                    assert forall|y: Self| !#[trigger] occurs_at(s@, pos as int, y.wire()) by {
                        lemma_occurs_concat(s@, pos as int, varint(y.variant_index()), y.payload_wire());
                    }
                }
                return None;
            },
        };
        proof {
            assert(s@.subrange(p1 as int, p1 as int) =~= Seq::<u8>::empty());
            assert forall|y: Self| #[trigger] occurs_at(s@, pos as int, y.wire()) implies y.variant_index()
                == t && occurs_at(s@, p1 as int, y.payload_wire()) by {
                lemma_occurs_concat(s@, pos as int, varint(y.variant_index()), y.payload_wire());
                lemma_varint_unique(s@, pos as int, y.variant_index(), t as nat);
            }
        }
        if t == 0 {
            return Some((ConfigMsgOut::Pong, p1));
        }
        if t == 1 {
            let q = p1;
            let (a0, q_1) = match <usize as Wire>::decode(s, q) {
                Some(x) => x,
                None => return None,
            };
            let x = ConfigMsgOut::BatchMsgStart(a0);
            return Some((x, q_1));
        }
        if t == 2 {
            return Some((ConfigMsgOut::BatchMsgEnd, p1));
        }
        if t == 3 {
            let q = p1;
            let (a0, q_1) = match <GlobalConfig as Wire>::decode(s, q) {
                Some(x) => x,
                None => return None,
            };
            let x = ConfigMsgOut::GlobalConfig(a0);
            return Some((x, q_1));
        }
        if t == 4 {
            let q = p1;
            let (a0, q_1) = match <Layout as Wire>::decode(s, q) {
                Some(x) => x,
                None => return None,
            };
            let x = ConfigMsgOut::Layout(a0);
            return Some((x, q_1));
        }
        if t == 5 {
            let q = p1;
            let (a0, q_1) = match <u8 as Wire>::decode(s, q) {
                Some(x) => x,
                None => return None,
            };
            let (a1, q_2) = match <usize as Wire>::decode(s, q_1) {
                Some(x) => x,
                None => return None,
            };
            let (a2, q_3) = match <AppDetails as Wire>::decode(s, q_2) {
                Some(x) => x,
                None => return None,
            };
            let x = ConfigMsgOut::AppConfig(a0, a1, a2);
            return Some((x, q_3));
        }
        if t == 6 {
            let q = p1;
            let (a0, q_1) = match <u8 as Wire>::decode(s, q) {
                Some(x) => x,
                None => return None,
            };
            let (a1, q_2) = match <Vec<Value> as Wire>::decode(s, q_1) {
                Some(x) => x,
                None => return None,
            };
            let x = ConfigMsgOut::AppState(a0, a1);
            return Some((x, q_2));
        }
        None
    }
}


// ---------------------------------------------------------------- equality

/// Types whose `same` is plain equality.
pub trait SameIsEq: Wire {
    proof fn lemma_same_is_eq(a: Self, b: Self)
        requires
            a.same(&b),
        ensures
            a == b,
    ;
}

impl SameIsEq for u8 {
    proof fn lemma_same_is_eq(a: Self, b: Self) {
    }
}

impl SameIsEq for bool {
    proof fn lemma_same_is_eq(a: Self, b: Self) {
    }
}

impl SameIsEq for usize {
    proof fn lemma_same_is_eq(a: Self, b: Self) {
    }
}

impl SameIsEq for i32 {
    proof fn lemma_same_is_eq(a: Self, b: Self) {
    }
}

impl SameIsEq for F32Bits {
    proof fn lemma_same_is_eq(a: Self, b: Self) {
    }
}

impl SameIsEq for (u8, usize, u8) {
    proof fn lemma_same_is_eq(a: Self, b: Self) {
    }
}

impl SameIsEq for ClockSrc {
    proof fn lemma_same_is_eq(a: Self, b: Self) {
    }
}

impl SameIsEq for ResetSrc {
    proof fn lemma_same_is_eq(a: Self, b: Self) {
    }
}

impl SameIsEq for I2cMode {
    proof fn lemma_same_is_eq(a: Self, b: Self) {
    }
}

impl SameIsEq for TakeoverMode {
    proof fn lemma_same_is_eq(a: Self, b: Self) {
    }
}

impl SameIsEq for ClockDivision {
    proof fn lemma_same_is_eq(a: Self, b: Self) {
    }
}

impl SameIsEq for Note {
    proof fn lemma_same_is_eq(a: Self, b: Self) {
    }
}

impl SameIsEq for Key {
    proof fn lemma_same_is_eq(a: Self, b: Self) {
    }
}

impl SameIsEq for Curve {
    proof fn lemma_same_is_eq(a: Self, b: Self) {
    }
}

impl SameIsEq for Waveform {
    proof fn lemma_same_is_eq(a: Self, b: Self) {
    }
}

impl SameIsEq for AppIcon {
    proof fn lemma_same_is_eq(a: Self, b: Self) {
    }
}

impl SameIsEq for Range {
    proof fn lemma_same_is_eq(a: Self, b: Self) {
    }
}

impl SameIsEq for MidiMode {
    proof fn lemma_same_is_eq(a: Self, b: Self) {
    }
}

impl<T: SameIsEq> SameIsEq for Option<T> {
    proof fn lemma_same_is_eq(a: Self, b: Self) {
        if let (Some(x), Some(y)) = (a, b) {
            T::lemma_same_is_eq(x, y);
        }
    }
}

impl<T: SameIsEq + Copy> SameIsEq for [T; 2] {
    proof fn lemma_same_is_eq(a: Self, b: Self) {
        assert forall|i: int| 0 <= i < 2 implies a@[i] == b@[i] by {
            assert(a@[i].same(&b@[i]));
            T::lemma_same_is_eq(a@[i], b@[i]);
        }
        assert(a@ =~= b@);
        vstd::array::axiom_array_ext_equal(a, b);
    }
}

impl<T: SameIsEq + Copy> SameIsEq for [T; 3] {
    proof fn lemma_same_is_eq(a: Self, b: Self) {
        assert forall|i: int| 0 <= i < 3 implies a@[i] == b@[i] by {
            assert(a@[i].same(&b@[i]));
            T::lemma_same_is_eq(a@[i], b@[i]);
        }
        assert(a@ =~= b@);
        vstd::array::axiom_array_ext_equal(a, b);
    }
}

impl<T: SameIsEq + Copy> SameIsEq for [T; 16] {
    proof fn lemma_same_is_eq(a: Self, b: Self) {
        assert forall|i: int| 0 <= i < 16 implies a@[i] == b@[i] by {
            assert(a@[i].same(&b@[i]));
            T::lemma_same_is_eq(a@[i], b@[i]);
        }
        assert(a@ =~= b@);
        vstd::array::axiom_array_ext_equal(a, b);
    }
}

impl SameIsEq for MidiCc {
    proof fn lemma_same_is_eq(a: Self, b: Self) {
        <u8 as SameIsEq>::lemma_same_is_eq(a.0, b.0);
    }
}

impl SameIsEq for MidiChannel {
    proof fn lemma_same_is_eq(a: Self, b: Self) {
        <u8 as SameIsEq>::lemma_same_is_eq(a.0, b.0);
    }
}

impl SameIsEq for MidiNote {
    proof fn lemma_same_is_eq(a: Self, b: Self) {
        <u8 as SameIsEq>::lemma_same_is_eq(a.0, b.0);
    }
}

impl SameIsEq for MidiIn {
    proof fn lemma_same_is_eq(a: Self, b: Self) {
        <[bool; 2] as SameIsEq>::lemma_same_is_eq(a.0, b.0);
    }
}

impl SameIsEq for MidiOut {
    proof fn lemma_same_is_eq(a: Self, b: Self) {
        <[bool; 3] as SameIsEq>::lemma_same_is_eq(a.0, b.0);
    }
}

impl SameIsEq for MidiOutConfig {
    proof fn lemma_same_is_eq(a: Self, b: Self) {
        <bool as SameIsEq>::lemma_same_is_eq(a.send_clock, b.send_clock);
        <bool as SameIsEq>::lemma_same_is_eq(a.send_transport, b.send_transport);
        <MidiOutMode as SameIsEq>::lemma_same_is_eq(a.mode, b.mode);
    }
}

impl SameIsEq for MidiConfig {
    proof fn lemma_same_is_eq(a: Self, b: Self) {
        <[MidiOutConfig; 3] as SameIsEq>::lemma_same_is_eq(a.outs, b.outs);
    }
}

impl SameIsEq for ClockConfig {
    proof fn lemma_same_is_eq(a: Self, b: Self) {
        <ClockSrc as SameIsEq>::lemma_same_is_eq(a.clock_src, b.clock_src);
        <u8 as SameIsEq>::lemma_same_is_eq(a.ext_ppqn, b.ext_ppqn);
        <ResetSrc as SameIsEq>::lemma_same_is_eq(a.reset_src, b.reset_src);
        <F32Bits as SameIsEq>::lemma_same_is_eq(a.internal_bpm, b.internal_bpm);
    }
}

impl SameIsEq for QuantizerConfig {
    proof fn lemma_same_is_eq(a: Self, b: Self) {
        <Key as SameIsEq>::lemma_same_is_eq(a.key, b.key);
        <Note as SameIsEq>::lemma_same_is_eq(a.tonic, b.tonic);
    }
}

impl SameIsEq for GlobalConfig {
    proof fn lemma_same_is_eq(a: Self, b: Self) {
        <[AuxJackMode; 3] as SameIsEq>::lemma_same_is_eq(a.aux, b.aux);
        <ClockConfig as SameIsEq>::lemma_same_is_eq(a.clock, b.clock);
        <I2cMode as SameIsEq>::lemma_same_is_eq(a.i2c_mode, b.i2c_mode);
        <u8 as SameIsEq>::lemma_same_is_eq(a.led_brightness, b.led_brightness);
        <MidiConfig as SameIsEq>::lemma_same_is_eq(a.midi, b.midi);
        <QuantizerConfig as SameIsEq>::lemma_same_is_eq(a.quantizer, b.quantizer);
        <TakeoverMode as SameIsEq>::lemma_same_is_eq(a.takeover_mode, b.takeover_mode);
    }
}

impl SameIsEq for Layout {
    proof fn lemma_same_is_eq(a: Self, b: Self) {
        <[Option<Slot>; 16] as SameIsEq>::lemma_same_is_eq(a.0, b.0);
    }
}

impl SameIsEq for Color {
    proof fn lemma_same_is_eq(a: Self, b: Self) {
        match (a, b) {
            (Color::Custom(x0, x1, x2), Color::Custom(y0, y1, y2)) => {
                <u8 as SameIsEq>::lemma_same_is_eq(x0, y0); <u8 as SameIsEq>::lemma_same_is_eq(x1, y1); <u8 as SameIsEq>::lemma_same_is_eq(x2, y2);
            },
            _ => {},
        }
    }
}

impl SameIsEq for AuxJackMode {
    proof fn lemma_same_is_eq(a: Self, b: Self) {
        match (a, b) {
            (AuxJackMode::ClockOut(x0), AuxJackMode::ClockOut(y0)) => {
                <ClockDivision as SameIsEq>::lemma_same_is_eq(x0, y0);
            },
            _ => {},
        }
    }
}

impl SameIsEq for MidiOutMode {
    proof fn lemma_same_is_eq(a: Self, b: Self) {
        match (a, b) {
            (MidiOutMode::MidiThru { sources: x0 }, MidiOutMode::MidiThru { sources: y0 }) => {
                <MidiIn as SameIsEq>::lemma_same_is_eq(x0, y0);
            },
            (MidiOutMode::MidiMerge { sources: x0 }, MidiOutMode::MidiMerge { sources: y0 }) => {
                <MidiIn as SameIsEq>::lemma_same_is_eq(x0, y0);
            },
            _ => {},
        }
    }
}

impl SameIsEq for Value {
    proof fn lemma_same_is_eq(a: Self, b: Self) {
        match (a, b) {
            (Value::Int(x0), Value::Int(y0)) => {
                <i32 as SameIsEq>::lemma_same_is_eq(x0, y0);
            },
            (Value::Float(x0), Value::Float(y0)) => {
                <F32Bits as SameIsEq>::lemma_same_is_eq(x0, y0);
            },
            (Value::Bool(x0), Value::Bool(y0)) => {
                <bool as SameIsEq>::lemma_same_is_eq(x0, y0);
            },
            (Value::Enum(x0), Value::Enum(y0)) => {
                <usize as SameIsEq>::lemma_same_is_eq(x0, y0);
            },
            (Value::Curve(x0), Value::Curve(y0)) => {
                <Curve as SameIsEq>::lemma_same_is_eq(x0, y0);
            },
            (Value::Waveform(x0), Value::Waveform(y0)) => {
                <Waveform as SameIsEq>::lemma_same_is_eq(x0, y0);
            },
            (Value::Color(x0), Value::Color(y0)) => {
                <Color as SameIsEq>::lemma_same_is_eq(x0, y0);
            },
            (Value::Range(x0), Value::Range(y0)) => {
                <Range as SameIsEq>::lemma_same_is_eq(x0, y0);
            },
            (Value::Note(x0), Value::Note(y0)) => {
                <Note as SameIsEq>::lemma_same_is_eq(x0, y0);
            },
            (Value::MidiCc(x0), Value::MidiCc(y0)) => {
                <MidiCc as SameIsEq>::lemma_same_is_eq(x0, y0);
            },
            (Value::MidiChannel(x0), Value::MidiChannel(y0)) => {
                <MidiChannel as SameIsEq>::lemma_same_is_eq(x0, y0);
            },
            (Value::MidiIn(x0), Value::MidiIn(y0)) => {
                <MidiIn as SameIsEq>::lemma_same_is_eq(x0, y0);
            },
            (Value::MidiMode(x0), Value::MidiMode(y0)) => {
                <MidiMode as SameIsEq>::lemma_same_is_eq(x0, y0);
            },
            (Value::MidiNote(x0), Value::MidiNote(y0)) => {
                <MidiNote as SameIsEq>::lemma_same_is_eq(x0, y0);
            },
            (Value::MidiOut(x0), Value::MidiOut(y0)) => {
                <MidiOut as SameIsEq>::lemma_same_is_eq(x0, y0);
            },
            _ => {},
        }
    }
}

impl SameIsEq for ConfigMsgIn {
    proof fn lemma_same_is_eq(a: Self, b: Self) {
        match (a, b) {
            (ConfigMsgIn::SetGlobalConfig(x0), ConfigMsgIn::SetGlobalConfig(y0)) => {
                <GlobalConfig as SameIsEq>::lemma_same_is_eq(x0, y0);
            },
            (ConfigMsgIn::SetLayout(x0), ConfigMsgIn::SetLayout(y0)) => {
                <Layout as SameIsEq>::lemma_same_is_eq(x0, y0);
            },
            (ConfigMsgIn::GetAppParams { layout_id: x0 }, ConfigMsgIn::GetAppParams { layout_id: y0 }) => {
                <u8 as SameIsEq>::lemma_same_is_eq(x0, y0);
            },
            (ConfigMsgIn::SetAppParams { layout_id: x0, values: x1 }, ConfigMsgIn::SetAppParams { layout_id: y0, values: y1 }) => {
                <u8 as SameIsEq>::lemma_same_is_eq(x0, y0); <[Option<Value>; 16] as SameIsEq>::lemma_same_is_eq(x1, y1);
            },
            _ => {},
        }
    }
}

} // verus!
