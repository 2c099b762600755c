//! Decisions of the command-line tool that need no device: slot numbers,
//! layout lookups, and reading user input into protocol values.
use vstd::prelude::*;
use vstd::utf8::encode_utf8;

use crate::protocol::{AppIcon, Color, Layout, Param, Range, Slot, TakeoverMode};
use crate::text::{
    bytes_are, contains_bytes, contains_ignoring_case, has_sub, lower_bytes, lowercase_bytes,
    parse_unsigned, unsigned_value,
};

verus! {

/// What the tool knows of one app kind that the device offers.
#[derive(Clone, Debug, PartialEq)]
pub struct AppInfo {
    pub app_id: u8,
    pub channels: usize,
    pub name: String,
    pub color: Color,
    pub icon: AppIcon,
    pub params: Vec<Param>,
}

/// One occupied range of faders: `size` faders from index `start` on.
#[derive(Clone, Copy, Debug, PartialEq, Eq)]
pub struct LayoutEntry {
    pub start: usize,
    pub size: usize,
    pub app_id: u8,
    pub layout_id: u8,
}

/// Input that the tool rejects.
#[derive(Clone, Copy, Debug, PartialEq, Eq)]
pub enum UsageError {
    /// A fader number outside 1 to 16.
    InvalidSlot(u8),
    /// No app has this id.
    NoAppWithId(u8),
    /// No app name holds the text given.
    NoAppMatching,
    /// Several app names hold the text given.
    AmbiguousApp,
    /// The text names no voltage range.
    UnknownRange,
    /// The text names no MIDI input port.
    NoMidiInPorts,
    /// The text names no MIDI output port.
    NoMidiOutPorts,
}

/// A fader number must lie in 1 to 16.
pub fn validate_slot(slot: u8) -> (r: Result<(), UsageError>)
    ensures
        r is Ok <==> 1 <= slot <= 16,
        r is Err ==> r == Err::<(), UsageError>(UsageError::InvalidSlot(slot)),
{
    if slot < 1 || slot > 16 {
        Err(UsageError::InvalidSlot(slot))
    } else {
        Ok(())
    }
}

/// The occupied slots of `slots`, in slot order.
pub open spec fn entries_of(slots: Seq<Option<Slot>>) -> Seq<LayoutEntry>
    decreases slots.len(),
{
    if slots.len() == 0 {
        Seq::empty()
    } else {
        let rest = entries_of(slots.drop_last());
        match slots.last() {
            Some((app_id, channels, layout_id)) => rest.push(
                LayoutEntry { start: (slots.len() - 1) as usize, size: channels, app_id, layout_id },
            ),
            None => rest,
        }
    }
}

pub fn layout_entries(layout: &Layout) -> (r: Vec<LayoutEntry>)
    ensures
        r@ == entries_of(layout.0@),
{
    let mut out: Vec<LayoutEntry> = Vec::new();
    let mut i: usize = 0;
    while i < 16
        invariant
            i <= 16,
            out@ == entries_of(layout.0@.take(i as int)),
        decreases 16 - i,
    {
        assert(layout.0@.take(i + 1).drop_last() =~= layout.0@.take(i as int));
        if let Some((app_id, channels, layout_id)) = layout.0[i] {
            out.push(LayoutEntry { start: i, size: channels, app_id, layout_id });
        }
        i = i + 1;
    }
    assert(layout.0@.take(16) =~= layout.0@);
    out
}

/// Entry `e` holds fader index `idx`.
pub open spec fn covers(e: LayoutEntry, idx: int) -> bool {
    e.start <= idx < e.start + e.size
}

/// The first entry that holds fader `slot` (counted from 1).
pub fn find_entry_at_slot(entries: &[LayoutEntry], slot: u8) -> (r: Option<&LayoutEntry>)
    requires
        slot >= 1,
    ensures
        match r {
            Some(e) => exists|j: int|
                0 <= j < entries@.len() && *e == entries@[j] && covers(entries@[j], slot - 1)
                    && forall|k: int| 0 <= k < j ==> !covers(#[trigger] entries@[k], slot - 1),
            None => forall|k: int|
                0 <= k < entries@.len() ==> !covers(#[trigger] entries@[k], slot - 1),
        },
{
    let idx = slot as usize - 1;
    let mut i: usize = 0;
    while i < entries.len()
        invariant
            idx == slot - 1,
            i <= entries@.len(),
            forall|k: int| 0 <= k < i ==> !covers(#[trigger] entries@[k], idx as int),
        decreases entries@.len() - i,
    {
        let e = &entries[i];
        if idx >= e.start && idx - e.start < e.size {
            return Some(e);
        }
        i = i + 1;
    }
    None
}

/// The app's name holds `query`, ignoring case.
pub open spec fn name_matches(a: AppInfo, query: Seq<char>) -> bool {
    has_sub(lower_bytes(a.name@), lower_bytes(query))
}

/// How many apps of `apps` have a name that holds `query`.
pub open spec fn count_matches(apps: Seq<AppInfo>, query: Seq<char>) -> nat
    decreases apps.len(),
{
    if apps.len() == 0 {
        0
    } else {
        count_matches(apps.drop_last(), query) + if name_matches(apps.last(), query) {
            1nat
        } else {
            0nat
        }
    }
}

/// The id that `input` spells as a decimal number, if it is one up to 255.
pub open spec fn id_of(input: Seq<char>) -> Option<u8> {
    match unsigned_value(encode_utf8(input)) {
        Some(v) => if v <= 255 {
            Some(v as u8)
        } else {
            None
        },
        None => None,
    }
}

/// Finds the app that `input` designates: by id where it is a number, else
/// by a name that holds it, ignoring case. Gives its id and channel count.
pub fn resolve_app(input: &str, apps: &[AppInfo]) -> (r: Result<(u8, usize), UsageError>)
    ensures
        match id_of(input@) {
            Some(id) => match r {
                Ok((a, c)) => exists|j: int|
                    0 <= j < apps@.len() && apps@[j].app_id == id && a == id && c
                        == apps@[j].channels && forall|k: int|
                        0 <= k < j ==> (#[trigger] apps@[k]).app_id != id,
                Err(e) => e == UsageError::NoAppWithId(id) && forall|k: int|
                    0 <= k < apps@.len() ==> (#[trigger] apps@[k]).app_id != id,
            },
            None => {
                let n = count_matches(apps@, input@);
                &&& n == 0 ==> r == Err::<(u8, usize), UsageError>(UsageError::NoAppMatching)
                &&& n >= 2 ==> r == Err::<(u8, usize), UsageError>(UsageError::AmbiguousApp)
                &&& n == 1 ==> exists|j: int|
                    0 <= j < apps@.len() && name_matches(apps@[j], input@) && r == Ok::<
                        (u8, usize),
                        UsageError,
                    >((apps@[j].app_id, apps@[j].channels))
            },
        },
{
    if let Some(v) = parse_unsigned(input, 255) {
        let id = v as u8;
        let mut i: usize = 0;
        while i < apps.len()
            invariant
                id_of(input@) == Some(id),
                i <= apps@.len(),
                forall|k: int| 0 <= k < i ==> (#[trigger] apps@[k]).app_id != id,
            decreases apps@.len() - i,
        {
            if apps[i].app_id == id {
                return Ok((apps[i].app_id, apps[i].channels));
            }
            i = i + 1;
        }
        return Err(UsageError::NoAppWithId(id));
    }
    let mut count: usize = 0;
    let mut first: usize = 0;
    let mut i: usize = 0;
    while i < apps.len()
        invariant
            i <= apps@.len(),
            count == count_matches(apps@.take(i as int), input@),
            count <= i,
            count > 0 ==> first < i && name_matches(apps@[first as int], input@),
        decreases apps@.len() - i,
    {
        assert(apps@.take(i + 1).drop_last() =~= apps@.take(i as int));
        if contains_ignoring_case(apps[i].name.as_str(), input) {
            if count == 0 {
                first = i;
            }
            count = count + 1;
        }
        i = i + 1;
    }
    assert(apps@.take(i as int) =~= apps@);
    if count == 0 {
        Err(UsageError::NoAppMatching)
    } else if count == 1 {
        Ok((apps[first].app_id, apps[first].channels))
    } else {
        Err(UsageError::AmbiguousApp)
    }
}

/// `b` with its space bytes taken out.
pub open spec fn strip_spaces(b: Seq<u8>) -> Seq<u8>
    decreases b.len(),
{
    if b.len() == 0 {
        b
    } else if b.last() == 32 {
        strip_spaces(b.drop_last())
    } else {
        strip_spaces(b.drop_last()).push(b.last())
    }
}

fn without_spaces(b: &[u8]) -> (r: Vec<u8>)
    ensures
        r@ == strip_spaces(b@),
{
    let mut out: Vec<u8> = Vec::new();
    let mut i: usize = 0;
    while i < b.len()
        invariant
            i <= b@.len(),
            out@ == strip_spaces(b@.take(i as int)),
        decreases b@.len() - i,
    {
        assert(b@.take(i + 1).drop_last() =~= b@.take(i as int));
        if b[i] != 32 {
            out.push(b[i]);
        }
        i = i + 1;
    }
    assert(b@.take(i as int) =~= b@);
    out
}

/// How the tool prints a range.
pub open spec fn range_label(v: Range) -> Seq<char> {
    match v {
        Range::_0_10V => "0-10v"@,
        Range::_0_5V => "0-5v"@,
        Range::_Neg5_5V => "-5-5v"@,
    }
}

/// The variant's name in lowercase.
pub open spec fn range_name(v: Range) -> Seq<char> {
    match v {
        Range::_0_10V => "_0_10v"@,
        Range::_0_5V => "_0_5v"@,
        Range::_Neg5_5V => "_neg5_5v"@,
    }
}

/// `key` is the label or the name of `v`.
pub open spec fn names_range(v: Range, key: Seq<u8>) -> bool {
    key == encode_utf8(range_label(v)) || key == encode_utf8(range_name(v))
}

/// The first of `vs` that `key` names.
pub open spec fn first_named(vs: Seq<Range>, key: Seq<u8>) -> Option<Range>
    decreases vs.len(),
{
    if vs.len() == 0 {
        None
    } else if names_range(vs[0], key) {
        Some(vs[0])
    } else {
        first_named(vs.drop_first(), key)
    }
}

/// Other spellings of the ranges.
pub open spec fn range_alias(key: Seq<u8>) -> Option<Range> {
    if key == encode_utf8("10v"@) || key == encode_utf8("0-10"@) || key == encode_utf8("0-10v"@) {
        Some(Range::_0_10V)
    } else if key == encode_utf8("5v"@) || key == encode_utf8("0-5"@) || key == encode_utf8(
        "0-5v"@,
    ) {
        Some(Range::_0_5V)
    } else if key == encode_utf8("bipolar"@) || key == encode_utf8("+-5v"@) || key == encode_utf8(
        "+/-5v"@,
    ) || key == encode_utf8("-5-5v"@) || key == encode_utf8("-5v-5v"@) {
        Some(Range::_Neg5_5V)
    } else {
        None
    }
}

fn names_range_exec(v: Range, key: &[u8]) -> (r: bool)
    ensures
        r == names_range(v, key@),
{
    match v {
        Range::_0_10V => bytes_are(key, "0-10v") || bytes_are(key, "_0_10v"),
        Range::_0_5V => bytes_are(key, "0-5v") || bytes_are(key, "_0_5v"),
        Range::_Neg5_5V => bytes_are(key, "-5-5v") || bytes_are(key, "_neg5_5v"),
    }
}

/// Reads a voltage range: lowercase, spaces ignored; first a label or
/// variant name among `variants`, then the other spellings.
pub fn parse_range(s: &str, variants: &[Range]) -> (r: Result<Range, UsageError>)
    ensures
        ({
            let key = strip_spaces(lower_bytes(s@));
            r == match first_named(variants@, key) {
                Some(v) => Ok(v),
                None => match range_alias(key) {
                    Some(v) => Ok(v),
                    None => Err(UsageError::UnknownRange),
                },
            }
        }),
{
    let lower = lowercase_bytes(s);
    let key = without_spaces(lower.as_slice());
    let mut i: usize = 0;
    assert(variants@.skip(0) =~= variants@);
    while i < variants.len()
        invariant
            i <= variants@.len(),
            key@ == strip_spaces(lower_bytes(s@)),
            first_named(variants@, key@) == first_named(variants@.skip(i as int), key@),
        decreases variants@.len() - i,
    {
        assert(variants@.skip(i as int).drop_first() =~= variants@.skip(i + 1));
        assert(variants@.skip(i as int)[0] == variants@[i as int]);
        if names_range_exec(variants[i], key.as_slice()) {
            return Ok(variants[i]);
        }
        i = i + 1;
    }
    assert(variants@.skip(i as int) =~= Seq::<Range>::empty());
    let k = key.as_slice();
    if bytes_are(k, "10v") || bytes_are(k, "0-10") || bytes_are(k, "0-10v") {
        Ok(Range::_0_10V)
    } else if bytes_are(k, "5v") || bytes_are(k, "0-5") || bytes_are(k, "0-5v") {
        Ok(Range::_0_5V)
    } else if bytes_are(k, "bipolar") || bytes_are(k, "+-5v") || bytes_are(k, "+/-5v")
        || bytes_are(k, "-5-5v") || bytes_are(k, "-5v-5v") {
        Ok(Range::_Neg5_5V)
    } else {
        Err(UsageError::UnknownRange)
    }
}

/// The MIDI input ports that the lowercase text `key` names: `[usb, din]`.
pub open spec fn midi_in_ports(key: Seq<u8>) -> Option<(bool, bool)> {
    if key == encode_utf8("none"@) || key == encode_utf8("off"@) {
        Some((false, false))
    } else if key == encode_utf8("all"@) || key == encode_utf8("both"@) {
        Some((true, true))
    } else {
        let usb = has_sub(key, encode_utf8("usb"@));
        let din = has_sub(key, encode_utf8("din"@));
        if !usb && !din {
            None
        } else {
            Some((usb, din))
        }
    }
}

pub fn parse_midi_ports_in(s: &str) -> (r: Result<(bool, bool), UsageError>)
    ensures
        r == match midi_in_ports(lower_bytes(s@)) {
            Some(p) => Ok(p),
            None => Err(UsageError::NoMidiInPorts),
        },
{
    let lower = lowercase_bytes(s);
    let k = lower.as_slice();
    if bytes_are(k, "none") || bytes_are(k, "off") {
        return Ok((false, false));
    }
    if bytes_are(k, "all") || bytes_are(k, "both") {
        return Ok((true, true));
    }
    let usb = contains_bytes(k, "usb".as_bytes());
    let din = contains_bytes(k, "din".as_bytes());
    if !usb && !din {
        return Err(UsageError::NoMidiInPorts);
    }
    Ok((usb, din))
}

/// The MIDI output ports that the lowercase text `key` names:
/// `[usb, out1, out2]`.
pub open spec fn midi_out_ports(key: Seq<u8>) -> Option<(bool, bool, bool)> {
    if key == encode_utf8("none"@) || key == encode_utf8("off"@) {
        Some((false, false, false))
    } else if key == encode_utf8("all"@) {
        Some((true, true, true))
    } else {
        let usb = has_sub(key, encode_utf8("usb"@));
        let out1 = has_sub(key, encode_utf8("out1"@)) || has_sub(key, encode_utf8("1"@));
        let out2 = has_sub(key, encode_utf8("out2"@)) || has_sub(key, encode_utf8("2"@));
        if !usb && !out1 && !out2 {
            None
        } else {
            Some((usb, out1, out2))
        }
    }
}

pub fn parse_midi_ports_out(s: &str) -> (r: Result<(bool, bool, bool), UsageError>)
    ensures
        r == match midi_out_ports(lower_bytes(s@)) {
            Some(p) => Ok(p),
            None => Err(UsageError::NoMidiOutPorts),
        },
{
    let lower = lowercase_bytes(s);
    let k = lower.as_slice();
    if bytes_are(k, "none") || bytes_are(k, "off") {
        return Ok((false, false, false));
    }
    if bytes_are(k, "all") {
        return Ok((true, true, true));
    }
    let usb = contains_bytes(k, "usb".as_bytes());
    let out1 = contains_bytes(k, "out1".as_bytes()) || contains_bytes(k, "1".as_bytes());
    let out2 = contains_bytes(k, "out2".as_bytes()) || contains_bytes(k, "2".as_bytes());
    if !usb && !out1 && !out2 {
        return Err(UsageError::NoMidiOutPorts);
    }
    Ok((usb, out1, out2))
}

/// The takeover mode that the lowercase text `key` names.
pub open spec fn takeover_named(key: Seq<u8>) -> Option<TakeoverMode> {
    if key == encode_utf8("pickup"@) {
        Some(TakeoverMode::Pickup)
    } else if key == encode_utf8("jump"@) {
        Some(TakeoverMode::Jump)
    } else if key == encode_utf8("scale"@) {
        Some(TakeoverMode::Scale)
    } else {
        None
    }
}

/// Reads a takeover mode, ignoring case.
pub fn parse_takeover_mode(s: &str) -> (r: Option<TakeoverMode>)
    ensures
        r == takeover_named(lower_bytes(s@)),
{
    let lower = lowercase_bytes(s);
    let k = lower.as_slice();
    if bytes_are(k, "pickup") {
        Some(TakeoverMode::Pickup)
    } else if bytes_are(k, "jump") {
        Some(TakeoverMode::Jump)
    } else if bytes_are(k, "scale") {
        Some(TakeoverMode::Scale)
    } else {
        None
    }
}

/// LED brightness that the device accepts.
pub fn valid_brightness(value: u8) -> (r: bool)
    ensures
        r == (100 <= value),
{
    value >= 100
}

} // verus!
