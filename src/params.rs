//! Reading a parameter value typed by the user, guided by the parameter's
//! metadata or, where there is none, by the kind of its current value.
use vstd::prelude::*;
use vstd::utf8::encode_utf8;

use crate::cli::{
    first_named, midi_in_ports, midi_out_ports, parse_midi_ports_in, parse_midi_ports_out,
    parse_range, range_alias, strip_spaces, UsageError,
};
use crate::protocol::{
    Color, Curve, MidiCc, MidiChannel, MidiIn, MidiMode, MidiNote, MidiOut, Note, Param, Range,
    Value, Waveform,
};
use crate::text::{
    bytes_are, contains_ignoring_case, has_sub, lower_bytes, lowercase_bytes, parse_i32,
    parse_unsigned, signed_value, unsigned_value,
};

verus! {

/// Input that does not make a value of the parameter.
#[derive(Clone, Copy, Debug, PartialEq, Eq)]
pub enum ValueError {
    /// Not a number of the kind needed.
    NotANumber,
    /// A number outside the parameter's bounds.
    OutOfRange,
    /// Not one of the words for true or false.
    NotABool,
    /// An option index past the last of `count` options.
    EnumIndexOutOfRange { index: usize, count: usize },
    /// No option name holds the text.
    NoMatch,
    /// Several option names hold the text.
    Ambiguous,
    /// The text names none of the choices offered.
    Unknown,
    /// Ports or ranges that the text does not name.
    Usage(UsageError),
    /// Without metadata, the kind of value cannot be told.
    CannotInfer,
}

/// A value whose name can be typed.
pub trait Named: Sized + Copy {
    /// The UTF-8 bytes of the lowercase name.
    spec fn key(&self) -> Seq<u8>;

    fn is_named(&self, k: &[u8]) -> (r: bool)
        ensures
            r == (k@ == self.key()),
    ;
}

/// The first of `vs` whose name is `k`.
pub open spec fn first_keyed<T: Named>(vs: Seq<T>, k: Seq<u8>) -> Option<T>
    decreases vs.len(),
{
    if vs.len() == 0 {
        None
    } else if vs[0].key() == k {
        Some(vs[0])
    } else {
        first_keyed(vs.drop_first(), k)
    }
}

pub fn pick_named<T: Named>(vs: &[T], k: &[u8]) -> (r: Option<T>)
    ensures
        r == first_keyed(vs@, k@),
{
    let mut i: usize = 0;
    assert(vs@.skip(0) =~= vs@);
    while i < vs.len()
        invariant
            i <= vs@.len(),
            first_keyed(vs@, k@) == first_keyed(vs@.skip(i as int), k@),
        decreases vs@.len() - i,
    {
        assert(vs@.skip(i as int).drop_first() =~= vs@.skip(i + 1));
        assert(vs@.skip(i as int)[0] == vs@[i as int]);
        if vs[i].is_named(k) {
            return Some(vs[i]);
        }
        i = i + 1;
    }
    assert(vs@.skip(i as int) =~= Seq::<T>::empty());
    None
}

impl Named for Curve {
    open spec fn key(&self) -> Seq<u8> {
        encode_utf8(
            match self {
                Curve::Linear => "linear"@,
                Curve::Logarithmic => "logarithmic"@,
                Curve::Exponential => "exponential"@,
            },
        )
    }

    fn is_named(&self, k: &[u8]) -> (r: bool) {
        match self {
            Curve::Linear => bytes_are(k, "linear"),
            Curve::Logarithmic => bytes_are(k, "logarithmic"),
            Curve::Exponential => bytes_are(k, "exponential"),
        }
    }
}

impl Named for Waveform {
    open spec fn key(&self) -> Seq<u8> {
        encode_utf8(
            match self {
                Waveform::Triangle => "triangle"@,
                Waveform::Saw => "saw"@,
                Waveform::SawInv => "sawinv"@,
                Waveform::Square => "square"@,
                Waveform::Sine => "sine"@,
            },
        )
    }

    fn is_named(&self, k: &[u8]) -> (r: bool) {
        match self {
            Waveform::Triangle => bytes_are(k, "triangle"),
            Waveform::Saw => bytes_are(k, "saw"),
            Waveform::SawInv => bytes_are(k, "sawinv"),
            Waveform::Square => bytes_are(k, "square"),
            Waveform::Sine => bytes_are(k, "sine"),
        }
    }
}

impl Named for Note {
    open spec fn key(&self) -> Seq<u8> {
        encode_utf8(
            match self {
                Note::C => "c"@,
                Note::CSharp => "csharp"@,
                Note::D => "d"@,
                Note::DSharp => "dsharp"@,
                Note::E => "e"@,
                Note::F => "f"@,
                Note::FSharp => "fsharp"@,
                Note::G => "g"@,
                Note::GSharp => "gsharp"@,
                Note::A => "a"@,
                Note::ASharp => "asharp"@,
                Note::B => "b"@,
            },
        )
    }

    fn is_named(&self, k: &[u8]) -> (r: bool) {
        match self {
            Note::C => bytes_are(k, "c"),
            Note::CSharp => bytes_are(k, "csharp"),
            Note::D => bytes_are(k, "d"),
            Note::DSharp => bytes_are(k, "dsharp"),
            Note::E => bytes_are(k, "e"),
            Note::F => bytes_are(k, "f"),
            Note::FSharp => bytes_are(k, "fsharp"),
            Note::G => bytes_are(k, "g"),
            Note::GSharp => bytes_are(k, "gsharp"),
            Note::A => bytes_are(k, "a"),
            Note::ASharp => bytes_are(k, "asharp"),
            Note::B => bytes_are(k, "b"),
        }
    }
}

/// Decimal digits of `n`, as ASCII bytes.
pub open spec fn decimal(n: u8) -> Seq<u8> {
    if n < 10 {
        seq![(48 + n) as u8]
    } else if n < 100 {
        seq![(48 + n / 10) as u8, (48 + n % 10) as u8]
    } else {
        seq![(48 + n / 100) as u8, (48 + n / 10 % 10) as u8, (48 + n % 10) as u8]
    }
}

fn push_decimal(out: &mut Vec<u8>, n: u8)
    ensures
        final(out)@ == old(out)@ + decimal(n),
{
    let ghost start = out@;
    if n < 10 {
        out.push(48 + n);
    } else if n < 100 {
        out.push(48 + n / 10);
        out.push(48 + n % 10);
    } else {
        out.push(48 + n / 100);
        out.push(48 + n / 10 % 10);
        out.push(48 + n % 10);
    }
    assert(out@ =~= start + decimal(n));
}

fn push_text(out: &mut Vec<u8>, lit: &str)
    ensures
        final(out)@ == old(out)@ + encode_utf8(lit@),
{
    let b = lit.as_bytes();
    let ghost start = out@;
    let mut i: usize = 0;
    while i < b.len()
        invariant
            i <= b@.len(),
            out@ == start + b@.subrange(0, i as int),
        decreases b@.len() - i,
    {
        out.push(b[i]);
        i = i + 1;
        assert(out@ =~= start + b@.subrange(0, i as int));
    }
    assert(b@.subrange(0, i as int) =~= b@);
}

fn same_bytes(a: &[u8], b: &[u8]) -> (r: bool)
    ensures
        r == (a@ == b@),
{
    if a.len() != b.len() {
        return false;
    }
    let mut i: usize = 0;
    while i < a.len()
        invariant
            a@.len() == b@.len(),
            i <= a@.len(),
            forall|j: int| 0 <= j < i ==> a@[j] == b@[j],
        decreases a@.len() - i,
    {
        if a[i] != b[i] {
            return false;
        }
        i = i + 1;
    }
    assert(a@ =~= b@);
    true
}

/// The lowercase name of a colour; a custom one reads `custom(r, g, b)`.
pub open spec fn color_key(c: Color) -> Seq<u8> {
    match c {
        Color::Custom(r, g, b) => encode_utf8("custom("@) + decimal(r) + encode_utf8(", "@)
            + decimal(g) + encode_utf8(", "@) + decimal(b) + encode_utf8(")"@),
        Color::White => encode_utf8("white"@),
        Color::Yellow => encode_utf8("yellow"@),
        Color::Orange => encode_utf8("orange"@),
        Color::Red => encode_utf8("red"@),
        Color::Lime => encode_utf8("lime"@),
        Color::Green => encode_utf8("green"@),
        Color::Cyan => encode_utf8("cyan"@),
        Color::SkyBlue => encode_utf8("skyblue"@),
        Color::Blue => encode_utf8("blue"@),
        Color::Violet => encode_utf8("violet"@),
        Color::Pink => encode_utf8("pink"@),
        Color::PaleGreen => encode_utf8("palegreen"@),
        Color::Sand => encode_utf8("sand"@),
        Color::Rose => encode_utf8("rose"@),
        Color::Salmon => encode_utf8("salmon"@),
        Color::LightBlue => encode_utf8("lightblue"@),
    }
}

impl Named for Color {
    open spec fn key(&self) -> Seq<u8> {
        color_key(*self)
    }

    fn is_named(&self, k: &[u8]) -> (r: bool) {
        match self {
            Color::Custom(r, g, b) => {
                let mut name: Vec<u8> = Vec::new();
                push_text(&mut name, "custom(");
                push_decimal(&mut name, *r);
                push_text(&mut name, ", ");
                push_decimal(&mut name, *g);
                push_text(&mut name, ", ");
                push_decimal(&mut name, *b);
                push_text(&mut name, ")");
                same_bytes(k, name.as_slice())
            },
            Color::White => bytes_are(k, "white"),
            Color::Yellow => bytes_are(k, "yellow"),
            Color::Orange => bytes_are(k, "orange"),
            Color::Red => bytes_are(k, "red"),
            Color::Lime => bytes_are(k, "lime"),
            Color::Green => bytes_are(k, "green"),
            Color::Cyan => bytes_are(k, "cyan"),
            Color::SkyBlue => bytes_are(k, "skyblue"),
            Color::Blue => bytes_are(k, "blue"),
            Color::Violet => bytes_are(k, "violet"),
            Color::Pink => bytes_are(k, "pink"),
            Color::PaleGreen => bytes_are(k, "palegreen"),
            Color::Sand => bytes_are(k, "sand"),
            Color::Rose => bytes_are(k, "rose"),
            Color::Salmon => bytes_are(k, "salmon"),
            Color::LightBlue => bytes_are(k, "lightblue"),
        }
    }
}

/// One of the words for true.
pub open spec fn truthy(k: Seq<u8>) -> bool {
    k == encode_utf8("true"@) || k == encode_utf8("on"@) || k == encode_utf8("1"@) || k
        == encode_utf8("yes"@)
}

/// One of the words for false.
pub open spec fn falsy(k: Seq<u8>) -> bool {
    k == encode_utf8("false"@) || k == encode_utf8("off"@) || k == encode_utf8("0"@) || k
        == encode_utf8("no"@)
}

fn is_truthy(k: &[u8]) -> (r: bool)
    ensures
        r == truthy(k@),
{
    bytes_are(k, "true") || bytes_are(k, "on") || bytes_are(k, "1") || bytes_are(k, "yes")
}

fn is_falsy(k: &[u8]) -> (r: bool)
    ensures
        r == falsy(k@),
{
    bytes_are(k, "false") || bytes_are(k, "off") || bytes_are(k, "0") || bytes_are(k, "no")
}

/// Option `v`'s name holds the query `q` (both lowercase).
pub open spec fn option_matches(v: String, q: Seq<u8>) -> bool {
    has_sub(lower_bytes(v@), q)
}

/// How many of `vs` match `q`.
pub open spec fn count_options(vs: Seq<String>, q: Seq<u8>) -> nat
    decreases vs.len(),
{
    if vs.len() == 0 {
        0
    } else {
        count_options(vs.drop_last(), q) + if option_matches(vs.last(), q) {
            1nat
        } else {
            0nat
        }
    }
}

/// Index of the first of `vs` that matches `q`, or -1.
pub open spec fn first_option(vs: Seq<String>, q: Seq<u8>) -> int
    decreases vs.len(),
{
    if vs.len() == 0 {
        -1
    } else if first_option(vs.drop_last(), q) >= 0 {
        first_option(vs.drop_last(), q)
    } else if option_matches(vs.last(), q) {
        vs.len() - 1
    } else {
        -1
    }
}

/// A number as `parse` reads it for `u8`.
pub open spec fn u8_of(b: Seq<u8>) -> Option<u8> {
    match unsigned_value(b) {
        Some(v) => if v <= 255 {
            Some(v as u8)
        } else {
            None
        },
        None => None,
    }
}

/// A number as `parse` reads it for `usize`.
pub open spec fn usize_of(b: Seq<u8>) -> Option<usize> {
    match unsigned_value(b) {
        Some(v) => if v <= usize::MAX {
            Some(v as usize)
        } else {
            None
        },
        None => None,
    }
}

/// A number as `parse` reads it for `i32`.
pub open spec fn i32_of(b: Seq<u8>) -> Option<i32> {
    match signed_value(b) {
        Some(v) => if i32::MIN <= v <= i32::MAX {
            Some(v as i32)
        } else {
            None
        },
        None => None,
    }
}

/// The range that `s` names among `vs`, as `parse_range` reads it.
pub open spec fn range_choice(s: Seq<char>, vs: Seq<Range>) -> Result<Range, UsageError> {
    let key = strip_spaces(lower_bytes(s));
    match first_named(vs, key) {
        Some(v) => Ok(v),
        None => match range_alias(key) {
            Some(v) => Ok(v),
            None => Err(UsageError::UnknownRange),
        },
    }
}

/// The parameter's values are floating-point numbers; this library leaves
/// reading them to its caller.
pub open spec fn takes_float(param: Option<Param>, current: Value) -> bool {
    match param {
        Some(Param::Float { .. }) => true,
        Some(Param::Unset) | None => current is Float,
        _ => false,
    }
}

/// The value that the text `s` gives a parameter with metadata `param`
/// and current value `current`.
pub open spec fn value_from_text(s: Seq<char>, param: Option<Param>, current: Value) -> Result<
    Value,
    ValueError,
> {
    let b = encode_utf8(s);
    let k = lower_bytes(s);
    match param {
        Some(Param::Int { min, max, .. }) => match i32_of(b) {
            Some(v) => if v < min || v > max {
                Err(ValueError::OutOfRange)
            } else {
                Ok(Value::Int(v))
            },
            None => Err(ValueError::NotANumber),
        },
        Some(Param::Bool { .. }) => if truthy(k) {
            Ok(Value::Bool(true))
        } else if falsy(k) {
            Ok(Value::Bool(false))
        } else {
            Err(ValueError::NotABool)
        },
        Some(Param::Enum { variants, .. }) => match usize_of(b) {
            Some(i) => if i >= variants@.len() {
                Err(ValueError::EnumIndexOutOfRange { index: i, count: variants@.len() as usize })
            } else {
                Ok(Value::Enum(i))
            },
            None => {
                let n = count_options(variants@, k);
                if n == 0 {
                    Err(ValueError::NoMatch)
                } else if n == 1 {
                    Ok(Value::Enum(first_option(variants@, k) as usize))
                } else {
                    Err(ValueError::Ambiguous)
                }
            },
        },
        Some(Param::Curve { variants, .. }) => match first_keyed(variants@, k) {
            Some(v) => Ok(Value::Curve(v)),
            None => Err(ValueError::Unknown),
        },
        Some(Param::Waveform { variants, .. }) => match first_keyed(variants@, k) {
            Some(v) => Ok(Value::Waveform(v)),
            None => Err(ValueError::Unknown),
        },
        Some(Param::Color { variants, .. }) => match first_keyed(variants@, k) {
            Some(v) => Ok(Value::Color(v)),
            None => Err(ValueError::Unknown),
        },
        Some(Param::Note { variants, .. }) => match first_keyed(variants@, k) {
            Some(v) => Ok(Value::Note(v)),
            None => Err(ValueError::Unknown),
        },
        Some(Param::Range { variants, .. }) => match range_choice(s, variants@) {
            Ok(v) => Ok(Value::Range(v)),
            Err(e) => Err(ValueError::Usage(e)),
        },
        Some(Param::MidiCc { .. }) => match u8_of(b) {
            Some(v) => if v > 127 {
                Err(ValueError::OutOfRange)
            } else {
                Ok(Value::MidiCc(MidiCc(v)))
            },
            None => Err(ValueError::NotANumber),
        },
        Some(Param::MidiChannel { .. }) => match u8_of(b) {
            Some(v) => if v < 1 || v > 16 {
                Err(ValueError::OutOfRange)
            } else {
                Ok(Value::MidiChannel(MidiChannel(v)))
            },
            None => Err(ValueError::NotANumber),
        },
        Some(Param::MidiNote { .. }) => match u8_of(b) {
            Some(v) => if v > 127 {
                Err(ValueError::OutOfRange)
            } else {
                Ok(Value::MidiNote(MidiNote(v)))
            },
            None => Err(ValueError::NotANumber),
        },
        Some(Param::MidiMode) => if k == encode_utf8("note"@) {
            Ok(Value::MidiMode(MidiMode::Note))
        } else if k == encode_utf8("cc"@) {
            Ok(Value::MidiMode(MidiMode::Cc))
        } else {
            Err(ValueError::Unknown)
        },
        Some(Param::MidiIn) => match midi_in_ports(k) {
            Some((usb, din)) => Ok(Value::MidiIn(MidiIn([usb, din]))),
            None => Err(ValueError::Usage(UsageError::NoMidiInPorts)),
        },
        Some(Param::MidiOut) => match midi_out_ports(k) {
            Some((usb, out1, out2)) => Ok(Value::MidiOut(MidiOut([usb, out1, out2]))),
            None => Err(ValueError::Usage(UsageError::NoMidiOutPorts)),
        },
        Some(Param::Float { .. }) => Err(ValueError::CannotInfer),
        Some(Param::Unset) | None => match current {
            Value::Int(_) => match i32_of(b) {
                Some(v) => Ok(Value::Int(v)),
                None => Err(ValueError::NotANumber),
            },
            Value::Bool(_) => Ok(Value::Bool(truthy(k))),
            Value::Enum(_) => match usize_of(b) {
                Some(i) => Ok(Value::Enum(i)),
                None => Err(ValueError::NotANumber),
            },
            Value::MidiCc(_) => match u8_of(b) {
                Some(v) => Ok(Value::MidiCc(MidiCc(v))),
                None => Err(ValueError::NotANumber),
            },
            Value::MidiChannel(_) => match u8_of(b) {
                Some(v) => Ok(Value::MidiChannel(MidiChannel(v))),
                None => Err(ValueError::NotANumber),
            },
            _ => Err(ValueError::CannotInfer),
        },
    }
}

pub fn needs_float(param: Option<&Param>, current: &Value) -> (r: bool)
    ensures
        r == takes_float(
            match param {
                Some(p) => Some(*p),
                None => None,
            },
            *current,
        ),
{
    match param {
        Some(Param::Float { .. }) => true,
        Some(Param::Unset) | None => match current {
            Value::Float(_) => true,
            _ => false,
        },
        _ => false,
    }
}

fn pick_option(variants: &Vec<String>, s: &str) -> (r: Result<Value, ValueError>)
    ensures
        ({
            let k = lower_bytes(s@);
            let n = count_options(variants@, k);
            r == if n == 0 {
                Err(ValueError::NoMatch)
            } else if n == 1 {
                Ok(Value::Enum(first_option(variants@, k) as usize))
            } else {
                Err(ValueError::Ambiguous)
            }
        }),
{
    let ghost k = lower_bytes(s@);
    let mut count: usize = 0;
    let mut first: usize = 0;
    let mut i: usize = 0;
    while i < variants.len()
        invariant
            k == lower_bytes(s@),
            i <= variants@.len(),
            count == count_options(variants@.take(i as int), k),
            count <= i,
            count == 0 ==> first_option(variants@.take(i as int), k) == -1,
            count > 0 ==> first < i && first_option(variants@.take(i as int), k) == first,
        decreases variants@.len() - i,
    {
        assert(variants@.take(i + 1).drop_last() =~= variants@.take(i as int));
        assert(variants@.take(i + 1).last() == variants@[i as int]);
        if contains_ignoring_case(variants[i].as_str(), s) {
            if count == 0 {
                first = i;
            }
            count = count + 1;
        }
        i = i + 1;
    }
    assert(variants@.take(i as int) =~= variants@);
    if count == 0 {
        Err(ValueError::NoMatch)
    } else if count == 1 {
        Ok(Value::Enum(first))
    } else {
        Err(ValueError::Ambiguous)
    }
}

fn read_u8(s: &str) -> (r: Option<u8>)
    ensures
        r == u8_of(encode_utf8(s@)),
{
    match parse_unsigned(s, 255) {
        Some(v) => Some(v as u8),
        None => None,
    }
}

fn read_usize(s: &str) -> (r: Option<usize>)
    ensures
        r == usize_of(encode_utf8(s@)),
{
    match parse_unsigned(s, usize::MAX as u64) {
        Some(v) => Some(v as usize),
        None => None,
    }
}

/// Reads the text `s` as a value of the parameter; see `value_from_text`.
pub fn parse_value(s: &str, param: Option<&Param>, current: &Value) -> (r: Result<Value, ValueError>)
    requires
        !takes_float(
            match param {
                Some(p) => Some(*p),
                None => None,
            },
            *current,
        ),
    ensures
        r == value_from_text(
            s@,
            match param {
                Some(p) => Some(*p),
                None => None,
            },
            *current,
        ),
{
    let lower = lowercase_bytes(s);
    let k = lower.as_slice();
    match param {
        Some(Param::Int { min, max, .. }) => match parse_i32(s) {
            Some(v) => if v < *min || v > *max {
                Err(ValueError::OutOfRange)
            } else {
                Ok(Value::Int(v))
            },
            None => Err(ValueError::NotANumber),
        },
        Some(Param::Bool { .. }) => if is_truthy(k) {
            Ok(Value::Bool(true))
        } else if is_falsy(k) {
            Ok(Value::Bool(false))
        } else {
            Err(ValueError::NotABool)
        },
        Some(Param::Enum { variants, .. }) => match read_usize(s) {
            Some(i) => if i >= variants.len() {
                Err(ValueError::EnumIndexOutOfRange { index: i, count: variants.len() })
            } else {
                Ok(Value::Enum(i))
            },
            None => pick_option(variants, s),
        },
        Some(Param::Curve { variants, .. }) => match pick_named(variants.as_slice(), k) {
            Some(v) => Ok(Value::Curve(v)),
            None => Err(ValueError::Unknown),
        },
        Some(Param::Waveform { variants, .. }) => match pick_named(variants.as_slice(), k) {
            Some(v) => Ok(Value::Waveform(v)),
            None => Err(ValueError::Unknown),
        },
        Some(Param::Color { variants, .. }) => match pick_named(variants.as_slice(), k) {
            Some(v) => Ok(Value::Color(v)),
            None => Err(ValueError::Unknown),
        },
        Some(Param::Note { variants, .. }) => match pick_named(variants.as_slice(), k) {
            Some(v) => Ok(Value::Note(v)),
            None => Err(ValueError::Unknown),
        },
        Some(Param::Range { variants, .. }) => match parse_range(s, variants.as_slice()) {
            Ok(v) => Ok(Value::Range(v)),
            Err(e) => Err(ValueError::Usage(e)),
        },
        Some(Param::MidiCc { .. }) => match read_u8(s) {
            Some(v) => if v > 127 {
                Err(ValueError::OutOfRange)
            } else {
                Ok(Value::MidiCc(MidiCc(v)))
            },
            None => Err(ValueError::NotANumber),
        },
        Some(Param::MidiChannel { .. }) => match read_u8(s) {
            Some(v) => if v < 1 || v > 16 {
                Err(ValueError::OutOfRange)
            } else {
                Ok(Value::MidiChannel(MidiChannel(v)))
            },
            None => Err(ValueError::NotANumber),
        },
        Some(Param::MidiNote { .. }) => match read_u8(s) {
            Some(v) => if v > 127 {
                Err(ValueError::OutOfRange)
            } else {
                Ok(Value::MidiNote(MidiNote(v)))
            },
            None => Err(ValueError::NotANumber),
        },
        Some(Param::MidiMode) => if bytes_are(k, "note") {
            Ok(Value::MidiMode(MidiMode::Note))
        } else if bytes_are(k, "cc") {
            Ok(Value::MidiMode(MidiMode::Cc))
        } else {
            Err(ValueError::Unknown)
        },
        Some(Param::MidiIn) => match parse_midi_ports_in(s) {
            Ok((usb, din)) => Ok(Value::MidiIn(MidiIn([usb, din]))),
            Err(e) => Err(ValueError::Usage(e)),
        },
        Some(Param::MidiOut) => match parse_midi_ports_out(s) {
            Ok((usb, out1, out2)) => Ok(Value::MidiOut(MidiOut([usb, out1, out2]))),
            Err(e) => Err(ValueError::Usage(e)),
        },
        Some(Param::Float { .. }) => Err(ValueError::CannotInfer),
        Some(Param::Unset) | None => match current {
            Value::Int(_) => match parse_i32(s) {
                Some(v) => Ok(Value::Int(v)),
                None => Err(ValueError::NotANumber),
            },
            Value::Bool(_) => Ok(Value::Bool(is_truthy(k))),
            Value::Enum(_) => match read_usize(s) {
                Some(i) => Ok(Value::Enum(i)),
                None => Err(ValueError::NotANumber),
            },
            Value::MidiCc(_) => match read_u8(s) {
                Some(v) => Ok(Value::MidiCc(MidiCc(v))),
                None => Err(ValueError::NotANumber),
            },
            Value::MidiChannel(_) => match read_u8(s) {
                Some(v) => Ok(Value::MidiChannel(MidiChannel(v))),
                None => Err(ValueError::NotANumber),
            },
            _ => Err(ValueError::CannotInfer),
        },
    }
}

/// Why a parameter reference designates no parameter.
#[derive(Clone, Copy, Debug, PartialEq, Eq)]
pub enum ParamRefError {
    /// An index past the last of the app's `count` values.
    IndexOutOfRange { index: usize, count: usize },
    /// No parameter name holds the text.
    NoMatch,
    /// Several parameter names hold the text.
    Ambiguous,
}

/// The name that a parameter's metadata gives it; empty where it has none.
pub open spec fn param_name_of(p: Param) -> Seq<char> {
    match p {
        Param::Int { name, .. } => name@,
        Param::Float { name, .. } => name@,
        Param::Bool { name } => name@,
        Param::Enum { name, .. } => name@,
        Param::Curve { name, .. } => name@,
        Param::Waveform { name, .. } => name@,
        Param::Color { name, .. } => name@,
        Param::Range { name, .. } => name@,
        Param::Note { name, .. } => name@,
        Param::MidiCc { name } => name@,
        Param::MidiChannel { name } => name@,
        Param::MidiNote { name } => name@,
        _ => Seq::empty(),
    }
}

pub fn get_param_name(p: &Param) -> (r: &str)
    ensures
        r@ == param_name_of(*p),
{
    match p {
        Param::Int { name, .. } => name.as_str(),
        Param::Float { name, .. } => name.as_str(),
        Param::Bool { name } => name.as_str(),
        Param::Enum { name, .. } => name.as_str(),
        Param::Curve { name, .. } => name.as_str(),
        Param::Waveform { name, .. } => name.as_str(),
        Param::Color { name, .. } => name.as_str(),
        Param::Range { name, .. } => name.as_str(),
        Param::Note { name, .. } => name.as_str(),
        Param::MidiCc { name } => name.as_str(),
        Param::MidiChannel { name } => name.as_str(),
        Param::MidiNote { name } => name.as_str(),
        _ => {
            proof {
                reveal_strlit("");
            }
            ""
        },
    }
}

/// The parameter has a name, and it holds the query `q` (both lowercase).
pub open spec fn param_matches(p: Param, q: Seq<u8>) -> bool {
    param_name_of(p).len() > 0 && has_sub(lower_bytes(param_name_of(p)), q)
}

/// How many of `ps` match `q`.
pub open spec fn count_params(ps: Seq<Param>, q: Seq<u8>) -> nat
    decreases ps.len(),
{
    if ps.len() == 0 {
        0
    } else {
        count_params(ps.drop_last(), q) + if param_matches(ps.last(), q) {
            1nat
        } else {
            0nat
        }
    }
}

/// Finds the parameter that `param_ref` designates: by index where it is a
/// number (below `value_count`), else by a name that holds it, ignoring case.
pub fn resolve_param(param_ref: &str, value_count: usize, params: &[Param]) -> (r: Result<
    usize,
    ParamRefError,
>)
    ensures
        match usize_of(encode_utf8(param_ref@)) {
            Some(i) => r == if i >= value_count {
                Err(ParamRefError::IndexOutOfRange { index: i, count: value_count })
            } else {
                Ok(i)
            },
            None => {
                let q = lower_bytes(param_ref@);
                let n = count_params(params@, q);
                &&& n == 0 ==> r == Err::<usize, ParamRefError>(ParamRefError::NoMatch)
                &&& n >= 2 ==> r == Err::<usize, ParamRefError>(ParamRefError::Ambiguous)
                &&& n == 1 ==> (r matches Ok(j) && j < params@.len() && param_matches(
                    params@[j as int],
                    q,
                ))
            },
        },
{
    if let Some(i) = read_usize(param_ref) {
        if i >= value_count {
            return Err(ParamRefError::IndexOutOfRange { index: i, count: value_count });
        }
        return Ok(i);
    }
    let ghost q = lower_bytes(param_ref@);
    let mut count: usize = 0;
    let mut first: usize = 0;
    let mut i: usize = 0;
    while i < params.len()
        invariant
            q == lower_bytes(param_ref@),
            i <= params@.len(),
            count == count_params(params@.take(i as int), q),
            count <= i,
            count > 0 ==> first < i && param_matches(params@[first as int], q),
        decreases params@.len() - i,
    {
        assert(params@.take(i + 1).drop_last() =~= params@.take(i as int));
        assert(params@.take(i + 1).last() == params@[i as int]);
        let name = get_param_name(&params[i]);
        let named = !name.is_empty();
        if named && contains_ignoring_case(name, param_ref) {
            if count == 0 {
                first = i;
            }
            count = count + 1;
        }
        i = i + 1;
    }
    assert(params@.take(i as int) =~= params@);
    if count == 0 {
        Err(ParamRefError::NoMatch)
    } else if count == 1 {
        Ok(first)
    } else {
        Err(ParamRefError::Ambiguous)
    }
}

/// The values to send with a parameter change: the current values, as many
/// as fit, with the one at `idx` replaced by `new`.
pub fn param_values(current: &[Value], idx: usize, new: Value) -> (r: [Option<Value>; 16])
    requires
        idx < 16,
    ensures
        forall|i: int|
            0 <= i < 16 ==> #[trigger] r@[i] == if i == idx {
                Some(new)
            } else if i < current@.len() {
                Some(current@[i])
            } else {
                None
            },
{
    let mut values: [Option<Value>; 16] = [None; 16];
    let mut i: usize = 0;
    while i < 16 && i < current.len()
        invariant
            i <= 16,
            i <= current@.len(),
            forall|k: int|
                0 <= k < 16 ==> #[trigger] values@[k] == if k < i {
                    Some(current@[k])
                } else {
                    None
                },
        decreases 16 - i,
    {
        values[i] = Some(current[i]);
        i = i + 1;
    }
    values[idx] = Some(new);
    values
}

} // verus!
