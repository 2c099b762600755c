use faderpunk::cli::{parse_takeover_mode, valid_brightness, UsageError};
use faderpunk::codec::FpError;
use faderpunk::layout::{fill_layout, place_app, remove_at_slot, PlaceError};
use faderpunk::params::{
    get_param_name, needs_float, param_values, parse_value, resolve_param, ParamRefError, ValueError,
};
use faderpunk::protocol::{
    Color, Curve, F32Bits, Layout, MidiCc, MidiChannel, MidiIn, MidiMode, MidiNote, MidiOut, Note,
    Param, Range, TakeoverMode, Value, Waveform,
};
use faderpunk::transport::{
    find_device, find_endpoints, find_vendor_interface, EndpointDesc, Endpoints, InterfaceDesc,
};

#[test]
fn place_clears_overlaps_and_takes_free_id() {
    let mut slots = [None; 16];
    slots[0] = Some((1, 2, 0));
    slots[2] = Some((2, 1, 1));
    slots[5] = Some((3, 1, 2));
    let l = place_app(&Layout(slots), 2, 9, 2).unwrap();
    assert_eq!(l.0[0], None);
    assert_eq!(l.0[2], None);
    assert_eq!(l.0[1], Some((9, 2, 0)));
    assert_eq!(l.0[5], Some((3, 1, 2)));
}

#[test]
fn place_picks_smallest_unused_id() {
    let mut slots = [None; 16];
    slots[10] = Some((1, 1, 0));
    slots[11] = Some((1, 1, 1));
    slots[12] = Some((1, 1, 3));
    let l = place_app(&Layout(slots), 1, 4, 1).unwrap();
    assert_eq!(l.0[0], Some((4, 1, 2)));
}

#[test]
fn place_rejects_what_does_not_fit() {
    let l = Layout([None; 16]);
    assert_eq!(
        place_app(&l, 15, 1, 3),
        Err(PlaceError::DoesNotFit { channels: 3, slot: 15, remaining: 2 })
    );
    assert_eq!(place_app(&l, 0, 1, 1), Err(PlaceError::Usage(UsageError::InvalidSlot(0))));
    assert!(place_app(&l, 16, 1, 1).is_ok());
}

#[test]
fn fill_with_three_wide_app() {
    let l = fill_layout(7, 3);
    for i in 0..16 {
        if i % 3 == 0 && i + 3 <= 16 {
            assert_eq!(l.0[i], Some((7, 3, (i / 3) as u8)));
        } else {
            assert_eq!(l.0[i], None);
        }
    }
    assert_eq!(fill_layout(1, 1).0[15], Some((1, 1, 15)));
    assert_eq!(fill_layout(1, 17).0, [None; 16]);
}

#[test]
fn remove_by_any_fader_of_the_app() {
    let mut slots = [None; 16];
    slots[4] = Some((2, 3, 1));
    let (l, e) = remove_at_slot(&Layout(slots), 7).unwrap();
    assert_eq!(e.start, 4);
    assert_eq!(l.0, [None; 16]);
    assert!(remove_at_slot(&Layout(slots), 8).is_none());
}

#[test]
fn device_interface_endpoints() {
    assert_eq!(find_device(&[(1, 2), (0xf569, 1), (0xf569, 1)]), Ok(1));
    assert_eq!(find_device(&[(0xf569, 2)]), Err(FpError::DeviceNotFound));
    let ifaces = vec![
        InterfaceDesc { number: 0, alt_classes: vec![1, 2] },
        InterfaceDesc { number: 3, alt_classes: vec![0, 0xff] },
    ];
    assert_eq!(find_vendor_interface(&ifaces), Ok(3));
    assert_eq!(find_vendor_interface(&ifaces[..1]), Err(FpError::InterfaceNotFound));
    let eps = [
        EndpointDesc { address: 0x81, is_in: true },
        EndpointDesc { address: 0x01, is_in: false },
        EndpointDesc { address: 0x02, is_in: false },
    ];
    assert_eq!(find_endpoints(&eps), Ok(Endpoints { bulk_out: 0x01, bulk_in: 0x81 }));
    assert_eq!(find_endpoints(&eps[1..]), Err(FpError::EndpointNotFound));
}

fn name() -> String {
    String::from("Level")
}

#[test]
fn values_from_metadata() {
    let int = Param::Int { name: name(), min: -5, max: 5 };
    assert_eq!(parse_value("-5", Some(&int), &Value::Int(0)), Ok(Value::Int(-5)));
    assert_eq!(parse_value("6", Some(&int), &Value::Int(0)), Err(ValueError::OutOfRange));
    assert_eq!(parse_value("x", Some(&int), &Value::Int(0)), Err(ValueError::NotANumber));
    let b = Param::Bool { name: name() };
    assert_eq!(parse_value("ON", Some(&b), &Value::Bool(false)), Ok(Value::Bool(true)));
    assert_eq!(parse_value("no", Some(&b), &Value::Bool(true)), Ok(Value::Bool(false)));
    assert_eq!(parse_value("maybe", Some(&b), &Value::Bool(true)), Err(ValueError::NotABool));
    let e = Param::Enum { name: name(), variants: vec!["Slow".into(), "Fast".into(), "Faster".into()] };
    assert_eq!(parse_value("1", Some(&e), &Value::Enum(0)), Ok(Value::Enum(1)));
    assert_eq!(
        parse_value("3", Some(&e), &Value::Enum(0)),
        Err(ValueError::EnumIndexOutOfRange { index: 3, count: 3 })
    );
    assert_eq!(parse_value("slo", Some(&e), &Value::Enum(0)), Ok(Value::Enum(0)));
    assert_eq!(parse_value("fast", Some(&e), &Value::Enum(0)), Err(ValueError::Ambiguous));
    assert_eq!(parse_value("medium", Some(&e), &Value::Enum(0)), Err(ValueError::NoMatch));
    let c = Param::Curve { name: name(), variants: vec![Curve::Linear, Curve::Exponential] };
    assert_eq!(parse_value("Exponential", Some(&c), &Value::Int(0)), Ok(Value::Curve(Curve::Exponential)));
    assert_eq!(parse_value("logarithmic", Some(&c), &Value::Int(0)), Err(ValueError::Unknown));
    let w = Param::Waveform { name: name(), variants: vec![Waveform::SawInv] };
    assert_eq!(parse_value("sawinv", Some(&w), &Value::Int(0)), Ok(Value::Waveform(Waveform::SawInv)));
    let col = Param::Color { name: name(), variants: vec![Color::Red, Color::Custom(10, 200, 3)] };
    assert_eq!(parse_value("RED", Some(&col), &Value::Int(0)), Ok(Value::Color(Color::Red)));
    assert_eq!(
        parse_value("Custom(10, 200, 3)", Some(&col), &Value::Int(0)),
        Ok(Value::Color(Color::Custom(10, 200, 3)))
    );
    let n = Param::Note { name: name(), variants: vec![Note::C, Note::CSharp] };
    assert_eq!(parse_value("csharp", Some(&n), &Value::Int(0)), Ok(Value::Note(Note::CSharp)));
    let r = Param::Range { name: name(), variants: vec![Range::_0_5V] };
    assert_eq!(parse_value("0-5V", Some(&r), &Value::Int(0)), Ok(Value::Range(Range::_0_5V)));
    assert_eq!(
        parse_value("7v", Some(&r), &Value::Int(0)),
        Err(ValueError::Usage(UsageError::UnknownRange))
    );
}

#[test]
fn midi_values() {
    let cc = Param::MidiCc { name: name() };
    assert_eq!(parse_value("127", Some(&cc), &Value::Int(0)), Ok(Value::MidiCc(MidiCc(127))));
    assert_eq!(parse_value("128", Some(&cc), &Value::Int(0)), Err(ValueError::OutOfRange));
    assert_eq!(parse_value("256", Some(&cc), &Value::Int(0)), Err(ValueError::NotANumber));
    let ch = Param::MidiChannel { name: name() };
    assert_eq!(parse_value("16", Some(&ch), &Value::Int(0)), Ok(Value::MidiChannel(MidiChannel(16))));
    assert_eq!(parse_value("0", Some(&ch), &Value::Int(0)), Err(ValueError::OutOfRange));
    let note = Param::MidiNote { name: name() };
    assert_eq!(parse_value("60", Some(&note), &Value::Int(0)), Ok(Value::MidiNote(MidiNote(60))));
    assert_eq!(parse_value("CC", Some(&Param::MidiMode), &Value::Int(0)), Ok(Value::MidiMode(MidiMode::Cc)));
    assert_eq!(parse_value("drum", Some(&Param::MidiMode), &Value::Int(0)), Err(ValueError::Unknown));
    assert_eq!(
        parse_value("din", Some(&Param::MidiIn), &Value::Int(0)),
        Ok(Value::MidiIn(MidiIn([false, true])))
    );
    assert_eq!(
        parse_value("out2", Some(&Param::MidiOut), &Value::Int(0)),
        Ok(Value::MidiOut(MidiOut([false, false, true])))
    );
}

#[test]
fn values_inferred_from_current() {
    assert_eq!(parse_value("-7", None, &Value::Int(3)), Ok(Value::Int(-7)));
    assert_eq!(parse_value("yes", Some(&Param::Unset), &Value::Bool(false)), Ok(Value::Bool(true)));
    assert_eq!(parse_value("whatever", None, &Value::Bool(true)), Ok(Value::Bool(false)));
    assert_eq!(parse_value("4", None, &Value::Enum(0)), Ok(Value::Enum(4)));
    assert_eq!(parse_value("0", None, &Value::MidiChannel(MidiChannel(1))), Ok(Value::MidiChannel(MidiChannel(0))));
    assert_eq!(parse_value("c", None, &Value::Note(Note::C)), Err(ValueError::CannotInfer));
    assert!(needs_float(None, &Value::Float(F32Bits(0))));
    let f = Param::Float { name: name(), min: F32Bits(0), max: F32Bits(0) };
    assert!(needs_float(Some(&f), &Value::Int(0)));
    assert!(!needs_float(Some(&Param::MidiIn), &Value::Float(F32Bits(0))));
}

#[test]
fn param_references() {
    let params = vec![
        Param::Int { name: "Speed".into(), min: 0, max: 1 },
        Param::MidiIn,
        Param::Bool { name: "Sped up".into() },
        Param::Bool { name: "Gate".into() },
    ];
    assert_eq!(resolve_param("2", 4, &params), Ok(2));
    assert_eq!(resolve_param("4", 4, &params), Err(ParamRefError::IndexOutOfRange { index: 4, count: 4 }));
    assert_eq!(resolve_param("GATE", 4, &params), Ok(3));
    assert_eq!(resolve_param("spe", 4, &params), Err(ParamRefError::Ambiguous));
    assert_eq!(resolve_param("zzz", 4, &params), Err(ParamRefError::NoMatch));
    assert_eq!(get_param_name(&params[0]), "Speed");
    assert_eq!(get_param_name(&params[1]), "");
}

#[test]
fn set_params_array() {
    let current = [Value::Int(1), Value::Bool(true)];
    let v = param_values(&current, 1, Value::Bool(false));
    assert_eq!(v[0], Some(Value::Int(1)));
    assert_eq!(v[1], Some(Value::Bool(false)));
    assert_eq!(v[2], None);
    let v = param_values(&current, 5, Value::Enum(2));
    assert_eq!(v[5], Some(Value::Enum(2)));
    assert_eq!(v[4], None);
}

#[test]
fn config_words() {
    assert_eq!(parse_takeover_mode("Jump"), Some(TakeoverMode::Jump));
    assert_eq!(parse_takeover_mode("grab"), None);
    assert!(valid_brightness(100));
    assert!(!valid_brightness(99));
}
