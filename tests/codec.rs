use faderpunk::codec::{decode_message, encode_message, FpError};
use faderpunk::protocol::{
    AppDetails, AppIcon, AuxJackMode, ClockConfig, ClockDivision, ClockSrc, Color, ConfigMsgIn,
    ConfigMsgOut, Curve, F32Bits, GlobalConfig, I2cMode, Key, Layout, MidiCc, MidiChannel,
    MidiConfig, MidiIn, MidiMode, MidiNote, MidiOut, MidiOutConfig, MidiOutMode, Note, Param,
    QuantizerConfig, Range, ResetSrc, TakeoverMode, Value, Waveform,
};
use faderpunk::wire::Wire;

fn sample_config() -> GlobalConfig {
    GlobalConfig {
        aux: [AuxJackMode::Off, AuxJackMode::ClockOut(ClockDivision::_24), AuxJackMode::ResetOut],
        clock: ClockConfig {
            clock_src: ClockSrc::MidiUsb,
            ext_ppqn: 24,
            reset_src: ResetSrc::Cube,
            internal_bpm: F32Bits(120.5f32.to_bits()),
        },
        i2c_mode: I2cMode::Follower,
        led_brightness: 200,
        midi: MidiConfig {
            outs: [
                MidiOutConfig { send_clock: true, send_transport: false, mode: MidiOutMode::Off },
                MidiOutConfig {
                    send_clock: false,
                    send_transport: true,
                    mode: MidiOutMode::MidiThru { sources: MidiIn([true, false]) },
                },
                MidiOutConfig {
                    send_clock: true,
                    send_transport: true,
                    mode: MidiOutMode::MidiMerge { sources: MidiIn([false, true]) },
                },
            ],
        },
        quantizer: QuantizerConfig { key: Key::HungarianMin, tonic: Note::FSharp },
        takeover_mode: TakeoverMode::Scale,
    }
}

fn sample_layout() -> Layout {
    let mut slots = [None; 16];
    slots[0] = Some((5, 2, 0));
    slots[4] = Some((17, 1, 3));
    slots[15] = Some((255, 1, 15));
    Layout(slots)
}

fn all_values() -> Vec<Value> {
    vec![
        Value::Int(-123456),
        Value::Int(i32::MAX),
        Value::Int(i32::MIN),
        Value::Float(F32Bits((-2.5f32).to_bits())),
        Value::Bool(true),
        Value::Enum(70000),
        Value::Curve(Curve::Exponential),
        Value::Waveform(Waveform::SawInv),
        Value::Color(Color::Custom(1, 0, 255)),
        Value::Color(Color::LightBlue),
        Value::Range(Range::_Neg5_5V),
        Value::Note(Note::B),
        Value::MidiCc(MidiCc(127)),
        Value::MidiChannel(MidiChannel(16)),
        Value::MidiIn(MidiIn([true, true])),
        Value::MidiMode(MidiMode::Cc),
        Value::MidiNote(MidiNote(60)),
        Value::MidiOut(MidiOut([false, true, true])),
    ]
}

fn all_requests() -> Vec<ConfigMsgIn> {
    let mut values = [None; 16];
    for (i, v) in all_values().into_iter().take(16).enumerate() {
        if i % 3 != 1 {
            values[i] = Some(v);
        }
    }
    vec![
        ConfigMsgIn::Ping,
        ConfigMsgIn::GetAllApps,
        ConfigMsgIn::GetGlobalConfig,
        ConfigMsgIn::SetGlobalConfig(sample_config()),
        ConfigMsgIn::GetLayout,
        ConfigMsgIn::SetLayout(sample_layout()),
        ConfigMsgIn::GetAllAppParams,
        ConfigMsgIn::GetAppParams { layout_id: 7 },
        ConfigMsgIn::SetAppParams { layout_id: 3, values },
        ConfigMsgIn::FactoryReset,
    ]
}

fn all_params() -> Vec<Param> {
    let n = || String::from("Speed ✓");
    vec![
        Param::Unset,
        Param::Int { name: n(), min: -10, max: 10 },
        Param::Float { name: n(), min: F32Bits(0.0f32.to_bits()), max: F32Bits(1.0f32.to_bits()) },
        Param::Bool { name: n() },
        Param::Enum { name: n(), variants: vec![String::from("a"), String::new()] },
        Param::Curve { name: n(), variants: vec![Curve::Linear, Curve::Logarithmic] },
        Param::Waveform { name: n(), variants: vec![Waveform::Sine] },
        Param::Color { name: n(), variants: vec![Color::Red, Color::Custom(9, 8, 7)] },
        Param::Range { name: n(), variants: vec![Range::_0_10V, Range::_0_5V] },
        Param::Note { name: n(), variants: vec![] },
        Param::MidiCc { name: n() },
        Param::MidiChannel { name: n() },
        Param::MidiIn,
        Param::MidiMode,
        Param::MidiNote { name: n() },
        Param::MidiOut,
    ]
}

fn all_responses() -> Vec<ConfigMsgOut> {
    vec![
        ConfigMsgOut::Pong,
        ConfigMsgOut::BatchMsgStart(3),
        ConfigMsgOut::BatchMsgEnd,
        ConfigMsgOut::GlobalConfig(sample_config()),
        ConfigMsgOut::Layout(sample_layout()),
        ConfigMsgOut::AppConfig(
            9,
            2,
            AppDetails {
                param_count: 16,
                name: String::from("Euclid"),
                description: String::from("Rhythms ünïcode"),
                color: Color::Violet,
                icon: AppIcon::Stereo,
                params: all_params(),
            },
        ),
        ConfigMsgOut::AppState(4, all_values()),
    ]
}

#[test]
fn every_request_round_trips() {
    for msg in all_requests() {
        let bytes = encode_message(&msg);
        assert_eq!(decode_message::<ConfigMsgIn>(&bytes), Ok(msg));
    }
}

#[test]
fn every_response_round_trips() {
    for msg in all_responses() {
        let bytes = encode_message(&msg);
        assert_eq!(decode_message::<ConfigMsgOut>(&bytes), Ok(msg));
    }
}

#[test]
fn trailing_bytes_are_ignored() {
    let mut bytes = encode_message(&ConfigMsgIn::GetAppParams { layout_id: 2 });
    bytes.extend_from_slice(&[1, 2, 3]);
    assert_eq!(decode_message::<ConfigMsgIn>(&bytes), Ok(ConfigMsgIn::GetAppParams { layout_id: 2 }));
}

#[test]
fn truncated_input_fails() {
    for msg in all_responses() {
        let bytes = encode_message(&msg);
        for cut in 0..bytes.len() {
            assert_eq!(
                decode_message::<ConfigMsgOut>(&bytes[..cut]),
                Err(FpError::DecodeError),
                "{:?} cut at {}",
                msg,
                cut
            );
        }
    }
}

#[test]
fn discriminant_selects_declared_variant() {
    let expected = [
        ConfigMsgIn::Ping,
        ConfigMsgIn::GetAllApps,
        ConfigMsgIn::GetGlobalConfig,
    ];
    for (i, m) in expected.iter().enumerate() {
        assert_eq!(decode_message::<ConfigMsgIn>(&[i as u8]), Ok(*m));
    }
    assert_eq!(decode_message::<ConfigMsgIn>(&[4]), Ok(ConfigMsgIn::GetLayout));
    assert_eq!(decode_message::<ConfigMsgIn>(&[6]), Ok(ConfigMsgIn::GetAllAppParams));
    assert_eq!(decode_message::<ConfigMsgIn>(&[9]), Ok(ConfigMsgIn::FactoryReset));
    assert_eq!(decode_message::<ConfigMsgOut>(&[0]), Ok(ConfigMsgOut::Pong));
    assert_eq!(decode_message::<ConfigMsgOut>(&[2]), Ok(ConfigMsgOut::BatchMsgEnd));
}

#[test]
fn discriminant_out_of_range_fails() {
    for d in 10u8..=127 {
        assert_eq!(decode_message::<ConfigMsgIn>(&[d]), Err(FpError::DecodeError));
    }
    for d in 7u8..=127 {
        assert_eq!(decode_message::<ConfigMsgOut>(&[d, 0, 0, 0]), Err(FpError::DecodeError));
    }
    // a multi-byte discriminant of 128
    assert_eq!(decode_message::<ConfigMsgIn>(&[0x80, 0x01]), Err(FpError::DecodeError));
}

#[test]
fn overlong_length_prefix_fails() {
    // AppState(1, len = 5) with only one value present
    let bytes = [6u8, 1, 5, 2, 1];
    assert_eq!(decode_message::<ConfigMsgOut>(&bytes), Err(FpError::DecodeError));
    // a name whose length runs past the end
    let bytes = [5u8, 1, 1, 0, 9, b'a'];
    assert_eq!(decode_message::<ConfigMsgOut>(&bytes), Err(FpError::DecodeError));
}

#[test]
fn invalid_bool_and_option_tags_fail() {
    // GetAppParams is fine, SetAppParams with an option tag of 2 is not
    let mut bytes = vec![8u8, 0, 2];
    bytes.extend_from_slice(&[0; 15]);
    assert_eq!(decode_message::<ConfigMsgIn>(&bytes), Err(FpError::DecodeError));
    // Value::Bool(2)
    let bytes = [6u8, 0, 1, 2, 2];
    assert_eq!(decode_message::<ConfigMsgOut>(&bytes), Err(FpError::DecodeError));
}

#[test]
fn invalid_utf8_name_fails() {
    let bytes = [5u8, 1, 1, 0, 1, 0xff, 0, 0, 0, 0, 0];
    assert_eq!(decode_message::<ConfigMsgOut>(&bytes), Err(FpError::DecodeError));
}

#[test]
fn ping_is_one_byte() {
    assert_eq!(encode_message(&ConfigMsgIn::Ping), vec![0]);
    assert_eq!(encode_message(&ConfigMsgIn::GetAppParams { layout_id: 0x2a }), vec![7, 0x2a]);
}

#[test]
fn layout_encoding_is_positional() {
    let mut slots = [None; 16];
    slots[0] = Some((5u8, 2usize, 0u8));
    let bytes = encode_message(&ConfigMsgIn::SetLayout(Layout(slots)));
    let mut expected = vec![5u8, 1, 5, 2, 0];
    expected.extend_from_slice(&[0; 15]);
    assert_eq!(bytes, expected);
}

#[test]
fn primitives_match_postcard() {
    for v in [0usize, 1, 127, 128, 255, 300, 16384, usize::MAX] {
        let mut out = Vec::new();
        v.encode(&mut out);
        assert_eq!(out, postcard::to_allocvec(&(v as u64)).unwrap());
    }
    for v in [0i32, -1, 1, -64, 64, i32::MAX, i32::MIN, 123456] {
        let mut out = Vec::new();
        v.encode(&mut out);
        assert_eq!(out, postcard::to_allocvec(&v).unwrap());
    }
    let f = 3.25f32;
    let mut out = Vec::new();
    F32Bits(f.to_bits()).encode(&mut out);
    assert_eq!(out, postcard::to_allocvec(&f).unwrap());
    let s = String::from("héllo");
    let mut out = Vec::new();
    s.encode(&mut out);
    assert_eq!(out, postcard::to_allocvec(&s).unwrap());
    let o: Option<u8> = Some(9);
    let mut out = Vec::new();
    o.encode(&mut out);
    assert_eq!(out, postcard::to_allocvec(&o).unwrap());
    let b = [true, false, true];
    let mut out = Vec::new();
    b.encode(&mut out);
    assert_eq!(out, postcard::to_allocvec(&b).unwrap());
}

#[test]
fn zigzag_values() {
    let mut out = Vec::new();
    (-1i32).encode(&mut out);
    assert_eq!(out, vec![1]);
    let mut out = Vec::new();
    (1i32).encode(&mut out);
    assert_eq!(out, vec![2]);
    let mut out = Vec::new();
    (300usize).encode(&mut out);
    assert_eq!(out, vec![0xac, 0x02]);
}
