use faderpunk::cli::{
    find_entry_at_slot, layout_entries, parse_midi_ports_in, parse_midi_ports_out, parse_range,
    resolve_app, validate_slot, AppInfo, LayoutEntry, UsageError,
};
use faderpunk::display::{clock_div_value, color_to_rgb, contrast_text_rgb, format_aux, icon_char};
use faderpunk::protocol::{AppIcon, AuxJackMode, ClockDivision, Color, Layout, Range};
use faderpunk::text::{contains_bytes, parse_unsigned};

fn app(id: u8, channels: usize, name: &str) -> AppInfo {
    AppInfo {
        app_id: id,
        channels,
        name: name.to_string(),
        color: Color::White,
        icon: AppIcon::Fader,
        params: vec![],
    }
}

fn apps() -> Vec<AppInfo> {
    vec![app(1, 1, "Fader"), app(2, 2, "Euclid"), app(7, 1, "Random Fader"), app(9, 4, "Sequencer")]
}

#[test]
fn slots_one_to_sixteen() {
    assert_eq!(validate_slot(1), Ok(()));
    assert_eq!(validate_slot(16), Ok(()));
    assert_eq!(validate_slot(0), Err(UsageError::InvalidSlot(0)));
    assert_eq!(validate_slot(17), Err(UsageError::InvalidSlot(17)));
}

#[test]
fn entries_in_slot_order() {
    let mut slots = [None; 16];
    slots[3] = Some((2, 2, 1));
    slots[0] = Some((1, 1, 0));
    let e = layout_entries(&Layout(slots));
    assert_eq!(
        e,
        vec![
            LayoutEntry { start: 0, size: 1, app_id: 1, layout_id: 0 },
            LayoutEntry { start: 3, size: 2, app_id: 2, layout_id: 1 },
        ]
    );
    assert!(layout_entries(&Layout([None; 16])).is_empty());
}

#[test]
fn entry_at_slot() {
    let mut slots = [None; 16];
    slots[3] = Some((2, 2, 1));
    let e = layout_entries(&Layout(slots));
    assert_eq!(find_entry_at_slot(&e, 4).map(|x| x.app_id), Some(2));
    assert_eq!(find_entry_at_slot(&e, 5).map(|x| x.app_id), Some(2));
    assert_eq!(find_entry_at_slot(&e, 6), None);
    assert_eq!(find_entry_at_slot(&e, 3), None);
}

#[test]
fn resolve_by_id_and_name() {
    let a = apps();
    assert_eq!(resolve_app("2", &a), Ok((2, 2)));
    assert_eq!(resolve_app("+9", &a), Ok((9, 4)));
    assert_eq!(resolve_app("3", &a), Err(UsageError::NoAppWithId(3)));
    assert_eq!(resolve_app("euc", &a), Ok((2, 2)));
    assert_eq!(resolve_app("SEQ", &a), Ok((9, 4)));
    assert_eq!(resolve_app("fader", &a), Err(UsageError::AmbiguousApp));
    assert_eq!(resolve_app("random", &a), Ok((7, 1)));
    assert_eq!(resolve_app("nothing", &a), Err(UsageError::NoAppMatching));
    assert_eq!(resolve_app("300", &a), Err(UsageError::NoAppMatching));
}

#[test]
fn unsigned_numbers() {
    assert_eq!(parse_unsigned("255", 255), Some(255));
    assert_eq!(parse_unsigned("256", 255), None);
    assert_eq!(parse_unsigned("007", 255), Some(7));
    assert_eq!(parse_unsigned("+", 255), None);
    assert_eq!(parse_unsigned("", 255), None);
    assert_eq!(parse_unsigned("-1", 255), None);
    assert_eq!(parse_unsigned("1a", 255), None);
    assert_eq!(parse_unsigned("99999999999999999999", u64::MAX), None);
    assert_eq!(parse_unsigned("18446744073709551615", u64::MAX), Some(u64::MAX));
}

#[test]
fn substring_search() {
    assert!(contains_bytes(b"usb+din", b"din"));
    assert!(contains_bytes(b"abc", b""));
    assert!(!contains_bytes(b"ab", b"abc"));
    assert!(!contains_bytes(b"out", b"out1"));
}

#[test]
fn ranges() {
    let all = [Range::_0_10V, Range::_0_5V, Range::_Neg5_5V];
    assert_eq!(parse_range("0-10V", &all), Ok(Range::_0_10V));
    assert_eq!(parse_range(" 0 - 5 v", &all), Ok(Range::_0_5V));
    assert_eq!(parse_range("_Neg5_5V", &all), Ok(Range::_Neg5_5V));
    assert_eq!(parse_range("bipolar", &[Range::_0_10V]), Ok(Range::_Neg5_5V));
    assert_eq!(parse_range("10v", &[]), Ok(Range::_0_10V));
    assert_eq!(parse_range("12v", &all), Err(UsageError::UnknownRange));
}

#[test]
fn midi_input_ports() {
    assert_eq!(parse_midi_ports_in("none"), Ok((false, false)));
    assert_eq!(parse_midi_ports_in("Both"), Ok((true, true)));
    assert_eq!(parse_midi_ports_in("usb"), Ok((true, false)));
    assert_eq!(parse_midi_ports_in("USB+DIN"), Ok((true, true)));
    assert_eq!(parse_midi_ports_in("midi"), Err(UsageError::NoMidiInPorts));
}

#[test]
fn midi_output_ports() {
    assert_eq!(parse_midi_ports_out("off"), Ok((false, false, false)));
    assert_eq!(parse_midi_ports_out("all"), Ok((true, true, true)));
    assert_eq!(parse_midi_ports_out("usb+out2"), Ok((true, false, true)));
    assert_eq!(parse_midi_ports_out("1"), Ok((false, true, false)));
    assert_eq!(parse_midi_ports_out("din"), Err(UsageError::NoMidiOutPorts));
}

#[test]
fn colours_and_icons() {
    assert_eq!(color_to_rgb(&Color::Yellow), (255, 174, 0));
    assert_eq!(color_to_rgb(&Color::Custom(1, 2, 3)), (1, 2, 3));
    assert_eq!(contrast_text_rgb(&Color::White), (0, 0, 0));
    assert_eq!(contrast_text_rgb(&Color::Blue), (255, 255, 255));
    assert_eq!(icon_char(&AppIcon::Die), "\u{2684}");
    assert_eq!(icon_char(&AppIcon::Stereo), "\u{29bf}");
}

#[test]
fn aux_labels() {
    assert_eq!(clock_div_value(&ClockDivision::_384), "384");
    assert_eq!(format_aux(&AuxJackMode::ClockOut(ClockDivision::_12)), "Clock ÷12");
    assert_eq!(format_aux(&AuxJackMode::ResetOut), "Reset");
    assert_eq!(format_aux(&AuxJackMode::Off), "\u{1b}[2m\u{2500}\u{1b}[0m");
}
