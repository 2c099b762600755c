//! What the command-line tool shows: LED colours, app icons, and short
//! labels.
use owo_colors::OwoColorize;
use vstd::prelude::*;
use vstd::string::StringExecFns;

use crate::protocol::{AppIcon, AuxJackMode, ClockDivision, Color};

verus! {

/// The RGB value that the device shows for `color`.
pub open spec fn rgb_of(color: Color) -> (u8, u8, u8) {
    match color {
        Color::White => (255, 255, 255),
        Color::Yellow => (255, 174, 0),
        Color::Orange => (255, 132, 0),
        Color::Red => (255, 0, 0),
        Color::Lime => (255, 240, 0),
        Color::Green => (132, 255, 0),
        Color::Cyan => (0, 255, 186),
        Color::SkyBlue => (0, 198, 255),
        Color::Blue => (6, 0, 255),
        Color::Violet => (246, 0, 255),
        Color::Pink => (255, 0, 150),
        Color::PaleGreen => (101, 255, 156),
        Color::Sand => (255, 216, 120),
        Color::Rose => (255, 120, 120),
        Color::Salmon => (255, 131, 131),
        Color::LightBlue => (115, 129, 255),
        Color::Custom(r, g, b) => (r, g, b),
    }
}

pub fn color_to_rgb(color: &Color) -> (r: (u8, u8, u8))
    ensures
        r == rgb_of(*color),
{
    match color {
        Color::White => (255, 255, 255),
        Color::Yellow => (255, 174, 0),
        Color::Orange => (255, 132, 0),
        Color::Red => (255, 0, 0),
        Color::Lime => (255, 240, 0),
        Color::Green => (132, 255, 0),
        Color::Cyan => (0, 255, 186),
        Color::SkyBlue => (0, 198, 255),
        Color::Blue => (6, 0, 255),
        Color::Violet => (246, 0, 255),
        Color::Pink => (255, 0, 150),
        Color::PaleGreen => (101, 255, 156),
        Color::Sand => (255, 216, 120),
        Color::Rose => (255, 120, 120),
        Color::Salmon => (255, 131, 131),
        Color::LightBlue => (115, 129, 255),
        Color::Custom(r, g, b) => (*r, *g, *b),
    }
}

/// Text colour that stays readable on a background of `rgb`: black on
/// bright colours, white on dark ones, by perceived luminance.
pub open spec fn text_rgb_on(rgb: (u8, u8, u8)) -> (u8, u8, u8) {
    if (rgb.0 as int * 299 + rgb.1 as int * 587 + rgb.2 as int * 114) / 1000 > 140 {
        (0, 0, 0)
    } else {
        (255, 255, 255)
    }
}

pub fn contrast_text_rgb(color: &Color) -> (r: (u8, u8, u8))
    ensures
        r == text_rgb_on(rgb_of(*color)),
{
    let (r, g, b) = color_to_rgb(color);
    let luminance = (r as u32 * 299 + g as u32 * 587 + b as u32 * 114) / 1000;
    if luminance > 140 {
        (0, 0, 0)
    } else {
        (255, 255, 255)
    }
}

/// The glyph that stands for `icon`.
pub open spec fn icon_glyph(icon: AppIcon) -> char {
    match icon {
        AppIcon::Fader => '\u{2195}',
        AppIcon::AdEnv => '\u{2571}',
        AppIcon::Random => '\u{2248}',
        AppIcon::Euclid => '\u{25cb}',
        AppIcon::Attenuate => '\u{25bf}',
        AppIcon::Die => '\u{2684}',
        AppIcon::Quantize => '\u{266b}',
        AppIcon::Sequence => '\u{25a0}',
        AppIcon::Note => '\u{266a}',
        AppIcon::EnvFollower => '\u{223f}',
        AppIcon::SoftRandom => '\u{224b}',
        AppIcon::Sine => '\u{223f}',
        AppIcon::NoteBox => '\u{2669}',
        AppIcon::SequenceSquare => '\u{25a1}',
        AppIcon::NoteGrid => '\u{2637}',
        AppIcon::KnobRound => '\u{25c9}',
        AppIcon::Stereo => '\u{29bf}',
    }
}

pub fn icon_char(icon: &AppIcon) -> (r: &'static str)
    ensures
        r@ == seq![icon_glyph(*icon)],
{
    match icon {
        AppIcon::Fader => {
            proof {
                reveal_strlit("\u{2195}");
            }
            "\u{2195}"
        },
        AppIcon::AdEnv => {
            proof {
                reveal_strlit("\u{2571}");
            }
            "\u{2571}"
        },
        AppIcon::Random => {
            proof {
                reveal_strlit("\u{2248}");
            }
            "\u{2248}"
        },
        AppIcon::Euclid => {
            proof {
                reveal_strlit("\u{25cb}");
            }
            "\u{25cb}"
        },
        AppIcon::Attenuate => {
            proof {
                reveal_strlit("\u{25bf}");
            }
            "\u{25bf}"
        },
        AppIcon::Die => {
            proof {
                reveal_strlit("\u{2684}");
            }
            "\u{2684}"
        },
        AppIcon::Quantize => {
            proof {
                reveal_strlit("\u{266b}");
            }
            "\u{266b}"
        },
        AppIcon::Sequence => {
            proof {
                reveal_strlit("\u{25a0}");
            }
            "\u{25a0}"
        },
        AppIcon::Note => {
            proof {
                reveal_strlit("\u{266a}");
            }
            "\u{266a}"
        },
        AppIcon::EnvFollower => {
            proof {
                reveal_strlit("\u{223f}");
            }
            "\u{223f}"
        },
        AppIcon::SoftRandom => {
            proof {
                reveal_strlit("\u{224b}");
            }
            "\u{224b}"
        },
        AppIcon::Sine => {
            proof {
                reveal_strlit("\u{223f}");
            }
            "\u{223f}"
        },
        AppIcon::NoteBox => {
            proof {
                reveal_strlit("\u{2669}");
            }
            "\u{2669}"
        },
        AppIcon::SequenceSquare => {
            proof {
                reveal_strlit("\u{25a1}");
            }
            "\u{25a1}"
        },
        AppIcon::NoteGrid => {
            proof {
                reveal_strlit("\u{2637}");
            }
            "\u{2637}"
        },
        AppIcon::KnobRound => {
            proof {
                reveal_strlit("\u{25c9}");
            }
            "\u{25c9}"
        },
        AppIcon::Stereo => {
            proof {
                reveal_strlit("\u{29bf}");
            }
            "\u{29bf}"
        },
    }
}

/// The division factor of `div`, in decimal digits.
pub open spec fn division_label(div: ClockDivision) -> Seq<char> {
    match div {
        ClockDivision::_1 => seq!['1'],
        ClockDivision::_2 => seq!['2'],
        ClockDivision::_4 => seq!['4'],
        ClockDivision::_6 => seq!['6'],
        ClockDivision::_8 => seq!['8'],
        ClockDivision::_12 => seq!['1', '2'],
        ClockDivision::_24 => seq!['2', '4'],
        ClockDivision::_96 => seq!['9', '6'],
        ClockDivision::_192 => seq!['1', '9', '2'],
        ClockDivision::_384 => seq!['3', '8', '4'],
    }
}

pub fn clock_div_value(div: &ClockDivision) -> (r: &'static str)
    ensures
        r@ == division_label(*div),
{
    match div {
        ClockDivision::_1 => {
            proof {
                reveal_strlit("1");
            }
            "1"
        },
        ClockDivision::_2 => {
            proof {
                reveal_strlit("2");
            }
            "2"
        },
        ClockDivision::_4 => {
            proof {
                reveal_strlit("4");
            }
            "4"
        },
        ClockDivision::_6 => {
            proof {
                reveal_strlit("6");
            }
            "6"
        },
        ClockDivision::_8 => {
            proof {
                reveal_strlit("8");
            }
            "8"
        },
        ClockDivision::_12 => {
            proof {
                reveal_strlit("12");
            }
            "12"
        },
        ClockDivision::_24 => {
            proof {
                reveal_strlit("24");
            }
            "24"
        },
        ClockDivision::_96 => {
            proof {
                reveal_strlit("96");
            }
            "96"
        },
        ClockDivision::_192 => {
            proof {
                reveal_strlit("192");
            }
            "192"
        },
        ClockDivision::_384 => {
            proof {
                reveal_strlit("384");
            }
            "384"
        },
    }
}

/// Escape sequence that starts the dim style.
pub open spec fn dim_on() -> Seq<char> {
    seq!['\u{1b}', '[', '2', 'm']
}

/// Escape sequence that resets the style.
pub open spec fn style_reset() -> Seq<char> {
    seq!['\u{1b}', '[', '0', 'm']
}

/// Relies on owo-colors' `dimmed`: its `Display` writes the dim escape
/// sequence, the text, and the reset sequence, whatever the terminal.
#[verifier::external_body]
fn dimmed(s: &str) -> (r: String)
    ensures
        r@ == dim_on() + s@ + style_reset(),
{
    s.dimmed().to_string()
}

/// Label of an aux jack's mode.
pub open spec fn aux_label(aux: AuxJackMode) -> Seq<char> {
    match aux {
        AuxJackMode::Off => dim_on() + seq!['\u{2500}'] + style_reset(),
        AuxJackMode::ClockOut(div) => seq!['C', 'l', 'o', 'c', 'k', ' ', '\u{f7}'] + division_label(div),
        AuxJackMode::ResetOut => seq!['R', 'e', 's', 'e', 't'],
    }
}

pub fn format_aux(aux: &AuxJackMode) -> (r: String)
    ensures
        r@ == aux_label(*aux),
{
    match aux {
        AuxJackMode::Off => {
            let dash = "\u{2500}";
            proof {
                reveal_strlit("\u{2500}");
                assert(dash@ =~= seq!['\u{2500}']);
            }
            dimmed(dash)
        },
        AuxJackMode::ClockOut(div) => {
            proof {
                reveal_strlit("Clock \u{f7}");
            }
            let mut s = String::from_str("Clock \u{f7}");
            s.append(clock_div_value(div));
            s
        },
        AuxJackMode::ResetOut => {
            proof {
                reveal_strlit("Reset");
            }
            String::from_str("Reset")
        },
    }
}

} // verus!
