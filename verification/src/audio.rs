//! The audio module: the icons shown for the default input and output
//! devices, from their form factor and the bus they are on.

use vstd::prelude::*;

use crate::text::{chars_eq_str, chars_of};

verus! {

/// The form factors that have an icon.
pub open spec fn form_factors() -> Seq<Seq<char>> {
    seq![
        "internal"@, "handset"@, "tv"@, "webcam"@, "microphone"@, "car"@, "hifi"@, "computer"@,
        "portable"@, "hands-free"@, "speaker"@, "headphone"@, "headphones"@, "headset"@,
    ]
}

/// The icon of the form factor `ff`.
pub open spec fn spec_form_factor_icon(ff: Seq<char>) -> Seq<char> {
    if ff == "speaker"@ {
        "󰕾"@
    } else if ff == "headphone"@ || ff == "headphones"@ {
        "󰋋"@
    } else if ff == "headset"@ {
        "󰋎"@
    } else {
        "UFF"@
    }
}

/// Whether `ff` is a form factor with an icon.
pub fn is_form_factor(ff: &str) -> (r: bool)
    ensures
        r == form_factors().contains(ff@),
{
    let c = chars_of(ff);
    let s = c.as_slice();
    let r = chars_eq_str(s, "internal") || chars_eq_str(s, "handset") || chars_eq_str(s, "tv")
        || chars_eq_str(s, "webcam") || chars_eq_str(s, "microphone") || chars_eq_str(s, "car")
        || chars_eq_str(s, "hifi") || chars_eq_str(s, "computer") || chars_eq_str(s, "portable")
        || chars_eq_str(s, "hands-free") || chars_eq_str(s, "speaker") || chars_eq_str(s, "headphone")
        || chars_eq_str(s, "headphones") || chars_eq_str(s, "headset");
    proof {
        let f = form_factors();
        if r {
            if ff@ == f[0] { assert(f.contains(ff@)); }
            else if ff@ == f[1] { assert(f.contains(ff@)); }
            else if ff@ == f[2] { assert(f.contains(ff@)); }
            else if ff@ == f[3] { assert(f.contains(ff@)); }
            else if ff@ == f[4] { assert(f.contains(ff@)); }
            else if ff@ == f[5] { assert(f.contains(ff@)); }
            else if ff@ == f[6] { assert(f.contains(ff@)); }
            else if ff@ == f[7] { assert(f.contains(ff@)); }
            else if ff@ == f[8] { assert(f.contains(ff@)); }
            else if ff@ == f[9] { assert(f.contains(ff@)); }
            else if ff@ == f[10] { assert(f.contains(ff@)); }
            else if ff@ == f[11] { assert(f.contains(ff@)); }
            else if ff@ == f[12] { assert(f.contains(ff@)); }
            else { assert(ff@ == f[13]); assert(f.contains(ff@)); }
        } else {
            assert forall|i: int| 0 <= i < f.len() implies f[i] != ff@ by {}
        }
    }
    r
}

/// The icon of the form factor `ff`, one of those with an icon.
pub fn form_factor_to_icon(ff: &str) -> (r: &'static str)
    requires
        form_factors().contains(ff@),
    ensures
        r@ == spec_form_factor_icon(ff@),
{
    let c = chars_of(ff);
    let s = c.as_slice();
    if chars_eq_str(s, "speaker") {
        "󰕾"
    } else if chars_eq_str(s, "headphone") || chars_eq_str(s, "headphones") {
        "󰋋"
    } else if chars_eq_str(s, "headset") {
        "󰋎"
    } else {
        "UFF"
    }
}

/// The buses that have an icon (no bus has one too).
pub open spec fn buses() -> Seq<Seq<char>> {
    seq!["pci"@, "isa"@, "firewire"@, "usb"@, "bluetooth"@]
}

/// Whether `bus` has an icon.
pub open spec fn is_known_bus(bus: Option<Seq<char>>) -> bool {
    match bus {
        None => true,
        Some(b) => buses().contains(b),
    }
}

/// The icon of the bus `bus`.
pub open spec fn spec_bus_icon(bus: Option<Seq<char>>) -> Seq<char> {
    match bus {
        None => ""@,
        Some(b) => if b == "pci"@ {
            ""@
        } else if b == "bluetooth"@ {
            "󰂯 "@
        } else {
            "UB"@
        },
    }
}

/// The view of an optional text.
pub open spec fn opt_view(s: Option<&str>) -> Option<Seq<char>> {
    match s {
        Some(t) => Some(t@),
        None => None,
    }
}

/// Whether `bus` has an icon.
pub fn is_bus(bus: Option<&str>) -> (r: bool)
    ensures
        r == is_known_bus(opt_view(bus)),
{
    match bus {
        None => true,
        Some(b) => {
            let c = chars_of(b);
            let s = c.as_slice();
            let r = chars_eq_str(s, "pci") || chars_eq_str(s, "isa") || chars_eq_str(s, "firewire")
                || chars_eq_str(s, "usb") || chars_eq_str(s, "bluetooth");
            proof {
                let f = buses();
                if r {
                    if b@ == f[0] { assert(f.contains(b@)); }
                    else if b@ == f[1] { assert(f.contains(b@)); }
                    else if b@ == f[2] { assert(f.contains(b@)); }
                    else if b@ == f[3] { assert(f.contains(b@)); }
                    else { assert(b@ == f[4]); assert(f.contains(b@)); }
                } else {
                    assert forall|i: int| 0 <= i < f.len() implies f[i] != b@ by {}
                }
            }
            r
        },
    }
}

/// The icon of the bus `bus`, one of those with an icon.
pub fn bus_to_icon(bus: Option<&str>) -> (r: &'static str)
    requires
        is_known_bus(opt_view(bus)),
    ensures
        r@ == spec_bus_icon(opt_view(bus)),
{
    match bus {
        None => "",
        Some(b) => {
            let c = chars_of(b);
            let s = c.as_slice();
            if chars_eq_str(s, "pci") {
                ""
            } else if chars_eq_str(s, "bluetooth") {
                "󰂯 "
            } else {
                "UB"
            }
        },
    }
}

/// The icons of the default input device: its bus, its form factor (a
/// microphone when unknown), and a space.
pub open spec fn spec_input_icons(bus: Option<Seq<char>>, ff: Option<Seq<char>>) -> Seq<char> {
    spec_bus_icon(bus) + match ff {
        Some(f) => spec_form_factor_icon(f),
        None => "\u{f130}"@,
    } + " "@
}

/// The icons of the default output device: its bus, and its form factor
/// (a speaker when unknown).
pub open spec fn spec_output_icons(bus: Option<Seq<char>>, ff: Option<Seq<char>>) -> Seq<char> {
    spec_bus_icon(bus) + match ff {
        Some(f) => spec_form_factor_icon(f),
        None => "󰕾"@,
    }
}

/// The icons of the default input device.
pub fn input_icons(bus: Option<&str>, form_factor: Option<&str>) -> (r: String)
    requires
        is_known_bus(opt_view(bus)),
        form_factor matches Some(f) ==> form_factors().contains(f@),
    ensures
        r@ == spec_input_icons(opt_view(bus), opt_view(form_factor)),
{
    let mut out = bus_to_icon(bus).to_owned();
    match form_factor {
        Some(f) => out.append(form_factor_to_icon(f)),
        None => out.append("\u{f130}"),
    }
    out.append(" ");
    proof {
        reveal_strlit(" ");
    }
    assert(out@ =~= spec_input_icons(opt_view(bus), opt_view(form_factor)));
    out
}

/// The icons of the default output device.
pub fn output_icons(bus: Option<&str>, form_factor: Option<&str>) -> (r: String)
    requires
        is_known_bus(opt_view(bus)),
        form_factor matches Some(f) ==> form_factors().contains(f@),
    ensures
        r@ == spec_output_icons(opt_view(bus), opt_view(form_factor)),
{
    let mut out = bus_to_icon(bus).to_owned();
    match form_factor {
        Some(f) => out.append(form_factor_to_icon(f)),
        None => out.append("󰕾"),
    }
    assert(out@ =~= spec_output_icons(opt_view(bus), opt_view(form_factor)));
    out
}

/// Law: the icons say what a device is. A speaker shows \u{f057e}, and an
/// output whose form factor is unknown shows the speaker too; headphones
/// (either name) show \u{f02cb}, a headset \u{f02ce}, and the other known
/// form factors `UFF`; an input whose form factor is unknown shows a
/// microphone \u{f130}. A Bluetooth device is marked \u{f00af} and a
/// space, one on a PCI bus or on none is not marked, and one on another
/// known bus is marked `UB`. The bus mark comes first.
pub proof fn law_audio_icons(bus: Option<Seq<char>>, ff: Seq<char>)
    ensures
        (ff == "speaker"@) ==> spec_form_factor_icon(ff) == seq!['\u{f057e}'],
        (ff == "headphone"@ || ff == "headphones"@) ==> spec_form_factor_icon(ff) == seq!['\u{f02cb}'],
        (ff == "headset"@) ==> spec_form_factor_icon(ff) == seq!['\u{f02ce}'],
        form_factors().contains(ff) && ff != "speaker"@ && ff != "headphone"@ && ff != "headphones"@
            && ff != "headset"@ ==> spec_form_factor_icon(ff) == seq!['U', 'F', 'F'],
        spec_output_icons(bus, None) == spec_bus_icon(bus) + seq!['\u{f057e}'],
        spec_input_icons(bus, None) == spec_bus_icon(bus) + seq!['\u{f130}', ' '],
        bus == Some("bluetooth"@) ==> spec_bus_icon(bus) == seq!['\u{f00af}', ' '],
        (bus is None || bus == Some("pci"@)) ==> spec_bus_icon(bus) == Seq::<char>::empty(),
        (bus matches Some(b) && buses().contains(b) && b != "pci"@ && b != "bluetooth"@)
            ==> spec_bus_icon(bus) == seq!['U', 'B'],
{
    reveal_strlit("󰕾");
    reveal_strlit("󰋋");
    reveal_strlit("󰋎");
    reveal_strlit("UFF");
    reveal_strlit("\u{f130}");
    reveal_strlit(" ");
    reveal_strlit("");
    reveal_strlit("󰂯 ");
    reveal_strlit("UB");
    reveal_strlit("speaker");
    reveal_strlit("headphone");
    reveal_strlit("headphones");
    reveal_strlit("headset");
    reveal_strlit("pci");
    reveal_strlit("bluetooth");
    assert("headset"@[0] != "speaker"@[0]);
    assert("headset"@.len() == 7 && "headphone"@.len() == 9 && "headphones"@.len() == 10);
    assert("pci"@.len() == 3 && "bluetooth"@.len() == 9);
    assert(spec_input_icons(bus, None) =~= spec_bus_icon(bus) + seq!['\u{f130}', ' ']);
    assert(spec_output_icons(bus, None) =~= spec_bus_icon(bus) + seq!['\u{f057e}']);
}

/// Which way a device carries sound.
#[derive(Clone, Copy, Debug, PartialEq, Eq, Structural)]
pub enum Direction {
    Input,
    Output,
}

/// The text shown for a muted device.
pub fn muted_text(direction: Direction) -> (r: &'static str)
    ensures
        r@ == match direction {
            Direction::Input => "\u{f131}"@,
            Direction::Output => "\u{f0581}"@,
        },
{
    match direction {
        Direction::Input => "\u{f131}",
        Direction::Output => "\u{f0581}",
    }
}

} // verus!
