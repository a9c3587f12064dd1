//! The battery module: from the readings of the battery's power supply
//! files, the icon, the style classes, and the remaining time to empty or to
//! full.

use vstd::prelude::*;

use crate::number::{decimal_text, push_decimal};

verus! {

/// What the battery is doing, as its `status` file says.
#[derive(Clone, Copy, Debug, PartialEq, Eq, Structural)]
pub enum Status {
    Charging,
    Discharging,
    Full,
    NotCharging,
    Unknown,
}

/// The status that the text `name` of the `status` file names; any other
/// text is an unknown status.
pub open spec fn spec_status(name: Seq<char>) -> Status {
    if name == "Charging"@ {
        Status::Charging
    } else if name == "Discharging"@ {
        Status::Discharging
    } else if name == "Full"@ {
        Status::Full
    } else if name == "Not charging"@ {
        Status::NotCharging
    } else {
        Status::Unknown
    }
}

/// Law: each status is read from the text the kernel's power supply class
/// writes for it in `status` (`Charging`, `Discharging`, `Full`,
/// `Not charging`), and any other text reads as an unknown status.
pub proof fn law_status_names(s: Status, name: Seq<char>)
    ensures
        ({
            let own = match s {
                Status::Charging => "Charging"@,
                Status::Discharging => "Discharging"@,
                Status::Full => "Full"@,
                Status::NotCharging => "Not charging"@,
                Status::Unknown => "Unknown"@,
            };
            &&& spec_status(own) == s
            &&& s != Status::Unknown && spec_status(name) == s ==> name == own
        }),
{
    reveal_strlit("Charging");
    reveal_strlit("Discharging");
    reveal_strlit("Full");
    reveal_strlit("Not charging");
    reveal_strlit("Unknown");
    assert("Charging"@.len() == 8 && "Discharging"@.len() == 11 && "Full"@.len() == 4
        && "Not charging"@.len() == 12 && "Unknown"@.len() == 7);
}

impl Status {
    /// The status named `name` (the trimmed text of the `status` file).
    pub fn from_name(name: &str) -> (r: Status)
        ensures
            r == spec_status(name@),
    {
        let chars = crate::text::chars_of(name);
        if crate::text::chars_eq_str(chars.as_slice(), "Charging") {
            Status::Charging
        } else if crate::text::chars_eq_str(chars.as_slice(), "Discharging") {
            Status::Discharging
        } else if crate::text::chars_eq_str(chars.as_slice(), "Full") {
            Status::Full
        } else if crate::text::chars_eq_str(chars.as_slice(), "Not charging") {
            Status::NotCharging
        } else {
            Status::Unknown
        }
    }
}

/// The readings of the battery's power supply files.
#[derive(Clone, Copy, Debug, PartialEq, Eq, Structural)]
pub struct Readings {
    pub status: Status,
    /// Charge in percent.
    pub capacity: u32,
    /// Energy when full, in µWh.
    pub energy_full: u32,
    /// Energy now, in µWh.
    pub energy_now: u32,
    /// Power drawn or received now, in µW.
    pub power_now: u32,
    /// Voltage now, in µV.
    pub voltage_now: u32,
}

/// How low the charge is.
#[derive(Clone, Copy, Debug, PartialEq, Eq, Structural)]
pub enum Level {
    /// At most 5 %.
    Critical,
    /// At most 15 %.
    Warning,
    /// Above.
    Normal,
}

/// The charge level of `capacity` percent.
pub open spec fn spec_level(capacity: u32) -> Level {
    if capacity <= 5 {
        Level::Critical
    } else if capacity <= 15 {
        Level::Warning
    } else {
        Level::Normal
    }
}

/// The battery icons from empty to full, one for each tenth of charge.
pub open spec fn discharging_icons() -> Seq<Seq<char>> {
    seq![
        "󰂎"@, "󰁺"@, "󰁻"@, "󰁼"@, "󰁽"@, "󰁾"@, "󰁿"@, "󰂀"@, "󰂁"@, "󰂂"@, "󰁹"@,
    ]
}

/// The readings in the unit the computations use: the voltage in mV, and
/// the energies divided by it.
pub open spec fn volts(r: Readings) -> int {
    r.voltage_now as int / 1000
}

/// The remaining charge.
pub open spec fn remaining(r: Readings) -> int {
    r.energy_now as int / volts(r)
}

/// The rate of charge or discharge.
pub open spec fn rate(r: Readings) -> int {
    r.power_now as int / volts(r)
}

/// The charge when full.
pub open spec fn full_charge(r: Readings) -> int {
    r.energy_full as int / volts(r)
}

/// Whether the readings can be shown: the voltage is at least 1 mV, the
/// charge is at most 104 % (so that its icon exists), and the remaining time
/// in seconds fits in 32 bits (the charge not above the full charge while
/// charging).
pub open spec fn spec_readable(r: Readings) -> bool {
    &&& volts(r) > 0
    &&& (r.status == Status::Discharging ==> r.capacity <= 104 && (rate(r) > 0 ==> 3600
        * remaining(r) <= u32::MAX))
    &&& (r.status == Status::Charging && rate(r) > 0 ==> remaining(r) <= full_charge(r) && 3600
        * (full_charge(r) - remaining(r)) <= u32::MAX)
}

/// Whether the readings `r` can be shown (see [`spec_readable`]).
#[verifier::when_used_as_spec(spec_readable)]
pub fn readable(r: Readings) -> (b: bool)
    ensures
        b == spec_readable(r),
{
    let volts = r.voltage_now / 1000;
    if volts == 0 {
        return false;
    }
    let remaining = r.energy_now / volts;
    let rate = r.power_now / volts;
    let full = r.energy_full / volts;
    let discharging_ok = match r.status {
        Status::Discharging => r.capacity <= 104 && (rate == 0 || (remaining as u64) * 3600
            <= u32::MAX as u64),
        _ => true,
    };
    let charging_ok = match r.status {
        Status::Charging => rate == 0 || (remaining <= full && ((full - remaining) as u64) * 3600
            <= u32::MAX as u64),
        _ => true,
    };
    discharging_ok && charging_ok
}

/// The icon shown before the charge.
pub open spec fn spec_icon(r: Readings) -> Seq<char> {
    match r.status {
        Status::Discharging => discharging_icons()[(r.capacity + 5) / 10],
        Status::Charging => "󰂄"@,
        Status::Full => "\u{f1e6}"@,
        Status::NotCharging => "\u{f1e6}"@,
        Status::Unknown => "?"@,
    }
}

/// The style class of the status.
pub open spec fn spec_class(s: Status) -> Seq<char> {
    match s {
        Status::Discharging => "discharging"@,
        Status::Charging => "charging"@,
        Status::Full => "full"@,
        Status::NotCharging => "not-charging"@,
        Status::Unknown => ""@,
    }
}

/// The seconds until the battery is empty (discharging) or full
/// (charging), when power flows.
pub open spec fn spec_seconds(r: Readings) -> Option<u32> {
    match r.status {
        Status::Discharging => if rate(r) > 0 {
            Some((3600 * remaining(r) / rate(r)) as u32)
        } else {
            None
        },
        Status::Charging => if rate(r) > 0 {
            Some((3600 * (full_charge(r) - remaining(r)) / rate(r)) as u32)
        } else {
            None
        },
        _ => None,
    }
}

/// The text of the charge: the icon, two spaces, the percentage.
pub open spec fn spec_percentage_text(r: Readings) -> Seq<char> {
    spec_icon(r) + "  "@ + decimal_text(r.capacity as nat) + "%"@
}

/// Law: the percentage text starts with the icon of what the battery does:
/// the charging bolt \u{f0084} exactly while it charges; the plug
/// \u{f1e6} when it is full or not charging; while it discharges, the
/// battery icon filled to the nearest tenth of its charge, from empty
/// \u{f008e} to full \u{f0079}; `?` when the status is unknown. Two spaces,
/// the charge and `%` follow.
pub proof fn law_percentage_icon(r: Readings)
    requires
        r.status == Status::Discharging ==> r.capacity <= 104,
    ensures
        ({
            let text = spec_percentage_text(r);
            let levels = seq![
                '\u{f008e}', '\u{f007a}', '\u{f007b}', '\u{f007c}', '\u{f007d}', '\u{f007e}',
                '\u{f007f}', '\u{f0080}', '\u{f0081}', '\u{f0082}', '\u{f0079}',
            ];
            &&& text[0] == '\u{f0084}' <==> r.status == Status::Charging
            &&& (r.status == Status::Full || r.status == Status::NotCharging) ==> text[0] == '\u{f1e6}'
            &&& r.status == Status::Discharging ==> text[0] == levels[((r.capacity + 5) / 10) as int]
            &&& r.status == Status::Unknown ==> text[0] == '?'
            &&& text.subrange(1, 3) == seq![' ', ' ']
            &&& text.last() == '%'
        }),
{
    reveal_strlit("󰂄");
    reveal_strlit("\u{f1e6}");
    reveal_strlit("?");
    reveal_strlit("  ");
    reveal_strlit("%");
    reveal_strlit("󰂎");
    reveal_strlit("󰁺");
    reveal_strlit("󰁻");
    reveal_strlit("󰁼");
    reveal_strlit("󰁽");
    reveal_strlit("󰁾");
    reveal_strlit("󰁿");
    reveal_strlit("󰂀");
    reveal_strlit("󰂁");
    reveal_strlit("󰂂");
    reveal_strlit("󰁹");
    let text = spec_percentage_text(r);
    let icon = spec_icon(r);
    assert(icon.len() == 1);
    assert(text[0] == icon[0]);
    assert(text.subrange(1, 3) =~= seq![' ', ' ']);
}

/// The text of a remaining time of `seconds`: minutes, and hours in front
/// when there is at least one.
pub open spec fn spec_time_text(seconds: u32) -> Seq<char> {
    let minutes = seconds / 60;
    let hours = minutes / 60;
    let rest = minutes % 60;
    if hours == 0 {
        "󰅐  "@ + decimal_text(rest as nat) + "min"@
    } else {
        "󰅐  "@ + decimal_text(hours as nat) + "h "@ + decimal_text(rest as nat) + "min"@
    }
}

/// What the battery module shows.
#[derive(Clone, Debug)]
pub struct BatteryView {
    /// The style class of the status.
    pub class: &'static str,
    /// The charge level, which adds a style class below 16 %.
    pub level: Level,
    /// The icon and the percentage.
    pub percentage: String,
    /// The seconds to empty or to full, when power flows.
    pub seconds: Option<u32>,
    /// The text of that time, shown when it is not zero.
    pub time: Option<String>,
}

/// The text of a remaining time of `seconds`.
pub fn time_text(seconds: u32) -> (r: String)
    ensures
        r@ == spec_time_text(seconds),
{
    let minutes = seconds / 60;
    let hours = minutes / 60;
    let rest = minutes % 60;
    let mut out = "󰅐  ".to_owned();
    if hours != 0 {
        push_decimal(&mut out, hours as u64);
        out.append("h ");
    }
    push_decimal(&mut out, rest as u64);
    out.append("min");
    proof {
        reveal_strlit("󰅐  ");
        reveal_strlit("h ");
        reveal_strlit("min");
    }
    assert(out@ =~= spec_time_text(seconds));
    out
}

fn discharging_icon(capacity: u32) -> (r: &'static str)
    requires
        capacity <= 104,
    ensures
        r@ == discharging_icons()[(capacity + 5) / 10],
{
    let i = (capacity + 5) / 10;
    let r = if i == 0 {
        "󰂎"
    } else if i == 1 {
        "󰁺"
    } else if i == 2 {
        "󰁻"
    } else if i == 3 {
        "󰁼"
    } else if i == 4 {
        "󰁽"
    } else if i == 5 {
        "󰁾"
    } else if i == 6 {
        "󰁿"
    } else if i == 7 {
        "󰂀"
    } else if i == 8 {
        "󰂁"
    } else if i == 9 {
        "󰂂"
    } else {
        "󰁹"
    };
    r
}

/// What the battery module shows for the readings `r`.
pub fn battery_view(r: Readings) -> (v: BatteryView)
    requires
        spec_readable(r),
    ensures
        v.class@ == spec_class(r.status),
        v.level == spec_level(r.capacity),
        v.percentage@ == spec_percentage_text(r),
        v.seconds == spec_seconds(r),
        match spec_seconds(r) {
            Some(s) => if s == 0 {
                v.time is None
            } else {
                v.time matches Some(t) && t@ == spec_time_text(s)
            },
            None => v.time is None,
        },
{
    let voltage = r.voltage_now / 1000;
    let remaining_capacity = r.energy_now / voltage;
    let present_rate = r.power_now / voltage;
    let last_capacity = r.energy_full / voltage;
    let (icon, class, seconds): (&'static str, &'static str, Option<u32>) = match r.status {
        Status::Discharging => {
            let seconds = if present_rate > 0 {
                Some(3600 * remaining_capacity / present_rate)
            } else {
                None
            };
            (discharging_icon(r.capacity), "discharging", seconds)
        },
        Status::Charging => {
            let seconds = if present_rate > 0 {
                Some(3600 * (last_capacity - remaining_capacity) / present_rate)
            } else {
                None
            };
            ("󰂄", "charging", seconds)
        },
        Status::Full => ("\u{f1e6}", "full", None),
        Status::NotCharging => ("\u{f1e6}", "not-charging", None),
        Status::Unknown => ("?", "", None),
    };
    let level = if r.capacity <= 5 {
        Level::Critical
    } else if r.capacity <= 15 {
        Level::Warning
    } else {
        Level::Normal
    };
    let mut percentage = icon.to_owned();
    percentage.append("  ");
    push_decimal(&mut percentage, r.capacity as u64);
    percentage.append("%");
    proof {
        reveal_strlit("  ");
        reveal_strlit("%");
    }
    assert(percentage@ =~= spec_percentage_text(r));
    let time = match seconds {
        Some(s) => if s == 0 {
            None
        } else {
            Some(time_text(s))
        },
        None => None,
    };
    BatteryView { class, level, percentage, seconds, time }
}


/// `p / q` rounded to the nearest integer, a half to the even one, as the
/// `{:.0}` format rounds the quotient of two integers of 32 bits.
pub open spec fn rounded_half_even(p: nat, q: nat) -> nat
    recommends
        q > 0,
{
    let n = p / q;
    let rem = p % q;
    if 2 * rem > q || (2 * rem == q && n % 2 == 1) {
        n + 1
    } else {
        n
    }
}

/// The text of the battery's health: its energy when full in percent of
/// the energy it was designed to hold when full, rounded. A design energy
/// of zero gives an infinite health, or no number at all when the energy
/// when full is zero too, as the division of floats does.
pub open spec fn spec_health_text(energy_full: u32, energy_full_design: u32) -> Seq<char> {
    "\u{f08d0}  "@ + (if energy_full_design == 0 {
        if energy_full == 0 {
            "NaN"@
        } else {
            "inf"@
        }
    } else {
        decimal_text(rounded_half_even(100 * energy_full as nat, energy_full_design as nat))
    }) + "%"@
}

/// The text of the battery's health, from the energy when full and the
/// energy it was designed to hold when full.
pub fn health_text(energy_full: u32, energy_full_design: u32) -> (r: String)
    requires
        energy_full * 100 <= u32::MAX,
    ensures
        r@ == spec_health_text(energy_full, energy_full_design),
{
    let mut out = "\u{f08d0}  ".to_owned();
    if energy_full_design == 0 {
        if energy_full == 0 {
            out.append("NaN");
        } else {
            out.append("inf");
        }
    } else {
        let p = energy_full * 100;
        let n = p / energy_full_design;
        let rem = p % energy_full_design;
        let rounded: u64 = if rem > energy_full_design - rem || (rem == energy_full_design - rem
            && n % 2 == 1) {
            n as u64 + 1
        } else {
            n as u64
        };
        push_decimal(&mut out, rounded);
    }
    out.append("%");
    proof {
        reveal_strlit("\u{f08d0}  ");
        reveal_strlit("NaN");
        reveal_strlit("inf");
        reveal_strlit("%");
    }
    assert(out@ =~= spec_health_text(energy_full, energy_full_design));
    out
}

} // verus!
