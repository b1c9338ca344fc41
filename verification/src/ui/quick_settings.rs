//! The quick-settings panel: labels it shows and the command outputs it reads.
use vstd::prelude::*;

use crate::text::{
    chars_of, concat, contains, contains_chars, decimal, decimal_chars, find_char, find_char_in,
    first_line_containing, first_line_with, lemma_find_char_spec, parse_u32, parse_u32_chars,
    same_chars, starts_with, starts_with_chars, string_of, strip_end, strip_end_chars, subvec,
    trim, trim_chars,
};

verus! {

broadcast use vstd::string::group_string_axioms;

// ---------------------------------------------------------------------------
// Labels
// ---------------------------------------------------------------------------

/// The battery glyph for a charge: full from 80 to 100 %, then 50, then 20,
/// else (and above 100) the low one.
pub open spec fn battery_glyph(pct: u32) -> Seq<char> {
    if 80 <= pct <= 100 {
        "󰁹"@
    } else if 50 <= pct <= 79 {
        "󰂀"@
    } else if 20 <= pct <= 49 {
        "󰂂"@
    } else {
        "󰂃"@
    }
}

/// The battery glyph for a charge.
pub fn battery_icon(pct: u32) -> (r: &'static str)
    ensures
        r@ == battery_glyph(pct),
{
    if 80 <= pct && pct <= 100 {
        "󰁹"
    } else if 50 <= pct && pct <= 79 {
        "󰂀"
    } else if 20 <= pct && pct <= 49 {
        "󰂂"
    } else {
        "󰂃"
    }
}

/// A percentage as the panel writes it: `<n>%`.
pub open spec fn percent_text(n: nat) -> Seq<char> {
    decimal(n) + "%"@
}

/// A percentage as the panel writes it.
pub fn percent_label(n: u32) -> (r: String)
    ensures
        r@ == percent_text(n as nat),
{
    string_of(&concat(&decimal_chars(n as usize), &chars_of("%")))
}

/// The battery label: the glyph, a space, and the percentage.
pub fn battery_label(pct: u32) -> (r: String)
    ensures
        r@ == battery_glyph(pct) + " "@ + percent_text(pct as nat),
{
    let head = concat(&chars_of(battery_icon(pct)), &chars_of(" "));
    let tail = concat(&decimal_chars(pct as usize), &chars_of("%"));
    string_of(&concat(&head, &tail))
}

/// The argument of `brightnessctl set` for a slider position: the percentage,
/// at most 100.
pub fn brightness_argument(pct: u32) -> (r: String)
    ensures
        r@ == percent_text(if pct <= 100 {
            pct as nat
        } else {
            100
        }),
{
    let p = if pct <= 100 {
        pct
    } else {
        100
    };
    percent_label(p)
}

// ---------------------------------------------------------------------------
// Command outputs
// ---------------------------------------------------------------------------

/// `split(sep).next()`: the text up to the first separator.
pub open spec fn first_field(l: Seq<char>, sep: char) -> Seq<char> {
    match find_char(l, sep) {
        Some(j) => l.take(j),
        None => l,
    }
}

/// `split(sep).nth(1)`: the text between the first and the second separator
/// (or the end); none without a separator.
pub open spec fn second_field(l: Seq<char>, sep: char) -> Option<Seq<char>> {
    match find_char(l, sep) {
        Some(i) => Some(first_field(l.skip(i + 1), sep)),
        None => None,
    }
}

fn first_field_chars(v: &Vec<char>, sep: char) -> (r: Vec<char>)
    ensures
        r@ == first_field(v@, sep),
{
    match find_char_in(v, sep) {
        Some(j) => {
            proof {
                lemma_find_char_spec(v@, sep);
            }
            let r = subvec(v, 0, j);
            assert(r@ =~= v@.take(j as int));
            r
        },
        None => {
            let r = subvec(v, 0, v.len());
            assert(r@ =~= v@);
            r
        },
    }
}

fn second_field_chars(v: &Vec<char>, sep: char) -> (r: Option<Vec<char>>)
    ensures
        match r {
            Some(f) => second_field(v@, sep) == Some(f@),
            None => second_field(v@, sep) is None,
        },
{
    match find_char_in(v, sep) {
        Some(i) => {
            proof {
                lemma_find_char_spec(v@, sep);
                assert(find_char(v@, sep) == Some(i as int));
                assert(i < v.len());
            }
            let rest = subvec(v, i + 1, v.len());
            assert(rest@ =~= v@.skip(i + 1));
            Some(first_field_chars(&rest, sep))
        },
        None => None,
    }
}

/// The battery device in the output of `upower -e`: the first line naming a
/// `BAT`, trimmed.
pub open spec fn battery_device_of(list: Seq<char>) -> Option<Seq<char>> {
    match first_line_with(list, "BAT"@) {
        Some(l) => Some(trim(l)),
        None => None,
    }
}

/// The battery device in the output of `upower -e`.
pub fn battery_device(list: &str) -> (r: Option<String>)
    ensures
        match r {
            Some(d) => battery_device_of(list@) == Some(d@),
            None => battery_device_of(list@) is None,
        },
{
    match first_line_containing(&chars_of(list), &chars_of("BAT")) {
        Some(l) => Some(string_of(&trim_chars(&l))),
        None => None,
    }
}

/// The charge in the output of `upower -i <battery>`: from the first line
/// holding `percentage:`, the text after its first colon (up to a second
/// one), trimmed and without trailing `%`, as a number.
pub open spec fn battery_percentage_of(info: Seq<char>) -> Option<u32> {
    match first_line_with(info, "percentage:"@) {
        Some(l) => match second_field(l, ':') {
            Some(f) => parse_u32(strip_end(trim(f), '%')),
            None => None,
        },
        None => None,
    }
}

/// The charge in the output of `upower -i <battery>`.
pub fn battery_percentage(info: &str) -> (r: Option<u32>)
    ensures
        r == battery_percentage_of(info@),
{
    match first_line_containing(&chars_of(info), &chars_of("percentage:")) {
        Some(l) => match second_field_chars(&l, ':') {
            Some(f) => parse_u32_chars(&strip_end_chars(&trim_chars(&f), '%')),
            None => None,
        },
        None => None,
    }
}

/// The charge that a battery's `capacity` file holds: its trimmed text as a number.
pub fn battery_capacity(text: &str) -> (r: Option<u32>)
    ensures
        r == parse_u32(trim(text@)),
{
    parse_u32_chars(&trim_chars(&chars_of(text)))
}

/// The brightness in the output of `brightnessctl`: from the first line
/// holding `Current brightness:`, the text after its first `(` (up to the
/// next one) and before a `%`, trimmed, as a number.
pub open spec fn brightness_percent_of(out: Seq<char>) -> Option<u32> {
    match first_line_with(out, "Current brightness:"@) {
        Some(l) => match second_field(l, '(') {
            Some(f) => parse_u32(trim(first_field(f, '%'))),
            None => None,
        },
        None => None,
    }
}

/// The brightness in the output of `brightnessctl`.
pub fn brightness_percent(out: &str) -> (r: Option<u32>)
    ensures
        r == brightness_percent_of(out@),
{
    match first_line_containing(&chars_of(out), &chars_of("Current brightness:")) {
        Some(l) => match second_field_chars(&l, '(') {
            Some(f) => parse_u32_chars(&trim_chars(&first_field_chars(&f, '%'))),
            None => None,
        },
        None => None,
    }
}

// ---------------------------------------------------------------------------
// Connection status
// ---------------------------------------------------------------------------

/// The status that the panel caches for a connection: `connected:<name>`,
/// `disconnected`, or `error` where the daemon could not tell.
pub open spec fn status_text(outcome: Option<Option<Seq<char>>>) -> Seq<char> {
    match outcome {
        Some(Some(name)) => "connected:"@ + name,
        Some(None) => "disconnected"@,
        None => "error"@,
    }
}

/// The status that the panel caches for a connection; `None` stands for a
/// failed query, `Some(None)` for no connection.
pub fn status_key(outcome: &Option<Option<String>>) -> (r: String)
    ensures
        r@ == status_text(match outcome {
            Some(Some(n)) => Some(Some(n@)),
            Some(None) => Some(None),
            None => None,
        }),
{
    match outcome {
        Some(Some(name)) => string_of(&concat(&chars_of("connected:"), &chars_of(name.as_str()))),
        Some(None) => "disconnected".to_string(),
        None => "error".to_string(),
    }
}

/// A Bluetooth status change that calls for a fresh list of audio outputs:
/// there was a status before, it changed, and a device got connected or
/// disconnected.
pub open spec fn audio_refresh_due(cached: Seq<char>, new_status: Seq<char>) -> bool {
    &&& cached.len() > 0
    &&& cached != new_status
    &&& starts_with(cached, "connected:"@) != starts_with(new_status, "connected:"@)
}

/// Whether a Bluetooth status change calls for a fresh list of audio outputs.
pub fn audio_refresh_needed(cached: &str, new_status: &str) -> (r: bool)
    ensures
        r == audio_refresh_due(cached@, new_status@),
{
    let c = chars_of(cached);
    let n = chars_of(new_status);
    let prefix = chars_of("connected:");
    c.len() > 0 && !same_chars(&c, &n) && starts_with_chars(&c, &prefix) != starts_with_chars(
        &n,
        &prefix,
    )
}

/// The status that the panel caches for the Warp tunnel: `connected`,
/// `disconnected`, or `error` where `warp-cli` could not be asked.
pub fn warp_status_key(connected: Option<bool>) -> (r: &'static str)
    ensures
        r@ == (match connected {
            Some(true) => "connected"@,
            Some(false) => "disconnected"@,
            None => "error"@,
        }),
{
    match connected {
        Some(true) => "connected",
        Some(false) => "disconnected",
        None => "error",
    }
}

/// Whether the output of `warp-cli status` reports a connection.
pub fn warp_connected(status_output: &str) -> (r: bool)
    ensures
        r == contains(status_output@, "Connected"@),
{
    contains_chars(&chars_of(status_output), &chars_of("Connected"))
}

/// The `warp-cli` command that toggles the connection, given the status line
/// the panel shows: `disconnect` where it reports a connection, else `connect`.
pub fn warp_toggle_command(status_label: &str) -> (r: &'static str)
    ensures
        r@ == (if contains(status_label@, "Connected"@) {
            "disconnect"@
        } else {
            "connect"@
        }),
{
    if contains_chars(&chars_of(status_label), &chars_of("Connected")) {
        "disconnect"
    } else {
        "connect"
    }
}

// ---------------------------------------------------------------------------
// Power profiles
// ---------------------------------------------------------------------------

/// A power profile of `powerprofilesctl`.
#[derive(Debug, Clone, Copy, PartialEq, Eq, Structural)]
pub enum PowerProfile {
    PowerSaver,
    Balanced,
    Performance,
}

/// The name of a profile for `powerprofilesctl`.
pub open spec fn profile_text(p: PowerProfile) -> Seq<char> {
    match p {
        PowerProfile::PowerSaver => "power-saver"@,
        PowerProfile::Balanced => "balanced"@,
        PowerProfile::Performance => "performance"@,
    }
}

/// The name of a profile for `powerprofilesctl`.
pub fn profile_name(p: PowerProfile) -> (r: &'static str)
    ensures
        r@ == profile_text(p),
{
    match p {
        PowerProfile::PowerSaver => "power-saver",
        PowerProfile::Balanced => "balanced",
        PowerProfile::Performance => "performance",
    }
}

/// The profile that the output of `powerprofilesctl get` names, once trimmed.
pub open spec fn profile_of(out: Seq<char>) -> Option<PowerProfile> {
    let t = trim(out);
    if t == "power-saver"@ {
        Some(PowerProfile::PowerSaver)
    } else if t == "balanced"@ {
        Some(PowerProfile::Balanced)
    } else if t == "performance"@ {
        Some(PowerProfile::Performance)
    } else {
        None
    }
}

/// The name given to `powerprofilesctl` for a profile is read back as that
/// same profile, so no two profiles share a name.
pub proof fn lemma_profile_round_trip(p: PowerProfile)
    ensures
        profile_of(profile_text(p)) == Some(p),
        forall|q: PowerProfile| profile_text(q) == profile_text(p) ==> q == p,
{
    reveal_strlit("power-saver");
    reveal_strlit("balanced");
    reveal_strlit("performance");
    assert(trim("power-saver"@) == "power-saver"@);
    assert(trim("balanced"@) == "balanced"@);
    assert(trim("performance"@) == "performance"@);
    assert("power-saver"@ != "balanced"@);
    assert("power-saver"@ != "performance"@);
    assert("balanced"@ != "performance"@);
}

/// The profile that the output of `powerprofilesctl get` names.
pub fn profile_from_output(out: &str) -> (r: Option<PowerProfile>)
    ensures
        r == profile_of(out@),
{
    let t = trim_chars(&chars_of(out));
    if same_chars(&t, &chars_of("power-saver")) {
        Some(PowerProfile::PowerSaver)
    } else if same_chars(&t, &chars_of("balanced")) {
        Some(PowerProfile::Balanced)
    } else if same_chars(&t, &chars_of("performance")) {
        Some(PowerProfile::Performance)
    } else {
        None
    }
}

// ---------------------------------------------------------------------------
// Tiles
// ---------------------------------------------------------------------------

/// How a tile's status line is drawn: plain, or highlighted as connected.
#[derive(Debug, Clone, Copy, PartialEq, Eq)]
pub enum TileStyle {
    Plain,
    Connected,
}

/// What a tile shows: its title, its status line and how the status line is
/// drawn.
#[derive(Debug, Clone, PartialEq, Eq)]
pub struct TileText {
    pub label: String,
    pub sublabel: String,
    pub style: TileStyle,
}

/// The tile of a connection (Wi-Fi, Bluetooth): the connected network or
/// device by name, highlighted; else the tile's own name over "Not
/// connected", or over "Unavailable" where the daemon could not tell.
pub open spec fn connection_tile_of(name: Seq<char>, outcome: Option<Option<Seq<char>>>) -> (
    Seq<char>,
    Seq<char>,
    TileStyle,
) {
    match outcome {
        Some(Some(connected)) => (connected, "● Connected"@, TileStyle::Connected),
        Some(None) => (name, "Not connected"@, TileStyle::Plain),
        None => (name, "Unavailable"@, TileStyle::Plain),
    }
}

/// The tile of a connection named `name`; `None` stands for a failed query,
/// `Some(None)` for no connection.
pub fn connection_tile(name: &str, outcome: &Option<Option<String>>) -> (r: TileText)
    ensures
        (r.label@, r.sublabel@, r.style) == connection_tile_of(
            name@,
            match outcome {
                Some(Some(n)) => Some(Some(n@)),
                Some(None) => Some(None),
                None => None,
            },
        ),
{
    match outcome {
        Some(Some(connected)) => TileText {
            label: connected.clone(),
            sublabel: "● Connected".to_string(),
            style: TileStyle::Connected,
        },
        Some(None) => TileText {
            label: name.to_string(),
            sublabel: "Not connected".to_string(),
            style: TileStyle::Plain,
        },
        None => TileText {
            label: name.to_string(),
            sublabel: "Unavailable".to_string(),
            style: TileStyle::Plain,
        },
    }
}

/// The Warp tile: "Warp" over "● Connected" (highlighted), "Disconnected",
/// or "Unavailable" where `warp-cli` could not be asked.
pub open spec fn warp_tile_of(connected: Option<bool>) -> (Seq<char>, Seq<char>, TileStyle) {
    match connected {
        Some(true) => ("Warp"@, "● Connected"@, TileStyle::Connected),
        Some(false) => ("Warp"@, "Disconnected"@, TileStyle::Plain),
        None => ("Warp"@, "Unavailable"@, TileStyle::Plain),
    }
}

/// The Warp tile.
pub fn warp_tile(connected: Option<bool>) -> (r: TileText)
    ensures
        (r.label@, r.sublabel@, r.style) == warp_tile_of(connected),
{
    match connected {
        Some(true) => TileText {
            label: "Warp".to_string(),
            sublabel: "● Connected".to_string(),
            style: TileStyle::Connected,
        },
        Some(false) => TileText {
            label: "Warp".to_string(),
            sublabel: "Disconnected".to_string(),
            style: TileStyle::Plain,
        },
        None => TileText {
            label: "Warp".to_string(),
            sublabel: "Unavailable".to_string(),
            style: TileStyle::Plain,
        },
    }
}

/// The CSS classes of a tile's status line: `qs-secondary`, and `connected`
/// where it is highlighted.
pub open spec fn tile_classes_of(style: TileStyle) -> Seq<Seq<char>> {
    match style {
        TileStyle::Plain => seq!["qs-secondary"@],
        TileStyle::Connected => seq!["qs-secondary"@, "connected"@],
    }
}

/// The CSS classes of a tile's status line.
pub fn tile_classes(style: TileStyle) -> (r: Vec<&'static str>)
    ensures
        r@.map_values(|c: &'static str| c@) == tile_classes_of(style),
{
    let mut r: Vec<&'static str> = Vec::new();
    r.push("qs-secondary");
    match style {
        TileStyle::Plain => {},
        TileStyle::Connected => r.push("connected"),
    }
    assert(r@.map_values(|c: &'static str| c@) =~= tile_classes_of(style));
    r
}

/// Whether a tile is redrawn: only where its cached status differs from the
/// new one.
pub fn status_changed(cached: &str, new_status: &str) -> (r: bool)
    ensures
        r == (cached@ != new_status@),
{
    !same_chars(&chars_of(cached), &chars_of(new_status))
}

// ---------------------------------------------------------------------------
// Showing and hiding
// ---------------------------------------------------------------------------

/// What toggling the panel does: show it and refresh the connection tiles,
/// or hide it.
#[derive(Debug, Clone, Copy, PartialEq, Eq)]
pub enum PanelStep {
    ShowAndRefresh,
    Hide,
}

/// Toggling the panel: it becomes visible where it was hidden, and the other
/// way round; a panel that becomes visible is shown and its connection tiles
/// are refreshed, one that becomes hidden is hidden.
pub fn toggle_panel(visible: bool) -> (r: (bool, PanelStep))
    ensures
        r.0 == !visible,
        r.1 == (if visible { PanelStep::Hide } else { PanelStep::ShowAndRefresh }),
{
    if visible {
        (false, PanelStep::Hide)
    } else {
        (true, PanelStep::ShowAndRefresh)
    }
}

} // verus!
