//! Audio outputs as WirePlumber's `wpctl status` reports them.
//!
//! The panel reads the text that `wpctl status` prints and turns its `Sinks:`
//! section into a list of outputs: each output gets a short display name, the
//! Bluetooth outputs get the id of their filter node (which is the node that
//! must be made default), and the default output is marked.
use vstd::prelude::*;

use crate::search::{first_match, lemma_first_match_at, lemma_first_match_none};
use crate::services::{outputs_view, opt_str_view, AudioOutput, AudioOutputView};
use crate::text::{
    all_ascii_digits, all_digits, char_utf8_len, chars_in_bytes, chars_in_bytes_of, chars_of, concat, contains,
    contains_chars, find_char, find_char_in, lemma_find_char_spec, lines, lowercase, next_line,
    rfind, rfind_chars, starts_with, starts_with_chars, string_of, strip_start, strip_start_chars,
    subvec, to_lowercase, trim, trim_chars, trim_start, trim_start_chars, utf8_len,
    utf8_len_exceeds,
};

verus! {

broadcast use vstd::string::group_string_axioms;

// ---------------------------------------------------------------------------
// Display names
// ---------------------------------------------------------------------------

/// The name without the first hardware-controller prefix that it starts with.
pub open spec fn strip_controller_prefix(n: Seq<char>) -> Seq<char> {
    let p1 = "Raptor Lake High Definition Audio Controller "@;
    let p2 = "Intel High Definition Audio Controller "@;
    let p3 = "High Definition Audio Controller "@;
    let p4 = "PCI "@;
    if starts_with(n, p1) {
        n.skip(p1.len() as int)
    } else if starts_with(n, p2) {
        n.skip(p2.len() as int)
    } else if starts_with(n, p3) {
        n.skip(p3.len() as int)
    } else if starts_with(n, p4) {
        n.skip(p4.len() as int)
    } else {
        n
    }
}

/// The name names a Bluetooth device.
pub open spec fn is_bluetooth_name(n: Seq<char>) -> bool {
    contains(n, "bluez"@) || contains(lowercase(n), "bluetooth"@)
}

/// The short display name of an output; `None` where the name would have to
/// be cut inside the encoding of a character (the cut is made after 32 bytes).
///
/// The name is trimmed and loses a controller prefix; an HDMI or DisplayPort
/// output is named from the last `HDMI` (or `DisplayPort`) on; a Bluetooth
/// output keeps its name; any other name longer than 35 bytes keeps its first
/// 32 bytes followed by `...`.
pub open spec fn shortened_name(name: Seq<char>) -> Option<Seq<char>> {
    let n = trim(name);
    let c = strip_controller_prefix(n);
    match rfind(c, "HDMI"@) {
        Some(p) => Some(c.skip(p)),
        None => match rfind(c, "DisplayPort"@) {
            Some(p) => Some(c.skip(p)),
            None => if is_bluetooth_name(n) {
                Some(c)
            } else if utf8_len(c) > 35 {
                match chars_in_bytes(c, 32) {
                    Some(k) => Some(c.take(k) + "..."@),
                    None => None,
                }
            } else {
                Some(c)
            },
        },
    }
}

fn strip_controller_prefix_chars(n: &Vec<char>) -> (r: Vec<char>)
    ensures
        r@ == strip_controller_prefix(n@),
{
    let p1 = chars_of("Raptor Lake High Definition Audio Controller ");
    let p2 = chars_of("Intel High Definition Audio Controller ");
    let p3 = chars_of("High Definition Audio Controller ");
    let p4 = chars_of("PCI ");
    if starts_with_chars(n, &p1) {
        let r = subvec(n, p1.len(), n.len());
        assert(r@ =~= n@.skip(p1.len() as int));
        r
    } else if starts_with_chars(n, &p2) {
        let r = subvec(n, p2.len(), n.len());
        assert(r@ =~= n@.skip(p2.len() as int));
        r
    } else if starts_with_chars(n, &p3) {
        let r = subvec(n, p3.len(), n.len());
        assert(r@ =~= n@.skip(p3.len() as int));
        r
    } else if starts_with_chars(n, &p4) {
        let r = subvec(n, p4.len(), n.len());
        assert(r@ =~= n@.skip(p4.len() as int));
        r
    } else {
        let r = subvec(n, 0, n.len());
        assert(r@ =~= n@);
        r
    }
}

/// The short display name, or `None` where the name would be cut inside a character.
fn shorten_chars(name: &Vec<char>) -> (r: Option<Vec<char>>)
    ensures
        match r {
            Some(x) => shortened_name(name@) == Some(x@),
            None => shortened_name(name@) is None,
        },
{
    let n = trim_chars(name);
    let c = strip_controller_prefix_chars(&n);
    if let Some(p) = rfind_chars(&c, &chars_of("HDMI")) {
        let r = subvec(&c, p, c.len());
        assert(r@ =~= c@.skip(p as int));
        return Some(r);
    }
    if let Some(p) = rfind_chars(&c, &chars_of("DisplayPort")) {
        let r = subvec(&c, p, c.len());
        assert(r@ =~= c@.skip(p as int));
        return Some(r);
    }
    let lower = to_lowercase(string_of(&n).as_str());
    if contains_chars(&n, &chars_of("bluez")) || contains_chars(
        &chars_of(lower.as_str()),
        &chars_of("bluetooth"),
    ) {
        return Some(c);
    }
    if utf8_len_exceeds(&c, 35) {
        match chars_in_bytes_of(&c, 32) {
            Some(k) => {
                let head = subvec(&c, 0, k);
                assert(head@ =~= c@.take(k as int));
                Some(concat(&head, &chars_of("...")))
            },
            None => None,
        }
    } else {
        Some(c)
    }
}

/// Whether shortening the name would cut inside the encoding of a character
/// (where the panel stops with a panic).
pub fn shortening_fails(name: &str) -> (r: bool)
    ensures
        r == (shortened_name(name@) is None),
{
    shorten_chars(&chars_of(name)).is_none()
}

/// The short display name of an output.
pub fn shorten_device_name(name: &str) -> (r: String)
    requires
        shortened_name(name@) is Some,
    ensures
        Some(r@) == shortened_name(name@),
{
    match shorten_chars(&chars_of(name)) {
        Some(x) => string_of(&x),
        None => String::new(),
    }
}

/// The short display name of an output, or `None` where the name would be cut
/// inside the encoding of a character.
pub fn try_shorten_device_name(name: &str) -> (r: Option<String>)
    ensures
        match r {
            Some(s) => shortened_name(name@) == Some(s@),
            None => shortened_name(name@) is None,
        },
{
    if shortening_fails(name) {
        None
    } else {
        Some(shorten_device_name(name))
    }
}

// ---------------------------------------------------------------------------
// Lines of `wpctl status`
// ---------------------------------------------------------------------------

/// The node entry that a tree line of `wpctl status` lists:
/// `│  [*] <id>. <name> [<details>]`, as (id, name, is default).
/// The id must be a non-empty string of digits; the name may be empty.
pub open spec fn line_entry(line: Seq<char>) -> Option<(Seq<char>, Seq<char>, bool)> {
    let t = trim_start(line);
    if t.len() == 0 || t[0] != '│' {
        None
    } else {
        let c0 = trim_start(strip_start(t, '│'));
        let d = c0.len() > 0 && c0[0] == '*';
        let c = if d {
            trim_start(strip_start(c0, '*'))
        } else {
            c0
        };
        match find_char(c, '.') {
            None => None,
            Some(i) => {
                let id = trim(c.take(i));
                let rest = trim(c.skip(i + 1));
                let name = match find_char(rest, '[') {
                    Some(b) => trim(rest.take(b)),
                    None => rest,
                };
                if id.len() > 0 && all_digits(id) {
                    Some((id, name, d))
                } else {
                    None
                }
            },
        }
    }
}

/// The sink that a line of the `Sinks:` section lists: an entry with a non-empty name.
pub open spec fn sink_entry(line: Seq<char>) -> Option<(Seq<char>, Seq<char>, bool)> {
    match line_entry(line) {
        Some(e) => if e.1.len() > 0 {
            Some(e)
        } else {
            None
        },
        None => None,
    }
}

/// The filter node that a line of the `Filters:` section lists: an entry on a
/// line that holds `[Audio/Sink]`.
pub open spec fn filter_entry(line: Seq<char>) -> Option<(Seq<char>, Seq<char>, bool)> {
    if contains(line, "[Audio/Sink]"@) {
        line_entry(line)
    } else {
        None
    }
}

/// The sink line can be processed: its sink's name can be shortened.
pub open spec fn sink_line_accepted(line: Seq<char>) -> bool {
    match sink_entry(line) {
        Some(e) => shortened_name(e.1) is Some,
        None => true,
    }
}

/// The outputs and default id after a line of the `Sinks:` section.
pub open spec fn sink_step(
    outputs: Seq<AudioOutputView>,
    default_id: Option<Seq<char>>,
    line: Seq<char>,
) -> (Seq<AudioOutputView>, Option<Seq<char>>) {
    match sink_entry(line) {
        Some(e) => (
            outputs.push(
                AudioOutputView { id: e.0, name: shortened_name(e.1)->0, is_default: e.2 },
            ),
            if e.2 {
                Some(e.0)
            } else {
                default_id
            },
        ),
        None => (outputs, default_id),
    }
}

// ---------------------------------------------------------------------------
// Filter nodes
// ---------------------------------------------------------------------------

/// The index of the entry with key `k`.
pub open spec fn key_index(m: Seq<(Seq<char>, Seq<char>)>, k: Seq<char>) -> Option<int>
    decreases m.len(),
{
    if m.len() == 0 {
        None
    } else if m[0].0 == k {
        Some(0)
    } else {
        match key_index(m.drop_first(), k) {
            Some(i) => Some(i + 1),
            None => None,
        }
    }
}

/// The entries after setting key `k` to `v`: an existing entry is updated in
/// place, a new key is appended.
pub open spec fn map_insert(m: Seq<(Seq<char>, Seq<char>)>, k: Seq<char>, v: Seq<char>) -> Seq<
    (Seq<char>, Seq<char>),
> {
    match key_index(m, k) {
        Some(i) => m.update(i, (k, v)),
        None => m.push((k, v)),
    }
}

/// The value of the first entry whose key names a Bluetooth output node.
pub open spec fn first_bluez_output(m: Seq<(Seq<char>, Seq<char>)>) -> Option<Seq<char>>
    decreases m.len(),
{
    if m.len() == 0 {
        None
    } else if contains(m[0].0, "bluez_output"@) {
        Some(m[0].1)
    } else {
        first_bluez_output(m.drop_first())
    }
}

/// The filter sinks after a line of the `Filters:` section, and the default id.
pub open spec fn filter_step(
    filters: Seq<(Seq<char>, Seq<char>)>,
    default_id: Option<Seq<char>>,
    line: Seq<char>,
) -> (Seq<(Seq<char>, Seq<char>)>, Option<Seq<char>>) {
    match filter_entry(line) {
        Some(e) => (
            map_insert(filters, e.1, e.0),
            if e.2 {
                Some(e.0)
            } else {
                default_id
            },
        ),
        None => (filters, default_id),
    }
}

/// Filter sink nodes by node name: each name occurs once, in the order in
/// which it was first inserted, with the id that was inserted last for it.
pub struct FilterSinks {
    entries: Vec<(String, String)>,
}

impl View for FilterSinks {
    type V = Seq<(Seq<char>, Seq<char>)>;

    closed spec fn view(&self) -> Seq<(Seq<char>, Seq<char>)> {
        self.entries@.map_values(|e: (String, String)| (e.0@, e.1@))
    }
}

impl FilterSinks {
    /// No filter sinks.
    pub fn new() -> (r: FilterSinks)
        ensures
            r@ == Seq::<(Seq<char>, Seq<char>)>::empty(),
    {
        let r = FilterSinks { entries: Vec::new() };
        assert(r@ =~= Seq::<(Seq<char>, Seq<char>)>::empty());
        r
    }

    /// The number of filter sinks.
    pub fn len(&self) -> (n: usize)
        ensures
            n == self@.len(),
    {
        self.entries.len()
    }

    /// The node name and id of the `i`-th filter sink.
    pub fn entry(&self, i: usize) -> (r: (String, String))
        requires
            i < self@.len(),
        ensures
            r.0@ == self@[i as int].0,
            r.1@ == self@[i as int].1,
    {
        (self.entries[i].0.clone(), self.entries[i].1.clone())
    }

    /// Sets the id of the node named `node_name` (`HashMap::insert`).
    pub fn insert(&mut self, node_name: String, id: String)
        ensures
            final(self)@ == map_insert(old(self)@, node_name@, id@),
    {
        let ghost m = old(self)@;
        let mut i: usize = 0;
        while i < self.entries.len()
            invariant
                self@ == m,
                m == old(self)@,
                i <= self.entries.len(),
                forall|j: int| 0 <= j < i ==> m[j].0 != node_name@,
            decreases self.entries.len() - i,
        {
            if self.entries[i].0 == node_name {
                proof {
                    lemma_key_index_at(m, node_name@, i as int);
                }
                let ghost old_entries = self.entries@;
                self.entries.set(i, (node_name, id));
                assert(self@ =~= m.update(i as int, (node_name@, id@)));
                return;
            }
            i += 1;
        }
        proof {
            lemma_key_index_none(m, node_name@);
        }
        self.entries.push((node_name, id));
        assert(self@ =~= m.push((node_name@, id@)));
    }

    /// The id of the first filter sink whose node name names a Bluetooth output.
    pub fn first_bluez_output(&self) -> (r: Option<String>)
        ensures
            opt_str_view(r) == first_bluez_output(self@),
    {
        let pat = chars_of("bluez_output");
        let mut i: usize = 0;
        assert(self@.skip(0) =~= self@);
        while i < self.entries.len()
            invariant
                i <= self.entries.len(),
                self@.len() == self.entries.len(),
                pat@ == "bluez_output"@,
                first_bluez_output(self@) == first_bluez_output(self@.skip(i as int)),
            decreases self.entries.len() - i,
        {
            assert(self@.skip(i as int)[0] == self@[i as int]);
            if contains_chars(&chars_of(self.entries[i].0.as_str()), &pat) {
                return Some(self.entries[i].1.clone());
            }
            assert(self@.skip(i as int).drop_first() =~= self@.skip(i + 1));
            i += 1;
        }
        None
    }
}

proof fn lemma_key_index_at(m: Seq<(Seq<char>, Seq<char>)>, k: Seq<char>, i: int)
    requires
        0 <= i < m.len(),
        m[i].0 == k,
        forall|j: int| 0 <= j < i ==> m[j].0 != k,
    ensures
        key_index(m, k) == Some(i),
    decreases m.len(),
{
    if i > 0 {
        lemma_key_index_at(m.drop_first(), k, i - 1);
    }
}

proof fn lemma_key_index_none(m: Seq<(Seq<char>, Seq<char>)>, k: Seq<char>)
    requires
        forall|j: int| 0 <= j < m.len() ==> m[j].0 != k,
    ensures
        key_index(m, k) is None,
    decreases m.len(),
{
    if m.len() > 0 {
        lemma_key_index_none(m.drop_first(), k);
    }
}

// ---------------------------------------------------------------------------
// The whole status text
// ---------------------------------------------------------------------------

/// What the scan of `wpctl status` has gathered after some lines.
pub struct WpctlScan {
    pub in_sinks: bool,
    pub in_filters: bool,
    pub outputs: Seq<AudioOutputView>,
    pub default_id: Option<Seq<char>>,
    pub filters: Seq<(Seq<char>, Seq<char>)>,
    /// No sink so far had a name that cannot be shortened.
    pub accepted: bool,
}

/// The scan before the first line.
pub open spec fn scan_start() -> WpctlScan {
    WpctlScan {
        in_sinks: false,
        in_filters: false,
        outputs: Seq::empty(),
        default_id: None,
        filters: Seq::empty(),
        accepted: true,
    }
}

/// The scan after one more line: section headers switch sections
/// (`Sinks:` unless the line holds `Default`, `Sources:`, `Filters:`;
/// `Streams:` and `Settings:` leave both sections), and lines in the sink or
/// filter section add their entry.
pub open spec fn scan_step(st: WpctlScan, line: Seq<char>) -> WpctlScan {
    if contains(line, "Sinks:"@) && !contains(line, "Default"@) {
        WpctlScan { in_sinks: true, in_filters: false, ..st }
    } else if contains(line, "Sources:"@) {
        WpctlScan { in_sinks: false, ..st }
    } else if contains(line, "Filters:"@) {
        WpctlScan { in_sinks: false, in_filters: true, ..st }
    } else {
        let st2 = if contains(line, "Streams:"@) || contains(line, "Settings:"@) {
            WpctlScan { in_sinks: false, in_filters: false, ..st }
        } else {
            st
        };
        if st2.in_sinks {
            let r = sink_step(st2.outputs, st2.default_id, line);
            WpctlScan {
                outputs: r.0,
                default_id: r.1,
                accepted: st2.accepted && sink_line_accepted(line),
                ..st2
            }
        } else if st2.in_filters {
            let r = filter_step(st2.filters, st2.default_id, line);
            WpctlScan { filters: r.0, default_id: r.1, ..st2 }
        } else {
            st2
        }
    }
}

/// The scan after the given lines.
pub open spec fn scan_lines(st: WpctlScan, ls: Seq<Seq<char>>) -> WpctlScan
    decreases ls.len(),
{
    if ls.len() == 0 {
        st
    } else {
        scan_lines(scan_step(st, ls[0]), ls.drop_first())
    }
}

/// The scan of a whole status text.
pub open spec fn scan_status(text: Seq<char>) -> WpctlScan {
    scan_lines(scan_start(), lines(text))
}

/// Every sink of the status text has a name that can be shortened.
pub open spec fn wpctl_status_accepted(text: Seq<char>) -> bool {
    scan_status(text).accepted
}

/// The output with the id of its filter node where it is a Bluetooth output
/// (its name holds `soundcore` or `bluez`) and a filter node names a
/// Bluetooth output.
pub open spec fn replace_output_id(o: AudioOutputView, bluez: Option<Seq<char>>) -> AudioOutputView {
    if contains(o.name, "soundcore"@) || contains(o.name, "bluez"@) {
        match bluez {
            Some(id) => AudioOutputView { id: id, ..o },
            None => o,
        }
    } else {
        o
    }
}

/// The outputs with Bluetooth ids replaced by filter node ids.
pub open spec fn replace_ids(
    outputs: Seq<AudioOutputView>,
    filters: Seq<(Seq<char>, Seq<char>)>,
) -> Seq<AudioOutputView> {
    outputs.map_values(|o: AudioOutputView| replace_output_id(o, first_bluez_output(filters)))
}

/// The outputs with the default marked: where a default id was listed, the
/// outputs with that id are default and no other; otherwise the first output is.
pub open spec fn mark_default(outputs: Seq<AudioOutputView>, default_id: Option<Seq<char>>) -> Seq<
    AudioOutputView,
> {
    match default_id {
        Some(d) => outputs.map_values(
            |o: AudioOutputView| AudioOutputView { is_default: o.id == d, ..o },
        ),
        None => if outputs.len() > 0 {
            outputs.update(0, AudioOutputView { is_default: true, ..outputs[0] })
        } else {
            outputs
        },
    }
}

/// The outputs that the status text lists.
pub open spec fn wpctl_outputs(text: Seq<char>) -> Seq<AudioOutputView> {
    let st = scan_status(text);
    mark_default(replace_ids(st.outputs, st.filters), st.default_id)
}

proof fn lemma_scan_rejected(st: WpctlScan, ls: Seq<Seq<char>>)
    requires
        !st.accepted,
    ensures
        !scan_lines(st, ls).accepted,
    decreases ls.len(),
{
    if ls.len() > 0 {
        lemma_scan_rejected(scan_step(st, ls[0]), ls.drop_first());
    }
}

/// The entry of a tree line.
fn line_entry_chars(line: &Vec<char>) -> (r: Option<(Vec<char>, Vec<char>, bool)>)
    ensures
        match r {
            Some(e) => line_entry(line@) == Some((e.0@, e.1@, e.2)),
            None => line_entry(line@) is None,
        },
{
    let t = trim_start_chars(line);
    if t.len() == 0 || t[0] != '│' {
        return None;
    }
    let c0 = trim_start_chars(&strip_start_chars(&t, '│'));
    let d = c0.len() > 0 && c0[0] == '*';
    let c = if d {
        trim_start_chars(&strip_start_chars(&c0, '*'))
    } else {
        c0
    };
    match find_char_in(&c, '.') {
        None => None,
        Some(i) => {
            proof {
                lemma_find_char_spec(c@, '.');
            }
            let head = subvec(&c, 0, i);
            assert(head@ =~= c@.take(i as int));
            let id = trim_chars(&head);
            let tail = subvec(&c, i + 1, c.len());
            assert(tail@ =~= c@.skip(i + 1));
            let rest = trim_chars(&tail);
            let name = match find_char_in(&rest, '[') {
                Some(b) => {
                    proof {
                        lemma_find_char_spec(rest@, '[');
                    }
                    let front = subvec(&rest, 0, b);
                    assert(front@ =~= rest@.take(b as int));
                    trim_chars(&front)
                },
                None => rest,
            };
            if id.len() > 0 && all_ascii_digits(&id) {
                Some((id, name, d))
            } else {
                None
            }
        },
    }
}

/// The sink that a line of the `Sinks:` section lists.
fn sink_entry_chars(line: &Vec<char>) -> (r: Option<(Vec<char>, Vec<char>, bool)>)
    ensures
        match r {
            Some(e) => sink_entry(line@) == Some((e.0@, e.1@, e.2)),
            None => sink_entry(line@) is None,
        },
{
    match line_entry_chars(line) {
        Some(e) => if e.1.len() > 0 {
            Some(e)
        } else {
            None
        },
        None => None,
    }
}

/// Adds the sink that the line lists; `false` (and nothing changed) where its
/// name cannot be shortened.
fn sink_line_into(
    line: &Vec<char>,
    outputs: &mut Vec<AudioOutput>,
    default_id: &mut Option<String>,
) -> (ok: bool)
    ensures
        ok == sink_line_accepted(line@),
        ok ==> (outputs_view(final(outputs)@), opt_str_view(*final(default_id))) == sink_step(
            outputs_view(old(outputs)@),
            opt_str_view(*old(default_id)),
            line@,
        ),
{
    match sink_entry_chars(line) {
        Some(e) => {
            match shorten_chars(&e.1) {
                Some(short) => {
                    let ghost before = outputs_view(outputs@);
                    let is_default = e.2;
                    let id = string_of(&e.0);
                    let name = string_of(&short);
                    outputs.push(AudioOutput { id: id, name: name, is_default: is_default });
                    assert(outputs_view(outputs@) =~= before.push(
                        AudioOutputView { id: e.0@, name: short@, is_default: is_default },
                    ));
                    if is_default {
                        *default_id = Some(string_of(&e.0));
                    }
                    true
                },
                None => false,
            }
        },
        None => true,
    }
}

/// Adds the filter node that the line lists.
fn filter_line_into(
    line: &Vec<char>,
    filter_sinks: &mut FilterSinks,
    default_id: &mut Option<String>,
)
    ensures
        (final(filter_sinks)@, opt_str_view(*final(default_id))) == filter_step(
            old(filter_sinks)@,
            opt_str_view(*old(default_id)),
            line@,
        ),
{
    if !contains_chars(line, &chars_of("[Audio/Sink]")) {
        return;
    }
    match line_entry_chars(line) {
        Some(e) => {
            filter_sinks.insert(string_of(&e.1), string_of(&e.0));
            if e.2 {
                *default_id = Some(string_of(&e.0));
            }
        },
        None => {},
    }
}

/// Adds the sink that a line of the `Sinks:` section lists to `outputs`, and
/// records its id as the default where it is marked with `*`.
pub fn parse_sink_line(line: &str, outputs: &mut Vec<AudioOutput>, default_id: &mut Option<String>)
    requires
        sink_line_accepted(line@),
    ensures
        (outputs_view(final(outputs)@), opt_str_view(*final(default_id))) == sink_step(
            outputs_view(old(outputs)@),
            opt_str_view(*old(default_id)),
            line@,
        ),
{
    let v = chars_of(line);
    let _ = sink_line_into(&v, outputs, default_id);
}

/// Records the filter sink node that a line of the `Filters:` section lists
/// (only lines holding `[Audio/Sink]`), and its id as the default where it is
/// marked with `*`.
pub fn parse_filter_sink_line(
    line: &str,
    filter_sinks: &mut FilterSinks,
    default_id: &mut Option<String>,
)
    ensures
        (final(filter_sinks)@, opt_str_view(*final(default_id))) == filter_step(
            old(filter_sinks)@,
            opt_str_view(*old(default_id)),
            line@,
        ),
{
    let v = chars_of(line);
    filter_line_into(&v, filter_sinks, default_id);
}

/// Gives each Bluetooth output (name holding `soundcore` or `bluez`) the id of
/// the first filter node whose name holds `bluez_output`, if there is one.
pub fn replace_bluetooth_ids(outputs: &mut Vec<AudioOutput>, filter_sinks: &FilterSinks)
    ensures
        outputs_view(final(outputs)@) == replace_ids(outputs_view(old(outputs)@), filter_sinks@),
{
    let bluez = filter_sinks.first_bluez_output();
    let ghost before = outputs_view(outputs@);
    let soundcore = chars_of("soundcore");
    let bluez_pat = chars_of("bluez");
    let mut i: usize = 0;
    while i < outputs.len()
        invariant
            i <= outputs.len(),
            before.len() == outputs.len(),
            opt_str_view(bluez) == first_bluez_output(filter_sinks@),
            soundcore@ == "soundcore"@,
            bluez_pat@ == "bluez"@,
            forall|j: int|
                0 <= j < i ==> #[trigger] outputs_view(outputs@)[j] == replace_output_id(
                    before[j],
                    first_bluez_output(filter_sinks@),
                ),
            forall|j: int| i <= j < before.len() ==> #[trigger] outputs_view(outputs@)[j] == before[j],
        decreases outputs.len() - i,
    {
        let ghost prev = outputs_view(outputs@);
        assert(prev[i as int] == before[i as int]);
        let name = chars_of(outputs[i].name.as_str());
        if contains_chars(&name, &soundcore) || contains_chars(&name, &bluez_pat) {
            match &bluez {
                Some(id) => {
                    let o = AudioOutput {
                        id: id.clone(),
                        name: outputs[i].name.clone(),
                        is_default: outputs[i].is_default,
                    };
                    outputs.set(i, o);
                },
                None => {},
            }
        }
        assert(outputs_view(outputs@) =~= prev.update(
            i as int,
            replace_output_id(before[i as int], first_bluez_output(filter_sinks@)),
        ));
        i += 1;
    }
    assert(outputs_view(outputs@) =~= replace_ids(before, filter_sinks@));
}

/// Sets the default marks: with a default id, exactly the outputs with that id
/// are default; without one, the first output becomes default.
fn mark_default_outputs(outputs: &mut Vec<AudioOutput>, default_id: &Option<String>)
    ensures
        outputs_view(final(outputs)@) == mark_default(
            outputs_view(old(outputs)@),
            opt_str_view(*default_id),
        ),
{
    let ghost before = outputs_view(outputs@);
    match default_id {
        Some(d) => {
            let mut i: usize = 0;
            while i < outputs.len()
                invariant
                    i <= outputs.len(),
                    before.len() == outputs.len(),
                    forall|j: int|
                        0 <= j < i ==> #[trigger] outputs_view(outputs@)[j] == (AudioOutputView {
                            is_default: before[j].id == d@,
                            ..before[j]
                        }),
                    forall|j: int|
                        i <= j < before.len() ==> #[trigger] outputs_view(outputs@)[j] == before[j],
                decreases outputs.len() - i,
            {
                let ghost prev = outputs_view(outputs@);
                assert(prev[i as int] == before[i as int]);
                let is_default = outputs[i].id == *d;
                let o = AudioOutput {
                    id: outputs[i].id.clone(),
                    name: outputs[i].name.clone(),
                    is_default: is_default,
                };
                outputs.set(i, o);
                assert(outputs_view(outputs@) =~= prev.update(
                    i as int,
                    AudioOutputView { is_default: before[i as int].id == d@, ..before[i as int] },
                ));
                i += 1;
            }
            assert(outputs_view(outputs@) =~= mark_default(before, Some(d@)));
        },
        None => {
            if outputs.len() > 0 {
                let o = AudioOutput {
                    id: outputs[0].id.clone(),
                    name: outputs[0].name.clone(),
                    is_default: true,
                };
                outputs.set(0, o);
            }
            assert(outputs_view(outputs@) =~= mark_default(before, None));
        },
    }
}

/// Runs the scan over the lines of the status text; `None` where a sink's name
/// cannot be shortened.
fn scan_status_chars(v: &Vec<char>) -> (r: Option<(Vec<AudioOutput>, Option<String>, FilterSinks)>)
    ensures
        match r {
            Some(res) => {
                &&& scan_status(v@).accepted
                &&& outputs_view(res.0@) == scan_status(v@).outputs
                &&& opt_str_view(res.1) == scan_status(v@).default_id
                &&& res.2@ == scan_status(v@).filters
            },
            None => !scan_status(v@).accepted,
        },
{
    let sinks_pat = chars_of("Sinks:");
    let default_pat = chars_of("Default");
    let sources_pat = chars_of("Sources:");
    let filters_pat = chars_of("Filters:");
    let streams_pat = chars_of("Streams:");
    let settings_pat = chars_of("Settings:");
    let mut in_sinks = false;
    let mut in_filters = false;
    let mut outputs: Vec<AudioOutput> = Vec::new();
    let mut default_id: Option<String> = None;
    let mut filter_sinks = FilterSinks::new();
    let mut pos: usize = 0;
    assert(v@.skip(0) =~= v@);
    assert(outputs_view(outputs@) =~= Seq::<AudioOutputView>::empty());
    while pos < v.len()
        invariant
            pos <= v.len(),
            sinks_pat@ == "Sinks:"@,
            default_pat@ == "Default"@,
            sources_pat@ == "Sources:"@,
            filters_pat@ == "Filters:"@,
            streams_pat@ == "Streams:"@,
            settings_pat@ == "Settings:"@,
            scan_status(v@) == scan_lines(
                WpctlScan {
                    in_sinks: in_sinks,
                    in_filters: in_filters,
                    outputs: outputs_view(outputs@),
                    default_id: opt_str_view(default_id),
                    filters: filter_sinks@,
                    accepted: true,
                },
                lines(v@.skip(pos as int)),
            ),
        decreases v.len() - pos,
    {
        let ghost st = WpctlScan {
            in_sinks: in_sinks,
            in_filters: in_filters,
            outputs: outputs_view(outputs@),
            default_id: opt_str_view(default_id),
            filters: filter_sinks@,
            accepted: true,
        };
        let (line, next) = next_line(v, pos);
        let ghost rest = lines(v@.skip(next as int));
        assert((seq![line@] + rest)[0] == line@);
        assert((seq![line@] + rest).drop_first() =~= rest);
        let ghost st1 = scan_step(st, line@);
        if contains_chars(&line, &sinks_pat) && !contains_chars(&line, &default_pat) {
            in_sinks = true;
            in_filters = false;
        } else if contains_chars(&line, &sources_pat) {
            in_sinks = false;
        } else if contains_chars(&line, &filters_pat) {
            in_sinks = false;
            in_filters = true;
        } else {
            if contains_chars(&line, &streams_pat) || contains_chars(&line, &settings_pat) {
                in_sinks = false;
                in_filters = false;
            }
            if in_sinks {
                let ok = sink_line_into(&line, &mut outputs, &mut default_id);
                if !ok {
                    proof {
                        lemma_scan_rejected(st1, rest);
                    }
                    return None;
                }
            } else if in_filters {
                filter_line_into(&line, &mut filter_sinks, &mut default_id);
            }
        }
        assert(st1 == WpctlScan {
            in_sinks: in_sinks,
            in_filters: in_filters,
            outputs: outputs_view(outputs@),
            default_id: opt_str_view(default_id),
            filters: filter_sinks@,
            accepted: true,
        });
        pos = next;
    }
    assert(v@.skip(pos as int) =~= Seq::<char>::empty());
    Some((outputs, default_id, filter_sinks))
}

/// Whether every sink of the status text has a name that can be shortened
/// (where it has not, the panel stops with a panic).
pub fn wpctl_status_supported(text: &str) -> (r: bool)
    ensures
        r == wpctl_status_accepted(text@),
{
    scan_status_chars(&chars_of(text)).is_some()
}

/// The outputs that the `Sinks:` section of a `wpctl status` text lists, in
/// order: Bluetooth outputs carry the id of their filter node, and the default
/// output is marked (the first output where no default is listed).
pub fn parse_wpctl_status(text: &str) -> (r: Vec<AudioOutput>)
    requires
        wpctl_status_accepted(text@),
    ensures
        outputs_view(r@) == wpctl_outputs(text@),
{
    let v = chars_of(text);
    match scan_status_chars(&v) {
        Some((outputs, default_id, filter_sinks)) => {
            let mut outputs = outputs;
            replace_bluetooth_ids(&mut outputs, &filter_sinks);
            mark_default_outputs(&mut outputs, &default_id);
            outputs
        },
        None => Vec::new(),
    }
}

/// The outputs that a `wpctl status` text lists, or `None` where a sink's name
/// cannot be shortened.
pub fn try_parse_wpctl_status(text: &str) -> (r: Option<Vec<AudioOutput>>)
    ensures
        match r {
            Some(outs) => wpctl_status_accepted(text@) && outputs_view(outs@) == wpctl_outputs(
                text@,
            ),
            None => !wpctl_status_accepted(text@),
        },
{
    if wpctl_status_supported(text) {
        Some(parse_wpctl_status(text))
    } else {
        None
    }
}

// ---------------------------------------------------------------------------
// The default output
// ---------------------------------------------------------------------------

/// An output is marked as the default.
pub open spec fn marked_default() -> spec_fn(AudioOutputView) -> bool {
    |o: AudioOutputView| o.is_default
}

/// The id of the first output marked as the default.
pub open spec fn default_output(outputs: Seq<AudioOutputView>) -> Option<Seq<char>> {
    match first_match(outputs, marked_default()) {
        Some(i) => Some(outputs[i].id),
        None => None,
    }
}

/// The id of the first output marked as the default, if any.
pub fn default_output_id(outputs: &Vec<AudioOutput>) -> (r: Option<String>)
    ensures
        opt_str_view(r) == default_output(outputs_view(outputs@)),
{
    let ghost s = outputs_view(outputs@);
    let mut i: usize = 0;
    while i < outputs.len()
        invariant
            i <= outputs.len(),
            s == outputs_view(outputs@),
            forall|j: int| 0 <= j < i ==> !marked_default()(#[trigger] s[j]),
        decreases outputs.len() - i,
    {
        if outputs[i].is_default {
            proof {
                lemma_first_match_at(s, marked_default(), i as int);
            }
            return Some(outputs[i].id.clone());
        }
        i += 1;
    }
    proof {
        lemma_first_match_none(s, marked_default());
    }
    None
}

/// An output has the given id.
pub open spec fn has_output_id(id: Seq<char>) -> spec_fn(AudioOutputView) -> bool {
    |o: AudioOutputView| o.id == id
}

/// The index of the first output with the given id.
pub fn position_of_output(outputs: &Vec<AudioOutput>, id: &String) -> (r: Option<usize>)
    ensures
        match r {
            Some(i) => first_match(outputs_view(outputs@), has_output_id(id@)) == Some(i as int),
            None => first_match(outputs_view(outputs@), has_output_id(id@)) is None,
        },
{
    let ghost s = outputs_view(outputs@);
    let mut i: usize = 0;
    while i < outputs.len()
        invariant
            i <= outputs.len(),
            s == outputs_view(outputs@),
            forall|j: int| 0 <= j < i ==> !has_output_id(id@)(#[trigger] s[j]),
        decreases outputs.len() - i,
    {
        if outputs[i].id == *id {
            proof {
                lemma_first_match_at(s, has_output_id(id@), i as int);
            }
            return Some(i);
        }
        i += 1;
    }
    proof {
        lemma_first_match_none(s, has_output_id(id@));
    }
    None
}

// ---------------------------------------------------------------------------
// Laws
// ---------------------------------------------------------------------------

/// An id as WirePlumber writes node ids: a non-empty string of digits.
pub open spec fn numeric_id(id: Seq<char>) -> bool {
    id.len() > 0 && all_digits(id)
}

/// Every gathered output and every filter node has a numeric id.
pub open spec fn scan_ids_numeric(st: WpctlScan) -> bool {
    &&& forall|i: int| 0 <= i < st.outputs.len() ==> numeric_id(#[trigger] st.outputs[i].id)
    &&& forall|j: int| 0 <= j < st.filters.len() ==> numeric_id(#[trigger] st.filters[j].1)
}

proof fn lemma_key_index_bound(m: Seq<(Seq<char>, Seq<char>)>, k: Seq<char>)
    ensures
        key_index(m, k) matches Some(i) ==> 0 <= i < m.len(),
    decreases m.len(),
{
    if m.len() > 0 && m[0].0 != k {
        lemma_key_index_bound(m.drop_first(), k);
    }
}

proof fn lemma_scan_step_ids(st: WpctlScan, line: Seq<char>)
    requires
        scan_ids_numeric(st),
    ensures
        scan_ids_numeric(scan_step(st, line)),
{
    let r = scan_step(st, line);
    match filter_entry(line) {
        Some(e) => {
            lemma_key_index_bound(st.filters, e.1);
            let m2 = map_insert(st.filters, e.1, e.0);
            assert forall|j: int| 0 <= j < m2.len() implies numeric_id(#[trigger] m2[j].1) by {
                match key_index(st.filters, e.1) {
                    Some(i) => {
                        if j != i {
                            assert(m2[j] == st.filters[j]);
                        }
                    },
                    None => {
                        if j < st.filters.len() {
                            assert(m2[j] == st.filters[j]);
                        }
                    },
                }
            }
        },
        None => {},
    }
    match sink_entry(line) {
        Some(e) => {
            let o2 = st.outputs.push(
                AudioOutputView { id: e.0, name: shortened_name(e.1)->0, is_default: e.2 },
            );
            assert forall|i: int| 0 <= i < o2.len() implies numeric_id(#[trigger] o2[i].id) by {
                if i < st.outputs.len() {
                    assert(o2[i] == st.outputs[i]);
                }
            }
        },
        None => {},
    }
}

proof fn lemma_scan_lines_ids(st: WpctlScan, ls: Seq<Seq<char>>)
    requires
        scan_ids_numeric(st),
    ensures
        scan_ids_numeric(scan_lines(st, ls)),
    decreases ls.len(),
{
    if ls.len() > 0 {
        lemma_scan_step_ids(st, ls[0]);
        lemma_scan_lines_ids(scan_step(st, ls[0]), ls.drop_first());
    }
}

proof fn lemma_first_bluez_numeric(m: Seq<(Seq<char>, Seq<char>)>)
    requires
        forall|j: int| 0 <= j < m.len() ==> numeric_id(#[trigger] m[j].1),
    ensures
        first_bluez_output(m) matches Some(v) ==> numeric_id(v),
    decreases m.len(),
{
    if m.len() > 0 {
        assert(numeric_id(m[0].1));
        assert forall|j: int| 0 <= j < m.drop_first().len() implies numeric_id(
            #[trigger] m.drop_first()[j].1,
        ) by {
            assert(m.drop_first()[j] == m[j + 1]);
        }
        lemma_first_bluez_numeric(m.drop_first());
    }
}

/// Every output that a `wpctl status` text lists has a node id made of
/// digits: either its own sink id or the id of a Bluetooth filter node.
pub proof fn lemma_wpctl_ids_numeric(text: Seq<char>)
    ensures
        forall|i: int|
            0 <= i < wpctl_outputs(text).len() ==> numeric_id(#[trigger] wpctl_outputs(text)[i].id),
{
    let st = scan_status(text);
    lemma_scan_lines_ids(scan_start(), lines(text));
    lemma_first_bluez_numeric(st.filters);
    let replaced = replace_ids(st.outputs, st.filters);
    assert forall|i: int| 0 <= i < replaced.len() implies numeric_id(#[trigger] replaced[i].id) by {
        assert(numeric_id(st.outputs[i].id));
    }
    let marked = mark_default(replaced, st.default_id);
    assert forall|i: int| 0 <= i < marked.len() implies numeric_id(#[trigger] marked[i].id) by {
        assert(marked[i].id == replaced[i].id);
    }
}

proof fn lemma_utf8_len_concat(a: Seq<char>, b: Seq<char>)
    ensures
        utf8_len(a + b) == utf8_len(a) + utf8_len(b),
    decreases b.len(),
{
    if b.len() == 0 {
        assert(a + b =~= a);
    } else {
        lemma_utf8_len_concat(a, b.drop_last());
        assert((a + b).drop_last() =~= a + b.drop_last());
        assert((a + b).last() == b.last());
    }
}

/// An ordinary output name (not HDMI, DisplayPort or Bluetooth) is never
/// longer than 35 bytes once shortened.
pub proof fn lemma_short_name_fits(name: Seq<char>)
    requires
        shortened_name(name) is Some,
        rfind(strip_controller_prefix(trim(name)), "HDMI"@) is None,
        rfind(strip_controller_prefix(trim(name)), "DisplayPort"@) is None,
        !is_bluetooth_name(trim(name)),
    ensures
        utf8_len(shortened_name(name)->0) <= 35,
{
    let c = strip_controller_prefix(trim(name));
    if utf8_len(c) > 35 {
        let k = chars_in_bytes(c, 32)->0;
        assert(utf8_len(c.take(k)) == 32);
        reveal_strlit("...");
        let dots = "..."@;
        let d1 = dots.drop_last();
        let d2 = d1.drop_last();
        let d3 = d2.drop_last();
        assert(dots.len() == 3 && dots[0] == '.' && dots[1] == '.' && dots[2] == '.');
        assert(d3 =~= Seq::<char>::empty());
        assert(utf8_len(d3) == 0);
        assert(char_utf8_len('.') == 1);
        assert(utf8_len(d2) == 1);
        assert(utf8_len(d1) == 2);
        assert(utf8_len(dots) == 3);
        lemma_utf8_len_concat(c.take(k), dots);
    }
}

/// A name made of one of the controller prefixes (`Raptor Lake High
/// Definition Audio Controller `, `Intel High Definition Audio Controller `,
/// `High Definition Audio Controller `, `PCI `) and a rest that names no HDMI
/// or DisplayPort port and takes at most 35 bytes is shown as the rest alone.
pub proof fn lemma_controller_prefix_dropped(name: Seq<char>, p: Seq<char>, s: Seq<char>)
    requires
        p == "Raptor Lake High Definition Audio Controller "@
            || p == "Intel High Definition Audio Controller "@
            || p == "High Definition Audio Controller "@
            || p == "PCI "@,
        trim(name) == p + s,
        rfind(s, "HDMI"@) is None,
        rfind(s, "DisplayPort"@) is None,
        utf8_len(s) <= 35,
    ensures
        shortened_name(name) == Some(s),
{
    let p1 = "Raptor Lake High Definition Audio Controller "@;
    let p2 = "Intel High Definition Audio Controller "@;
    let p3 = "High Definition Audio Controller "@;
    let p4 = "PCI "@;
    reveal_strlit("Raptor Lake High Definition Audio Controller ");
    reveal_strlit("Intel High Definition Audio Controller ");
    reveal_strlit("High Definition Audio Controller ");
    reveal_strlit("PCI ");
    let n = p + s;
    assert(n.subrange(0, p.len() as int) =~= p);
    assert(n.skip(p.len() as int) =~= s);
    assert(starts_with(n, p));
    assert(n[0] == p[0]);
    assert forall|q: Seq<char>| q.len() > 0 && q[0] != p[0] implies !starts_with(n, q) by {
        if starts_with(n, q) {
            assert(n.subrange(0, q.len() as int)[0] == n[0]);
        }
    }
    assert(p1[0] == 'R' && p2[0] == 'I' && p3[0] == 'H' && p4[0] == 'P');
    assert(strip_controller_prefix(n) == s);
}

/// A line that opens the `Sinks:` section (a header that is not the
/// `Default Configured Node Names` one).
pub open spec fn opens_sinks(l: Seq<char>) -> bool {
    contains(l, "Sinks:"@) && !contains(l, "Default"@)
}

/// A line that opens the `Filters:` section.
pub open spec fn opens_filters(l: Seq<char>) -> bool {
    !opens_sinks(l) && !contains(l, "Sources:"@) && contains(l, "Filters:"@)
}

/// A line that ends the `Filters:` section: the `Sinks:` header, or a
/// `Streams:` or `Settings:` header.
pub open spec fn closes_filters(l: Seq<char>) -> bool {
    opens_sinks(l) || (!contains(l, "Sources:"@) && !contains(l, "Filters:"@) && (contains(
        l,
        "Streams:"@,
    ) || contains(l, "Settings:"@)))
}

/// After these lines, the text is inside the `Filters:` section: some line
/// opened it and no later line ended it.
pub open spec fn in_filter_section(ls: Seq<Seq<char>>) -> bool
    decreases ls.len(),
{
    if ls.len() == 0 {
        false
    } else if opens_filters(ls.last()) {
        true
    } else if closes_filters(ls.last()) {
        false
    } else {
        in_filter_section(ls.drop_last())
    }
}

/// A line that ends the `Sinks:` section: a `Sources:`, `Filters:`,
/// `Streams:` or `Settings:` header.
pub open spec fn closes_sinks(l: Seq<char>) -> bool {
    !opens_sinks(l) && (contains(l, "Sources:"@) || contains(l, "Filters:"@) || contains(
        l,
        "Streams:"@,
    ) || contains(l, "Settings:"@))
}

/// After these lines, the text is inside the `Sinks:` section: some line
/// opened it and no later line ended it.
pub open spec fn in_sink_section(ls: Seq<Seq<char>>) -> bool
    decreases ls.len(),
{
    if ls.len() == 0 {
        false
    } else if opens_sinks(ls.last()) {
        true
    } else if closes_sinks(ls.last()) {
        false
    } else {
        in_sink_section(ls.drop_last())
    }
}

/// A line that names none of the section headers.
pub open spec fn no_header(l: Seq<char>) -> bool {
    &&& !contains(l, "Sinks:"@)
    &&& !contains(l, "Sources:"@)
    &&& !contains(l, "Filters:"@)
    &&& !contains(l, "Streams:"@)
    &&& !contains(l, "Settings:"@)
}

/// A node entry line marked `*`.
pub open spec fn starred_entry(l: Seq<char>) -> bool {
    line_entry(l) matches Some(e) && e.2
}

proof fn lemma_scan_lines_concat(st: WpctlScan, a: Seq<Seq<char>>, b: Seq<Seq<char>>)
    ensures
        scan_lines(st, a + b) == scan_lines(scan_lines(st, a), b),
    decreases a.len(),
{
    if a.len() == 0 {
        assert(a + b =~= b);
    } else {
        assert((a + b)[0] == a[0]);
        assert((a + b).drop_first() =~= a.drop_first() + b);
        lemma_scan_lines_concat(scan_step(st, a[0]), a.drop_first(), b);
    }
}

proof fn lemma_scan_lines_one(st: WpctlScan, l: Seq<char>)
    ensures
        scan_lines(st, seq![l]) == scan_step(st, l),
{
    let one = seq![l];
    assert(one.drop_first() =~= Seq::<Seq<char>>::empty());
    assert(scan_lines(scan_step(st, l), Seq::<Seq<char>>::empty()) == scan_step(st, l));
    assert(scan_lines(st, one) == scan_lines(scan_step(st, one[0]), one.drop_first()));
}

proof fn lemma_scan_sections(ls: Seq<Seq<char>>)
    ensures
        scan_lines(scan_start(), ls).in_filters == in_filter_section(ls),
        scan_lines(scan_start(), ls).in_sinks == in_sink_section(ls),
        !(scan_lines(scan_start(), ls).in_sinks && scan_lines(scan_start(), ls).in_filters),
    decreases ls.len(),
{
    if ls.len() > 0 {
        let pre = ls.drop_last();
        let l = ls.last();
        lemma_scan_sections(pre);
        assert(ls =~= pre + seq![l]);
        lemma_scan_lines_concat(scan_start(), pre, seq![l]);
        lemma_scan_lines_one(scan_lines(scan_start(), pre), l);
    }
}

proof fn lemma_scan_keeps_default(st: WpctlScan, ls: Seq<Seq<char>>)
    requires
        forall|i: int| 0 <= i < ls.len() ==> !starred_entry(#[trigger] ls[i]),
    ensures
        scan_lines(st, ls).default_id == st.default_id,
    decreases ls.len(),
{
    if ls.len() > 0 {
        assert(!starred_entry(ls[0]));
        lemma_scan_keeps_default(scan_step(st, ls[0]), ls.drop_first());
        assert forall|i: int| 0 <= i < ls.drop_first().len() implies !starred_entry(
            #[trigger] ls.drop_first()[i],
        ) by {
            assert(ls.drop_first()[i] == ls[i + 1]);
        }
    }
}

/// A `*`-marked `[Audio/Sink]` entry of the `Filters:` section with id `d`,
/// followed by no other marked entry, makes exactly the outputs with id `d`
/// the default ones.
pub proof fn lemma_starred_filter_is_default(
    text: Seq<char>,
    pre: Seq<Seq<char>>,
    line: Seq<char>,
    post: Seq<Seq<char>>,
    d: Seq<char>,
    name: Seq<char>,
)
    requires
        lines(text) == pre + seq![line] + post,
        in_filter_section(pre),
        no_header(line),
        filter_entry(line) == Some((d, name, true)),
        forall|i: int| 0 <= i < post.len() ==> !starred_entry(#[trigger] post[i]),
    ensures
        forall|i: int|
            0 <= i < wpctl_outputs(text).len() ==> ((#[trigger] wpctl_outputs(text)[i]).is_default
                <==> wpctl_outputs(text)[i].id == d),
{
    let s0 = scan_lines(scan_start(), pre);
    lemma_scan_sections(pre);
    lemma_scan_lines_concat(scan_start(), pre, seq![line]);
    lemma_scan_lines_one(s0, line);
    let s1 = scan_step(s0, line);
    assert(s1.default_id == Some(d));
    lemma_scan_lines_concat(scan_start(), pre + seq![line], post);
    lemma_scan_keeps_default(s1, post);
    assert(scan_status(text).default_id == Some(d));
}

/// A `*`-marked entry of the `Sinks:` section with id `d`, followed by no
/// other marked entry, makes exactly the outputs with id `d` the default
/// ones.
pub proof fn lemma_starred_sink_is_default(
    text: Seq<char>,
    pre: Seq<Seq<char>>,
    line: Seq<char>,
    post: Seq<Seq<char>>,
    d: Seq<char>,
    name: Seq<char>,
)
    requires
        lines(text) == pre + seq![line] + post,
        in_sink_section(pre),
        no_header(line),
        sink_entry(line) == Some((d, name, true)),
        forall|i: int| 0 <= i < post.len() ==> !starred_entry(#[trigger] post[i]),
    ensures
        forall|i: int|
            0 <= i < wpctl_outputs(text).len() ==> ((#[trigger] wpctl_outputs(text)[i]).is_default
                <==> wpctl_outputs(text)[i].id == d),
{
    let s0 = scan_lines(scan_start(), pre);
    lemma_scan_sections(pre);
    lemma_scan_lines_concat(scan_start(), pre, seq![line]);
    lemma_scan_lines_one(s0, line);
    let s1 = scan_step(s0, line);
    assert(s1.default_id == Some(d));
    lemma_scan_lines_concat(scan_start(), pre + seq![line], post);
    lemma_scan_keeps_default(s1, post);
    assert(scan_status(text).default_id == Some(d));
}

} // verus!
