use niri_bar::services::audio::{
    default_output_id, parse_filter_sink_line, parse_sink_line, parse_wpctl_status,
    replace_bluetooth_ids, shorten_device_name, try_parse_wpctl_status, try_shorten_device_name,
    wpctl_status_supported, FilterSinks,
};
use niri_bar::services::AudioOutput;

const STATUS: &str = "PipeWire 'pipewire-0' [1.0.5, user@host, cookie:1]
 └─ Clients:
        33. WirePlumber                         [1.0.5, user@host, pid:1234]

Audio
 ├─ Devices:
 │      45. Raptor Lake High Definition Audio Controller [alsa]
 │  
 ├─ Sinks:
 │  *   52. Raptor Lake High Definition Audio Controller Speaker [vol: 0.65]
 │      53. Raptor Lake High Definition Audio Controller HDMI / DisplayPort 1 Output [vol: 1.00]
 │      78. soundcore Life Q30                  [vol: 0.50]
 │  
 ├─ Sink endpoints:
 │  
 ├─ Sources:
 │  *   54. Raptor Lake High Definition Audio Controller Digital Microphone [vol: 1.00]
 │  
 ├─ Filters:
 │    - loopback-2233-18
 │      80. bluez_output.AC_12_2F_00_11_22.1   [Audio/Sink]
 │  
 └─ Streams:

Settings
 └─ Default Configured Devices:
         0. Audio/Sink    alsa_output.pci-0000_00_1f.3.analog-stereo
";

fn out(id: &str, name: &str, is_default: bool) -> AudioOutput {
    AudioOutput { id: id.to_string(), name: name.to_string(), is_default }
}

#[test]
fn status_lists_sinks_with_short_names_and_filter_ids() {
    let outputs = parse_wpctl_status(STATUS);
    assert_eq!(
        outputs,
        vec![
            out("52", "Speaker", true),
            out("53", "HDMI / DisplayPort 1 Output", false),
            out("80", "soundcore Life Q30", false),
        ]
    );
}

#[test]
fn status_without_default_marks_first() {
    let text = " ├─ Sinks:\n │      7. Speaker\n │      9. Headphones [vol: 1.0]\n";
    let outputs = parse_wpctl_status(text);
    assert_eq!(outputs, vec![out("7", "Speaker", true), out("9", "Headphones", false)]);
}

#[test]
fn default_filter_node_marks_bluetooth_output() {
    let text = " ├─ Sinks:\r\n │      78. bluez headset\r\n ├─ Filters:\r\n │  *   81. bluez_output.X.1 [Audio/Sink]\r\n";
    let outputs = parse_wpctl_status(text);
    assert_eq!(outputs, vec![out("81", "bluez headset", true)]);
}

#[test]
fn empty_status_has_no_outputs() {
    assert!(parse_wpctl_status("").is_empty());
    assert!(parse_wpctl_status("Audio\n └─ Sources:\n").is_empty());
}

#[test]
fn lines_outside_tree_or_without_digits_are_skipped() {
    let text = "Sinks:\nno bar 5. x\n │  x5. named\n │  12. \n │  12. ok\n";
    let outputs = parse_wpctl_status(text);
    assert_eq!(outputs, vec![out("12", "ok", true)]);
}

#[test]
fn shortens_controller_prefixes_and_long_names() {
    assert_eq!(shorten_device_name("  PCI Analog Stereo  "), "Analog Stereo");
    assert_eq!(shorten_device_name("High Definition Audio Controller Line Out"), "Line Out");
    assert_eq!(shorten_device_name("Intel High Definition Audio Controller DisplayPort 2"), "DisplayPort 2");
    assert_eq!(shorten_device_name("Some HDMI A HDMI B"), "HDMI B");
    assert_eq!(
        shorten_device_name("A very long analog output name that goes on and on"),
        "A very long analog output name t..."
    );
    assert_eq!(
        shorten_device_name("My BLUETOOTH speaker with a really long name indeed"),
        "My BLUETOOTH speaker with a really long name indeed"
    );
    assert_eq!(shorten_device_name("Exactly thirty-five bytes long name"), "Exactly thirty-five bytes long name");
}

#[test]
fn shortening_that_would_cut_a_character_is_refused() {
    // 31 ASCII bytes then a two-byte character across byte 32.
    let name = format!("{}é and more text here", "a".repeat(31));
    assert_eq!(try_shorten_device_name(&name), None);
    let text = format!(" ├─ Sinks:\n │  3. {}\n", name);
    assert!(!wpctl_status_supported(&text));
    assert_eq!(try_parse_wpctl_status(&text), None);
    let ok = format!("{}é and more text here", "a".repeat(30));
    assert_eq!(try_shorten_device_name(&ok), Some(format!("{}é...", "a".repeat(30))));
}

#[test]
fn sink_line_adds_output_and_default() {
    let mut outputs = Vec::new();
    let mut default_id = None;
    parse_sink_line(" │  *  41. PCI Speaker [vol: 1]", &mut outputs, &mut default_id);
    parse_sink_line(" │      42. Headset", &mut outputs, &mut default_id);
    parse_sink_line(" ├─ Sinks:", &mut outputs, &mut default_id);
    assert_eq!(outputs, vec![out("41", "Speaker", true), out("42", "Headset", false)]);
    assert_eq!(default_id, Some("41".to_string()));
}

#[test]
fn filter_lines_keep_last_id_per_node() {
    let mut filters = FilterSinks::new();
    let mut default_id = None;
    parse_filter_sink_line(" │  5. node_a [Audio/Sink]", &mut filters, &mut default_id);
    parse_filter_sink_line(" │  6. bluez_output.A [Audio/Sink]", &mut filters, &mut default_id);
    parse_filter_sink_line(" │  *  7. node_a [Audio/Sink]", &mut filters, &mut default_id);
    parse_filter_sink_line(" │  8. node_b [Audio/Source]", &mut filters, &mut default_id);
    assert_eq!(filters.len(), 2);
    assert_eq!(filters.entry(0), ("node_a".to_string(), "7".to_string()));
    assert_eq!(filters.entry(1), ("bluez_output.A".to_string(), "6".to_string()));
    assert_eq!(default_id, Some("7".to_string()));
    assert_eq!(filters.first_bluez_output(), Some("6".to_string()));
}

#[test]
fn bluetooth_ids_replaced_only_for_bluetooth_names() {
    let mut filters = FilterSinks::new();
    filters.insert("bluez_output.Z".to_string(), "90".to_string());
    let mut outputs = vec![out("1", "soundcore Q30", false), out("2", "Speaker", true), out("3", "bluez x", false)];
    replace_bluetooth_ids(&mut outputs, &filters);
    assert_eq!(outputs, vec![out("90", "soundcore Q30", false), out("2", "Speaker", true), out("90", "bluez x", false)]);
    let empty = FilterSinks::new();
    let mut same = vec![out("1", "soundcore Q30", false)];
    replace_bluetooth_ids(&mut same, &empty);
    assert_eq!(same, vec![out("1", "soundcore Q30", false)]);
}

#[test]
fn default_output_is_first_marked() {
    let outputs = vec![out("1", "a", false), out("2", "b", true), out("3", "c", true)];
    assert_eq!(default_output_id(&outputs), Some("2".to_string()));
    assert_eq!(default_output_id(&vec![out("1", "a", false)]), None);
}
