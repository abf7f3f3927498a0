use nor::error::ErrorKind;
use nor::gain::Gain;
use nor::node::{get_status, node_from_groups, Cursor, Node, NodeType, Parser, Status};
use nor::pattern::Scan;

const STATUS: &str = "PipeWire 'pipewire-0' [0.3.65, user@host, cookie:123]
 └─ Clients:
        31. WirePlumber                         [0.3.65, user@host, pid:1234]

Audio
 ├─ Devices:
 │      40. Built-in Audio                      [alsa]
 │  
 ├─ Sinks:
 │  *   45. Speakers                            [vol: 0.40]
 │      52. Headset                             [vol: 0.60]
 │  
 ├─ Sink endpoints:
 │  
 ├─ Sources:
 │  *   46. Microphone (built-in)               [vol: 1.00]
 │      61. USB Mic                             [vol: 0.35]
 │  
 ├─ Source endpoints:
 │  
 └─ Streams:

Video
 ├─ Devices:
 │      70. Camera                              [v4l2]
 ├─ Sources:
 │  *   71. Camera Source                       [vol: 0.10]
";

fn node(id: u32, default: bool, name: &str, micros: u64, muted: bool) -> Node {
    Node { id, default, name: name.to_string(), volume: Gain { micros }, muted }
}

fn chars(s: &str) -> Vec<char> {
    s.chars().collect()
}

fn groups(default: bool, id: &str, name: &str, volume: &str) -> Vec<Option<String>> {
    vec![
        Some("whole".to_string()),
        if default { Some("*".to_string()) } else { None },
        Some(id.to_string()),
        Some(name.to_string()),
        Some(volume.to_string()),
    ]
}

#[test]
fn reads_sinks_and_sources_in_textual_order() {
    let status = get_status(STATUS).unwrap();
    assert_eq!(
        status.sinks,
        vec![node(45, true, "Speakers", 400_000, false), node(52, false, "Headset", 600_000, false)]
    );
    assert_eq!(
        status.sources,
        vec![
            node(46, true, "Microphone (built-in)", 1_000_000, false),
            node(61, false, "USB Mic", 350_000, false),
            node(71, true, "Camera Source", 100_000, false),
        ]
    );
}

#[test]
fn same_text_gives_same_status() {
    let first = get_status(STATUS).unwrap();
    let second = get_status(STATUS).unwrap();
    assert_eq!(first, second);
}

#[test]
fn one_marker_per_kind_gives_one_default_per_kind() {
    let text = "Audio\n Sinks:\n  *   45. Speakers [vol: 0.40]\n      52. Headset [vol: 0.60]\n\n Sources:\n      46. Mic [vol: 1.00]\n  *   47. Line [vol: 0.50]\n";
    let status = get_status(text).unwrap();
    assert_eq!(status.sinks.iter().filter(|n| n.default).count(), 1);
    assert_eq!(status.sources.iter().filter(|n| n.default).count(), 1);
    assert!(status.sinks[0].default);
    assert!(status.sources[1].default);
}

#[test]
fn empty_text_gives_an_empty_status() {
    let status = get_status("").unwrap();
    assert_eq!(status, Status { sinks: vec![], sources: vec![] });
}

#[test]
fn lists_before_the_audio_section_are_passed_over() {
    let text = " Sinks:\n  *   45. Speakers [vol: 0.40]\nAudio\n";
    let status = get_status(text).unwrap();
    assert!(status.sinks.is_empty());
    assert!(status.sources.is_empty());
}

#[test]
fn a_line_that_does_not_match_ends_the_list() {
    let text = "Audio\n Sinks:\n      45. One [vol: 0.40]\n unrelated\n      52. Two [vol: 0.60]\n";
    let status = get_status(text).unwrap();
    assert_eq!(status.sinks, vec![node(45, false, "One", 400_000, false)]);
}

#[test]
fn carriage_returns_before_line_feeds_are_dropped() {
    let text = "Audio\r\n Sinks:\r\n  *   45. Speakers [vol: 0.40]\r\n";
    let status = get_status(text).unwrap();
    assert_eq!(status.sinks, vec![node(45, true, "Speakers", 400_000, false)]);
}

#[test]
fn the_last_line_needs_no_line_feed() {
    let text = "Audio\n Sources:\n      46. Mic [vol: 1.25]";
    let status = get_status(text).unwrap();
    assert_eq!(status.sources, vec![node(46, false, "Mic", 1_250_000, false)]);
}

#[test]
fn an_id_that_does_not_fit_is_malformed() {
    let text = "Audio\n Sinks:\n      99999999999. Big [vol: 0.40]\n";
    assert_eq!(get_status(text), Err(ErrorKind::MalformedStatus));
}

#[test]
fn the_largest_id_is_read() {
    let text = "Audio\n Sinks:\n      4294967295. Max [vol: 0.40]\n";
    let status = get_status(text).unwrap();
    assert_eq!(status.sinks[0].id, 4_294_967_295);
    let text = "Audio\n Sinks:\n      4294967296. Over [vol: 0.40]\n";
    assert_eq!(get_status(text), Err(ErrorKind::MalformedStatus));
}

#[test]
fn a_volume_with_two_points_is_malformed() {
    let text = "Audio\n Sinks:\n      45. Speakers [vol: 1.2.3]\n";
    assert_eq!(get_status(text), Err(ErrorKind::MalformedStatus));
}

#[test]
fn a_volume_of_a_lone_point_is_malformed() {
    let text = "Audio\n Sinks:\n      45. Speakers [vol: .]\n";
    assert_eq!(get_status(text), Err(ErrorKind::MalformedStatus));
}

#[test]
fn a_muted_suffix_sets_the_flag_and_keeps_the_gain() {
    let text = "Audio\n Sinks:\n  *   45. Speakers [vol: 0.40] [MUTED]\n      52. Headset [vol: 0.60]\n";
    let status = get_status(text).unwrap();
    assert_eq!(
        status.sinks,
        vec![node(45, true, "Speakers", 400_000, true), node(52, false, "Headset", 600_000, false)]
    );
}

#[test]
fn names_keep_their_punctuation_and_lose_outer_spaces() {
    let text = "Audio\n Sinks:\n      45.   HDMI / DisplayPort 2 (no-1) + x    [vol: 0.40]\n";
    let status = get_status(text).unwrap();
    assert_eq!(status.sinks[0].name, "HDMI / DisplayPort 2 (no-1) + x");
}

#[test]
fn groups_make_a_node() {
    let made = node_from_groups(&groups(true, "45", "  Speakers  ", "0.40"), false);
    assert_eq!(made, Ok(node(45, true, "Speakers", 400_000, false)));
    let made = node_from_groups(&groups(false, "7", "Mic", "1.5"), true);
    assert_eq!(made, Ok(node(7, false, "Mic", 1_500_000, true)));
}

#[test]
fn groups_with_a_bad_number_are_malformed() {
    assert_eq!(node_from_groups(&groups(false, "4x", "A", "0.1"), false), Err(ErrorKind::MalformedStatus));
    assert_eq!(node_from_groups(&groups(false, "", "A", "0.1"), false), Err(ErrorKind::MalformedStatus));
    assert_eq!(node_from_groups(&groups(false, "4", "A", "0,1"), false), Err(ErrorKind::MalformedStatus));
    assert_eq!(node_from_groups(&groups(false, "4", "A", ""), false), Err(ErrorKind::MalformedStatus));
}

#[test]
fn too_few_or_missing_groups_are_malformed() {
    let short = vec![Some("w".to_string()), None, Some("4".to_string()), Some("A".to_string())];
    assert_eq!(node_from_groups(&short, false), Err(ErrorKind::MalformedStatus));
    let mut missing = groups(false, "4", "A", "0.1");
    missing[3] = None;
    assert_eq!(node_from_groups(&missing, false), Err(ErrorKind::MalformedStatus));
}

#[test]
fn the_reader_moves_through_its_three_states() {
    let mut parser = Parser::new();
    assert_eq!(parser.cursor, Cursor::Outside);
    parser.feed(&chars(" Sinks:"), &Scan::Miss).unwrap();
    assert_eq!(parser.cursor, Cursor::Outside);
    parser.feed(&chars("Audio"), &Scan::Miss).unwrap();
    assert_eq!(parser.cursor, Cursor::InAudio);
    assert!(!parser.expects_node(&chars("anything")));
    parser.feed(&chars(" Sinks:"), &Scan::Miss).unwrap();
    assert_eq!(parser.cursor, Cursor::InList(NodeType::Sink));
    assert!(parser.expects_node(&chars("anything")));
    assert!(!parser.expects_node(&chars(" Sources:")));
    parser.feed(&chars("x"), &Scan::Hit(groups(true, "45", "Speakers", "0.40"))).unwrap();
    assert_eq!(parser.cursor, Cursor::InList(NodeType::Sink));
    parser.feed(&chars(" Sources:"), &Scan::Miss).unwrap();
    assert_eq!(parser.cursor, Cursor::InList(NodeType::Source));
    parser.feed(&chars("y [MUTED]"), &Scan::Hit(groups(false, "46", "Mic", "1"))).unwrap();
    parser.feed(&chars("Audio again"), &Scan::Miss).unwrap();
    assert_eq!(parser.cursor, Cursor::InList(NodeType::Source));
    parser.feed(&chars(""), &Scan::Miss).unwrap();
    assert_eq!(parser.cursor, Cursor::InAudio);
    let status = parser.finish();
    assert_eq!(status.sinks, vec![node(45, true, "Speakers", 400_000, false)]);
    assert_eq!(status.sources, vec![node(46, false, "Mic", 1_000_000, true)]);
}

#[test]
fn the_reader_refuses_a_bad_line_and_stays_as_it_was() {
    let mut parser = Parser::new();
    parser.feed(&chars("Audio"), &Scan::Miss).unwrap();
    parser.feed(&chars(" Sinks:"), &Scan::Miss).unwrap();
    let bad = Scan::Hit(groups(false, "x", "A", "0.1"));
    assert_eq!(parser.feed(&chars("line"), &bad), Err(ErrorKind::MalformedStatus));
    assert_eq!(parser.feed(&chars("line"), &Scan::Invalid), Err(ErrorKind::MalformedStatus));
    assert_eq!(parser.cursor, Cursor::InList(NodeType::Sink));
    assert!(parser.sinks.is_empty());
}

#[test]
fn a_status_is_shown_list_by_list() {
    let status = Status {
        sinks: vec![node(45, true, "Speakers", 400_000, false)],
        sources: vec![node(46, false, "Mic", 1_000_000, false), node(47, false, "Line", 1_250_000, false)],
    };
    assert_eq!(
        status.render(),
        "Sinks:\nID: 45, name: Speakers, volume: 0.4, default: true\n\nSources:\nID: 46, name: Mic, volume: 1, default: false\nID: 47, name: Line, volume: 1.25, default: false\n"
    );
    let only_sources = Status { sinks: vec![], sources: vec![node(46, true, "Mic", 0, false)] };
    assert_eq!(only_sources.render(), "Sources:\nID: 46, name: Mic, volume: 0, default: true\n");
    assert_eq!(Status { sinks: vec![], sources: vec![] }.render(), "");
}

#[test]
fn kinds_are_named_in_any_case() {
    assert_eq!(NodeType::from_str("sink"), Ok(NodeType::Sink));
    assert_eq!(NodeType::from_str("SINK"), Ok(NodeType::Sink));
    assert_eq!(NodeType::from_str("Source"), Ok(NodeType::Source));
    assert_eq!(NodeType::from_str("sinks"), Err(()));
    assert_eq!(NodeType::from_str(""), Err(()));
    assert_eq!(NodeType::from_lowercase("SINK"), None);
    assert_eq!(NodeType::from_lowercase("source"), Some(NodeType::Source));
    assert_eq!(NodeType::Sink.word(), "sink");
    assert_eq!(NodeType::Source.word(), "source");
}

#[test]
fn defaults_are_counted() {
    let status = get_status(STATUS).unwrap();
    assert_eq!(nor::node::count_defaults(&status.sinks), 1);
    assert_eq!(nor::node::count_defaults(&status.sources), 2);
    assert!(!status.has_single_defaults());
    let text = "Audio\n Sinks:\n  *   45. Speakers [vol: 0.40]\n      52. Headset [vol: 0.60]\n";
    let status = get_status(text).unwrap();
    assert!(status.has_single_defaults());
    assert_eq!(nor::node::count_defaults(&status.sources), 0);
}

#[test]
fn two_markers_give_two_defaults() {
    let text = "Audio\n Sinks:\n  *   45. Speakers [vol: 0.40]\n  *   52. Headset [vol: 0.60]\n";
    let status = get_status(text).unwrap();
    assert_eq!(nor::node::count_defaults(&status.sinks), 2);
    assert!(!status.has_single_defaults());
}
