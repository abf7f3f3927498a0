use nor::error::ErrorKind;
use nor::gain::Gain;
use nor::notify::{Level, Urgency};
use nor::volume::{
    after, apply, get_volume_args, lookup, modify, modify_rel, modify_set, notify, toggle, Action,
    OpType, Reading, VolumeOp,
};

fn strings(items: &[&str]) -> Vec<String> {
    items.iter().map(|s| s.to_string()).collect()
}

fn reading(micros: u64, muted: bool) -> Reading {
    Reading { gain: Gain { micros }, muted }
}

#[test]
fn a_request_holds_what_it_was_made_of() {
    let op = VolumeOp::new(OpType::Inc, Some(10));
    assert_eq!(op.op_type, OpType::Inc);
    assert_eq!(op.step, Some(10));
    let op = VolumeOp::new(OpType::SetTo { value: 35 }, None);
    assert_eq!(op.op_type, OpType::SetTo { value: 35 });
    assert_eq!(op.step, None);
}

#[test]
fn increase_by_ten_from_ninety_percent() {
    let old = lookup("Volume: 0.90").unwrap();
    let action = apply(VolumeOp::new(OpType::Inc, Some(10)), &old);
    assert_eq!(
        action,
        Action::Run(strings(&["set-volume", "-l", "1.5", "@DEFAULT_AUDIO_SINK@", "0.10+"]))
    );
    let new = lookup("Volume: 1.00").unwrap();
    let told = after(&old, &new).unwrap();
    let notice = notify(told, "Speakers");
    assert_eq!(notice.value, Some(100));
    assert_eq!(notice.summary, "Volume: Speakers");
    assert!(!notice.summary.contains("boost"));
    assert_eq!(notice.icon, "audio-volume-high-symbolic");
}

#[test]
fn muting_is_told_though_the_gain_stays() {
    let old = lookup("Volume: 0.40").unwrap();
    let action = apply(VolumeOp::new(OpType::Toggle, None), &old);
    assert_eq!(action, Action::Run(strings(&["set-mute", "@DEFAULT_AUDIO_SINK@", "toggle"])));
    let new = lookup("Volume: 0.40 [MUTED]").unwrap();
    assert_eq!(new.gain, old.gain);
    assert_eq!(after(&old, &new), Some(Gain { micros: 0 }));
}

#[test]
fn muting_what_was_silent_is_told_too() {
    assert_eq!(after(&reading(0, false), &reading(0, true)), Some(Gain { micros: 0 }));
    assert_eq!(after(&reading(400_000, true), &reading(400_000, true)), Some(Gain { micros: 0 }));
}

#[test]
fn unmuting_is_told() {
    assert_eq!(
        after(&reading(400_000, true), &reading(400_000, false)),
        Some(Gain { micros: 400_000 })
    );
}

#[test]
fn an_unchanged_audible_volume_is_not_told() {
    assert_eq!(after(&reading(1_500_000, false), &reading(1_500_000, false)), None);
    assert_eq!(after(&reading(10_000, false), &reading(10_000, false)), None);
}

#[test]
fn a_changed_volume_is_told() {
    assert_eq!(
        after(&reading(400_000, false), &reading(450_000, false)),
        Some(Gain { micros: 450_000 })
    );
    assert_eq!(after(&reading(10_000, false), &reading(0, false)), Some(Gain { micros: 0 }));
    assert_eq!(after(&reading(0, false), &reading(0, false)), Some(Gain { micros: 0 }));
}

#[test]
fn a_query_prints_and_changes_nothing() {
    let action = apply(VolumeOp::new(OpType::Get, None), &reading(400_000, false));
    assert_eq!(action, Action::Print("volume: 0.4".to_string()));
    let action = apply(VolumeOp::new(OpType::Get, None), &reading(400_000, true));
    assert_eq!(action, Action::Print("volume: 0".to_string()));
    let action = apply(VolumeOp::new(OpType::Get, None), &reading(1_250_000, false));
    assert_eq!(action, Action::Print("volume: 1.25".to_string()));
}

#[test]
fn a_show_notifies_of_what_is_heard() {
    let action = apply(VolumeOp::new(OpType::Show, None), &reading(400_000, false));
    assert_eq!(action, Action::Notify(Gain { micros: 400_000 }));
    let action = apply(VolumeOp::new(OpType::Show, None), &reading(400_000, true));
    assert_eq!(action, Action::Notify(Gain { micros: 0 }));
}

#[test]
fn a_decrease_runs_with_a_minus() {
    let action = apply(VolumeOp::new(OpType::Dec, None), &reading(400_000, false));
    assert_eq!(
        action,
        Action::Run(strings(&["set-volume", "-l", "1.5", "@DEFAULT_AUDIO_SINK@", "0.05-"]))
    );
}

#[test]
fn a_set_runs_without_a_sign() {
    let action = apply(VolumeOp::new(OpType::SetTo { value: 35 }, Some(9)), &reading(400_000, false));
    assert_eq!(
        action,
        Action::Run(strings(&["set-volume", "-l", "1.5", "@DEFAULT_AUDIO_SINK@", "0.35"]))
    );
}

#[test]
fn steps_are_written_with_two_places() {
    assert_eq!(modify_rel(Some(10), "+")[4], "0.10+");
    assert_eq!(modify_rel(Some(7), "-")[4], "0.07-");
    assert_eq!(modify_rel(None, "+")[4], "0.05+");
    assert_eq!(modify_rel(Some(100), "+")[4], "1.00+");
    assert_eq!(modify_rel(Some(125), "-")[4], "1.25-");
    assert_eq!(modify_rel(Some(4_294_967_295), "+")[4], "42949672.95+");
}

#[test]
fn a_relative_step_is_never_less_than_the_minimum() {
    assert_eq!(modify_rel(Some(0), "+")[4], "0.01+");
    assert_eq!(modify_rel(Some(0), "-")[4], "0.01-");
    assert_eq!(modify_rel(Some(1), "-")[4], "0.01-");
}

#[test]
fn an_absolute_value_is_taken_as_it_is() {
    assert_eq!(modify_set(0)[4], "0.00");
    assert_eq!(modify_set(150)[4], "1.50");
    assert_eq!(modify(None, None)[4], "0.05");
    assert_eq!(modify(Some(0), None)[4], "0.00");
    assert_eq!(modify(Some(0), Some("+"))[4], "0.01+");
}

#[test]
fn every_change_names_the_ceiling() {
    for args in [modify_rel(Some(3), "+"), modify_rel(None, "-"), modify_set(80), modify(None, None)] {
        assert_eq!(args.len(), 5);
        assert_eq!(&args[..4], &strings(&["set-volume", "-l", "1.5", "@DEFAULT_AUDIO_SINK@"])[..]);
    }
}

#[test]
fn the_other_commands_are_spelled_out() {
    assert_eq!(toggle(), strings(&["set-mute", "@DEFAULT_AUDIO_SINK@", "toggle"]));
    assert_eq!(get_volume_args(), strings(&["get-volume", "@DEFAULT_AUDIO_SINK@"]));
}

#[test]
fn readings_are_read() {
    assert_eq!(lookup("Volume: 0.40\n"), Ok(reading(400_000, false)));
    assert_eq!(lookup("Volume: 0.40 [MUTED]\n"), Ok(reading(400_000, true)));
    assert_eq!(lookup("Volume: 1.50"), Ok(reading(1_500_000, false)));
    assert_eq!(lookup("0.90"), Ok(reading(900_000, false)));
    assert_eq!(lookup("0.90 [MUTED]"), Ok(reading(900_000, true)));
    assert_eq!(lookup("  Volume: 1  "), Ok(reading(1_000_000, false)));
    assert_eq!(lookup("Volume: 0.123456789"), Ok(reading(123_456, false)));
}

#[test]
fn a_muted_reading_is_heard_as_silence() {
    let muted = lookup("Volume: 0.40 [MUTED]").unwrap();
    assert_eq!(muted.effective(), Gain { micros: 0 });
    assert_eq!(muted.gain, Gain { micros: 400_000 });
    assert_eq!(reading(400_000, false).effective(), Gain { micros: 400_000 });
}

#[test]
fn readings_without_a_number_are_malformed() {
    assert_eq!(lookup(""), Err(ErrorKind::MalformedStatus));
    assert_eq!(lookup("Volume:"), Err(ErrorKind::MalformedStatus));
    assert_eq!(lookup("Volume: "), Err(ErrorKind::MalformedStatus));
    assert_eq!(lookup("[MUTED]"), Err(ErrorKind::MalformedStatus));
    assert_eq!(lookup("Volume: loud"), Err(ErrorKind::MalformedStatus));
    assert_eq!(lookup("Volume: 0.4.0"), Err(ErrorKind::MalformedStatus));
    assert_eq!(lookup("Volume: -0.40"), Err(ErrorKind::MalformedStatus));
    assert_eq!(lookup("Volume: 0.40 extra"), Err(ErrorKind::MalformedStatus));
}

#[test]
fn the_sink_name_is_cut_to_twenty_one_characters() {
    let notice = notify(Gain { micros: 450_000 }, "Built-in Audio Analog Stereo");
    assert_eq!(notice.summary, "Volume: Built-in Audio Analog");
    let notice = notify(Gain { micros: 450_000 }, "exactly twenty-one ch");
    assert_eq!(notice.summary, "Volume: exactly twenty-one ch");
    let notice = notify(Gain { micros: 450_000 }, "Kopfhörer äöü ÄÖÜ ß und mehr");
    assert_eq!(notice.summary, "Volume: Kopfhörer äöü ÄÖÜ ß u");
    let notice = notify(Gain { micros: 450_000 }, "");
    assert_eq!(notice.summary, "Volume");
}

#[test]
fn a_volume_notice_carries_hint_icon_and_urgency() {
    let notice = notify(Gain { micros: 1_350_000 }, "Speakers");
    assert_eq!(notice.appname, "volume");
    assert_eq!(notice.summary, "Volume: Speakers (1x boost)");
    assert_eq!(notice.body, "");
    assert_eq!(notice.icon, "audio-volume-overamplified-symbolic");
    assert_eq!(notice.value, Some(35));
    assert_eq!(notice.urgency, Urgency::Low);
    assert_eq!(nor::notify::classify(Gain { micros: 1_350_000 }), Level::Overamplified);
}
