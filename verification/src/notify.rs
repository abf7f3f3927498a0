//! What a desktop notification carries, and how a volume is classified for it.

use vstd::prelude::*;
use vstd::string::StringExecFns;
use crate::decimal::{decimal_digits, push_decimal};
use crate::gain::{tier_of, within_tier, Gain};

verus! {

/// The summary of a plain message.
pub const NOTIFICATION_SUMMARY: &'static str = "nor";

/// The application name of a volume notification.
pub const VOLUME_APPNAME: &'static str = "volume";

/// The summary of a volume notification begins with this.
pub const VOLUME_SUMMARY: &'static str = "Volume";

/// The five classes of loudness that have an icon.
#[derive(Clone, Copy, Debug, PartialEq, Eq, Structural)]
pub enum Level {
    Muted,
    Low,
    Medium,
    High,
    Overamplified,
}

/// How urgent a notification is.
#[derive(Clone, Copy, Debug, PartialEq, Eq, Structural)]
pub enum Urgency {
    Low,
    Normal,
}

/// A desktop notification, ready to be shown.
#[derive(Clone, Debug, PartialEq, Eq)]
pub struct Notice {
    pub appname: String,
    pub summary: String,
    pub body: String,
    pub icon: String,
    /// The value of the progress hint, in percent.
    pub value: Option<i32>,
    pub urgency: Urgency,
}

/// The class of a gain: muted at zero, low up to 30 %, medium up to 60 %, high
/// up to unity, and overamplified above it.
pub open spec fn level_of(volume: Gain) -> Level {
    if volume.micros == 0 {
        Level::Muted
    } else if volume.micros <= 300_000 {
        Level::Low
    } else if volume.micros <= 600_000 {
        Level::Medium
    } else if volume.micros <= 1_000_000 {
        Level::High
    } else {
        Level::Overamplified
    }
}

/// The word for a class, as icon names spell it.
pub open spec fn level_word(level: Level) -> Seq<char> {
    match level {
        Level::Muted => "muted"@,
        Level::Low => "low"@,
        Level::Medium => "medium"@,
        Level::High => "high"@,
        Level::Overamplified => "overamplified"@,
    }
}

/// The name of the icon for a gain.
pub open spec fn icon_of(volume: Gain) -> Seq<char> {
    "audio-volume-"@ + level_word(level_of(volume)) + "-symbolic"@
}

/// The note on amplification: empty up to unity, else the tier and a word.
pub open spec fn boost_note(volume: Gain) -> Seq<char> {
    if volume.micros <= 1_000_000 {
        Seq::empty()
    } else {
        " ("@ + decimal_digits(tier_of(volume.micros as nat)) + "x boost)"@
    }
}

/// The summary line of a volume notification: the fixed word, the node it is
/// about where one is named, and the note on amplification.
pub open spec fn volume_summary(volume: Gain, context: Seq<char>) -> Seq<char> {
    let about = if context.len() == 0 {
        Seq::empty()
    } else {
        ": "@ + context
    };
    VOLUME_SUMMARY@ + about + boost_note(volume)
}

/// The class of a gain.
pub fn classify(volume: Gain) -> (level: Level)
    ensures
        level == level_of(volume),
{
    if volume.micros == 0 {
        Level::Muted
    } else if volume.micros <= 300_000 {
        Level::Low
    } else if volume.micros <= 600_000 {
        Level::Medium
    } else if volume.micros <= 1_000_000 {
        Level::High
    } else {
        Level::Overamplified
    }
}

/// The word for the class of a gain.
pub fn get_volume_classifier(volume: Gain) -> (word: String)
    ensures
        word@ == level_word(level_of(volume)),
{
    let word = match classify(volume) {
        Level::Muted => "muted",
        Level::Low => "low",
        Level::Medium => "medium",
        Level::High => "high",
        Level::Overamplified => "overamplified",
    };
    String::from_str(word)
}

/// The name of the icon for a gain.
pub fn get_icon(volume: Gain) -> (icon: String)
    ensures
        icon@ == icon_of(volume),
{
    let classifier = get_volume_classifier(volume);
    let mut icon = String::from_str("audio-volume-");
    icon.append(classifier.as_str());
    icon.append("-symbolic");
    icon
}

/// `notice` is the plain message `msg`: the program's name as summary, `msg`
/// as body, and nothing else set.
pub open spec fn is_message(notice: Notice, msg: Seq<char>) -> bool {
    &&& notice.summary@ == NOTIFICATION_SUMMARY@
    &&& notice.body@ == msg
    &&& notice.appname@.len() == 0
    &&& notice.icon@.len() == 0
    &&& notice.value is None
    &&& notice.urgency == Urgency::Normal
}

/// `notice` is the notification of the volume `level` for the node `context`.
pub open spec fn is_volume_notice(notice: Notice, level: Gain, context: Seq<char>) -> bool {
    &&& notice.appname@ == VOLUME_APPNAME@
    &&& notice.summary@ == volume_summary(level, context)
    &&& notice.body@.len() == 0
    &&& notice.icon@ == icon_of(level)
    &&& notice.value == Some((within_tier(level.micros as nat) / 10_000) as i32)
    &&& notice.urgency == Urgency::Low
}

/// A plain message: the program's name as summary and `msg` as body.
pub fn message(msg: &str) -> (notice: Notice)
    ensures
        is_message(notice, msg@),
{
    Notice {
        appname: String::new(),
        summary: String::from_str(NOTIFICATION_SUMMARY),
        body: String::from_str(msg),
        icon: String::new(),
        value: None,
        urgency: Urgency::Normal,
    }
}

/// The notification of a volume. Its hint is the percentage within the boost
/// tier, its icon goes by the class of the whole gain, and its summary names
/// `context` and the boost tier where there is one.
pub fn volume(level: Gain, context: &str) -> (notice: Notice)
    ensures
        is_volume_notice(notice, level, context@),
{
    let shown: u64 = level.normalized().percent();
    let mut summary = String::from_str(VOLUME_SUMMARY);
    let ghost base = summary@;
    if context.unicode_len() > 0 {
        summary.append(": ");
        summary.append(context);
        proof {
            assert(base + ": "@ + context@ == base + (": "@ + context@));
        }
    } else {
        proof {
            assert(base + Seq::<char>::empty() == base);
        }
    }
    let ghost named = summary@;
    if level.is_boosted() {
        summary.append(" (");
        push_decimal(&mut summary, level.boost_tier());
        summary.append("x boost)");
        proof {
            let digits = decimal_digits(tier_of(level.micros as nat));
            assert(named + " ("@ + digits + "x boost)"@ == named + (" ("@ + digits + "x boost)"@));
        }
    } else {
        proof {
            assert(named + Seq::<char>::empty() == named);
        }
    }
    Notice {
        appname: String::from_str(VOLUME_APPNAME),
        summary,
        body: String::new(),
        icon: get_icon(level),
        value: Some(shown as i32),
        urgency: Urgency::Low,
    }
}

} // verus!
