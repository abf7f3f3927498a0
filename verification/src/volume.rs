//! Volume control: reading the current volume, the commands that change it,
//! and when the user is to be told.

use vstd::prelude::*;
use vstd::string::StringExecFns;
use crate::decimal::{decimal_digits, digit_char, push_decimal};
use crate::error::ErrorKind;
use crate::gain::{gain_text, is_decimal_text, micros_of, Gain};
use crate::notify::{is_volume_notice, Notice};
use crate::text::{
    chars_of, ends_with, has_suffix, slice_of, string_of, string_views, trim, trimmed,
};

verus! {

/// The step of a relative change where none is given, in percent.
pub const DEFAULT_MODIFY_STEP: u32 = 5;

/// The smallest step of a relative change, in percent.
pub const MINIMUM_MODIFY_STEP: u32 = 1;

/// The name by which the control program knows the default sink.
pub const DEFAULT_SINK_SPECIFIER: &'static str = "@DEFAULT_AUDIO_SINK@";

/// The ceiling handed to the control program with every change.
pub const MAXIMUM_VOLUME: &'static str = "1.5";

/// The reading of a muted sink ends with this.
pub const MUTED_SUFFIX: &'static str = "[MUTED]";

/// How many characters of a node's name a notification shows.
pub const NOTIFICATION_NODE_MAX_LENGTH: usize = 21;

/// What is asked of the volume.
#[derive(Clone, Copy, Debug, PartialEq, Eq, Structural)]
pub enum OpType {
    /// Lower it by a step.
    Dec,
    /// Print it.
    Get,
    /// Raise it by a step.
    Inc,
    /// Set it to `value` percent.
    SetTo { value: u32 },
    /// Show it in a notification.
    Show,
    /// Flip the mute state.
    Toggle,
}

/// A request: what to do, and for a relative change by how many percent.
#[derive(Clone, Copy, Debug, PartialEq, Eq, Structural)]
pub struct VolumeOp {
    pub op_type: OpType,
    pub step: Option<u32>,
}

impl VolumeOp {
    /// The request to do `change_type`, by `step` percent where that applies.
    pub fn new(change_type: OpType, step: Option<u32>) -> (op: VolumeOp)
        ensures
            op.op_type == change_type,
            op.step == step,
    {
        VolumeOp { op_type: change_type, step }
    }
}

/// What the control program reports of the default sink: the gain it is set
/// to, and whether it is muted.
#[derive(Clone, Copy, Debug, PartialEq, Eq, Structural)]
pub struct Reading {
    pub gain: Gain,
    pub muted: bool,
}

impl Reading {
    /// What is heard: nothing while muted, else the gain.
    pub open spec fn heard(&self) -> Gain {
        if self.muted {
            Gain { micros: 0 }
        } else {
            self.gain
        }
    }

    /// What is heard: nothing while muted, else the gain.
    pub fn effective(&self) -> (g: Gain)
        ensures
            g == self.heard(),
    {
        if self.muted {
            Gain::zero()
        } else {
            self.gain
        }
    }
}

/// What follows the last space of `s`; all of `s` where it has none.
pub open spec fn last_field(s: Seq<char>) -> Seq<char>
    decreases s.len(),
{
    if s.len() == 0 || s.last() == ' ' {
        Seq::empty()
    } else {
        last_field(s.drop_last()).push(s.last())
    }
}

/// The text of a reading without the muted suffix and the white space around
/// what is left.
pub open spec fn reading_body(output: Seq<char>) -> Seq<char> {
    let t = trimmed(output);
    if has_suffix(t, MUTED_SUFFIX@) {
        trimmed(t.subrange(0, t.len() - MUTED_SUFFIX@.len()))
    } else {
        t
    }
}

/// What the output of the volume query says. The sink is muted where the
/// output, trimmed, ends with the muted suffix; the gain is the last word
/// before that suffix. Where that word is no decimal number the output is
/// malformed.
pub open spec fn reading_of(output: Seq<char>) -> Result<Reading, ErrorKind> {
    let field = last_field(reading_body(output));
    if is_decimal_text(field) && micros_of(field) <= u64::MAX {
        Ok(
            Reading {
                gain: Gain { micros: micros_of(field) as u64 },
                muted: has_suffix(trimmed(output), MUTED_SUFFIX@),
            },
        )
    } else {
        Err(ErrorKind::MalformedStatus)
    }
}

proof fn lemma_last_field(s: Seq<char>, k: int)
    requires
        0 <= k <= s.len(),
        forall|i: int| k <= i < s.len() ==> s[i] != ' ',
        k == 0 || s[k - 1] == ' ',
    ensures
        last_field(s) == s.subrange(k, s.len() as int),
    decreases s.len() - k,
{
    if k < s.len() {
        let t = s.drop_last();
        lemma_last_field(t, k);
        assert(t.subrange(k, t.len() as int).push(s.last()) == s.subrange(k, s.len() as int));
    } else {
        assert(s.subrange(k, s.len() as int) == Seq::<char>::empty());
    }
}

/// What follows the last space of `s`.
fn last_field_of(s: &Vec<char>) -> (field: Vec<char>)
    ensures
        field@ == last_field(s@),
{
    let n: usize = s.len();
    let mut k: usize = n;
    while k > 0 && s[k - 1] != ' '
        invariant
            n == s@.len(),
            k <= n,
            forall|i: int| k <= i < n ==> s@[i] != ' ',
        decreases k,
    {
        k -= 1;
    }
    proof {
        lemma_last_field(s@, k as int);
    }
    slice_of(s, k, n)
}

/// Reads the output of the volume query.
pub fn lookup(output: &str) -> (out: Result<Reading, ErrorKind>)
    ensures
        out == reading_of(output@),
{
    let t = trim(&chars_of(output));
    let muted = ends_with(&t, MUTED_SUFFIX);
    let body = if muted {
        let suffix_len: usize = chars_of(MUTED_SUFFIX).len();
        trim(&slice_of(&t, 0, t.len() - suffix_len))
    } else {
        t
    };
    let field = last_field_of(&body);
    match Gain::parse(&field) {
        Some(gain) => Ok(Reading { gain, muted }),
        None => Err(ErrorKind::MalformedStatus),
    }
}

/// A number of percent written as a gain with two places: 10 is `0.10`.
pub open spec fn percent_text(percent: nat) -> Seq<char> {
    decimal_digits(percent / 100) + seq![
        '.',
        digit_char(percent / 10 % 10),
        digit_char(percent % 10),
    ]
}

/// The percent that a change is made by. A relative change, one with a sign,
/// is by the step given, or the default step, and never by less than the
/// minimum step. An absolute change is to the value given.
pub open spec fn magnitude(step: Option<u32>, signed: bool) -> nat {
    let asked: nat = match step {
        Some(given) => given as nat,
        None => DEFAULT_MODIFY_STEP as nat,
    };
    if signed && asked < MINIMUM_MODIFY_STEP {
        MINIMUM_MODIFY_STEP as nat
    } else {
        asked
    }
}

/// The arguments of a change of volume: the command, the ceiling, the sink,
/// and the amount with its sign.
pub open spec fn modify_args(step: Option<u32>, sign: Option<Seq<char>>) -> Seq<Seq<char>> {
    seq![
        "set-volume"@,
        "-l"@,
        MAXIMUM_VOLUME@,
        DEFAULT_SINK_SPECIFIER@,
        percent_text(magnitude(step, sign is Some)) + (match sign {
            Some(mark) => mark,
            None => Seq::empty(),
        }),
    ]
}

/// The arguments that flip the mute state of the default sink.
pub open spec fn toggle_args() -> Seq<Seq<char>> {
    seq!["set-mute"@, DEFAULT_SINK_SPECIFIER@, "toggle"@]
}

/// The arguments that ask for the volume of the default sink.
pub open spec fn get_volume_args_of() -> Seq<Seq<char>> {
    seq!["get-volume"@, DEFAULT_SINK_SPECIFIER@]
}

/// The arguments of a change of volume by or to `step` percent. With a sign
/// the change is relative and at least the minimum step; without one it is
/// absolute. The ceiling is part of every change.
pub fn modify(step: Option<u32>, sign: Option<&str>) -> (args: Vec<String>)
    ensures
        string_views(args@) == modify_args(
            step,
            match sign {
                Some(mark) => Some(mark@),
                None => None,
            },
        ),
{
    let asked: u32 = match step {
        Some(given) => given,
        None => DEFAULT_MODIFY_STEP,
    };
    let percent: u32 = if sign.is_some() && asked < MINIMUM_MODIFY_STEP {
        MINIMUM_MODIFY_STEP
    } else {
        asked
    };
    let mut amount = String::new();
    push_decimal(&mut amount, (percent / 100) as u64);
    let ghost whole = decimal_digits((percent / 100) as nat);
    proof {
        assert(Seq::<char>::empty() + whole == whole);
    }
    amount.push('.');
    amount.push((48u8 + (percent / 10 % 10) as u8) as char);
    amount.push((48u8 + (percent % 10) as u8) as char);
    proof {
        assert(amount@ =~= percent_text(percent as nat));
    }
    match sign {
        Some(mark) => {
            amount.append(mark);
        },
        None => {
            proof {
                assert(amount@ + Seq::<char>::empty() == amount@);
            }
        },
    }
    let mut args: Vec<String> = Vec::new();
    args.push(String::from_str("set-volume"));
    args.push(String::from_str("-l"));
    args.push(String::from_str(MAXIMUM_VOLUME));
    args.push(String::from_str(DEFAULT_SINK_SPECIFIER));
    args.push(amount);
    proof {
        assert(string_views(args@) =~= modify_args(
            step,
            match sign {
                Some(mark) => Some(mark@),
                None => None,
            },
        ));
    }
    args
}

/// The arguments of a relative change by `step` percent in the direction of
/// `sign`.
pub fn modify_rel(step: Option<u32>, sign: &str) -> (args: Vec<String>)
    ensures
        string_views(args@) == modify_args(step, Some(sign@)),
{
    modify(step, Some(sign))
}

/// The arguments that set the volume to `value` percent.
pub fn modify_set(value: u32) -> (args: Vec<String>)
    ensures
        string_views(args@) == modify_args(Some(value), None),
{
    modify(Some(value), None)
}

/// The arguments that flip the mute state of the default sink.
pub fn toggle() -> (args: Vec<String>)
    ensures
        string_views(args@) == toggle_args(),
{
    let mut args: Vec<String> = Vec::new();
    args.push(String::from_str("set-mute"));
    args.push(String::from_str(DEFAULT_SINK_SPECIFIER));
    args.push(String::from_str("toggle"));
    proof {
        assert(string_views(args@) =~= toggle_args());
    }
    args
}

/// The arguments that ask for the volume of the default sink.
pub fn get_volume_args() -> (args: Vec<String>)
    ensures
        string_views(args@) == get_volume_args_of(),
{
    let mut args: Vec<String> = Vec::new();
    args.push(String::from_str("get-volume"));
    args.push(String::from_str(DEFAULT_SINK_SPECIFIER));
    proof {
        assert(string_views(args@) =~= get_volume_args_of());
    }
    args
}

/// The beginning of `name` that a notification shows.
pub open spec fn shown_name(name: Seq<char>) -> Seq<char> {
    if name.len() <= NOTIFICATION_NODE_MAX_LENGTH {
        name
    } else {
        name.take(NOTIFICATION_NODE_MAX_LENGTH as int)
    }
}

/// The notification of the volume `level` of the sink called `sink`, whose
/// name is cut to the length that fits.
pub fn notify(level: Gain, sink: &str) -> (notice: Notice)
    ensures
        is_volume_notice(notice, level, shown_name(sink@)),
{
    let chars = chars_of(sink);
    let keep: usize = if chars.len() <= NOTIFICATION_NODE_MAX_LENGTH {
        chars.len()
    } else {
        NOTIFICATION_NODE_MAX_LENGTH
    };
    let truncated = string_of(&chars, 0, keep);
    proof {
        assert(chars@.subrange(0, keep as int) =~= shown_name(sink@));
    }
    crate::notify::volume(level, truncated.as_str())
}

/// What a request calls for first, the volume having been read.
#[derive(Clone, Debug, PartialEq, Eq)]
pub enum Action {
    /// Print this line; nothing changes and nobody is notified.
    Print(String),
    /// Notify of this volume; nothing changes.
    Notify(Gain),
    /// Run the control program with these arguments, read the volume again
    /// and see whether the user is to be told.
    Run(Vec<String>),
}

/// The line that a query prints.
pub open spec fn query_line(level: Gain) -> Seq<char> {
    "volume: "@ + gain_text(level.micros as nat)
}

/// `action` is what `change` calls for when the volume heard is `old`.
pub open spec fn action_fits(action: Action, change: VolumeOp, old: Gain) -> bool {
    match change.op_type {
        OpType::Get => action matches Action::Print(line) && line@ == query_line(old),
        OpType::Show => action == Action::Notify(old),
        OpType::Dec => action matches Action::Run(args) && string_views(args@) == modify_args(
            change.step,
            Some("-"@),
        ),
        OpType::Inc => action matches Action::Run(args) && string_views(args@) == modify_args(
            change.step,
            Some("+"@),
        ),
        OpType::SetTo { value } => action matches Action::Run(args) && string_views(args@)
            == modify_args(Some(value), None),
        OpType::Toggle => action matches Action::Run(args) && string_views(args@) == toggle_args(),
    }
}

/// What `change` calls for, `old` being the volume read before it. A query
/// prints and a show notifies, both without a change; every other request
/// runs one command.
pub fn apply(change: VolumeOp, old: &Reading) -> (action: Action)
    ensures
        action_fits(action, change, old.heard()),
{
    let old_volume = old.effective();
    match change.op_type {
        OpType::Dec => Action::Run(modify_rel(change.step, "-")),
        OpType::Inc => Action::Run(modify_rel(change.step, "+")),
        OpType::Get => {
            let mut line = String::from_str("volume: ");
            line.append(old_volume.render().as_str());
            Action::Print(line)
        },
        OpType::SetTo { value } => Action::Run(modify_set(value)),
        OpType::Show => Action::Notify(old_volume),
        OpType::Toggle => Action::Run(toggle()),
    }
}

/// Whether the user is to be told of the volume after a change: where what is
/// heard has changed, and where nothing is heard any more.
pub open spec fn feedback_due(old: Gain, new: Gain) -> bool {
    old != new || new.micros == 0
}

/// The volume to notify of after a change, if any: the new one where it
/// differs from the old one or is silence. A change that left an audible
/// volume as it was goes unmentioned.
pub fn after(old: &Reading, new: &Reading) -> (told: Option<Gain>)
    ensures
        told == (if feedback_due(old.heard(), new.heard()) {
            Some(new.heard())
        } else {
            None
        }),
        new.muted ==> told == Some(Gain { micros: 0 }),
{
    let old_volume = old.effective();
    let new_volume = new.effective();
    if old_volume != new_volume || new_volume.is_zero() {
        Some(new_volume)
    } else {
        None
    }
}

/// Muting is always told: whatever was heard before, and whether or not the
/// gain itself moved, a reading that is muted calls for a notification of
/// silence.
pub proof fn lemma_muting_is_told(old: Reading, new: Reading)
    requires
        new.muted,
    ensures
        feedback_due(old.heard(), new.heard()),
        new.heard().micros == 0,
{
}

/// A change that left an audible volume where it was is not told: that is the
/// one case in which nothing is notified.
pub proof fn lemma_silent_only_when_unchanged(old: Reading, new: Reading)
    ensures
        !feedback_due(old.heard(), new.heard()) <==> (old.heard() == new.heard()
            && new.heard().micros > 0),
{
}

/// Every change of volume names the ceiling, and a relative change is never
/// by less than the minimum step.
pub proof fn lemma_modify_passes_ceiling(step: Option<u32>, sign: Option<Seq<char>>)
    ensures
        modify_args(step, sign).len() == 5,
        modify_args(step, sign)[1] == "-l"@,
        modify_args(step, sign)[2] == MAXIMUM_VOLUME@,
        sign is Some ==> magnitude(step, true) >= MINIMUM_MODIFY_STEP,
{
}

} // verus!
