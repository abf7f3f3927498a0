//! Audio nodes and the status text they are read from.

use vstd::prelude::*;
use vstd::string::StringExecFns;
use crate::chooser::{backend, plain_text, use_terminal, Backend};
use crate::decimal::{all_digits, decimal_digits, decimal_value, format_decimal, parse_u32};
use crate::error::ErrorKind;
use crate::gain::{gain_text, is_decimal_text, micros_of, Gain};
use crate::notify::{is_message, message, Notice};
use crate::pattern::{group_views, pattern_groups, pattern_is_valid, scan, Scan};
use crate::text::{
    chars_of, ends_with, has_prefix, has_suffix, line_views, lines_of, lowercase_of, same_text,
    split_lines, starts_with, string_of, string_views, trim, trimmed,
};

verus! {

/// The shape of one line of a node list: an optional default marker, the id
/// and a period, the name, and the volume in brackets.
pub const NODE_PATTERN: &'static str =
    r"(?P<default>\*)?\s+(?P<id>[0-9]+)\. (?P<name>[a-zA-Z0-9()+/ -]+) \[vol: (?P<volume>[0-9.]+)\]";

/// The line that opens the audio section begins with this.
pub const AUDIO_MARKER: &'static str = "Audio";

/// The line that opens the list of sinks ends with this.
pub const SINKS_MARKER: &'static str = "Sinks:";

/// The line that opens the list of sources ends with this.
pub const SOURCES_MARKER: &'static str = "Sources:";

/// A line of a muted node ends with this.
pub const MUTED_SUFFIX: &'static str = "[MUTED]";

/// The two kinds of audio endpoint.
#[derive(Clone, Copy, Debug, PartialEq, Eq, Structural)]
pub enum NodeType {
    /// An output, such as speakers.
    Sink,
    /// An input, such as a microphone.
    Source,
}

/// The word for a sink.
pub const SINK_WORD: &'static str = "sink";

/// The word for a source.
pub const SOURCE_WORD: &'static str = "source";

/// The kind that a lowercase word names, if any.
pub open spec fn kind_named(word: Seq<char>) -> Option<NodeType> {
    if word == SINK_WORD@ {
        Some(NodeType::Sink)
    } else if word == SOURCE_WORD@ {
        Some(NodeType::Source)
    } else {
        None
    }
}

impl NodeType {
    /// The kind that `word` names, letter for letter.
    pub fn from_lowercase(word: &str) -> (out: Option<NodeType>)
        ensures
            out == kind_named(word@),
    {
        if same_text(word, SINK_WORD) {
            Some(NodeType::Sink)
        } else if same_text(word, SOURCE_WORD) {
            Some(NodeType::Source)
        } else {
            None
        }
    }

    /// The kind that `word` names, whatever the case of its letters.
    pub fn from_str(word: &str) -> (out: Result<NodeType, ()>)
        ensures
            match kind_named(lowercase_of(word@)) {
                Some(kind) => out == Ok::<NodeType, ()>(kind),
                None => out is Err,
            },
    {
        let lower = word.to_lowercase();
        match NodeType::from_lowercase(lower.as_str()) {
            Some(kind) => Ok(kind),
            None => Err(()),
        }
    }

    /// The lowercase word for this kind.
    pub fn word(&self) -> (out: &'static str)
        ensures
            kind_named(out@) == Some(*self),
    {
        proof {
            reveal_strlit("sink");
            reveal_strlit("source");
            assert("sink"@ != "source"@) by {
                assert("sink"@.len() == 4);
                assert("source"@.len() == 6);
            }
        }
        match self {
            NodeType::Sink => SINK_WORD,
            NodeType::Source => SOURCE_WORD,
        }
    }
}

/// One audio endpoint as the status text lists it.
#[derive(Clone, Debug, PartialEq, Eq)]
pub struct Node {
    pub id: u32,
    pub default: bool,
    pub name: String,
    pub volume: Gain,
    pub muted: bool,
}

/// A node with its name as a sequence of characters.
pub struct NodeView {
    pub id: u32,
    pub default: bool,
    pub name: Seq<char>,
    pub volume: Gain,
    pub muted: bool,
}

impl View for Node {
    type V = NodeView;

    open spec fn view(&self) -> NodeView {
        NodeView {
            id: self.id,
            default: self.default,
            name: self.name@,
            volume: self.volume,
            muted: self.muted,
        }
    }
}

/// The views of the nodes of a list, in order.
pub open spec fn node_views(nodes: Seq<Node>) -> Seq<NodeView> {
    Seq::new(nodes.len(), |i: int| nodes[i]@)
}

/// Where the reader stands in the status text.
#[derive(Clone, Copy, Debug, PartialEq, Eq, Structural)]
pub enum Cursor {
    /// Before the audio section.
    Outside,
    /// In the audio section, in no list.
    InAudio,
    /// In the list of nodes of one kind.
    InList(NodeType),
}

/// What has been read so far.
pub struct Progress {
    pub cursor: Cursor,
    pub sinks: Seq<NodeView>,
    pub sources: Seq<NodeView>,
}

/// The line of a muted node: its last word is the muted suffix.
pub open spec fn is_muted_line(line: Seq<char>) -> bool {
    has_suffix(trimmed(line), MUTED_SUFFIX@)
}

/// The node that the capture groups of a matching line describe. Group 1 is
/// the default marker, 2 the id, 3 the name, 4 the volume. A missing group or
/// a number that cannot be read makes the status malformed.
pub open spec fn node_of(groups: Seq<Option<Seq<char>>>, muted: bool) -> Result<
    NodeView,
    ErrorKind,
> {
    if groups.len() < 5 || groups[2] is None || groups[3] is None || groups[4] is None {
        Err(ErrorKind::MalformedStatus)
    } else {
        let id = groups[2]->0;
        let volume = groups[4]->0;
        if !(id.len() > 0 && all_digits(id) && decimal_value(id) <= u32::MAX) {
            Err(ErrorKind::MalformedStatus)
        } else if !(is_decimal_text(volume) && micros_of(volume) <= u64::MAX) {
            Err(ErrorKind::MalformedStatus)
        } else {
            Ok(
                NodeView {
                    id: decimal_value(id) as u32,
                    default: groups[1] is Some,
                    name: trimmed(groups[3]->0),
                    volume: Gain { micros: micros_of(volume) as u64 },
                    muted,
                },
            )
        }
    }
}

/// Builds the node that the capture groups of a matching line describe.
pub fn node_from_groups(groups: &Vec<Option<String>>, muted: bool) -> (out: Result<
    Node,
    ErrorKind,
>)
    ensures
        match out {
            Ok(node) => node_of(group_views(groups@), muted) == Ok::<NodeView, ErrorKind>(node@),
            Err(e) => node_of(group_views(groups@), muted) == Err::<NodeView, ErrorKind>(e),
        },
{
    if groups.len() < 5 {
        return Err(ErrorKind::MalformedStatus);
    }
    let ghost views = group_views(groups@);
    proof {
        assert(views[1] is Some == groups@[1] is Some);
    }
    let default = groups[1].is_some();
    match (&groups[2], &groups[3], &groups[4]) {
        (Some(id_text), Some(name_text), Some(volume_text)) => {
            proof {
                assert(views[2] == Some(id_text@));
                assert(views[3] == Some(name_text@));
                assert(views[4] == Some(volume_text@));
            }
            let id_chars = chars_of(id_text.as_str());
            let id = match parse_u32(&id_chars) {
                Some(id) => id,
                None => {
                    return Err(ErrorKind::MalformedStatus);
                },
            };
            let volume_chars = chars_of(volume_text.as_str());
            let volume = match Gain::parse(&volume_chars) {
                Some(volume) => volume,
                None => {
                    return Err(ErrorKind::MalformedStatus);
                },
            };
            let name_chars = trim(&chars_of(name_text.as_str()));
            let name = string_of(&name_chars, 0, name_chars.len());
            proof {
                assert(name_chars@.subrange(0, name_chars@.len() as int) == name_chars@);
            }
            Ok(Node { id, default, name, volume, muted })
        },
        _ => {
            proof {
                assert(views[2] is None == groups@[2] is None);
                assert(views[3] is None == groups@[3] is None);
                assert(views[4] is None == groups@[4] is None);
            }
            Err(ErrorKind::MalformedStatus)
        },
    }
}

/// One parse of the status text: the nodes of each kind in the order in
/// which the text lists them.
#[derive(Clone, Debug, PartialEq, Eq)]
pub struct Status {
    pub sinks: Vec<Node>,
    pub sources: Vec<Node>,
}

/// A status with its nodes by their views.
pub struct StatusView {
    pub sinks: Seq<NodeView>,
    pub sources: Seq<NodeView>,
}

impl View for Status {
    type V = StatusView;

    open spec fn view(&self) -> StatusView {
        StatusView { sinks: node_views(self.sinks@), sources: node_views(self.sources@) }
    }
}

/// Whether the reader, standing at `cursor`, holds `line` against the node
/// pattern: it does so in a list, unless the line is one of the markers.
pub open spec fn consults(cursor: Cursor, line: Seq<char>) -> bool {
    &&& cursor is InList
    &&& !has_prefix(line, AUDIO_MARKER@)
    &&& !has_suffix(line, SINKS_MARKER@)
    &&& !has_suffix(line, SOURCES_MARKER@)
}

/// One line read. `hit` is what the node pattern captured in the line, `None`
/// where it does not match.
///
/// A line that begins with the audio marker opens the audio section. Within
/// it, a line that ends with a list marker opens that list. In a list, a line
/// that matches adds its node to the list and one that does not closes the
/// list. Every other line is passed over.
pub open spec fn step(p: Progress, line: Seq<char>, hit: Option<Seq<Option<Seq<char>>>>) -> Result<
    Progress,
    ErrorKind,
> {
    if has_prefix(line, AUDIO_MARKER@) {
        if p.cursor is Outside {
            Ok(Progress { cursor: Cursor::InAudio, ..p })
        } else {
            Ok(p)
        }
    } else if p.cursor is Outside {
        Ok(p)
    } else if has_suffix(line, SINKS_MARKER@) {
        Ok(Progress { cursor: Cursor::InList(NodeType::Sink), ..p })
    } else if has_suffix(line, SOURCES_MARKER@) {
        Ok(Progress { cursor: Cursor::InList(NodeType::Source), ..p })
    } else {
        match p.cursor {
            Cursor::InList(kind) => match hit {
                None => Ok(Progress { cursor: Cursor::InAudio, ..p }),
                Some(groups) => match node_of(groups, is_muted_line(line)) {
                    Err(e) => Err(e),
                    Ok(node) => match kind {
                        NodeType::Sink => Ok(Progress { sinks: p.sinks.push(node), ..p }),
                        NodeType::Source => Ok(Progress { sources: p.sources.push(node), ..p }),
                    },
                },
            },
            _ => Ok(p),
        }
    }
}

/// What a scan found, as `step` takes it.
pub open spec fn scan_hit(found: Scan) -> Option<Seq<Option<Seq<char>>>> {
    match found {
        Scan::Hit(groups) => Some(group_views(groups@)),
        _ => None,
    }
}

/// All of `lines` read in order from `p`, each held against the node pattern.
/// The first malformed line ends the reading.
pub open spec fn run(p: Progress, lines: Seq<Seq<char>>) -> Result<Progress, ErrorKind>
    decreases lines.len(),
{
    if lines.len() == 0 {
        Ok(p)
    } else {
        match step(p, lines[0], pattern_groups(NODE_PATTERN@, lines[0])) {
            Err(e) => Err(e),
            Ok(q) => run(q, lines.drop_first()),
        }
    }
}

/// Nothing read yet.
pub open spec fn start() -> Progress {
    Progress { cursor: Cursor::Outside, sinks: Seq::empty(), sources: Seq::empty() }
}

/// The status that `text` describes, or why it describes none.
pub open spec fn status_of(text: Seq<char>) -> Result<StatusView, ErrorKind> {
    if !pattern_is_valid(NODE_PATTERN@) {
        Err(ErrorKind::MalformedStatus)
    } else {
        match run(start(), lines_of(text)) {
            Err(e) => Err(e),
            Ok(p) => Ok(StatusView { sinks: p.sinks, sources: p.sources }),
        }
    }
}

/// A reader of status text, fed line by line.
pub struct Parser {
    pub cursor: Cursor,
    pub sinks: Vec<Node>,
    pub sources: Vec<Node>,
}

impl View for Parser {
    type V = Progress;

    open spec fn view(&self) -> Progress {
        Progress {
            cursor: self.cursor,
            sinks: node_views(self.sinks@),
            sources: node_views(self.sources@),
        }
    }
}

impl Parser {
    /// A reader that has read nothing.
    pub fn new() -> (parser: Parser)
        ensures
            parser@ == start(),
    {
        let parser = Parser { cursor: Cursor::Outside, sinks: Vec::new(), sources: Vec::new() };
        proof {
            assert(parser@.sinks =~= Seq::empty());
            assert(parser@.sources =~= Seq::empty());
        }
        parser
    }

    /// Whether the next call of `feed` with `line` looks at its scan.
    pub fn expects_node(&self, line: &Vec<char>) -> (yes: bool)
        ensures
            yes == consults(self@.cursor, line@),
    {
        match self.cursor {
            Cursor::InList(_) => !starts_with(line, AUDIO_MARKER) && !ends_with(line, SINKS_MARKER)
                && !ends_with(line, SOURCES_MARKER),
            _ => false,
        }
    }

    /// Reads one line. `found` is the scan of the line for the node pattern;
    /// it is looked at only where `expects_node` says so. On an error the
    /// reader stays as it was.
    pub fn feed(&mut self, line: &Vec<char>, found: &Scan) -> (out: Result<(), ErrorKind>)
        ensures
            consults(old(self)@.cursor, line@) && *found is Invalid ==> out == Err::<
                (),
                ErrorKind,
            >(ErrorKind::MalformedStatus) && final(self)@ == old(self)@,
            !(consults(old(self)@.cursor, line@) && *found is Invalid) ==> match out {
                Ok(_) => step(old(self)@, line@, scan_hit(*found)) == Ok::<Progress, ErrorKind>(
                    final(self)@,
                ),
                Err(e) => step(old(self)@, line@, scan_hit(*found)) == Err::<Progress, ErrorKind>(e)
                    && final(self)@ == old(self)@,
            },
    {
        if starts_with(line, AUDIO_MARKER) {
            if let Cursor::Outside = self.cursor {
                self.cursor = Cursor::InAudio;
            }
            return Ok(());
        }
        if let Cursor::Outside = self.cursor {
            return Ok(());
        }
        if ends_with(line, SINKS_MARKER) {
            self.cursor = Cursor::InList(NodeType::Sink);
            return Ok(());
        }
        if ends_with(line, SOURCES_MARKER) {
            self.cursor = Cursor::InList(NodeType::Source);
            return Ok(());
        }
        let kind = match self.cursor {
            Cursor::InList(kind) => kind,
            _ => {
                return Ok(());
            },
        };
        match found {
            Scan::Invalid => Err(ErrorKind::MalformedStatus),
            Scan::Miss => {
                self.cursor = Cursor::InAudio;
                Ok(())
            },
            Scan::Hit(groups) => {
                let muted = ends_with(&trim(line), MUTED_SUFFIX);
                let node = node_from_groups(groups, muted)?;
                match kind {
                    NodeType::Sink => {
                        self.sinks.push(node);
                        proof {
                            assert(node_views(self.sinks@) =~= node_views(old(self).sinks@).push(
                                node@,
                            ));
                        }
                    },
                    NodeType::Source => {
                        self.sources.push(node);
                        proof {
                            assert(node_views(self.sources@) =~= node_views(
                                old(self).sources@,
                            ).push(node@));
                        }
                    },
                }
                Ok(())
            },
        }
    }

    /// The status read so far.
    pub fn finish(self) -> (status: Status)
        ensures
            status@.sinks == self@.sinks,
            status@.sources == self@.sources,
    {
        Status { sinks: self.sinks, sources: self.sources }
    }
}

/// Reads the status text of the control program: the sinks and the sources
/// of its audio section, each list in the order of the text.
pub fn get_status(text: &str) -> (out: Result<Status, ErrorKind>)
    ensures
        match out {
            Ok(status) => status_of(text@) == Ok::<StatusView, ErrorKind>(status@),
            Err(e) => status_of(text@) == Err::<StatusView, ErrorKind>(e),
        },
{
    if let Scan::Invalid = scan(NODE_PATTERN, "") {
        return Err(ErrorKind::MalformedStatus);
    }
    let chars = chars_of(text);
    let lines = split_lines(&chars);
    let mut parser = Parser::new();
    let ghost all = lines_of(text@);
    let mut i: usize = 0;
    proof {
        assert(all.skip(0) == all);
    }
    while i < lines.len()
        invariant
            i <= lines@.len(),
            all == lines_of(text@),
            line_views(lines@) == all,
            pattern_is_valid(NODE_PATTERN@),
            run(parser@, all.skip(i as int)) == run(start(), all),
        decreases lines@.len() - i,
    {
        let line = &lines[i];
        let ghost rest = all.skip(i as int);
        proof {
            assert(rest[0] == line@);
            assert(rest.drop_first() == all.skip(i + 1));
        }
        let found = if parser.expects_node(line) {
            let line_text = string_of(line, 0, line.len());
            proof {
                assert(line@.subrange(0, line@.len() as int) == line@);
            }
            scan(NODE_PATTERN, line_text.as_str())
        } else {
            Scan::Miss
        };
        proof {
            assert(step(parser@, line@, scan_hit(found)) == step(
                parser@,
                line@,
                pattern_groups(NODE_PATTERN@, line@),
            ));
        }
        match parser.feed(line, &found) {
            Ok(_) => {},
            Err(e) => {
                return Err(e);
            },
        }
        i += 1;
    }
    proof {
        assert(all.skip(i as int).len() == 0);
    }
    Ok(parser.finish())
}

/// How the user is told something.
#[derive(Clone, Debug, PartialEq, Eq)]
pub enum Output {
    /// As a line on the terminal.
    Print(String),
    /// As a desktop notification.
    Notify(Notice),
}

/// `output` tells `msg` in the way that fits: as plain text on a terminal
/// unless graphical means are preferred, else as a notification.
pub open spec fn tells(output: Output, msg: Seq<char>, prefer_gui: bool, is_terminal: bool) -> bool {
    if plain_text(is_terminal, prefer_gui) {
        output matches Output::Print(line) && line@ == msg
    } else {
        output matches Output::Notify(notice) && is_message(notice, msg)
    }
}

/// Tells the user `msg`: on the terminal where there is one and graphical
/// means are not preferred, else by a notification.
pub fn inform(msg: &str, prefer_gui: bool, is_terminal: bool) -> (output: Output)
    ensures
        tells(output, msg@, prefer_gui, is_terminal),
{
    if use_terminal(is_terminal, prefer_gui) {
        Output::Print(String::from_str(msg))
    } else {
        Output::Notify(message(msg))
    }
}

/// The names of the nodes that are not the default, in order.
pub open spec fn other_names(nodes: Seq<NodeView>) -> Seq<Seq<char>>
    decreases nodes.len(),
{
    if nodes.len() == 0 {
        Seq::empty()
    } else if nodes.last().default {
        other_names(nodes.drop_last())
    } else {
        other_names(nodes.drop_last()).push(nodes.last().name)
    }
}

/// The name of the default node, the last one where several are marked; empty
/// where none is.
pub open spec fn default_name(nodes: Seq<NodeView>) -> Seq<char>
    decreases nodes.len(),
{
    if nodes.len() == 0 {
        Seq::empty()
    } else if nodes.last().default {
        nodes.last().name
    } else {
        default_name(nodes.drop_last())
    }
}

/// The id of the node called `name` among those that are not the default;
/// where several bear the name, the last of them.
pub open spec fn lookup_id(nodes: Seq<NodeView>, name: Seq<char>) -> Option<u32>
    decreases nodes.len(),
{
    if nodes.len() == 0 {
        None
    } else if !nodes.last().default && nodes.last().name == name {
        Some(nodes.last().id)
    } else {
        lookup_id(nodes.drop_last(), name)
    }
}

/// The names of the nodes that are not the default, in order.
pub fn other_names_of(nodes: &Vec<Node>) -> (names: Vec<String>)
    ensures
        string_views(names@) == other_names(node_views(nodes@)),
{
    let mut names: Vec<String> = Vec::new();
    let ghost views = node_views(nodes@);
    let mut i: usize = 0;
    proof {
        assert(views.take(0) =~= Seq::<NodeView>::empty());
        assert(string_views(names@) =~= Seq::<Seq<char>>::empty());
    }
    while i < nodes.len()
        invariant
            i <= nodes@.len(),
            views == node_views(nodes@),
            string_views(names@) == other_names(views.take(i as int)),
        decreases nodes@.len() - i,
    {
        let ghost before = string_views(names@);
        proof {
            let now = views.take(i + 1);
            assert(now.drop_last() == views.take(i as int));
            assert(now.last() == nodes@[i as int]@);
        }
        if !nodes[i].default {
            names.push(nodes[i].name.clone());
            proof {
                assert(string_views(names@) =~= before.push(nodes@[i as int].name@));
            }
        }
        i += 1;
    }
    proof {
        assert(views.take(nodes@.len() as int) == views);
    }
    names
}

/// The name of the default node; empty where there is none.
pub fn default_name_of(nodes: &Vec<Node>) -> (name: String)
    ensures
        name@ == default_name(node_views(nodes@)),
{
    let mut name = String::new();
    let ghost views = node_views(nodes@);
    let mut i: usize = 0;
    proof {
        assert(views.take(0) =~= Seq::<NodeView>::empty());
    }
    while i < nodes.len()
        invariant
            i <= nodes@.len(),
            views == node_views(nodes@),
            name@ == default_name(views.take(i as int)),
        decreases nodes@.len() - i,
    {
        proof {
            let now = views.take(i + 1);
            assert(now.drop_last() == views.take(i as int));
            assert(now.last() == nodes@[i as int]@);
        }
        if nodes[i].default {
            name = nodes[i].name.clone();
        }
        i += 1;
    }
    proof {
        assert(views.take(nodes@.len() as int) == views);
    }
    name
}

/// The id that `name` stands for among the nodes that are not the default.
pub fn find_id(nodes: &Vec<Node>, name: &str) -> (id: Option<u32>)
    ensures
        id == lookup_id(node_views(nodes@), name@),
{
    let wanted = String::from_str(name);
    let mut id: Option<u32> = None;
    let ghost views = node_views(nodes@);
    let mut i: usize = 0;
    proof {
        assert(views.take(0) =~= Seq::<NodeView>::empty());
    }
    while i < nodes.len()
        invariant
            i <= nodes@.len(),
            views == node_views(nodes@),
            wanted@ == name@,
            id == lookup_id(views.take(i as int), name@),
        decreases nodes@.len() - i,
    {
        proof {
            let now = views.take(i + 1);
            assert(now.drop_last() == views.take(i as int));
            assert(now.last() == nodes@[i as int]@);
        }
        if !nodes[i].default && nodes[i].name == wanted {
            id = Some(nodes[i].id);
        }
        i += 1;
    }
    proof {
        assert(views.take(nodes@.len() as int) == views);
    }
    id
}

/// What is to be done about the default node of a kind.
#[derive(Clone, Debug, PartialEq, Eq)]
pub enum Plan {
    /// Nothing can be chosen: only tell the user.
    Inform(Output),
    /// Ask the user to choose one of `names` with `backend`.
    Choose { backend: Backend, prompt: String, names: Vec<String> },
}

/// The message where a kind has a single node.
pub open spec fn only_one_message(node_type: Seq<char>, name: Seq<char>) -> Seq<char> {
    "There's only one "@ + node_type + ": "@ + name
}

/// The message where every node of a kind is the default already.
pub open spec fn none_other_message(node_type: Seq<char>, name: Seq<char>) -> Seq<char> {
    "There's only one non-default "@ + node_type + ": "@ + name
}

/// The prompt of the chooser.
pub open spec fn prompt_of(node_type: Seq<char>) -> Seq<char> {
    "Set default "@ + node_type
}

/// `plan` is what the nodes of a kind call for: with a single node, or with no
/// node but the default, the user is only told so; else the names of the
/// others are put to choice.
pub open spec fn plan_fits(
    plan: Plan,
    nodes: Seq<NodeView>,
    node_type: Seq<char>,
    prefer_gui: bool,
    is_terminal: bool,
) -> bool {
    if nodes.len() == 1 {
        plan matches Plan::Inform(output) && tells(
            output,
            only_one_message(node_type, nodes[0].name),
            prefer_gui,
            is_terminal,
        )
    } else if other_names(nodes).len() == 0 {
        plan matches Plan::Inform(output) && tells(
            output,
            none_other_message(node_type, default_name(nodes)),
            prefer_gui,
            is_terminal,
        )
    } else {
        plan matches Plan::Choose { backend, prompt, names } && backend == (if plain_text(
            is_terminal,
            prefer_gui,
        ) {
            Backend::Fuzzy
        } else {
            Backend::Menu
        }) && prompt@ == prompt_of(node_type) && string_views(names@) == other_names(nodes)
    }
}

/// Decides what to do about the default among `nodes`, the nodes of the kind
/// that `node_type` names. With one node, or none but the default, there is
/// nothing to choose and nothing to set.
pub fn set_default_node(nodes: &Vec<Node>, node_type: &str, prefer_gui: bool, is_terminal: bool) -> (plan:
    Plan)
    ensures
        plan_fits(plan, node_views(nodes@), node_type@, prefer_gui, is_terminal),
        nodes@.len() == 1 ==> plan is Inform,
        other_names(node_views(nodes@)).len() == 0 ==> plan is Inform,
        (forall|i: int| 0 <= i < nodes@.len() ==> (#[trigger] nodes@[i]).default) ==> plan is Inform,
        plan is Choose ==> nodes@.len() >= 2,
{
    proof {
        let views = node_views(nodes@);
        if forall|i: int| 0 <= i < nodes@.len() ==> (#[trigger] nodes@[i]).default {
            assert forall|i: int| 0 <= i < views.len() implies (#[trigger] views[i]).default by {
                assert(nodes@[i].default);
            }
            lemma_all_default_no_others(views);
        }
        if nodes@.len() == 0 {
            assert(other_names(views).len() == 0);
        }
    }
    let names = other_names_of(nodes);
    if nodes.len() == 1 {
        let mut msg = String::from_str("There's only one ");
        msg.append(node_type);
        msg.append(": ");
        msg.append(nodes[0].name.as_str());
        return Plan::Inform(inform(msg.as_str(), prefer_gui, is_terminal));
    }
    if names.len() == 0 {
        let default_node_name = default_name_of(nodes);
        let mut msg = String::from_str("There's only one non-default ");
        msg.append(node_type);
        msg.append(": ");
        msg.append(default_node_name.as_str());
        return Plan::Inform(inform(msg.as_str(), prefer_gui, is_terminal));
    }
    let mut prompt = String::from_str("Set default ");
    prompt.append(node_type);
    Plan::Choose { backend: backend(is_terminal, prefer_gui), prompt, names }
}

/// The arguments that make node `id` the default.
pub open spec fn set_default_args_of(id: u32) -> Seq<Seq<char>> {
    seq!["set-default"@, decimal_digits(id as nat)]
}

/// The arguments that make node `id` the default.
pub fn set_default_args(id: u32) -> (args: Vec<String>)
    ensures
        string_views(args@) == set_default_args_of(id),
{
    let mut args: Vec<String> = Vec::new();
    args.push(String::from_str("set-default"));
    args.push(format_decimal(id as u64));
    proof {
        assert(string_views(args@) =~= set_default_args_of(id));
    }
    args
}

/// The arguments that clear the configured defaults.
pub fn reset_default() -> (args: Vec<String>)
    ensures
        string_views(args@) == seq!["clear-default"@],
{
    let mut args: Vec<String> = Vec::new();
    args.push(String::from_str("clear-default"));
    proof {
        assert(string_views(args@) =~= seq!["clear-default"@]);
    }
    args
}

/// The arguments that ask for the status text.
pub fn status_args() -> (args: Vec<String>)
    ensures
        string_views(args@) == seq!["status"@],
{
    let mut args: Vec<String> = Vec::new();
    args.push(String::from_str("status"));
    proof {
        assert(string_views(args@) =~= seq!["status"@]);
    }
    args
}

/// What follows from the chooser's answer. No answer means that the user
/// gave up and nothing is done. A name that was offered gives the command
/// that makes its node the default; any other name is refused.
pub fn resolve_choice(nodes: &Vec<Node>, choice: Option<&str>) -> (out: Result<
    Vec<String>,
    ErrorKind,
>)
    ensures
        match choice {
            None => out == Err::<Vec<String>, ErrorKind>(ErrorKind::NoSelection),
            Some(name) => match lookup_id(node_views(nodes@), name@) {
                None => out == Err::<Vec<String>, ErrorKind>(ErrorKind::UnknownName),
                Some(id) => out matches Ok(args) && string_views(args@) == set_default_args_of(id),
            },
        },
{
    match choice {
        None => Err(ErrorKind::NoSelection),
        Some(name) => match find_id(nodes, name) {
            None => Err(ErrorKind::UnknownName),
            Some(id) => Ok(set_default_args(id)),
        },
    }
}

/// The nodes of one kind and what to do about their default.
#[derive(Clone, Debug, PartialEq, Eq)]
pub struct Selection {
    pub nodes: Vec<Node>,
    pub plan: Plan,
}

/// The nodes of `kind` in a status.
pub open spec fn nodes_of_kind(status: StatusView, kind: NodeType) -> Seq<NodeView> {
    match kind {
        NodeType::Sink => status.sinks,
        NodeType::Source => status.sources,
    }
}

/// Reads the status text and decides what to do about the default node of the
/// kind that `node_type` names. Malformed text and a word that names no kind
/// are refused, the text first.
pub fn set_default(status_text: &str, node_type: &str, prefer_gui: bool, is_terminal: bool) -> (out:
    Result<Selection, ErrorKind>)
    ensures
        match status_of(status_text@) {
            Err(e) => out == Err::<Selection, ErrorKind>(e),
            Ok(status) => match kind_named(lowercase_of(node_type@)) {
                None => out == Err::<Selection, ErrorKind>(ErrorKind::UnknownNodeType),
                Some(kind) => out matches Ok(selection) && node_views(selection.nodes@)
                    == nodes_of_kind(status, kind) && plan_fits(
                    selection.plan,
                    nodes_of_kind(status, kind),
                    node_type@,
                    prefer_gui,
                    is_terminal,
                ),
            },
        },
{
    let status = get_status(status_text)?;
    let kind = match NodeType::from_str(node_type) {
        Ok(kind) => kind,
        Err(_) => {
            return Err(ErrorKind::UnknownNodeType);
        },
    };
    let nodes = match kind {
        NodeType::Sink => status.sinks,
        NodeType::Source => status.sources,
    };
    let plan = set_default_node(&nodes, node_type, prefer_gui, is_terminal);
    Ok(Selection { nodes, plan })
}

/// The message that names the default node of each kind.
pub open spec fn defaults_message(status: StatusView) -> Seq<char> {
    "Default sink: "@ + default_name(status.sinks) + "\nDefault source: "@ + default_name(
        status.sources,
    )
}

/// Tells the user which node of each kind is the default.
pub fn show_defaults(status: &Status, prefer_gui: bool, is_terminal: bool) -> (output: Output)
    ensures
        tells(output, defaults_message(status@), prefer_gui, is_terminal),
{
    let mut msg = String::from_str("Default sink: ");
    msg.append(default_name_of(&status.sinks).as_str());
    msg.append("\nDefault source: ");
    msg.append(default_name_of(&status.sources).as_str());
    inform(msg.as_str(), prefer_gui, is_terminal)
}

/// The name of the default sink of a status; empty where it has none.
pub fn default_sink(status: &Status) -> (name: String)
    ensures
        name@ == default_name(status@.sinks),
{
    default_name_of(&status.sinks)
}

/// `a` is the beginning of `b`.
pub open spec fn begins<A>(a: Seq<A>, b: Seq<A>) -> bool {
    a.len() <= b.len() && b.take(a.len() as int) == a
}

/// Reading one line leaves the nodes read so far in place: each list stays
/// as it was or gains one node at its end, and a node that is added is in the
/// list of the cursor, marked default exactly where the line has the marker.
pub proof fn lemma_step_appends(p: Progress, line: Seq<char>, hit: Option<Seq<Option<Seq<char>>>>)
    requires
        step(p, line, hit) is Ok,
    ensures
        ({
            let q = step(p, line, hit)->Ok_0;
            &&& begins(p.sinks, q.sinks)
            &&& begins(p.sources, q.sources)
            &&& q.sinks.len() + q.sources.len() <= p.sinks.len() + p.sources.len() + 1
            &&& q.sinks.len() > p.sinks.len() ==> p.cursor == Cursor::InList(NodeType::Sink) && hit is Some
                && q.sinks.last().default == (hit->0[1] is Some)
            &&& q.sources.len() > p.sources.len() ==> p.cursor == Cursor::InList(NodeType::Source)
                && hit is Some && q.sources.last().default == (hit->0[1] is Some)
        }),
{
    let q = step(p, line, hit)->Ok_0;
    assert(p.sinks.take(p.sinks.len() as int) == p.sinks);
    assert(p.sources.take(p.sources.len() as int) == p.sources);
    if q.sinks.len() > p.sinks.len() {
        let node = node_of(hit->0, is_muted_line(line))->Ok_0;
        assert(q.sinks == p.sinks.push(node));
        assert(p.sinks.push(node).take(p.sinks.len() as int) == p.sinks);
    }
    if q.sources.len() > p.sources.len() {
        let node = node_of(hit->0, is_muted_line(line))->Ok_0;
        assert(q.sources == p.sources.push(node));
        assert(p.sources.push(node).take(p.sources.len() as int) == p.sources);
    }
}

/// Reading is done line by line: to read `first` and then `second` is to read
/// the two in one go, and an error in `first` is the error of the whole.
pub proof fn lemma_run_split(p: Progress, first: Seq<Seq<char>>, second: Seq<Seq<char>>)
    ensures
        run(p, first + second) == match run(p, first) {
            Ok(q) => run(q, second),
            Err(e) => Err(e),
        },
    decreases first.len(),
{
    if first.len() == 0 {
        assert(first + second == second);
    } else {
        let all = first + second;
        assert(all[0] == first[0]);
        assert(all.drop_first() == first.drop_first() + second);
        match step(p, first[0], pattern_groups(NODE_PATTERN@, first[0])) {
            Err(e) => {},
            Ok(q) => {
                lemma_run_split(q, first.drop_first(), second);
            },
        }
    }
}

/// The order of the text is the order of the nodes: what has been read stays
/// at the beginning of each list, whatever lines follow.
pub proof fn lemma_run_keeps_order(p: Progress, lines: Seq<Seq<char>>)
    requires
        run(p, lines) is Ok,
    ensures
        begins(p.sinks, run(p, lines)->Ok_0.sinks),
        begins(p.sources, run(p, lines)->Ok_0.sources),
    decreases lines.len(),
{
    if lines.len() == 0 {
        assert(p.sinks.take(p.sinks.len() as int) == p.sinks);
        assert(p.sources.take(p.sources.len() as int) == p.sources);
    } else {
        let hit = pattern_groups(NODE_PATTERN@, lines[0]);
        let q = step(p, lines[0], hit)->Ok_0;
        let r = run(q, lines.drop_first())->Ok_0;
        lemma_step_appends(p, lines[0], hit);
        lemma_run_keeps_order(q, lines.drop_first());
        assert(r.sinks.take(p.sinks.len() as int) == r.sinks.take(q.sinks.len() as int).take(
            p.sinks.len() as int,
        ));
        assert(r.sources.take(p.sources.len() as int) == r.sources.take(
            q.sources.len() as int,
        ).take(p.sources.len() as int));
    }
}

/// Where every node is the default, no name is left to choose from.
pub proof fn lemma_all_default_no_others(nodes: Seq<NodeView>)
    requires
        forall|i: int| 0 <= i < nodes.len() ==> (#[trigger] nodes[i]).default,
    ensures
        other_names(nodes).len() == 0,
    decreases nodes.len(),
{
    if nodes.len() > 0 {
        assert(nodes.last().default);
        lemma_all_default_no_others(nodes.drop_last());
    }
}

/// A name that is put to choice leads back to a node of the list: the id
/// found for it is the id of a node that bears the name and is not the
/// default.
pub proof fn lemma_lookup_round_trip(nodes: Seq<NodeView>, name: Seq<char>)
    requires
        other_names(nodes).contains(name),
    ensures
        lookup_id(nodes, name) is Some,
        exists|i: int|
            0 <= i < nodes.len() && !nodes[i].default && nodes[i].name == name && (
            #[trigger] nodes[i]).id == lookup_id(nodes, name)->0,
    decreases nodes.len(),
{
    if nodes.len() > 0 {
        let last = nodes.last();
        if !last.default && last.name == name {
            assert(nodes[nodes.len() - 1].id == lookup_id(nodes, name)->0);
        } else {
            let rest = nodes.drop_last();
            let names = other_names(nodes);
            let k = choose|k: int| 0 <= k < names.len() && names[k] == name;
            if !last.default {
                assert(names == other_names(rest).push(last.name));
                assert(k < other_names(rest).len());
                assert(other_names(rest)[k] == name);
            }
            assert(other_names(rest).contains(name));
            lemma_lookup_round_trip(rest, name);
            let i = choose|i: int|
                0 <= i < rest.len() && !rest[i].default && rest[i].name == name && (
                #[trigger] rest[i]).id == lookup_id(rest, name)->0;
            assert(nodes[i] == rest[i]);
        }
    }
}

/// An id is found for a name only where the name is put to choice.
pub proof fn lemma_lookup_only_offered(nodes: Seq<NodeView>, name: Seq<char>)
    requires
        lookup_id(nodes, name) is Some,
    ensures
        other_names(nodes).contains(name),
    decreases nodes.len(),
{
    if nodes.len() > 0 {
        let last = nodes.last();
        let rest = nodes.drop_last();
        if !last.default && last.name == name {
            let names = other_names(nodes);
            assert(names[names.len() - 1] == name);
        } else {
            lemma_lookup_only_offered(rest, name);
            let k = choose|k: int| 0 <= k < other_names(rest).len() && other_names(rest)[k] == name;
            assert(other_names(nodes)[k] == name);
        }
    }
}

/// The nodes read from the first `k` lines stand, in the same order, at the
/// beginning of the nodes read from all the lines.
pub proof fn lemma_earlier_lines_come_first(lines: Seq<Seq<char>>, k: int)
    requires
        0 <= k <= lines.len(),
        run(start(), lines) is Ok,
    ensures
        run(start(), lines.take(k)) is Ok,
        begins(run(start(), lines.take(k))->Ok_0.sinks, run(start(), lines)->Ok_0.sinks),
        begins(run(start(), lines.take(k))->Ok_0.sources, run(start(), lines)->Ok_0.sources),
{
    assert(lines.take(k) + lines.skip(k) == lines);
    lemma_run_split(start(), lines.take(k), lines.skip(k));
    lemma_run_keeps_order(run(start(), lines.take(k))->Ok_0, lines.skip(k));
}

/// The line that shows one node.
pub open spec fn node_line(node: NodeView) -> Seq<char> {
    "ID: "@ + decimal_digits(node.id as nat) + ", name: "@ + node.name + ", volume: "@ + gain_text(
        node.volume.micros as nat,
    ) + ", default: "@ + (if node.default {
        "true"@
    } else {
        "false"@
    }) + "\n"@
}

/// The lines that show the nodes of a list, in order.
pub open spec fn node_lines(nodes: Seq<NodeView>) -> Seq<char>
    decreases nodes.len(),
{
    if nodes.len() == 0 {
        Seq::empty()
    } else {
        node_lines(nodes.drop_last()) + node_line(nodes.last())
    }
}

/// A list under its header; nothing at all for an empty list.
pub open spec fn list_text(nodes: Seq<NodeView>, header: Seq<char>) -> Seq<char> {
    if nodes.len() == 0 {
        Seq::empty()
    } else {
        header + node_lines(nodes)
    }
}

/// A status as text: the sinks, then the sources, each list under its header
/// and an empty line between the two.
pub open spec fn status_text(status: StatusView) -> Seq<char> {
    list_text(status.sinks, "Sinks:\n"@) + list_text(
        status.sources,
        (if status.sinks.len() > 0 {
            "\n"@
        } else {
            ""@
        }) + "Sources:\n"@,
    )
}

impl Node {
    /// The line that shows this node.
    pub fn render(&self) -> (out: String)
        ensures
            out@ == node_line(self@),
    {
        let mut out = String::from_str("ID: ");
        out.append(format_decimal(self.id as u64).as_str());
        out.append(", name: ");
        out.append(self.name.as_str());
        out.append(", volume: ");
        out.append(self.volume.render().as_str());
        out.append(", default: ");
        if self.default {
            out.append("true");
        } else {
            out.append("false");
        }
        out.append("\n");
        out
    }
}

impl Status {
    /// Appends to `out` the list `nodes` under `header`, or nothing where the
    /// list is empty.
    pub fn maybe_print_nodes(nodes: &Vec<Node>, header: &str, out: &mut String)
        ensures
            final(out)@ == old(out)@ + list_text(node_views(nodes@), header@),
    {
        let ghost views = node_views(nodes@);
        let ghost before = out@;
        if nodes.len() > 0 {
            out.append(header);
        }
        let ghost headed = out@;
        let mut i: usize = 0;
        proof {
            assert(views.take(0) =~= Seq::<NodeView>::empty());
            assert(headed + Seq::<char>::empty() == headed);
        }
        while i < nodes.len()
            invariant
                i <= nodes@.len(),
                views == node_views(nodes@),
                out@ == headed + node_lines(views.take(i as int)),
            decreases nodes@.len() - i,
        {
            let line = nodes[i].render();
            out.append(line.as_str());
            proof {
                let now = views.take(i + 1);
                assert(now.drop_last() == views.take(i as int));
                assert(now.last() == nodes@[i as int]@);
                assert(headed + node_lines(views.take(i as int)) + line@ == headed + (node_lines(
                    views.take(i as int),
                ) + line@));
            }
            i += 1;
        }
        proof {
            assert(views.take(nodes@.len() as int) == views);
            if nodes@.len() == 0 {
                assert(before + Seq::<char>::empty() == before);
            } else {
                assert(before + header@ + node_lines(views) == before + (header@ + node_lines(
                    views,
                )));
            }
        }
    }

    /// The status as text.
    pub fn render(&self) -> (out: String)
        ensures
            out@ == status_text(self@),
    {
        let mut out = String::new();
        Status::maybe_print_nodes(&self.sinks, "Sinks:\n", &mut out);
        let mut header = String::from_str(if self.sinks.len() > 0 {
            "\n"
        } else {
            ""
        });
        header.append("Sources:\n");
        proof {
            assert(Seq::<char>::empty() + list_text(self@.sinks, "Sinks:\n"@) == list_text(
                self@.sinks,
                "Sinks:\n"@,
            ));
        }
        Status::maybe_print_nodes(&self.sources, header.as_str(), &mut out);
        out
    }
}

/// How many nodes of a list are marked default.
pub open spec fn default_count(nodes: Seq<NodeView>) -> nat
    decreases nodes.len(),
{
    if nodes.len() == 0 {
        0
    } else if nodes.last().default {
        default_count(nodes.drop_last()) + 1
    } else {
        default_count(nodes.drop_last())
    }
}

/// Whether reading `line` at `p` adds a node with the default marker to the
/// list of `kind`.
pub open spec fn adds_default(
    p: Progress,
    line: Seq<char>,
    hit: Option<Seq<Option<Seq<char>>>>,
    kind: NodeType,
) -> bool {
    &&& consults(p.cursor, line)
    &&& p.cursor == Cursor::InList(kind)
    &&& hit matches Some(groups) && groups.len() > 1 && groups[1] is Some
}

/// How many of `lines`, read in order from `p`, add a node with the default
/// marker to the list of `kind`.
pub open spec fn marker_count(p: Progress, lines: Seq<Seq<char>>, kind: NodeType) -> nat
    decreases lines.len(),
{
    if lines.len() == 0 {
        0
    } else {
        let hit = pattern_groups(NODE_PATTERN@, lines[0]);
        match step(p, lines[0], hit) {
            Err(_) => 0,
            Ok(q) => marker_count(q, lines.drop_first(), kind) + if adds_default(
                p,
                lines[0],
                hit,
                kind,
            ) {
                1nat
            } else {
                0nat
            },
        }
    }
}

/// The nodes of `kind` read so far.
pub open spec fn read_of_kind(p: Progress, kind: NodeType) -> Seq<NodeView> {
    match kind {
        NodeType::Sink => p.sinks,
        NodeType::Source => p.sources,
    }
}

/// A list has as many default nodes as its lines have markers: with one
/// marker among the lines of a kind, that kind has exactly one default.
pub proof fn lemma_defaults_are_markers(p: Progress, lines: Seq<Seq<char>>, kind: NodeType)
    requires
        run(p, lines) is Ok,
    ensures
        default_count(read_of_kind(run(p, lines)->Ok_0, kind)) == default_count(
            read_of_kind(p, kind),
        ) + marker_count(p, lines, kind),
    decreases lines.len(),
{
    if lines.len() > 0 {
        let hit = pattern_groups(NODE_PATTERN@, lines[0]);
        let q = step(p, lines[0], hit)->Ok_0;
        lemma_defaults_are_markers(q, lines.drop_first(), kind);
        let before = read_of_kind(p, kind);
        let now = read_of_kind(q, kind);
        if now != before {
            let node = node_of(hit->0, is_muted_line(lines[0]))->Ok_0;
            assert(now == before.push(node));
            assert(now.drop_last() == before);
            assert(now.last() == node);
        }
    }
}

/// How many nodes of a list are marked default.
pub fn count_defaults(nodes: &Vec<Node>) -> (count: usize)
    ensures
        count == default_count(node_views(nodes@)),
{
    let ghost views = node_views(nodes@);
    let mut count: usize = 0;
    let mut i: usize = 0;
    proof {
        assert(views.take(0) =~= Seq::<NodeView>::empty());
    }
    while i < nodes.len()
        invariant
            i <= nodes@.len(),
            views == node_views(nodes@),
            count == default_count(views.take(i as int)),
            count <= i,
        decreases nodes@.len() - i,
    {
        proof {
            let now = views.take(i + 1);
            assert(now.drop_last() == views.take(i as int));
            assert(now.last() == nodes@[i as int]@);
        }
        if nodes[i].default {
            count += 1;
        }
        i += 1;
    }
    proof {
        assert(views.take(nodes@.len() as int) == views);
    }
    count
}

impl Status {
    /// No kind has more than one default node.
    pub open spec fn defaults_are_single(&self) -> bool {
        default_count(self@.sinks) <= 1 && default_count(self@.sources) <= 1
    }

    /// Whether no kind has more than one default node.
    pub fn has_single_defaults(&self) -> (yes: bool)
        ensures
            yes == self.defaults_are_single(),
    {
        count_defaults(&self.sinks) <= 1 && count_defaults(&self.sources) <= 1
    }
}

} // verus!
