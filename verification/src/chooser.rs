//! The two interactive choosers: which one is used, what each is handed, and
//! how the answer of the menu launcher is read.

use vstd::prelude::*;
use vstd::string::StringExecFns;
use crate::text::{chars_of, ends_with, has_suffix, string_of, string_views, trim, trimmed};

verus! {

/// The end of a prompt of the fuzzy finder.
pub const PROMPT_END: &'static str = ": ";

/// The program that shows a menu.
pub const MENU_PROGRAM: &'static str = "rofi";

/// The way a choice is asked for.
#[derive(Clone, Copy, Debug, PartialEq, Eq, Structural)]
pub enum Backend {
    /// The fuzzy finder inside the terminal.
    Fuzzy,
    /// The menu launcher, a program of its own.
    Menu,
}

/// Whether plain text on the terminal is the way to speak to the user: the
/// output is a terminal and no graphical means were asked for.
pub open spec fn plain_text(is_terminal: bool, prefer_gui: bool) -> bool {
    is_terminal && !prefer_gui
}

/// Whether plain text on the terminal is the way to speak to the user.
pub fn use_terminal(is_terminal: bool, prefer_gui: bool) -> (yes: bool)
    ensures
        yes == plain_text(is_terminal, prefer_gui),
{
    !prefer_gui && is_terminal
}

/// The chooser to use: the fuzzy finder on a terminal unless graphical means
/// are preferred, else the menu launcher.
pub fn backend(is_terminal: bool, prefer_gui: bool) -> (out: Backend)
    ensures
        out == (if plain_text(is_terminal, prefer_gui) {
            Backend::Fuzzy
        } else {
            Backend::Menu
        }),
{
    if use_terminal(is_terminal, prefer_gui) {
        Backend::Fuzzy
    } else {
        Backend::Menu
    }
}

/// The prompt of the fuzzy finder: `prompt`, made to end with a colon and a
/// space.
pub open spec fn fuzzy_prompt_of(prompt: Seq<char>) -> Seq<char> {
    if has_suffix(prompt, PROMPT_END@) {
        prompt
    } else {
        prompt + PROMPT_END@
    }
}

/// The prompt of the fuzzy finder.
pub fn fuzzy_prompt(prompt: &str) -> (out: String)
    ensures
        out@ == fuzzy_prompt_of(prompt@),
{
    let mut out = String::from_str(prompt);
    if !ends_with(&chars_of(prompt), PROMPT_END) {
        out.append(PROMPT_END);
    }
    out
}

/// The arguments of the menu launcher for a prompt.
pub open spec fn menu_args_of(prompt: Seq<char>) -> Seq<Seq<char>> {
    seq!["-p"@, prompt, "-dmenu"@]
}

/// The arguments of the menu launcher for a prompt.
pub fn menu_args(prompt: &str) -> (args: Vec<String>)
    ensures
        string_views(args@) == menu_args_of(prompt@),
{
    let mut args: Vec<String> = Vec::new();
    args.push(String::from_str("-p"));
    args.push(String::from_str(prompt));
    args.push(String::from_str("-dmenu"));
    proof {
        assert(string_views(args@) =~= menu_args_of(prompt@));
    }
    args
}

/// The names joined by line feeds, none after the last.
pub open spec fn joined(names: Seq<Seq<char>>) -> Seq<char>
    decreases names.len(),
{
    if names.len() == 0 {
        Seq::empty()
    } else if names.len() == 1 {
        names[0]
    } else {
        joined(names.drop_last()) + seq!['\n'] + names.last()
    }
}

/// What a chooser reads: the names, one per line.
pub fn join_names(names: &Vec<String>) -> (out: String)
    ensures
        out@ == joined(string_views(names@)),
{
    let mut out = String::new();
    let ghost views = string_views(names@);
    let mut i: usize = 0;
    proof {
        assert(views.take(0) =~= Seq::<Seq<char>>::empty());
    }
    while i < names.len()
        invariant
            i <= names@.len(),
            views == string_views(names@),
            out@ == joined(views.take(i as int)),
        decreases names@.len() - i,
    {
        let ghost before = out@;
        if i > 0 {
            out.push('\n');
        }
        out.append(names[i].as_str());
        proof {
            let now = views.take(i + 1);
            assert(now.drop_last() == views.take(i as int));
            assert(now.last() == names@[i as int]@);
            if i == 0 {
                assert(before + names@[i as int]@ == names@[i as int]@);
                assert(now[0] == now.last());
            } else {
                assert(before.push('\n') == before + seq!['\n']);
            }
        }
        i += 1;
    }
    proof {
        assert(views.take(names@.len() as int) == views);
    }
    out
}

/// What the menu launcher chose: nothing where it reported failure, else its
/// output without the white space around it.
pub fn menu_choice(success: bool, output: &str) -> (choice: Option<String>)
    ensures
        !success ==> choice is None,
        success ==> (choice matches Some(name) && name@ == trimmed(output@)),
{
    if !success {
        return None;
    }
    let kept = trim(&chars_of(output));
    proof {
        assert(kept@.subrange(0, kept@.len() as int) == kept@);
    }
    Some(string_of(&kept, 0, kept.len()))
}

} // verus!
