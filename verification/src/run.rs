//! What a run does around the picker: what the picker is started with, what
//! its answer means, and what is done about it.

use vstd::prelude::*;
use vstd::string::*;
use vstd::utf8::{decode_utf8, valid_utf8};
use crate::config::Task;
use crate::fzf::{entry_key, entry_line, Entry};
use crate::feed::lemma_key_round_trip;
use crate::number::{decimal, decimal_string};
use crate::path::{join_path, path_join};
use crate::text::{begins_with, chars_of, find_char, first_field, has_char, slice_of, starts_with, texts, utf8_text};
use crate::tmux::snapshot::SnapshotView;

verus! {

/// What a run begins with.
#[derive(Debug, Clone, Copy, PartialEq, Eq, Structural)]
pub enum Step {
    /// Say that there is no multiplexer, and end.
    Refuse,
    /// Show the picker and act on the selection.
    Pick,
    /// Print the feed.
    Print,
    /// Do nothing.
    Idle,
}

/// Nothing is done outside a multiplexer. Inside one, the task decides.
pub fn first_step(in_tmux: bool, task: Task) -> (step: Step)
    ensures
        step == if !in_tmux {
            Step::Refuse
        } else {
            match task {
                Task::Popup => Step::Pick,
                Task::Fzf => Step::Idle,
                Task::List => Step::Print,
            }
        },
{
    if !in_tmux {
        Step::Refuse
    } else {
        match task {
            Task::Popup => Step::Pick,
            Task::Fzf => Step::Idle,
            Task::List => Step::Print,
        }
    }
}

/// Columns that the popup has more than the feed.
pub const POPUP_EXTRA_WIDTH: usize = 4 * 2 + 5 - 2;

/// Rows that the popup has more than the feed.
pub const POPUP_EXTRA_HEIGHT: usize = 2 * 2 + 5 + 1;

/// Rows of the terminal that the popup leaves free.
pub const POPUP_CLEARANCE: usize = 16;

/// The smaller of two numbers.
pub open spec fn smaller(a: int, b: int) -> int {
    if a <= b {
        a
    } else {
        b
    }
}

/// The width of the popup for a feed: that of the feed and the frame, as
/// far as a `usize` holds it.
pub fn popup_width(feed_width: usize) -> (width: usize)
    ensures
        width == smaller(feed_width + POPUP_EXTRA_WIDTH, usize::MAX as int),
{
    feed_width.saturating_add(POPUP_EXTRA_WIDTH)
}

/// The height of the popup for a feed: that of the feed and the frame, but
/// no more than the rows of the terminal less the clearance, and none when
/// the terminal has no more rows than the clearance.
pub fn popup_height(feed_height: usize, client_height: usize) -> (height: usize)
    ensures
        height == smaller(
            feed_height + POPUP_EXTRA_HEIGHT,
            if client_height >= POPUP_CLEARANCE {
                client_height - POPUP_CLEARANCE
            } else {
                0
            },
        ),
{
    let wanted: usize = feed_height.saturating_add(POPUP_EXTRA_HEIGHT);
    let room: usize = client_height.saturating_sub(POPUP_CLEARANCE);
    if wanted <= room {
        wanted
    } else {
        room
    }
}

/// The arguments of the picker for a popup of the given size. The picker
/// searches and shows the fields after the key only, keeps the order of the
/// feed, and reads the styling of the lines.
pub open spec fn picker_arguments_for(width: nat, height: nat) -> Seq<Seq<char>> {
    seq![
        "-w"@,
        decimal(width),
        "-h"@,
        decimal(height),
        "--with-nth=2.."@,
        "--no-sort"@,
        "--tiebreak=end"@,
        "--color=bg:-1,bg+:-1"@,
        "--layout=reverse"@,
        "--ansi"@,
        "--margin=3,5,3,3"@,
        "--inline-info"@,
        "--header"@,
        ""@,
        "--prompt=\u{25b6} "@,
        "--pointer=\u{25b6}"@,
        "--bind"@,
        "ctrl-j:page-down"@,
        "--bind"@,
        "ctrl-k:page-up"@,
        "--bind"@,
        "ctrl-f:page-down"@,
        "--bind"@,
        "ctrl-b:page-up"@,
    ]
}

/// The arguments that the picker is started with.
pub fn picker_arguments(width: usize, height: usize) -> (arguments: Vec<String>)
    ensures
        texts(arguments@) == picker_arguments_for(width as nat, height as nat),
{
    let mut arguments: Vec<String> = Vec::new();
    // popup
    arguments.push(String::from_str("-w"));
    arguments.push(decimal_string(width as u64));
    arguments.push(String::from_str("-h"));
    arguments.push(decimal_string(height as u64));
    // search
    arguments.push(String::from_str("--with-nth=2.."));
    arguments.push(String::from_str("--no-sort"));
    arguments.push(String::from_str("--tiebreak=end"));
    // appearance
    arguments.push(String::from_str("--color=bg:-1,bg+:-1"));
    arguments.push(String::from_str("--layout=reverse"));
    arguments.push(String::from_str("--ansi"));
    arguments.push(String::from_str("--margin=3,5,3,3"));
    arguments.push(String::from_str("--inline-info"));
    arguments.push(String::from_str("--header"));
    arguments.push(String::from_str(""));
    arguments.push(String::from_str("--prompt=\u{25b6} "));
    arguments.push(String::from_str("--pointer=\u{25b6}"));
    // key bindings
    arguments.push(String::from_str("--bind"));
    arguments.push(String::from_str("ctrl-j:page-down"));
    arguments.push(String::from_str("--bind"));
    arguments.push(String::from_str("ctrl-k:page-up"));
    arguments.push(String::from_str("--bind"));
    arguments.push(String::from_str("ctrl-f:page-down"));
    arguments.push(String::from_str("--bind"));
    arguments.push(String::from_str("ctrl-b:page-up"));
    arguments
}

/// The key that the picker's answer selects: what stands before its first
/// tab, unless that is nothing.
pub open spec fn selected(output: Seq<char>) -> Option<Seq<char>> {
    let key = first_field(output, '\t');
    if key.len() == 0 {
        None
    } else {
        Some(key)
    }
}

/// Reads the selected key from the picker's answer. An answer that begins
/// with a tab, or an empty one, selects nothing.
pub fn selected_key(output: &str) -> (r: Option<String>)
    ensures
        match r {
            Some(key) => selected(output@) == Some(key@),
            None => selected(output@).is_none(),
        },
{
    let chars = chars_of(output);
    let end: usize = find_char(&chars, '\t', 0);
    proof {
        assert(chars@.skip(0) =~= chars@);
    }
    if end == 0 {
        None
    } else {
        Some(slice_of(output, 0, end))
    }
}

/// Reads the selected key from what the picker wrote. Nothing is selected
/// where that is not text, or where the text selects nothing.
pub fn selection(output: &[u8]) -> (r: Option<String>)
    ensures
        match r {
            Some(key) => valid_utf8(output@) && selected(decode_utf8(output@)) == Some(key@),
            None => !valid_utf8(output@) || selected(decode_utf8(output@)).is_none(),
        },
{
    match utf8_text(output) {
        Some(text) => selected_key(text),
        None => None,
    }
}

/// Selecting a line of the feed selects its key, whatever text and styling
/// follow the key, provided that the key is not empty and holds no tab.
pub proof fn lemma_selected_line(e: Entry, snapshot: SnapshotView, icons: Seq<(Seq<char>, Seq<char>)>)
    requires
        !has_char(entry_key(e), '\t'),
        entry_key(e).len() > 0,
    ensures
        selected(entry_line(e, snapshot, icons)) == Some(entry_key(e)),
{
    lemma_key_round_trip(e, snapshot, icons);
}

/// What is done about a selection.
#[derive(Debug)]
pub enum Action {
    /// Switch to the session or window with this identifier.
    Switch(String),
    /// Create the dead session with this name, then switch to it.
    Resurrect(String),
    /// Nothing.
    Ignore,
}

/// An action as texts.
pub enum ActionView {
    Switch(Seq<char>),
    Resurrect(Seq<char>),
    Ignore,
}

impl View for Action {
    type V = ActionView;

    open spec fn view(&self) -> ActionView {
        match self {
            Action::Switch(id) => ActionView::Switch(id@),
            Action::Resurrect(name) => ActionView::Resurrect(name@),
            Action::Ignore => ActionView::Ignore,
        }
    }
}

/// What a key asks for. A key that begins with `$` or `@` is the identifier
/// of a session or window to switch to; one that begins with `[dead]` names,
/// after that, a dead session to create; any other asks for nothing.
pub open spec fn action_for(key: Seq<char>) -> ActionView {
    if starts_with(key, seq!['$']) || starts_with(key, seq!['@']) {
        ActionView::Switch(key)
    } else if starts_with(key, seq!['[', 'd', 'e', 'a', 'd', ']']) {
        ActionView::Resurrect(key.skip(6))
    } else {
        ActionView::Ignore
    }
}

/// Decides what is done about the selected key.
pub fn dispatch(key: &str) -> (action: Action)
    ensures
        action@ == action_for(key@),
{
    proof {
        reveal_strlit("$");
        reveal_strlit("@");
        reveal_strlit("[dead]");
        assert("$"@ =~= seq!['$']);
        assert("@"@ =~= seq!['@']);
        assert("[dead]"@ =~= seq!['[', 'd', 'e', 'a', 'd', ']']);
    }
    if begins_with(key, "$") || begins_with(key, "@") {
        Action::Switch(String::from_str(key))
    } else if begins_with(key, "[dead]") {
        let n: usize = key.unicode_len();
        Action::Resurrect(slice_of(key, 6, n))
    } else {
        Action::Ignore
    }
}

/// The script that creates the dead session `name`: the file of its name
/// with `.tmux-session.zsh` after it, in the directory of the scripts.
pub open spec fn script_path_of(sessions_dir: Seq<char>, name: Seq<char>) -> Seq<char> {
    path_join(sessions_dir, name + ".tmux-session.zsh"@)
}

/// The path of the script that creates the dead session `name`.
pub fn script_path(sessions_dir: &str, name: &str) -> (path: String)
    ensures
        path@ == script_path_of(sessions_dir@, name@),
{
    let mut file = String::from_str(name);
    file.append(".tmux-session.zsh");
    join_path(sessions_dir, file.as_str())
}

} // verus!
