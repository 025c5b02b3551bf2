//! The feed for the picker: one line for each session, window and dead
//! session, in a fixed order and in columns of a common width.
//!
//! A line is a selector key, a tab, and the text that the picker shows. The
//! key of a session or of a window is its identifier; the key of a dead
//! session is `[dead]` and its name; a separator has the key `[sep]` and no text.

use vstd::prelude::*;
use vstd::string::*;
use crate::config::{icon_of, Config, ConfigView};
use crate::measure::larger;
use crate::number::{decimal, push_decimal};
use crate::order::{slot, sorted_by, text_before, text_le};
use crate::style::{pad, pad_text, paint, painted, Alignment, Color};
use crate::text::{index_of, lemma_index_of_unique, texts};
use crate::tmux::snapshot::{
    has_session, session_ids, session_names, session_views, window_views, GeometryView, Session,
    SessionView, Snapshot, SnapshotView, Window, WindowView,
};

verus! {

/// Width of the symbol column of a session line.
pub const SS_WIDTH: usize = 4;

/// Width of the symbol column of a window line.
pub const WS_WIDTH: usize = 2;

/// Columns that the picker keeps free on the left of each line.
pub const LEFT_MARGIN: usize = 2;

/// Least distance between the name column and the column on the right.
pub const MIN_GAP: usize = 4;

/// Least width of the feed.
pub const MIN_WIDTH: usize = 50;

/// The extended-palette color of what is shown dimmed.
pub const GRAY: u8 = 242;

/// The widths that a feed is laid out with.
pub struct Columns {
    /// The name column, shared by sessions, windows and dead sessions.
    pub part1: nat,
    /// The column on the right.
    pub part2: nat,
    /// The filler between the two.
    pub gap: nat,
    /// The whole feed.
    pub width: nat,
}

/// The columns for the widest names of a snapshot. The name column fits the
/// longest session or window name; the right column fits the longest session
/// name and four more characters, and is at least 10 wide; the feed is at
/// least `MIN_WIDTH` wide, and the gap takes what the columns leave of it.
pub open spec fn columns_of(g: GeometryView) -> Columns {
    let part1 = larger(g.session_name_max_width, g.window_name_max_width);
    let part2 = larger(g.session_name_max_width + 4, 10);
    let bare = LEFT_MARGIN as nat + SS_WIDTH as nat + part1 + part2;
    let width = larger(bare + MIN_GAP as nat, MIN_WIDTH as nat);
    Columns { part1, part2, gap: (width - bare) as nat, width }
}

/// A run of `width` columns that shows nothing on a black background: a
/// black dot, padded on the right.
pub open spec fn span_text(width: nat) -> Seq<char> {
    pad_text(painted(seq!['.'], Color::Black), width, Alignment::Left)
}

/// Transparent span of a fixed width.
pub fn xspan(width: usize) -> (r: String)
    ensures
        r@ == span_text(width as nat),
{
    proof {
        reveal_strlit(".");
        assert("."@ =~= seq!['.']);
    }
    let dot: String = paint(".", Color::Black);
    pad(dot.as_str(), width, Alignment::Left)
}

/// What stands on a line of the feed.
pub enum Entry {
    Separator,
    Session(SessionView),
    Window(WindowView),
    Dead(Seq<char>),
}

/// The order of sessions in the feed: by identifier.
pub open spec fn session_order() -> spec_fn(SessionView, SessionView) -> bool {
    |a: SessionView, b: SessionView| text_le(a.id, b.id)
}

/// The order of the windows of a session in the feed: by index.
pub open spec fn window_order() -> spec_fn(WindowView, WindowView) -> bool {
    |a: WindowView, b: WindowView| a.index <= b.index
}

/// A window line for each of the given windows.
pub open spec fn window_entries(windows: Seq<WindowView>) -> Seq<Entry> {
    windows.map_values(|w: WindowView| Entry::Window(w))
}

/// A dead-session line for each of the given names.
pub open spec fn dead_name_entries(names: Seq<Seq<char>>) -> Seq<Entry> {
    names.map_values(|name: Seq<char>| Entry::Dead(name))
}

/// The lines of one session: the session, then its windows by index.
pub open spec fn session_group(s: SessionView) -> Seq<Entry> {
    seq![Entry::Session(s)] + window_entries(sorted_by(s.windows, window_order()))
}

/// The lines of the given sessions, in the given order, with a separator
/// between one session and the next.
pub open spec fn live_entries(sessions: Seq<SessionView>) -> Seq<Entry>
    decreases sessions.len(),
{
    if sessions.len() == 0 {
        Seq::empty()
    } else if sessions.len() == 1 {
        session_group(sessions[0])
    } else {
        live_entries(sessions.drop_last()) + seq![Entry::Separator] + session_group(sessions.last())
    }
}

/// Whether a session of the snapshot has this name.
pub open spec fn is_live(sessions: Seq<SessionView>, name: Seq<char>) -> bool {
    index_of(session_names(sessions), name) < sessions.len()
}

/// The dead names that are not the name of a session, in their order.
pub open spec fn remaining_dead(names: Seq<Seq<char>>, sessions: Seq<SessionView>) -> Seq<Seq<char>>
    decreases names.len(),
{
    if names.len() == 0 {
        Seq::empty()
    } else {
        let rest = remaining_dead(names.drop_last(), sessions);
        if is_live(sessions, names.last()) {
            rest
        } else {
            rest.push(names.last())
        }
    }
}

/// The lines of the dead sessions: none if no name remains, else a
/// separator and one line for each name.
pub open spec fn dead_entries(remaining: Seq<Seq<char>>) -> Seq<Entry> {
    if remaining.len() == 0 {
        Seq::empty()
    } else {
        seq![Entry::Separator] + dead_name_entries(remaining)
    }
}

/// All lines of the feed: the sessions by identifier, each with its windows,
/// then the dead sessions that no session has the name of.
pub open spec fn feed_entries(sessions: Seq<SessionView>, dead_names: Seq<Seq<char>>) -> Seq<Entry> {
    live_entries(sorted_by(sessions, session_order())) + dead_entries(
        remaining_dead(dead_names, sessions),
    )
}

/// The selector key of a line.
pub open spec fn entry_key(e: Entry) -> Seq<char> {
    match e {
        Entry::Separator => seq!['[', 's', 'e', 'p', ']'],
        Entry::Session(s) => s.id,
        Entry::Window(w) => w.id,
        Entry::Dead(name) => seq!['[', 'd', 'e', 'a', 'd', ']'] + name,
    }
}

/// The symbol of a session or dead session: its icon, or a no-break space.
pub open spec fn symbol_text(icons: Seq<(Seq<char>, Seq<char>)>, name: Seq<char>) -> Seq<char> {
    match icon_of(icons, name) {
        Some(icon) => icon,
        None => seq!['\u{a0}'],
    }
}

/// The name of the session with this identifier, or `[W]` if there is none.
pub open spec fn owner_name(sessions: Seq<SessionView>, id: Seq<char>) -> Seq<char> {
    if has_session(sessions, id) {
        sessions[index_of(session_ids(sessions), id)].name
    } else {
        seq!['[', 'W', ']']
    }
}

/// The width that is left for a window name beside its symbol.
pub open spec fn window_name_room(part1: nat) -> nat {
    if part1 >= WS_WIDTH as nat {
        (part1 - WS_WIDTH as nat) as nat
    } else {
        0
    }
}

/// What marks a dead session in the right column.
pub open spec fn dead_mark() -> Seq<char> {
    seq!['\u{ef}', '\u{2122}', '\u{2014}', ' ']
}

/// The dimmed color.
pub open spec fn gray() -> Color {
    Color::Color256(GRAY)
}

/// The text of a session line: symbol, then the name in magenta.
pub open spec fn session_text(
    s: SessionView,
    columns: Columns,
    icons: Seq<(Seq<char>, Seq<char>)>,
) -> Seq<char> {
    pad_text(symbol_text(icons, s.name), SS_WIDTH as nat, Alignment::Left) + pad_text(
        painted(s.name, Color::Magenta),
        columns.part1,
        Alignment::Left,
    )
}

/// The text of a window line: a margin, a dimmed dash, the name in green,
/// the gap, and on the right the session's name and the window's index in blue.
pub open spec fn window_text(w: WindowView, columns: Columns, sessions: Seq<SessionView>) -> Seq<
    char,
> {
    span_text(SS_WIDTH as nat) + pad_text(
        painted(seq!['-'], gray()),
        WS_WIDTH as nat,
        Alignment::Left,
    ) + pad_text(painted(w.name, Color::Green), window_name_room(columns.part1), Alignment::Left)
        + span_text(columns.gap) + pad_text(
        painted(owner_name(sessions, w.session) + seq![':'] + decimal(w.index as nat), Color::Blue),
        columns.part2,
        Alignment::Right,
    )
}

/// The text of a dead-session line: symbol, the name dimmed, the gap, and
/// the dimmed mark on the right.
pub open spec fn dead_text(
    name: Seq<char>,
    columns: Columns,
    icons: Seq<(Seq<char>, Seq<char>)>,
) -> Seq<char> {
    pad_text(symbol_text(icons, name), SS_WIDTH as nat, Alignment::Left) + pad_text(
        painted(name, gray()),
        columns.part1,
        Alignment::Left,
    ) + span_text(columns.gap) + pad_text(painted(dead_mark(), gray()), columns.part2, Alignment::Right)
}

/// The text that the picker shows for a line.
pub open spec fn entry_text(e: Entry, snapshot: SnapshotView, icons: Seq<(Seq<char>, Seq<char>)>) -> Seq<
    char,
> {
    let columns = columns_of(snapshot.geometry);
    match e {
        Entry::Separator => Seq::empty(),
        Entry::Session(s) => session_text(s, columns, icons),
        Entry::Window(w) => window_text(w, columns, snapshot.sessions),
        Entry::Dead(name) => dead_text(name, columns, icons),
    }
}

/// A line of the feed: the key, a tab, the text.
pub open spec fn entry_line(e: Entry, snapshot: SnapshotView, icons: Seq<(Seq<char>, Seq<char>)>) -> Seq<
    char,
> {
    entry_key(e) + seq!['\t'] + entry_text(e, snapshot, icons)
}

/// The function that writes the line of an entry.
pub open spec fn line_of(snapshot: SnapshotView, icons: Seq<(Seq<char>, Seq<char>)>) -> spec_fn(
    Entry,
) -> Seq<char> {
    |e: Entry| entry_line(e, snapshot, icons)
}

/// The feed for a snapshot and a configuration.
pub open spec fn feed_lines(snapshot: SnapshotView, config: ConfigView) -> Seq<Seq<char>> {
    feed_entries(snapshot.sessions, config.dead_session.names).map_values(
        line_of(snapshot, config.session_icons),
    )
}

/// The views of borrowed sessions.
pub open spec fn session_ref_views(sessions: Seq<&Session>) -> Seq<SessionView> {
    sessions.map_values(|s: &Session| s@)
}

/// The views of borrowed windows.
pub open spec fn window_ref_views(windows: Seq<&Window>) -> Seq<WindowView> {
    windows.map_values(|w: &Window| w@)
}

/// The sessions by identifier.
fn sessions_in_order(sessions: &Vec<Session>) -> (sorted: Vec<&Session>)
    ensures
        session_ref_views(sorted@) == sorted_by(session_views(sessions@), session_order()),
{
    let n: usize = sessions.len();
    let ghost all = session_views(sessions@);
    let ghost le = session_order();
    let mut sorted: Vec<&Session> = Vec::new();
    let mut k: usize = 0;
    while k < n
        invariant
            k <= n,
            n == sessions@.len(),
            all == session_views(sessions@),
            le == session_order(),
            session_ref_views(sorted@) == sorted_by(all.take(k as int), le),
        decreases n - k,
    {
        let s: &Session = &sessions[k];
        let ghost before = session_ref_views(sorted@);
        let mut at: usize = sorted.len();
        proof {
            assert(before.take(at as int) =~= before);
        }
        while at > 0 && !text_before(sorted[at - 1].id.as_str(), s.id.as_str())
            invariant
                at <= sorted@.len(),
                le == session_order(),
                before == session_ref_views(sorted@),
                slot(before, s@, le) == slot(before.take(at as int), s@, le),
            decreases at,
        {
            proof {
                assert(before.take(at as int).drop_last() =~= before.take(at - 1));
            }
            at -= 1;
        }
        proof {
            assert(all.take(k + 1).drop_last() =~= all.take(k as int));
        }
        sorted.insert(at, s);
        k += 1;
    }
    proof {
        assert(all.take(n as int) =~= all);
    }
    sorted
}

/// The windows by index; windows with the same index stay as they are.
fn windows_in_order(windows: &Vec<Window>) -> (sorted: Vec<&Window>)
    ensures
        window_ref_views(sorted@) == sorted_by(window_views(windows@), window_order()),
{
    let n: usize = windows.len();
    let ghost all = window_views(windows@);
    let ghost le = window_order();
    let mut sorted: Vec<&Window> = Vec::new();
    let mut k: usize = 0;
    while k < n
        invariant
            k <= n,
            n == windows@.len(),
            all == window_views(windows@),
            le == window_order(),
            window_ref_views(sorted@) == sorted_by(all.take(k as int), le),
        decreases n - k,
    {
        let w: &Window = &windows[k];
        let ghost before = window_ref_views(sorted@);
        let mut at: usize = sorted.len();
        proof {
            assert(before.take(at as int) =~= before);
        }
        while at > 0 && sorted[at - 1].index > w.index
            invariant
                at <= sorted@.len(),
                le == window_order(),
                before == window_ref_views(sorted@),
                slot(before, w@, le) == slot(before.take(at as int), w@, le),
            decreases at,
        {
            proof {
                assert(before.take(at as int).drop_last() =~= before.take(at - 1));
            }
            at -= 1;
        }
        proof {
            assert(all.take(k + 1).drop_last() =~= all.take(k as int));
        }
        sorted.insert(at, w);
        k += 1;
    }
    proof {
        assert(all.take(n as int) =~= all);
    }
    sorted
}

/// Whether a session has this name.
fn has_name(sessions: &Vec<Session>, name: &String) -> (r: bool)
    ensures
        r == is_live(session_views(sessions@), name@),
{
    let n: usize = sessions.len();
    let ghost names = session_names(session_views(sessions@));
    let mut at: usize = 0;
    while at < n && !(sessions[at].name == *name)
        invariant
            at <= n,
            n == sessions@.len(),
            names == session_names(session_views(sessions@)),
            forall|j: int| 0 <= j < at ==> names[j] != name@,
        decreases n - at,
    {
        at += 1;
    }
    proof {
        lemma_index_of_unique(names, name@, at as int);
    }
    at < n
}

/// The dead names that no session has.
fn names_to_show<'b>(names: &'b Vec<String>, sessions: &Vec<Session>) -> (shown: Vec<&'b String>)
    ensures
        shown@.map_values(|s: &String| s@) == remaining_dead(
            texts(names@),
            session_views(sessions@),
        ),
{
    let n: usize = names.len();
    let ghost all = texts(names@);
    let ghost live = session_views(sessions@);
    let mut shown: Vec<&'b String> = Vec::new();
    let mut k: usize = 0;
    while k < n
        invariant
            k <= n,
            n == names@.len(),
            all == texts(names@),
            live == session_views(sessions@),
            shown@.map_values(|s: &String| s@) == remaining_dead(all.take(k as int), live),
        decreases n - k,
    {
        let name: &'b String = &names[k];
        proof {
            assert(all.take(k + 1).drop_last() =~= all.take(k as int));
        }
        if !has_name(sessions, name) {
            shown.push(name);
        }
        k += 1;
    }
    proof {
        assert(all.take(n as int) =~= all);
    }
    shown
}

/// Lays the feed out and holds it with its width and height.
pub struct Formatter<'a> {
    pub config: &'a Config,
    pub snapshot: &'a Snapshot,
    /// Width of the name column.
    pub part1_width: usize,
    /// Width of the column on the right.
    pub part2_width: usize,
    /// The filler between the two columns.
    pub gap: String,
    /// Columns of the feed.
    pub width: usize,
    /// Lines of the feed.
    pub height: usize,
    /// The lines, in order.
    pub feed: Vec<String>,
}

impl<'a> Formatter<'a> {
    /// Whether the columns are those of the snapshot.
    pub open spec fn sized(&self) -> bool {
        let columns = columns_of(self.snapshot@.geometry);
        &&& self.part1_width == columns.part1
        &&& self.part2_width == columns.part2
        &&& self.gap@ == span_text(columns.gap)
        &&& self.width == columns.width
    }

    /// The function that writes the lines of this feed.
    spec fn writer(&self) -> spec_fn(Entry) -> Seq<char> {
        line_of(self.snapshot@, self.config@.session_icons)
    }

    /// Whether the columns for this snapshot fit in a `usize`.
    pub fn fits(snapshot: &Snapshot) -> (r: bool)
        ensures
            r == (columns_of(snapshot@.geometry).width <= usize::MAX),
    {
        let session_width: u128 = snapshot.geometry.session_name_max_width as u128;
        let window_width: u128 = snapshot.geometry.window_name_max_width as u128;
        let part1: u128 = if session_width >= window_width {
            session_width
        } else {
            window_width
        };
        let part2: u128 = if session_width + 4 >= 10 {
            session_width + 4
        } else {
            10
        };
        let bare: u128 = LEFT_MARGIN as u128 + SS_WIDTH as u128 + part1 + part2;
        let width: u128 = if bare + MIN_GAP as u128 >= MIN_WIDTH as u128 {
            bare + MIN_GAP as u128
        } else {
            MIN_WIDTH as u128
        };
        width <= usize::MAX as u128
    }

    /// Lays out the feed for a snapshot: the sessions by identifier, each
    /// followed by its windows by index, a separator between one session and
    /// the next, and after a separator the dead sessions whose name no
    /// session has, in the order of the configuration.
    ///
    /// The widths of the columns must fit in a `usize`.
    pub fn new(snapshot: &'a Snapshot, config: &'a Config) -> (f: Formatter<'a>)
        requires
            columns_of(snapshot@.geometry).width <= usize::MAX,
        ensures
            f.snapshot == snapshot,
            f.config == config,
            f.sized(),
            f.height == f.feed@.len(),
            texts(f.feed@) == feed_lines(snapshot@, config@),
    {
        let mut f = Formatter {
            config,
            snapshot,
            part1_width: 0,
            part2_width: 0,
            gap: String::new(),
            width: 0,
            height: 0,
            feed: Vec::with_capacity(100),
        };
        f.calculate_sizes();
        f.compose_feed();
        f
    }

    /// Sets the widths of the columns and the filler between them.
    fn calculate_sizes(&mut self)
        requires
            columns_of(old(self).snapshot@.geometry).width <= usize::MAX,
        ensures
            final(self).sized(),
            final(self).snapshot == old(self).snapshot,
            final(self).config == old(self).config,
            final(self).feed == old(self).feed,
            final(self).height == old(self).height,
    {
        let session_width: usize = self.snapshot.geometry.session_name_max_width;
        let window_width: usize = self.snapshot.geometry.window_name_max_width;
        let part1: usize = if session_width >= window_width {
            session_width
        } else {
            window_width
        };
        let wide: usize = session_width + 4;
        let part2: usize = if wide >= 10 {
            wide
        } else {
            10
        };
        let width_without_gap: usize = LEFT_MARGIN + SS_WIDTH + part1 + part2;
        let width_with_gap: usize = width_without_gap + MIN_GAP;
        let width: usize = if width_with_gap >= MIN_WIDTH {
            width_with_gap
        } else {
            MIN_WIDTH
        };
        let gap_width: usize = width - width_without_gap;
        self.part1_width = part1;
        self.part2_width = part2;
        self.gap = xspan(gap_width);
        self.width = width;
    }

    /// Writes the lines: the sessions with their windows, then the dead sessions.
    fn compose_feed(&mut self)
        requires
            old(self).sized(),
            old(self).feed@.len() == 0,
        ensures
            final(self).sized(),
            final(self).snapshot == old(self).snapshot,
            final(self).config == old(self).config,
            final(self).height == final(self).feed@.len(),
            texts(final(self).feed@) == feed_lines(old(self).snapshot@, old(self).config@),
    {
        let snapshot: &Snapshot = self.snapshot;
        let config: &Config = self.config;
        let ghost write = self.writer();
        let ghost mut entries: Seq<Entry> = Seq::empty();

        // live sessions
        let sessions = sessions_in_order(&snapshot.sessions);
        let ghost sorted = sorted_by(snapshot@.sessions, session_order());
        let n: usize = sessions.len();
        let mut k: usize = 0;
        while k < n
            invariant
                k <= n,
                n == sessions@.len(),
                self.sized(),
                self.snapshot == snapshot,
                self.config == config,
                write == self.writer(),
                session_ref_views(sessions@) == sorted,
                texts(self.feed@) == entries.map_values(write),
                entries == live_entries(sorted.take(k as int)),
            decreases n - k,
        {
            let session: &Session = sessions[k];
            let ghost in_order = sorted_by(session@.windows, window_order());
            proof {
                assert(sorted.take(k + 1).drop_last() =~= sorted.take(k as int));
            }
            if k > 0 {
                let line = separator_line();
                proof {
                    lemma_push_line(self.feed@, line, entries, Entry::Separator, write);
                    entries = entries.push(Entry::Separator);
                }
                self.feed.push(line);
            }
            let line = self.live_session_line(session);
            proof {
                lemma_push_line(self.feed@, line, entries, Entry::Session(session@), write);
                entries = entries.push(Entry::Session(session@));
            }
            self.feed.push(line);
            let ghost head = entries;

            let windows = windows_in_order(&session.windows);
            let m: usize = windows.len();
            let mut j: usize = 0;
            while j < m
                invariant
                    j <= m,
                    m == windows@.len(),
                    self.sized(),
                    self.snapshot == snapshot,
                    self.config == config,
                    write == self.writer(),
                    window_ref_views(windows@) == in_order,
                    texts(self.feed@) == entries.map_values(write),
                    entries == head + window_entries(in_order.take(j as int)),
                decreases m - j,
            {
                let window: &Window = windows[j];
                let line = self.window_line(window);
                proof {
                    lemma_push_line(self.feed@, line, entries, Entry::Window(window@), write);
                    entries = entries.push(Entry::Window(window@));
                }
                self.feed.push(line);
                j += 1;
            }
            k += 1;
        }

        // dead sessions
        let ghost live = entries;
        let shown = names_to_show(&config.dead_session.names, &snapshot.sessions);
        let ghost remaining = remaining_dead(config@.dead_session.names, snapshot@.sessions);
        let d: usize = shown.len();
        proof {
            assert(sorted.take(n as int) =~= sorted);
        }
        if d > 0 {
            let line = separator_line();
            proof {
                lemma_push_line(self.feed@, line, entries, Entry::Separator, write);
                entries = entries.push(Entry::Separator);
            }
            self.feed.push(line);
            let mut i: usize = 0;
            while i < d
                invariant
                    i <= d,
                    d == shown@.len(),
                    self.sized(),
                    self.snapshot == snapshot,
                    self.config == config,
                    write == self.writer(),
                    shown@.map_values(|s: &String| s@) == remaining,
                    texts(self.feed@) == entries.map_values(write),
                    entries == live + seq![Entry::Separator] + dead_name_entries(
                        remaining.take(i as int),
                    ),
                decreases d - i,
            {
                let name: &String = shown[i];
                let line = self.dead_session_line(name);
                proof {
                    lemma_push_line(self.feed@, line, entries, Entry::Dead(name@), write);
                    entries = entries.push(Entry::Dead(name@));
                }
                self.feed.push(line);
                i += 1;
            }
        }
        self.height = self.feed.len();
    }

    /// The symbol column of a session or dead session of this name.
    fn symbol(&self, name: &String) -> (r: String)
        ensures
            r@ == pad_text(
                symbol_text(self.config@.session_icons, name@),
                SS_WIDTH as nat,
                Alignment::Left,
            ),
    {
        proof {
            reveal_strlit("\u{a0}");
            assert("\u{a0}"@ =~= seq!['\u{a0}']);
        }
        match self.config.icon(name) {
            Some(icon) => pad(icon.as_str(), SS_WIDTH, Alignment::Left),
            None => pad("\u{a0}", SS_WIDTH, Alignment::Left),
        }
    }

    /// The line of a session.
    fn live_session_line(&self, session: &Session) -> (line: String)
        requires
            self.sized(),
        ensures
            line@ == entry_line(Entry::Session(session@), self.snapshot@, self.config@.session_icons),
    {
        let name = paint(session.name.as_str(), Color::Magenta);
        let name = pad(name.as_str(), self.part1_width, Alignment::Left);
        let mut text = self.symbol(&session.name);
        text.append(name.as_str());
        keyed_line(session.id.as_str(), text.as_str())
    }

    /// The line of a window.
    fn window_line(&self, window: &Window) -> (line: String)
        requires
            self.sized(),
        ensures
            line@ == entry_line(Entry::Window(window@), self.snapshot@, self.config@.session_icons),
    {
        proof {
            reveal_strlit("-");
            assert("-"@ =~= seq!['-']);
        }
        let symbol = paint("-", Color::Color256(GRAY));
        let symbol = pad(symbol.as_str(), WS_WIDTH, Alignment::Left);
        let room: usize = if self.part1_width >= WS_WIDTH {
            self.part1_width - WS_WIDTH
        } else {
            0
        };
        let name = paint(window.name.as_str(), Color::Green);
        let name = pad(name.as_str(), room, Alignment::Left);
        let path = self.window_path(window);
        let path = paint(path.as_str(), Color::Blue);
        let path = pad(path.as_str(), self.part2_width, Alignment::Right);
        let mut text = xspan(SS_WIDTH);
        text.append(symbol.as_str());
        text.append(name.as_str());
        text.append(self.gap.as_str());
        text.append(path.as_str());
        keyed_line(window.id.as_str(), text.as_str())
    }

    /// The name of the window's session, a colon, and the window's index.
    fn window_path(&self, window: &Window) -> (path: String)
        ensures
            path@ == owner_name(self.snapshot@.sessions, window@.session) + seq![':'] + decimal(
                window@.index as nat,
            ),
    {
        proof {
            reveal_strlit(":");
            reveal_strlit("[W]");
        }
        let mut path = match self.snapshot.session_name(&window.session) {
            Some(owner) => owner.clone(),
            None => String::from_str("[W]"),
        };
        path.append(":");
        push_decimal(&mut path, window.index as u64);
        path
    }

    /// The line of a dead session.
    fn dead_session_line(&self, name: &String) -> (line: String)
        requires
            self.sized(),
        ensures
            line@ == entry_line(Entry::Dead(name@), self.snapshot@, self.config@.session_icons),
    {
        proof {
            reveal_strlit("[dead]");
            reveal_strlit("\u{ef}\u{2122}\u{2014} ");
            assert("\u{ef}\u{2122}\u{2014} "@ =~= dead_mark());
        }
        let left = paint(name.as_str(), Color::Color256(GRAY));
        let left = pad(left.as_str(), self.part1_width, Alignment::Left);
        let right = paint("\u{ef}\u{2122}\u{2014} ", Color::Color256(GRAY));
        let right = pad(right.as_str(), self.part2_width, Alignment::Right);
        let mut text = self.symbol(name);
        text.append(left.as_str());
        text.append(self.gap.as_str());
        text.append(right.as_str());
        let mut key = String::from_str("[dead]");
        key.append(name.as_str());
        keyed_line(key.as_str(), text.as_str())
    }
}

/// A key, a tab, and the text.
fn keyed_line(key: &str, text: &str) -> (line: String)
    ensures
        line@ == key@ + seq!['\t'] + text@,
{
    proof {
        reveal_strlit("\t");
    }
    let mut line = String::from_str(key);
    line.append("\t");
    line.append(text);
    line
}

/// A line more in the feed is an entry more in what the feed spells.
proof fn lemma_push_line(
    feed: Seq<String>,
    line: String,
    entries: Seq<Entry>,
    e: Entry,
    write: spec_fn(Entry) -> Seq<char>,
)
    requires
        texts(feed) == entries.map_values(write),
        line@ == write(e),
    ensures
        texts(feed.push(line)) == entries.push(e).map_values(write),
{
    assert(texts(feed).len() == entries.len());
    assert forall|i: int| 0 <= i < feed.len() + 1 implies texts(feed.push(line))[i]
        == entries.push(e).map_values(write)[i] by {
        if i < feed.len() {
            assert(texts(feed)[i] == entries.map_values(write)[i]);
        }
    }
}

/// The line that separates two groups of the feed.
fn separator_line() -> (line: String)
    ensures
        line@ == entry_key(Entry::Separator) + seq!['\t'] + Seq::<char>::empty(),
{
    proof {
        reveal_strlit("[sep]");
        reveal_strlit("");
    }
    keyed_line("[sep]", "")
}

} // verus!
