//! What holds of every feed: the order of window lines, which dead sessions
//! are shown, how many lines there are, that the key of a line can be read
//! back from the line, and that the feed does not depend on the order in
//! which the snapshot holds its sessions.

use vstd::prelude::*;
use crate::config::ConfigView;
use crate::fzf::{
    entry_key, entry_line, entry_text, feed_entries, feed_lines, is_live, live_entries, owner_name,
    remaining_dead, session_group, session_order, window_order, Entry,
};
use crate::measure::{lemma_sum_insert, lemma_sum_push};
use crate::order::{
    lemma_ascending_unique, lemma_slot, lemma_sorted_by, lemma_text_le_antisymmetric,
    lemma_text_le_total, lemma_text_le_transitive, slot, sorted_by, total, transitive,
};
use crate::text::{first_field, has_char, index_of, lemma_index_of, lemma_index_of_unique};
use crate::tmux::invariants::{plain_ids, well_formed};
use crate::tmux::snapshot::{
    has_session, session_ids, session_names, window_counts, window_total, SessionView, SnapshotView,
};

verus! {

/// Sessions are ordered by identifier: any two compare, and the order passes on.
pub proof fn lemma_session_order()
    ensures
        total(session_order()),
        transitive(session_order()),
{
    let le = session_order();
    assert forall|a: SessionView, b: SessionView| #[trigger] le(a, b) || #[trigger] le(b, a) by {
        lemma_text_le_total(a.id, b.id);
    }
    assert forall|a: SessionView, b: SessionView, c: SessionView| #[trigger]
        le(a, b) && #[trigger] le(b, c) implies le(a, c) by {
        lemma_text_le_transitive(a.id, b.id, c.id);
    }
}

/// Windows are ordered by index: any two compare, and the order passes on.
pub proof fn lemma_window_order()
    ensures
        total(window_order()),
        transitive(window_order()),
{
}

/// The lines of a session are the session and then each of its windows once,
/// in ascending order of index, whatever order the session holds them in.
pub proof fn lemma_session_group(s: SessionView)
    ensures
        session_group(s).len() == s.windows.len() + 1,
        session_group(s)[0] == Entry::Session(s),
        sorted_by(s.windows, window_order()).to_multiset() == s.windows.to_multiset(),
        forall|i: int|
            1 <= i < session_group(s).len() ==> #[trigger] session_group(s)[i] == Entry::Window(
                sorted_by(s.windows, window_order())[i - 1],
            ),
        forall|i: int, j: int|
            1 <= i < j < session_group(s).len() ==> (#[trigger] session_group(s)[i])->Window_0.index
                <= (#[trigger] session_group(s)[j])->Window_0.index,
{
    lemma_window_order();
    lemma_sorted_by(s.windows, window_order());
    let group = session_group(s);
    assert forall|i: int, j: int| 1 <= i < j < group.len() implies (#[trigger] group[i])->Window_0.index
        <= (#[trigger] group[j])->Window_0.index by {}
}

/// Whether two lines that follow each other are windows in the wrong order.
pub open spec fn out_of_order(a: Entry, b: Entry) -> bool {
    a is Window && b is Window && a->Window_0.index > b->Window_0.index
}

/// Whether no window line is followed by a window line of a lower index.
pub open spec fn windows_ascend(entries: Seq<Entry>) -> bool {
    forall|i: int| 0 <= i && i + 1 < entries.len() ==> !out_of_order(#[trigger] entries[i], entries[i + 1])
}

/// The lines of sessions hold no dead session, and their windows ascend.
proof fn lemma_live_entries(sessions: Seq<SessionView>)
    ensures
        windows_ascend(live_entries(sessions)),
        forall|i: int| 0 <= i < live_entries(sessions).len() ==> !(#[trigger] live_entries(sessions)[i] is Dead),
    decreases sessions.len(),
{
    if sessions.len() > 0 {
        let last = session_group(sessions.last());
        lemma_session_group(sessions.last());
        if sessions.len() == 1 {
            let all = live_entries(sessions);
            assert forall|i: int| 0 <= i && i + 1 < all.len() implies !out_of_order(
                #[trigger] all[i],
                all[i + 1],
            ) by {}
        } else {
            lemma_live_entries(sessions.drop_last());
            let all = live_entries(sessions);
            assert forall|i: int| 0 <= i && i + 1 < all.len() implies !out_of_order(
                #[trigger] all[i],
                all[i + 1],
            ) by {}
            assert forall|i: int| 0 <= i < all.len() implies !(#[trigger] all[i] is Dead) by {}
        }
    }
}

/// In a feed no window line is followed by a window line of a lower index:
/// the windows of a session, which follow each other, stand in ascending
/// order of index.
pub proof fn lemma_windows_ascending(sessions: Seq<SessionView>, dead_names: Seq<Seq<char>>)
    ensures
        windows_ascend(feed_entries(sessions, dead_names)),
{
    let all = feed_entries(sessions, dead_names);
    lemma_live_entries(sorted_by(sessions, session_order()));
    assert forall|i: int| 0 <= i && i + 1 < all.len() implies !out_of_order(
        #[trigger] all[i],
        all[i + 1],
    ) by {}
}

/// A name is live exactly when some session has it.
pub proof fn lemma_is_live(sessions: Seq<SessionView>, name: Seq<char>)
    ensures
        is_live(sessions, name) <==> exists|k: int|
            0 <= k < sessions.len() && (#[trigger] sessions[k]).name == name,
{
    let names = session_names(sessions);
    lemma_index_of(names, name);
    if exists|k: int| 0 <= k < sessions.len() && (#[trigger] sessions[k]).name == name {
        let k = choose|k: int| 0 <= k < sessions.len() && (#[trigger] sessions[k]).name == name;
        assert(names[k] == name);
    }
}

/// The names that remain are those given that no session has.
pub proof fn lemma_remaining_dead(names: Seq<Seq<char>>, sessions: Seq<SessionView>, name: Seq<char>)
    ensures
        remaining_dead(names, sessions).contains(name) <==> names.contains(name) && !is_live(
            sessions,
            name,
        ),
    decreases names.len(),
{
    if names.len() > 0 {
        let rest = remaining_dead(names.drop_last(), sessions);
        lemma_remaining_dead(names.drop_last(), sessions, name);
        let all = remaining_dead(names, sessions);
        if names.contains(name) {
            let i = choose|i: int| 0 <= i < names.len() && names[i] == name;
            if i < names.len() - 1 {
                assert(names.drop_last()[i] == name);
            }
        }
        if !is_live(sessions, names.last()) {
            if rest.contains(name) {
                let i = choose|i: int| 0 <= i < rest.len() && rest[i] == name;
                assert(all[i] == name);
            }
            if names.last() == name {
                assert(all[all.len() - 1] == name);
            }
        }
    }
}

/// A feed has a dead-session line for a name exactly when the name is among
/// the dead names and no session has it: a dead name that is also the name
/// of a session is left out.
pub proof fn lemma_dead_suppression(
    sessions: Seq<SessionView>,
    dead_names: Seq<Seq<char>>,
    name: Seq<char>,
)
    ensures
        feed_entries(sessions, dead_names).contains(Entry::Dead(name)) <==> dead_names.contains(name)
            && !is_live(sessions, name),
{
    let live = live_entries(sorted_by(sessions, session_order()));
    let remaining = remaining_dead(dead_names, sessions);
    let all = feed_entries(sessions, dead_names);
    lemma_live_entries(sorted_by(sessions, session_order()));
    lemma_remaining_dead(dead_names, sessions, name);
    if all.contains(Entry::Dead(name)) {
        let i = choose|i: int| 0 <= i < all.len() && all[i] == Entry::Dead(name);
    }
    if remaining.contains(name) {
        let j = choose|j: int| 0 <= j < remaining.len() && remaining[j] == name;
        assert(all[live.len() + j + 1] == Entry::Dead(name));
    }
}

/// A key without a tab is what stands before the first tab of its line.
pub proof fn lemma_key_first_field(key: Seq<char>, text: Seq<char>)
    requires
        !has_char(key, '\t'),
    ensures
        first_field(key + seq!['\t'] + text, '\t') == key,
{
    let line = key + seq!['\t'] + text;
    lemma_index_of(key, '\t');
    assert forall|j: int| 0 <= j < key.len() implies line[j] != '\t' by {}
    lemma_index_of_unique(line, '\t', key.len() as int);
}

/// Whatever text follows it on its line, styled or not, the key of an entry
/// is read back by cutting the line at its first tab, provided that the key
/// itself holds no tab.
pub proof fn lemma_key_round_trip(e: Entry, snapshot: SnapshotView, icons: Seq<(Seq<char>, Seq<char>)>)
    requires
        !has_char(entry_key(e), '\t'),
    ensures
        first_field(entry_line(e, snapshot, icons), '\t') == entry_key(e),
{
    lemma_key_first_field(entry_key(e), entry_text(e, snapshot, icons));
}

/// The key of a separator holds no tab.
pub proof fn lemma_separator_key()
    ensures
        !has_char(entry_key(Entry::Separator), '\t'),
{
    lemma_index_of_unique(entry_key(Entry::Separator), '\t', 5);
}

/// A feed without sessions and without dead names has no lines.
pub proof fn lemma_empty_feed(snapshot: SnapshotView, config: ConfigView)
    requires
        snapshot.sessions.len() == 0,
        config.dead_session.names.len() == 0,
    ensures
        feed_lines(snapshot, config).len() == 0,
{
}

/// Whether an entry stands for something that was given: a session, a
/// window of a session, or a dead name.
pub open spec fn entry_from(e: Entry, sessions: Seq<SessionView>, dead_names: Seq<Seq<char>>) -> bool {
    match e {
        Entry::Separator => true,
        Entry::Session(s) => sessions.contains(s),
        Entry::Window(w) => exists|k: int|
            0 <= k < sessions.len() && (#[trigger] sessions[k]).windows.contains(w),
        Entry::Dead(name) => dead_names.contains(name),
    }
}

/// The lines of some of the sessions stand for those sessions and their windows.
proof fn lemma_live_entries_from(sorted: Seq<SessionView>, sessions: Seq<SessionView>)
    requires
        forall|k: int| 0 <= k < sorted.len() ==> sessions.contains(#[trigger] sorted[k]),
    ensures
        forall|i: int|
            0 <= i < live_entries(sorted).len() ==> entry_from(
                #[trigger] live_entries(sorted)[i],
                sessions,
                Seq::empty(),
            ),
    decreases sorted.len(),
{
    broadcast use vstd::seq_lib::group_to_multiset_ensures;

    if sorted.len() > 0 {
        let s = sorted.last();
        let last = session_group(s);
        let windows = sorted_by(s.windows, window_order());
        lemma_session_group(s);
        assert forall|i: int| 0 <= i < last.len() implies entry_from(
            #[trigger] last[i],
            sessions,
            Seq::empty(),
        ) by {
            if i >= 1 {
                let w = windows[i - 1];
                assert(windows.to_multiset().count(w) > 0);
            }
        }
        let all = live_entries(sorted);
        if sorted.len() > 1 {
            let before = live_entries(sorted.drop_last());
            assert forall|k: int| 0 <= k < sorted.drop_last().len() implies sessions.contains(
                #[trigger] sorted.drop_last()[k],
            ) by {}
            lemma_live_entries_from(sorted.drop_last(), sessions);
            assert forall|i: int| 0 <= i < all.len() implies entry_from(
                #[trigger] all[i],
                sessions,
                Seq::empty(),
            ) by {}
        }
    }
}

/// Every line of a feed is a separator, a session of the snapshot, a window
/// of one of its sessions, or one of the dead names.
pub proof fn lemma_feed_entries_from(sessions: Seq<SessionView>, dead_names: Seq<Seq<char>>)
    ensures
        forall|i: int|
            0 <= i < feed_entries(sessions, dead_names).len() ==> entry_from(
                #[trigger] feed_entries(sessions, dead_names)[i],
                sessions,
                dead_names,
            ),
{
    broadcast use vstd::seq_lib::group_to_multiset_ensures;

    let sorted = sorted_by(sessions, session_order());
    let live = live_entries(sorted);
    let remaining = remaining_dead(dead_names, sessions);
    let all = feed_entries(sessions, dead_names);
    lemma_session_order();
    lemma_sorted_by(sessions, session_order());
    assert forall|k: int| 0 <= k < sorted.len() implies sessions.contains(#[trigger] sorted[k]) by {
        assert(sorted.to_multiset().count(sorted[k]) > 0);
    }
    lemma_live_entries_from(sorted, sessions);
    assert forall|i: int| 0 <= i < all.len() implies entry_from(
        #[trigger] all[i],
        sessions,
        dead_names,
    ) by {
        if i >= live.len() {
            let j = i - live.len();
            if j > 0 {
                let name = remaining[j - 1];
                lemma_remaining_dead(dead_names, sessions, name);
            }
        }
    }
}

/// Where no session identifier, window identifier or dead name holds a tab,
/// the key of every line of the feed is read back by cutting the line at its
/// first tab.
pub proof fn lemma_feed_keys(snapshot: SnapshotView, config: ConfigView)
    requires
        plain_ids(snapshot.sessions),
        forall|i: int|
            0 <= i < config.dead_session.names.len() ==> !has_char(
                #[trigger] config.dead_session.names[i],
                '\t',
            ),
    ensures
        feed_lines(snapshot, config).len() == feed_entries(
            snapshot.sessions,
            config.dead_session.names,
        ).len(),
        forall|i: int|
            0 <= i < feed_lines(snapshot, config).len() ==> first_field(
                #[trigger] feed_lines(snapshot, config)[i],
                '\t',
            ) == entry_key(feed_entries(snapshot.sessions, config.dead_session.names)[i]),
{
    let sessions = snapshot.sessions;
    let names = config.dead_session.names;
    let entries = feed_entries(sessions, names);
    let lines = feed_lines(snapshot, config);
    lemma_feed_entries_from(sessions, names);
    assert forall|i: int| 0 <= i < lines.len() implies first_field(#[trigger] lines[i], '\t')
        == entry_key(entries[i]) by {
        let e = entries[i];
        match e {
            Entry::Separator => {
                lemma_separator_key();
            },
            Entry::Dead(name) => {
                lemma_dead_key(name);
            },
            _ => {},
        }
        lemma_key_round_trip(e, snapshot, config.session_icons);
    }
}

/// The key of a dead session holds no tab if its name holds none.
pub proof fn lemma_dead_key(name: Seq<char>)
    requires
        !has_char(name, '\t'),
    ensures
        !has_char(entry_key(Entry::Dead(name)), '\t'),
{
    let key = entry_key(Entry::Dead(name));
    lemma_index_of(name, '\t');
    assert forall|j: int| 0 <= j < key.len() implies key[j] != '\t' by {}
    lemma_index_of_unique(key, '\t', key.len() as int);
}

/// In a well-formed snapshot the line of a window shows the name of the
/// session that holds the window: the mark for an unknown session never shows.
pub proof fn lemma_owner_is_parent(sessions: Seq<SessionView>, k: int, j: int)
    requires
        well_formed(sessions),
        0 <= k < sessions.len(),
        0 <= j < sessions[k].windows.len(),
    ensures
        owner_name(sessions, sessions[k].windows[j].session) == sessions[k].name,
{
    let ids = session_ids(sessions);
    let id = sessions[k].id;
    lemma_index_of(ids, id);
    let at = index_of(ids, id);
    if at != k {
        assert(ids[at] == ids[k]);
    }
}

/// Whether two sequences hold the same sessions, and the first holds no
/// identifier twice.
pub open spec fn same_sessions(a: Seq<SessionView>, b: Seq<SessionView>) -> bool {
    a.to_multiset() == b.to_multiset() && session_ids(a).no_duplicates()
}

/// Sessions of one identifier among the same sessions are one session.
proof fn lemma_same_session(a: Seq<SessionView>, b: Seq<SessionView>, x: SessionView, y: SessionView)
    requires
        same_sessions(a, b),
        a.contains(x) || b.contains(x),
        a.contains(y) || b.contains(y),
        x.id == y.id,
    ensures
        x == y,
        a.contains(x),
        b.contains(x),
{
    broadcast use vstd::seq_lib::group_to_multiset_ensures;

    assert(a.to_multiset().count(y) > 0);
    assert(b.to_multiset().count(x) > 0);
    let i = choose|i: int| 0 <= i < a.len() && a[i] == x;
    let j = choose|j: int| 0 <= j < a.len() && a[j] == y;
    assert(session_ids(a)[i] == x.id);
    assert(session_ids(a)[j] == y.id);
}

/// The same sessions have the same names, and a window finds the same owner
/// among them.
proof fn lemma_same_names(a: Seq<SessionView>, b: Seq<SessionView>, text: Seq<char>)
    requires
        same_sessions(a, b),
    ensures
        is_live(a, text) == is_live(b, text),
        owner_name(a, text) == owner_name(b, text),
{
    lemma_is_live(a, text);
    lemma_is_live(b, text);
    if is_live(a, text) {
        let k = choose|k: int| 0 <= k < a.len() && (#[trigger] a[k]).name == text;
        lemma_same_session(a, b, a[k], a[k]);
    }
    if is_live(b, text) {
        let k = choose|k: int| 0 <= k < b.len() && (#[trigger] b[k]).name == text;
        lemma_same_session(a, b, b[k], b[k]);
    }
    let ids_a = session_ids(a);
    let ids_b = session_ids(b);
    lemma_index_of(ids_a, text);
    lemma_index_of(ids_b, text);
    let i = index_of(ids_a, text);
    let j = index_of(ids_b, text);
    if has_session(a, text) {
        lemma_same_session(a, b, a[i], a[i]);
        let m = choose|m: int| 0 <= m < b.len() && b[m] == a[i];
        assert(ids_b[m] == text);
    }
    if has_session(b, text) {
        lemma_same_session(a, b, b[j], b[j]);
        let m = choose|m: int| 0 <= m < a.len() && a[m] == b[j];
        assert(ids_a[m] == text);
        lemma_same_session(a, b, a[i], b[j]);
    }
}

/// The same sessions leave the same dead names.
proof fn lemma_same_remaining(a: Seq<SessionView>, b: Seq<SessionView>, names: Seq<Seq<char>>)
    requires
        same_sessions(a, b),
    ensures
        remaining_dead(names, a) == remaining_dead(names, b),
    decreases names.len(),
{
    if names.len() > 0 {
        lemma_same_remaining(a, b, names.drop_last());
        lemma_same_names(a, b, names.last());
    }
}

/// The feed depends on which sessions the snapshot holds, not on the order
/// in which it holds them: snapshots of the same sessions, none of which
/// share an identifier, and of the same geometry give the same feed.
pub proof fn lemma_feed_independent(a: SnapshotView, b: SnapshotView, config: ConfigView)
    requires
        same_sessions(a.sessions, b.sessions),
        a.geometry == b.geometry,
    ensures
        feed_lines(a, config) == feed_lines(b, config),
{
    broadcast use vstd::seq_lib::group_to_multiset_ensures;

    let le = session_order();
    let sa = sorted_by(a.sessions, le);
    let sb = sorted_by(b.sessions, le);
    let names = config.dead_session.names;
    let icons = config.session_icons;
    lemma_session_order();
    lemma_sorted_by(a.sessions, le);
    lemma_sorted_by(b.sessions, le);
    assert forall|i: int, j: int|
        0 <= i < sa.len() && 0 <= j < sa.len() && le(#[trigger] sa[i], #[trigger] sa[j]) && le(
            sa[j],
            sa[i],
        ) implies sa[i] == sa[j] by {
        assert(sa.to_multiset().count(sa[i]) > 0);
        assert(sa.to_multiset().count(sa[j]) > 0);
        lemma_text_le_antisymmetric(sa[i].id, sa[j].id);
        lemma_same_session(a.sessions, b.sessions, sa[i], sa[j]);
    }
    lemma_ascending_unique(sa, sb, le);
    lemma_same_remaining(a.sessions, b.sessions, names);
    let entries = feed_entries(a.sessions, names);
    assert forall|i: int| 0 <= i < entries.len() implies entry_line(entries[i], a, icons)
        == entry_line(entries[i], b, icons) by {
        match entries[i] {
            Entry::Window(w) => {
                lemma_same_names(a.sessions, b.sessions, w.session);
            },
            _ => {},
        }
    }
}

/// The number of separators in a feed of so many sessions and dead
/// sessions: one between each session and the next, and one before the dead.
pub open spec fn separators(sessions: nat, dead: nat) -> nat {
    (if sessions > 0 {
        (sessions - 1) as nat
    } else {
        0
    }) + (if dead > 0 {
        1nat
    } else {
        0
    })
}

/// Sorting sessions leaves the number of their windows as it is.
proof fn lemma_sorted_window_total(sessions: Seq<SessionView>)
    ensures
        sorted_by(sessions, session_order()).len() == sessions.len(),
        window_total(sorted_by(sessions, session_order())) == window_total(sessions),
    decreases sessions.len(),
{
    let le = session_order();
    if sessions.len() > 0 {
        let x = sessions.last();
        let rest = sorted_by(sessions.drop_last(), le);
        let at = slot(rest, x, le);
        lemma_session_order();
        lemma_sorted_by(sessions.drop_last(), le);
        lemma_slot(rest, x, le);
        lemma_sorted_window_total(sessions.drop_last());
        lemma_sum_insert(window_counts(rest), at, x.windows.len());
        lemma_sum_push(window_counts(sessions.drop_last()), x.windows.len());
        assert(window_counts(rest.insert(at, x)) =~= window_counts(rest).insert(at, x.windows.len()));
        assert(window_counts(sessions) =~= window_counts(sessions.drop_last()).push(
            x.windows.len(),
        ));
    } else {
        assert(window_counts(sessions) =~= window_counts(sorted_by(sessions, le)));
    }
}

/// The lines of sessions are a line for each session, a line for each
/// window, and a separator between each session and the next.
proof fn lemma_live_height(sessions: Seq<SessionView>)
    ensures
        live_entries(sessions).len() == sessions.len() + window_total(sessions) + separators(
            sessions.len(),
            0,
        ),
    decreases sessions.len(),
{
    if sessions.len() > 0 {
        lemma_session_group(sessions.last());
        lemma_live_height(sessions.drop_last());
        lemma_sum_push(window_counts(sessions.drop_last()), sessions.last().windows.len());
        assert(window_counts(sessions) =~= window_counts(sessions.drop_last()).push(
            sessions.last().windows.len(),
        ));
        if sessions.len() == 1 {
            assert(sessions[0] == sessions.last());
            assert(window_counts(sessions.drop_last()) =~= Seq::<nat>::empty());
        }
    } else {
        assert(window_counts(sessions) =~= Seq::<nat>::empty());
    }
}

/// The height of a feed is the number of sessions, of their windows, of the
/// dead sessions that are shown, and of the separators between them.
pub proof fn lemma_feed_height(sessions: Seq<SessionView>, dead_names: Seq<Seq<char>>)
    ensures
        feed_entries(sessions, dead_names).len() == sessions.len() + window_total(sessions)
            + remaining_dead(dead_names, sessions).len() + separators(
            sessions.len(),
            remaining_dead(dead_names, sessions).len(),
        ),
{
    lemma_sorted_window_total(sessions);
    lemma_live_height(sorted_by(sessions, session_order()));
}

} // verus!
