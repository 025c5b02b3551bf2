//! What holds of every snapshot that is built from records.

use vstd::prelude::*;
use crate::measure::{lemma_widest, widest};
use crate::text::{has_char, index_of, lemma_index_of, lemma_index_of_push, lemma_split_on};
use crate::tmux::snapshot::{
    graph_of, has_pane, has_session, has_window, holds_window, lemma_with_record, lemma_with_window,
    pane_ids, parse_record, parse_records, session_ids, session_names, snapshot_of,
    window_ids, window_total, with_pane, with_record, with_window, RecordView,
    SessionView, WindowView,
};

verus! {

/// Pane identifiers are unique within the window, and each pane names it.
pub open spec fn window_well_formed(w: WindowView) -> bool {
    &&& pane_ids(w.panes).no_duplicates()
    &&& forall|k: int| 0 <= k < w.panes.len() ==> (#[trigger] w.panes[k]).window == w.id
}

/// Window identifiers are unique within the session, each window names it,
/// and each window is well formed.
pub open spec fn session_well_formed(s: SessionView) -> bool {
    &&& window_ids(s.windows).no_duplicates()
    &&& forall|k: int|
        0 <= k < s.windows.len() ==> (#[trigger] s.windows[k]).session == s.id && window_well_formed(
            s.windows[k],
        )
}

/// Session identifiers are unique, and each session is well formed.
pub open spec fn well_formed(sessions: Seq<SessionView>) -> bool {
    &&& session_ids(sessions).no_duplicates()
    &&& forall|k: int| 0 <= k < sessions.len() ==> session_well_formed(#[trigger] sessions[k])
}

/// Appending an identifier that is not there keeps identifiers unique.
proof fn lemma_push_new_id(ids: Seq<Seq<char>>, id: Seq<char>)
    requires
        ids.no_duplicates(),
        index_of(ids, id) >= ids.len(),
    ensures
        ids.push(id).no_duplicates(),
{
    lemma_index_of(ids, id);
}

/// One more record for a window keeps the window well formed.
proof fn lemma_with_pane_well_formed(w: WindowView, r: RecordView)
    requires
        window_well_formed(w),
        w.id == r.window_id,
    ensures
        window_well_formed(WindowView { panes: with_pane(w.panes, r), ..w }),
{
    let panes = with_pane(w.panes, r);
    if !has_pane(w.panes, r.pane_id) {
        assert(pane_ids(panes) =~= pane_ids(w.panes).push(r.pane_id));
        lemma_push_new_id(pane_ids(w.panes), r.pane_id);
        assert forall|k: int| 0 <= k < panes.len() implies (#[trigger] panes[k]).window == w.id by {}
    }
}

/// One more record for a session keeps the session well formed.
proof fn lemma_with_window_well_formed(s: SessionView, r: RecordView)
    requires
        session_well_formed(s),
        s.id == r.session_id,
    ensures
        session_well_formed(SessionView { windows: with_window(s.windows, r), ..s }),
{
    let windows = with_window(s.windows, r);
    let i = index_of(window_ids(s.windows), r.window_id);
    lemma_index_of(window_ids(s.windows), r.window_id);
    lemma_with_window(s.windows, r);
    if has_window(s.windows, r.window_id) {
        lemma_with_pane_well_formed(s.windows[i], r);
        assert forall|k: int| 0 <= k < windows.len() implies (#[trigger] windows[k]).session == s.id
            && window_well_formed(windows[k]) by {}
    } else {
        lemma_push_new_id(window_ids(s.windows), r.window_id);
        let fresh = WindowView {
            id: r.window_id,
            index: r.window_index,
            name: r.window_name,
            session: r.session_id,
            panes: Seq::empty(),
        };
        lemma_with_pane_well_formed(fresh, r);
        assert forall|k: int| 0 <= k < windows.len() implies (#[trigger] windows[k]).session == s.id
            && window_well_formed(windows[k]) by {}
    }
}

/// One more record keeps a graph well formed.
pub proof fn lemma_with_record_well_formed(sessions: Seq<SessionView>, r: RecordView)
    requires
        well_formed(sessions),
    ensures
        well_formed(with_record(sessions, r)),
{
    let after = with_record(sessions, r);
    let i = index_of(session_ids(sessions), r.session_id);
    lemma_index_of(session_ids(sessions), r.session_id);
    lemma_with_record(sessions, r);
    if has_session(sessions, r.session_id) {
        lemma_with_window_well_formed(sessions[i], r);
        assert forall|k: int| 0 <= k < after.len() implies session_well_formed(#[trigger] after[k]) by {}
    } else {
        lemma_push_new_id(session_ids(sessions), r.session_id);
        let fresh = SessionView { id: r.session_id, name: r.session_name, windows: Seq::empty() };
        lemma_with_window_well_formed(fresh, r);
        assert forall|k: int| 0 <= k < after.len() implies session_well_formed(#[trigger] after[k]) by {}
    }
}

/// Whatever the records, no identifier occurs twice among the sessions, among
/// the windows of one session or among the panes of one window, and every
/// window and pane names the parent that holds it.
pub proof fn lemma_graph_well_formed(records: Seq<RecordView>)
    ensures
        well_formed(graph_of(records)),
    decreases records.len(),
{
    if records.len() > 0 {
        lemma_graph_well_formed(records.drop_last());
        lemma_with_record_well_formed(graph_of(records.drop_last()), records.last());
    }
}

/// The session and window identifiers of a record.
pub open spec fn window_key(r: RecordView) -> (Seq<char>, Seq<char>) {
    (r.session_id, r.window_id)
}

/// The distinct pairs of session and window identifier that occur in the records.
pub open spec fn window_keys(records: Seq<RecordView>) -> Set<(Seq<char>, Seq<char>)> {
    Set::new(
        |key: (Seq<char>, Seq<char>)|
            exists|i: int| 0 <= i < records.len() && #[trigger] window_key(records[i]) == key,
    )
}

/// The session identifier of each record.
pub open spec fn record_session_ids(records: Seq<RecordView>) -> Seq<Seq<char>> {
    records.map_values(|r: RecordView| r.session_id)
}

/// After one more record the graph holds the sessions it held, and the record's.
pub proof fn lemma_has_session_step(sessions: Seq<SessionView>, r: RecordView, id: Seq<char>)
    ensures
        has_session(with_record(sessions, r), id) == (has_session(sessions, id) || id
            == r.session_id),
{
    lemma_with_record(sessions, r);
    lemma_index_of(session_ids(sessions), r.session_id);
    lemma_index_of(session_ids(sessions), id);
    lemma_index_of_push(session_ids(sessions), r.session_id, id);
}

/// After one more record the graph holds the windows it held, and the record's.
pub proof fn lemma_holds_window_step(
    sessions: Seq<SessionView>,
    r: RecordView,
    session: Seq<char>,
    window: Seq<char>,
)
    ensures
        holds_window(with_record(sessions, r), session, window) == (holds_window(
            sessions,
            session,
            window,
        ) || (session == r.session_id && window == r.window_id)),
{
    let ids = session_ids(sessions);
    let i = index_of(ids, r.session_id);
    lemma_with_record(sessions, r);
    lemma_has_session_step(sessions, r, session);
    lemma_index_of(ids, r.session_id);
    lemma_index_of(ids, session);
    lemma_index_of_push(ids, r.session_id, session);
    if has_session(sessions, r.session_id) {
        if has_session(sessions, session) {
            if session == r.session_id {
                let windows = sessions[i].windows;
                lemma_with_window(windows, r);
                lemma_index_of(window_ids(windows), window);
                lemma_index_of(window_ids(windows), r.window_id);
                lemma_index_of_push(window_ids(windows), r.window_id, window);
            }
        }
    } else {
        if !has_session(sessions, session) && session == r.session_id {
            let none = Seq::<WindowView>::empty();
            lemma_with_window(none, r);
            lemma_index_of(window_ids(none), window);
            lemma_index_of(window_ids(none), r.window_id);
            lemma_index_of_push(window_ids(none), r.window_id, window);
        }
    }
}

/// The graph holds exactly the windows that the records name, and the number
/// of its windows is the number of distinct pairs of session and window
/// identifier among the records, however often a pair is repeated.
pub proof fn lemma_window_count(records: Seq<RecordView>)
    ensures
        window_keys(records).finite(),
        window_total(graph_of(records)) == window_keys(records).len(),
        forall|session: Seq<char>, window: Seq<char>| #[trigger]
            holds_window(graph_of(records), session, window) <==> window_keys(records).contains(
                (session, window),
            ),
    decreases records.len(),
{
    if records.len() == 0 {
        assert(window_keys(records) =~= Set::<(Seq<char>, Seq<char>)>::empty());
    } else {
        let before = records.drop_last();
        let r = records.last();
        let graph = graph_of(before);
        lemma_window_count(before);
        lemma_with_record(graph, r);
        assert forall|key: (Seq<char>, Seq<char>)|
            window_keys(records).contains(key) <==> window_keys(before).insert(
                window_key(r),
            ).contains(key) by {
            if window_keys(records).contains(key) {
                let i = choose|i: int| 0 <= i < records.len() && #[trigger] window_key(records[i]) == key;
                if i < before.len() {
                    assert(window_key(before[i]) == key);
                }
            }
        }
        assert(window_keys(records) =~= window_keys(before).insert(window_key(r)));
        assert forall|session: Seq<char>, window: Seq<char>| #[trigger]
            holds_window(graph_of(records), session, window) <==> window_keys(records).contains(
                (session, window),
            ) by {
            lemma_holds_window_step(graph, r, session, window);
        }
    }
}

/// The graph holds a session for exactly the identifiers that the records
/// name, and each session has the name that the first record with its
/// identifier gives it.
pub proof fn lemma_sessions_first_seen(records: Seq<RecordView>)
    ensures
        forall|id: Seq<char>| #[trigger]
            has_session(graph_of(records), id) <==> index_of(record_session_ids(records), id)
                < records.len(),
        forall|k: int|
            0 <= k < graph_of(records).len() ==> {
                let s = #[trigger] graph_of(records)[k];
                let first = index_of(record_session_ids(records), s.id);
                0 <= first < records.len() && s.name == records[first].session_name
            },
    decreases records.len(),
{
    if records.len() > 0 {
        let before = records.drop_last();
        let r = records.last();
        let graph = graph_of(before);
        let after = graph_of(records);
        let seen = record_session_ids(before);
        lemma_sessions_first_seen(before);
        lemma_with_record(graph, r);
        lemma_index_of(session_ids(graph), r.session_id);
        assert(record_session_ids(records) =~= seen.push(r.session_id));
        assert forall|id: Seq<char>| #[trigger]
            has_session(after, id) <==> index_of(record_session_ids(records), id)
                < records.len() by {
            lemma_has_session_step(graph, r, id);
            lemma_index_of_push(seen, r.session_id, id);
            lemma_index_of(seen, id);
        }
        assert forall|k: int| 0 <= k < after.len() implies {
            let s = #[trigger] after[k];
            let first = index_of(record_session_ids(records), s.id);
            0 <= first < records.len() && s.name == records[first].session_name
        } by {
            let s = after[k];
            lemma_index_of_push(seen, r.session_id, s.id);
            lemma_index_of(seen, s.id);
        }
    }
}

/// The session count is the number of sessions held, and the window count is
/// the number of distinct pairs of session and window identifier among the
/// records, not the number of records.
pub proof fn lemma_counts(records: Seq<RecordView>, width: nat, height: nat)
    ensures
        snapshot_of(records, width, height).counts.session == snapshot_of(
            records,
            width,
            height,
        ).sessions.len(),
        window_keys(records).finite(),
        snapshot_of(records, width, height).counts.window == window_keys(records).len(),
        snapshot_of(records, width, height).counts.pane == records.len(),
{
    lemma_window_count(records);
}

/// The session-name width is the length of the longest session name, where a
/// session has the name that the first record with its identifier gives it:
/// a name that only later records of the same session carry counts for nothing.
pub proof fn lemma_session_name_width(records: Seq<RecordView>, width: nat, height: nat)
    ensures
        ({
            let snapshot = snapshot_of(records, width, height);
            let w = snapshot.geometry.session_name_max_width;
            &&& forall|k: int|
                0 <= k < snapshot.sessions.len() ==> {
                    let s = #[trigger] snapshot.sessions[k];
                    let first = index_of(record_session_ids(records), s.id);
                    0 <= first < records.len() && s.name == records[first].session_name
                        && s.name.len() <= w
                }
            &&& snapshot.sessions.len() > 0 ==> exists|k: int|
                0 <= k < snapshot.sessions.len() && (#[trigger] snapshot.sessions[k]).name.len() == w
            &&& snapshot.sessions.len() == 0 ==> w == 0
        }),
{
    let graph = graph_of(records);
    let names = session_names(graph);
    lemma_sessions_first_seen(records);
    lemma_widest(names);
    assert forall|k: int| 0 <= k < graph.len() implies (#[trigger] graph[k]).name.len() <= widest(
        names,
    ) by {
        assert(names[k] == graph[k].name);
    }
}

/// Whether neither identifier of the record holds a tab.
pub open spec fn plain_record(r: RecordView) -> bool {
    !has_char(r.session_id, '\t') && !has_char(r.window_id, '\t')
}

/// Whether no window identifier of the session holds a tab.
pub open spec fn plain_windows(s: SessionView) -> bool {
    forall|j: int| 0 <= j < s.windows.len() ==> !has_char((#[trigger] s.windows[j]).id, '\t')
}

/// Whether no session or window identifier holds a tab.
pub open spec fn plain_ids(sessions: Seq<SessionView>) -> bool {
    forall|k: int|
        0 <= k < sessions.len() ==> !has_char((#[trigger] sessions[k]).id, '\t') && plain_windows(
            sessions[k],
        )
}

/// A record of plain identifiers keeps the identifiers of a graph plain.
pub proof fn lemma_with_record_plain(sessions: Seq<SessionView>, r: RecordView)
    requires
        plain_ids(sessions),
        plain_record(r),
    ensures
        plain_ids(with_record(sessions, r)),
{
    let after = with_record(sessions, r);
    let i = index_of(session_ids(sessions), r.session_id);
    lemma_index_of(session_ids(sessions), r.session_id);
    assert forall|k: int| 0 <= k < after.len() implies !has_char((#[trigger] after[k]).id, '\t')
        && plain_windows(after[k]) by {
        let before = if k < sessions.len() {
            sessions[k].windows
        } else {
            Seq::<WindowView>::empty()
        };
        if k == i {
            let windows = with_window(before, r);
            lemma_index_of(window_ids(before), r.window_id);
            assert forall|j: int| 0 <= j < windows.len() implies !has_char(
                (#[trigger] windows[j]).id,
                '\t',
            ) by {}
        }
    }
}

/// Records of plain identifiers give a graph of plain identifiers.
pub proof fn lemma_graph_plain(records: Seq<RecordView>)
    requires
        forall|i: int| 0 <= i < records.len() ==> plain_record(#[trigger] records[i]),
    ensures
        plain_ids(graph_of(records)),
    decreases records.len(),
{
    if records.len() > 0 {
        let before = records.drop_last();
        assert forall|i: int| 0 <= i < before.len() implies plain_record(#[trigger] before[i]) by {}
        lemma_graph_plain(before);
        lemma_with_record_plain(graph_of(before), records.last());
    }
}

/// The identifiers that a line spells hold no tab.
pub proof fn lemma_parsed_record_plain(line: Seq<char>)
    requires
        parse_record(line) is Ok,
    ensures
        plain_record(parse_record(line)->Ok_0),
{
    lemma_split_on(line, '\t');
}

/// The snapshot of a list of well-formed lines has no tab in any session or
/// window identifier.
pub proof fn lemma_parsed_graph_plain(lines: Seq<Seq<char>>)
    requires
        forall|i: int| 0 <= i < lines.len() ==> parse_record(#[trigger] lines[i]) is Ok,
    ensures
        plain_ids(graph_of(parse_records(lines))),
{
    let records = parse_records(lines);
    assert forall|i: int| 0 <= i < records.len() implies plain_record(#[trigger] records[i]) by {
        lemma_parsed_record_plain(lines[i]);
    }
    lemma_graph_plain(records);
}

} // verus!
