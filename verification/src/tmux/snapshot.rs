//! A point-in-time copy of the sessions, windows and panes of a terminal
//! multiplexer, built in one pass from its flat list of panes.
//!
//! The list repeats the attributes of a session and of a window once for each
//! pane. The builder keeps an entity the first time its identifier is seen and
//! never touches it again. Entities are held in the order in which they were
//! first seen; a child names its parent by identifier.

use vstd::prelude::*;
use vstd::string::*;
use crate::measure::{larger, lengths, max_of, sum, widest, width_of};
use crate::measure::{lemma_max_of, lemma_max_push, lemma_max_update, lemma_sum_push, lemma_sum_update, lemma_widest_push};
use crate::number::{decimal, parse_u32, parse_unsigned, push_decimal};
use crate::text::{index_of, lemma_index_of, lemma_index_of_unique, split, split_on, texts};
use crate::tmux::invariants::{lemma_graph_well_formed, lemma_parsed_graph_plain, plain_ids, well_formed};

verus! {

/// How many sessions, windows and panes a snapshot holds.
#[derive(Debug)]
pub struct Counts {
    pub session: usize,
    pub window: usize,
    pub pane: usize,
}

/// The counts as natural numbers.
pub struct CountsView {
    pub session: nat,
    pub window: nat,
    pub pane: nat,
}

impl View for Counts {
    type V = CountsView;

    open spec fn view(&self) -> CountsView {
        CountsView { session: self.session as nat, window: self.window as nat, pane: self.pane as nat }
    }
}

impl Counts {
    /// All counts at zero.
    pub fn new() -> (c: Counts)
        ensures
            c@ == (CountsView { session: 0, window: 0, pane: 0 }),
    {
        Counts { session: 0, window: 0, pane: 0 }
    }
}

/// The widest names of a snapshot, and the size of the terminal it was taken in.
#[derive(Debug)]
pub struct Geometry {
    pub session_name_max_width: usize,
    pub window_name_max_width: usize,
    pub pane_title_max_width: usize,
    pub window_width: usize,
    pub window_height: usize,
}

/// The geometry as natural numbers.
pub struct GeometryView {
    pub session_name_max_width: nat,
    pub window_name_max_width: nat,
    pub pane_title_max_width: nat,
    pub window_width: nat,
    pub window_height: nat,
}

impl View for Geometry {
    type V = GeometryView;

    open spec fn view(&self) -> GeometryView {
        GeometryView {
            session_name_max_width: self.session_name_max_width as nat,
            window_name_max_width: self.window_name_max_width as nat,
            pane_title_max_width: self.pane_title_max_width as nat,
            window_width: self.window_width as nat,
            window_height: self.window_height as nat,
        }
    }
}

impl Geometry {
    /// All widths and both terminal dimensions at zero.
    pub fn new() -> (g: Geometry)
        ensures
            g@ == (GeometryView {
                session_name_max_width: 0,
                window_name_max_width: 0,
                pane_title_max_width: 0,
                window_width: 0,
                window_height: 0,
            }),
    {
        Geometry {
            session_name_max_width: 0,
            window_name_max_width: 0,
            pane_title_max_width: 0,
            window_width: 0,
            window_height: 0,
        }
    }
}

/// A pane. `window` is the identifier of the window that holds it.
#[derive(Debug)]
pub struct Pane {
    pub id: String,
    pub index: u32,
    pub title: String,
    pub window: String,
}

/// A pane as texts and numbers.
pub struct PaneView {
    pub id: Seq<char>,
    pub index: u32,
    pub title: Seq<char>,
    pub window: Seq<char>,
}

impl View for Pane {
    type V = PaneView;

    open spec fn view(&self) -> PaneView {
        PaneView { id: self.id@, index: self.index, title: self.title@, window: self.window@ }
    }
}

/// A window and its panes. `session` is the identifier of the session that holds it.
#[derive(Debug)]
pub struct Window {
    pub id: String,
    pub index: u32,
    pub name: String,
    pub session: String,
    pub panes: Vec<Pane>,
}

/// A window as texts and numbers, with the views of its panes.
pub struct WindowView {
    pub id: Seq<char>,
    pub index: u32,
    pub name: Seq<char>,
    pub session: Seq<char>,
    pub panes: Seq<PaneView>,
}

impl View for Window {
    type V = WindowView;

    open spec fn view(&self) -> WindowView {
        WindowView {
            id: self.id@,
            index: self.index,
            name: self.name@,
            session: self.session@,
            panes: pane_views(self.panes@),
        }
    }
}

/// A session and its windows.
#[derive(Debug)]
pub struct Session {
    pub id: String,
    pub name: String,
    pub windows: Vec<Window>,
}

/// A session as texts, with the views of its windows.
pub struct SessionView {
    pub id: Seq<char>,
    pub name: Seq<char>,
    pub windows: Seq<WindowView>,
}

impl View for Session {
    type V = SessionView;

    open spec fn view(&self) -> SessionView {
        SessionView { id: self.id@, name: self.name@, windows: window_views(self.windows@) }
    }
}

/// The sessions of a multiplexer with their windows and panes, the totals,
/// and the widths that a layout needs.
#[derive(Debug)]
pub struct Snapshot {
    pub sessions: Vec<Session>,
    pub counts: Counts,
    pub geometry: Geometry,
}

/// A snapshot as the views of its sessions, its counts and its geometry.
pub struct SnapshotView {
    pub sessions: Seq<SessionView>,
    pub counts: CountsView,
    pub geometry: GeometryView,
}

impl View for Snapshot {
    type V = SnapshotView;

    open spec fn view(&self) -> SnapshotView {
        SnapshotView {
            sessions: session_views(self.sessions@),
            counts: self.counts@,
            geometry: self.geometry@,
        }
    }
}

/// The views of panes.
pub open spec fn pane_views(panes: Seq<Pane>) -> Seq<PaneView> {
    panes.map_values(|p: Pane| p@)
}

/// The views of windows.
pub open spec fn window_views(windows: Seq<Window>) -> Seq<WindowView> {
    windows.map_values(|w: Window| w@)
}

/// The views of sessions.
pub open spec fn session_views(sessions: Seq<Session>) -> Seq<SessionView> {
    sessions.map_values(|s: Session| s@)
}

/// One line of the multiplexer's list: a pane with the attributes of its
/// window and of its session.
#[derive(Debug)]
pub struct RawRecord {
    pub session_id: String,
    pub session_name: String,
    pub window_id: String,
    pub window_index: u32,
    pub window_name: String,
    pub pane_id: String,
    pub pane_index: u32,
    pub pane_title: String,
}

/// A record as texts and numbers.
pub struct RecordView {
    pub session_id: Seq<char>,
    pub session_name: Seq<char>,
    pub window_id: Seq<char>,
    pub window_index: u32,
    pub window_name: Seq<char>,
    pub pane_id: Seq<char>,
    pub pane_index: u32,
    pub pane_title: Seq<char>,
}

impl View for RawRecord {
    type V = RecordView;

    open spec fn view(&self) -> RecordView {
        RecordView {
            session_id: self.session_id@,
            session_name: self.session_name@,
            window_id: self.window_id@,
            window_index: self.window_index,
            window_name: self.window_name@,
            pane_id: self.pane_id@,
            pane_index: self.pane_index,
            pane_title: self.pane_title@,
        }
    }
}

/// The views of records.
pub open spec fn record_views(records: Seq<RawRecord>) -> Seq<RecordView> {
    records.map_values(|r: RawRecord| r@)
}

/// The identifier of each pane.
pub open spec fn pane_ids(panes: Seq<PaneView>) -> Seq<Seq<char>> {
    panes.map_values(|p: PaneView| p.id)
}

/// The identifier of each window.
pub open spec fn window_ids(windows: Seq<WindowView>) -> Seq<Seq<char>> {
    windows.map_values(|w: WindowView| w.id)
}

/// The name of each window.
pub open spec fn window_names(windows: Seq<WindowView>) -> Seq<Seq<char>> {
    windows.map_values(|w: WindowView| w.name)
}

/// The identifier of each session.
pub open spec fn session_ids(sessions: Seq<SessionView>) -> Seq<Seq<char>> {
    sessions.map_values(|s: SessionView| s.id)
}

/// The name of each session.
pub open spec fn session_names(sessions: Seq<SessionView>) -> Seq<Seq<char>> {
    sessions.map_values(|s: SessionView| s.name)
}

/// The pane title of each record.
pub open spec fn pane_titles(records: Seq<RecordView>) -> Seq<Seq<char>> {
    records.map_values(|r: RecordView| r.pane_title)
}

/// The pane that a record describes.
pub open spec fn pane_of(r: RecordView) -> PaneView {
    PaneView { id: r.pane_id, index: r.pane_index, title: r.pane_title, window: r.window_id }
}

/// The window that a record describes, still without panes.
pub open spec fn window_of(r: RecordView) -> WindowView {
    WindowView {
        id: r.window_id,
        index: r.window_index,
        name: r.window_name,
        session: r.session_id,
        panes: Seq::empty(),
    }
}

/// The session that a record describes, still without windows.
pub open spec fn session_of(r: RecordView) -> SessionView {
    SessionView { id: r.session_id, name: r.session_name, windows: Seq::empty() }
}

/// Whether a pane with this identifier is among `panes`.
pub open spec fn has_pane(panes: Seq<PaneView>, id: Seq<char>) -> bool {
    index_of(pane_ids(panes), id) < panes.len()
}

/// Whether a window with this identifier is among `windows`.
pub open spec fn has_window(windows: Seq<WindowView>, id: Seq<char>) -> bool {
    index_of(window_ids(windows), id) < windows.len()
}

/// Whether a session with this identifier is among `sessions`.
pub open spec fn has_session(sessions: Seq<SessionView>, id: Seq<char>) -> bool {
    index_of(session_ids(sessions), id) < sessions.len()
}

/// Whether the graph holds the window `window` in the session `session`.
pub open spec fn holds_window(sessions: Seq<SessionView>, session: Seq<char>, window: Seq<char>) -> bool {
    has_session(sessions, session) && has_window(
        sessions[index_of(session_ids(sessions), session)].windows,
        window,
    )
}

/// The panes of a window after a record for that window: the record's pane
/// comes last if its identifier is new, and is dropped otherwise.
pub open spec fn with_pane(panes: Seq<PaneView>, r: RecordView) -> Seq<PaneView> {
    if has_pane(panes, r.pane_id) {
        panes
    } else {
        panes.push(pane_of(r))
    }
}

/// The windows of a session after a record for that session: the record's
/// window comes last if its identifier is new; either way the window with
/// that identifier takes the record's pane.
pub open spec fn with_window(windows: Seq<WindowView>, r: RecordView) -> Seq<WindowView> {
    let i = index_of(window_ids(windows), r.window_id);
    if has_window(windows, r.window_id) {
        windows.update(i, WindowView { panes: with_pane(windows[i].panes, r), ..windows[i] })
    } else {
        windows.push(WindowView { panes: with_pane(Seq::empty(), r), ..window_of(r) })
    }
}

/// The sessions after one more record: the record's session comes last if
/// its identifier is new; either way the session with that identifier takes
/// the record's window and pane.
pub open spec fn with_record(sessions: Seq<SessionView>, r: RecordView) -> Seq<SessionView> {
    let i = index_of(session_ids(sessions), r.session_id);
    if has_session(sessions, r.session_id) {
        sessions.update(i, SessionView { windows: with_window(sessions[i].windows, r), ..sessions[i] })
    } else {
        sessions.push(SessionView { windows: with_window(Seq::empty(), r), ..session_of(r) })
    }
}

/// The sessions that a list of records describes.
pub open spec fn graph_of(records: Seq<RecordView>) -> Seq<SessionView>
    decreases records.len(),
{
    if records.len() == 0 {
        Seq::empty()
    } else {
        with_record(graph_of(records.drop_last()), records.last())
    }
}

/// The number of windows of each session.
pub open spec fn window_counts(sessions: Seq<SessionView>) -> Seq<nat> {
    sessions.map_values(|s: SessionView| s.windows.len())
}

/// The number of windows in all sessions together.
pub open spec fn window_total(sessions: Seq<SessionView>) -> nat {
    sum(window_counts(sessions))
}

/// For each session the length of its longest window name.
pub open spec fn window_name_widths(sessions: Seq<SessionView>) -> Seq<nat> {
    sessions.map_values(|s: SessionView| widest(window_names(s.windows)))
}

/// The length of the longest window name in all sessions.
pub open spec fn widest_window_name(sessions: Seq<SessionView>) -> nat {
    max_of(window_name_widths(sessions))
}

/// The snapshot that a list of records describes, for a terminal of the given size.
pub open spec fn snapshot_of(records: Seq<RecordView>, width: nat, height: nat) -> SnapshotView {
    let graph = graph_of(records);
    SnapshotView {
        sessions: graph,
        counts: CountsView {
            session: graph.len(),
            window: window_total(graph),
            pane: records.len(),
        },
        geometry: GeometryView {
            session_name_max_width: widest(session_names(graph)),
            window_name_max_width: widest_window_name(graph),
            pane_title_max_width: widest(pane_titles(records)),
            window_width: width,
            window_height: height,
        },
    }
}

/// Position of the pane with this identifier, or the number of panes.
fn find_pane(panes: &Vec<Pane>, id: &String) -> (at: usize)
    ensures
        at == index_of(pane_ids(pane_views(panes@)), id@),
        at <= panes@.len(),
{
    let n: usize = panes.len();
    let ghost ids = pane_ids(pane_views(panes@));
    let mut at: usize = 0;
    while at < n && !(panes[at].id == *id)
        invariant
            at <= n,
            n == panes@.len(),
            ids == pane_ids(pane_views(panes@)),
            forall|j: int| 0 <= j < at ==> ids[j] != id@,
        decreases n - at,
    {
        at += 1;
    }
    proof {
        lemma_index_of_unique(ids, id@, at as int);
    }
    at
}

/// Position of the window with this identifier, or the number of windows.
fn find_window(windows: &Vec<Window>, id: &String) -> (at: usize)
    ensures
        at == index_of(window_ids(window_views(windows@)), id@),
        at <= windows@.len(),
{
    let n: usize = windows.len();
    let ghost ids = window_ids(window_views(windows@));
    let mut at: usize = 0;
    while at < n && !(windows[at].id == *id)
        invariant
            at <= n,
            n == windows@.len(),
            ids == window_ids(window_views(windows@)),
            forall|j: int| 0 <= j < at ==> ids[j] != id@,
        decreases n - at,
    {
        at += 1;
    }
    proof {
        lemma_index_of_unique(ids, id@, at as int);
    }
    at
}

/// Position of the session with this identifier, or the number of sessions.
fn find_session(sessions: &Vec<Session>, id: &String) -> (at: usize)
    ensures
        at == index_of(session_ids(session_views(sessions@)), id@),
        at <= sessions@.len(),
{
    let n: usize = sessions.len();
    let ghost ids = session_ids(session_views(sessions@));
    let mut at: usize = 0;
    while at < n && !(sessions[at].id == *id)
        invariant
            at <= n,
            n == sessions@.len(),
            ids == session_ids(session_views(sessions@)),
            forall|j: int| 0 <= j < at ==> ids[j] != id@,
        decreases n - at,
    {
        at += 1;
    }
    proof {
        lemma_index_of_unique(ids, id@, at as int);
    }
    at
}

/// Adds the record's pane unless the window has a pane of its identifier.
fn add_pane(panes: &mut Vec<Pane>, r: &RawRecord)
    ensures
        pane_views(final(panes)@) == with_pane(pane_views(old(panes)@), r@),
{
    let at: usize = find_pane(panes, &r.pane_id);
    if at == panes.len() {
        let pane = Pane {
            id: r.pane_id.clone(),
            index: r.pane_index,
            title: r.pane_title.clone(),
            window: r.window_id.clone(),
        };
        panes.push(pane);
    }
}

/// Adds the record's window unless the session has one of its identifier,
/// and gives the record's pane to the window. Returns whether the window was new.
fn add_window(windows: &mut Vec<Window>, r: &RawRecord) -> (added: bool)
    ensures
        window_views(final(windows)@) == with_window(window_views(old(windows)@), r@),
        added == !has_window(window_views(old(windows)@), r@.window_id),
{
    let at: usize = find_window(windows, &r.window_id);
    if at == windows.len() {
        let mut window = Window {
            id: r.window_id.clone(),
            index: r.window_index,
            name: r.window_name.clone(),
            session: r.session_id.clone(),
            panes: Vec::new(),
        };
        assert(pane_views(window.panes@) == Seq::<PaneView>::empty());
        add_pane(&mut window.panes, r);
        windows.push(window);
        true
    } else {
        add_pane(&mut windows[at].panes, r);
        false
    }
}

/// Adds the record's session unless there is one of its identifier, and
/// gives the record's window and pane to the session. Returns whether the
/// session was new, and whether the window was.
fn add_record(sessions: &mut Vec<Session>, r: &RawRecord) -> (added: (bool, bool))
    ensures
        session_views(final(sessions)@) == with_record(session_views(old(sessions)@), r@),
        added.0 == !has_session(session_views(old(sessions)@), r@.session_id),
        added.1 == !holds_window(session_views(old(sessions)@), r@.session_id, r@.window_id),
{
    let at: usize = find_session(sessions, &r.session_id);
    if at == sessions.len() {
        let mut session = Session {
            id: r.session_id.clone(),
            name: r.session_name.clone(),
            windows: Vec::new(),
        };
        assert(window_views(session.windows@) == Seq::<WindowView>::empty());
        add_window(&mut session.windows, r);
        sessions.push(session);
        (true, true)
    } else {
        let added: bool = add_window(&mut sessions[at].windows, r);
        (false, added)
    }
}

/// What a record does to the windows of its session: the names grow by the
/// record's window name exactly when its window is new.
pub proof fn lemma_with_window(windows: Seq<WindowView>, r: RecordView)
    ensures
        has_window(windows, r.window_id) ==> window_names(with_window(windows, r)) == window_names(
            windows,
        ) && window_ids(with_window(windows, r)) == window_ids(windows),
        !has_window(windows, r.window_id) ==> window_names(with_window(windows, r)) == window_names(
            windows,
        ).push(r.window_name) && window_ids(with_window(windows, r)) == window_ids(windows).push(
            r.window_id,
        ),
{
    lemma_index_of(window_ids(windows), r.window_id);
}

/// What a record does to the totals of a graph: one more session exactly
/// when its session is new, one more window exactly when its window is new,
/// and the widest names grow to the new names.
pub proof fn lemma_with_record(sessions: Seq<SessionView>, r: RecordView)
    ensures
        has_session(sessions, r.session_id) ==> session_names(with_record(sessions, r))
            == session_names(sessions) && session_ids(with_record(sessions, r)) == session_ids(
            sessions,
        ),
        !has_session(sessions, r.session_id) ==> session_names(with_record(sessions, r))
            == session_names(sessions).push(r.session_name) && session_ids(
            with_record(sessions, r),
        ) == session_ids(sessions).push(r.session_id),
        holds_window(sessions, r.session_id, r.window_id) ==> window_total(with_record(sessions, r))
            == window_total(sessions) && widest_window_name(with_record(sessions, r))
            == widest_window_name(sessions),
        !holds_window(sessions, r.session_id, r.window_id) ==> window_total(
            with_record(sessions, r),
        ) == window_total(sessions) + 1 && widest_window_name(with_record(sessions, r)) == larger(
            widest_window_name(sessions),
            r.window_name.len(),
        ),
{
    lemma_index_of(session_ids(sessions), r.session_id);
    let after = with_record(sessions, r);
    let i = index_of(session_ids(sessions), r.session_id);
    let counts = window_counts(sessions);
    let widths = window_name_widths(sessions);
    if has_session(sessions, r.session_id) {
        let before = sessions[i].windows;
        let windows = with_window(before, r);
        lemma_with_window(before, r);
        lemma_index_of(window_ids(before), r.window_id);
        assert(window_counts(after) =~= counts.update(i, windows.len()));
        assert(window_name_widths(after) =~= widths.update(i, widest(window_names(windows))));
        lemma_sum_update(counts, i, windows.len());
        lemma_max_of(widths);
        if has_window(before, r.window_id) {
            assert(widths.update(i, widest(window_names(windows))) =~= widths);
        } else {
            lemma_widest_push(window_names(before), r.window_name);
            lemma_max_update(widths, i, widest(window_names(windows)));
        }
    } else {
        lemma_with_window(Seq::empty(), r);
        lemma_widest_push(window_names(Seq::empty()), r.window_name);
        assert(lengths(window_names(Seq::<WindowView>::empty())) =~= Seq::<nat>::empty());
        assert(session_names(after) =~= session_names(sessions).push(r.session_name));
        assert(session_ids(after) =~= session_ids(sessions).push(r.session_id));
        assert(window_counts(after) =~= counts.push(1));
        assert(window_name_widths(after) =~= widths.push(r.window_name.len()));
        lemma_sum_push(counts, 1);
        lemma_max_push(widths, r.window_name.len());
    }
}

/// A graph never holds more windows than the records it was built from.
pub proof fn lemma_window_total_bound(records: Seq<RecordView>)
    ensures
        window_total(graph_of(records)) <= records.len(),
        graph_of(records).len() <= records.len(),
    decreases records.len(),
{
    if records.len() > 0 {
        lemma_window_total_bound(records.drop_last());
        lemma_with_record(graph_of(records.drop_last()), records.last());
        lemma_index_of(session_ids(graph_of(records.drop_last())), records.last().session_id);
    }
}

impl Snapshot {
    /// Whether the snapshot is one that is built from records: no identifier
    /// occurs twice among the sessions, among the windows of one session or
    /// among the panes of one window; every window and pane names the parent
    /// that holds it; sessions and windows are counted as they are held; and
    /// the name widths are those of the longest session and window name.
    pub open spec fn wf(&self) -> bool {
        let sessions = self@.sessions;
        &&& well_formed(sessions)
        &&& self@.counts.session == sessions.len()
        &&& self@.counts.window == window_total(sessions)
        &&& self@.geometry.session_name_max_width == widest(session_names(sessions))
        &&& self@.geometry.window_name_max_width == widest_window_name(sessions)
    }

    /// The name of the session with this identifier, if the snapshot holds one.
    pub fn session_name(&self, id: &String) -> (r: Option<&String>)
        ensures
            match r {
                Some(name) => has_session(self@.sessions, id@) && name@
                    == self@.sessions[index_of(session_ids(self@.sessions), id@)].name,
                None => !has_session(self@.sessions, id@),
            },
    {
        let at: usize = find_session(&self.sessions, id);
        if at < self.sessions.len() {
            Some(&self.sessions[at].name)
        } else {
            None
        }
    }

    /// Builds the snapshot of a list of records in one pass, for a terminal
    /// of the given size.
    pub fn build(records: &Vec<RawRecord>, width: usize, height: usize) -> (snapshot: Snapshot)
        ensures
            snapshot@ == snapshot_of(record_views(records@), width as nat, height as nat),
            snapshot.wf(),
    {
        let n: usize = records.len();
        let ghost all = record_views(records@);
        let mut sessions: Vec<Session> = Vec::new();
        let mut session_width: usize = 0;
        let mut window_width: usize = 0;
        let mut title_width: usize = 0;
        let mut windows: usize = 0;
        let mut k: usize = 0;
        while k < n
            invariant
                k <= n,
                n == records@.len(),
                all == record_views(records@),
                session_views(sessions@) == graph_of(all.take(k as int)),
                session_width == widest(session_names(graph_of(all.take(k as int)))),
                window_width == widest_window_name(graph_of(all.take(k as int))),
                title_width == widest(pane_titles(all.take(k as int))),
                windows == window_total(graph_of(all.take(k as int))),
            decreases n - k,
        {
            let record = &records[k];
            let ghost before = graph_of(all.take(k as int));
            proof {
                assert(all.take(k + 1).drop_last() == all.take(k as int));
                lemma_with_record(before, record@);
                lemma_window_total_bound(all.take(k + 1));
                lemma_widest_push(session_names(before), record@.session_name);
                lemma_widest_push(pane_titles(all.take(k as int)), record@.pane_title);
                assert(pane_titles(all.take(k + 1)) == pane_titles(all.take(k as int)).push(
                    record@.pane_title,
                ));
            }
            let added = add_record(&mut sessions, record);
            if added.0 {
                let w: usize = width_of(record.session_name.as_str());
                if w > session_width {
                    session_width = w;
                }
            }
            if added.1 {
                windows += 1;
                let w: usize = width_of(record.window_name.as_str());
                if w > window_width {
                    window_width = w;
                }
            }
            let w: usize = width_of(record.pane_title.as_str());
            if w > title_width {
                title_width = w;
            }
            k += 1;
        }
        assert(all.take(n as int) == all);
        proof {
            lemma_graph_well_formed(all);
        }
        let total: usize = sessions.len();
        Snapshot {
            sessions,
            counts: Counts { session: total, window: windows, pane: n },
            geometry: Geometry {
                session_name_max_width: session_width,
                window_name_max_width: window_width,
                pane_title_max_width: title_width,
                window_width: width,
                window_height: height,
            },
        }
    }
}

/// What is wrong with a line of the multiplexer's list.
#[derive(Debug, Clone, Copy, PartialEq, Eq, Structural)]
pub enum RecordFault {
    /// The line does not have eight fields.
    FieldCount,
    /// The window index is not a number that fits in 32 bits.
    WindowIndex,
    /// The pane index is not a number that fits in 32 bits.
    PaneIndex,
}

/// The first malformed line of a list, counted from zero, and its fault.
#[derive(Debug, Clone, Copy, PartialEq, Eq, Structural)]
pub struct RecordParseError {
    pub line: usize,
    pub fault: RecordFault,
}

/// What is wrong, in words.
pub open spec fn fault_text(fault: RecordFault) -> Seq<char> {
    match fault {
        RecordFault::FieldCount => "expected 8 fields separated by tabs"@,
        RecordFault::WindowIndex => "the window index is not a number"@,
        RecordFault::PaneIndex => "the pane index is not a number"@,
    }
}

impl RecordParseError {
    /// The error in words: which line is malformed, and how.
    pub fn message(&self) -> (text: String)
        ensures
            text@ == "malformed record on line "@ + decimal(self.line as nat) + ": "@ + fault_text(
                self.fault,
            ),
    {
        let mut text = String::from_str("malformed record on line ");
        push_decimal(&mut text, self.line as u64);
        text.append(": ");
        match self.fault {
            RecordFault::FieldCount => text.append("expected 8 fields separated by tabs"),
            RecordFault::WindowIndex => text.append("the window index is not a number"),
            RecordFault::PaneIndex => text.append("the pane index is not a number"),
        }
        text
    }
}

/// The record that a line spells. A line is eight fields separated by tabs:
/// session identifier, session name, window identifier, window index, window
/// name, pane identifier, pane index, pane title. Both indices are decimal.
pub open spec fn parse_record(line: Seq<char>) -> Result<RecordView, RecordFault> {
    let fields = split_on(line, '\t');
    if fields.len() != 8 {
        Err(RecordFault::FieldCount)
    } else {
        match (
            parse_unsigned(fields[3], u32::MAX as nat),
            parse_unsigned(fields[6], u32::MAX as nat),
        ) {
            (None, _) => Err(RecordFault::WindowIndex),
            (Some(_), None) => Err(RecordFault::PaneIndex),
            (Some(window_index), Some(pane_index)) => Ok(
                RecordView {
                    session_id: fields[0],
                    session_name: fields[1],
                    window_id: fields[2],
                    window_index: window_index as u32,
                    window_name: fields[4],
                    pane_id: fields[5],
                    pane_index: pane_index as u32,
                    pane_title: fields[7],
                },
            ),
        }
    }
}

/// The records that a list of well-formed lines spells.
pub open spec fn parse_records(lines: Seq<Seq<char>>) -> Seq<RecordView> {
    lines.map_values(|line: Seq<char>| parse_record(line)->Ok_0)
}

impl RawRecord {
    /// Reads one line of the multiplexer's list.
    pub fn parse(line: &str) -> (r: Result<RawRecord, RecordFault>)
        ensures
            match r {
                Ok(record) => parse_record(line@) == Ok::<RecordView, RecordFault>(record@),
                Err(fault) => parse_record(line@) == Err::<RecordView, RecordFault>(fault),
            },
    {
        let mut fields: Vec<String> = split(line, '\t');
        if fields.len() != 8 {
            return Err(RecordFault::FieldCount);
        }
        let window_index: u32 = match parse_u32(fields[3].as_str()) {
            Some(n) => n,
            None => {
                return Err(RecordFault::WindowIndex);
            },
        };
        let pane_index: u32 = match parse_u32(fields[6].as_str()) {
            Some(n) => n,
            None => {
                return Err(RecordFault::PaneIndex);
            },
        };
        let pane_title: String = fields.pop().unwrap();
        let _ = fields.pop();
        let pane_id: String = fields.pop().unwrap();
        let window_name: String = fields.pop().unwrap();
        let _ = fields.pop();
        let window_id: String = fields.pop().unwrap();
        let session_name: String = fields.pop().unwrap();
        let session_id: String = fields.pop().unwrap();
        Ok(
            RawRecord {
                session_id,
                session_name,
                window_id,
                window_index,
                window_name,
                pane_id,
                pane_index,
                pane_title,
            },
        )
    }
}

/// Takes a snapshot from the multiplexer's list of panes, one line for each
/// pane, and the size of the terminal.
///
/// Either every line is well formed and the snapshot is that of their
/// records, or the error names the first line that is not, and its fault.
/// No identifier of a session or window of the snapshot holds a tab.
pub fn create(lines: &Vec<String>, width: usize, height: usize) -> (r: Result<
    Snapshot,
    RecordParseError,
>)
    ensures
        match r {
            Ok(snapshot) => {
                &&& forall|i: int| 0 <= i < lines@.len() ==> parse_record(#[trigger] lines@[i]@) is Ok
                &&& snapshot@ == snapshot_of(parse_records(texts(lines@)), width as nat, height as nat)
                &&& snapshot.wf()
                &&& plain_ids(snapshot@.sessions)
            },
            Err(e) => {
                &&& e.line < lines@.len()
                &&& forall|i: int| 0 <= i < e.line ==> parse_record(#[trigger] lines@[i]@) is Ok
                &&& parse_record(lines@[e.line as int]@) == Err::<RecordView, RecordFault>(e.fault)
            },
        },
{
    let n: usize = lines.len();
    let mut records: Vec<RawRecord> = Vec::new();
    let mut k: usize = 0;
    while k < n
        invariant
            k <= n,
            n == lines@.len(),
            records@.len() == k,
            forall|i: int| 0 <= i < k ==> parse_record(#[trigger] lines@[i]@) == Ok::<
                RecordView,
                RecordFault,
            >(records@[i]@),
        decreases n - k,
    {
        match RawRecord::parse(lines[k].as_str()) {
            Ok(record) => {
                records.push(record);
            },
            Err(fault) => {
                return Err(RecordParseError { line: k, fault });
            },
        }
        k += 1;
    }
    proof {
        assert(record_views(records@) =~= parse_records(texts(lines@)));
        assert forall|i: int| 0 <= i < lines@.len() implies parse_record(
            #[trigger] texts(lines@)[i],
        ) is Ok by {
            assert(parse_record(lines@[i]@) is Ok);
        }
        lemma_parsed_graph_plain(texts(lines@));
    }
    Ok(Snapshot::build(&records, width, height))
}

} // verus!
