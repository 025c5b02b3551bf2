use tav::tmux::snapshot::{create, Counts, Geometry, RawRecord, RecordFault, RecordParseError, Snapshot};

fn lines(items: &[&str]) -> Vec<String> {
    items.iter().map(|s| s.to_string()).collect()
}

fn record(fields: [&str; 8]) -> RawRecord {
    RawRecord {
        session_id: fields[0].to_string(),
        session_name: fields[1].to_string(),
        window_id: fields[2].to_string(),
        window_index: fields[3].parse().unwrap(),
        window_name: fields[4].to_string(),
        pane_id: fields[5].to_string(),
        pane_index: fields[6].parse().unwrap(),
        pane_title: fields[7].to_string(),
    }
}

fn three_panes() -> Vec<String> {
    lines(&[
        "$0\tmain\t@0\t1\teditor\t%0\t1\tvim",
        "$0\tmain\t@0\t1\teditor\t%1\t2\tzsh",
        "$1\twork\t@1\t1\tshell\t%2\t1\tzsh",
    ])
}

#[test]
fn counts_start_at_zero() {
    let c = Counts::new();
    assert_eq!((c.session, c.window, c.pane), (0, 0, 0));
}

#[test]
fn geometry_starts_at_zero() {
    let g = Geometry::new();
    assert_eq!(g.session_name_max_width, 0);
    assert_eq!(g.window_name_max_width, 0);
    assert_eq!(g.pane_title_max_width, 0);
    assert_eq!(g.window_width, 0);
    assert_eq!(g.window_height, 0);
}

#[test]
fn empty_list_gives_empty_snapshot() {
    let snapshot = create(&Vec::new(), 80, 24).unwrap();
    assert!(snapshot.sessions.is_empty());
    assert_eq!(snapshot.counts.session, 0);
    assert_eq!(snapshot.counts.window, 0);
    assert_eq!(snapshot.counts.pane, 0);
    assert_eq!(snapshot.geometry.session_name_max_width, 0);
    assert_eq!(snapshot.geometry.window_name_max_width, 0);
    assert_eq!(snapshot.geometry.pane_title_max_width, 0);
}

#[test]
fn terminal_size_is_stored_as_given() {
    let snapshot = create(&three_panes(), 213, 57).unwrap();
    assert_eq!(snapshot.geometry.window_width, 213);
    assert_eq!(snapshot.geometry.window_height, 57);
}

#[test]
fn panes_of_one_window_share_session_and_window() {
    let snapshot = create(
        &lines(&["$0\tmain\t@0\t1\teditor\t%0\t1\tvim", "$0\tmain\t@0\t1\teditor\t%1\t2\tzsh"]),
        80,
        24,
    )
    .unwrap();
    assert_eq!(snapshot.sessions.len(), 1);
    assert_eq!(snapshot.sessions[0].windows.len(), 1);
    let panes = &snapshot.sessions[0].windows[0].panes;
    assert_eq!(panes.len(), 2);
    assert_eq!(panes[0].id, "%0");
    assert_eq!(panes[0].index, 1);
    assert_eq!(panes[0].title, "vim");
    assert_eq!(panes[1].id, "%1");
    assert_eq!(panes[1].index, 2);
    assert_eq!(panes[1].title, "zsh");
}

#[test]
fn three_panes_in_two_sessions() {
    let snapshot = create(&three_panes(), 80, 24).unwrap();
    assert_eq!(snapshot.counts.session, 2);
    assert_eq!(snapshot.counts.window, 2);
    assert_eq!(snapshot.counts.pane, 3);
    assert_eq!(snapshot.sessions.len(), 2);
    assert_eq!(snapshot.sessions[0].id, "$0");
    assert_eq!(snapshot.sessions[0].name, "main");
    assert_eq!(snapshot.sessions[1].id, "$1");
    assert_eq!(snapshot.sessions[1].name, "work");
    assert_eq!(snapshot.sessions[0].windows.len(), 1);
    assert_eq!(snapshot.sessions[1].windows.len(), 1);
    assert_eq!(snapshot.sessions[0].windows[0].id, "@0");
    assert_eq!(snapshot.sessions[1].windows[0].id, "@1");
    assert_eq!(snapshot.geometry.session_name_max_width, 4);
    assert_eq!(snapshot.geometry.window_name_max_width, 6);
    assert_eq!(snapshot.geometry.pane_title_max_width, 3);
}

#[test]
fn session_count_is_number_of_sessions() {
    let snapshot = create(
        &lines(&[
            "$2\tc\t@5\t0\tw\t%9\t0\tp",
            "$0\ta\t@1\t0\tw\t%1\t0\tp",
            "$2\tc\t@6\t1\tw\t%8\t0\tp",
            "$1\tb\t@3\t0\tw\t%4\t0\tp",
            "$0\ta\t@1\t0\tw\t%2\t1\tp",
        ]),
        80,
        24,
    )
    .unwrap();
    assert_eq!(snapshot.counts.session, snapshot.sessions.len());
    assert_eq!(snapshot.counts.session, 3);
    assert_eq!(snapshot.counts.window, 4);
    assert_eq!(snapshot.counts.pane, 5);
}

#[test]
fn window_count_is_by_session_and_window() {
    // the same window identifier in two sessions is two windows
    let snapshot = create(
        &lines(&["$0\ta\t@0\t0\tw\t%0\t0\tp", "$1\tb\t@0\t0\tw\t%1\t0\tp", "$1\tb\t@0\t0\tw\t%2\t1\tp"]),
        80,
        24,
    )
    .unwrap();
    assert_eq!(snapshot.counts.window, 2);
    assert_eq!(snapshot.counts.pane, 3);
}

#[test]
fn entities_keep_what_the_first_record_says() {
    let snapshot = create(
        &lines(&[
            "$0\tfirst\t@0\t3\tone\t%0\t0\tp",
            "$0\tsecond-and-longer\t@0\t9\ttwo-and-longer\t%0\t7\tother title",
        ]),
        80,
        24,
    )
    .unwrap();
    assert_eq!(snapshot.sessions.len(), 1);
    assert_eq!(snapshot.sessions[0].name, "first");
    assert_eq!(snapshot.sessions[0].windows[0].name, "one");
    assert_eq!(snapshot.sessions[0].windows[0].index, 3);
    assert_eq!(snapshot.sessions[0].windows[0].panes.len(), 1);
    assert_eq!(snapshot.sessions[0].windows[0].panes[0].index, 0);
    assert_eq!(snapshot.sessions[0].windows[0].panes[0].title, "p");
}

#[test]
fn widths_of_names_count_first_records_only() {
    let snapshot = create(
        &lines(&[
            "$0\tfirst\t@0\t3\tone\t%0\t0\tp",
            "$0\tsecond-and-longer\t@0\t9\ttwo-and-longer\t%0\t7\tother title",
        ]),
        80,
        24,
    )
    .unwrap();
    assert_eq!(snapshot.geometry.session_name_max_width, 5);
    assert_eq!(snapshot.geometry.window_name_max_width, 3);
    // every record counts for the pane titles, and for the panes
    assert_eq!(snapshot.geometry.pane_title_max_width, 11);
    assert_eq!(snapshot.counts.pane, 2);
}

#[test]
fn widths_count_characters() {
    let snapshot = create(&lines(&["$0\tb\u{fc}ro\t@0\t0\t\u{65e5}\u{672c}\t%0\t0\t\u{e9}"]), 80, 24).unwrap();
    assert_eq!(snapshot.geometry.session_name_max_width, 4);
    assert_eq!(snapshot.geometry.window_name_max_width, 2);
    assert_eq!(snapshot.geometry.pane_title_max_width, 1);
}

#[test]
fn children_name_their_parents() {
    let snapshot = create(&three_panes(), 80, 24).unwrap();
    for session in &snapshot.sessions {
        for window in &session.windows {
            assert_eq!(window.session, session.id);
            for pane in &window.panes {
                assert_eq!(pane.window, window.id);
            }
        }
    }
}

#[test]
fn session_name_is_found_by_identifier() {
    let snapshot = create(&three_panes(), 80, 24).unwrap();
    assert_eq!(snapshot.session_name(&"$1".to_string()).map(|s| s.as_str()), Some("work"));
    assert_eq!(snapshot.session_name(&"$7".to_string()), None);
}

#[test]
fn build_takes_records() {
    let records = vec![
        record(["$0", "main", "@0", "1", "editor", "%0", "1", "vim"]),
        record(["$0", "main", "@1", "2", "logs", "%1", "1", "tail"]),
    ];
    let snapshot = Snapshot::build(&records, 100, 30);
    assert_eq!(snapshot.counts.session, 1);
    assert_eq!(snapshot.counts.window, 2);
    assert_eq!(snapshot.counts.pane, 2);
    assert_eq!(snapshot.sessions[0].windows[1].name, "logs");
    assert_eq!(snapshot.geometry.window_width, 100);
    assert_eq!(snapshot.geometry.window_height, 30);
}

#[test]
fn a_line_is_read_into_a_record() {
    let r = RawRecord::parse("$3\tdots\t@12\t4\tvim\t%40\t2\t~/src").unwrap();
    assert_eq!(r.session_id, "$3");
    assert_eq!(r.session_name, "dots");
    assert_eq!(r.window_id, "@12");
    assert_eq!(r.window_index, 4);
    assert_eq!(r.window_name, "vim");
    assert_eq!(r.pane_id, "%40");
    assert_eq!(r.pane_index, 2);
    assert_eq!(r.pane_title, "~/src");
}

#[test]
fn empty_fields_are_fields() {
    let r = RawRecord::parse("$0\t\t@0\t0\t\t%0\t0\t").unwrap();
    assert_eq!(r.session_name, "");
    assert_eq!(r.window_name, "");
    assert_eq!(r.pane_title, "");
}

#[test]
fn too_few_fields_are_refused() {
    assert_eq!(RawRecord::parse("$0\tmain\t@0\t1\teditor\t%0\t1").unwrap_err(), RecordFault::FieldCount);
    assert_eq!(RawRecord::parse("").unwrap_err(), RecordFault::FieldCount);
}

#[test]
fn too_many_fields_are_refused() {
    assert_eq!(
        RawRecord::parse("$0\tmain\t@0\t1\teditor\t%0\t1\tvim\tmore").unwrap_err(),
        RecordFault::FieldCount
    );
}

#[test]
fn window_index_must_be_a_number() {
    assert_eq!(
        RawRecord::parse("$0\tmain\t@0\tone\teditor\t%0\t1\tvim").unwrap_err(),
        RecordFault::WindowIndex
    );
    assert_eq!(
        RawRecord::parse("$0\tmain\t@0\t\teditor\t%0\t1\tvim").unwrap_err(),
        RecordFault::WindowIndex
    );
    assert_eq!(
        RawRecord::parse("$0\tmain\t@0\t-1\teditor\t%0\t1\tvim").unwrap_err(),
        RecordFault::WindowIndex
    );
    assert_eq!(
        RawRecord::parse("$0\tmain\t@0\t4294967296\teditor\t%0\t1\tvim").unwrap_err(),
        RecordFault::WindowIndex
    );
}

#[test]
fn pane_index_must_be_a_number() {
    assert_eq!(
        RawRecord::parse("$0\tmain\t@0\t1\teditor\t%0\t1 \tvim").unwrap_err(),
        RecordFault::PaneIndex
    );
}

#[test]
fn window_index_is_judged_before_pane_index() {
    assert_eq!(
        RawRecord::parse("$0\tmain\t@0\tx\teditor\t%0\ty\tvim").unwrap_err(),
        RecordFault::WindowIndex
    );
}

#[test]
fn largest_index_is_read() {
    let r = RawRecord::parse("$0\tmain\t@0\t4294967295\teditor\t%0\t+7\tvim").unwrap();
    assert_eq!(r.window_index, 4294967295);
    assert_eq!(r.pane_index, 7);
}

#[test]
fn first_malformed_line_is_reported() {
    let e = create(
        &lines(&[
            "$0\tmain\t@0\t1\teditor\t%0\t1\tvim",
            "$0\tmain\t@0\t1\teditor\t%1\tx\tzsh",
            "broken",
        ]),
        80,
        24,
    )
    .unwrap_err();
    assert_eq!(e, RecordParseError { line: 1, fault: RecordFault::PaneIndex });
}

#[test]
fn malformed_line_gives_no_snapshot() {
    assert!(create(&lines(&["$0\tmain\t@0\t1\teditor\t%0\t1\tvim", "broken"]), 80, 24).is_err());
    assert_eq!(
        create(&lines(&["broken"]), 80, 24).unwrap_err(),
        RecordParseError { line: 0, fault: RecordFault::FieldCount }
    );
}

#[test]
fn errors_are_put_in_words() {
    assert_eq!(
        RecordParseError { line: 0, fault: RecordFault::FieldCount }.message(),
        "malformed record on line 0: expected 8 fields separated by tabs"
    );
    assert_eq!(
        RecordParseError { line: 12, fault: RecordFault::WindowIndex }.message(),
        "malformed record on line 12: the window index is not a number"
    );
    assert_eq!(
        RecordParseError { line: 305, fault: RecordFault::PaneIndex }.message(),
        "malformed record on line 305: the pane index is not a number"
    );
}
