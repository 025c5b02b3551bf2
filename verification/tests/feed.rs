use tav::config::{Config, DeadSession, Task};
use tav::fzf::{xspan, Formatter};
use tav::run::selected_key;
use tav::tmux::snapshot::{create, Counts, Geometry, Pane, Session, Snapshot, Window};

const NBSP: &str = "\u{a0}";
const DOT: &str = "\x1b[30m.\x1b[0m";
const DASH: &str = "\x1b[38;5;242m-\x1b[0m";
const MARK: &str = "\x1b[38;5;242m\u{ef}\u{2122}\u{2014} \x1b[0m";

fn spaces(n: usize) -> String {
    " ".repeat(n)
}

fn gray(text: &str) -> String {
    format!("\x1b[38;5;242m{}\x1b[0m", text)
}

fn magenta(text: &str) -> String {
    format!("\x1b[35m{}\x1b[0m", text)
}

fn green(text: &str) -> String {
    format!("\x1b[32m{}\x1b[0m", text)
}

fn blue(text: &str) -> String {
    format!("\x1b[34m{}\x1b[0m", text)
}

fn lines(items: &[&str]) -> Vec<String> {
    items.iter().map(|s| s.to_string()).collect()
}

fn config(icons: &[(&str, &str)], dead: &[&str]) -> Config {
    Config {
        session_icons: icons.iter().map(|(n, i)| (n.to_string(), i.to_string())).collect(),
        sessions_dir: String::new(),
        dead_session: DeadSession { dir: String::new(), names: lines(dead) },
        task: Task::Popup,
    }
}

fn three_panes() -> Snapshot {
    create(
        &lines(&[
            "$0\tmain\t@0\t1\teditor\t%0\t1\tvim",
            "$0\tmain\t@0\t1\teditor\t%1\t2\tzsh",
            "$1\twork\t@1\t1\tshell\t%2\t1\tzsh",
        ]),
        80,
        24,
    )
    .unwrap()
}

fn keys(feed: &[String]) -> Vec<String> {
    feed.iter().map(|line| line.split('\t').next().unwrap().to_string()).collect()
}

fn window(id: &str, index: u32, name: &str, session: &str) -> Window {
    Window {
        id: id.to_string(),
        index,
        name: name.to_string(),
        session: session.to_string(),
        panes: vec![Pane { id: "%0".to_string(), index: 0, title: String::new(), window: id.to_string() }],
    }
}

fn snapshot_of(sessions: Vec<Session>, session_width: usize, window_width: usize) -> Snapshot {
    let windows = sessions.iter().map(|s| s.windows.len()).sum();
    Snapshot {
        counts: Counts { session: sessions.len(), window: windows, pane: windows },
        sessions,
        geometry: Geometry {
            session_name_max_width: session_width,
            window_name_max_width: window_width,
            pane_title_max_width: 0,
            window_width: 80,
            window_height: 24,
        },
    }
}

#[test]
fn span_is_a_black_dot_and_spaces() {
    assert_eq!(xspan(4), format!("{}   ", DOT));
    assert_eq!(xspan(1), DOT);
    assert_eq!(xspan(0), DOT);
}

#[test]
fn empty_snapshot_without_dead_names_gives_no_lines() {
    let snapshot = create(&Vec::new(), 80, 24).unwrap();
    let config = config(&[], &[]);
    let f = Formatter::new(&snapshot, &config);
    assert!(f.feed.is_empty());
    assert_eq!(f.height, 0);
    assert_eq!(f.width, 50);
}

#[test]
fn feed_of_three_panes_and_two_dead_names() {
    let snapshot = three_panes();
    let config = config(&[], &["main", "old"]);
    let f = Formatter::new(&snapshot, &config);
    let gap = format!("{}{}", DOT, spaces(27));
    let expected = vec![
        format!("$0\t{}{}{}{}", NBSP, spaces(3), magenta("main"), spaces(2)),
        format!(
            "@0\t{}{}{} {}{}{}{}",
            DOT,
            spaces(3),
            DASH,
            green("editor"),
            gap,
            spaces(4),
            blue("main:1")
        ),
        "[sep]\t".to_string(),
        format!("$1\t{}{}{}{}", NBSP, spaces(3), magenta("work"), spaces(2)),
        format!(
            "@1\t{}{}{} {}{}{}{}",
            DOT,
            spaces(3),
            DASH,
            green("shell"),
            gap,
            spaces(4),
            blue("work:1")
        ),
        "[sep]\t".to_string(),
        format!(
            "[dead]old\t{}{}{}{}{}{}{}",
            NBSP,
            spaces(3),
            gray("old"),
            spaces(3),
            gap,
            spaces(6),
            MARK
        ),
    ];
    assert_eq!(f.feed, expected);
    assert_eq!(f.height, 7);
    assert_eq!(f.width, 50);
}

#[test]
fn live_name_is_not_shown_dead() {
    let snapshot = three_panes();
    let config = config(&[], &["main", "old"]);
    let f = Formatter::new(&snapshot, &config);
    let keys = keys(&f.feed);
    assert_eq!(keys.iter().filter(|k| k.starts_with("[dead]")).count(), 1);
    assert!(keys.contains(&"[dead]old".to_string()));
    assert!(!keys.contains(&"[dead]main".to_string()));
    assert_eq!(keys.iter().filter(|k| k.as_str() == "@0").count(), 1);
    assert_eq!(keys.iter().filter(|k| k.as_str() == "@1").count(), 1);
}

#[test]
fn no_separator_when_every_dead_name_is_live() {
    let snapshot = three_panes();
    let config = config(&[], &["work", "main"]);
    let f = Formatter::new(&snapshot, &config);
    assert_eq!(keys(&f.feed), vec!["$0", "@0", "[sep]", "$1", "@1"]);
    assert_eq!(f.height, 5);
}

#[test]
fn dead_names_alone_follow_a_separator() {
    let snapshot = create(&Vec::new(), 80, 24).unwrap();
    let config = config(&[], &["b", "a"]);
    let f = Formatter::new(&snapshot, &config);
    assert_eq!(keys(&f.feed), vec!["[sep]", "[dead]b", "[dead]a"]);
    assert_eq!(f.height, 3);
}

#[test]
fn windows_stand_in_order_of_index() {
    let snapshot = create(
        &lines(&[
            "$0\tmain\t@7\t3\tc\t%0\t0\tp",
            "$0\tmain\t@2\t1\ta\t%1\t0\tp",
            "$0\tmain\t@9\t10\td\t%2\t0\tp",
            "$0\tmain\t@4\t2\tb\t%3\t0\tp",
        ]),
        80,
        24,
    )
    .unwrap();
    let config = config(&[], &[]);
    let f = Formatter::new(&snapshot, &config);
    assert_eq!(keys(&f.feed), vec!["$0", "@2", "@4", "@7", "@9"]);
}

#[test]
fn windows_of_one_index_stay_as_they_came() {
    let snapshot = create(
        &lines(&[
            "$0\tmain\t@7\t1\tc\t%0\t0\tp",
            "$0\tmain\t@2\t0\ta\t%1\t0\tp",
            "$0\tmain\t@9\t1\td\t%2\t0\tp",
        ]),
        80,
        24,
    )
    .unwrap();
    let config = config(&[], &[]);
    let f = Formatter::new(&snapshot, &config);
    assert_eq!(keys(&f.feed), vec!["$0", "@2", "@7", "@9"]);
}

#[test]
fn sessions_stand_in_order_of_identifier() {
    let snapshot = create(
        &lines(&[
            "$2\tc\t@5\t0\tw\t%9\t0\tp",
            "$10\td\t@6\t0\tw\t%8\t0\tp",
            "$1\tb\t@3\t0\tw\t%4\t0\tp",
            "$0\ta\t@1\t0\tw\t%1\t0\tp",
        ]),
        80,
        24,
    )
    .unwrap();
    let config = config(&[], &[]);
    let f = Formatter::new(&snapshot, &config);
    // identifiers are ordered as text: `$10` comes before `$2`
    assert_eq!(
        keys(&f.feed),
        vec!["$0", "@1", "[sep]", "$1", "@3", "[sep]", "$10", "@6", "[sep]", "$2", "@5"]
    );
    assert_eq!(f.height, f.feed.len());
}

#[test]
fn icons_stand_in_the_symbol_column() {
    let snapshot = three_panes();
    let config = config(&[("main", "M"), ("old", "xy"), ("main", "never")], &["old"]);
    let f = Formatter::new(&snapshot, &config);
    assert_eq!(f.feed[0], format!("$0\tM{}{}{}", spaces(3), magenta("main"), spaces(2)));
    assert_eq!(f.feed[3], format!("$1\t{}{}{}{}", NBSP, spaces(3), magenta("work"), spaces(2)));
    assert!(f.feed[6].starts_with(&format!("[dead]old\txy{}{}", spaces(2), gray("old"))));
}

#[test]
fn columns_grow_with_the_names() {
    let snapshot = create(
        &lines(&["$0\ta-session-name-of-thirty-chars\t@0\t12\tshort\t%0\t0\tp"]),
        80,
        24,
    )
    .unwrap();
    assert_eq!(snapshot.geometry.session_name_max_width, 30);
    let config = config(&[], &[]);
    let f = Formatter::new(&snapshot, &config);
    // 2 + 4 + 30 + 34 + 4
    assert_eq!(f.width, 74);
    assert_eq!(f.part1_width, 30);
    assert_eq!(f.part2_width, 34);
    assert_eq!(f.gap, format!("{}{}", DOT, spaces(3)));
    assert_eq!(
        f.feed[1],
        format!(
            "@0\t{}{}{} {}{}{}{}{}{}",
            DOT,
            spaces(3),
            DASH,
            green("short"),
            spaces(23),
            DOT,
            spaces(3),
            spaces(1),
            blue("a-session-name-of-thirty-chars:12")
        )
    );
}

#[test]
fn narrow_names_leave_window_names_unpadded() {
    let snapshot = snapshot_of(
        vec![Session { id: "$0".to_string(), name: "a".to_string(), windows: vec![window("@0", 0, "b", "$0")] }],
        1,
        1,
    );
    let config = config(&[], &[]);
    let f = Formatter::new(&snapshot, &config);
    assert_eq!(f.part1_width, 1);
    assert_eq!(f.part2_width, 10);
    assert_eq!(f.width, 50);
    let gap = format!("{}{}", DOT, spaces(32));
    assert_eq!(
        f.feed[1],
        format!("@0\t{}{}{} {}{}{}{}", DOT, spaces(3), DASH, green("b"), gap, spaces(7), blue("a:0"))
    );
}

#[test]
fn window_of_an_unknown_session_is_marked() {
    let snapshot = snapshot_of(
        vec![Session { id: "$0".to_string(), name: "main".to_string(), windows: vec![window("@0", 5, "w", "$9")] }],
        4,
        1,
    );
    let config = config(&[], &[]);
    let f = Formatter::new(&snapshot, &config);
    assert!(f.feed[1].ends_with(&format!("{}{}", spaces(5), blue("[W]:5"))));
}

#[test]
fn key_of_every_line_is_read_back() {
    let snapshot = three_panes();
    let config = config(&[("main", "M")], &["old", "older"]);
    let f = Formatter::new(&snapshot, &config);
    let expected = vec!["$0", "@0", "[sep]", "$1", "@1", "[sep]", "[dead]old", "[dead]older"];
    assert_eq!(f.feed.len(), expected.len());
    for (line, key) in f.feed.iter().zip(expected) {
        assert_eq!(selected_key(line), Some(key.to_string()));
        assert_eq!(selected_key(&format!("{}\n", line)), Some(key.to_string()));
    }
}

#[test]
fn columns_fit_unless_names_are_too_wide_to_count() {
    assert!(Formatter::fits(&three_panes()));
    assert!(Formatter::fits(&snapshot_of(Vec::new(), 0, 0)));
    assert!(Formatter::fits(&snapshot_of(Vec::new(), 1000, usize::MAX - 1014)));
    assert!(!Formatter::fits(&snapshot_of(Vec::new(), 1000, usize::MAX - 1013)));
    assert!(!Formatter::fits(&snapshot_of(Vec::new(), usize::MAX, 0)));
    assert!(!Formatter::fits(&snapshot_of(Vec::new(), usize::MAX / 2, 0)));
    assert!(Formatter::fits(&snapshot_of(Vec::new(), usize::MAX / 2 - 7, 0)));
    assert!(!Formatter::fits(&snapshot_of(Vec::new(), usize::MAX / 2 - 6, 0)));
}

#[test]
fn feed_does_not_depend_on_the_order_of_sessions() {
    let one = create(
        &lines(&[
            "$0\tmain\t@0\t1\teditor\t%0\t1\tvim",
            "$0\tmain\t@3\t2\tlogs\t%1\t1\ttail",
            "$1\twork\t@1\t1\tshell\t%2\t1\tzsh",
            "$2\tplay\t@2\t1\tgame\t%3\t1\tnethack",
        ]),
        80,
        24,
    )
    .unwrap();
    let other = create(
        &lines(&[
            "$2\tplay\t@2\t1\tgame\t%3\t1\tnethack",
            "$1\twork\t@1\t1\tshell\t%2\t1\tzsh",
            "$0\tmain\t@3\t2\tlogs\t%1\t1\ttail",
            "$0\tmain\t@0\t1\teditor\t%0\t1\tvim",
        ]),
        80,
        24,
    )
    .unwrap();
    assert_eq!(other.sessions[0].id, "$2");
    let config = config(&[("work", "W")], &["old", "play"]);
    let a = Formatter::new(&one, &config);
    let b = Formatter::new(&other, &config);
    assert_eq!(a.feed, b.feed);
    assert_eq!(keys(&a.feed), vec!["$0", "@0", "@3", "[sep]", "$1", "@1", "[sep]", "$2", "@2", "[sep]", "[dead]old"]);
}
