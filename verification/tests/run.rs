use tav::config::Task;
use tav::run::{
    dispatch, first_step, picker_arguments, popup_height, popup_width, script_path, selected_key, selection,
    Action, Step,
};

#[test]
fn nothing_is_done_outside_a_multiplexer() {
    assert_eq!(first_step(false, Task::Popup), Step::Refuse);
    assert_eq!(first_step(false, Task::List), Step::Refuse);
    assert_eq!(first_step(false, Task::Fzf), Step::Refuse);
}

#[test]
fn task_decides_the_first_step() {
    assert_eq!(first_step(true, Task::Popup), Step::Pick);
    assert_eq!(first_step(true, Task::List), Step::Print);
    assert_eq!(first_step(true, Task::Fzf), Step::Idle);
}

#[test]
fn popup_is_wider_than_the_feed() {
    assert_eq!(popup_width(50), 61);
    assert_eq!(popup_width(0), 11);
    assert_eq!(popup_width(usize::MAX), usize::MAX);
    assert_eq!(popup_width(usize::MAX - 11), usize::MAX);
    assert_eq!(popup_width(usize::MAX - 12), usize::MAX - 1);
}

#[test]
fn popup_is_higher_than_the_feed() {
    assert_eq!(popup_height(7, 60), 17);
    assert_eq!(popup_height(0, 60), 10);
}

#[test]
fn popup_leaves_rows_of_the_terminal_free() {
    assert_eq!(popup_height(40, 60), 44);
    assert_eq!(popup_height(34, 60), 44);
    assert_eq!(popup_height(33, 60), 43);
    assert_eq!(popup_height(7, 16), 0);
    assert_eq!(popup_height(7, 3), 0);
    assert_eq!(popup_height(usize::MAX, 60), 44);
}

#[test]
fn picker_is_started_with_size_and_options() {
    let args = picker_arguments(61, 17);
    let expected = vec![
        "-w",
        "61",
        "-h",
        "17",
        "--with-nth=2..",
        "--no-sort",
        "--tiebreak=end",
        "--color=bg:-1,bg+:-1",
        "--layout=reverse",
        "--ansi",
        "--margin=3,5,3,3",
        "--inline-info",
        "--header",
        "",
        "--prompt=\u{25b6} ",
        "--pointer=\u{25b6}",
        "--bind",
        "ctrl-j:page-down",
        "--bind",
        "ctrl-k:page-up",
        "--bind",
        "ctrl-f:page-down",
        "--bind",
        "ctrl-b:page-up",
    ];
    assert_eq!(args, expected);
}

#[test]
fn key_is_what_stands_before_the_first_tab() {
    assert_eq!(selected_key("@3\t  \x1b[32mvim\x1b[0m\tmore\n"), Some("@3".to_string()));
    assert_eq!(selected_key("$0\t\n"), Some("$0".to_string()));
    assert_eq!(selected_key("[dead]old\t x\n"), Some("[dead]old".to_string()));
}

#[test]
fn answer_without_a_tab_is_the_key() {
    assert_eq!(selected_key("$0"), Some("$0".to_string()));
    assert_eq!(selected_key("$0\n"), Some("$0\n".to_string()));
}

#[test]
fn empty_answer_selects_nothing() {
    assert_eq!(selected_key(""), None);
    assert_eq!(selected_key("\t$0"), None);
}

#[test]
fn answer_is_read_from_bytes() {
    assert_eq!(selection(b"@3\t  vim\n"), Some("@3".to_string()));
    assert_eq!(selection("[dead]b\u{fc}ro\t x\n".as_bytes()), Some("[dead]b\u{fc}ro".to_string()));
    assert_eq!(selection(b""), None);
}

#[test]
fn answer_that_is_no_text_selects_nothing() {
    assert_eq!(selection(&[0x40, 0xff, 0x09, 0x41]), None);
    assert_eq!(selection(&[0xc3]), None);
}

#[test]
fn identifiers_are_switched_to() {
    assert!(matches!(dispatch("$0"), Action::Switch(id) if id == "$0"));
    assert!(matches!(dispatch("@12"), Action::Switch(id) if id == "@12"));
    assert!(matches!(dispatch("$"), Action::Switch(id) if id == "$"));
}

#[test]
fn dead_sessions_are_resurrected() {
    assert!(matches!(dispatch("[dead]old"), Action::Resurrect(name) if name == "old"));
    assert!(matches!(dispatch("[dead]"), Action::Resurrect(name) if name.is_empty()));
    assert!(matches!(dispatch("[dead]\u{65e5}\u{672c} x"), Action::Resurrect(name) if name == "\u{65e5}\u{672c} x"));
}

#[test]
fn other_keys_are_ignored() {
    assert!(matches!(dispatch("[sep]"), Action::Ignore));
    assert!(matches!(dispatch(""), Action::Ignore));
    assert!(matches!(dispatch("[dead"), Action::Ignore));
    assert!(matches!(dispatch(" $0"), Action::Ignore));
}

#[test]
fn script_of_a_dead_session() {
    assert_eq!(script_path("/home/me/.config/tav/sessions", "old"), "/home/me/.config/tav/sessions/old.tmux-session.zsh");
    assert_eq!(script_path("", "old"), "old.tmux-session.zsh");
    assert_eq!(script_path("/s/", "a b"), "/s/a b.tmux-session.zsh");
    assert_eq!(script_path("/s", "/abs"), "/abs.tmux-session.zsh");
}
