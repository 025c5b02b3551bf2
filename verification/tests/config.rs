use tav::config::{config_file, dir, script_pattern, sessions_dir, Config, DeadSession, Task};
use tav::path::{join_path, session_of_script};

fn names(items: &[&str]) -> Vec<String> {
    items.iter().map(|s| s.to_string()).collect()
}

#[test]
fn widest_dead_name() {
    let d = DeadSession { dir: String::new(), names: names(&["a", "work", "xyz"]) };
    assert_eq!(d.max_name_width(), 4);
}

#[test]
fn widest_dead_name_counts_characters() {
    let d = DeadSession { dir: String::new(), names: names(&["ab", "\u{65e5}\u{672c}\u{8a9e}"]) };
    assert_eq!(d.max_name_width(), 3);
}

#[test]
fn no_dead_name_is_zero_wide() {
    assert_eq!(DeadSession::default().max_name_width(), 0);
}

#[test]
fn default_task_is_the_popup() {
    assert_eq!(Task::default(), Task::Popup);
}

#[test]
fn default_configuration_is_empty() {
    let c = Config::default();
    assert!(c.session_icons.is_empty());
    assert_eq!(c.sessions_dir, "");
    assert_eq!(c.dead_session.dir, "");
    assert!(c.dead_session.names.is_empty());
    assert_eq!(c.task, Task::Popup);
}

#[test]
fn subcommand_names_the_task() {
    assert_eq!(Task::from_subcommand(Some("list")), Task::List);
    assert_eq!(Task::from_subcommand(Some("fzf")), Task::Fzf);
    assert_eq!(Task::from_subcommand(None), Task::Popup);
    assert_eq!(Task::from_subcommand(Some("popup")), Task::Popup);
    assert_eq!(Task::from_subcommand(Some("lis")), Task::Popup);
    assert_eq!(Task::from_subcommand(Some("listing")), Task::Popup);
    assert_eq!(Task::from_subcommand(Some("")), Task::Popup);
}

#[test]
fn first_icon_of_a_name_counts() {
    let c = Config {
        session_icons: vec![
            ("main".to_string(), "M".to_string()),
            ("work".to_string(), "W".to_string()),
            ("main".to_string(), "other".to_string()),
        ],
        ..Config::default()
    };
    assert_eq!(c.icon(&"main".to_string()).map(|s| s.as_str()), Some("M"));
    assert_eq!(c.icon(&"work".to_string()).map(|s| s.as_str()), Some("W"));
    assert_eq!(c.icon(&"play".to_string()), None);
}

#[test]
fn paths_are_joined_with_a_slash() {
    assert_eq!(join_path("/home/me", "x/y"), "/home/me/x/y");
    assert_eq!(join_path("/home/me/", "x"), "/home/me/x");
    assert_eq!(join_path("", "x"), "x");
    assert_eq!(join_path("/", "x"), "/x");
    assert_eq!(join_path("a", ""), "a/");
}

#[test]
fn absolute_path_replaces_the_base() {
    assert_eq!(join_path("/home/me", "/etc"), "/etc");
    assert_eq!(join_path("", "/"), "/");
}

#[test]
fn joining_is_that_of_std() {
    for (base, rel) in [("/home/me", "x/y"), ("/home/me/", "x"), ("", "x"), ("/", "x"), ("a", ""), ("a", "/b"), ("a//", "b")] {
        let mut p = std::path::PathBuf::from(base);
        p.push(rel);
        assert_eq!(join_path(base, rel), p.to_str().unwrap());
    }
}

#[test]
fn configuration_directory() {
    assert_eq!(dir("/home/me", None), "/home/me/.config/tav");
    assert_eq!(dir("/home/me", Some("/etc/xdg")), "/etc/xdg/ap");
    assert_eq!(config_file("/home/me", None), "/home/me/.config/tav/tav.toml");
    assert_eq!(config_file("/home/me", Some("/etc/xdg/")), "/etc/xdg/ap/tav.toml");
}

#[test]
fn directory_and_pattern_of_scripts() {
    assert_eq!(sessions_dir("/home/me"), "/home/me/.config/tav/sessions");
    assert_eq!(script_pattern("/home/me/.config/tav/sessions"), "/home/me/.config/tav/sessions/*.tmux-session.zsh");
}

#[test]
fn script_names_its_session() {
    assert_eq!(session_of_script("work.tmux-session.zsh"), Some("work".to_string()));
    assert_eq!(session_of_script("my.notes.tmux-session.zsh"), Some("my.notes".to_string()));
    assert_eq!(session_of_script(".tmux-session.zsh"), Some(String::new()));
    assert_eq!(session_of_script("b\u{fc}ro.tmux-session.zsh"), Some("b\u{fc}ro".to_string()));
    // any extension will do
    assert_eq!(session_of_script("work.tmux-session.sh"), Some("work".to_string()));
}

#[test]
fn other_files_name_no_session() {
    assert_eq!(session_of_script("work.zsh"), None);
    assert_eq!(session_of_script("work.tmux-session"), None);
    assert_eq!(session_of_script("work.tmux-sessions.zsh"), None);
    assert_eq!(session_of_script("tmux-session.zsh"), None);
    assert_eq!(session_of_script(""), None);
    assert_eq!(session_of_script(".."), None);
    assert_eq!(session_of_script("zsh"), None);
}

#[test]
fn script_session_is_that_of_std() {
    for name in ["work.tmux-session.zsh", ".tmux-session.zsh", "work.tmux-session", "a.b.tmux-session.c", ".tmux-session", "x.tmux-session."] {
        let expected = std::path::Path::new(name)
            .file_stem()
            .and_then(|s| s.to_str())
            .and_then(|s| s.strip_suffix(".tmux-session"))
            .map(|s| s.to_string());
        assert_eq!(session_of_script(name), expected);
    }
}

#[test]
fn configuration_is_put_together() {
    let read = Config {
        session_icons: vec![("main".to_string(), "M".to_string())],
        sessions_dir: "from the file".to_string(),
        ..Config::default()
    };
    let c = Config::load(
        Some(read),
        Some("list"),
        "/home/me",
        &names(&["b.tmux-session.zsh", "README.md", "a.tmux-session.zsh"]),
    );
    assert_eq!(c.session_icons, vec![("main".to_string(), "M".to_string())]);
    assert_eq!(c.sessions_dir, "/home/me/.config/tav/sessions");
    assert_eq!(c.dead_session.dir, "");
    assert_eq!(c.dead_session.names, names(&["b", "a"]));
    assert_eq!(c.task, Task::List);
}

#[test]
fn configuration_without_a_file() {
    let c = Config::load(None, None, "/root", &Vec::new());
    assert!(c.session_icons.is_empty());
    assert_eq!(c.sessions_dir, "/root/.config/tav/sessions");
    assert!(c.dead_session.names.is_empty());
    assert_eq!(c.task, Task::Popup);
}
