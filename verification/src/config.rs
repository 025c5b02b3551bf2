//! The configuration of one run: the icon of each session, the sessions that
//! can be brought back, and the task to perform.

use vstd::prelude::*;
use vstd::string::*;
use crate::measure::{lemma_widest_push, widest, width_of};
use crate::path::{join_path, path_join, script_session, session_of_script};
use crate::text::{index_of, lemma_index_of_unique, same_text, text_of, texts};

verus! {

/// The sessions that are not running but can be created again: the
/// directory of their scripts, and their names.
#[derive(Clone, Debug)]
pub struct DeadSession {
    pub dir: String,
    pub names: Vec<String>,
}

/// The dead sessions as texts.
pub struct DeadSessionView {
    pub dir: Seq<char>,
    pub names: Seq<Seq<char>>,
}

impl View for DeadSession {
    type V = DeadSessionView;

    open spec fn view(&self) -> DeadSessionView {
        DeadSessionView { dir: self.dir@, names: texts(self.names@) }
    }
}

impl Default for DeadSession {
    fn default() -> (d: DeadSession)
        ensures
            d@ == (DeadSessionView { dir: Seq::empty(), names: Seq::empty() }),
    {
        let d = DeadSession { dir: String::new(), names: Vec::new() };
        assert(texts(d.names@) =~= Seq::<Seq<char>>::empty());
        d
    }
}

impl DeadSession {
    /// The length of the longest name; 0 when there is none.
    pub fn max_name_width(&self) -> (w: usize)
        ensures
            w == widest(self@.names),
    {
        let n: usize = self.names.len();
        let ghost names = texts(self.names@);
        let mut w: usize = 0;
        let mut k: usize = 0;
        while k < n
            invariant
                k <= n,
                n == self.names@.len(),
                names == texts(self.names@),
                w == widest(names.take(k as int)),
            decreases n - k,
        {
            let len: usize = width_of(self.names[k].as_str());
            proof {
                assert(names.take(k + 1) =~= names.take(k as int).push(names[k as int]));
                lemma_widest_push(names.take(k as int), names[k as int]);
            }
            if len > w {
                w = len;
            }
            k += 1;
        }
        assert(names.take(n as int) =~= names);
        w
    }
}

/// What a run does: print the feed, run the picker in place, or run it in a popup.
#[derive(Debug, Clone, Copy, PartialEq, Eq, Structural)]
pub enum Task {
    List,
    Fzf,
    Popup,
}

/// The task that a subcommand asks for: `list` and `fzf` ask for the task of
/// their name, anything else and no subcommand for the popup.
pub open spec fn task_for(subcommand: Option<Seq<char>>) -> Task {
    match subcommand {
        Some(name) => if name == "list"@ {
            Task::List
        } else if name == "fzf"@ {
            Task::Fzf
        } else {
            Task::Popup
        },
        None => Task::Popup,
    }
}

impl Task {
    /// The task for the subcommand that the command line names, if it names one.
    pub fn from_subcommand(subcommand: Option<&str>) -> (task: Task)
        ensures
            task == task_for(text_of(subcommand)),
    {
        match subcommand {
            Some(name) => {
                if same_text(name, "list") {
                    Task::List
                } else if same_text(name, "fzf") {
                    Task::Fzf
                } else {
                    Task::Popup
                }
            },
            None => Task::Popup,
        }
    }
}

impl Default for Task {
    fn default() -> (t: Task)
        ensures
            t == Task::Popup,
    {
        Task::Popup
    }
}

/// The all-in-one configuration model.
///
/// `session_icons` pairs a session name with its icon; of two entries with
/// one name the first counts.
#[derive(Clone, Debug)]
pub struct Config {
    pub session_icons: Vec<(String, String)>,
    pub sessions_dir: String,
    pub dead_session: DeadSession,
    pub task: Task,
}

/// A configuration as texts.
pub struct ConfigView {
    pub session_icons: Seq<(Seq<char>, Seq<char>)>,
    pub sessions_dir: Seq<char>,
    pub dead_session: DeadSessionView,
    pub task: Task,
}

/// The views of the entries of an icon table.
pub open spec fn icon_views(icons: Seq<(String, String)>) -> Seq<(Seq<char>, Seq<char>)> {
    icons.map_values(|e: (String, String)| (e.0@, e.1@))
}

/// The names that an icon table has entries for.
pub open spec fn icon_names(icons: Seq<(Seq<char>, Seq<char>)>) -> Seq<Seq<char>> {
    icons.map_values(|e: (Seq<char>, Seq<char>)| e.0)
}

/// The icon that the table gives a name, if it gives one.
pub open spec fn icon_of(icons: Seq<(Seq<char>, Seq<char>)>, name: Seq<char>) -> Option<Seq<char>> {
    let at = index_of(icon_names(icons), name);
    if 0 <= at < icons.len() {
        Some(icons[at].1)
    } else {
        None
    }
}

impl View for Config {
    type V = ConfigView;

    open spec fn view(&self) -> ConfigView {
        ConfigView {
            session_icons: icon_views(self.session_icons@),
            sessions_dir: self.sessions_dir@,
            dead_session: self.dead_session@,
            task: self.task,
        }
    }
}

impl Default for Config {
    fn default() -> (c: Config)
        ensures
            c@ == (ConfigView {
                session_icons: Seq::empty(),
                sessions_dir: Seq::empty(),
                dead_session: DeadSessionView { dir: Seq::empty(), names: Seq::empty() },
                task: Task::Popup,
            }),
    {
        let c = Config {
            session_icons: Vec::new(),
            sessions_dir: String::new(),
            dead_session: DeadSession::default(),
            task: Task::default(),
        };
        assert(icon_views(c.session_icons@) =~= Seq::<(Seq<char>, Seq<char>)>::empty());
        c
    }
}

impl Config {
    /// The icon of the session called `name`, if the table has one.
    pub fn icon(&self, name: &String) -> (r: Option<&String>)
        ensures
            match r {
                Some(icon) => icon_of(self@.session_icons, name@) == Some(icon@),
                None => icon_of(self@.session_icons, name@).is_none(),
            },
    {
        let n: usize = self.session_icons.len();
        let ghost names = icon_names(icon_views(self.session_icons@));
        let mut at: usize = 0;
        while at < n && !(self.session_icons[at].0 == *name)
            invariant
                at <= n,
                n == self.session_icons@.len(),
                names == icon_names(icon_views(self.session_icons@)),
                forall|j: int| 0 <= j < at ==> names[j] != name@,
            decreases n - at,
        {
            at += 1;
        }
        proof {
            lemma_index_of_unique(names, name@, at as int);
        }
        if at < n {
            Some(&self.session_icons[at].1)
        } else {
            None
        }
    }
}

/// The directory of the configuration: `ap` under the directory that the
/// environment names for configurations, if it names one, else `.config/tav`
/// under the home directory.
pub open spec fn config_dir(home: Seq<char>, xdg_config_home: Option<Seq<char>>) -> Seq<char> {
    match xdg_config_home {
        Some(base) => path_join(base, "ap"@),
        None => path_join(home, ".config/tav"@),
    }
}

/// The directory of the configuration.
pub fn dir(home: &str, xdg_config_home: Option<&str>) -> (r: String)
    ensures
        r@ == config_dir(home@, text_of(xdg_config_home)),
{
    match xdg_config_home {
        Some(base) => join_path(base, "ap"),
        None => join_path(home, ".config/tav"),
    }
}

/// The file of the configuration: `tav.toml` in its directory.
pub fn config_file(home: &str, xdg_config_home: Option<&str>) -> (r: String)
    ensures
        r@ == path_join(config_dir(home@, text_of(xdg_config_home)), "tav.toml"@),
{
    let dir = dir(home, xdg_config_home);
    join_path(dir.as_str(), "tav.toml")
}

/// The directory of the scripts that create dead sessions.
pub open spec fn sessions_dir_of(home: Seq<char>) -> Seq<char> {
    path_join(home, ".config/tav/sessions"@)
}

/// The directory of the scripts that create dead sessions.
pub fn sessions_dir(home: &str) -> (r: String)
    ensures
        r@ == sessions_dir_of(home@),
{
    join_path(home, ".config/tav/sessions")
}

/// The pattern that the scripts in `sessions_dir` match.
pub fn script_pattern(sessions_dir: &str) -> (r: String)
    ensures
        r@ == path_join(sessions_dir@, "*.tmux-session.zsh"@),
{
    join_path(sessions_dir, "*.tmux-session.zsh")
}

/// The sessions that the given script files create, in the order of the
/// files; a file that is no session's script gives none.
pub open spec fn script_sessions(file_names: Seq<Seq<char>>) -> Seq<Seq<char>>
    decreases file_names.len(),
{
    if file_names.len() == 0 {
        Seq::empty()
    } else {
        let rest = script_sessions(file_names.drop_last());
        match script_session(file_names.last()) {
            Some(name) => rest.push(name),
            None => rest,
        }
    }
}

/// The configuration of a run: the icons come from the file, the task from
/// the subcommand, and the dead sessions from the scripts found.
pub open spec fn loaded(
    file: Option<ConfigView>,
    subcommand: Option<Seq<char>>,
    home: Seq<char>,
    script_files: Seq<Seq<char>>,
) -> ConfigView {
    ConfigView {
        session_icons: match file {
            Some(file) => file.session_icons,
            None => Seq::empty(),
        },
        sessions_dir: sessions_dir_of(home),
        dead_session: DeadSessionView {
            dir: match file {
                Some(file) => file.dead_session.dir,
                None => Seq::empty(),
            },
            names: script_sessions(script_files),
        },
        task: task_for(subcommand),
    }
}

/// The view of a configuration that may be missing.
pub open spec fn config_view(file: Option<Config>) -> Option<ConfigView> {
    match file {
        Some(file) => Some(file@),
        None => None,
    }
}

impl Config {
    /// Puts the configuration of a run together from what was read: the
    /// configuration file, if there is a readable one; the subcommand of the
    /// command line, if there is one; the home directory; and the names of
    /// the files in the directory of session scripts.
    pub fn load(
        file: Option<Config>,
        subcommand: Option<&str>,
        home: &str,
        script_files: &Vec<String>,
    ) -> (cfg: Config)
        ensures
            cfg@ == loaded(config_view(file), text_of(subcommand), home@, texts(script_files@)),
    {
        let mut cfg = match file {
            Some(file) => file,
            None => Config::default(),
        };
        cfg.parse_args(subcommand);
        cfg.discover_dead_sessions(home, script_files);
        cfg
    }

    /// Takes the task from the subcommand.
    fn parse_args(&mut self, subcommand: Option<&str>)
        ensures
            final(self)@ == (ConfigView { task: task_for(text_of(subcommand)), ..old(self)@ }),
    {
        self.task = Task::from_subcommand(subcommand);
    }

    /// Takes the directory of the session scripts from the home directory,
    /// and the dead sessions from the script files.
    fn discover_dead_sessions(&mut self, home: &str, script_files: &Vec<String>)
        ensures
            final(self)@ == (ConfigView {
                sessions_dir: sessions_dir_of(home@),
                dead_session: DeadSessionView {
                    names: script_sessions(texts(script_files@)),
                    ..old(self)@.dead_session
                },
                ..old(self)@
            }),
    {
        self.sessions_dir = sessions_dir(home);
        let n: usize = script_files.len();
        let ghost all = texts(script_files@);
        let mut names: Vec<String> = Vec::new();
        let mut k: usize = 0;
        while k < n
            invariant
                k <= n,
                n == script_files@.len(),
                all == texts(script_files@),
                texts(names@) == script_sessions(all.take(k as int)),
            decreases n - k,
        {
            proof {
                assert(all.take(k + 1).drop_last() =~= all.take(k as int));
            }
            match session_of_script(script_files[k].as_str()) {
                Some(name) => {
                    names.push(name);
                },
                None => {},
            }
            k += 1;
        }
        proof {
            assert(all.take(n as int) =~= all);
        }
        self.dead_session.names = names;
    }
}

} // verus!
