//! The session: which project and config file are open, and the settings
//! that belong to them.
//!
//! Methods that change saved settings return the project whose settings file
//! must then be written (`None` when nothing is to be written); the caller
//! writes it.
use crate::labels::is_label_set;
use crate::path::{display_path, norm_path, norm_path_str};
use crate::settings::{
    entries_of, get_new_history, new_history, opt_nonempty, text_of, TomlProjectSettings,
    TomlUserSettings,
};
use crate::text::{
    clone_opt_string, clone_strings, join, join_strings, split, split_str, trim, trim_str,
};
use crate::windows::{
    selection_view, shows_settings, unselected, NewBranchWindow, NewTagWindow, OptionsWindow,
};
use crate::path::display_path_str;
use vstd::prelude::*;

verus! {

broadcast use vstd::string::group_string_axioms;

/// The non-empty parts of `parts`, each trimmed.
pub open spec fn trimmed_nonempty(parts: Seq<Seq<char>>) -> Seq<Seq<char>>
    decreases parts.len(),
{
    if parts.len() == 0 {
        Seq::empty()
    } else {
        let rest = trimmed_nonempty(parts.drop_last());
        let t = trim(parts.last());
        if t.len() == 0 {
            rest
        } else {
            rest.push(t)
        }
    }
}

/// The entries of a newline-separated list: its lines, trimmed, without the
/// empty ones.
pub open spec fn list_entries(s: Seq<char>) -> Seq<Seq<char>> {
    trimmed_nonempty(split(trim(s), '\n'))
}

/// The entries of an optional newline-separated list.
pub open spec fn opt_list_entries(o: Option<String>) -> Option<Seq<Seq<char>>> {
    match o {
        Some(s) => Some(list_entries(s@)),
        None => None,
    }
}

/// The displayed form of each path.
pub open spec fn display_all(s: Seq<Seq<char>>) -> Seq<Seq<char>> {
    Seq::new(s.len(), |i: int| display_path(s[i]))
}

/// The entries of a newline-separated list.
pub fn parse_list(content: &str) -> (r: Vec<String>)
    ensures
        r.deep_view() == list_entries(content@),
{
    let t = trim_str(content);
    let parts = split_str(t.as_str(), '\n');
    let mut out: Vec<String> = Vec::new();
    let mut i: usize = 0;
    while i < parts.len()
        invariant
            i <= parts.len(),
            parts.deep_view() == split(trim(content@), '\n'),
            out.deep_view() == trimmed_nonempty(parts.deep_view().take(i as int)),
        decreases parts.len() - i,
    {
        let ghost before = out.deep_view();
        proof {
            assert(parts.deep_view().take(i + 1).drop_last() =~= parts.deep_view().take(i as int));
        }
        let e = trim_str(parts[i].as_str());
        if !e.as_str().is_empty() {
            out.push(e);
            proof {
                assert(out.deep_view() =~= before.push(trim(parts.deep_view()[i as int])));
            }
        }
        i = i + 1;
    }
    proof {
        assert(parts.deep_view().take(i as int) =~= parts.deep_view());
    }
    out
}

fn parse_opt_list(o: &Option<String>) -> (r: Option<Vec<String>>)
    ensures
        r is Some <==> o is Some,
        r matches Some(v) ==> opt_list_entries(*o) == Some(v.deep_view()),
{
    match o {
        Some(s) => Some(parse_list(s.as_str())),
        None => None,
    }
}

/// The displayed form of each path, one per line.
fn display_lines(paths: &Vec<String>) -> (r: String)
    ensures
        r@ == join(display_all(paths.deep_view()), "\n"@),
{
    let mut shown: Vec<String> = Vec::new();
    let mut i: usize = 0;
    while i < paths.len()
        invariant
            i <= paths.len(),
            shown.deep_view() == display_all(paths.deep_view().take(i as int)),
        decreases paths.len() - i,
    {
        let s = display_path_str(paths[i].as_str());
        let ghost before = shown.deep_view();
        let ghost sv = s@;
        shown.push(s);
        proof {
            assert(shown.deep_view() =~= before.push(sv));
        }
        i = i + 1;
        proof {
            assert(shown.deep_view() =~= display_all(paths.deep_view().take(i as int)));
        }
    }
    proof {
        assert(paths.deep_view().take(i as int) =~= paths.deep_view());
    }
    join_strings(&shown, "\n")
}

/// The project to open at start-up: the one given on the command line, else
/// the most recent one, else the project that is already open.
pub open spec fn startup_project_path(
    recent: Seq<Seq<char>>,
    startup: Option<Seq<char>>,
    current: Seq<char>,
) -> Seq<char> {
    match startup {
        Some(p) => p,
        None => if recent.len() > 0 {
            recent[0]
        } else {
            current
        },
    }
}

/// The view of an optional string.
pub open spec fn opt_view(o: Option<String>) -> Option<Seq<char>> {
    match o {
        Some(p) => Some(p@),
        None => None,
    }
}

/// The open project, its config file and their settings.
#[derive(Debug)]
pub struct SessionManager {
    pub project_path: String,
    pub config_file: String,
    pub user_settings: TomlUserSettings,
    pub project_settings: TomlProjectSettings,
    pub recent_projects: Vec<String>,
}

impl SessionManager {
    /// The project whose saved settings `load_setting` takes.
    pub fn startup_project(&self, recent_projects: &Vec<String>, startup: &Option<String>) -> (r:
        String)
        ensures
            r@ == startup_project_path(
                recent_projects.deep_view(),
                opt_view(*startup),
                self.project_path@,
            ),
    {
        match startup {
            Some(p) => p.clone(),
            None => if recent_projects.len() > 0 {
                recent_projects[0].clone()
            } else {
                self.project_path.clone()
            },
        }
    }

    /// No project open and nothing loaded.
    pub fn new() -> (r: Self)
        ensures
            r.project_path@.len() == 0,
            r.config_file@.len() == 0,
            r.user_settings == TomlUserSettings::empty(),
            r.project_settings.project is None,
            r.project_settings.recent_configs is None,
            r.project_settings.snapshot_ignore is None,
            r.project_settings.new_branch_ignore is None,
            r.project_settings.new_branch_name is None,
            r.project_settings.new_branch_config_path is None,
            r.project_settings.new_tag_ignore is None,
            r.project_settings.new_tag_name is None,
            r.project_settings.new_tag_push is None,
            r.project_settings.ignore is None,
            r.project_settings.labels.labels().len() == 0,
            r.recent_projects@.len() == 0,
    {
        SessionManager {
            project_path: String::new(),
            config_file: String::new(),
            user_settings: TomlUserSettings::default(),
            project_settings: TomlProjectSettings::new(),
            recent_projects: Vec::new(),
        }
    }

    /// Restores the session at start-up.  `user_settings` and
    /// `recent_projects` are what was saved; `startup` is the project given on
    /// the command line; `stored` holds the saved settings of the project that
    /// `startup_project` names.
    pub fn load_setting(
        &mut self,
        user_settings: TomlUserSettings,
        recent_projects: Vec<String>,
        startup: Option<String>,
        stored: TomlProjectSettings,
    ) -> (save: Option<String>)
        ensures
            final(self).user_settings == user_settings,
            final(self).project_path@ == startup_project_path(
                recent_projects.deep_view(),
                opt_view(startup),
                old(self).project_path@,
            ),
            startup matches Some(p) ==> {
                &&& final(self).recent_projects.deep_view() == if p@.len() > 0 {
                    new_history(p@, recent_projects.deep_view())
                } else {
                    recent_projects.deep_view()
                }
                &&& final(self).config_file@ == p@ + "/.gitrepos"@
                &&& save == if final(self).recent_projects@.len() > 0 {
                    Some(final(self).recent_projects@[0])
                } else {
                    None
                }
                &&& final(self).recent_projects@.len() > 0 ==> entries_of(
                    final(self).project_settings.recent_configs,
                ) == new_history(
                    final(self).config_file@,
                    entries_of(
                        if p@.len() > 0 {
                            stored.recent_configs
                        } else {
                            old(self).project_settings.recent_configs
                        },
                    ),
                )
            },
            startup is None ==> {
                &&& final(self).recent_projects == recent_projects
                &&& final(self).config_file@ == match final(self).project_settings.recent_configs {
                    Some(v) => if v@.len() > 0 {
                        v@[0]@
                    } else {
                        old(self).config_file@
                    },
                    None => old(self).config_file@,
                }
                &&& save == if final(self).project_path@.len() > 0 {
                    Some(final(self).project_path)
                } else {
                    None
                }
                &&& final(self).project_path@.len() > 0 ==> final(self).project_settings == (
                TomlProjectSettings { project: Some(final(self).project_path), ..stored })
                &&& final(self).project_path@.len() == 0 ==> final(self).project_settings
                    == old(self).project_settings
            },
    {
        self.user_settings = user_settings;
        self.recent_projects = recent_projects;
        match startup {
            Some(p) => {
                self.project_path = p.clone();
                self.push_recent_project();
                let _ = self.load_project_settings(stored);
                let mut config = p;
                config.append("/.gitrepos");
                proof {
                    reveal_strlit("/.gitrepos");
                }
                self.config_file = config;
                self.push_recent_config()
            },
            None => {
                if self.recent_projects.len() > 0 {
                    self.project_path = self.recent_projects[0].clone();
                }
                let save = self.load_project_settings(stored);
                let first = match &self.project_settings.recent_configs {
                    Some(v) => if v.len() > 0 {
                        Some(v[0].clone())
                    } else {
                        None
                    },
                    None => None,
                };
                if let Some(c) = first {
                    self.config_file = c;
                }
                save
            },
        }
    }

    /// Ignores `new_path`, or stops ignoring it, in the open project.
    pub fn save_ignore(&mut self, new_path: String, is_ignore: bool) -> (save: Option<String>)
        ensures
            old(self).recent_projects@.len() == 0 ==> *final(self) == *old(self) && save is None,
            old(self).recent_projects@.len() > 0 ==> {
                &&& text_of(final(self).project_settings.ignore)
                    == crate::settings::saved_ignore(
                    text_of(old(self).project_settings.ignore),
                    new_path@,
                    is_ignore,
                )
                &&& final(self).project_settings == (TomlProjectSettings {
                    ignore: final(self).project_settings.ignore,
                    ..old(self).project_settings
                })
                &&& save == Some(old(self).project_path)
            },
            final(self).project_path == old(self).project_path,
            final(self).config_file == old(self).config_file,
            final(self).user_settings == old(self).user_settings,
            final(self).recent_projects == old(self).recent_projects,
    {
        if self.recent_projects.len() > 0 {
            self.project_settings.save_ignore(new_path, is_ignore);
            Some(self.save_project_settings())
        } else {
            None
        }
    }

    /// The ignored repositories of the open project.
    pub fn get_ignores(&self) -> (r: Option<Vec<String>>)
        ensures
            r is Some <==> self.project_settings.ignore is Some,
            r matches Some(v) ==> opt_list_entries(self.project_settings.ignore) == Some(
                v.deep_view(),
            ),
    {
        parse_opt_list(&self.project_settings.ignore)
    }

    /// The labels of the open project; none when it has no label.
    pub fn get_labels(&self) -> (r: Option<Vec<String>>)
        ensures
            self.project_settings.labels.labels().len() == 0 ==> r is None,
            self.project_settings.labels.labels().len() > 0 ==> (r matches Some(v) && is_label_set(
                v.deep_view(),
            ) && v.deep_view() == self.project_settings.labels.labels()),
    {
        if self.project_settings.labels.len() == 0 {
            None
        } else {
            Some(self.project_settings.labels.to_vec())
        }
    }

    /// The repositories left out of the last new branch.
    pub fn get_new_branch_ignores(&self) -> (r: Option<Vec<String>>)
        ensures
            r is Some <==> self.project_settings.new_branch_ignore is Some,
            r matches Some(v) ==> opt_list_entries(self.project_settings.new_branch_ignore)
                == Some(v.deep_view()),
    {
        parse_opt_list(&self.project_settings.new_branch_ignore)
    }

    /// The name of the last new branch.
    pub fn get_new_branch_name(&self) -> (r: Option<String>)
        ensures
            r == self.project_settings.new_branch_name,
    {
        clone_opt_string(&self.project_settings.new_branch_name)
    }

    /// The config path written for the last new branch.
    pub fn get_new_branch_config_path(&self) -> (r: Option<String>)
        ensures
            r == self.project_settings.new_branch_config_path,
    {
        clone_opt_string(&self.project_settings.new_branch_config_path)
    }

    /// The repositories left out of the last new tag.
    pub fn get_new_tag_ignores(&self) -> (r: Option<Vec<String>>)
        ensures
            r is Some <==> self.project_settings.new_tag_ignore is Some,
            r matches Some(v) ==> opt_list_entries(self.project_settings.new_tag_ignore) == Some(
                v.deep_view(),
            ),
    {
        parse_opt_list(&self.project_settings.new_tag_ignore)
    }

    /// The name of the last new tag.
    pub fn get_new_tag_name(&self) -> (r: Option<String>)
        ensures
            r == self.project_settings.new_tag_name,
    {
        clone_opt_string(&self.project_settings.new_tag_name)
    }

    /// Whether new tags are pushed; yes unless saved otherwise.
    pub fn get_new_tag_push(&self) -> (r: bool)
        ensures
            r == match self.project_settings.new_tag_push {
                Some(b) => b,
                None => true,
            },
    {
        match self.project_settings.new_tag_push {
            Some(b) => b,
            None => true,
        }
    }

    /// Saves what the "new branch" window holds.
    pub fn save_new_branch_option_from_window(&mut self, window: &NewBranchWindow) -> (save:
        Option<String>)
        ensures
            old(self).recent_projects@.len() == 0 ==> *final(self) == *old(self) && save is None,
            old(self).recent_projects@.len() > 0 ==> {
                &&& text_of(final(self).project_settings.new_branch_ignore) == join(
                    display_all(unselected(selection_view(window.repos@))),
                    "\n"@,
                )
                &&& final(self).project_settings.new_branch_ignore matches Some(s) ==> s@.len()
                    > 0
                &&& final(self).project_settings == (TomlProjectSettings {
                    new_branch_ignore: final(self).project_settings.new_branch_ignore,
                    new_branch_name: opt_nonempty(window.new_branch),
                    new_branch_config_path: opt_nonempty(window.new_config_path),
                    ..old(self).project_settings
                })
                &&& save == Some(old(self).project_path)
            },
            final(self).project_path == old(self).project_path,
            final(self).config_file == old(self).config_file,
            final(self).user_settings == old(self).user_settings,
            final(self).recent_projects == old(self).recent_projects,
    {
        let ignore_repos = window.get_ignore_repos();
        let new_branch_ignore = display_lines(&ignore_repos);
        if self.recent_projects.len() > 0 {
            self.project_settings.save_new_branch_ignore(new_branch_ignore);
            self.project_settings.save_new_branch_name(window.new_branch.clone());
            self.project_settings.save_new_branch_config_path(window.new_config_path.clone());
            Some(self.save_project_settings())
        } else {
            None
        }
    }

    /// Saves what the "new tag" window holds.
    pub fn save_new_tag_option_from_window(&mut self, window: &NewTagWindow) -> (save: Option<
        String,
    >)
        ensures
            old(self).recent_projects@.len() == 0 ==> *final(self) == *old(self) && save is None,
            old(self).recent_projects@.len() > 0 ==> {
                &&& text_of(final(self).project_settings.new_tag_ignore) == join(
                    display_all(unselected(selection_view(window.repos@))),
                    "\n"@,
                )
                &&& final(self).project_settings.new_tag_ignore matches Some(s) ==> s@.len() > 0
                &&& final(self).project_settings == (TomlProjectSettings {
                    new_tag_ignore: final(self).project_settings.new_tag_ignore,
                    new_tag_name: opt_nonempty(window.new_tag),
                    new_tag_push: Some(window.push),
                    ..old(self).project_settings
                })
                &&& save == Some(old(self).project_path)
            },
            final(self).project_path == old(self).project_path,
            final(self).config_file == old(self).config_file,
            final(self).user_settings == old(self).user_settings,
            final(self).recent_projects == old(self).recent_projects,
    {
        let ignore_repos = window.get_ignore_repos();
        let new_tag_ignore = display_lines(&ignore_repos);
        if self.recent_projects.len() > 0 {
            self.project_settings.save_new_tag_ignore(new_tag_ignore);
            self.project_settings.save_new_tag_name(window.new_tag.clone());
            self.project_settings.save_new_tag_push(window.push);
            Some(self.save_project_settings())
        } else {
            None
        }
    }

    /// Saves the snapshot ignore text of the open project.
    pub fn save_snapshot_ignore(&mut self, snapshot_ignore: String) -> (save: Option<String>)
        ensures
            old(self).recent_projects@.len() == 0 ==> *final(self) == *old(self) && save is None,
            old(self).recent_projects@.len() > 0 ==> final(self).project_settings == (
            TomlProjectSettings {
                snapshot_ignore: opt_nonempty(snapshot_ignore),
                ..old(self).project_settings
            }) && save == Some(old(self).project_path),
            final(self).project_path == old(self).project_path,
            final(self).config_file == old(self).config_file,
            final(self).user_settings == old(self).user_settings,
            final(self).recent_projects == old(self).recent_projects,
    {
        if self.recent_projects.len() > 0 {
            self.project_settings.save_snapshot_ignore(snapshot_ignore);
            Some(self.save_project_settings())
        } else {
            None
        }
    }

    /// The snapshot ignore text of the open project.
    pub fn get_snapshot_ignore(&self) -> (r: Option<String>)
        ensures
            r == self.project_settings.snapshot_ignore,
    {
        clone_opt_string(&self.project_settings.snapshot_ignore)
    }

    /// Takes `stored`, the saved settings of the open project, and records the
    /// project in them; nothing happens when no project is open.
    pub fn load_project_settings(&mut self, stored: TomlProjectSettings) -> (save: Option<String>)
        ensures
            old(self).project_path@.len() == 0 ==> *final(self) == *old(self) && save is None,
            old(self).project_path@.len() > 0 ==> final(self).project_settings == (
            TomlProjectSettings { project: Some(old(self).project_path), ..stored }) && save
                == Some(old(self).project_path),
            final(self).project_path == old(self).project_path,
            final(self).config_file == old(self).config_file,
            final(self).user_settings == old(self).user_settings,
            final(self).recent_projects == old(self).recent_projects,
    {
        if self.project_path.as_str().is_empty() {
            return None;
        }
        let mut settings = stored;
        settings.project = Some(self.project_path.clone());
        self.project_settings = settings;
        Some(self.save_project_settings())
    }

    /// The config files used most recently in the open project.
    pub fn get_recent_configs(&self) -> (r: Option<Vec<String>>)
        ensures
            r is Some <==> self.project_settings.recent_configs is Some,
            entries_of(r) == entries_of(self.project_settings.recent_configs),
    {
        match &self.project_settings.recent_configs {
            Some(v) => Some(clone_strings(v)),
            None => None,
        }
    }

    /// Records the open config file as the most recent one of the project.
    pub fn push_recent_config(&mut self) -> (save: Option<String>)
        ensures
            old(self).config_file@.len() == 0 || old(self).recent_projects@.len() == 0 ==> (*final(self) == *old(self) && save is None),
            old(self).config_file@.len() > 0 && old(self).recent_projects@.len() > 0 ==> {
                &&& entries_of(final(self).project_settings.recent_configs) == new_history(
                    old(self).config_file@,
                    entries_of(old(self).project_settings.recent_configs),
                )
                &&& final(self).project_settings.recent_configs is Some
                &&& final(self).project_settings == (TomlProjectSettings {
                    recent_configs: final(self).project_settings.recent_configs,
                    ..old(self).project_settings
                })
                &&& save == Some(old(self).recent_projects@[0])
            },
            final(self).project_path == old(self).project_path,
            final(self).config_file == old(self).config_file,
            final(self).user_settings == old(self).user_settings,
            final(self).recent_projects == old(self).recent_projects,
    {
        if self.config_file.as_str().is_empty() {
            return None;
        }
        if self.recent_projects.len() > 0 {
            self.project_settings.push_recent_config(self.config_file.clone());
            Some(self.recent_projects[0].clone())
        } else {
            None
        }
    }

    /// The project under whose name the project settings are saved.
    pub fn save_project_settings(&self) -> (project: String)
        ensures
            project == self.project_path,
    {
        self.project_path.clone()
    }

    /// The projects used most recently.
    pub fn get_recent_projects(&self) -> (r: Vec<String>)
        ensures
            r@ == self.recent_projects@,
    {
        clone_strings(&self.recent_projects)
    }

    /// Records the open project as the most recent one.
    pub fn push_recent_project(&mut self)
        ensures
            old(self).project_path@.len() == 0 ==> *final(self) == *old(self),
            old(self).project_path@.len() > 0 ==> final(self).recent_projects.deep_view()
                == new_history(old(self).project_path@, old(self).recent_projects.deep_view()),
            final(self).project_path == old(self).project_path,
            final(self).config_file == old(self).config_file,
            final(self).user_settings == old(self).user_settings,
            final(self).project_settings == old(self).project_settings,
    {
        if self.project_path.as_str().is_empty() {
            return;
        }
        let p = self.project_path.clone();
        get_new_history(p, &mut self.recent_projects);
    }

    /// Another project is opened at `path`: it becomes the open project and
    /// the most recent one, `stored` (its saved settings) is taken, the
    /// options window starts over from the user's settings and the project's
    /// snapshot ignore text, and the project's most recent repositories file,
    /// or the default one, is chosen.  The result is the project whose
    /// settings are to be saved.
    pub fn open_project(&mut self, path: &str, stored: TomlProjectSettings, options: &mut OptionsWindow) -> (save:
        Option<String>)
        ensures
            shows_settings(
                *final(options),
                final(self).user_settings,
                final(self).project_settings.snapshot_ignore,
            ),
            final(self).project_path@ == norm_path(path@),
            norm_path(path@).len() == 0 ==> final(self).recent_projects == old(self).recent_projects
                && final(self).project_settings == old(self).project_settings && save is None,
            norm_path(path@).len() > 0 ==> {
                &&& final(self).recent_projects.deep_view() == new_history(
                    norm_path(path@),
                    old(self).recent_projects.deep_view(),
                )
                &&& final(self).project_settings == (TomlProjectSettings {
                    project: Some(final(self).project_path),
                    ..stored
                })
                &&& save == Some(final(self).project_path)
            },
            final(self).config_file@ == if entries_of(final(self).project_settings.recent_configs).len()
                > 0 {
                entries_of(final(self).project_settings.recent_configs)[0]
            } else {
                norm_path(path@) + "/.gitrepos"@
            },
            final(self).user_settings == old(self).user_settings,
    {
        self.project_path = norm_path_str(path);
        self.push_recent_project();
        let save = self.load_project_settings(stored);
        *options = OptionsWindow::new();
        let snapshot_ignore = self.get_snapshot_ignore();
        options.load_option_from_settings(&self.user_settings, &snapshot_ignore);
        assert(options.snapshot_ignore@ == match snapshot_ignore {
            Some(t) => t@,
            None => Seq::<char>::empty(),
        });
        assert(shows_settings(*options, self.user_settings, self.project_settings.snapshot_ignore));
        let recent = self.get_recent_configs();
        proof {
            if recent is Some && recent->0@.len() > 0 {
                assert(recent->0.deep_view()[0] == recent->0@[0]@);
            }
        }
        self.config_file = crate::events::config_file_for_project(self.project_path.as_str(), &recent);
        save
    }

    /// Another repositories file is chosen at `path`; when it exists
    /// (`is_file`) it becomes the most recent one of the project.  The result
    /// is the project whose settings are to be saved.
    pub fn open_config_file(&mut self, path: &str, is_file: bool) -> (save: Option<String>)
        ensures
            final(self).config_file@ == norm_path(path@),
            !is_file ==> final(self).project_settings == old(self).project_settings && save is None,
            is_file && norm_path(path@).len() > 0 && old(self).recent_projects@.len() > 0 ==> {
                &&& entries_of(final(self).project_settings.recent_configs) == new_history(
                    norm_path(path@),
                    entries_of(old(self).project_settings.recent_configs),
                )
                &&& save == Some(old(self).recent_projects@[0])
            },
            final(self).project_path == old(self).project_path,
            final(self).user_settings == old(self).user_settings,
            final(self).recent_projects == old(self).recent_projects,
    {
        self.config_file = norm_path_str(path);
        if is_file {
            self.push_recent_config()
        } else {
            None
        }
    }

}

} // verus!
