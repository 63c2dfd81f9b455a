//! State of the option windows and dialogs, and the options they produce.
use crate::config::{repos_of, MgitConfig, RepoConfig};
use crate::events::{CommandType, OpsCommand};
use crate::path::{display_path, display_path_str, join_path, join_path_str, norm_path, norm_path_str, parent, parent_str};
use crate::session::{opt_list_entries, SessionManager};
use crate::settings::{entries_of, text_of, GuiOptions, SyncType, TomlUserSettings};
use crate::text::strings_contain;
use vstd::prelude::*;

verus! {

broadcast use vstd::string::group_string_axioms;

/// A repository of the project and whether an operation includes it.
#[derive(Debug)]
pub struct RepoSelection {
    pub repo: String,
    pub selected: bool,
}

/// Options of the "new branch" operation.
#[derive(Debug)]
pub struct NewBranchOptions {
    pub path: String,
    pub config_path: String,
    pub new_config_path: Option<String>,
    pub new_branch: String,
    pub force: bool,
    pub ignore: Option<Vec<String>>,
}

/// Options of the "new tag" operation.
#[derive(Debug)]
pub struct NewTagOptions {
    pub path: String,
    pub config_path: String,
    pub new_tag: String,
    pub push: bool,
    pub ignore: Option<Vec<String>>,
}

/// The selections as (repository, selected) pairs.
pub open spec fn selection_view(s: Seq<RepoSelection>) -> Seq<(Seq<char>, bool)> {
    Seq::new(s.len(), |i: int| (s[i].repo@, s[i].selected))
}

/// One selection per repository entry that names a local path; an entry is
/// selected unless its displayed path is in `ignore`.
pub open spec fn repo_selections(repos: Seq<RepoConfig>, ignore: Seq<Seq<char>>) -> Seq<
    (Seq<char>, bool),
>
    decreases repos.len(),
{
    if repos.len() == 0 {
        Seq::empty()
    } else {
        let rest = repo_selections(repos.drop_last(), ignore);
        match repos.last().local {
            Some(l) => rest.push((l@, !ignore.contains(display_path(l@)))),
            None => rest,
        }
    }
}

/// The repositories that are not selected, in order.
pub open spec fn unselected(s: Seq<(Seq<char>, bool)>) -> Seq<Seq<char>>
    decreases s.len(),
{
    if s.len() == 0 {
        Seq::empty()
    } else {
        let rest = unselected(s.drop_last());
        if !s.last().1 {
            rest.push(s.last().0)
        } else {
            rest
        }
    }
}

/// The default path of the config file written for a new branch: a file
/// `new_config.toml` next to the current config file.
pub open spec fn default_new_config_path(config_path: Seq<char>) -> Option<Seq<char>> {
    match parent(config_path) {
        Some(p) => Some(norm_path(join_path(p, "new_config.toml"@))),
        None => None,
    }
}

/// Builds the selections for the repositories of `mgit_config`.
fn build_selections(mgit_config: &MgitConfig, ignore: &Vec<String>) -> (r: Vec<RepoSelection>)
    ensures
        selection_view(r@) == repo_selections(repos_of(mgit_config), ignore.deep_view()),
{
    let mut out: Vec<RepoSelection> = Vec::new();
    match &mgit_config.repos {
        None => {
            assert(selection_view(out@) =~= Seq::<(Seq<char>, bool)>::empty());
        },
        Some(repos) => {
            let mut i: usize = 0;
            while i < repos.len()
                invariant
                    i <= repos.len(),
                    repos_of(mgit_config) == repos@,
                    selection_view(out@) == repo_selections(repos@.take(i as int), ignore.deep_view()),
                decreases repos.len() - i,
            {
                let ghost before = selection_view(out@);
                proof {
                    assert(repos@.take(i + 1).drop_last() =~= repos@.take(i as int));
                }
                match &repos[i].local {
                    Some(local) => {
                        let shown = display_path_str(local.as_str());
                        let selected = !strings_contain(ignore, shown.as_str());
                        out.push(RepoSelection { repo: local.clone(), selected });
                        proof {
                            assert(selection_view(out@) =~= before.push((local@, selected)));
                        }
                    },
                    None => {
                        assert(selection_view(out@) =~= before);
                    },
                }
                i = i + 1;
            }
            assert(repos@.take(repos@.len() as int) =~= repos@);
        },
    }
    out
}

/// The repositories that are not selected.
fn unselected_repos(repos: &Vec<RepoSelection>) -> (r: Vec<String>)
    ensures
        r.deep_view() == unselected(selection_view(repos@)),
{
    let mut out: Vec<String> = Vec::new();
    let mut i: usize = 0;
    while i < repos.len()
        invariant
            i <= repos.len(),
            out.deep_view() == unselected(selection_view(repos@).take(i as int)),
        decreases repos.len() - i,
    {
        let ghost before = out.deep_view();
        proof {
            assert(selection_view(repos@).take(i + 1).drop_last() =~= selection_view(repos@).take(
                i as int,
            ));
        }
        if !repos[i].selected {
            out.push(repos[i].repo.clone());
            proof {
                assert(out.deep_view() =~= before.push(repos@[i as int].repo@));
            }
        }
        i = i + 1;
    }
    proof {
        assert(selection_view(repos@).take(i as int) =~= selection_view(repos@));
    }
    out
}

/// The "new branch" window.
#[derive(Debug)]
pub struct NewBranchWindow {
    pub root_path: String,
    pub new_branch: String,
    pub config_path: String,
    pub new_config_path: String,
    pub repos: Vec<RepoSelection>,
    pub confirm_create: bool,
}

impl NewBranchWindow {
    /// An empty window.
    pub fn new() -> (r: Self)
        ensures
            r.root_path@.len() == 0,
            r.new_branch@.len() == 0,
            r.config_path@.len() == 0,
            r.new_config_path@.len() == 0,
            r.repos@.len() == 0,
            !r.confirm_create,
    {
        NewBranchWindow {
            root_path: String::new(),
            new_branch: String::new(),
            config_path: String::new(),
            new_config_path: String::new(),
            repos: Vec::new(),
            confirm_create: false,
        }
    }

    /// Fills the window for the project at `root_path` with the config file
    /// `config_path`; the repositories in `ignore` start unselected.
    pub fn update_settings(
        &mut self,
        root_path: &str,
        config_path: &str,
        mgit_config: &MgitConfig,
        new_branch: &str,
        new_config_path: &str,
        ignore: &Vec<String>,
    )
        ensures
            !final(self).confirm_create,
            final(self).root_path@ == norm_path(root_path@),
            final(self).config_path@ == norm_path(config_path@),
            final(self).new_branch@ == new_branch@,
            final(self).new_config_path@ == (if new_config_path@.len() > 0 {
                new_config_path@
            } else {
                match default_new_config_path(config_path@) {
                    Some(p) => p,
                    None => Seq::empty(),
                }
            }),
            selection_view(final(self).repos@) == repo_selections(
                repos_of(mgit_config),
                ignore.deep_view(),
            ),
    {
        self.confirm_create = false;
        self.root_path = norm_path_str(root_path);
        self.config_path = norm_path_str(config_path);
        self.new_branch = String::from_str(new_branch);
        self.new_config_path = String::from_str(new_config_path);
        if self.new_config_path.as_str().is_empty() {
            if let Some(p) = parent_str(config_path) {
                let joined = join_path_str(p.as_str(), "new_config.toml");
                self.new_config_path = norm_path_str(joined.as_str());
            }
        }
        self.repos = build_selections(mgit_config, ignore);
    }

    /// The repositories the operation leaves out.
    pub fn get_ignore_repos(&self) -> (r: Vec<String>)
        ensures
            r.deep_view() == unselected(selection_view(self.repos@)),
    {
        unselected_repos(&self.repos)
    }

    /// The options of the "new branch" operation that the window describes.
    pub fn get_options(&self) -> (r: NewBranchOptions)
        ensures
            r.path == self.root_path,
            r.config_path == self.config_path,
            r.new_config_path == Some(self.new_config_path),
            r.new_branch == self.new_branch,
            r.force,
            unselected(selection_view(self.repos@)).len() == 0 ==> r.ignore is None,
            unselected(selection_view(self.repos@)).len() > 0 ==> (r.ignore matches Some(v)
                && v.deep_view() == unselected(selection_view(self.repos@))),
    {
        let ignore_repos = self.get_ignore_repos();
        let ignore = if ignore_repos.len() == 0 {
            None
        } else {
            Some(ignore_repos)
        };
        NewBranchOptions {
            path: self.root_path.clone(),
            config_path: self.config_path.clone(),
            new_config_path: Some(self.new_config_path.clone()),
            new_branch: self.new_branch.clone(),
            force: true,
            ignore,
        }
    }
}

/// The "new tag" window.
#[derive(Debug)]
pub struct NewTagWindow {
    pub root_path: String,
    pub new_tag: String,
    pub config_path: String,
    pub repos: Vec<RepoSelection>,
    pub push: bool,
    pub confirm_create: bool,
}

impl NewTagWindow {
    /// An empty window; new tags are pushed by default.
    pub fn new() -> (r: Self)
        ensures
            r.root_path@.len() == 0,
            r.new_tag@.len() == 0,
            r.config_path@.len() == 0,
            r.repos@.len() == 0,
            r.push,
            !r.confirm_create,
    {
        NewTagWindow {
            root_path: String::new(),
            new_tag: String::new(),
            config_path: String::new(),
            repos: Vec::new(),
            push: true,
            confirm_create: false,
        }
    }

    /// Fills the window for the project at `root_path` with the config file
    /// `config_path`; the repositories in `ignore` start unselected.
    pub fn update_settings(
        &mut self,
        root_path: &str,
        config_path: &str,
        mgit_config: &MgitConfig,
        new_tag: &str,
        push: bool,
        ignore: &Vec<String>,
    )
        ensures
            !final(self).confirm_create,
            final(self).root_path@ == norm_path(root_path@),
            final(self).config_path@ == norm_path(config_path@),
            final(self).new_tag@ == new_tag@,
            final(self).push == push,
            selection_view(final(self).repos@) == repo_selections(
                repos_of(mgit_config),
                ignore.deep_view(),
            ),
    {
        self.confirm_create = false;
        self.root_path = norm_path_str(root_path);
        self.config_path = norm_path_str(config_path);
        self.new_tag = String::from_str(new_tag);
        self.push = push;
        self.repos = build_selections(mgit_config, ignore);
    }

    /// The repositories the operation leaves out.
    pub fn get_ignore_repos(&self) -> (r: Vec<String>)
        ensures
            r.deep_view() == unselected(selection_view(self.repos@)),
    {
        unselected_repos(&self.repos)
    }

    /// The options of the "new tag" operation that the window describes.
    pub fn get_options(&self) -> (r: NewTagOptions)
        ensures
            r.path == self.root_path,
            r.config_path == self.config_path,
            r.new_tag == self.new_tag,
            r.push == self.push,
            unselected(selection_view(self.repos@)).len() == 0 ==> r.ignore is None,
            unselected(selection_view(self.repos@)).len() > 0 ==> (r.ignore matches Some(v)
                && v.deep_view() == unselected(selection_view(self.repos@))),
    {
        let ignore_repos = self.get_ignore_repos();
        let ignore = if ignore_repos.len() == 0 {
            None
        } else {
            Some(ignore_repos)
        };
        NewTagOptions {
            path: self.root_path.clone(),
            config_path: self.config_path.clone(),
            new_tag: self.new_tag.clone(),
            push: self.push,
            ignore,
        }
    }
}

/// The "command options" window.
#[derive(Debug)]
pub struct OptionsWindow {
    pub init_force: bool,
    pub snapshot_force: bool,
    pub snapshot_branch: bool,
    pub snapshot_ignore: String,
    pub sync_type: SyncType,
    pub sync_no_checkout: bool,
    pub sync_no_track: bool,
    pub sync_thread: u32,
    pub sync_depth: u32,
    pub fetch_thread: u32,
    pub fetch_depth: u32,
}

/// `o`'s value, or `d` when it is absent.
pub open spec fn or_default<T>(o: Option<T>, d: T) -> T {
    match o {
        Some(v) => v,
        None => d,
    }
}

/// `o`'s value, or `d` when it is absent.
fn value_or<T: Copy>(o: Option<T>, d: T) -> (r: T)
    ensures
        r == or_default(o, d),
{
    match o {
        Some(v) => v,
        None => d,
    }
}

/// The options window as it shows the saved user settings `user` and the
/// saved snapshot ignore text over its defaults.
pub open spec fn shows_settings(w: OptionsWindow, user: TomlUserSettings, snapshot_ignore: Option<String>) -> bool {
    &&& w.init_force == or_default(user.init_force, true)
    &&& w.snapshot_force == or_default(user.snapshot_force, true)
    &&& w.snapshot_branch == or_default(user.snapshot_branch, true)
    &&& w.snapshot_ignore@ == match snapshot_ignore {
        Some(t) => t@,
        None => Seq::empty(),
    }
    &&& w.sync_type == or_default(user.sync_type, SyncType::Stash)
    &&& w.sync_no_checkout == or_default(user.sync_no_checkout, false)
    &&& w.sync_no_track == or_default(user.sync_no_track, false)
    &&& w.sync_thread == or_default(user.sync_thread, 4u32)
    &&& w.sync_depth == or_default(user.sync_depth, 0u32)
    &&& w.fetch_thread == or_default(user.fetch_thread, 4u32)
    &&& w.fetch_depth == or_default(user.fetch_depth, 0u32)
}

impl OptionsWindow {
    /// The window with the default options.
    pub fn new() -> (r: Self)
        ensures
            r.init_force,
            r.snapshot_force,
            r.snapshot_branch,
            r.snapshot_ignore@.len() == 0,
            r.sync_type == SyncType::Stash,
            !r.sync_no_checkout,
            !r.sync_no_track,
            r.sync_thread == 4,
            r.sync_depth == 0,
            r.fetch_thread == 4,
            r.fetch_depth == 0,
    {
        OptionsWindow {
            init_force: true,
            snapshot_force: true,
            snapshot_branch: true,
            snapshot_ignore: String::new(),
            sync_type: SyncType::Stash,
            sync_no_checkout: false,
            sync_no_track: false,
            sync_thread: 4,
            sync_depth: 0,
            fetch_thread: 4,
            fetch_depth: 0,
        }
    }

    /// Takes every option that the user saved; the others keep their value.
    pub fn load_option_from_settings(
        &mut self,
        toml_setting: &TomlUserSettings,
        snapshot_ignore: &Option<String>,
    )
        ensures
            final(self).init_force == or_default(toml_setting.init_force, old(self).init_force),
            final(self).snapshot_force == or_default(
                toml_setting.snapshot_force,
                old(self).snapshot_force,
            ),
            final(self).snapshot_branch == or_default(
                toml_setting.snapshot_branch,
                old(self).snapshot_branch,
            ),
            final(self).snapshot_ignore == or_default(*snapshot_ignore, old(self).snapshot_ignore),
            final(self).sync_type == or_default(toml_setting.sync_type, old(self).sync_type),
            final(self).sync_no_checkout == or_default(
                toml_setting.sync_no_checkout,
                old(self).sync_no_checkout,
            ),
            final(self).sync_no_track == or_default(
                toml_setting.sync_no_track,
                old(self).sync_no_track,
            ),
            final(self).sync_thread == or_default(toml_setting.sync_thread, old(self).sync_thread),
            final(self).sync_depth == or_default(toml_setting.sync_depth, old(self).sync_depth),
            final(self).fetch_thread == or_default(toml_setting.fetch_thread, old(self).fetch_thread),
            final(self).fetch_depth == or_default(toml_setting.fetch_depth, old(self).fetch_depth),
    {
        self.init_force = value_or(toml_setting.init_force, self.init_force);
        self.snapshot_force = value_or(toml_setting.snapshot_force, self.snapshot_force);
        self.snapshot_branch = value_or(toml_setting.snapshot_branch, self.snapshot_branch);
        if let Some(item) = snapshot_ignore {
            self.snapshot_ignore = item.clone();
        }
        self.sync_type = value_or(toml_setting.sync_type, self.sync_type);
        self.sync_no_checkout = value_or(toml_setting.sync_no_checkout, self.sync_no_checkout);
        self.sync_no_track = value_or(toml_setting.sync_no_track, self.sync_no_track);
        self.sync_thread = value_or(toml_setting.sync_thread, self.sync_thread);
        self.sync_depth = value_or(toml_setting.sync_depth, self.sync_depth);
        self.fetch_thread = value_or(toml_setting.fetch_thread, self.fetch_thread);
        self.fetch_depth = value_or(toml_setting.fetch_depth, self.fetch_depth);
    }

    /// The options the window shows.
    pub fn to_gui_options(&self) -> (r: GuiOptions)
        ensures
            r == (GuiOptions {
                init_force: self.init_force,
                snapshot_force: self.snapshot_force,
                snapshot_branch: self.snapshot_branch,
                sync_type: self.sync_type,
                sync_no_checkout: self.sync_no_checkout,
                sync_no_track: self.sync_no_track,
                sync_thread: self.sync_thread,
                sync_depth: self.sync_depth,
                fetch_thread: self.fetch_thread,
                fetch_depth: self.fetch_depth,
            }),
    {
        GuiOptions {
            init_force: self.init_force,
            snapshot_force: self.snapshot_force,
            snapshot_branch: self.snapshot_branch,
            sync_type: self.sync_type,
            sync_no_checkout: self.sync_no_checkout,
            sync_no_track: self.sync_no_track,
            sync_thread: self.sync_thread,
            sync_depth: self.sync_depth,
            fetch_thread: self.fetch_thread,
            fetch_depth: self.fetch_depth,
        }
    }
}

/// A confirmation dialog.
pub trait DialogBase: Sized {
    fn create(name: String, content: String) -> Self;

    fn is_ok(&self) -> bool;
}

/// A yes/no dialog; `is_ok` holds the answer once the user gave one.
#[derive(Debug)]
pub struct Dialog {
    pub name: String,
    pub content: String,
    pub answer: Option<bool>,
}

impl DialogBase for Dialog {
    /// A dialog that has not been answered.
    fn create(name: String, content: String) -> (r: Self)
        ensures
            r.name == name,
            r.content == content,
            r.answer is None,
    {
        Dialog { name, content, answer: None }
    }

    /// Whether the user confirmed.
    fn is_ok(&self) -> (r: bool)
        ensures
            r == (self.answer == Some(true)),
    {
        match self.answer {
            Some(r) => r,
            None => false,
        }
    }
}

impl Dialog {
    /// Before the dialog is drawn, the previous answer is forgotten.
    pub fn before_show(&mut self)
        ensures
            final(self).answer is None,
            final(self).name == old(self).name,
            final(self).content == old(self).content,
    {
        self.answer = None;
    }

    /// After the dialog is drawn, an answer closes it.
    pub fn after_show(&self, open: &mut bool)
        ensures
            *final(open) == (if self.answer is Some {
                false
            } else {
                *old(open)
            }),
    {
        if self.answer.is_some() {
            *open = false;
        }
    }
}

/// The windows of the application and which of them are open.
#[derive(Debug)]
pub struct WindowManager {
    pub about_open: bool,
    pub error_open: bool,
    pub error_exit_app: bool,
    pub options: OptionsWindow,
    pub options_open: bool,
    pub new_branch: NewBranchWindow,
    pub new_branch_open: bool,
    pub new_tag: NewTagWindow,
    pub new_tag_open: bool,
    pub clean_dialog: Dialog,
    pub clean_dialog_open: bool,
    pub sync_hard_dialog: Dialog,
    pub sync_hard_dialog_open: bool,
}

impl WindowManager {
    /// Every window closed, with its initial contents.
    pub fn new() -> (r: Self)
        ensures
            !r.about_open,
            !r.error_open,
            !r.error_exit_app,
            !r.options_open,
            !r.new_branch_open,
            !r.new_tag_open,
            !r.clean_dialog_open,
            !r.sync_hard_dialog_open,
            r.clean_dialog.answer is None,
            r.sync_hard_dialog.answer is None,
    {
        WindowManager {
            about_open: false,
            error_open: false,
            error_exit_app: false,
            options: OptionsWindow::new(),
            options_open: false,
            new_branch: NewBranchWindow::new(),
            new_branch_open: false,
            new_tag: NewTagWindow::new(),
            new_tag_open: false,
            clean_dialog: Dialog::create(String::from_str("Clean"), String::from_str("Confirm clean?")),
            clean_dialog_open: false,
            sync_hard_dialog: Dialog::create(
                String::from_str("Sync Hard"),
                String::from_str(
                    "Confirm sync hard?\n\nThis will force delete:\n.git/shallow.lock\n.git/index.lock",
                ),
            ),
            sync_hard_dialog_open: false,
        }
    }

    /// Whether the error window is open.
    pub fn is_error_open(&self) -> (r: bool)
        ensures
            r == self.error_open,
    {
        self.error_open
    }

    /// Closes every window but the error window.
    pub fn close_all(&mut self)
        ensures
            !final(self).about_open,
            !final(self).options_open,
            !final(self).clean_dialog_open,
            !final(self).sync_hard_dialog_open,
            !final(self).new_branch_open,
            !final(self).new_tag_open,
            final(self).error_open == old(self).error_open,
            final(self).error_exit_app == old(self).error_exit_app,
    {
        self.about_open = false;
        self.options_open = false;
        self.clean_dialog_open = false;
        self.sync_hard_dialog_open = false;
        self.new_branch_open = false;
        self.new_tag_open = false;
    }
}

/// What the windows ask for once they have been drawn.
pub struct WindowManagerOutput {
    pub commands: Vec<CommandType>,
    pub ops_commands: Vec<OpsCommand>,
    pub save_options: bool,
    pub save_snapshot_ignore: bool,
    pub save_new_branch_option: bool,
    pub save_new_tag_option: bool,
    pub retry_config_save: bool,
    pub exit_app: bool,
}

/// The commands the confirmation dialogs ask for: `clean`, then a hard sync.
pub open spec fn dialog_commands(clean_ok: bool, sync_hard_ok: bool) -> Seq<CommandType> {
    (if clean_ok {
        seq![CommandType::Clean]
    } else {
        Seq::empty()
    }) + (if sync_hard_ok {
        seq![CommandType::SyncHard]
    } else {
        Seq::empty()
    })
}

impl WindowManager {
    /// Reads what the windows ask for after they were drawn; `*_was_open`
    /// say which were open before, `retry_requested` whether the error window
    /// asked to save again.  A closed options window saves the options; a
    /// closed error window ends the application when it said so; a confirmed
    /// dialog runs its command; a confirmed new branch or tag is closed,
    /// saved and run.
    pub fn collect_output(
        &mut self,
        options_was_open: bool,
        error_was_open: bool,
        new_branch_was_open: bool,
        new_tag_was_open: bool,
        retry_requested: bool,
    ) -> (out: WindowManagerOutput)
        ensures
            out.save_options == (options_was_open && !old(self).options_open),
            out.save_snapshot_ignore == out.save_options,
            out.retry_config_save == (error_was_open && retry_requested),
            error_was_open && !old(self).error_open ==> out.exit_app == old(self).error_exit_app
                && !final(self).error_exit_app,
            !(error_was_open && !old(self).error_open) ==> !out.exit_app && final(self).error_exit_app
                == old(self).error_exit_app,
            out.commands@ == dialog_commands(
                old(self).clean_dialog.answer == Some(true),
                old(self).sync_hard_dialog.answer == Some(true),
            ),
            out.save_new_branch_option == ((new_branch_was_open && !old(self).new_branch_open)
                || old(self).new_branch.confirm_create),
            out.save_new_tag_option == ((new_tag_was_open && !old(self).new_tag_open)
                || old(self).new_tag.confirm_create),
            !final(self).new_branch.confirm_create,
            !final(self).new_tag.confirm_create,
            old(self).new_branch.confirm_create ==> !final(self).new_branch_open,
            !old(self).new_branch.confirm_create ==> final(self).new_branch_open == old(self).new_branch_open,
            old(self).new_tag.confirm_create ==> !final(self).new_tag_open,
            !old(self).new_tag.confirm_create ==> final(self).new_tag_open == old(self).new_tag_open,
            out.ops_commands@.len() == (if old(self).new_branch.confirm_create {
                1int
            } else {
                0
            }) + (if old(self).new_tag.confirm_create {
                1int
            } else {
                0
            }),
            old(self).new_branch.confirm_create ==> (out.ops_commands@[0] matches OpsCommand::CreateBranch(o)
                && o.new_branch == old(self).new_branch.new_branch && o.path == old(self).new_branch.root_path
                && o.config_path == old(self).new_branch.config_path && o.new_config_path == Some(
                old(self).new_branch.new_config_path,
            ) && o.force && entries_of(o.ignore) == unselected(
                selection_view(old(self).new_branch.repos@),
            )),
            old(self).new_tag.confirm_create ==> (out.ops_commands@.last() matches OpsCommand::CreateTag(o)
                && o.new_tag == old(self).new_tag.new_tag && o.path == old(self).new_tag.root_path
                && o.push == old(self).new_tag.push && o.config_path == old(self).new_tag.config_path
                && entries_of(o.ignore) == unselected(selection_view(old(self).new_tag.repos@))),
            final(self).error_open == old(self).error_open,
            final(self).options_open == old(self).options_open,
    {
        let save_options = options_was_open && !self.options_open;
        let retry_config_save = error_was_open && retry_requested;
        let mut exit_app = false;
        if error_was_open && !self.error_open {
            exit_app = self.error_exit_app;
            self.error_exit_app = false;
        }
        let mut commands: Vec<CommandType> = Vec::new();
        if self.clean_dialog.is_ok() {
            commands.push(CommandType::Clean);
        }
        if self.sync_hard_dialog.is_ok() {
            commands.push(CommandType::SyncHard);
        }
        proof {
            assert(commands@ =~= dialog_commands(
                self.clean_dialog.answer == Some(true),
                self.sync_hard_dialog.answer == Some(true),
            ));
        }
        let mut ops_commands: Vec<OpsCommand> = Vec::new();
        let mut save_new_branch_option = new_branch_was_open && !self.new_branch_open;
        if self.new_branch.confirm_create {
            self.new_branch.confirm_create = false;
            self.new_branch_open = false;
            save_new_branch_option = true;
            ops_commands.push(OpsCommand::CreateBranch(self.new_branch.get_options()));
        }
        let mut save_new_tag_option = new_tag_was_open && !self.new_tag_open;
        if self.new_tag.confirm_create {
            self.new_tag.confirm_create = false;
            self.new_tag_open = false;
            save_new_tag_option = true;
            ops_commands.push(OpsCommand::CreateTag(self.new_tag.get_options()));
        }
        WindowManagerOutput {
            commands,
            ops_commands,
            save_options,
            save_snapshot_ignore: save_options,
            save_new_branch_option,
            save_new_tag_option,
            retry_config_save,
            exit_app,
        }
    }
}

/// The entries of an optional saved list; none when nothing is saved.
pub open spec fn saved_entries(o: Option<String>) -> Seq<Seq<char>> {
    match opt_list_entries(o) {
        Some(e) => e,
        None => Seq::empty(),
    }
}

impl WindowManager {
    /// The new-branch window opens, alone, filled from the open project: its
    /// directory and repositories file, the repositories of `config`, and the
    /// branch name, new repositories file and unselected repositories saved
    /// for the project.
    pub fn open_new_branch(&mut self, session: &SessionManager, config: &MgitConfig)
        ensures
            final(self).new_branch_open,
            !final(self).about_open,
            !final(self).options_open,
            !final(self).clean_dialog_open,
            !final(self).sync_hard_dialog_open,
            !final(self).new_tag_open,
            final(self).error_open == old(self).error_open,
            final(self).error_exit_app == old(self).error_exit_app,
            !final(self).new_branch.confirm_create,
            final(self).new_branch.root_path@ == norm_path(session.project_path@),
            final(self).new_branch.config_path@ == norm_path(session.config_file@),
            final(self).new_branch.new_branch@ == text_of(session.project_settings.new_branch_name),
            final(self).new_branch.new_config_path@ == (if text_of(
                session.project_settings.new_branch_config_path,
            ).len() > 0 {
                text_of(session.project_settings.new_branch_config_path)
            } else {
                match default_new_config_path(session.config_file@) {
                    Some(p) => p,
                    None => Seq::empty(),
                }
            }),
            selection_view(final(self).new_branch.repos@) == repo_selections(
                repos_of(config),
                saved_entries(session.project_settings.new_branch_ignore),
            ),
    {
        self.close_all();
        let ignore = match session.get_new_branch_ignores() {
            Some(v) => v,
            None => Vec::new(),
        };
        proof {
            assert(ignore.deep_view() =~= saved_entries(session.project_settings.new_branch_ignore));
        }
        let name = match session.get_new_branch_name() {
            Some(n) => n,
            None => String::new(),
        };
        let config_path = match session.get_new_branch_config_path() {
            Some(c) => c,
            None => String::new(),
        };
        self.new_branch.update_settings(
            session.project_path.as_str(),
            session.config_file.as_str(),
            config,
            name.as_str(),
            config_path.as_str(),
            &ignore,
        );
        self.new_branch_open = true;
    }

    /// The new-tag window opens, alone, filled from the open project: its
    /// directory and repositories file, the repositories of `config`, and the
    /// tag name, whether to push and the unselected repositories saved for
    /// the project.
    pub fn open_new_tag(&mut self, session: &SessionManager, config: &MgitConfig)
        ensures
            final(self).new_tag_open,
            !final(self).about_open,
            !final(self).options_open,
            !final(self).clean_dialog_open,
            !final(self).sync_hard_dialog_open,
            !final(self).new_branch_open,
            final(self).error_open == old(self).error_open,
            final(self).error_exit_app == old(self).error_exit_app,
            !final(self).new_tag.confirm_create,
            final(self).new_tag.root_path@ == norm_path(session.project_path@),
            final(self).new_tag.config_path@ == norm_path(session.config_file@),
            final(self).new_tag.new_tag@ == text_of(session.project_settings.new_tag_name),
            final(self).new_tag.push == match session.project_settings.new_tag_push {
                Some(b) => b,
                None => true,
            },
            selection_view(final(self).new_tag.repos@) == repo_selections(
                repos_of(config),
                saved_entries(session.project_settings.new_tag_ignore),
            ),
    {
        self.close_all();
        let ignore = match session.get_new_tag_ignores() {
            Some(v) => v,
            None => Vec::new(),
        };
        proof {
            assert(ignore.deep_view() =~= saved_entries(session.project_settings.new_tag_ignore));
        }
        let name = match session.get_new_tag_name() {
            Some(n) => n,
            None => String::new(),
        };
        let push = session.get_new_tag_push();
        self.new_tag.update_settings(
            session.project_path.as_str(),
            session.config_file.as_str(),
            config,
            name.as_str(),
            push,
            &ignore,
        );
        self.new_tag_open = true;
    }
}

} // verus!
