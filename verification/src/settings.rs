//! User and per-project settings, and the most-recently-used lists they keep.
use crate::text::{
    contains, contains_str, ends_with, lemma_contains, lemma_find_shift, lemma_find_skip,
    lemma_replace_shift, lemma_replace_skip,
    matches_at, push_char, replace, replace_from, replace_str, find_from,
};
use crate::labels::LabelSet;
use vstd::prelude::*;

verus! {

broadcast use vstd::string::group_string_axioms;

/// How `sync` treats local changes.
#[derive(PartialEq, Eq, Structural, Debug, Clone, Copy)]
pub enum SyncType {
    Normal,
    Stash,
    Hard,
}

/// The command options that the options window edits.
#[derive(PartialEq, Eq, Structural, Debug, Clone, Copy)]
pub struct GuiOptions {
    pub init_force: bool,
    pub snapshot_force: bool,
    pub snapshot_branch: bool,
    pub sync_type: SyncType,
    pub sync_no_checkout: bool,
    pub sync_no_track: bool,
    pub sync_thread: u32,
    pub sync_depth: u32,
    pub fetch_thread: u32,
    pub fetch_depth: u32,
}

/// The user's saved command options; an absent value means "use the default".
#[derive(Debug, Clone, Copy)]
pub struct TomlUserSettings {
    pub init_force: Option<bool>,
    pub snapshot_force: Option<bool>,
    pub snapshot_branch: Option<bool>,
    pub sync_type: Option<SyncType>,
    pub sync_no_checkout: Option<bool>,
    pub sync_no_track: Option<bool>,
    pub sync_thread: Option<u32>,
    pub sync_depth: Option<u32>,
    pub fetch_thread: Option<u32>,
    pub fetch_depth: Option<u32>,
}

impl TomlUserSettings {
    /// Settings with no saved value.
    pub open spec fn empty() -> Self {
        TomlUserSettings {
            init_force: None,
            snapshot_force: None,
            snapshot_branch: None,
            sync_type: None,
            sync_no_checkout: None,
            sync_no_track: None,
            sync_thread: None,
            sync_depth: None,
            fetch_thread: None,
            fetch_depth: None,
        }
    }
}

impl Default for TomlUserSettings {
    fn default() -> (r: Self)
        ensures
            r == TomlUserSettings::empty(),
    {
        TomlUserSettings {
            init_force: None,
            snapshot_force: None,
            snapshot_branch: None,
            sync_type: None,
            sync_no_checkout: None,
            sync_no_track: None,
            sync_thread: None,
            sync_depth: None,
            fetch_thread: None,
            fetch_depth: None,
        }
    }
}

/// The most recently used entries are kept up to this many.
pub const HISTORY_LIMIT: usize = 20;

/// The first position at or after `k` that holds `x`.
pub open spec fn first_index(h: Seq<Seq<char>>, x: Seq<char>, k: int) -> Option<int>
    decreases h.len() - k,
{
    if k < 0 || k >= h.len() {
        None
    } else if h[k] == x {
        Some(k)
    } else {
        first_index(h, x, k + 1)
    }
}

/// `h` without the first occurrence of `x`.
pub open spec fn without_first(h: Seq<Seq<char>>, x: Seq<char>) -> Seq<Seq<char>> {
    match first_index(h, x, 0) {
        Some(i) => h.remove(i),
        None => h,
    }
}

/// The history after `p` is used: `p` moves (or is added) to the front, and
/// one entry is dropped from the back when the list grows past the limit.
pub open spec fn new_history(p: Seq<char>, h: Seq<Seq<char>>) -> Seq<Seq<char>> {
    let r = seq![p] + without_first(h, p);
    if r.len() > HISTORY_LIMIT {
        r.drop_last()
    } else {
        r
    }
}

/// No entry occurs twice.
pub open spec fn no_dup(h: Seq<Seq<char>>) -> bool {
    forall|i: int, j: int| 0 <= i < j < h.len() ==> h[i] != h[j]
}

proof fn lemma_first_index(h: Seq<Seq<char>>, x: Seq<char>, k: int)
    requires
        0 <= k,
    ensures
        first_index(h, x, k) matches Some(i) ==> k <= i < h.len() && h[i] == x && forall|j: int|
            k <= j < i ==> h[j] != x,
        first_index(h, x, k) is None ==> forall|j: int| k <= j < h.len() ==> h[j] != x,
    decreases h.len() - k,
{
    if k < h.len() && h[k] != x {
        lemma_first_index(h, x, k + 1);
    }
}

/// Moves `path` to the front of `history`, adding it if it is absent, and
/// keeps the list within the limit.
pub fn get_new_history(path: String, history: &mut Vec<String>)
    ensures
        final(history).deep_view() == new_history(path@, old(history).deep_view()),
{
    let ghost h = history.deep_view();
    proof {
        lemma_first_index(h, path@, 0);
    }
    if history.len() > 0 {
        let mut i: usize = 0;
        let mut found = false;
        while i < history.len()
            invariant_except_break
                !found,
            invariant
                i <= history.len(),
                history.deep_view() == h,
                first_index(h, path@, 0) == first_index(h, path@, i as int),
            ensures
                found ==> i < history.len() && h[i as int] == path@,
                !found ==> i == history.len(),
            decreases history.len() - i,
        {
            if history[i] == path {
                found = true;
                break;
            }
            i = i + 1;
        }
        if found {
            assert(first_index(h, path@, i as int) == Some(i as int));
            history.remove(i);
            assert(history.deep_view() =~= h.remove(i as int));
        } else {
            assert(first_index(h, path@, i as int) is None);
            assert(history.deep_view() =~= without_first(h, path@));
        }
        let ghost h1 = history.deep_view();
        history.insert(0, path);
        assert(history.deep_view() =~= seq![path@] + h1);
        if history.len() > HISTORY_LIMIT {
            let ghost h2 = history.deep_view();
            history.pop();
            assert(history.deep_view() =~= h2.drop_last());
        }
    } else {
        let ghost p = path@;
        *history = vec![path];
        assert(history.deep_view() =~= seq![p]);
        assert(without_first(h, p) =~= h);
    }
}

/// The history always starts with the entry just used.
pub proof fn lemma_history_front(p: Seq<char>, h: Seq<Seq<char>>)
    ensures
        new_history(p, h).len() >= 1,
        new_history(p, h)[0] == p,
{
    lemma_first_index(h, p, 0);
}

/// A history within the limit stays within the limit.
pub proof fn lemma_history_bounded(p: Seq<char>, h: Seq<Seq<char>>)
    requires
        h.len() <= HISTORY_LIMIT,
    ensures
        new_history(p, h).len() <= HISTORY_LIMIT,
{
    lemma_first_index(h, p, 0);
}

/// A history without repeated entries keeps that property.
pub proof fn lemma_history_no_dup(p: Seq<char>, h: Seq<Seq<char>>)
    requires
        no_dup(h),
    ensures
        no_dup(new_history(p, h)),
{
    lemma_first_index(h, p, 0);
    let w = without_first(h, p);
    assert forall|i: int| 0 <= i < w.len() implies w[i] != p by {
        match first_index(h, p, 0) {
            Some(k) => {
                if i < k {
                    assert(w[i] == h[i]);
                } else {
                    assert(w[i] == h[i + 1]);
                    assert(h[k] == p);
                }
            },
            None => {},
        }
    }
    assert forall|i: int, j: int| 0 <= i < j < w.len() implies w[i] != w[j] by {
        match first_index(h, p, 0) {
            Some(k) => {
                let ii = if i < k { i } else { i + 1 };
                let jj = if j < k { j } else { j + 1 };
                assert(w[i] == h[ii]);
                assert(w[j] == h[jj]);
            },
            None => {},
        }
    }
    let r = seq![p] + w;
    assert forall|i: int, j: int| 0 <= i < j < r.len() implies r[i] != r[j] by {
        if i == 0 {
            assert(r[j] == w[j - 1]);
        } else {
            assert(r[i] == w[i - 1]);
            assert(r[j] == w[j - 1]);
        }
    }
}

/// Using the same entry twice in a row is the same as using it once.
pub proof fn lemma_history_idempotent(p: Seq<char>, h: Seq<Seq<char>>)
    requires
        h.len() <= HISTORY_LIMIT,
    ensures
        new_history(p, new_history(p, h)) == new_history(p, h),
{
    lemma_first_index(h, p, 0);
    let r = new_history(p, h);
    assert(r[0] == p);
    assert(first_index(r, p, 0) == Some(0int));
    assert(without_first(r, p) =~= r.drop_first());
    assert(seq![p] + r.drop_first() =~= r);
}

/// Per-project settings, saved in the user's home directory.
#[derive(Debug)]
pub struct TomlProjectSettings {
    pub project: Option<String>,
    pub recent_configs: Option<Vec<String>>,
    pub snapshot_ignore: Option<String>,
    pub new_branch_ignore: Option<String>,
    pub new_branch_name: Option<String>,
    pub new_branch_config_path: Option<String>,
    pub new_tag_ignore: Option<String>,
    pub new_tag_name: Option<String>,
    pub new_tag_push: Option<bool>,
    pub ignore: Option<String>,
    /// The project's labels.
    pub labels: LabelSet,
}

/// `None` for the empty string, the string otherwise.
pub open spec fn opt_nonempty(s: String) -> Option<String> {
    if s@.len() == 0 {
        None
    } else {
        Some(s)
    }
}

/// The text of an optional string; the empty text when absent.
pub open spec fn text_of(o: Option<String>) -> Seq<char> {
    match o {
        Some(s) => s@,
        None => Seq::empty(),
    }
}

/// The entries of an optional list; no entries when absent.
pub open spec fn entries_of(o: Option<Vec<String>>) -> Seq<Seq<char>> {
    match o {
        Some(v) => v.deep_view(),
        None => Seq::empty(),
    }
}

/// The ignore list after `p` is ignored (`is_ignore`) or no longer ignored:
/// the list holds one line `p` followed by a newline per ignored path.
pub open spec fn saved_ignore(old: Seq<char>, p: Seq<char>, is_ignore: bool) -> Seq<char> {
    let line = p.push('\n');
    if !is_ignore && contains(old, line) {
        replace(old, line, Seq::empty())
    } else if is_ignore && !contains(old, line) {
        old + line
    } else {
        old
    }
}

fn string_opt_nonempty(s: String) -> (r: Option<String>)
    ensures
        r == opt_nonempty(s),
{
    if s.as_str().is_empty() {
        None
    } else {
        Some(s)
    }
}

/// The SHA-256 digest of a text's UTF-8 bytes, in lowercase hexadecimal.
pub uninterp spec fn sha256_hex(text: Seq<char>) -> Seq<char>;

/// A lowercase hexadecimal digit.
pub open spec fn is_lower_hex(c: char) -> bool {
    ('0' <= c && c <= '9') || ('a' <= c && c <= 'f')
}

/// `sha256::digest` of a text: `hex::encode` of the SHA-256 digest of its
/// bytes.  The result is named `sha256_hex` of the text; that it is 64
/// lowercase hexadecimal digits (32 bytes, encoded) is stated, the hash
/// itself is not.
#[verifier::external_body]
fn sha256_digest(text: &str) -> (r: String)
    ensures
        r@ == sha256_hex(text@),
        r@.len() == 64,
        forall|i: int| 0 <= i < 64 ==> is_lower_hex(#[trigger] r@[i]),
{
    sha256::digest(text)
}

/// The name of the file that keeps the settings of a project: the digest of
/// the project's path.
pub fn settings_file_name(project: &str) -> (r: String)
    ensures
        r@ == sha256_hex(project@),
        r@.len() == 64,
        forall|i: int| 0 <= i < r@.len() ==> is_lower_hex(#[trigger] r@[i]),
{
    sha256_digest(project)
}

/// The first line of a project's settings file.
pub open spec fn settings_header() -> Seq<char> {
    "# This file is about recent config.\n"@
}

/// The text of a project's settings file: the header, then, after an empty
/// line, the settings as TOML when they could be written.
pub fn settings_file_text(serialized: Option<String>) -> (r: String)
    ensures
        r@ == settings_header() + match serialized {
            Some(t) => "\n"@ + t@,
            None => Seq::empty(),
        },
{
    let mut out = String::from_str("# This file is about recent config.\n");
    if let Some(t) = serialized {
        out.append("\n");
        out.append(t.as_str());
    }
    out
}

impl TomlProjectSettings {
    /// Settings with nothing saved.
    pub fn new() -> (r: Self)
        ensures
            r.project is None,
            r.recent_configs is None,
            r.snapshot_ignore is None,
            r.new_branch_ignore is None,
            r.new_branch_name is None,
            r.new_branch_config_path is None,
            r.new_tag_ignore is None,
            r.new_tag_name is None,
            r.new_tag_push is None,
            r.ignore is None,
            r.labels.labels().len() == 0,
    {
        TomlProjectSettings {
            project: None,
            recent_configs: None,
            snapshot_ignore: None,
            new_branch_ignore: None,
            new_branch_name: None,
            new_branch_config_path: None,
            new_tag_ignore: None,
            new_tag_name: None,
            new_tag_push: None,
            ignore: None,
            labels: LabelSet::new(),
        }
    }

    /// Records `new_path` as the most recently used config file.
    pub fn push_recent_config(&mut self, new_path: String)
        ensures
            final(self).recent_configs is Some,
            entries_of(final(self).recent_configs) == new_history(
                new_path@,
                entries_of(old(self).recent_configs),
            ),
            (TomlProjectSettings { recent_configs: final(self).recent_configs, ..*old(self) })
                == *final(self),
    {
        match &mut self.recent_configs {
            Some(history) => {
                get_new_history(new_path, history);
            },
            None => {
                let ghost p = new_path@;
                let v = vec![new_path];
                proof {
                    assert(v.deep_view() =~= seq![p]);
                    assert(without_first(Seq::<Seq<char>>::empty(), p) =~= Seq::<Seq<char>>::empty());
                    assert(new_history(p, Seq::empty()) =~= seq![p]);
                }
                self.recent_configs = Some(v);
            },
        }
    }

    /// Adds `path` to the ignore list, or removes it from there.
    pub fn save_ignore(&mut self, path: String, is_ignore: bool)
        ensures
            text_of(final(self).ignore) == saved_ignore(text_of(old(self).ignore), path@, is_ignore),
            final(self).ignore matches Some(s) ==> s@.len() > 0,
            (TomlProjectSettings { ignore: final(self).ignore, ..*old(self) }) == *final(self),
    {
        let mut ignore = match &self.ignore {
            Some(s) => s.clone(),
            None => String::new(),
        };
        let ghost old_text = ignore@;
        assert(old_text == text_of(old(self).ignore));
        let mut new_ignore = path;
        push_char(&mut new_ignore, '\n');
        let present = contains_str(ignore.as_str(), new_ignore.as_str());
        if !is_ignore && present {
            ignore = replace_str(ignore.as_str(), new_ignore.as_str(), "");
            proof {
                assert(""@ =~= Seq::<char>::empty()) by {
                    reveal_strlit("");
                }
            }
        } else if is_ignore && !present {
            ignore.append(new_ignore.as_str());
        }
        self.ignore = string_opt_nonempty(ignore);
    }

    /// Saves the snapshot ignore text; the empty text saves nothing.
    pub fn save_snapshot_ignore(&mut self, snapshot_ignore: String)
        ensures
            *final(self) == (TomlProjectSettings {
                snapshot_ignore: opt_nonempty(snapshot_ignore),
                ..*old(self)
            }),
    {
        self.snapshot_ignore = string_opt_nonempty(snapshot_ignore);
    }

    /// Saves the repositories left out of a new branch.
    pub fn save_new_branch_ignore(&mut self, new_branch_ignore: String)
        ensures
            *final(self) == (TomlProjectSettings {
                new_branch_ignore: opt_nonempty(new_branch_ignore),
                ..*old(self)
            }),
    {
        self.new_branch_ignore = string_opt_nonempty(new_branch_ignore);
    }

    /// Saves the name of the last new branch.
    pub fn save_new_branch_name(&mut self, branch_name: String)
        ensures
            *final(self) == (TomlProjectSettings {
                new_branch_name: opt_nonempty(branch_name),
                ..*old(self)
            }),
    {
        self.new_branch_name = string_opt_nonempty(branch_name);
    }

    /// Saves the config path written for the last new branch.
    pub fn save_new_branch_config_path(&mut self, config_path: String)
        ensures
            *final(self) == (TomlProjectSettings {
                new_branch_config_path: opt_nonempty(config_path),
                ..*old(self)
            }),
    {
        self.new_branch_config_path = string_opt_nonempty(config_path);
    }

    /// Saves the repositories left out of a new tag.
    pub fn save_new_tag_ignore(&mut self, new_tag_ignore: String)
        ensures
            *final(self) == (TomlProjectSettings {
                new_tag_ignore: opt_nonempty(new_tag_ignore),
                ..*old(self)
            }),
    {
        self.new_tag_ignore = string_opt_nonempty(new_tag_ignore);
    }

    /// Saves the name of the last new tag.
    pub fn save_new_tag_name(&mut self, tag_name: String)
        ensures
            *final(self) == (TomlProjectSettings {
                new_tag_name: opt_nonempty(tag_name),
                ..*old(self)
            }),
    {
        self.new_tag_name = string_opt_nonempty(tag_name);
    }

    /// Saves whether the last new tag was pushed.
    pub fn save_new_tag_push(&mut self, push: bool)
        ensures
            *final(self) == (TomlProjectSettings { new_tag_push: Some(push), ..*old(self) }),
    {
        self.new_tag_push = Some(push);
    }
}

/// Ignoring a path puts its line into the ignore list.
pub proof fn lemma_ignore_adds_line(old: Seq<char>, p: Seq<char>)
    ensures
        contains(saved_ignore(old, p, true), p.push('\n')),
{
    let line = p.push('\n');
    if !contains(old, line) {
        let s = old + line;
        assert(s.subrange(old.len() as int, old.len() + line.len() as int) =~= line);
        assert(matches_at(s, line, old.len() as int));
        lemma_contains(s, line);
    }
}

/// A list of lines as text: each line followed by a newline.
pub open spec fn join_lines(ls: Seq<Seq<char>>) -> Seq<char>
    decreases ls.len(),
{
    if ls.len() == 0 {
        Seq::empty()
    } else {
        ls[0].push('\n') + join_lines(ls.drop_first())
    }
}

/// The lines of `ls` other than `p`, in order.
pub open spec fn without_line(ls: Seq<Seq<char>>, p: Seq<char>) -> Seq<Seq<char>>
    decreases ls.len(),
{
    if ls.len() == 0 {
        Seq::empty()
    } else if ls[0] == p {
        without_line(ls.drop_first(), p)
    } else {
        seq![ls[0]] + without_line(ls.drop_first(), p)
    }
}

/// An ignore list read as lines for the path `p`: no line holds a newline,
/// and no line but `p` itself ends with `p`.
pub open spec fn plain_lines(ls: Seq<Seq<char>>, p: Seq<char>) -> bool {
    forall|i: int|
        0 <= i < ls.len() ==> !(#[trigger] ls[i]).contains('\n') && (ls[i] != p ==> !ends_with(
            ls[i],
            p,
        ))
}

/// The line of `p` occurs nowhere in the first line `l` of a text or at the
/// newline after it, unless `l` is `p`.
proof fn lemma_no_match_in_line(l: Seq<char>, rest: Seq<char>, p: Seq<char>)
    requires
        p.len() > 0,
        !p.contains('\n'),
        !l.contains('\n'),
        l != p,
        !ends_with(l, p),
    ensures
        forall|j: int| 0 <= j < l.len() + 1 ==> !matches_at(l.push('\n') + rest, p.push('\n'), j),
{
    let t = l.push('\n') + rest;
    let pat = p.push('\n');
    assert forall|j: int| 0 <= j < l.len() + 1 implies !matches_at(t, pat, j) by {
        if matches_at(t, pat, j) {
            let e = j + p.len();
            assert(t.subrange(j, j + pat.len())[p.len() as int] == pat[p.len() as int]);
            assert(t[e] == '\n');
            if e < l.len() {
                assert(t[e] == l[e]);
                assert(l.contains(l[e]));
            } else if e > l.len() {
                let q = l.len() as int;
                assert(t.subrange(j, j + pat.len())[q - j] == pat[q - j]);
                assert(t[q] == '\n');
                assert(pat[q - j] == p[q - j]);
                assert(p.contains(p[q - j]));
            } else {
                assert(l.subrange(j, l.len() as int) =~= p) by {
                    assert forall|x: int| 0 <= x < p.len() implies l.subrange(j, l.len() as int)[x]
                        == p[x] by {
                        assert(t.subrange(j, j + pat.len())[x] == pat[x]);
                        assert(t[j + x] == l[j + x]);
                    }
                }
                if j == 0 {
                    assert(l =~= p);
                } else {
                    assert(ends_with(l, p));
                }
            }
        }
    }
}

/// The lines after the first satisfy what the list does.
proof fn lemma_plain_rest(ls: Seq<Seq<char>>, p: Seq<char>)
    requires
        ls.len() > 0,
        plain_lines(ls, p),
    ensures
        plain_lines(ls.drop_first(), p),
{
    assert forall|i: int| 0 <= i < ls.drop_first().len() implies !(#[trigger] ls.drop_first()[i]).contains(
        '\n',
    ) && (ls.drop_first()[i] != p ==> !ends_with(ls.drop_first()[i], p)) by {
        assert(ls.drop_first()[i] == ls[i + 1]);
    }
}

/// The text of a list of lines holds the line of `p` just when `p` is one of
/// the lines.
proof fn lemma_lines_contain(ls: Seq<Seq<char>>, p: Seq<char>)
    requires
        p.len() > 0,
        !p.contains('\n'),
        plain_lines(ls, p),
    ensures
        contains(join_lines(ls), p.push('\n')) == ls.contains(p),
    decreases ls.len(),
{
    let pat = p.push('\n');
    if ls.len() > 0 {
        let l = ls[0];
        let rest = join_lines(ls.drop_first());
        let t = l.push('\n') + rest;
        assert(join_lines(ls) == t);
        lemma_plain_rest(ls, p);
        lemma_lines_contain(ls.drop_first(), p);
        if l == p {
            assert(t.subrange(0, pat.len() as int) =~= pat);
            assert(ls.contains(p));
        } else {
            assert(!l.contains('\n') && !ends_with(l, p));
            lemma_no_match_in_line(l, rest, p);
            lemma_find_skip(t, pat, 0, l.len() + 1 as int);
            lemma_find_shift(l.push('\n'), rest, pat, 0);
            assert(ls.drop_first().contains(p) == ls.contains(p)) by {
                if ls.contains(p) {
                    let i = choose|i: int| 0 <= i < ls.len() && ls[i] == p;
                    assert(ls.drop_first()[i - 1] == p);
                }
                if ls.drop_first().contains(p) {
                    let i = choose|i: int| 0 <= i < ls.drop_first().len() && ls.drop_first()[i] == p;
                    assert(ls[i + 1] == p);
                }
            }
        }
    }
}

/// Removing every line of `p` from the text of a list of lines leaves the
/// text of the other lines.
proof fn lemma_lines_replace(ls: Seq<Seq<char>>, p: Seq<char>)
    requires
        p.len() > 0,
        !p.contains('\n'),
        plain_lines(ls, p),
    ensures
        replace(join_lines(ls), p.push('\n'), Seq::empty()) == join_lines(without_line(ls, p)),
    decreases ls.len(),
{
    let pat = p.push('\n');
    let e = Seq::<char>::empty();
    if ls.len() == 0 {
        assert(join_lines(ls) == e);
        assert(replace_from(e, pat, e, 0) =~= e);
    } else {
        let l = ls[0];
        let head = l.push('\n');
        let rest = join_lines(ls.drop_first());
        let t = head + rest;
        assert(join_lines(ls) == t);
        lemma_plain_rest(ls, p);
        lemma_lines_replace(ls.drop_first(), p);
        lemma_replace_shift(head, rest, pat, e, 0);
        if l == p {
            assert(t.subrange(0, pat.len() as int) =~= pat);
            assert(t.subrange(0, 0) + e + replace_from(t, pat, e, pat.len() as int) =~= replace_from(
                t,
                pat,
                e,
                head.len() as int,
            ));
        } else {
            assert(!l.contains('\n') && !ends_with(l, p));
            lemma_no_match_in_line(l, rest, p);
            lemma_replace_skip(t, pat, e, 0, head.len() as int);
            assert(t.subrange(0, head.len() as int) =~= head);
            let w = without_line(ls.drop_first(), p);
            assert((seq![l] + w)[0] == l);
            assert((seq![l] + w).drop_first() =~= w);
        }
    }
}

/// Adding a line at the end adds its text at the end.
proof fn lemma_join_push(ls: Seq<Seq<char>>, x: Seq<char>)
    ensures
        join_lines(ls.push(x)) == join_lines(ls) + x.push('\n'),
    decreases ls.len(),
{
    if ls.len() == 0 {
        assert(ls.push(x).drop_first() =~= Seq::<Seq<char>>::empty());
        assert(join_lines(ls.push(x).drop_first()) == Seq::<char>::empty());
        assert(ls.push(x)[0] == x);
        assert(join_lines(ls) == Seq::<char>::empty());
        assert(join_lines(ls.push(x)) =~= x.push('\n'));
    } else {
        assert(ls.push(x).drop_first() =~= ls.drop_first().push(x));
        lemma_join_push(ls.drop_first(), x);
        assert(join_lines(ls.push(x)) =~= join_lines(ls) + x.push('\n'));
    }
}

/// Without the lines of `p`, the list no longer holds `p`, still satisfies
/// what it did, and is unchanged when it held no `p`.
proof fn lemma_without_line(ls: Seq<Seq<char>>, p: Seq<char>)
    requires
        plain_lines(ls, p),
    ensures
        plain_lines(without_line(ls, p), p),
        !without_line(ls, p).contains(p),
        !ls.contains(p) ==> without_line(ls, p) == ls,
    decreases ls.len(),
{
    if ls.len() > 0 {
        lemma_plain_rest(ls, p);
        lemma_without_line(ls.drop_first(), p);
        let w = without_line(ls.drop_first(), p);
        if ls[0] != p {
            let v = seq![ls[0]] + w;
            assert(plain_lines(v, p)) by {
                assert forall|i: int| 0 <= i < v.len() implies !(#[trigger] v[i]).contains('\n') && (
                v[i] != p ==> !ends_with(v[i], p)) by {
                    if i > 0 {
                        assert(v[i] == w[i - 1]);
                    }
                }
            }
            assert(!v.contains(p)) by {
                if v.contains(p) {
                    let i = choose|i: int| 0 <= i < v.len() && v[i] == p;
                    assert(v[i] == w[i - 1]);
                }
            }
            if !ls.contains(p) {
                assert(!ls.drop_first().contains(p)) by {
                    if ls.drop_first().contains(p) {
                        let i = choose|i: int| 0 <= i < ls.drop_first().len() && ls.drop_first()[i] == p;
                        assert(ls[i + 1] == p);
                    }
                }
                assert(v =~= ls);
            }
        } else {
            assert(ls.contains(p));
        }
    }
}

/// On an ignore list made of lines, for a path `p` that is not empty, holds
/// no newline, and that no other line ends with: ignoring `p` adds its line
/// at the end unless it is there, and no longer ignoring it removes every
/// line `p`.
pub proof fn lemma_ignore_lines(ls: Seq<Seq<char>>, p: Seq<char>)
    requires
        p.len() > 0,
        !p.contains('\n'),
        plain_lines(ls, p),
    ensures
        saved_ignore(join_lines(ls), p, true) == join_lines(
            if ls.contains(p) {
                ls
            } else {
                ls.push(p)
            },
        ),
        saved_ignore(join_lines(ls), p, false) == join_lines(without_line(ls, p)),
{
    lemma_lines_contain(ls, p);
    lemma_lines_replace(ls, p);
    lemma_join_push(ls, p);
    lemma_without_line(ls, p);
}

/// On such an ignore list, no longer ignoring a path a second time leaves the
/// list as the first time left it.
pub proof fn lemma_unignore_idempotent(ls: Seq<Seq<char>>, p: Seq<char>)
    requires
        p.len() > 0,
        !p.contains('\n'),
        plain_lines(ls, p),
    ensures
        saved_ignore(saved_ignore(join_lines(ls), p, false), p, false) == saved_ignore(
            join_lines(ls),
            p,
            false,
        ),
{
    lemma_ignore_lines(ls, p);
    let w = without_line(ls, p);
    lemma_without_line(ls, p);
    lemma_ignore_lines(w, p);
    lemma_without_line(w, p);
}

/// Ignoring a path a second time leaves the ignore list as the first time
/// left it.
pub proof fn lemma_ignore_idempotent(old: Seq<char>, p: Seq<char>)
    ensures
        saved_ignore(saved_ignore(old, p, true), p, true) == saved_ignore(old, p, true),
{
    lemma_ignore_adds_line(old, p);
}

/// Ignoring a path that holds no newline and is not in the list, then no
/// longer ignoring it, gives the list back.
pub proof fn lemma_ignore_round_trip(old: Seq<char>, p: Seq<char>)
    requires
        !p.contains('\n'),
        !contains(old, p.push('\n')),
    ensures
        saved_ignore(saved_ignore(old, p, true), p, false) == old,
{
    let line = p.push('\n');
    let s = old + line;
    let n = old.len() as int;
    assert(saved_ignore(old, p, true) == s);
    lemma_contains(old, line);
    assert(s.subrange(n, n + line.len()) =~= line);
    assert forall|j: int| 0 <= j < n implies !matches_at(s, line, j) by {
        if matches_at(s, line, j) {
            let e = j + p.len();
            assert(s.subrange(j, j + line.len())[p.len() as int] == line[p.len() as int]);
            assert(s[e] == '\n');
            if e < n {
                assert(old.subrange(j, j + line.len()) =~= s.subrange(j, j + line.len()));
                assert(matches_at(old, line, j));
            } else {
                assert(s[e] == p[e - n]);
                assert(p.contains(p[e - n]));
            }
        }
    }
    lemma_find_first_exact(s, line, 0, n);
    assert(contains(s, line));
    let t = replace_from(s, line, Seq::empty(), n + line.len());
    assert(find_from(s, line, n + line.len()) is None);
    assert(t =~= Seq::<char>::empty());
    assert(replace(s, line, Seq::empty()) =~= old);
}

/// `find_from` gives the first match at or after `k`.
proof fn lemma_find_first_exact(s: Seq<char>, p: Seq<char>, k: int, i: int)
    requires
        0 <= k <= i,
        matches_at(s, p, i),
        forall|j: int| k <= j < i ==> !matches_at(s, p, j),
    ensures
        find_from(s, p, k) == Some(i),
    decreases i - k,
{
    if k < i {
        lemma_find_first_exact(s, p, k + 1, i);
    }
}

} // verus!
