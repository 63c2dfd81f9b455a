//! What the repository list shows and how its edits change the entries.
use crate::config::RepoConfig;
use crate::repo_state::{RepoState, StateType};
use crate::session::opt_view;
use crate::text::{chars_of, push_char};
use vstd::prelude::*;

verus! {

broadcast use vstd::string::group_string_axioms;

/// The icon of a branch.
pub const BRANCH_ICON: &'static str = "\u{fb2b}";

/// The icon of a tag.
pub const TAG_ICON: &'static str = "\u{f9f8}";

/// The icon of a commit.
pub const COMMIT_ICON: &'static str = "\u{fc16}";

/// The number of bytes UTF-8 takes for a character.
pub open spec fn utf8_width(c: char) -> nat {
    if (c as u32) < 0x80 {
        1
    } else if (c as u32) < 0x800 {
        2
    } else if (c as u32) < 0x10000 {
        3
    } else {
        4
    }
}

/// The number of bytes UTF-8 takes for a text.
pub open spec fn utf8_len(s: Seq<char>) -> nat
    decreases s.len(),
{
    if s.len() == 0 {
        0
    } else {
        utf8_width(s[0]) + utf8_len(s.subrange(1, s.len() as int))
    }
}

/// How many leading characters of `s` fit in `n` bytes of UTF-8.
pub open spec fn fit_count(s: Seq<char>, n: int) -> nat
    decreases s.len(),
{
    if s.len() == 0 || utf8_width(s[0]) > n {
        0
    } else {
        1 + fit_count(s.subrange(1, s.len() as int), n - utf8_width(s[0]))
    }
}

/// The first `n` bytes of `s`, as characters; all of `s` when it is shorter.
pub open spec fn byte_prefix(s: Seq<char>, n: int) -> Seq<char> {
    s.take(fit_count(s, n) as int)
}

/// The first `n` bytes of `s` end between two characters, or `s` is
/// shorter than `n` bytes: cutting it there is possible.
pub open spec fn cuts_at_boundary(s: Seq<char>, n: int) -> bool {
    utf8_len(s) < n || utf8_len(byte_prefix(s, n)) == n
}

/// The line that shows what an entry points at: its branch, tag and the
/// first seven bytes of its commit, each after its icon.
pub open spec fn remote_ref_text(
    branch: Option<Seq<char>>,
    tag: Option<Seq<char>>,
    commit: Option<Seq<char>>,
) -> Seq<char> {
    let b = match branch {
        Some(x) => BRANCH_ICON@ + " "@ + x,
        None => Seq::empty(),
    };
    let t = match tag {
        Some(x) => b + "  "@ + TAG_ICON@ + " "@ + x,
        None => b,
    };
    match commit {
        Some(x) => t + "  "@ + COMMIT_ICON@ + " "@ + byte_prefix(x, 7),
        None => t,
    }
}

/// The bytes UTF-8 takes for a character.
fn utf8_width_of(c: char) -> (r: usize)
    ensures
        r == utf8_width(c),
        1 <= r <= 4,
{
    let cp = c as u32;
    if cp < 0x80 {
        1
    } else if cp < 0x800 {
        2
    } else if cp < 0x10000 {
        3
    } else {
        4
    }
}

/// The line that shows what an entry points at.  A commit is cut after its
/// seventh byte, which must end a character.
pub fn remote_ref_label(branch: &Option<String>, tag: &Option<String>, commit: &Option<String>) -> (r:
    String)
    requires
        commit matches Some(c) ==> cuts_at_boundary(c@, 7),
    ensures
        r@ == remote_ref_text(opt_view(*branch), opt_view(*tag), opt_view(*commit)),
{
    let mut r = String::new();
    if let Some(b) = branch {
        r.append(BRANCH_ICON);
        r.append(" ");
        r.append(b.as_str());
    }
    if let Some(t) = tag {
        r.append("  ");
        r.append(TAG_ICON);
        r.append(" ");
        r.append(t.as_str());
    }
    if let Some(c) = commit {
        r.append("  ");
        r.append(COMMIT_ICON);
        r.append(" ");
        let v = chars_of(c.as_str());
        let ghost before = r@;
        let mut room: usize = 7;
        let mut i: usize = 0;
        assert(c@.subrange(0, c@.len() as int) =~= c@);
        assert(r@ =~= before + c@.take(0));
        while i < v.len() && utf8_width_of(v[i]) <= room
            invariant
                i <= v@.len(),
                v@ == c@,
                room <= 7,
                fit_count(c@, 7) == i + fit_count(c@.subrange(i as int, c@.len() as int), room as int),
                r@ == before + c@.take(i as int),
            decreases v@.len() - i,
        {
            let w = utf8_width_of(v[i]);
            proof {
                let rest = c@.subrange(i as int, c@.len() as int);
                assert(rest[0] == v@[i as int]);
                assert(rest.subrange(1, rest.len() as int) =~= c@.subrange(i + 1, c@.len() as int));
            }
            push_char(&mut r, v[i]);
            room = room - w;
            i = i + 1;
            assert(r@ =~= before + c@.take(i as int));
        }
        proof {
            let rest = c@.subrange(i as int, c@.len() as int);
            if i < v@.len() {
                assert(rest[0] == v@[i as int]);
            }
            assert(fit_count(rest, room as int) == 0);
        }
    }
    r
}

/// An edited text field: none when left empty.
pub open spec fn field_of(text: Seq<char>) -> Option<Seq<char>> {
    if text.len() == 0 {
        None
    } else {
        Some(text)
    }
}

fn field(text: String) -> (r: Option<String>)
    ensures
        match r {
            Some(s) => field_of(text@) == Some(s@),
            None => field_of(text@) is None,
        },
{
    if text.as_str().is_empty() {
        None
    } else {
        Some(text)
    }
}

/// Whether two optional texts are equal.
fn same_field(a: &Option<String>, b: &Option<String>) -> (r: bool)
    ensures
        r == (opt_view(*a) == opt_view(*b)),
{
    match (a, b) {
        (Some(x), Some(y)) => crate::text::str_eq(x.as_str(), y.as_str()),
        (None, None) => true,
        _ => false,
    }
}

/// Takes the branch, tag and commit edited for an entry, an empty field
/// clearing its part; the result says whether any of them changed.
pub fn edit_remote_ref(repo_config: &mut RepoConfig, branch: String, tag: String, commit: String) -> (changed:
    bool)
    ensures
        opt_view(final(repo_config).branch) == field_of(branch@),
        opt_view(final(repo_config).tag) == field_of(tag@),
        opt_view(final(repo_config).commit) == field_of(commit@),
        final(repo_config).local == old(repo_config).local,
        final(repo_config).remote == old(repo_config).remote,
        final(repo_config).sparse == old(repo_config).sparse,
        final(repo_config).labels == old(repo_config).labels,
        changed == (field_of(branch@) != opt_view(old(repo_config).branch) || field_of(tag@)
            != opt_view(old(repo_config).tag) || field_of(commit@) != opt_view(
            old(repo_config).commit,
        )),
{
    let b = field(branch);
    let t = field(tag);
    let c = field(commit);
    let changed = !same_field(&b, &repo_config.branch) || !same_field(&t, &repo_config.tag)
        || !same_field(&c, &repo_config.commit);
    repo_config.branch = b;
    repo_config.tag = t;
    repo_config.commit = c;
    changed
}

/// The directory of a repository on disk: the project directory for the
/// repository at its root (`""`, `.` or `./`), else below it.
pub open spec fn repo_dir(project: Seq<char>, rel: Seq<char>) -> Seq<char> {
    if rel.len() == 0 || rel == "."@ || rel == "./"@ {
        project
    } else {
        project + "/"@ + rel
    }
}

/// The directory of a repository on disk.
pub fn repo_full_path(project: &str, rel: &str) -> (r: String)
    ensures
        r@ == repo_dir(project@, rel@),
{
    if rel.is_empty() || crate::text::str_eq(rel, ".") || crate::text::str_eq(rel, "./") {
        String::from_str(project)
    } else {
        let mut r = String::from_str(project);
        r.append("/");
        r.append(rel);
        r
    }
}

/// Clicking the editor toggle of row `idx` opens its editor, or closes it
/// when it is the one open; `-1` means none is open.
pub fn toggle_edit_idx(current: i32, idx: i32) -> (r: i32)
    ensures
        current == idx ==> r == -1,
        current != idx ==> r == idx,
{
    if current == idx {
        -1
    } else {
        idx
    }
}

/// The headline of a repository's state.
#[derive(PartialEq, Eq, Structural, Debug, Clone, Copy)]
pub enum StateHeadline {
    Disconnected,
    Updating,
    Warning,
    Normal,
    Error,
}

/// The headline a repository shows: disconnected when its labels leave it
/// out, an error when it has one, else after how it tracks its remote.
pub open spec fn headline_of(s: RepoState) -> StateHeadline {
    if s.disable_by_label {
        StateHeadline::Disconnected
    } else if s.err_msg@.len() > 0 {
        StateHeadline::Error
    } else {
        match s.track_state {
            StateType::Disconnected => StateHeadline::Disconnected,
            StateType::Updating => StateHeadline::Updating,
            StateType::Warning => StateHeadline::Warning,
            _ => StateHeadline::Normal,
        }
    }
}

/// The headline a repository shows.
pub fn state_headline(s: &RepoState) -> (r: StateHeadline)
    ensures
        r == headline_of(*s),
{
    if s.disable_by_label {
        StateHeadline::Disconnected
    } else if !s.err_msg.as_str().is_empty() {
        StateHeadline::Error
    } else {
        match s.track_state {
            StateType::Disconnected => StateHeadline::Disconnected,
            StateType::Updating => StateHeadline::Updating,
            StateType::Warning => StateHeadline::Warning,
            _ => StateHeadline::Normal,
        }
    }
}

/// The tags a repository shows: the first four.
pub fn shown_tags(tags: &Vec<String>) -> (r: Vec<String>)
    ensures
        r.deep_view() == tags.deep_view().take(if tags@.len() < 4 {
            tags@.len() as int
        } else {
            4
        }),
{
    let n: usize = if tags.len() < 4 {
        tags.len()
    } else {
        4
    };
    let mut r: Vec<String> = Vec::new();
    let mut i: usize = 0;
    while i < n
        invariant
            i <= n <= tags@.len(),
            r@ == tags@.take(i as int),
        decreases n - i,
    {
        r.push(tags[i].clone());
        assert(r@ =~= tags@.take(i + 1));
        i = i + 1;
    }
    assert(r.deep_view() =~= tags.deep_view().take(n as int));
    r
}

} // verus!
