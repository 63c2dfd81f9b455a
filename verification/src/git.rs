//! The git operations of the library.
//!
//! Each operation is a step function: given the results of the git commands
//! it asked for so far (`done`, oldest first), it either asks for the next
//! command to run in the repository (`GitStep::Run`, the arguments to pass to
//! `git`) or gives its result (`GitStep::Done`).  The caller runs the
//! commands and calls the function again with the new result appended.
use crate::error::{error_message, MgitError};
use crate::style_message::StyleMessage;
use crate::text::{
    clone_strings, contains, contains_str, is_ws, lines, lines_str, replace, replace_str, trim,
    trim_str, find,
};
use vstd::prelude::*;

verus! {

broadcast use vstd::string::group_string_axioms;

/// The result of running one git command: its standard output, or why it
/// failed (it could not be started, or it exited with an error).
pub type CmdResult = Result<String, MgitError>;

/// The result of a finished git command from how it exited: its standard
/// output when it succeeded, else its exit code (`-1` when it has none) with
/// its standard error.
pub fn command_outcome(success: bool, code: Option<i32>, stdout: String, stderr: String) -> (r:
    CmdResult)
    ensures
        success ==> (r matches Ok(o) && o@ == stdout@),
        !success ==> (r matches Err(MgitError::GitCommandError { code: c, output }) && output@
            == stderr@ && c == match code {
            Some(x) => x,
            None => -1i32,
        }),
{
    if success {
        Ok(stdout)
    } else {
        let c = match code {
            Some(x) => x,
            None => -1i32,
        };
        Err(MgitError::GitCommandError { code: c, output: stderr })
    }
}

/// The next thing a git operation needs, or its result.
#[derive(Debug)]
pub enum GitStep<T> {
    /// Run `git` with these arguments, then call again with the result.
    Run(Vec<String>),
    /// The operation is finished.
    Done(T),
}

/// The step asks to run `git` with the arguments `a`.
pub open spec fn runs<T>(s: GitStep<T>, a: Seq<Seq<char>>) -> bool {
    s matches GitStep::Run(v) && v.deep_view() == a
}

/// The step finished with the text `t`.
pub open spec fn done_text(s: GitStep<Result<String, MgitError>>, t: Seq<char>) -> bool {
    s matches GitStep::Done(Ok(x)) && x@ == t
}

/// The step finished with the error `e`.
pub open spec fn done_err<T>(s: GitStep<Result<T, MgitError>>, e: MgitError) -> bool {
    s == GitStep::<Result<T, MgitError>>::Done(Err(e))
}

/// The error for a directory that is not the root of a git repository.
pub open spec fn is_repo_not_found(e: MgitError) -> bool {
    e matches MgitError::OpsError { message } && message@ == "repository not found!"@
}

/// The error for a remote reference, url or name that was not found.
pub open spec fn is_not_found(e: MgitError, what: Seq<char>) -> bool {
    e matches MgitError::RemoteRefNotFound { remote_ref } && remote_ref@ == what
}

/// The error that reports that a git command failed with `inner`.
pub open spec fn wraps(e: MgitError, inner: MgitError) -> bool {
    e matches MgitError::OpsError { message } && message@ == "Error: "@ + error_message(inner)
}

fn args1(a: &str) -> (r: Vec<String>)
    ensures
        r.deep_view() == seq![a@],
{
    let mut r = Vec::new();
    r.push(String::from_str(a));
    proof {
        assert(r.deep_view() =~= seq![a@]);
    }
    r
}

fn args2(a: &str, b: &str) -> (r: Vec<String>)
    ensures
        r.deep_view() == seq![a@, b@],
{
    let mut r = Vec::new();
    r.push(String::from_str(a));
    r.push(String::from_str(b));
    proof {
        assert(r.deep_view() =~= seq![a@, b@]);
    }
    r
}

fn args3(a: &str, b: &str, c: &str) -> (r: Vec<String>)
    ensures
        r.deep_view() == seq![a@, b@, c@],
{
    let mut r = Vec::new();
    r.push(String::from_str(a));
    r.push(String::from_str(b));
    r.push(String::from_str(c));
    proof {
        assert(r.deep_view() =~= seq![a@, b@, c@]);
    }
    r
}

fn args4(a: &str, b: &str, c: &str, d: &str) -> (r: Vec<String>)
    ensures
        r.deep_view() == seq![a@, b@, c@, d@],
{
    let mut r = Vec::new();
    r.push(String::from_str(a));
    r.push(String::from_str(b));
    r.push(String::from_str(c));
    r.push(String::from_str(d));
    proof {
        assert(r.deep_view() =~= seq![a@, b@, c@, d@]);
    }
    r
}

/// A copy of a command result.
pub fn copy_result(r: &CmdResult) -> (c: CmdResult)
    ensures
        c == *r,
{
    match r {
        Ok(s) => Ok(s.clone()),
        Err(e) => Err(e.copy()),
    }
}

fn repo_not_found() -> (e: MgitError)
    ensures
        is_repo_not_found(e),
{
    MgitError::OpsError { message: String::from_str("repository not found!") }
}

fn not_found(what: &str) -> (e: MgitError)
    ensures
        is_not_found(e, what@),
{
    MgitError::RemoteRefNotFound { remote_ref: String::from_str(what) }
}

fn wrapped(inner: &MgitError) -> (e: MgitError)
    ensures
        wraps(e, *inner),
{
    let mut m = String::from_str("Error: ");
    let t = inner.message();
    m.append(t.as_str());
    MgitError::OpsError { message: m }
}

/// The output of `git rev-parse --show-cdup` shows the root of a repository.
pub open spec fn repo_ok(out: CmdResult) -> bool {
    out matches Ok(o) && trim(o@).len() == 0
}

fn repo_ok_exec(out: &CmdResult) -> (b: bool)
    ensures
        b == repo_ok(*out),
{
    match out {
        Ok(o) => {
            let t = trim_str(o.as_str());
            t.as_str().is_empty()
        },
        Err(_) => false,
    }
}

/// The arguments of the command that checks for the root of a repository.
pub open spec fn show_cdup_args() -> Seq<Seq<char>> {
    seq!["rev-parse"@, "--show-cdup"@]
}

/// Whether the directory is the root of a git repository: it has a `.git`
/// directory (`git_dir`), and git reports no path up to the root.
pub fn is_repository(git_dir: bool, done: &Vec<CmdResult>) -> (r: GitStep<Result<(), MgitError>>)
    ensures
        !git_dir ==> (r matches GitStep::Done(Err(e)) && is_repo_not_found(e)),
        git_dir && done@.len() == 0 ==> runs(r, show_cdup_args()),
        git_dir && done@.len() > 0 && repo_ok(done@[0]) ==> r == GitStep::<
            Result<(), MgitError>,
        >::Done(Ok(())),
        git_dir && done@.len() > 0 && !repo_ok(done@[0]) ==> (r matches GitStep::Done(Err(e))
            && is_repo_not_found(e)),
{
    if !git_dir {
        return GitStep::Done(Err(repo_not_found()));
    }
    if done.len() == 0 {
        return GitStep::Run(args2("rev-parse", "--show-cdup"));
    }
    if repo_ok_exec(&done[0]) {
        GitStep::Done(Ok(()))
    } else {
        GitStep::Done(Err(repo_not_found()))
    }
}

/// Whether the remote can be reached: `git ls-remote`, whose output is the
/// result.
pub fn has_authenticity(done: &Vec<CmdResult>) -> (r: GitStep<CmdResult>)
    ensures
        done@.len() == 0 ==> runs(r, seq!["ls-remote"@]),
        done@.len() > 0 ==> r == GitStep::<CmdResult>::Done(done@[0]),
{
    if done.len() == 0 {
        GitStep::Run(args1("ls-remote"))
    } else {
        GitStep::Done(copy_result(&done[0]))
    }
}

/// Whether some remote branch contains `remote_ref`.
pub fn is_remote_ref_valid(remote_ref: &str, done: &Vec<CmdResult>) -> (r: GitStep<
    Result<(), MgitError>,
>)
    ensures
        done@.len() == 0 ==> runs(r, seq!["branch"@, "--contains"@, remote_ref@, "-r"@]),
        done@.len() > 0 && done@[0] is Ok ==> r == GitStep::<Result<(), MgitError>>::Done(
            Ok(()),
        ),
        done@.len() > 0 && done@[0] is Err ==> (r matches GitStep::Done(Err(e)) && is_not_found(
            e,
            remote_ref@,
        )),
{
    if done.len() == 0 {
        return GitStep::Run(args4("branch", "--contains", remote_ref, "-r"));
    }
    match &done[0] {
        Ok(_) => GitStep::Done(Ok(())),
        Err(_) => GitStep::Done(Err(not_found(remote_ref))),
    }
}

/// The result of a command whose output is not used: success, or the failure
/// reported as an operation error.
pub open spec fn unit_result_ok(r: GitStep<Result<(), MgitError>>, out: CmdResult) -> bool {
    match out {
        Ok(_) => r == GitStep::<Result<(), MgitError>>::Done(Ok(())),
        Err(inner) => r matches GitStep::Done(Err(e)) && wraps(e, inner),
    }
}

fn unit_result(out: &CmdResult) -> (r: GitStep<Result<(), MgitError>>)
    ensures
        unit_result_ok(r, *out),
{
    match out {
        Ok(_) => GitStep::Done(Ok(())),
        Err(inner) => GitStep::Done(Err(wrapped(inner))),
    }
}

/// Creates a repository: `git init`.
pub fn init(done: &Vec<CmdResult>) -> (r: GitStep<Result<(), MgitError>>)
    ensures
        done@.len() == 0 ==> runs(r, seq!["init"@]),
        done@.len() > 0 ==> unit_result_ok(r, done@[0]),
{
    if done.len() == 0 {
        GitStep::Run(args1("init"))
    } else {
        unit_result(&done[0])
    }
}

/// Adds the remote `origin` with `url`.
pub fn add_remote_url(url: &str, done: &Vec<CmdResult>) -> (r: GitStep<Result<(), MgitError>>)
    ensures
        done@.len() == 0 ==> runs(r, seq!["remote"@, "add"@, "origin"@, url@]),
        done@.len() > 0 ==> unit_result_ok(r, done@[0]),
{
    if done.len() == 0 {
        GitStep::Run(args4("remote", "add", "origin", url))
    } else {
        unit_result(&done[0])
    }
}

/// Removes untracked files and directories: `git clean -fd`.
pub fn clean(done: &Vec<CmdResult>) -> (r: GitStep<Result<(), MgitError>>)
    ensures
        done@.len() == 0 ==> runs(r, seq!["clean"@, "-fd"@]),
        done@.len() > 0 ==> unit_result_ok(r, done@[0]),
{
    if done.len() == 0 {
        GitStep::Run(args2("clean", "-fd"))
    } else {
        unit_result(&done[0])
    }
}

/// Resets the working tree to `remote_ref` (`reset_type` is `--hard`,
/// `--soft`, ...).
pub fn reset(reset_type: &str, remote_ref: &str, done: &Vec<CmdResult>) -> (r: GitStep<
    Result<(), MgitError>,
>)
    ensures
        done@.len() == 0 ==> runs(r, seq!["reset"@, reset_type@, remote_ref@]),
        done@.len() > 0 ==> unit_result_ok(r, done@[0]),
{
    if done.len() == 0 {
        GitStep::Run(args3("reset", reset_type, remote_ref))
    } else {
        unit_result(&done[0])
    }
}

/// Checks out with the given arguments.
pub fn checkout(args: &Vec<String>, done: &Vec<CmdResult>) -> (r: GitStep<Result<(), MgitError>>)
    ensures
        done@.len() == 0 ==> runs(r, args.deep_view()),
        done@.len() > 0 ==> unit_result_ok(r, done@[0]),
{
    if done.len() == 0 {
        GitStep::Run(clone_strings(args))
    } else {
        unit_result(&done[0])
    }
}

/// A step that runs one command and gives its result as it is.
fn pass_through(args: Vec<String>, done: &Vec<CmdResult>) -> (r: GitStep<CmdResult>)
    ensures
        done@.len() == 0 ==> r == GitStep::<CmdResult>::Run(args),
        done@.len() > 0 ==> r == GitStep::<CmdResult>::Done(done@[0]),
{
    if done.len() == 0 {
        GitStep::Run(args)
    } else {
        GitStep::Done(copy_result(&done[0]))
    }
}

/// The untracked files: `git ls-files . --exclude-standard --others`.
pub fn get_untrack_files(done: &Vec<CmdResult>) -> (r: GitStep<CmdResult>)
    ensures
        done@.len() == 0 ==> runs(r, seq!["ls-files"@, "."@, "--exclude-standard"@, "--others"@]),
        done@.len() > 0 ==> r == GitStep::<CmdResult>::Done(done@[0]),
{
    pass_through(args4("ls-files", ".", "--exclude-standard", "--others"), done)
}

/// The changed files: `git diff --name-only`.
pub fn get_changed_files(done: &Vec<CmdResult>) -> (r: GitStep<CmdResult>)
    ensures
        done@.len() == 0 ==> runs(r, seq!["diff"@, "--name-only"@]),
        done@.len() > 0 ==> r == GitStep::<CmdResult>::Done(done@[0]),
{
    pass_through(args2("diff", "--name-only"), done)
}

/// The staged files: `git diff --cached --name-only`.
pub fn get_staged_files(done: &Vec<CmdResult>) -> (r: GitStep<CmdResult>)
    ensures
        done@.len() == 0 ==> runs(r, seq!["diff"@, "--cached"@, "--name-only"@]),
        done@.len() > 0 ==> r == GitStep::<CmdResult>::Done(done@[0]),
{
    pass_through(args3("diff", "--cached", "--name-only"), done)
}

/// The commits ahead and behind: `git rev-list --count --left-right <pair>`.
pub fn get_rev_list_count(branch_pair: &str, done: &Vec<CmdResult>) -> (r: GitStep<CmdResult>)
    ensures
        done@.len() == 0 ==> runs(
            r,
            seq!["rev-list"@, "--count"@, "--left-right"@, branch_pair@],
        ),
        done@.len() > 0 ==> r == GitStep::<CmdResult>::Done(done@[0]),
{
    pass_through(args4("rev-list", "--count", "--left-right", branch_pair), done)
}

/// Stashes the local changes, untracked files included.
pub fn stash(done: &Vec<CmdResult>) -> (r: GitStep<CmdResult>)
    ensures
        done@.len() == 0 ==> runs(r, seq!["stash"@, "--include-untracked"@]),
        done@.len() > 0 ==> r == GitStep::<CmdResult>::Done(done@[0]),
{
    pass_through(args2("stash", "--include-untracked"), done)
}

/// Restores the stashed changes.
pub fn stash_pop(done: &Vec<CmdResult>) -> (r: GitStep<CmdResult>)
    ensures
        done@.len() == 0 ==> runs(r, seq!["stash"@, "pop"@]),
        done@.len() > 0 ==> r == GitStep::<CmdResult>::Done(done@[0]),
{
    pass_through(args2("stash", "pop"), done)
}

/// Sets the url of the remote `origin`.
pub fn update_remote_url(url: &str, done: &Vec<CmdResult>) -> (r: GitStep<CmdResult>)
    ensures
        done@.len() == 0 ==> runs(r, seq!["remote"@, "set-url"@, "origin"@, url@]),
        done@.len() > 0 ==> r == GitStep::<CmdResult>::Done(done@[0]),
{
    pass_through(args4("remote", "set-url", "origin", url), done)
}

/// The files of the index with their modes and hashes: `git ls-files -s`.
pub fn ls_files(done: &Vec<CmdResult>) -> (r: GitStep<CmdResult>)
    ensures
        done@.len() == 0 ==> runs(r, seq!["ls-files"@, "-s"@]),
        done@.len() > 0 ==> r == GitStep::<CmdResult>::Done(done@[0]),
{
    pass_through(args2("ls-files", "-s"), done)
}

/// The repository check of the operation has passed.
pub open spec fn in_repo(git_dir: bool, done: Seq<CmdResult>) -> bool {
    git_dir && done.len() > 0 && repo_ok(done[0])
}

/// What an operation that first checks for a repository does before and
/// when the check fails: it asks for the check, or fails as `is_repository`
/// does.
pub open spec fn gate_ok<T>(git_dir: bool, done: Seq<CmdResult>, r: GitStep<Result<T, MgitError>>) -> bool {
    &&& !git_dir ==> (r matches GitStep::Done(Err(e)) && is_repo_not_found(e))
    &&& git_dir && done.len() == 0 ==> runs(r, show_cdup_args())
    &&& git_dir && done.len() > 0 && !repo_ok(done[0]) ==> (r matches GitStep::Done(Err(e))
        && is_repo_not_found(e))
}

fn repo_gate<T>(git_dir: bool, done: &Vec<CmdResult>) -> (r: Option<GitStep<Result<T, MgitError>>>)
    ensures
        r is None <==> in_repo(git_dir, done@),
        r matches Some(s) ==> gate_ok(git_dir, done@, s),
{
    if !git_dir {
        return Some(GitStep::Done(Err(repo_not_found())));
    }
    if done.len() == 0 {
        return Some(GitStep::Run(args2("rev-parse", "--show-cdup")));
    }
    if repo_ok_exec(&done[0]) {
        None
    } else {
        Some(GitStep::Done(Err(repo_not_found())))
    }
}

/// The name of the first remote line (of `git remote -v`) that mentions `url`:
/// the text before `url`, trimmed.
pub open spec fn remote_name_in(ls: Seq<Seq<char>>, url: Seq<char>) -> Option<Seq<char>>
    decreases ls.len(),
{
    if ls.len() == 0 {
        None
    } else if contains(ls[0], url) {
        Some(trim(ls[0].subrange(0, find(ls[0], url)->0)))
    } else {
        remote_name_in(ls.drop_first(), url)
    }
}

/// Line `i` of `ls` is the first that mentions `url`, and `n` is its part
/// from `a` to `b`, before the first `url`, with only whitespace before `a`
/// and between `b` and `url`.
pub open spec fn name_before_url(ls: Seq<Seq<char>>, url: Seq<char>, n: Seq<char>, i: int, a: int, b: int) -> bool {
    &&& 0 <= i < ls.len()
    &&& contains(ls[i], url)
    &&& forall|j: int| 0 <= j < i ==> !contains(#[trigger] ls[j], url)
    &&& 0 <= a <= b <= find(ls[i], url)->0
    &&& n == ls[i].subrange(a, b)
    &&& forall|k: int| 0 <= k < a ==> is_ws(#[trigger] ls[i][k])
    &&& forall|k: int| b <= k < find(ls[i], url)->0 ==> is_ws(#[trigger] ls[i][k])
}

/// The remote name found for `url` is what stands before `url` on the first
/// line that mentions it, without the whitespace around it: it neither starts
/// nor ends with whitespace.  No name is found only when no line mentions
/// `url`.
pub proof fn lemma_remote_name_found(ls: Seq<Seq<char>>, url: Seq<char>)
    ensures
        remote_name_in(ls, url) matches Some(n) ==> (n.len() > 0 ==> !is_ws(n[0]) && !is_ws(n.last()))
            && exists|i: int, a: int, b: int| name_before_url(ls, url, n, i, a, b),
        remote_name_in(ls, url) is None ==> forall|j: int|
            0 <= j < ls.len() ==> !contains(#[trigger] ls[j], url),
    decreases ls.len(),
{
    if ls.len() == 0 {
        return;
    }
    if contains(ls[0], url) {
        crate::text::lemma_find_from(ls[0], url, 0);
        let f = find(ls[0], url)->0;
        let pre = ls[0].subrange(0, f);
        let ab = crate::text::lemma_trim(pre);
        crate::text::lemma_trim_edges(pre);
        let n = trim(pre);
        assert(pre.subrange(ab.0, ab.1) =~= ls[0].subrange(ab.0, ab.1));
        assert forall|k: int| 0 <= k < ab.0 implies is_ws(#[trigger] ls[0][k]) by {
            assert(pre[k] == ls[0][k]);
        }
        assert forall|k: int| ab.1 <= k < f implies is_ws(#[trigger] ls[0][k]) by {
            assert(pre[k] == ls[0][k]);
        }
        assert(name_before_url(ls, url, n, 0, ab.0, ab.1));
    } else {
        let r = ls.drop_first();
        lemma_remote_name_found(r, url);
        match remote_name_in(r, url) {
            Some(n) => {
                let (i, a, b) = choose|i: int, a: int, b: int| name_before_url(r, url, n, i, a, b);
                assert(r[i] == ls[i + 1]);
                assert forall|j: int| 0 <= j < i + 1 implies !contains(#[trigger] ls[j], url) by {
                    if j > 0 {
                        assert(ls[j] == r[j - 1]);
                    }
                }
                assert(name_before_url(ls, url, n, i + 1, a, b));
            },
            None => {
                assert forall|j: int| 0 <= j < ls.len() implies !contains(#[trigger] ls[j], url) by {
                    if j > 0 {
                        assert(ls[j] == r[j - 1]);
                    }
                }
            },
        }
    }
}

/// The name of the remote whose url is `url`.
#[verifier::loop_isolation(false)]
pub fn find_remote_name_by_url(git_dir: bool, url: &str, done: &Vec<CmdResult>) -> (r: GitStep<
    Result<String, MgitError>,
>)
    ensures
        gate_ok(git_dir, done@, r),
        in_repo(git_dir, done@) && done@.len() == 1 ==> runs(r, seq!["remote"@, "-v"@]),
        in_repo(git_dir, done@) && done@.len() > 1 ==> match done@[1] {
            Err(e) => done_err(r, e),
            Ok(o) => match remote_name_in(lines(trim(o@)), url@) {
                Some(n) => done_text(r, n),
                None => r matches GitStep::Done(Err(e)) && is_not_found(e, url@),
            },
        },
{
    if let Some(s) = repo_gate(git_dir, done) {
        return s;
    }
    if done.len() == 1 {
        return GitStep::Run(args2("remote", "-v"));
    }
    let out = match &done[1] {
        Ok(o) => o,
        Err(e) => {
            return GitStep::Done(Err(e.copy()));
        },
    };
    let t = trim_str(out.as_str());
    let ls = lines_str(t.as_str());
    let uv = crate::text::chars_of(url);
    let mut i: usize = 0;
    assert(ls.deep_view().skip(0) =~= ls.deep_view());
    while i < ls.len()
        invariant
            i <= ls.len(),
            uv@ == url@,
            ls.deep_view() == lines(trim(out@)),
            remote_name_in(ls.deep_view(), url@) == remote_name_in(ls.deep_view().skip(i as int), url@),
        decreases ls.len() - i,
    {
        let lv = crate::text::chars_of(ls[i].as_str());
        proof {
            assert(ls.deep_view().skip(i as int)[0] == ls.deep_view()[i as int]);
            assert(ls.deep_view().skip(i as int).drop_first() =~= ls.deep_view().skip(i + 1));
        }
        match crate::text::find_from_exec(&lv, &uv, 0) {
            Some(k) => {
                proof {
                    crate::text::lemma_find_from(lv@, uv@, 0);
                }
                let before = crate::text::string_of(&lv, 0, k);
                let name = trim_str(before.as_str());
                return GitStep::Done(Ok(name));
            },
            None => {},
        }
        i = i + 1;
    }
    proof {
        assert(ls.deep_view().skip(i as int) =~= Seq::<Seq<char>>::empty());
    }
    GitStep::Done(Err(not_found(url)))
}

/// The url of the remote `name`: the first line of `git remote get-url`, trimmed.
pub fn find_remote_url_by_name(git_dir: bool, name: &str, done: &Vec<CmdResult>) -> (r: GitStep<
    Result<String, MgitError>,
>)
    ensures
        gate_ok(git_dir, done@, r),
        in_repo(git_dir, done@) && done@.len() == 1 ==> runs(
            r,
            seq!["remote"@, "get-url"@, name@],
        ),
        in_repo(git_dir, done@) && done@.len() > 1 ==> match done@[1] {
            Err(e) => done_err(r, e),
            Ok(o) => if lines(trim(o@)).len() > 0 {
                done_text(r, trim(lines(trim(o@))[0]))
            } else {
                r matches GitStep::Done(Err(e)) && is_not_found(e, name@)
            },
        },
{
    if let Some(s) = repo_gate(git_dir, done) {
        return s;
    }
    if done.len() == 1 {
        return GitStep::Run(args3("remote", "get-url", name));
    }
    match &done[1] {
        Err(e) => GitStep::Done(Err(e.copy())),
        Ok(o) => {
            let t = trim_str(o.as_str());
            let ls = lines_str(t.as_str());
            if ls.len() > 0 {
                GitStep::Done(Ok(trim_str(ls[0].as_str())))
            } else {
                GitStep::Done(Err(not_found(name)))
            }
        },
    }
}

/// The commit checked out: the first line of `git rev-parse HEAD`.
pub fn get_current_commit(git_dir: bool, done: &Vec<CmdResult>) -> (r: GitStep<
    Result<String, MgitError>,
>)
    ensures
        gate_ok(git_dir, done@, r),
        in_repo(git_dir, done@) && done@.len() == 1 ==> runs(r, seq!["rev-parse"@, "HEAD"@]),
        in_repo(git_dir, done@) && done@.len() > 1 ==> match done@[1] {
            Err(e) => done_err(r, e),
            Ok(o) => if lines(trim(o@)).len() > 0 {
                done_text(r, lines(trim(o@))[0])
            } else {
                done_err(r, MgitError::CommitNotFound)
            },
        },
{
    if let Some(s) = repo_gate(git_dir, done) {
        return s;
    }
    if done.len() == 1 {
        return GitStep::Run(args2("rev-parse", "HEAD"));
    }
    match &done[1] {
        Err(e) => GitStep::Done(Err(e.copy())),
        Ok(o) => {
            let t = trim_str(o.as_str());
            let ls = lines_str(t.as_str());
            if ls.len() > 0 {
                GitStep::Done(Ok(ls[0].clone()))
            } else {
                GitStep::Done(Err(MgitError::CommitNotFound))
            }
        },
    }
}

/// The remote branch that the current branch tracks.
pub fn get_tracking_branch(git_dir: bool, done: &Vec<CmdResult>) -> (r: GitStep<
    Result<String, MgitError>,
>)
    ensures
        gate_ok(git_dir, done@, r),
        in_repo(git_dir, done@) && done@.len() == 1 ==> runs(
            r,
            seq!["rev-parse"@, "--symbolic-full-name"@, "--abbrev-ref"@, "@{u}"@],
        ),
        in_repo(git_dir, done@) && done@.len() > 1 ==> match done@[1] {
            Err(e) => done_err(r, e),
            Ok(o) => if trim(o@).len() > 0 {
                done_text(r, trim(o@))
            } else {
                done_err(r, MgitError::Untracked)
            },
        },
{
    if let Some(s) = repo_gate(git_dir, done) {
        return s;
    }
    if done.len() == 1 {
        return GitStep::Run(args4("rev-parse", "--symbolic-full-name", "--abbrev-ref", "@{u}"));
    }
    match &done[1] {
        Err(e) => GitStep::Done(Err(e.copy())),
        Ok(o) => {
            let t = trim_str(o.as_str());
            if !t.as_str().is_empty() {
                GitStep::Done(Ok(t))
            } else {
                GitStep::Done(Err(MgitError::Untracked))
            }
        },
    }
}

/// The log line of `branch`: the trimmed output of `git show-branch
/// --sha1-name`, or the empty text when the command fails.
pub fn get_branch_log(branch: &str, done: &Vec<CmdResult>) -> (r: GitStep<String>)
    ensures
        done@.len() == 0 ==> (r matches GitStep::Run(v) && v.deep_view() == seq![
            "show-branch"@,
            "--sha1-name"@,
            branch@,
        ]),
        done@.len() > 0 ==> (r matches GitStep::Done(s) && s@ == match done@[0] {
            Ok(o) => trim(o@),
            Err(_) => Seq::empty(),
        }),
{
    if done.len() == 0 {
        return GitStep::Run(args3("show-branch", "--sha1-name", branch));
    }
    match &done[0] {
        Ok(o) => GitStep::Done(trim_str(o.as_str())),
        Err(_) => GitStep::Done(String::new()),
    }
}

/// Whether the local branch `branch` exists: the trimmed output of `git
/// branch -l <branch>` mentions it.
pub fn local_branch_already_exist(branch: &str, done: &Vec<CmdResult>) -> (r: GitStep<
    Result<bool, MgitError>,
>)
    ensures
        done@.len() == 0 ==> runs(r, seq!["branch"@, "-l"@, branch@]),
        done@.len() > 0 ==> match done@[0] {
            Err(e) => done_err(r, e),
            Ok(o) => r == GitStep::<Result<bool, MgitError>>::Done(
                Ok(contains(trim(o@), branch@)),
            ),
        },
{
    if done.len() == 0 {
        return GitStep::Run(args3("branch", "-l", branch));
    }
    match &done[0] {
        Err(e) => GitStep::Done(Err(e.copy())),
        Ok(o) => {
            let t = trim_str(o.as_str());
            GitStep::Done(Ok(contains_str(t.as_str(), branch)))
        },
    }
}

/// The remote branch names shown by `git branch -r`, with `origin/` removed.
pub open spec fn remote_branch_names(ls: Seq<Seq<char>>) -> Seq<Seq<char>> {
    Seq::new(ls.len(), |i: int| replace(trim(ls[i]), "origin/"@, Seq::empty()))
}

/// The remote branches; none when the command fails.
pub fn get_remote_branches(done: &Vec<CmdResult>) -> (r: GitStep<Vec<String>>)
    ensures
        done@.len() == 0 ==> (r matches GitStep::Run(v) && v.deep_view() == seq![
            "branch"@,
            "-r"@,
        ]),
        done@.len() > 0 ==> (r matches GitStep::Done(v) && v.deep_view() == match done@[0] {
            Ok(o) => remote_branch_names(lines(trim(o@))),
            Err(_) => Seq::empty(),
        }),
{
    if done.len() == 0 {
        return GitStep::Run(args2("branch", "-r"));
    }
    let mut branches: Vec<String> = Vec::new();
    match &done[0] {
        Err(_) => {
            proof {
                assert(branches.deep_view() =~= Seq::<Seq<char>>::empty());
            }
        },
        Ok(o) => {
            let t = trim_str(o.as_str());
            let ls = lines_str(t.as_str());
            proof {
                reveal_strlit("origin/");
                reveal_strlit("");
            }
            let mut i: usize = 0;
            while i < ls.len()
                invariant
                    i <= ls.len(),
                    "origin/"@.len() > 0,
                    ""@ == Seq::<char>::empty(),
                    branches.deep_view() == remote_branch_names(ls.deep_view().take(i as int)),
                decreases ls.len() - i,
            {
                let line = trim_str(ls[i].as_str());
                let b = replace_str(line.as_str(), "origin/", "");
                let ghost before = branches.deep_view();
                let ghost bv = b@;
                branches.push(b);
                i = i + 1;
                proof {
                    assert(branches.deep_view() =~= before.push(bv));
                    assert(branches.deep_view() =~= remote_branch_names(ls.deep_view().take(i as int)));
                }
            }
            proof {
                assert(ls.deep_view().take(i as int) =~= ls.deep_view());
            }
        },
    }
    GitStep::Done(branches)
}

/// What the search for the current branch gives once the candidate lines
/// `ls` (of `git branch --show-current`) have been checked with the results
/// `checks` of `git branch -l <line>`, in order: the first candidate whose
/// check mentions it, the first failed check, the error for no branch when
/// every candidate was checked, or none when more checks are needed.
pub open spec fn branch_scan(ls: Seq<Seq<char>>, checks: Seq<CmdResult>) -> Option<
    Result<Seq<char>, MgitError>,
>
    decreases checks.len(),
{
    if ls.len() == 0 {
        Some(Err(MgitError::BranchNotFound))
    } else if checks.len() == 0 {
        None
    } else {
        match checks[0] {
            Err(e) => Some(Err(e)),
            Ok(o) => if contains(o@, ls[0]) {
                Some(Ok(ls[0]))
            } else {
                branch_scan(ls.drop_first(), checks.drop_first())
            },
        }
    }
}

proof fn lemma_branch_scan_more(ls: Seq<Seq<char>>, checks: Seq<CmdResult>)
    requires
        branch_scan(ls, checks) is None,
    ensures
        checks.len() < ls.len(),
    decreases checks.len(),
{
    if ls.len() > 0 && checks.len() > 0 {
        lemma_branch_scan_more(ls.drop_first(), checks.drop_first());
    }
}

/// Candidate `k` is `b`, its check succeeded and mentions it, and every
/// earlier check succeeded without mentioning its candidate.
pub open spec fn confirmed_at(ls: Seq<Seq<char>>, checks: Seq<CmdResult>, k: int, b: Seq<char>) -> bool {
    &&& 0 <= k < ls.len()
    &&& k < checks.len()
    &&& ls[k] == b
    &&& checks[k] matches Ok(o) && contains(o@, b)
    &&& forall|j: int| 0 <= j < k ==> (#[trigger] checks[j] matches Ok(o) && !contains(o@, ls[j]))
}

/// The current branch found is one of the candidate lines, the first whose
/// check confirms it.
pub proof fn lemma_branch_confirmed(ls: Seq<Seq<char>>, checks: Seq<CmdResult>)
    ensures
        branch_scan(ls, checks) matches Some(Ok(b)) ==> ls.contains(b) && exists|k: int|
            confirmed_at(ls, checks, k, b),
    decreases checks.len(),
{
    if ls.len() == 0 || checks.len() == 0 {
        return;
    }
    match checks[0] {
        Err(_) => {},
        Ok(o) => {
            if contains(o@, ls[0]) {
                assert(confirmed_at(ls, checks, 0, ls[0]));
            } else {
                let l2 = ls.drop_first();
                let c2 = checks.drop_first();
                lemma_branch_confirmed(l2, c2);
                if let Some(Ok(b)) = branch_scan(l2, c2) {
                    let k = choose|k: int| confirmed_at(l2, c2, k, b);
                    assert(l2[k] == ls[k + 1]);
                    assert(c2[k] == checks[k + 1]);
                    assert forall|j: int| 0 <= j < k + 1 implies (#[trigger] checks[j] matches Ok(
                        o,
                    ) && !contains(o@, ls[j])) by {
                        if j > 0 {
                            assert(checks[j] == c2[j - 1]);
                            assert(ls[j] == l2[j - 1]);
                        }
                    }
                    assert(confirmed_at(ls, checks, k + 1, b));
                }
            }
        },
    }
    if let Some(Ok(b)) = branch_scan(ls, checks) {
        let k = choose|k: int| confirmed_at(ls, checks, k, b);
        assert(ls[k] == b);
    }
}

/// Once a check confirms its candidate, every earlier check having succeeded
/// without confirming its own, that candidate is the current branch.
pub proof fn lemma_confirmed_branch_found(ls: Seq<Seq<char>>, checks: Seq<CmdResult>, k: int, b: Seq<char>)
    requires
        confirmed_at(ls, checks, k, b),
    ensures
        branch_scan(ls, checks) == Some(Ok::<Seq<char>, MgitError>(b)),
    decreases k,
{
    if k > 0 {
        let l2 = ls.drop_first();
        let c2 = checks.drop_first();
        assert(checks[0] matches Ok(o) && !contains(o@, ls[0]));
        assert(l2[k - 1] == ls[k]);
        assert(c2[k - 1] == checks[k]);
        assert forall|j: int| 0 <= j < k - 1 implies (#[trigger] c2[j] matches Ok(o) && !contains(
            o@,
            l2[j],
        )) by {
            assert(c2[j] == checks[j + 1]);
            assert(l2[j] == ls[j + 1]);
        }
        assert(confirmed_at(l2, c2, k - 1, b));
        lemma_confirmed_branch_found(l2, c2, k - 1, b);
    }
}

/// The current branch: the first line of `git branch --show-current` that
/// `git branch -l` confirms as an existing local branch.
#[verifier::loop_isolation(false)]
pub fn get_current_branch(git_dir: bool, done: &Vec<CmdResult>) -> (r: GitStep<
    Result<String, MgitError>,
>)
    ensures
        gate_ok(git_dir, done@, r),
        in_repo(git_dir, done@) && done@.len() == 1 ==> runs(
            r,
            seq!["branch"@, "--show-current"@],
        ),
        in_repo(git_dir, done@) && done@.len() > 1 ==> match done@[1] {
            Err(e) => done_err(r, e),
            Ok(o) => {
                let ls = lines(trim(o@));
                let checks = done@.skip(2);
                match branch_scan(ls, checks) {
                    Some(Ok(b)) => done_text(r, b),
                    Some(Err(e)) => done_err(r, e),
                    None => checks.len() < ls.len() && runs(
                        r,
                        seq!["branch"@, "-l"@, ls[checks.len() as int]],
                    ),
                }
            },
        },
{
    if let Some(s) = repo_gate(git_dir, done) {
        return s;
    }
    if done.len() == 1 {
        return GitStep::Run(args2("branch", "--show-current"));
    }
    let out = match &done[1] {
        Ok(o) => o,
        Err(e) => {
            return GitStep::Done(Err(e.copy()));
        },
    };
    let t = trim_str(out.as_str());
    let ls = lines_str(t.as_str());
    let ghost lsv = ls.deep_view();
    let mut j: usize = 0;
    assert(lsv.skip(0) =~= lsv);
    loop
        invariant
            2 <= done@.len(),
            j <= ls.len(),
            2 + j <= done@.len(),
            lsv == ls.deep_view(),
            lsv == lines(trim(out@)),
            branch_scan(lsv, done@.skip(2)) == branch_scan(lsv.skip(j as int), done@.skip(2 + j)),
        decreases ls.len() - j,
    {
        if j == ls.len() {
            proof {
                assert(lsv.skip(j as int).len() == 0);
            }
            return GitStep::Done(Err(MgitError::BranchNotFound));
        }
        if done.len() == 2 + j {
            proof {
                assert(done@.skip(2 + j).len() == 0);
                assert(branch_scan(lsv, done@.skip(2)) is None);
                lemma_branch_scan_more(lsv, done@.skip(2));
                assert(lsv.skip(j as int)[0] == lsv[j as int]);
            }
            return GitStep::Run(args3("branch", "-l", ls[j].as_str()));
        }
        proof {
            assert(lsv.skip(j as int)[0] == lsv[j as int]);
            assert(done@.skip(2 + j)[0] == done@[2 + j]);
            assert(lsv.skip(j as int).drop_first() =~= lsv.skip(j + 1));
            assert(done@.skip(2 + j).drop_first() =~= done@.skip(2 + j + 1));
        }
        match &done[2 + j] {
            Err(e) => {
                return GitStep::Done(Err(e.copy()));
            },
            Ok(o) => {
                if contains_str(o.as_str(), ls[j].as_str()) {
                    return GitStep::Done(Ok(ls[j].clone()));
                }
            },
        }
        j = j + 1;
    }
}

/// Makes the current branch track `remote_ref`.  The result always
/// succeeds; its message says whether the tracking was set.
pub fn set_tracking_remote_branch(
    rel_path: &str,
    local_branch: &str,
    remote_ref: &str,
    remote_desc: &str,
    done: &Vec<CmdResult>,
) -> (r: GitStep<Result<StyleMessage, MgitError>>)
    ensures
        done@.len() == 0 ==> runs(r, seq!["branch"@, "--set-upstream-to"@, remote_ref@]),
        done@.len() > 0 && done@[0] is Ok ==> (r matches GitStep::Done(Ok(m)) && m@
            == StyleMessage::git_tracking_succ_spec(rel_path@, local_branch@, remote_desc@)),
        done@.len() > 0 && done@[0] is Err ==> (r matches GitStep::Done(Ok(m)) && m@
            == StyleMessage::git_tracking_failed_spec(rel_path@, remote_desc@)),
{
    if done.len() == 0 {
        return GitStep::Run(args3("branch", "--set-upstream-to", remote_ref));
    }
    match &done[0] {
        Ok(_) => GitStep::Done(Ok(StyleMessage::git_tracking_succ(rel_path, local_branch, remote_desc))),
        Err(_) => GitStep::Done(Ok(StyleMessage::git_tracking_failed(rel_path, remote_desc))),
    }
}

} // verus!
