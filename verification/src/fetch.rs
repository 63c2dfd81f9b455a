//! The `fetch` command of a repository, and how failed commands are retried.
use crate::text::decimal;
use crate::text::decimal_string;
use vstd::prelude::*;

verus! {

broadcast use vstd::string::group_string_axioms;

/// What a repository entry points at on its remote.
#[derive(Debug)]
pub enum RemoteRef {
    Commit(String),
    Tag(String),
    Branch(String),
}

/// The arguments of `git fetch` for one repository.  With a depth, only the
/// entry's commit, tag or branch is fetched, to that depth.
pub open spec fn fetch_args(
    remote_name: Seq<char>,
    depth: Option<usize>,
    remote_ref: Option<RemoteRef>,
    branch: Option<String>,
) -> Seq<Seq<char>> {
    let head = seq!["fetch"@, remote_name];
    let shallow = match depth {
        None => Seq::empty(),
        Some(d) => (match remote_ref {
            Some(RemoteRef::Commit(c)) => seq![c@],
            Some(RemoteRef::Tag(t)) => seq!["tag"@, t@, "--no-tags"@],
            _ => seq![branch->0@],
        }) + seq!["--depth"@, decimal(d as nat)],
    };
    head + shallow + seq!["--prune"@, "--recurse-submodules=on-demand"@, "--progress"@]
}

fn push_str(v: &mut Vec<String>, s: &str)
    ensures
        final(v).deep_view() == old(v).deep_view().push(s@),
{
    let ghost before = v.deep_view();
    v.push(String::from_str(s));
    assert(v.deep_view() =~= before.push(s@));
}

/// The arguments of `git fetch` for one repository, given the name of its
/// remote, the depth, what the entry points at and its branch.
pub fn exec_fetch(
    remote_name: &str,
    depth: Option<usize>,
    remote_ref: &Option<RemoteRef>,
    branch: &Option<String>,
) -> (r: Vec<String>)
    requires
        depth is Some ==> remote_ref is Some,
        (depth is Some && (remote_ref matches Some(RemoteRef::Branch(_)))) ==> branch is Some,
    ensures
        r.deep_view() == fetch_args(remote_name@, depth, *remote_ref, *branch),
{
    let mut args: Vec<String> = Vec::new();
    push_str(&mut args, "fetch");
    push_str(&mut args, remote_name);
    let ghost head = args.deep_view();
    if let Some(d) = depth {
        match remote_ref {
            Some(RemoteRef::Commit(c)) => push_str(&mut args, c.as_str()),
            Some(RemoteRef::Tag(t)) => {
                push_str(&mut args, "tag");
                push_str(&mut args, t.as_str());
                push_str(&mut args, "--no-tags");
            },
            Some(RemoteRef::Branch(_)) => match branch {
                Some(b) => push_str(&mut args, b.as_str()),
                None => {
                    proof {
                        assert(false);
                    }
                },
            },
            None => {
                proof {
                    assert(false);
                }
            },
        }
        push_str(&mut args, "--depth");
        let n = decimal_string(d as u64);
        push_str(&mut args, n.as_str());
    }
    push_str(&mut args, "--prune");
    push_str(&mut args, "--recurse-submodules=on-demand");
    push_str(&mut args, "--progress");
    assert(args.deep_view() =~= fetch_args(remote_name@, depth, *remote_ref, *branch));
    args
}

/// The arguments of `git fetch` start with the remote, end with the prune,
/// submodule and progress options, and, with a depth, name exactly what the
/// entry points at (its commit; `tag`, its tag and `--no-tags`; or its
/// branch) followed by `--depth` and the depth in decimal.
pub proof fn lemma_fetch_names_reference(
    remote: Seq<char>,
    d: usize,
    remote_ref: Option<RemoteRef>,
    branch: Option<String>,
)
    ensures
        fetch_args(remote, None, remote_ref, branch) == seq![
            "fetch"@,
            remote,
            "--prune"@,
            "--recurse-submodules=on-demand"@,
            "--progress"@,
        ],
        remote_ref matches Some(RemoteRef::Commit(c)) ==> fetch_args(remote, Some(d), remote_ref, branch)
            == seq![
            "fetch"@,
            remote,
            c@,
            "--depth"@,
            decimal(d as nat),
            "--prune"@,
            "--recurse-submodules=on-demand"@,
            "--progress"@,
        ],
        remote_ref matches Some(RemoteRef::Tag(t)) ==> fetch_args(remote, Some(d), remote_ref, branch)
            == seq![
            "fetch"@,
            remote,
            "tag"@,
            t@,
            "--no-tags"@,
            "--depth"@,
            decimal(d as nat),
            "--prune"@,
            "--recurse-submodules=on-demand"@,
            "--progress"@,
        ],
        (remote_ref matches Some(RemoteRef::Branch(_))) && branch is Some ==> fetch_args(
            remote,
            Some(d),
            remote_ref,
            branch,
        ) == seq![
            "fetch"@,
            remote,
            branch->0@,
            "--depth"@,
            decimal(d as nat),
            "--prune"@,
            "--recurse-submodules=on-demand"@,
            "--progress"@,
        ],
        remote_ref matches Some(RemoteRef::Commit(c)) ==> fetch_args(
            remote,
            Some(d),
            remote_ref,
            branch,
        ).contains(c@),
{
    assert(fetch_args(remote, None, remote_ref, branch) =~= seq![
        "fetch"@,
        remote,
        "--prune"@,
        "--recurse-submodules=on-demand"@,
        "--progress"@,
    ]);
    let a = fetch_args(remote, Some(d), remote_ref, branch);
    match remote_ref {
        Some(RemoteRef::Commit(c)) => {
            assert(a =~= seq![
                "fetch"@,
                remote,
                c@,
                "--depth"@,
                decimal(d as nat),
                "--prune"@,
                "--recurse-submodules=on-demand"@,
                "--progress"@,
            ]);
            assert(a[2] == c@);
        },
        Some(RemoteRef::Tag(t)) => {
            assert(a =~= seq![
                "fetch"@,
                remote,
                "tag"@,
                t@,
                "--no-tags"@,
                "--depth"@,
                decimal(d as nat),
                "--prune"@,
                "--recurse-submodules=on-demand"@,
                "--progress"@,
            ]);
        },
        Some(RemoteRef::Branch(_)) => {
            if branch is Some {
                assert(a =~= seq![
                    "fetch"@,
                    remote,
                    branch->0@,
                    "--depth"@,
                    decimal(d as nat),
                    "--prune"@,
                    "--recurse-submodules=on-demand"@,
                    "--progress"@,
                ]);
            }
        },
        None => {},
    }
}

/// What to do next while retrying a command.
#[derive(PartialEq, Eq, Structural, Debug, Clone, Copy)]
pub enum RetryAction {
    /// Run the command (again).
    Attempt,
    /// Wait, then run the command again.
    SleepThenAttempt,
    /// Wait, then give up with the last error.
    SleepThenFinish,
    /// The last attempt succeeded: finish with its result.
    Finish,
}

/// Retrying runs a command up to `times` times, waiting after each failure;
/// `attempts` have been made so far and `last_failed` tells how the last one
/// ended.
pub fn retry(times: usize, attempts: usize, last_failed: bool) -> (r: RetryAction)
    requires
        times > 0,
        attempts <= times,
    ensures
        attempts == 0 ==> r == RetryAction::Attempt,
        attempts > 0 && !last_failed ==> r == RetryAction::Finish,
        attempts > 0 && last_failed && attempts < times ==> r == RetryAction::SleepThenAttempt,
        attempts > 0 && last_failed && attempts == times ==> r == RetryAction::SleepThenFinish,
{
    if attempts == 0 {
        RetryAction::Attempt
    } else if !last_failed {
        RetryAction::Finish
    } else if attempts < times {
        RetryAction::SleepThenAttempt
    } else {
        RetryAction::SleepThenFinish
    }
}

} // verus!
