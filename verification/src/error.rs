//! Errors of the library.
use crate::text::{decimal, decimal_string, push_char};
use vstd::prelude::*;

verus! {

broadcast use vstd::string::group_string_axioms;

/// What can go wrong in an operation.  Errors that come from the operating
/// system or from reading a file carry their message.
#[derive(Debug)]
pub enum MgitError {
    DirNotFound { path: String },
    DirAlreadyInited { path: String },
    ConfigFileNotFound { path: String },
    LoadConfigFailed { source: String },
    ParseConfigFailed { source: String },
    IoError { source: String },
    GitCommandFailed { command: String, source: String },
    GitCommandError { code: i32, output: String },
    ProcessWaitFailed { source: String },
    OpsError { message: String },
    RemoteRefNotFound { remote_ref: String },
    CommitNotFound,
    BranchNotFound,
    Untracked,
}

/// The decimal text of a signed integer.
pub open spec fn int_decimal(i: int) -> Seq<char> {
    if i < 0 {
        seq!['-'] + decimal((-i) as nat)
    } else {
        decimal(i as nat)
    }
}

/// The message of an error, as the user reads it.
pub open spec fn error_message(e: MgitError) -> Seq<char> {
    match e {
        MgitError::DirNotFound { path } => "Directory not found: "@ + path@,
        MgitError::DirAlreadyInited { path } => "Directory already initialized: "@ + path@,
        MgitError::ConfigFileNotFound { path } => "Config file not found: "@ + path@,
        MgitError::LoadConfigFailed { source } => "Failed to load config file: "@ + source@,
        MgitError::ParseConfigFailed { source } => "Failed to parse config file: "@ + source@,
        MgitError::IoError { source } => "IO error: "@ + source@,
        MgitError::GitCommandFailed { command, .. } => "Git command failed: "@ + command@,
        MgitError::GitCommandError { code, output } => "Git command exited with error code "@
            + int_decimal(code as int) + ": "@ + output@,
        MgitError::ProcessWaitFailed { source } => "Failed to wait for process: "@ + source@,
        MgitError::OpsError { message } => "Operation failed: "@ + message@,
        MgitError::RemoteRefNotFound { remote_ref } => "Remote reference "@ + remote_ref@
            + " not found"@,
        MgitError::CommitNotFound => "Current commit not found"@,
        MgitError::BranchNotFound => "Current branch not found"@,
        MgitError::Untracked => "Untracked branch"@,
    }
}

/// `prefix` followed by `s`.
fn prefixed(prefix: &str, s: &str) -> (r: String)
    ensures
        r@ == prefix@ + s@,
{
    let mut r = String::from_str(prefix);
    r.append(s);
    r
}

/// The decimal text of a signed integer.
pub fn i32_string(i: i32) -> (r: String)
    ensures
        r@ == int_decimal(i as int),
{
    if i < 0 {
        let m = (0i64 - (i as i64)) as u64;
        let d = decimal_string(m);
        let mut r = String::new();
        push_char(&mut r, '-');
        r.append(d.as_str());
        proof {
            assert(r@ =~= seq!['-'] + decimal((-i) as nat));
        }
        r
    } else {
        decimal_string(i as u64)
    }
}

impl MgitError {
    /// A copy of the error.
    pub fn copy(&self) -> (r: MgitError)
        ensures
            r == *self,
    {
        match self {
            MgitError::DirNotFound { path } => MgitError::DirNotFound { path: path.clone() },
            MgitError::DirAlreadyInited { path } => MgitError::DirAlreadyInited {
                path: path.clone(),
            },
            MgitError::ConfigFileNotFound { path } => MgitError::ConfigFileNotFound {
                path: path.clone(),
            },
            MgitError::LoadConfigFailed { source } => MgitError::LoadConfigFailed {
                source: source.clone(),
            },
            MgitError::ParseConfigFailed { source } => MgitError::ParseConfigFailed {
                source: source.clone(),
            },
            MgitError::IoError { source } => MgitError::IoError { source: source.clone() },
            MgitError::GitCommandFailed { command, source } => MgitError::GitCommandFailed {
                command: command.clone(),
                source: source.clone(),
            },
            MgitError::GitCommandError { code, output } => MgitError::GitCommandError {
                code: *code,
                output: output.clone(),
            },
            MgitError::ProcessWaitFailed { source } => MgitError::ProcessWaitFailed {
                source: source.clone(),
            },
            MgitError::OpsError { message } => MgitError::OpsError { message: message.clone() },
            MgitError::RemoteRefNotFound { remote_ref } => MgitError::RemoteRefNotFound {
                remote_ref: remote_ref.clone(),
            },
            MgitError::CommitNotFound => MgitError::CommitNotFound,
            MgitError::BranchNotFound => MgitError::BranchNotFound,
            MgitError::Untracked => MgitError::Untracked,
        }
    }

    /// The message of the error, as the user reads it.
    pub fn message(&self) -> (r: String)
        ensures
            r@ == error_message(*self),
    {
        match self {
            MgitError::DirNotFound { path } => prefixed("Directory not found: ", path.as_str()),
            MgitError::DirAlreadyInited { path } => prefixed(
                "Directory already initialized: ",
                path.as_str(),
            ),
            MgitError::ConfigFileNotFound { path } => prefixed(
                "Config file not found: ",
                path.as_str(),
            ),
            MgitError::LoadConfigFailed { source } => prefixed(
                "Failed to load config file: ",
                source.as_str(),
            ),
            MgitError::ParseConfigFailed { source } => prefixed(
                "Failed to parse config file: ",
                source.as_str(),
            ),
            MgitError::IoError { source } => prefixed("IO error: ", source.as_str()),
            MgitError::GitCommandFailed { command, .. } => prefixed(
                "Git command failed: ",
                command.as_str(),
            ),
            MgitError::GitCommandError { code, output } => {
                let mut r = String::from_str("Git command exited with error code ");
                let c = i32_string(*code);
                r.append(c.as_str());
                r.append(": ");
                r.append(output.as_str());
                r
            },
            MgitError::ProcessWaitFailed { source } => prefixed(
                "Failed to wait for process: ",
                source.as_str(),
            ),
            MgitError::OpsError { message } => prefixed("Operation failed: ", message.as_str()),
            MgitError::RemoteRefNotFound { remote_ref } => {
                let mut r = String::from_str("Remote reference ");
                r.append(remote_ref.as_str());
                r.append(" not found");
                r
            },
            MgitError::CommitNotFound => String::from_str("Current commit not found"),
            MgitError::BranchNotFound => String::from_str("Current branch not found"),
            MgitError::Untracked => String::from_str("Untracked branch"),
        }
    }
}

} // verus!
