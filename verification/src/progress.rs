//! What the application keeps of the progress of a batch operation: the last
//! message of each repository, and the name of each repository's log.
use crate::config::RepoConfig;
use crate::events::CommandType;
use crate::session::opt_view;
use crate::style_message::StyleMessage;
use crate::text::{chars_of, decimal, decimal_string, push_char};
use vstd::prelude::*;

verus! {

broadcast use vstd::string::group_string_axioms;

/// An ASCII letter or digit.
pub open spec fn is_alnum(c: char) -> bool {
    ('a' <= c && c <= 'z') || ('A' <= c && c <= 'Z') || ('0' <= c && c <= '9')
}

/// `s` with each run of characters that are no ASCII letters or digits
/// replaced by one `_`.
pub open spec fn collapse_non_alnum(s: Seq<char>) -> Seq<char>
    decreases s.len(),
{
    if s.len() == 0 {
        Seq::empty()
    } else {
        let prev = collapse_non_alnum(s.drop_last());
        let c = s.last();
        if is_alnum(c) {
            prev.push(c)
        } else if s.len() >= 2 && !is_alnum(s[s.len() - 2]) {
            prev
        } else {
            prev.push('_')
        }
    }
}

/// Replaces each run of characters that are no ASCII letters or digits by
/// one `_`.
pub fn collapse_non_alnum_str(s: &str) -> (r: String)
    ensures
        r@ == collapse_non_alnum(s@),
{
    let v = chars_of(s);
    let mut r = String::new();
    let mut i: usize = 0;
    while i < v.len()
        invariant
            i <= v.len(),
            v@ == s@,
            r@ == collapse_non_alnum(s@.take(i as int)),
        decreases v.len() - i,
    {
        let c = v[i];
        assert(s@.take(i + 1).drop_last() =~= s@.take(i as int));
        assert(s@.take(i + 1).last() == c);
        let alnum = ('a' <= c && c <= 'z') || ('A' <= c && c <= 'Z') || ('0' <= c && c <= '9');
        if alnum {
            push_char(&mut r, c);
        } else {
            let prev_alnum = if i == 0 {
                true
            } else {
                let p = v[i - 1];
                ('a' <= p && p <= 'z') || ('A' <= p && p <= 'Z') || ('0' <= p && p <= '9')
            };
            if prev_alnum {
                push_char(&mut r, '_');
            } else {
                assert(s@.take(i + 1)[i - 1] == v@[i - 1]);
            }
        }
        i = i + 1;
    }
    assert(s@.take(i as int) =~= s@);
    r
}

/// A number written with at least two digits.
pub open spec fn two_digits(n: nat) -> Seq<char> {
    if n < 10 {
        seq!['0'] + decimal(n)
    } else {
        decimal(n)
    }
}

/// The name of the log of repository `id`: its position with two digits,
/// its directory and its remote, each with runs of other characters than
/// ASCII letters and digits replaced by `_`.
pub open spec fn repo_log_name(id: nat, local: Option<Seq<char>>, remote: Option<Seq<char>>) -> Seq<
    char,
> {
    two_digits(id) + "-"@ + collapse_non_alnum(
        match local {
            Some(l) => l,
            None => "no_local"@,
        },
    ) + "-"@ + collapse_non_alnum(
        match remote {
            Some(r) => r,
            None => "no_remote"@,
        },
    )
}

/// The name of the log of repository `id`.
pub fn generate_repo_name(id: usize, repo_config: &RepoConfig) -> (r: String)
    ensures
        r@ == repo_log_name(id as nat, opt_view(repo_config.local), opt_view(repo_config.remote)),
{
    let mut r = String::new();
    if id < 10 {
        push_char(&mut r, '0');
    }
    let n = decimal_string(id as u64);
    r.append(n.as_str());
    r.append("-");
    let local = match &repo_config.local {
        Some(l) => collapse_non_alnum_str(l.as_str()),
        None => collapse_non_alnum_str("no_local"),
    };
    r.append(local.as_str());
    r.append("-");
    let remote = match &repo_config.remote {
        Some(x) => collapse_non_alnum_str(x.as_str()),
        None => collapse_non_alnum_str("no_remote"),
    };
    r.append(remote.as_str());
    r
}

/// The end of a command is reported now: there is a command, and its end
/// was not reported in this batch.
pub open spec fn reports_finish(command: CommandType, sent: bool) -> bool {
    command != CommandType::Nothing && !sent
}

/// Whether the end of the batch counts as reported after a report is asked
/// for.
pub open spec fn sent_after(command: CommandType, sent: bool) -> bool {
    sent || command != CommandType::Nothing
}

/// The end of a command is reported at most once per batch: after one
/// request, a second reports nothing; a new batch reports again.
pub proof fn lemma_finish_reported_once(command: CommandType, sent: bool)
    ensures
        !reports_finish(command, sent_after(command, sent)),
        reports_finish(command, false) == (command != CommandType::Nothing),
{
}

/// The last message of each repository of a batch operation, with the names
/// of their logs.
pub struct OpsMessageCollector {
    pub repo_state_buffers: Vec<StyleMessage>,
    pub repo_names: Vec<String>,
    pub command_type: CommandType,
    pub run_id: u64,
    pub batch_finished_sent: bool,
}

impl OpsMessageCollector {
    /// No repositories and no command.
    pub fn new() -> (r: Self)
        ensures
            r.repo_state_buffers@.len() == 0,
            r.repo_names@.len() == 0,
            r.command_type == CommandType::Nothing,
            r.run_id == 0,
            !r.batch_finished_sent,
    {
        OpsMessageCollector {
            repo_state_buffers: Vec::new(),
            repo_names: Vec::new(),
            command_type: CommandType::Nothing,
            run_id: 0,
            batch_finished_sent: false,
        }
    }

    /// Starts over with the repositories `repo_configs`: an empty message
    /// and a log name for each.
    pub fn update(&mut self, repo_configs: &Vec<RepoConfig>)
        ensures
            final(self).repo_state_buffers@.len() == repo_configs@.len(),
            forall|i: int|
                0 <= i < repo_configs@.len() ==> (#[trigger] final(self).repo_state_buffers@[i])@.len()
                    == 0,
            final(self).repo_names@.len() == repo_configs@.len(),
            forall|i: int|
                0 <= i < repo_configs@.len() ==> (#[trigger] final(self).repo_names@[i])@
                    == repo_log_name(
                    i as nat,
                    opt_view(repo_configs@[i].local),
                    opt_view(repo_configs@[i].remote),
                ),
            final(self).command_type == old(self).command_type,
            final(self).run_id == old(self).run_id,
            final(self).batch_finished_sent == old(self).batch_finished_sent,
    {
        let mut buffers: Vec<StyleMessage> = Vec::new();
        let mut names: Vec<String> = Vec::new();
        let mut i: usize = 0;
        while i < repo_configs.len()
            invariant
                i <= repo_configs@.len(),
                buffers@.len() == i,
                names@.len() == i,
                forall|j: int| 0 <= j < i ==> (#[trigger] buffers@[j])@.len() == 0,
                forall|j: int|
                    0 <= j < i ==> (#[trigger] names@[j])@ == repo_log_name(
                        j as nat,
                        opt_view(repo_configs@[j].local),
                        opt_view(repo_configs@[j].remote),
                    ),
            decreases repo_configs@.len() - i,
        {
            buffers.push(StyleMessage::new());
            names.push(generate_repo_name(i, &repo_configs[i]));
            i = i + 1;
        }
        self.repo_state_buffers = buffers;
        self.repo_names = names;
    }

    /// The last message of repository `idx`; nothing for an unknown one.
    pub fn read_ops_message(&self, idx: usize) -> (r: Vec<StyleMessage>)
        ensures
            idx >= self.repo_state_buffers@.len() ==> r@.len() == 0,
            idx < self.repo_state_buffers@.len() ==> r@.len() == 1 && r@[0]@
                == self.repo_state_buffers@[idx as int]@,
    {
        if idx >= self.repo_state_buffers.len() {
            return Vec::new();
        }
        let mut r = Vec::new();
        r.push(self.repo_state_buffers[idx].copy());
        r
    }

    /// Repository `id` reports `message`; it replaces the last one.  An
    /// unknown repository changes nothing.
    pub fn on_repo_update(&mut self, id: usize, message: StyleMessage)
        ensures
            final(self).repo_state_buffers@.len() == old(self).repo_state_buffers@.len(),
            id < old(self).repo_state_buffers@.len() ==> final(self).repo_state_buffers@
                == old(self).repo_state_buffers@.update(id as int, message),
            id >= old(self).repo_state_buffers@.len() ==> final(self).repo_state_buffers@
                == old(self).repo_state_buffers@,
            final(self).repo_names == old(self).repo_names,
            final(self).command_type == old(self).command_type,
            final(self).run_id == old(self).run_id,
            final(self).batch_finished_sent == old(self).batch_finished_sent,
    {
        if id < self.repo_state_buffers.len() {
            self.repo_state_buffers.set(id, message);
        }
    }

    /// A new batch starts: its end is not reported yet.
    pub fn on_batch_start(&mut self)
        ensures
            !final(self).batch_finished_sent,
            final(self).repo_state_buffers == old(self).repo_state_buffers,
            final(self).repo_names == old(self).repo_names,
            final(self).command_type == old(self).command_type,
            final(self).run_id == old(self).run_id,
    {
        self.batch_finished_sent = false;
    }

    /// Whether the end of the command is to be reported now: once per batch,
    /// and only for a command.  Reporting marks it as reported.
    pub fn send_command_finished_once(&mut self) -> (r: bool)
        ensures
            r == reports_finish(old(self).command_type, old(self).batch_finished_sent),
            final(self).batch_finished_sent == sent_after(
                old(self).command_type,
                old(self).batch_finished_sent,
            ),
            final(self).repo_state_buffers == old(self).repo_state_buffers,
            final(self).repo_names == old(self).repo_names,
            final(self).command_type == old(self).command_type,
            final(self).run_id == old(self).run_id,
    {
        if self.command_type == CommandType::Nothing {
            return false;
        }
        if self.batch_finished_sent {
            return false;
        }
        self.batch_finished_sent = true;
        true
    }
}

} // verus!
