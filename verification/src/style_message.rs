//! Messages made of pieces of text, each plain or drawn in a style.
use crate::path::{display_path, display_path_str};
use crate::text::{decimal, decimal_string, trim, trim_str};
use vstd::prelude::*;

verus! {

broadcast use vstd::string::group_string_axioms;

/// The styles a piece of a message is drawn in.
#[derive(PartialEq, Eq, Structural, Debug, Clone, Copy)]
pub enum Style {
    Red,
    Green,
    Blue,
    Yellow,
    Grey,
    RedBold,
    GreenBold,
    BlueBold,
    PurpleBold,
}

/// A piece of a message.
#[derive(Debug)]
pub struct StyleText {
    pub content: String,
    pub style: Option<Style>,
}

impl StyleText {
    /// The text of the piece, without its style.
    pub fn to_plain_text(&self) -> (r: &str)
        ensures
            r@ == self.content@,
    {
        self.content.as_str()
    }

    /// A copy of the piece.
    pub fn copy(&self) -> (r: StyleText)
        ensures
            r == *self,
    {
        StyleText { content: self.content.clone(), style: self.style }
    }
}

/// A message: its pieces, in order.
#[derive(Debug)]
pub struct StyleMessage(pub Vec<StyleText>);

/// A piece as (text, style).
pub type Piece = (Seq<char>, Option<Style>);

impl View for StyleMessage {
    type V = Seq<Piece>;

    open spec fn view(&self) -> Seq<Piece> {
        Seq::new(self.0@.len(), |i: int| (self.0@[i].content@, self.0@[i].style))
    }
}

/// The text of the pieces, without styles.
pub open spec fn plain(p: Seq<Piece>) -> Seq<char>
    decreases p.len(),
{
    if p.len() == 0 {
        Seq::empty()
    } else {
        plain(p.drop_last()) + p.last().0
    }
}

/// The pieces whose text is not `pattern`.
pub open spec fn without(p: Seq<Piece>, pattern: Seq<char>) -> Seq<Piece>
    decreases p.len(),
{
    if p.len() == 0 {
        Seq::empty()
    } else if p.last().0 == pattern {
        without(p.drop_last(), pattern)
    } else {
        without(p.drop_last(), pattern).push(p.last())
    }
}

/// Some piece has the text `pattern`.
pub open spec fn has_piece(p: Seq<Piece>, pattern: Seq<char>) -> bool {
    exists|i: int| 0 <= i < p.len() && #[trigger] p[i].0 == pattern
}

/// A plain piece.
pub open spec fn pl(s: Seq<char>) -> Piece {
    (s, None)
}

/// A styled piece.
pub open spec fn st(s: Seq<char>, style: Style) -> Piece {
    (s, Some(style))
}

/// The pieces of an optional message; none when absent.
pub open spec fn opt_pieces(o: Option<StyleMessage>) -> Seq<Piece> {
    match o {
        Some(m) => m@,
        None => Seq::empty(),
    }
}

/// The text of the commit counts: ahead `↑` and behind `↓`, empty when both
/// are `0`.
pub open spec fn commits_text(ahead: Seq<char>, behind: Seq<char>) -> Seq<char> {
    if ahead == "0"@ && behind == "0"@ {
        Seq::empty()
    } else if behind == "0"@ {
        "commits("@ + ahead + "\u{2191})"@
    } else if ahead == "0"@ {
        "commits("@ + behind + "\u{2193})"@
    } else {
        "commits("@ + ahead + "\u{2191}"@ + behind + "\u{2193})"@
    }
}

impl StyleMessage {
    /// The empty message.
    pub fn new() -> (r: Self)
        ensures
            r@ == Seq::<Piece>::empty(),
    {
        let r = StyleMessage(Vec::new());
        assert(r@ =~= Seq::<Piece>::empty());
        r
    }

    /// A copy of the message.
    pub fn copy(&self) -> (r: Self)
        ensures
            r@ == self@,
    {
        let mut v: Vec<StyleText> = Vec::new();
        let mut i: usize = 0;
        while i < self.0.len()
            invariant
                i <= self.0.len(),
                v@ == self.0@.subrange(0, i as int),
            decreases self.0.len() - i,
        {
            v.push(self.0[i].copy());
            i = i + 1;
            assert(v@ =~= self.0@.subrange(0, i as int));
        }
        assert(v@ =~= self.0@);
        let r = StyleMessage(v);
        assert(r@ =~= self@);
        r
    }

    /// The message with a plain piece added at its end.
    pub fn plain_text(self, content: &str) -> (r: Self)
        ensures
            r@ == self@.push(pl(content@)),
    {
        let ghost old_view = self@;
        let mut v = self.0;
        v.push(StyleText { content: String::from_str(content), style: None });
        let r = StyleMessage(v);
        assert(r@ =~= old_view.push(pl(content@)));
        r
    }

    /// The message with a styled piece added at its end.
    pub fn styled_text(self, content: &str, style: Style) -> (r: Self)
        ensures
            r@ == self@.push(st(content@, style)),
    {
        let ghost old_view = self@;
        let mut v = self.0;
        v.push(StyleText { content: String::from_str(content), style: Some(style) });
        let r = StyleMessage(v);
        assert(r@ =~= old_view.push(st(content@, style)));
        r
    }

    /// Whether some piece has the text `pattern`.
    pub fn contains(&self, pattern: &str) -> (b: bool)
        ensures
            b == has_piece(self@, pattern@),
    {
        let p = String::from_str(pattern);
        let mut i: usize = 0;
        while i < self.0.len()
            invariant
                i <= self.0.len(),
                p@ == pattern@,
                forall|j: int| 0 <= j < i ==> self@[j].0 != pattern@,
            decreases self.0.len() - i,
        {
            if self.0[i].content == p {
                assert(self@[i as int].0 == pattern@);
                return true;
            }
            i = i + 1;
        }
        false
    }

    /// The message followed by the pieces of `other`.
    pub fn join(self, other: StyleMessage) -> (r: Self)
        ensures
            r@ == self@ + other@,
    {
        let ghost a = self@;
        let ghost b = other@;
        let mut v = self.0;
        let mut w = other.0;
        let ghost wv = w@;
        v.append(&mut w);
        let r = StyleMessage(v);
        assert(r@ =~= a + b);
        r
    }

    /// The message followed by the pieces of `other`, when there is one.
    pub fn try_join(self, other: Option<StyleMessage>) -> (r: Self)
        ensures
            r@ == self@ + opt_pieces(other),
    {
        match other {
            Some(v) => self.join(v),
            None => {
                assert(self@ + Seq::<Piece>::empty() =~= self@);
                self
            },
        }
    }

    /// The message without the pieces whose text is `pattern`.
    pub fn remove(self, pattern: &str) -> (r: Self)
        ensures
            r@ == without(self@, pattern@),
    {
        let p = String::from_str(pattern);
        let ghost m = self@;
        let src = self.0;
        let mut v: Vec<StyleText> = Vec::new();
        let mut i: usize = 0;
        while i < src.len()
            invariant
                i <= src.len(),
                p@ == pattern@,
                m == Seq::new(src@.len(), |k: int| (src@[k].content@, src@[k].style)),
                StyleMessage(v)@ == without(m.take(i as int), pattern@),
            decreases src.len() - i,
        {
            assert(m.take(i + 1).drop_last() =~= m.take(i as int));
            if src[i].content != p {
                let ghost before = StyleMessage(v)@;
                v.push(src[i].copy());
                assert(StyleMessage(v)@ =~= before.push(m[i as int]));
            }
            i = i + 1;
        }
        assert(m.take(i as int) =~= m);
        StyleMessage(v)
    }

    /// Replaces the pieces with those of `other`.
    pub fn replace(&mut self, other: StyleMessage)
        ensures
            final(self)@ == other@,
    {
        self.0 = other.0;
    }

    /// The text of the message, without styles.
    pub fn to_plain_text(&self) -> (r: String)
        ensures
            r@ == plain(self@),
    {
        let mut r = String::new();
        let mut i: usize = 0;
        while i < self.0.len()
            invariant
                i <= self.0.len(),
                r@ == plain(self@.take(i as int)),
            decreases self.0.len() - i,
        {
            r.append(self.0[i].content.as_str());
            i = i + 1;
            assert(self@.take(i as int).drop_last() =~= self@.take(i - 1));
        }
        assert(self@.take(i as int) =~= self@);
        r
    }

    /// Whether the message has no piece.
    pub fn is_empty(&self) -> (b: bool)
        ensures
            b == (self@.len() == 0),
    {
        self.0.len() == 0
    }

    /// A message of one plain piece.
    pub fn from_text(s: &str) -> (r: Self)
        ensures
            r@ == seq![pl(s@)],
    {
        StyleMessage::new().plain_text(s)
    }
}

// ---------------------------------------------------------------------------
// The messages of the operations
// ---------------------------------------------------------------------------

impl StyleMessage {
    pub fn dir_not_found(path: &str) -> (r: Self)
        ensures
            r@ == seq![pl("Directory "@), st(path@, Style::PurpleBold), pl(" not found!"@)],
    {
        let r = StyleMessage::new().plain_text("Directory ").styled_text(path, Style::PurpleBold).plain_text(" not found!");
        assert(r@ =~= seq![pl("Directory "@), st(path@, Style::PurpleBold), pl(" not found!"@)]);
        r
    }

    pub fn dir_already_inited(path: &str) -> (r: Self)
        ensures
            r@ == seq![
                st(path@, Style::PurpleBold),
                pl(" already inited, try "@),
                st("--force"@, Style::PurpleBold),
                pl(" instead!"@),
            ],
    {
        let r = StyleMessage::new().styled_text(path, Style::PurpleBold).plain_text(
            " already inited, try ",
        ).styled_text("--force", Style::PurpleBold).plain_text(" instead!");
        assert(r@ =~= seq![
            st(path@, Style::PurpleBold),
            pl(" already inited, try "@),
            st("--force"@, Style::PurpleBold),
            pl(" instead!"@),
        ]);
        r
    }

    pub fn update_config_succ() -> (r: Self)
        ensures
            r@ == seq![st(".gitrepos"@, Style::PurpleBold), pl(" update"@)],
    {
        let r = StyleMessage::new().styled_text(".gitrepos", Style::PurpleBold).plain_text(
            " update",
        );
        assert(r@ =~= seq![st(".gitrepos"@, Style::PurpleBold), pl(" update"@)]);
        r
    }

    pub fn config_file_not_found() -> (r: Self)
        ensures
            r@ == seq![
                st(".gitrepos"@, Style::PurpleBold),
                pl(" not found, try "@),
                st("init"@, Style::PurpleBold),
                pl(" instead!"@),
            ],
    {
        let r = StyleMessage::new().styled_text(".gitrepos", Style::PurpleBold).plain_text(
            " not found, try ",
        ).styled_text("init", Style::PurpleBold).plain_text(" instead!");
        assert(r@ =~= seq![
            st(".gitrepos"@, Style::PurpleBold),
            pl(" not found, try "@),
            st("init"@, Style::PurpleBold),
            pl(" instead!"@),
        ]);
        r
    }

    pub fn remove_file_failed(path: &str, err: &str) -> (r: Self)
        ensures
            r@ == seq![pl("remove "@ + display_path(path@) + " files error: "@ + err@)],
    {
        let mut s = String::from_str("remove ");
        let p = display_path_str(path);
        s.append(p.as_str());
        s.append(" files error: ");
        s.append(err);
        StyleMessage::from_text(s.as_str())
    }

    pub fn remove_file_succ(path: &str) -> (r: Self)
        ensures
            r@ == seq![pl("  "@), st(display_path(path@), Style::PurpleBold), pl(": removed "@)],
    {
        let p = display_path_str(path);
        let r = StyleMessage::new().plain_text("  ").styled_text(p.as_str(), Style::PurpleBold).plain_text(": removed ");
        assert(r@ =~= seq![pl("  "@), st(display_path(path@), Style::PurpleBold), pl(": removed "@)]);
        r
    }

    /// The pieces of the message that reports how many repositories were removed.
    pub open spec fn remove_repo_succ_spec(amount: u32) -> Seq<Piece> {
        if amount == 0 {
            seq![pl("no repository is removed.\n"@)]
        } else if amount == 1 {
            seq![st("1"@, Style::GreenBold), pl(" repository is removed.\n"@)]
        } else {
            seq![st(decimal(amount as nat), Style::GreenBold), pl(" repositories are removed.\n"@)]
        }
    }

    pub fn remove_repo_succ(amount: u32) -> (r: Self)
        ensures
            r@ == Self::remove_repo_succ_spec(amount),
    {
        let msg = StyleMessage::new();
        if amount == 0 {
            let r = msg.plain_text("no repository is removed.\n");
            assert(r@ =~= seq![pl("no repository is removed.\n"@)]);
            r
        } else if amount == 1 {
            let r = msg.styled_text("1", Style::GreenBold).plain_text(" repository is removed.\n");
            assert(r@ =~= seq![st("1"@, Style::GreenBold), pl(" repository is removed.\n"@)]);
            r
        } else {
            let n = decimal_string(amount as u64);
            let r = msg.styled_text(n.as_str(), Style::GreenBold).plain_text(
                " repositories are removed.\n",
            );
            assert(r@ =~= seq![
                st(decimal(amount as nat), Style::GreenBold),
                pl(" repositories are removed.\n"@),
            ]);
            r
        }
    }

    pub fn ops_start(ops: &str, path: &str) -> (r: Self)
        ensures
            r@ == seq![pl(ops@ + " in "@), st(path@, Style::PurpleBold)],
    {
        let mut s = String::from_str(ops);
        s.append(" in ");
        let r = StyleMessage::new().plain_text(s.as_str()).styled_text(path, Style::PurpleBold);
        assert(r@ =~= seq![pl(ops@ + " in "@), st(path@, Style::PurpleBold)]);
        r
    }

    pub fn ops_success(prefix: &str) -> (r: Self)
        ensures
            r@ == seq![pl(prefix@ + " finished! 0 error(s).\n"@)],
    {
        let mut s = String::from_str(prefix);
        s.append(" finished! 0 error(s).\n");
        StyleMessage::from_text(s.as_str())
    }

    pub fn ops_failed(prefix: &str, amount: usize) -> (r: Self)
        ensures
            r@ == seq![
                pl(prefix@ + " finished! "@),
                st(decimal(amount as nat), Style::RedBold),
                pl(" error(s).\n"@),
            ],
    {
        let mut s = String::from_str(prefix);
        s.append(" finished! ");
        let n = decimal_string(amount as u64);
        let r = StyleMessage::new().plain_text(s.as_str()).styled_text(n.as_str(), Style::RedBold).plain_text(" error(s).\n");
        assert(r@ =~= seq![
            pl(prefix@ + " finished! "@),
            st(decimal(amount as nat), Style::RedBold),
            pl(" error(s).\n"@),
        ]);
        r
    }

    pub fn repo_end(is_success: bool) -> (r: Self)
        ensures
            is_success ==> r@ == seq![st("\u{221a}"@, Style::GreenBold)],
            !is_success ==> r@ == seq![st("x"@, Style::RedBold)],
    {
        let r = if is_success {
            StyleMessage::new().styled_text("\u{221a}", Style::GreenBold)
        } else {
            StyleMessage::new().styled_text("x", Style::RedBold)
        };
        assert(is_success ==> r@ =~= seq![st("\u{221a}"@, Style::GreenBold)]);
        assert(!is_success ==> r@ =~= seq![st("x"@, Style::RedBold)]);
        r
    }

    pub fn git_error(rel_path: &str, error: &str) -> (r: Self)
        ensures
            r@ == seq![st(display_path(rel_path@), Style::PurpleBold), pl(" "@), st(trim(error@), Style::Red)],
    {
        StyleMessage::git_error_str(rel_path, error)
    }

    pub fn git_error_str(rel_path: &str, error: &str) -> (r: Self)
        ensures
            r@ == seq![st(display_path(rel_path@), Style::PurpleBold), pl(" "@), st(trim(error@), Style::Red)],
    {
        let p = display_path_str(rel_path);
        let e = trim_str(error);
        let r = StyleMessage::new().styled_text(p.as_str(), Style::PurpleBold).plain_text(" ").styled_text(e.as_str(), Style::Red);
        assert(r@ =~= seq![st(display_path(rel_path@), Style::PurpleBold), pl(" "@), st(trim(error@), Style::Red)]);
        r
    }

    pub fn git_stash(rel_path: &str, desc: &str) -> (r: Self)
        ensures
            r@ == seq![st(display_path(rel_path@), Style::PurpleBold), pl(": "@), pl(desc@)],
    {
        let p = display_path_str(rel_path);
        let r = StyleMessage::new().styled_text(p.as_str(), Style::PurpleBold).plain_text(": ").plain_text(desc);
        assert(r@ =~= seq![st(display_path(rel_path@), Style::PurpleBold), pl(": "@), pl(desc@)]);
        r
    }

    pub fn git_untracked(path: &str, desc: &str) -> (r: Self)
        ensures
            r@ == seq![
                st(display_path(path@), Style::PurpleBold),
                pl(": "@),
                st(desc@, Style::Blue),
                pl(" untracked"@),
            ],
    {
        let p = display_path_str(path);
        let r = StyleMessage::new().styled_text(p.as_str(), Style::PurpleBold).plain_text(": ").styled_text(desc, Style::Blue).plain_text(" untracked");
        assert(r@ =~= seq![
            st(display_path(path@), Style::PurpleBold),
            pl(": "@),
            st(desc@, Style::Blue),
            pl(" untracked"@),
        ]);
        r
    }

    /// The pieces of the message for a branch that now tracks a remote.
    pub open spec fn git_tracking_succ_spec(
        rel_path: Seq<char>,
        local_branch: Seq<char>,
        remote_desc: Seq<char>,
    ) -> Seq<Piece> {
        seq![
            st(display_path(rel_path), Style::PurpleBold),
            pl(": "@),
            st(local_branch, Style::Blue),
            pl(" -> "@),
            st(remote_desc, Style::Blue),
        ]
    }

    /// The pieces of the message for a branch that could not track a remote.
    pub open spec fn git_tracking_failed_spec(rel_path: Seq<char>, remote_desc: Seq<char>) -> Seq<
        Piece,
    > {
        seq![
            st(display_path(rel_path), Style::PurpleBold),
            pl(": "@),
            st("track failed"@, Style::Red),
            pl(" "@),
            st(remote_desc, Style::Blue),
            pl(" "@),
            st("not found!"@, Style::Red),
        ]
    }

    pub fn git_tracking_succ(rel_path: &str, local_branch: &str, remote_desc: &str) -> (r: Self)
        ensures
            r@ == Self::git_tracking_succ_spec(rel_path@, local_branch@, remote_desc@),
    {
        let p = display_path_str(rel_path);
        let r = StyleMessage::new().styled_text(p.as_str(), Style::PurpleBold).plain_text(": ").styled_text(local_branch, Style::Blue).plain_text(" -> ").styled_text(remote_desc, Style::Blue);
        assert(r@ =~= seq![
            st(display_path(rel_path@), Style::PurpleBold),
            pl(": "@),
            st(local_branch@, Style::Blue),
            pl(" -> "@),
            st(remote_desc@, Style::Blue),
        ]);
        r
    }

    pub fn git_tracking_failed(rel_path: &str, remote_desc: &str) -> (r: Self)
        ensures
            r@ == Self::git_tracking_failed_spec(rel_path@, remote_desc@),
    {
        let p = display_path_str(rel_path);
        let r = StyleMessage::new().styled_text(p.as_str(), Style::PurpleBold).plain_text(": ").styled_text("track failed", Style::Red).plain_text(" ").styled_text(remote_desc, Style::Blue).plain_text(" ").styled_text("not found!", Style::Red);
        assert(r@ =~= seq![
            st(display_path(rel_path@), Style::PurpleBold),
            pl(": "@),
            st("track failed"@, Style::Red),
            pl(" "@),
            st(remote_desc@, Style::Blue),
            pl(" "@),
            st("not found!"@, Style::Red),
        ]);
        r
    }

    pub fn git_remote_not_found(remote_ref: &str) -> (r: Self)
        ensures
            r@ == seq![pl("remote "@), st(remote_ref@, Style::Blue), pl(" not found"@)],
    {
        let r = StyleMessage::new().plain_text("remote ").styled_text(remote_ref, Style::Blue).plain_text(" not found");
        assert(r@ =~= seq![pl("remote "@), st(remote_ref@, Style::Blue), pl(" not found"@)]);
        r
    }

    pub fn git_checking_out(branch: &str) -> (r: Self)
        ensures
            r@ == seq![pl("checkout "@), st(branch@, Style::Blue), pl("..."@)],
    {
        let r = StyleMessage::new().plain_text("checkout ").styled_text(branch, Style::Blue).plain_text("...");
        assert(r@ =~= seq![pl("checkout "@), st(branch@, Style::Blue), pl("..."@)]);
        r
    }

    pub fn git_changes(len: usize) -> (r: Option<Self>)
        ensures
            len == 0 ==> r is None,
            len > 0 ==> (r matches Some(m) && m@ == seq![
                st("changes("@ + decimal(len as nat) + ")"@, Style::Red),
            ]),
    {
        if len == 0 {
            None
        } else {
            let mut s = String::from_str("changes(");
            let n = decimal_string(len as u64);
            s.append(n.as_str());
            s.append(")");
            let r = StyleMessage::new().styled_text(s.as_str(), Style::Red);
            assert(r@ =~= seq![st("changes("@ + decimal(len as nat) + ")"@, Style::Red)]);
            Some(r)
        }
    }

    pub fn git_commits(ahead: &str, behind: &str) -> (r: Option<Self>)
        ensures
            commits_text(ahead@, behind@).len() == 0 ==> r is None,
            commits_text(ahead@, behind@).len() > 0 ==> (r matches Some(m) && m@ == seq![
                st(commits_text(ahead@, behind@), Style::Yellow),
            ]),
    {
        let a0 = crate::text::str_eq(ahead, "0");
        let b0 = crate::text::str_eq(behind, "0");
        let mut s = String::new();
        if a0 && b0 {
        } else if b0 {
            s.append("commits(");
            s.append(ahead);
            s.append("\u{2191})");
        } else if a0 {
            s.append("commits(");
            s.append(behind);
            s.append("\u{2193})");
        } else {
            s.append("commits(");
            s.append(ahead);
            s.append("\u{2191}");
            s.append(behind);
            s.append("\u{2193})");
        }
        proof {
            reveal_strlit("commits(");
        }
        assert(s@ =~= commits_text(ahead@, behind@));
        if s.as_str().is_empty() {
            None
        } else {
            let r = StyleMessage::new().styled_text(s.as_str(), Style::Yellow);
            assert(r@ =~= seq![st(commits_text(ahead@, behind@), Style::Yellow)]);
            Some(r)
        }
    }

    pub fn git_unknown_revision() -> (r: Self)
        ensures
            r@ == seq![st("unknown revision"@, Style::Yellow)],
    {
        let r = StyleMessage::new().styled_text("unknown revision", Style::Yellow);
        assert(r@ =~= seq![st("unknown revision"@, Style::Yellow)]);
        r
    }

    pub fn git_update_to(desc: StyleMessage) -> (r: Self)
        ensures
            r@ == seq![st("update to"@, Style::Green), pl(" "@)] + desc@,
    {
        let head = StyleMessage::new().styled_text("update to", Style::Green).plain_text(" ");
        assert(head@ =~= seq![st("update to"@, Style::Green), pl(" "@)]);
        head.join(desc)
    }

    pub fn git_update_to_date(branch_log: &str) -> (r: Self)
        ensures
            r@ == seq![pl("already update to date."@), st(branch_log@, Style::Grey)],
    {
        let r = StyleMessage::new().plain_text("already update to date.").styled_text(branch_log, Style::Grey);
        assert(r@ =~= seq![pl("already update to date."@), st(branch_log@, Style::Grey)]);
        r
    }

    pub fn git_diff(
        remote_desc: &str,
        commit_desc: Option<StyleMessage>,
        changes_desc: Option<StyleMessage>,
    ) -> (r: Self)
        ensures
            r@ == seq![st(remote_desc@, Style::Blue)] + (match commit_desc {
                Some(c) => seq![pl(", "@)] + c@,
                None => Seq::empty(),
            }) + (match changes_desc {
                Some(c) => seq![pl(", "@)] + c@,
                None => Seq::empty(),
            }),
    {
        let mut diff = StyleMessage::new().styled_text(remote_desc, Style::Blue);
        let ghost d0 = diff@;
        if let Some(c) = commit_desc {
            let ghost cv = c@;
            diff = diff.plain_text(", ").join(c);
            assert(diff@ =~= d0 + (seq![pl(", "@)] + cv));
        } else {
            assert(diff@ =~= d0 + Seq::<Piece>::empty());
        }
        let ghost d1 = diff@;
        if let Some(c) = changes_desc {
            let ghost cv = c@;
            diff = diff.plain_text(", ").join(c);
            assert(diff@ =~= d1 + (seq![pl(", "@)] + cv));
        } else {
            assert(diff@ =~= d1 + Seq::<Piece>::empty());
        }
        diff
    }

    pub fn git_new_branch(path: &str, branch: &str) -> (r: Self)
        ensures
            r@ == seq![st(display_path(path@), Style::PurpleBold), pl(": "@), st(branch@, Style::Blue)],
    {
        let p = display_path_str(path);
        let r = StyleMessage::new().styled_text(p.as_str(), Style::PurpleBold).plain_text(": ").styled_text(branch, Style::Blue);
        assert(r@ =~= seq![st(display_path(path@), Style::PurpleBold), pl(": "@), st(branch@, Style::Blue)]);
        r
    }

    pub fn git_del_branch(path: &str, branch: &str) -> (r: Self)
        ensures
            r@ == seq![
                st(display_path(path@), Style::PurpleBold),
                pl(": deleted "@),
                st(branch@, Style::Blue),
            ],
    {
        let p = display_path_str(path);
        let r = StyleMessage::new().styled_text(p.as_str(), Style::PurpleBold).plain_text(": deleted ").styled_text(branch, Style::Blue);
        assert(r@ =~= seq![
            st(display_path(path@), Style::PurpleBold),
            pl(": deleted "@),
            st(branch@, Style::Blue),
        ]);
        r
    }

    pub fn git_new_tag(path: &str, tag: &str) -> (r: Self)
        ensures
            r@ == seq![st(display_path(path@), Style::PurpleBold), pl(": "@), st(tag@, Style::Blue)],
    {
        let p = display_path_str(path);
        let r = StyleMessage::new().styled_text(p.as_str(), Style::PurpleBold).plain_text(": ").styled_text(tag, Style::Blue);
        assert(r@ =~= seq![st(display_path(path@), Style::PurpleBold), pl(": "@), st(tag@, Style::Blue)]);
        r
    }
}

// ---------------------------------------------------------------------------
// Laws
// ---------------------------------------------------------------------------

/// The text of two messages joined is the text of the first followed by the
/// text of the second.
pub proof fn lemma_plain_join(a: Seq<Piece>, b: Seq<Piece>)
    ensures
        plain(a + b) == plain(a) + plain(b),
    decreases b.len(),
{
    if b.len() == 0 {
        assert(a + b =~= a);
        assert(plain(b) =~= Seq::<char>::empty());
        assert(plain(a) + plain(b) =~= plain(a));
    } else {
        lemma_plain_join(a, b.drop_last());
        assert((a + b).drop_last() =~= a + b.drop_last());
        assert(plain(a + b) =~= plain(a) + plain(b));
    }
}

/// After a piece is removed, no piece has its text.
pub proof fn lemma_remove_absent(p: Seq<Piece>, pattern: Seq<char>)
    ensures
        !has_piece(without(p, pattern), pattern),
    decreases p.len(),
{
    if p.len() > 0 {
        lemma_remove_absent(p.drop_last(), pattern);
        let w = without(p.drop_last(), pattern);
        if p.last().0 != pattern {
            assert forall|i: int| 0 <= i < w.len() + 1 implies #[trigger] w.push(p.last())[i].0
                != pattern by {
                if i < w.len() {
                    assert(w.push(p.last())[i] == w[i]);
                }
            }
        }
    }
}

/// A piece just added is found.
pub proof fn lemma_added_found(p: Seq<Piece>, s: Seq<char>, style: Option<Style>)
    ensures
        has_piece(p.push((s, style)), s),
{
    assert(p.push((s, style))[p.len() as int].0 == s);
}

} // verus!
