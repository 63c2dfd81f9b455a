//! The file listing of the repositories of a project (`ls-files`).
use crate::path::{norm_path, norm_path_str};
use crate::text::{chars_of, lines, lines_str, rsplit_once, rsplit_once_str, string_of, trim, trim_str, push_char};
use vstd::prelude::*;

verus! {

broadcast use vstd::string::group_string_axioms;

/// `s` without the leading characters `c`.
pub open spec fn trim_char_start(s: Seq<char>, c: char) -> Seq<char>
    decreases s.len(),
{
    if s.len() > 0 && s[0] == c {
        trim_char_start(s.drop_first(), c)
    } else {
        s
    }
}

/// `s` without the trailing characters `c`.
pub open spec fn trim_char_end(s: Seq<char>, c: char) -> Seq<char>
    decreases s.len(),
{
    if s.len() > 0 && s.last() == c {
        trim_char_end(s.drop_last(), c)
    } else {
        s
    }
}

/// `str::trim_matches` with a character.
pub open spec fn trim_matches(s: Seq<char>, c: char) -> Seq<char> {
    trim_char_end(trim_char_start(s, c), c)
}

/// `str::trim_matches` with a character.
pub fn trim_matches_str(s: &str, c: char) -> (r: String)
    ensures
        r@ == trim_matches(s@, c),
{
    let v = chars_of(s);
    let n = v.len();
    let mut i: usize = 0;
    assert(v@.subrange(0, n as int) =~= v@);
    while i < n && v[i] == c
        invariant
            i <= n == v.len(),
            trim_char_start(v@, c) == trim_char_start(v@.subrange(i as int, n as int), c),
        decreases n - i,
    {
        assert(v@.subrange(i as int, n as int).drop_first() =~= v@.subrange(i + 1, n as int));
        i = i + 1;
    }
    let ghost mid = v@.subrange(i as int, n as int);
    let mut j: usize = n;
    while j > i && v[j - 1] == c
        invariant
            i <= j <= n == v.len(),
            mid == v@.subrange(i as int, n as int),
            trim_char_end(mid, c) == trim_char_end(v@.subrange(i as int, j as int), c),
        decreases j,
    {
        assert(v@.subrange(i as int, j as int).drop_last() =~= v@.subrange(i as int, j - 1));
        j = j - 1;
    }
    string_of(&v, i, j)
}

/// The listing line for one line `line` of `git ls-files -s` in the
/// repository at `rel`: the mode, hash and stage before the tab, then the
/// file's path from the project directory.  Lines without a tab give none.
pub open spec fn listed_line(rel: Seq<char>, line: Seq<char>) -> Option<Seq<char>> {
    match rsplit_once(line, '\t') {
        None => None,
        Some((left, right)) => {
            let sep = if !(rel.len() > 0 && (rel.last() == '\\' || rel.last() == '/')) {
                seq!['/']
            } else {
                Seq::empty()
            };
            Some(left + seq!['\t'] + trim_matches(norm_path(rel + sep + right), '/'))
        },
    }
}

/// The listing lines for the lines `ls`.
pub open spec fn listed_lines(rel: Seq<char>, ls: Seq<Seq<char>>) -> Seq<Seq<char>>
    decreases ls.len(),
{
    if ls.len() == 0 {
        Seq::empty()
    } else {
        let rest = listed_lines(rel, ls.drop_last());
        match listed_line(rel, ls.last()) {
            Some(l) => rest.push(l),
            None => rest,
        }
    }
}

/// The listing of one repository at `rel`, from the output of `git ls-files -s`.
pub fn list_repo_files(rel_path: &str, content: &str) -> (r: Vec<String>)
    ensures
        r.deep_view() == listed_lines(rel_path@, lines(trim(content@))),
{
    let t = trim_str(content);
    let ls = lines_str(t.as_str());
    let rv = chars_of(rel_path);
    let plain = !(rv.len() > 0 && (rv[rv.len() - 1] == '\\' || rv[rv.len() - 1] == '/'));
    let mut files: Vec<String> = Vec::new();
    let mut i: usize = 0;
    while i < ls.len()
        invariant
            i <= ls.len(),
            rv@ == rel_path@,
            plain == !(rv@.len() > 0 && (rv@.last() == '\\' || rv@.last() == '/')),
            ls.deep_view() == lines(trim(content@)),
            files.deep_view() == listed_lines(rel_path@, ls.deep_view().take(i as int)),
        decreases ls.len() - i,
    {
        assert(ls.deep_view().take(i + 1).drop_last() =~= ls.deep_view().take(i as int));
        let ghost before = files.deep_view();
        match rsplit_once_str(ls[i].as_str(), '\t') {
            Some((left, right)) => {
                let mut path = String::from_str(rel_path);
                if plain {
                    push_char(&mut path, '/');
                }
                path.append(right.as_str());
                let normed = norm_path_str(path.as_str());
                let trimmed = trim_matches_str(normed.as_str(), '/');
                let mut entry = left;
                push_char(&mut entry, '\t');
                entry.append(trimmed.as_str());
                let ghost ev = entry@;
                files.push(entry);
                proof {
                    let sep = if plain { seq!['/'] } else { Seq::<char>::empty() };
                    assert(path@ =~= rel_path@ + sep + right@);
                    assert(ev =~= left@ + seq!['\t'] + trim_matches(norm_path(rel_path@ + sep + right@), '/'));
                    assert(listed_line(rel_path@, ls.deep_view()[i as int]) == Some(ev));
                    assert(files.deep_view() =~= before.push(ev));
                }
            },
            None => {
                assert(listed_line(rel_path@, ls.deep_view()[i as int]) is None);
            },
        }
        assert(ls.deep_view().take(i + 1).last() == ls.deep_view()[i as int]);
        i = i + 1;
    }
    assert(ls.deep_view().take(i as int) =~= ls.deep_view());
    files
}

/// Positions `i` and `i + 1` of `s` both hold `/`.
pub open spec fn slash_pair(s: Seq<char>, i: int) -> bool {
    s[i] == '/' && s[i + 1] == '/'
}

/// No two `/` stand next to each other in `s`.
pub open spec fn no_double_slash(s: Seq<char>) -> bool {
    forall|i: int| 0 <= i && i + 1 < s.len() ==> !#[trigger] slash_pair(s, i)
}

proof fn lemma_trim_char_start(s: Seq<char>, c: char) -> (a: int)
    ensures
        0 <= a <= s.len(),
        trim_char_start(s, c) == s.subrange(a, s.len() as int),
    decreases s.len(),
{
    if s.len() > 0 && s[0] == c {
        let a0 = lemma_trim_char_start(s.drop_first(), c);
        assert(s.drop_first().subrange(a0, s.drop_first().len() as int) =~= s.subrange(
            a0 + 1,
            s.len() as int,
        ));
        a0 + 1
    } else {
        assert(s.subrange(0, s.len() as int) =~= s);
        0
    }
}

proof fn lemma_trim_char_end(s: Seq<char>, c: char) -> (b: int)
    ensures
        0 <= b <= s.len(),
        trim_char_end(s, c) == s.subrange(0, b),
    decreases s.len(),
{
    if s.len() > 0 && s.last() == c {
        let b0 = lemma_trim_char_end(s.drop_last(), c);
        assert(s.drop_last().subrange(0, b0) =~= s.subrange(0, b0));
        b0
    } else {
        assert(s.subrange(0, s.len() as int) =~= s);
        s.len() as int
    }
}

/// A part of a text without doubled `/` has none either.
proof fn lemma_no_double_slash_sub(s: Seq<char>, a: int, b: int)
    requires
        no_double_slash(s),
        0 <= a <= b <= s.len(),
    ensures
        no_double_slash(s.subrange(a, b)),
{
    let t = s.subrange(a, b);
    assert forall|i: int| 0 <= i && i + 1 < t.len() implies !#[trigger] slash_pair(t, i) by {
        assert(t[i] == s[a + i] && t[i + 1] == s[a + i + 1]);
        assert(!slash_pair(s, a + i));
    }
}

/// A listed file's path joins the repository's directory and the file's path
/// with a single `/`: where neither holds a doubled `/` (once `\` counts as
/// `/`) and the file's path does not start with one, the listed path holds
/// none either.
pub proof fn lemma_listed_path_single_separator(
    rel: Seq<char>,
    line: Seq<char>,
    left: Seq<char>,
    right: Seq<char>,
)
    requires
        rsplit_once(line, '\t') == Some((left, right)),
        no_double_slash(norm_path(rel)),
        no_double_slash(norm_path(right)),
        right.len() > 0 ==> norm_path(right)[0] != '/',
    ensures
        exists|p: Seq<char>|
            listed_line(rel, line) == Some(left + seq!['\t'] + p) && #[trigger] no_double_slash(p),
{
    let plain = !(rel.len() > 0 && (rel.last() == '\\' || rel.last() == '/'));
    let sep = if plain {
        seq!['/']
    } else {
        Seq::<char>::empty()
    };
    let rr = norm_path(rel);
    let ss = norm_path(sep);
    let tt = norm_path(right);
    let n = norm_path(rel + sep + right);
    assert(n =~= rr + ss + tt);
    let r = rr.len() as int;
    let sl = ss.len() as int;
    assert forall|i: int| 0 <= i && i + 1 < n.len() implies !#[trigger] slash_pair(n, i) by {
        if i + 1 < r {
            assert(n[i] == rr[i] && n[i + 1] == rr[i + 1]);
            assert(!slash_pair(rr, i));
        } else if i >= r + sl {
            assert(n[i] == tt[i - r - sl] && n[i + 1] == tt[i + 1 - r - sl]);
            assert(!slash_pair(tt, i - r - sl));
        } else if i == r - 1 {
            if sl == 1 {
                assert(n[i] == rr[r - 1]);
                assert(rr[r - 1] == rel[r - 1]);
            } else {
                assert(n[i + 1] == tt[0]);
            }
        } else {
            assert(i == r && sl == 1);
            assert(n[i + 1] == tt[0]);
        }
    }
    let a = lemma_trim_char_start(n, '/');
    let u = n.subrange(a, n.len() as int);
    let b = lemma_trim_char_end(u, '/');
    lemma_no_double_slash_sub(n, a, n.len() as int);
    lemma_no_double_slash_sub(u, 0, b);
    let p = trim_matches(n, '/');
    assert(listed_line(rel, line) == Some(left + seq!['\t'] + p));
}

/// A repository's directory lists the same paths whether or not it is
/// written with a trailing `/`.
pub proof fn lemma_listing_ignores_trailing_slash(rel: Seq<char>, line: Seq<char>)
    requires
        !(rel.len() > 0 && (rel.last() == '\\' || rel.last() == '/')),
    ensures
        listed_line(rel.push('/'), line) == listed_line(rel, line),
{
    match rsplit_once(line, '\t') {
        None => {},
        Some((left, right)) => {
            assert(rel.push('/') + Seq::<char>::empty() + right =~= rel + seq!['/'] + right);
        },
    }
}

} // verus!
