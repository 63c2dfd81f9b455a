//! Paths held as `/`-separated strings.
//!
//! The library keeps every path as text.  `norm_path` turns Windows
//! separators into `/`, `display_path` shows the empty path as `.`, and the
//! joining and parent operations below treat `/` as the only separator.
use crate::text::{chars_of, push_char, string_of};
use vstd::prelude::*;

verus! {

/// `norm_path`: every `\` becomes `/`.
pub open spec fn norm_path(s: Seq<char>) -> Seq<char> {
    Seq::new(s.len(), |i: int| if s[i] == '\\' { '/' } else { s[i] })
}

/// `display_path`: the normalised path, or `.` for the empty path.
pub open spec fn display_path(s: Seq<char>) -> Seq<char> {
    if s.len() == 0 {
        seq!['.']
    } else {
        norm_path(s)
    }
}

/// `base` joined with the relative path `rel`.
pub open spec fn join_path(base: Seq<char>, rel: Seq<char>) -> Seq<char> {
    if base.len() == 0 {
        rel
    } else if base.last() == '/' {
        base + rel
    } else {
        base + seq!['/'] + rel
    }
}

/// The path starts at the root `/`.
pub open spec fn has_root(s: Seq<char>) -> bool {
    s.len() > 0 && s[0] == '/'
}

/// The path starts with the current directory `.` as its own component.
pub open spec fn starts_cur_dir(s: Seq<char>) -> bool {
    !has_root(s) && s.len() > 0 && s[0] == '.' && (s.len() == 1 || s[1] == '/')
}

/// How many characters come before the other components: the root `/` or a
/// leading `.`.
pub open spec fn body_start(s: Seq<char>) -> int {
    if has_root(s) || starts_cur_dir(s) {
        1
    } else {
        0
    }
}

/// The start of the component that ends at `k`: just after the last `/`
/// before `k`, but not before `b`.
pub open spec fn comp_start(s: Seq<char>, k: int, b: int) -> int
    decreases k - b,
{
    if k <= b {
        b
    } else if s[k - 1] == '/' {
        k
    } else {
        comp_start(s, k - 1, b)
    }
}

/// A component starts between `b` and its end, just after a `/` unless at `b`.
pub proof fn lemma_comp_start(s: Seq<char>, k: int, b: int)
    requires
        b <= k,
    ensures
        b <= comp_start(s, k, b) <= k,
        comp_start(s, k, b) > b ==> s[comp_start(s, k, b) - 1] == '/',
    decreases k - b,
{
    if k > b && s[k - 1] != '/' {
        lemma_comp_start(s, k - 1, b);
    }
}

/// Where the last component of the path starts.
pub open spec fn last_comp_start(s: Seq<char>) -> int {
    comp_start(s, s.len() as int, body_start(s))
}

/// The last component is a real one: neither empty nor `.`.
pub open spec fn last_comp_real(s: Seq<char>) -> bool {
    let c = s.subrange(last_comp_start(s), s.len() as int);
    c.len() > 0 && c != seq!['.']
}

/// The path without its last component and the `/` before it.
pub open spec fn drop_last_comp(s: Seq<char>) -> Seq<char> {
    let i = last_comp_start(s);
    if i > body_start(s) {
        s.take(i - 1)
    } else {
        s.take(body_start(s))
    }
}

/// The path without trailing `/` and `.` components.
pub open spec fn trim_back(s: Seq<char>) -> Seq<char>
    decreases s.len(),
{
    if s.len() > body_start(s) && !last_comp_real(s) {
        proof {
            lemma_comp_start(s, s.len() as int, body_start(s));
        }
        trim_back(drop_last_comp(s))
    } else {
        s
    }
}

/// `Path::parent` on Unix, where `/` is the only separator: the path without
/// its last real component (trailing `/` and `.` components do not count),
/// itself without trailing `/` and `.` components; the empty path for a
/// single component and for `.`; none for the empty path and the root.
pub open spec fn parent(s: Seq<char>) -> Option<Seq<char>>
    decreases s.len(),
{
    if s.len() > body_start(s) {
        proof {
            lemma_comp_start(s, s.len() as int, body_start(s));
        }
        if last_comp_real(s) {
            Some(trim_back(drop_last_comp(s)))
        } else {
            parent(drop_last_comp(s))
        }
    } else if starts_cur_dir(s) {
        Some(Seq::empty())
    } else {
        None
    }
}

/// Turns every `\` of `s` into `/`.
pub fn norm_path_str(s: &str) -> (r: String)
    ensures
        r@ == norm_path(s@),
{
    let v = chars_of(s);
    let mut r = String::new();
    let mut i: usize = 0;
    while i < v.len()
        invariant
            i <= v.len(),
            v@ == s@,
            r@ == norm_path(v@.subrange(0, i as int)),
        decreases v.len() - i,
    {
        let c = if v[i] == '\\' {
            '/'
        } else {
            v[i]
        };
        push_char(&mut r, c);
        i = i + 1;
        proof {
            assert(r@ =~= norm_path(v@.subrange(0, i as int)));
        }
    }
    proof {
        assert(v@.subrange(0, v@.len() as int) =~= v@);
    }
    r
}

/// The path as the user sees it: normalised, and `.` when empty.
pub fn display_path_str(s: &str) -> (r: String)
    ensures
        r@ == display_path(s@),
{
    let v = chars_of(s);
    if v.len() == 0 {
        let mut r = String::new();
        push_char(&mut r, '.');
        proof {
            assert(r@ =~= seq!['.']);
        }
        r
    } else {
        norm_path_str(s)
    }
}

/// `base` joined with the relative path `rel`.
pub fn join_path_str(base: &str, rel: &str) -> (r: String)
    ensures
        r@ == join_path(base@, rel@),
{
    let v = chars_of(base);
    if v.len() == 0 {
        return String::from_str(rel);
    }
    let mut r = String::from_str(base);
    if v[v.len() - 1] != '/' {
        push_char(&mut r, '/');
    }
    r.append(rel);
    r
}

fn body_start_exec(v: &Vec<char>, n: usize) -> (r: usize)
    requires
        n <= v@.len(),
    ensures
        r == body_start(v@.take(n as int)),
        r <= 1,
{
    let ghost t = v@.take(n as int);
    if n > 0 && v[0] == '/' {
        assert(t[0] == v@[0]);
        1
    } else if n > 0 && v[0] == '.' && (n == 1 || v[1] == '/') {
        assert(t[0] == v@[0]);
        if n > 1 {
            assert(t[1] == v@[1]);
        }
        1
    } else {
        proof {
            if n > 0 {
                assert(t[0] == v@[0]);
            }
            if n > 1 {
                assert(t[1] == v@[1]);
            }
        }
        0
    }
}

fn last_comp_start_exec(v: &Vec<char>, n: usize, b: usize) -> (r: usize)
    requires
        n <= v@.len(),
        b <= n,
        b == body_start(v@.take(n as int)),
    ensures
        r == last_comp_start(v@.take(n as int)),
{
    let ghost t = v@.take(n as int);
    let mut i = n;
    while i > b && v[i - 1] != '/'
        invariant
            b <= i <= n <= v@.len(),
            t == v@.take(n as int),
            comp_start(t, n as int, b as int) == comp_start(t, i as int, b as int),
        decreases i,
    {
        assert(t[i - 1] == v@[i - 1]);
        i = i - 1;
    }
    if i > b {
        assert(t[i - 1] == v@[i - 1]);
    }
    i
}

/// Where `v` cut at `n` ends once trailing `/` and `.` components are off.
fn trim_back_len(v: &Vec<char>, n: usize) -> (r: usize)
    requires
        n <= v@.len(),
    ensures
        r <= n,
        trim_back(v@.take(n as int)) == v@.take(r as int),
    decreases n,
{
    let ghost t = v@.take(n as int);
    let b = body_start_exec(v, n);
    if n <= b {
        return n;
    }
    let i = last_comp_start_exec(v, n, b);
    proof {
        lemma_comp_start(t, n as int, b as int);
    }
    let counts = n > i && !(n - i == 1 && v[i] == '.');
    proof {
        let c = t.subrange(i as int, n as int);
        if n > i {
            assert(c[0] == v@[i as int]);
        }
        if n - i == 1 && v@[i as int] == '.' {
            assert(c =~= seq!['.']);
        }
    }
    if counts {
        return n;
    }
    let m = if i > b {
        i - 1
    } else {
        b
    };
    assert(drop_last_comp(t) =~= v@.take(m as int));
    trim_back_len(v, m)
}

/// Where the parent of `v` cut at `n` ends, none when it has no parent.
fn parent_len(v: &Vec<char>, n: usize) -> (r: Option<usize>)
    requires
        n <= v@.len(),
    ensures
        r matches Some(k) ==> k <= n && parent(v@.take(n as int)) == Some(v@.take(k as int)),
        r is None ==> parent(v@.take(n as int)) is None,
    decreases n,
{
    let ghost t = v@.take(n as int);
    let b = body_start_exec(v, n);
    if n <= b {
        if n == 1 && v[0] == '.' {
            assert(t[0] == v@[0]);
            assert(v@.take(0) =~= Seq::<char>::empty());
            return Some(0);
        }
        proof {
            if n > 0 {
                assert(t[0] == v@[0]);
            }
        }
        return None;
    }
    let i = last_comp_start_exec(v, n, b);
    proof {
        lemma_comp_start(t, n as int, b as int);
    }
    let counts = n > i && !(n - i == 1 && v[i] == '.');
    proof {
        let c = t.subrange(i as int, n as int);
        if n > i {
            assert(c[0] == v@[i as int]);
        }
        if n - i == 1 && v@[i as int] == '.' {
            assert(c =~= seq!['.']);
        }
    }
    let m = if i > b {
        i - 1
    } else {
        b
    };
    assert(drop_last_comp(t) =~= v@.take(m as int));
    if counts {
        Some(trim_back_len(v, m))
    } else {
        parent_len(v, m)
    }
}

/// The parent of a path, as `Path::parent` gives it on Unix.
pub fn parent_str(s: &str) -> (r: Option<String>)
    ensures
        r matches Some(x) ==> parent(s@) == Some(x@),
        r is None ==> parent(s@) is None,
{
    let v = chars_of(s);
    assert(v@.take(v@.len() as int) =~= s@);
    match parent_len(&v, v.len()) {
        Some(k) => {
            let r = string_of(&v, 0, k);
            assert(r@ =~= v@.take(k as int));
            Some(r)
        },
        None => None,
    }
}

} // verus!
