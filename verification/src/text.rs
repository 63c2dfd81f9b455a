//! Character-level text model used by the rest of the library.
//!
//! Strings are modelled by their views, sequences of `char`.  The spec
//! functions below state what the std string operations that the library
//! relies on compute (trimming, line splitting, searching, replacing), and the
//! executable functions implement them with proofs.
use vstd::prelude::*;

verus! {

broadcast use vstd::string::group_string_axioms;

// ---------------------------------------------------------------------------
// Specifications
// ---------------------------------------------------------------------------

/// The Unicode `White_Space` property, as used by `char::is_whitespace`.
pub open spec fn is_ws(c: char) -> bool {
    let n = c as u32;
    ||| 9 <= n <= 13
    ||| n == 32
    ||| n == 0x85
    ||| n == 0xA0
    ||| n == 0x1680
    ||| 0x2000 <= n <= 0x200A
    ||| n == 0x2028
    ||| n == 0x2029
    ||| n == 0x202F
    ||| n == 0x205F
    ||| n == 0x3000
}

/// `s` without its leading whitespace.
pub open spec fn trim_start(s: Seq<char>) -> Seq<char>
    decreases s.len(),
{
    if s.len() > 0 && is_ws(s[0]) {
        trim_start(s.drop_first())
    } else {
        s
    }
}

/// `s` without its trailing whitespace.
pub open spec fn trim_end(s: Seq<char>) -> Seq<char>
    decreases s.len(),
{
    if s.len() > 0 && is_ws(s.last()) {
        trim_end(s.drop_last())
    } else {
        s
    }
}

/// `str::trim`: `s` without leading and trailing whitespace.
pub open spec fn trim(s: Seq<char>) -> Seq<char> {
    trim_end(trim_start(s))
}

/// `trim_start` drops the leading whitespace: what is left starts at `a`,
/// before which every character is whitespace, and at which none is.
pub proof fn lemma_trim_start(s: Seq<char>) -> (a: int)
    ensures
        0 <= a <= s.len(),
        trim_start(s) == s.subrange(a, s.len() as int),
        forall|k: int| 0 <= k < a ==> is_ws(#[trigger] s[k]),
        a < s.len() ==> !is_ws(s[a]),
    decreases s.len(),
{
    if s.len() > 0 && is_ws(s[0]) {
        let a0 = lemma_trim_start(s.drop_first());
        assert(s.drop_first().subrange(a0, s.drop_first().len() as int) =~= s.subrange(
            a0 + 1,
            s.len() as int,
        ));
        assert forall|k: int| 0 <= k < a0 + 1 implies is_ws(#[trigger] s[k]) by {
            if k > 0 {
                assert(s[k] == s.drop_first()[k - 1]);
            }
        }
        if a0 + 1 < s.len() {
            assert(s[a0 + 1] == s.drop_first()[a0]);
        }
        a0 + 1
    } else {
        assert(s.subrange(0, s.len() as int) =~= s);
        0
    }
}

/// `trim_end` drops the trailing whitespace: what is left ends at `b`, from
/// which every character is whitespace, and just before which none is.
pub proof fn lemma_trim_end(s: Seq<char>) -> (b: int)
    ensures
        0 <= b <= s.len(),
        trim_end(s) == s.subrange(0, b),
        forall|k: int| b <= k < s.len() ==> is_ws(#[trigger] s[k]),
        b > 0 ==> !is_ws(s[b - 1]),
    decreases s.len(),
{
    if s.len() > 0 && is_ws(s.last()) {
        let b0 = lemma_trim_end(s.drop_last());
        assert(s.drop_last().subrange(0, b0) =~= s.subrange(0, b0));
        assert forall|k: int| b0 <= k < s.len() implies is_ws(#[trigger] s[k]) by {
            if k < s.len() - 1 {
                assert(s[k] == s.drop_last()[k]);
            }
        }
        if b0 > 0 {
            assert(s[b0 - 1] == s.drop_last()[b0 - 1]);
        }
        b0
    } else {
        assert(s.subrange(0, s.len() as int) =~= s);
        s.len() as int
    }
}

/// `trim` keeps the part of `s` from `a` to `b`: all that lies outside it is
/// whitespace, and it neither starts nor ends with whitespace.
pub proof fn lemma_trim(s: Seq<char>) -> (ab: (int, int))
    ensures
        0 <= ab.0 <= ab.1 <= s.len(),
        trim(s) == s.subrange(ab.0, ab.1),
        forall|k: int| 0 <= k < ab.0 ==> is_ws(#[trigger] s[k]),
        forall|k: int| ab.1 <= k < s.len() ==> is_ws(#[trigger] s[k]),
        ab.0 < ab.1 ==> !is_ws(s[ab.0]) && !is_ws(s[ab.1 - 1]),
{
    let a = lemma_trim_start(s);
    let u = s.subrange(a, s.len() as int);
    let b = lemma_trim_end(u);
    assert(u.subrange(0, b) =~= s.subrange(a, a + b));
    assert forall|k: int| a + b <= k < s.len() implies is_ws(#[trigger] s[k]) by {
        assert(s[k] == u[k - a]);
    }
    if b > 0 {
        assert(s[a] == u[0]);
        assert(s[a + b - 1] == u[b - 1]);
    }
    (a, a + b)
}

/// A trimmed text neither starts nor ends with whitespace.
pub proof fn lemma_trim_edges(s: Seq<char>)
    ensures
        trim(s).len() > 0 ==> !is_ws(trim(s)[0]) && !is_ws(trim(s).last()),
{
    let ab = lemma_trim(s);
    if ab.0 < ab.1 {
        assert(trim(s)[0] == s[ab.0]);
        assert(trim(s).last() == s[ab.1 - 1]);
    }
}

/// `p` occurs in `s` at position `i`.
pub open spec fn matches_at(s: Seq<char>, p: Seq<char>, i: int) -> bool {
    0 <= i && i + p.len() <= s.len() && s.subrange(i, i + p.len()) == p
}

/// The first position at or after `k` where `p` occurs in `s`.
pub open spec fn find_from(s: Seq<char>, p: Seq<char>, k: int) -> Option<int>
    decreases s.len() + 1 - k,
{
    if k < 0 || k + p.len() > s.len() {
        None
    } else if matches_at(s, p, k) {
        Some(k)
    } else {
        find_from(s, p, k + 1)
    }
}

/// `str::find`: the first position where `p` occurs in `s`.
pub open spec fn find(s: Seq<char>, p: Seq<char>) -> Option<int> {
    find_from(s, p, 0)
}

/// `str::contains` with a string pattern.
pub open spec fn contains(s: Seq<char>, p: Seq<char>) -> bool {
    find(s, p) is Some
}

/// The first position at or after `k` that holds the character `c`.
pub open spec fn char_from(s: Seq<char>, c: char, k: int) -> Option<int>
    decreases s.len() - k,
{
    if k < 0 || k >= s.len() {
        None
    } else if s[k] == c {
        Some(k)
    } else {
        char_from(s, c, k + 1)
    }
}

/// The last position before `k` that holds the character `c`.
pub open spec fn char_before(s: Seq<char>, c: char, k: int) -> Option<int>
    decreases k,
{
    if k <= 0 || k > s.len() {
        None
    } else if s[k - 1] == c {
        Some(k - 1)
    } else {
        char_before(s, c, k - 1)
    }
}

/// `str::split_once` with a character: the text before and after the first `c`.
pub open spec fn split_once(s: Seq<char>, c: char) -> Option<(Seq<char>, Seq<char>)> {
    match char_from(s, c, 0) {
        Some(i) => Some((s.subrange(0, i), s.subrange(i + 1, s.len() as int))),
        None => None,
    }
}

/// `str::rsplit_once` with a character: the text before and after the last `c`.
pub open spec fn rsplit_once(s: Seq<char>, c: char) -> Option<(Seq<char>, Seq<char>)> {
    match char_before(s, c, s.len() as int) {
        Some(i) => Some((s.subrange(0, i), s.subrange(i + 1, s.len() as int))),
        None => None,
    }
}

/// A line as `str::lines` yields it when a `'\n'` ended it: one `'\r'` before
/// the `'\n'` is dropped too.
pub open spec fn strip_cr(l: Seq<char>) -> Seq<char> {
    if l.len() > 0 && l.last() == '\r' {
        l.drop_last()
    } else {
        l
    }
}

/// The lines of `s` from position `k` on.
pub open spec fn lines_from(s: Seq<char>, k: int) -> Seq<Seq<char>>
    decreases s.len() - k,
{
    if k < 0 || k >= s.len() {
        Seq::empty()
    } else {
        proof {
            lemma_char_from(s, '\n', k);
        }
        match char_from(s, '\n', k) {
            None => seq![s.subrange(k, s.len() as int)],
            Some(i) => seq![strip_cr(s.subrange(k, i))] + lines_from(s, i + 1),
        }
    }
}

/// `str::lines`.
pub open spec fn lines(s: Seq<char>) -> Seq<Seq<char>> {
    lines_from(s, 0)
}

/// The pieces of `s` between occurrences of `c`, from position `k` on.
pub open spec fn split_from(s: Seq<char>, c: char, k: int) -> Seq<Seq<char>>
    decreases s.len() + 1 - k,
{
    if k < 0 || k > s.len() {
        Seq::empty()
    } else {
        proof {
            lemma_char_from(s, c, k);
        }
        match char_from(s, c, k) {
            None => seq![s.subrange(k, s.len() as int)],
            Some(i) => seq![s.subrange(k, i)] + split_from(s, c, i + 1),
        }
    }
}

/// `str::split` with a character pattern.
pub open spec fn split(s: Seq<char>, c: char) -> Seq<Seq<char>> {
    split_from(s, c, 0)
}

/// `str::replace` from position `k` on, for a non-empty pattern `p`.
pub open spec fn replace_from(s: Seq<char>, p: Seq<char>, r: Seq<char>, k: int) -> Seq<char>
    decreases s.len() + 1 - k,
{
    if p.len() == 0 || k < 0 || k > s.len() {
        Seq::empty()
    } else {
        proof {
            lemma_find_from(s, p, k);
        }
        match find_from(s, p, k) {
            None => s.subrange(k, s.len() as int),
            Some(i) => s.subrange(k, i) + r + replace_from(s, p, r, i + p.len()),
        }
    }
}

/// `str::replace` of every non-overlapping occurrence of the non-empty `p`
/// by `r`, scanning from the left.
pub open spec fn replace(s: Seq<char>, p: Seq<char>, r: Seq<char>) -> Seq<char> {
    replace_from(s, p, r, 0)
}

/// `p` is a prefix of `s`.
pub open spec fn starts_with(s: Seq<char>, p: Seq<char>) -> bool {
    p.len() <= s.len() && s.subrange(0, p.len() as int) == p
}

/// `p` is a suffix of `s`.
pub open spec fn ends_with(s: Seq<char>, p: Seq<char>) -> bool {
    p.len() <= s.len() && s.subrange(s.len() - p.len(), s.len() as int) == p
}

/// The ASCII digit for `d < 10`.
pub open spec fn digit(d: nat) -> char {
    (48 + d) as char
}

/// The decimal representation of `n`, as `to_string` writes an unsigned integer.
pub open spec fn decimal(n: nat) -> Seq<char>
    decreases n,
{
    if n < 10 {
        seq![digit(n)]
    } else {
        decimal(n / 10).push(digit(n % 10))
    }
}

/// Joins `parts` with `sep` between consecutive parts.
pub open spec fn join(parts: Seq<Seq<char>>, sep: Seq<char>) -> Seq<char>
    decreases parts.len(),
{
    if parts.len() == 0 {
        Seq::empty()
    } else if parts.len() == 1 {
        parts[0]
    } else {
        join(parts.drop_last(), sep) + sep + parts.last()
    }
}

// ---------------------------------------------------------------------------
// Lemmas
// ---------------------------------------------------------------------------

/// What `find_from` returns is a match, and no match comes before it.
pub proof fn lemma_find_from(s: Seq<char>, p: Seq<char>, k: int)
    requires
        0 <= k,
    ensures
        find_from(s, p, k) matches Some(i) ==> k <= i && matches_at(s, p, i) && forall|j: int|
            k <= j < i ==> !matches_at(s, p, j),
        find_from(s, p, k) is None ==> forall|j: int| k <= j ==> !matches_at(s, p, j),
    decreases s.len() + 1 - k,
{
    if k + p.len() > s.len() {
    } else if matches_at(s, p, k) {
    } else {
        lemma_find_from(s, p, k + 1);
        assert forall|j: int| k <= j && (find_from(s, p, k) is None || j < find_from(s, p, k)->0)
            implies !matches_at(s, p, j) by {
            if j == k {
            }
        }
    }
}

/// Where `p` occurs nowhere in `[k, m)`, the search from `k` finds what the
/// search from `m` finds.
pub proof fn lemma_find_skip(s: Seq<char>, p: Seq<char>, k: int, m: int)
    requires
        0 <= k <= m,
        forall|j: int| k <= j < m ==> !matches_at(s, p, j),
    ensures
        find_from(s, p, k) == find_from(s, p, m),
    decreases m - k,
{
    if k < m && k + p.len() <= s.len() {
        lemma_find_skip(s, p, k + 1, m);
    }
}

/// Where `p` occurs nowhere in `[k, m)`, replacing from `k` keeps that part
/// and replaces from `m` on.
pub proof fn lemma_replace_skip(s: Seq<char>, p: Seq<char>, r: Seq<char>, k: int, m: int)
    requires
        p.len() > 0,
        0 <= k <= m <= s.len(),
        forall|j: int| k <= j < m ==> !matches_at(s, p, j),
    ensures
        replace_from(s, p, r, k) == s.subrange(k, m) + replace_from(s, p, r, m),
{
    lemma_find_skip(s, p, k, m);
    lemma_find_from(s, p, m);
    match find_from(s, p, m) {
        None => {
            assert(s.subrange(k, s.len() as int) =~= s.subrange(k, m) + s.subrange(m, s.len() as int));
        },
        Some(i) => {
            assert(s.subrange(k, i) =~= s.subrange(k, m) + s.subrange(m, i));
        },
    }
}

/// Searching `a + b` past `a` is searching `b`.
pub proof fn lemma_find_shift(a: Seq<char>, b: Seq<char>, p: Seq<char>, k: int)
    requires
        0 <= k,
    ensures
        find_from(a + b, p, a.len() + k) == match find_from(b, p, k) {
            Some(i) => Some(i + a.len()),
            None => None::<int>,
        },
    decreases b.len() + 1 - k,
{
    let t = a + b;
    if k + p.len() <= b.len() {
        assert(t.subrange(a.len() + k, a.len() + k + p.len()) =~= b.subrange(k, k + p.len()));
        lemma_find_shift(a, b, p, k + 1);
    }
}

/// Replacing in `a + b` past `a` is replacing in `b`.
pub proof fn lemma_replace_shift(a: Seq<char>, b: Seq<char>, p: Seq<char>, r: Seq<char>, k: int)
    requires
        p.len() > 0,
        0 <= k <= b.len(),
    ensures
        replace_from(a + b, p, r, a.len() + k) == replace_from(b, p, r, k),
    decreases b.len() + 1 - k,
{
    let t = a + b;
    lemma_find_shift(a, b, p, k);
    lemma_find_from(b, p, k);
    match find_from(b, p, k) {
        None => {
            assert(t.subrange(a.len() + k, t.len() as int) =~= b.subrange(k, b.len() as int));
        },
        Some(i) => {
            assert(t.subrange(a.len() + k, a.len() + i) =~= b.subrange(k, i));
            lemma_replace_shift(a, b, p, r, i + p.len());
        },
    }
}

/// `contains` holds exactly when the pattern occurs somewhere.
pub proof fn lemma_contains(s: Seq<char>, p: Seq<char>)
    ensures
        contains(s, p) <==> exists|i: int| matches_at(s, p, i),
{
    lemma_find_from(s, p, 0);
    if contains(s, p) {
        let i = find(s, p)->0;
        assert(matches_at(s, p, i));
    }
}

/// What `char_from` returns holds `c`, and no earlier position from `k` does.
pub proof fn lemma_char_from(s: Seq<char>, c: char, k: int)
    requires
        0 <= k,
    ensures
        char_from(s, c, k) matches Some(i) ==> k <= i < s.len() && s[i] == c && forall|j: int|
            k <= j < i ==> s[j] != c,
        char_from(s, c, k) is None ==> forall|j: int| k <= j < s.len() ==> s[j] != c,
    decreases s.len() - k,
{
    if k >= s.len() {
    } else if s[k] == c {
    } else {
        lemma_char_from(s, c, k + 1);
    }
}

/// What `char_before` returns holds `c`, and no later position before `k` does.
pub proof fn lemma_char_before(s: Seq<char>, c: char, k: int)
    requires
        k <= s.len(),
    ensures
        char_before(s, c, k) matches Some(i) ==> 0 <= i < k && s[i] == c && forall|j: int|
            i < j < k ==> s[j] != c,
        char_before(s, c, k) is None ==> forall|j: int| 0 <= j < k ==> s[j] != c,
    decreases k,
{
    if k <= 0 {
    } else if s[k - 1] == c {
    } else {
        lemma_char_before(s, c, k - 1);
    }
}

// ---------------------------------------------------------------------------
// Executable functions
// ---------------------------------------------------------------------------

/// Appends one character to a string (`String::push`).
#[verifier::external_body]
pub(crate) fn push_char(s: &mut String, c: char)
    ensures
        final(s)@ == old(s)@.push(c),
{
    s.push(c);
}

/// The characters of `s`, in order.
pub fn chars_of(s: &str) -> (v: Vec<char>)
    ensures
        v@ == s@,
{
    let mut v: Vec<char> = Vec::new();
    for c in it: s.chars()
        invariant
            v@ == it.seq().take(it.index()),
            it.seq() == s@,
    {
        v.push(c);
        proof {
            assert(v@ =~= it.seq().take(it.index() + 1));
        }
    }
    v
}

/// The string made of `v[lo..hi]`.
pub fn string_of(v: &Vec<char>, lo: usize, hi: usize) -> (s: String)
    requires
        lo <= hi <= v.len(),
    ensures
        s@ == v@.subrange(lo as int, hi as int),
{
    let mut s = String::new();
    let mut i = lo;
    while i < hi
        invariant
            lo <= i <= hi <= v.len(),
            s@ == v@.subrange(lo as int, i as int),
        decreases hi - i,
    {
        push_char(&mut s, v[i]);
        i = i + 1;
        proof {
            assert(s@ =~= v@.subrange(lo as int, i as int));
        }
    }
    s
}

/// `char::is_whitespace`.
pub fn is_whitespace(c: char) -> (b: bool)
    ensures
        b == is_ws(c),
{
    let n = c as u32;
    (9 <= n && n <= 13) || n == 32 || n == 0x85 || n == 0xA0 || n == 0x1680 || (0x2000 <= n && n
        <= 0x200A) || n == 0x2028 || n == 0x2029 || n == 0x202F || n == 0x205F || n == 0x3000
}

/// The bounds of `trim(v)` inside `v`.
pub fn trim_bounds(v: &Vec<char>) -> (r: (usize, usize))
    ensures
        r.0 <= r.1 <= v.len(),
        trim(v@) == v@.subrange(r.0 as int, r.1 as int),
{
    let n = v.len();
    let mut i: usize = 0;
    assert(v@.subrange(0, n as int) =~= v@);
    while i < n && is_whitespace(v[i])
        invariant
            i <= n == v.len(),
            trim_start(v@) == trim_start(v@.subrange(i as int, n as int)),
        decreases n - i,
    {
        proof {
            assert(v@.subrange(i as int, n as int).drop_first() =~= v@.subrange(
                i + 1,
                n as int,
            ));
        }
        i = i + 1;
    }
    let ghost mid = v@.subrange(i as int, n as int);
    assert(trim_start(mid) == mid);
    let mut j: usize = n;
    while j > i && is_whitespace(v[j - 1])
        invariant
            i <= j <= n == v.len(),
            mid == v@.subrange(i as int, n as int),
            trim_end(mid) == trim_end(v@.subrange(i as int, j as int)),
        decreases j,
    {
        proof {
            assert(v@.subrange(i as int, j as int).drop_last() =~= v@.subrange(
                i as int,
                j - 1,
            ));
        }
        j = j - 1;
    }
    (i, j)
}

/// `str::trim`.
pub fn trim_str(s: &str) -> (r: String)
    ensures
        r@ == trim(s@),
{
    let v = chars_of(s);
    let (lo, hi) = trim_bounds(&v);
    string_of(&v, lo, hi)
}

/// Whether `p` occurs in `s` at position `i`.
pub fn matches_at_exec(s: &Vec<char>, p: &Vec<char>, i: usize) -> (b: bool)
    ensures
        b == matches_at(s@, p@, i as int),
{
    if i > s.len() || p.len() > s.len() - i {
        return false;
    }
    let mut j: usize = 0;
    while j < p.len()
        invariant
            i + p.len() <= s.len(),
            j <= p.len(),
            forall|t: int| 0 <= t < j ==> s@[i + t] == p@[t],
        decreases p.len() - j,
    {
        if s[i + j] != p[j] {
            assert(s@.subrange(i as int, i + p.len())[j as int] != p@[j as int]);
            return false;
        }
        j = j + 1;
    }
    assert(s@.subrange(i as int, i + p.len()) =~= p@);
    true
}

/// The first position at or after `k` where `p` occurs in `s`.
pub fn find_from_exec(s: &Vec<char>, p: &Vec<char>, k: usize) -> (r: Option<usize>)
    ensures
        r matches Some(i) ==> find_from(s@, p@, k as int) == Some(i as int),
        r is None ==> find_from(s@, p@, k as int) is None,
{
    if p.len() > s.len() {
        return None;
    }
    let last = s.len() - p.len();
    if k > last {
        return None;
    }
    let mut i = k;
    loop
        invariant
            last == s.len() - p.len(),
            k <= i <= last,
            find_from(s@, p@, k as int) == find_from(s@, p@, i as int),
        decreases last - i,
    {
        if matches_at_exec(s, p, i) {
            return Some(i);
        }
        if i == last {
            assert(find_from(s@, p@, i + 1) is None);
            return None;
        }
        i = i + 1;
    }
}

/// `str::contains` with a string pattern.
pub fn contains_str(s: &str, p: &str) -> (b: bool)
    ensures
        b == contains(s@, p@),
{
    let sv = chars_of(s);
    let pv = chars_of(p);
    find_from_exec(&sv, &pv, 0).is_some()
}

/// The first position at or after `k` that holds `c`.
pub fn char_from_exec(s: &Vec<char>, c: char, k: usize) -> (r: Option<usize>)
    ensures
        r matches Some(i) ==> char_from(s@, c, k as int) == Some(i as int),
        r is None ==> char_from(s@, c, k as int) is None,
{
    let mut i = k;
    while i < s.len()
        invariant
            k <= i,
            char_from(s@, c, k as int) == char_from(s@, c, i as int),
        decreases s.len() - i,
    {
        if s[i] == c {
            return Some(i);
        }
        i = i + 1;
    }
    None
}

/// The last position before `k` that holds `c`.
pub fn char_before_exec(s: &Vec<char>, c: char, k: usize) -> (r: Option<usize>)
    requires
        k <= s.len(),
    ensures
        r matches Some(i) ==> char_before(s@, c, k as int) == Some(i as int),
        r is None ==> char_before(s@, c, k as int) is None,
{
    let mut i = k;
    while i > 0
        invariant
            i <= k <= s.len(),
            char_before(s@, c, k as int) == char_before(s@, c, i as int),
        decreases i,
    {
        if s[i - 1] == c {
            return Some(i - 1);
        }
        i = i - 1;
    }
    None
}

/// `str::lines`.
pub fn lines_str(s: &str) -> (r: Vec<String>)
    ensures
        r.deep_view() == lines(s@),
{
    let v = chars_of(s);
    let n = v.len();
    let mut out: Vec<String> = Vec::new();
    let mut k: usize = 0;
    while k < n
        invariant
            k <= n == v.len(),
            v@ == s@,
            lines(v@) == out.deep_view() + lines_from(v@, k as int),
        decreases n - k,
    {
        let ghost before = out.deep_view();
        let ghost rest = lines_from(v@, k as int);
        match char_from_exec(&v, '\n', k) {
            None => {
                let line = string_of(&v, k, n);
                out.push(line);
                proof {
                    assert(out.deep_view() =~= before.push(v@.subrange(k as int, n as int)));
                    assert(lines_from(v@, n as int) == Seq::<Seq<char>>::empty());
                    assert(out.deep_view() + lines_from(v@, n as int) =~= before + rest);
                }
                k = n;
            },
            Some(i) => {
                proof {
                    lemma_char_from(v@, '\n', k as int);
                }
                let end = if i > k && v[i - 1] == '\r' {
                    i - 1
                } else {
                    i
                };
                let line = string_of(&v, k, end);
                proof {
                    let l = v@.subrange(k as int, i as int);
                    if i > k && v@[i - 1] == '\r' {
                        assert(l.drop_last() =~= v@.subrange(k as int, end as int));
                    }
                    assert(line@ == strip_cr(l));
                }
                out.push(line);
                proof {
                    assert(out.deep_view() =~= before.push(line@));
                    assert(out.deep_view() + lines_from(v@, i + 1) =~= before + rest);
                }
                k = i + 1;
            },
        }
    }
    proof {
        assert(out.deep_view() + lines_from(v@, k as int) =~= out.deep_view());
    }
    out
}

/// `str::split` with a character pattern.
pub fn split_str(s: &str, c: char) -> (r: Vec<String>)
    ensures
        r.deep_view() == split(s@, c),
{
    let v = chars_of(s);
    let n = v.len();
    let mut out: Vec<String> = Vec::new();
    let mut k: usize = 0;
    loop
        invariant
            k <= n == v.len(),
            v@ == s@,
            split(v@, c) == out.deep_view() + split_from(v@, c, k as int),
        decreases n - k,
    {
        let ghost before = out.deep_view();
        let ghost rest = split_from(v@, c, k as int);
        match char_from_exec(&v, c, k) {
            None => {
                let piece = string_of(&v, k, n);
                out.push(piece);
                proof {
                    assert(out.deep_view() =~= before.push(v@.subrange(k as int, n as int)));
                    assert(out.deep_view() =~= before + rest);
                }
                return out;
            },
            Some(i) => {
                proof {
                    lemma_char_from(v@, c, k as int);
                }
                let piece = string_of(&v, k, i);
                out.push(piece);
                proof {
                    assert(out.deep_view() =~= before.push(piece@));
                    assert(out.deep_view() + split_from(v@, c, i + 1) =~= before + rest);
                }
                k = i + 1;
            },
        }
    }
}

/// `str::replace` with a non-empty pattern.
pub fn replace_str(s: &str, p: &str, r: &str) -> (out: String)
    requires
        p@.len() > 0,
    ensures
        out@ == replace(s@, p@, r@),
{
    let v = chars_of(s);
    let pv = chars_of(p);
    let n = v.len();
    let mut out = String::new();
    let mut k: usize = 0;
    loop
        invariant
            k <= n == v.len(),
            v@ == s@,
            pv@.len() > 0,
            pv@ == p@,
            replace(v@, pv@, r@) == out@ + replace_from(v@, pv@, r@, k as int),
        decreases n - k,
    {
        let ghost before = out@;
        let ghost rest = replace_from(v@, pv@, r@, k as int);
        proof {
            lemma_find_from(v@, pv@, k as int);
        }
        match find_from_exec(&v, &pv, k) {
            None => {
                let tail = string_of(&v, k, n);
                out.append(tail.as_str());
                proof {
                    assert(out@ =~= before + rest);
                }
                return out;
            },
            Some(i) => {
                let head = string_of(&v, k, i);
                out.append(head.as_str());
                out.append(r);
                let next = i + pv.len();
                proof {
                    assert(out@ + replace_from(v@, pv@, r@, next as int) =~= before + rest);
                }
                k = next;
            },
        }
    }
}

/// `str::split_once` with a character pattern.
pub fn split_once_str(s: &str, c: char) -> (r: Option<(String, String)>)
    ensures
        r matches Some(x) ==> split_once(s@, c) == Some((x.0@, x.1@)),
        r is None ==> split_once(s@, c) is None,
{
    let v = chars_of(s);
    match char_from_exec(&v, c, 0) {
        Some(i) => {
            proof {
                lemma_char_from(v@, c, 0);
            }
            Some((string_of(&v, 0, i), string_of(&v, i + 1, v.len())))
        },
        None => None,
    }
}

/// `str::rsplit_once` with a character pattern.
pub fn rsplit_once_str(s: &str, c: char) -> (r: Option<(String, String)>)
    ensures
        r matches Some(x) ==> rsplit_once(s@, c) == Some((x.0@, x.1@)),
        r is None ==> rsplit_once(s@, c) is None,
{
    let v = chars_of(s);
    match char_before_exec(&v, c, v.len()) {
        Some(i) => {
            proof {
                lemma_char_before(v@, c, v@.len() as int);
            }
            Some((string_of(&v, 0, i), string_of(&v, i + 1, v.len())))
        },
        None => None,
    }
}

/// The decimal representation of `n`, as `to_string` writes it.
pub fn decimal_string(n: u64) -> (s: String)
    ensures
        s@ == decimal(n as nat),
{
    let mut digits: Vec<char> = Vec::new();
    let mut m = n;
    // digits holds the last digits of n, least significant first
    loop
        invariant_except_break
            decimal(n as nat) == decimal(m as nat) + digits@.reverse(),
        ensures
            decimal(n as nat) == digits@.reverse(),
        decreases m,
    {
        let d = (m % 10) as u8;
        let ch = (48u8 + d) as char;
        let ghost old_digits = digits@;
        proof {
            if m >= 10 {
                assert(decimal(m as nat) == decimal((m / 10) as nat).push(digit((m % 10) as nat)));
            }
            assert(ch == digit((m % 10) as nat));
        }
        digits.push(ch);
        if m < 10 {
            proof {
                assert(decimal(m as nat) == seq![ch]);
                assert(digits@.reverse() =~= seq![ch] + old_digits.reverse());
                assert(decimal(n as nat) =~= digits@.reverse());
            }
            break;
        }
        proof {
            assert(digits@.reverse() =~= seq![ch] + old_digits.reverse());
            assert(decimal((m / 10) as nat) + digits@.reverse() =~= decimal((m / 10) as nat).push(ch)
                + old_digits.reverse());
        }
        m = m / 10;
    }
    let mut s = String::new();
    let mut i = digits.len();
    while i > 0
        invariant
            i <= digits.len(),
            s@ == digits@.subrange(i as int, digits@.len() as int).reverse(),
        decreases i,
    {
        i = i - 1;
        push_char(&mut s, digits[i]);
        proof {
            assert(s@ =~= digits@.subrange(i as int, digits@.len() as int).reverse());
        }
    }
    proof {
        assert(digits@.subrange(0, digits@.len() as int) =~= digits@);
    }
    s
}

/// A copy of a list of strings.
pub fn clone_strings(v: &Vec<String>) -> (r: Vec<String>)
    ensures
        r@ == v@,
        r.deep_view() == v.deep_view(),
{
    let mut r: Vec<String> = Vec::new();
    let mut i: usize = 0;
    while i < v.len()
        invariant
            i <= v.len(),
            r@ == v@.subrange(0, i as int),
        decreases v.len() - i,
    {
        r.push(v[i].clone());
        i = i + 1;
        proof {
            assert(r@ =~= v@.subrange(0, i as int));
        }
    }
    proof {
        assert(r@ =~= v@);
        assert(r.deep_view() =~= v.deep_view());
    }
    r
}

/// A copy of an optional string.
pub fn clone_opt_string(o: &Option<String>) -> (r: Option<String>)
    ensures
        r == *o,
{
    match o {
        Some(s) => Some(s.clone()),
        None => None,
    }
}

/// Whether some entry of `v` has the text of `x`.
pub fn strings_contain(v: &Vec<String>, x: &str) -> (b: bool)
    ensures
        b == v.deep_view().contains(x@),
{
    let xs = String::from_str(x);
    let mut i: usize = 0;
    while i < v.len()
        invariant
            i <= v.len(),
            xs@ == x@,
            forall|j: int| 0 <= j < i ==> v.deep_view()[j] != x@,
        decreases v.len() - i,
    {
        if v[i] == xs {
            assert(v.deep_view()[i as int] == x@);
            return true;
        }
        i = i + 1;
    }
    false
}

/// Joins `parts` with `sep` between consecutive parts.
pub fn join_strings(parts: &Vec<String>, sep: &str) -> (r: String)
    ensures
        r@ == join(parts.deep_view(), sep@),
{
    let mut r = String::new();
    let mut i: usize = 0;
    while i < parts.len()
        invariant
            i <= parts.len(),
            r@ == join(parts.deep_view().take(i as int), sep@),
        decreases parts.len() - i,
    {
        let ghost prefix = parts.deep_view().take(i as int);
        if i > 0 {
            r.append(sep);
        }
        r.append(parts[i].as_str());
        i = i + 1;
        proof {
            let next = parts.deep_view().take(i as int);
            assert(next.drop_last() =~= prefix);
            if i == 1 {
                assert(next =~= seq![parts.deep_view()[0]]);
            }
        }
    }
    proof {
        assert(parts.deep_view().take(i as int) =~= parts.deep_view());
    }
    r
}

/// The lowercase form of a text, as `str::to_lowercase` gives it.
pub uninterp spec fn lowercase(s: Seq<char>) -> Seq<char>;

/// `str::to_lowercase`: the result is named `lowercase` of the argument; the
/// Unicode case tables that define it are not restated here.
#[verifier::external_body]
pub(crate) fn to_lowercase_str(s: &str) -> (r: String)
    ensures
        r@ == lowercase(s@),
{
    s.to_lowercase()
}

/// `a` comes before `b` in the order of texts: compared character by
/// character by code point, a proper prefix first.
pub open spec fn text_less(a: Seq<char>, b: Seq<char>) -> bool
    decreases a.len(),
{
    if a.len() == 0 {
        b.len() > 0
    } else if b.len() == 0 {
        false
    } else if a[0] != b[0] {
        a[0] < b[0]
    } else {
        text_less(a.drop_first(), b.drop_first())
    }
}

/// The order of texts is transitive.
pub proof fn lemma_text_less_transitive(a: Seq<char>, b: Seq<char>, c: Seq<char>)
    requires
        text_less(a, b),
        text_less(b, c),
    ensures
        text_less(a, c),
    decreases a.len(),
{
    if a.len() > 0 && b.len() > 0 && c.len() > 0 && a[0] == b[0] && b[0] == c[0] {
        lemma_text_less_transitive(a.drop_first(), b.drop_first(), c.drop_first());
    }
}

/// No text comes before itself.
pub proof fn lemma_text_less_irreflexive(a: Seq<char>)
    ensures
        !text_less(a, a),
    decreases a.len(),
{
    if a.len() > 0 {
        lemma_text_less_irreflexive(a.drop_first());
    }
}

/// Whether `a` comes before `b` in the order of texts.
pub fn text_less_exec(a: &str, b: &str) -> (r: bool)
    ensures
        r == text_less(a@, b@),
{
    let x = chars_of(a);
    let y = chars_of(b);
    let mut i: usize = 0;
    assert(a@.skip(0) =~= a@);
    assert(b@.skip(0) =~= b@);
    while i < x.len() && i < y.len() && x[i] == y[i]
        invariant
            i <= x.len(),
            i <= y.len(),
            x@ == a@,
            y@ == b@,
            text_less(a@, b@) == text_less(a@.skip(i as int), b@.skip(i as int)),
        decreases x.len() - i,
    {
        assert(a@.skip(i as int).drop_first() =~= a@.skip(i + 1));
        assert(b@.skip(i as int).drop_first() =~= b@.skip(i + 1));
        i = i + 1;
    }
    if i == x.len() {
        i < y.len()
    } else if i == y.len() {
        false
    } else {
        x[i] < y[i]
    }
}

/// Whether two texts are equal.
pub fn str_eq(a: &str, b: &str) -> (r: bool)
    ensures
        r == (a@ == b@),
{
    String::from_str(a) == String::from_str(b)
}

} // verus!
