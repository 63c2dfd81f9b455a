//! Sets of labels, kept as strictly ordered lists: the labels the entries of
//! a repositories file carry, and those a project selects.
use crate::config::RepoConfig;
use crate::text::clone_strings;
use crate::text::{lemma_text_less_irreflexive, lemma_text_less_transitive, str_eq, text_less, text_less_exec};
use vstd::prelude::*;

verus! {

broadcast use vstd::string::group_string_axioms;

/// The labels are in strictly increasing order, so none occurs twice.
pub open spec fn is_label_set(s: Seq<Seq<char>>) -> bool {
    forall|i: int, j: int| 0 <= i < j < s.len() ==> text_less(#[trigger] s[i], #[trigger] s[j])
}

/// Of two different texts, one comes first.
pub proof fn lemma_text_less_total(a: Seq<char>, b: Seq<char>)
    requires
        a != b,
    ensures
        text_less(a, b) || text_less(b, a),
    decreases a.len(),
{
    if a.len() > 0 && b.len() > 0 && a[0] == b[0] {
        if a.drop_first() == b.drop_first() {
            assert(a =~= seq![a[0]] + a.drop_first());
            assert(b =~= seq![b[0]] + b.drop_first());
        }
        lemma_text_less_total(a.drop_first(), b.drop_first());
    } else if a.len() > 0 && b.len() > 0 {
        assert(a[0] < b[0] || b[0] < a[0]);
    } else if a.len() == 0 && b.len() == 0 {
        assert(a =~= b);
    }
}

/// Adds `label` to the set; a label already there changes nothing.
pub fn insert_label(set: &mut Vec<String>, label: &str)
    requires
        is_label_set(old(set).deep_view()),
    ensures
        is_label_set(final(set).deep_view()),
        final(set).deep_view().to_set() == old(set).deep_view().to_set().insert(label@),
{
    let ghost s = set.deep_view();
    let mut j: usize = 0;
    while j < set.len() && text_less_exec(set[j].as_str(), label)
        invariant
            j <= set@.len(),
            set.deep_view() == s,
            is_label_set(s),
            forall|i: int| 0 <= i < j ==> text_less(#[trigger] s[i], label@),
        decreases set@.len() - j,
    {
        j = j + 1;
    }
    if j < set.len() && str_eq(set[j].as_str(), label) {
        assert(s.contains(label@)) by {
            assert(s[j as int] == label@);
        }
        assert(s.to_set().insert(label@) =~= s.to_set());
        return;
    }
    proof {
        if j < s.len() {
            lemma_text_less_total(s[j as int], label@);
        }
    }
    set.insert(j, String::from_str(label));
    proof {
        let t = set.deep_view();
        assert(t =~= s.insert(j as int, label@));
        assert forall|a: int, b: int| 0 <= a < b < t.len() implies text_less(
            #[trigger] t[a],
            #[trigger] t[b],
        ) by {
            if b < j {
                assert(t[a] == s[a] && t[b] == s[b]);
            } else if b == j {
                assert(t[a] == s[a]);
            } else if a == j {
                assert(t[b] == s[b - 1]);
                if b - 1 > j {
                    lemma_text_less_transitive(label@, s[j as int], s[b - 1]);
                }
            } else if a < j {
                assert(t[a] == s[a] && t[b] == s[b - 1]);
            } else {
                assert(t[a] == s[a - 1] && t[b] == s[b - 1]);
            }
        }
        assert(t.to_set() =~= s.to_set().insert(label@)) by {
            assert forall|x: Seq<char>| t.to_set().contains(x) implies s.to_set().insert(
                label@,
            ).contains(x) by {
                let k = choose|k: int| 0 <= k < t.len() && t[k] == x;
                if k < j {
                    assert(s[k] == x);
                } else if k > j {
                    assert(s[k - 1] == x);
                }
            }
            assert forall|x: Seq<char>| s.to_set().insert(label@).contains(x) implies t.to_set().contains(
                x,
            ) by {
                if x == label@ {
                    assert(t[j as int] == x);
                } else {
                    let k = choose|k: int| 0 <= k < s.len() && s[k] == x;
                    if k < j {
                        assert(t[k] == x);
                    } else {
                        assert(t[k + 1] == x);
                    }
                }
            }
        }
    }
}

/// Removes `label` from the set.
pub fn remove_label(set: &mut Vec<String>, label: &str)
    requires
        is_label_set(old(set).deep_view()),
    ensures
        is_label_set(final(set).deep_view()),
        final(set).deep_view().to_set() == old(set).deep_view().to_set().remove(label@),
{
    let ghost s = set.deep_view();
    let mut j: usize = 0;
    while j < set.len() && !str_eq(set[j].as_str(), label)
        invariant
            j <= set@.len(),
            set.deep_view() == s,
            forall|i: int| 0 <= i < j ==> #[trigger] s[i] != label@,
        decreases set@.len() - j,
    {
        j = j + 1;
    }
    if j == set.len() {
        assert(s.to_set().remove(label@) =~= s.to_set());
        return;
    }
    set.remove(j);
    proof {
        let t = set.deep_view();
        assert(t =~= s.remove(j as int));
        assert forall|a: int, b: int| 0 <= a < b < t.len() implies text_less(
            #[trigger] t[a],
            #[trigger] t[b],
        ) by {
            if b < j {
                assert(t[a] == s[a] && t[b] == s[b]);
            } else if a < j {
                assert(t[a] == s[a] && t[b] == s[b + 1]);
            } else {
                assert(t[a] == s[a + 1] && t[b] == s[b + 1]);
            }
        }
        assert(t.to_set() =~= s.to_set().remove(label@)) by {
            assert forall|x: Seq<char>| t.to_set().contains(x) implies s.to_set().remove(
                label@,
            ).contains(x) by {
                let k = choose|k: int| 0 <= k < t.len() && t[k] == x;
                if k < j {
                    assert(s[k] == x);
                } else {
                    assert(s[k + 1] == x);
                    if x == label@ {
                        lemma_text_less_irreflexive(label@);
                        assert(text_less(s[j as int], s[k + 1]));
                    }
                }
            }
            assert forall|x: Seq<char>| s.to_set().remove(label@).contains(x) implies t.to_set().contains(
                x,
            ) by {
                let k = choose|k: int| 0 <= k < s.len() && s[k] == x;
                if k < j {
                    assert(t[k] == x);
                } else if k > j {
                    assert(t[k - 1] == x);
                }
            }
        }
    }
}

/// The labels of one entry.
pub open spec fn repo_labels(r: RepoConfig) -> Seq<Seq<char>> {
    match r.labels {
        Some(l) => l.deep_view(),
        None => Seq::empty(),
    }
}

/// The labels some entry of `repos` carries.
pub open spec fn carried_labels(repos: Seq<RepoConfig>) -> Set<Seq<char>>
    decreases repos.len(),
{
    if repos.len() == 0 {
        Set::empty()
    } else {
        carried_labels(repos.drop_last()).union(repo_labels(repos.last()).to_set())
    }
}

/// The labels the entries carry, each once and in order.
pub fn collect_labels(repos: &Vec<RepoConfig>) -> (r: Vec<String>)
    ensures
        is_label_set(r.deep_view()),
        r.deep_view().to_set() == carried_labels(repos@),
{
    let mut r: Vec<String> = Vec::new();
    let mut i: usize = 0;
    assert(r.deep_view().to_set() =~= carried_labels(repos@.take(0)));
    while i < repos.len()
        invariant
            i <= repos@.len(),
            is_label_set(r.deep_view()),
            r.deep_view().to_set() == carried_labels(repos@.take(i as int)),
        decreases repos@.len() - i,
    {
        let ghost before = r.deep_view().to_set();
        assert(repos@.take(i + 1).drop_last() =~= repos@.take(i as int));
        assert(repos@.take(i + 1).last() == repos@[i as int]);
        match &repos[i].labels {
            Some(l) => {
                let mut k: usize = 0;
                assert(l.deep_view().take(0).to_set() =~= Set::<Seq<char>>::empty());
                assert(before.union(Set::<Seq<char>>::empty()) =~= before);
                while k < l.len()
                    invariant
                        k <= l@.len(),
                        is_label_set(r.deep_view()),
                        r.deep_view().to_set() == before.union(l.deep_view().take(k as int).to_set()),
                    decreases l@.len() - k,
                {
                    insert_label(&mut r, l[k].as_str());
                    proof {
                        let lv = l.deep_view();
                        assert(lv.take(k + 1) =~= lv.take(k as int).push(lv[k as int]));
                        let t1 = lv.take(k + 1);
                        let t0 = lv.take(k as int);
                        assert(t1.to_set() =~= t0.to_set().insert(lv[k as int])) by {
                            assert forall|x: Seq<char>| t1.to_set().contains(x) implies t0.to_set().insert(
                                lv[k as int],
                            ).contains(x) by {
                                let m = choose|m: int| 0 <= m < t1.len() && t1[m] == x;
                                if m < k {
                                    assert(t0[m] == x);
                                }
                            }
                            assert forall|x: Seq<char>| t0.to_set().insert(lv[k as int]).contains(
                                x,
                            ) implies t1.to_set().contains(x) by {
                                if x == lv[k as int] {
                                    assert(t1[k as int] == x);
                                } else {
                                    let m = choose|m: int| 0 <= m < t0.len() && t0[m] == x;
                                    assert(t1[m] == x);
                                }
                            }
                        }
                        assert(r.deep_view().to_set() =~= before.union(lv.take(k + 1).to_set()));
                    }
                    k = k + 1;
                }
                assert(l.deep_view().take(k as int) =~= l.deep_view());
                assert(repo_labels(repos@[i as int]) == l.deep_view());
            },
            None => {
                assert(repo_labels(repos@[i as int]).to_set() =~= Set::<Seq<char>>::empty());
                assert(before.union(Set::<Seq<char>>::empty()) =~= before);
            },
        }
        i = i + 1;
    }
    assert(repos@.take(i as int) =~= repos@);
    r
}

/// The labels a project can select: those the entries carry and `none`;
/// nothing when the entries carry no label.
pub fn labels_to_offer(repos: &Vec<RepoConfig>) -> (r: Vec<String>)
    ensures
        is_label_set(r.deep_view()),
        carried_labels(repos@).is_empty() ==> r@.len() == 0,
        !carried_labels(repos@).is_empty() ==> r.deep_view().to_set() == carried_labels(repos@).insert(
            "none"@,
        ),
{
    let mut r = collect_labels(repos);
    if r.len() == 0 {
        proof {
            assert(r.deep_view().to_set() =~= Set::<Seq<char>>::empty());
        }
        return r;
    }
    proof {
        assert(r.deep_view().to_set().contains(r.deep_view()[0]));
    }
    insert_label(&mut r, "none");
    r
}

/// Keeps the selected labels that are among `known`.
pub fn retain_labels(selected: Vec<String>, known: &Vec<String>) -> (r: Vec<String>)
    requires
        is_label_set(selected.deep_view()),
    ensures
        is_label_set(r.deep_view()),
        r.deep_view().to_set() == selected.deep_view().to_set().intersect(known.deep_view().to_set()),
{
    let ghost s = selected.deep_view();
    let mut r: Vec<String> = Vec::new();
    let mut i: usize = 0;
    while i < selected.len()
        invariant
            i <= selected@.len(),
            s == selected.deep_view(),
            is_label_set(s),
            is_label_set(r.deep_view()),
            forall|a: int| 0 <= a < r.deep_view().len() ==> exists|b: int| 0 <= b < i && #[trigger] r.deep_view()[a] == s[b],
            r.deep_view().to_set() == s.take(i as int).to_set().intersect(known.deep_view().to_set()),
        decreases selected@.len() - i,
    {
        let keep = crate::text::strings_contain(known, selected[i].as_str());
        let ghost before = r.deep_view();
        proof {
            assert(s.take(i + 1) =~= s.take(i as int).push(s[i as int]));
        }
        if keep {
            r.push(selected[i].clone());
            proof {
                let t = r.deep_view();
                assert(t =~= before.push(s[i as int]));
                assert forall|a: int, b: int| 0 <= a < b < t.len() implies text_less(
                    #[trigger] t[a],
                    #[trigger] t[b],
                ) by {
                    if b == t.len() - 1 {
                        let w = choose|w: int| 0 <= w < i && before[a] == s[w];
                        assert(t[a] == s[w]);
                    } else {
                        assert(t[a] == before[a] && t[b] == before[b]);
                    }
                }
                assert forall|a: int| 0 <= a < t.len() implies exists|b: int| 0 <= b < i + 1 && #[trigger] t[a] == s[b] by {
                    if a < before.len() {
                        let w = choose|w: int| 0 <= w < i && before[a] == s[w];
                        assert(t[a] == s[w]);
                    } else {
                        assert(t[a] == s[i as int]);
                    }
                }
            }
        }
        proof {
            let t = r.deep_view();
            let s0 = s.take(i as int);
            let s1 = s.take(i + 1);
            assert(t.to_set() =~= s1.to_set().intersect(known.deep_view().to_set())) by {
                assert forall|x: Seq<char>| t.to_set().contains(x) implies s1.to_set().intersect(
                    known.deep_view().to_set(),
                ).contains(x) by {
                    let m = choose|m: int| 0 <= m < t.len() && t[m] == x;
                    if m < before.len() {
                        assert(before.to_set().contains(x));
                        let w = choose|w: int| 0 <= w < s0.len() && s0[w] == x;
                        assert(s1[w] == x);
                    } else {
                        assert(s1[i as int] == x);
                    }
                }
                assert forall|x: Seq<char>| s1.to_set().intersect(known.deep_view().to_set()).contains(
                    x,
                ) implies t.to_set().contains(x) by {
                    let m = choose|m: int| 0 <= m < s1.len() && s1[m] == x;
                    if m < i {
                        assert(s0[m] == x);
                        assert(before.to_set().contains(x));
                        let w = choose|w: int| 0 <= w < before.len() && before[w] == x;
                        assert(t[w] == x);
                    } else {
                        assert(t[t.len() - 1] == x);
                    }
                }
            }
        }
        i = i + 1;
    }
    assert(s.take(i as int) =~= s);
    r
}

/// The labels of `labels` as a set: each once, in order.
pub fn label_set_of(labels: &Vec<String>) -> (r: Vec<String>)
    ensures
        is_label_set(r.deep_view()),
        r.deep_view().to_set() == labels.deep_view().to_set(),
{
    let mut r: Vec<String> = Vec::new();
    let mut k: usize = 0;
    assert(labels.deep_view().take(0).to_set() =~= Set::<Seq<char>>::empty());
    assert(r.deep_view().to_set() =~= Set::<Seq<char>>::empty());
    while k < labels.len()
        invariant
            k <= labels@.len(),
            is_label_set(r.deep_view()),
            r.deep_view().to_set() == labels.deep_view().take(k as int).to_set(),
        decreases labels@.len() - k,
    {
        insert_label(&mut r, labels[k].as_str());
        proof {
            let lv = labels.deep_view();
            let t1 = lv.take(k + 1);
            let t0 = lv.take(k as int);
            assert(lv[k as int] == labels@[k as int]@);
            assert(t1.to_set() =~= t0.to_set().insert(lv[k as int])) by {
                assert forall|x: Seq<char>| t1.to_set().contains(x) implies t0.to_set().insert(
                    lv[k as int],
                ).contains(x) by {
                    let m = choose|m: int| 0 <= m < t1.len() && t1[m] == x;
                    if m < k {
                        assert(t0[m] == x);
                    }
                }
                assert forall|x: Seq<char>| t0.to_set().insert(lv[k as int]).contains(x) implies t1.to_set().contains(
                    x,
                ) by {
                    if x == lv[k as int] {
                        assert(t1[k as int] == x);
                    } else {
                        let m = choose|m: int| 0 <= m < t0.len() && t0[m] == x;
                        assert(t1[m] == x);
                    }
                }
            }
        }
        k = k + 1;
    }
    assert(labels.deep_view().take(k as int) =~= labels.deep_view());
    r
}

/// A set of labels: each label once, in increasing order.
#[derive(Debug)]
pub struct LabelSet {
    items: Vec<String>,
}

impl LabelSet {
    #[verifier::type_invariant]
    spec fn well_formed(self) -> bool {
        is_label_set(self.items.deep_view())
    }

    /// The labels, in increasing order.
    pub closed spec fn labels(self) -> Seq<Seq<char>> {
        self.items.deep_view()
    }

    /// No label.
    pub fn new() -> (r: Self)
        ensures
            r.labels() == Seq::<Seq<char>>::empty(),
    {
        let items: Vec<String> = Vec::new();
        assert(items.deep_view() =~= Seq::<Seq<char>>::empty());
        LabelSet { items }
    }

    /// The set of the labels listed in `labels`.
    pub fn from_labels(labels: &Vec<String>) -> (r: Self)
        ensures
            is_label_set(r.labels()),
            r.labels().to_set() == labels.deep_view().to_set(),
    {
        LabelSet { items: label_set_of(labels) }
    }

    /// The labels, in increasing order.
    pub fn to_vec(&self) -> (r: Vec<String>)
        ensures
            r.deep_view() == self.labels(),
            is_label_set(self.labels()),
    {
        proof {
            use_type_invariant(self);
        }
        clone_strings(&self.items)
    }

    /// The number of labels.
    pub fn len(&self) -> (r: usize)
        ensures
            r == self.labels().len(),
    {
        self.items.len()
    }

    /// Adds a label; one already there changes nothing.
    pub fn insert(&mut self, label: &str)
        ensures
            is_label_set(final(self).labels()),
            final(self).labels().to_set() == old(self).labels().to_set().insert(label@),
    {
        proof {
            use_type_invariant(&*self);
        }
        let mut items: Vec<String> = Vec::new();
        assert(items.deep_view() =~= Seq::<Seq<char>>::empty());
        std::mem::swap(&mut items, &mut self.items);
        insert_label(&mut items, label);
        self.items = items;
    }

    /// Removes a label.
    pub fn remove(&mut self, label: &str)
        ensures
            is_label_set(final(self).labels()),
            final(self).labels().to_set() == old(self).labels().to_set().remove(label@),
    {
        proof {
            use_type_invariant(&*self);
        }
        let mut items: Vec<String> = Vec::new();
        assert(items.deep_view() =~= Seq::<Seq<char>>::empty());
        std::mem::swap(&mut items, &mut self.items);
        remove_label(&mut items, label);
        self.items = items;
    }
}

} // verus!
