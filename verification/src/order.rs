use vstd::prelude::*;

use crate::workspace::{Entry, WorkspaceSummary};
use vstd::multiset::Multiset;

verus! {

broadcast use vstd::seq_lib::group_to_multiset_ensures;

/// The order of `str`: lexicographic by character, which is the order of
/// the UTF-8 bytes that `str`'s `Ord` compares.
pub open spec fn lex_le(a: Seq<char>, b: Seq<char>) -> bool
    decreases a.len(),
{
    if a.len() == 0 {
        true
    } else if b.len() == 0 {
        false
    } else if a[0] != b[0] {
        (a[0] as int) < (b[0] as int)
    } else {
        lex_le(a.drop_first(), b.drop_first())
    }
}

pub proof fn lemma_lex_total(a: Seq<char>, b: Seq<char>)
    ensures
        lex_le(a, b) || lex_le(b, a),
    decreases a.len(),
{
    if a.len() > 0 && b.len() > 0 && a[0] == b[0] {
        lemma_lex_total(a.drop_first(), b.drop_first());
    }
}

pub proof fn lemma_lex_trans(a: Seq<char>, b: Seq<char>, c: Seq<char>)
    requires
        lex_le(a, b),
        lex_le(b, c),
    ensures
        lex_le(a, c),
    decreases a.len(),
{
    if a.len() > 0 && b.len() > 0 && c.len() > 0 && a[0] == b[0] && b[0] == c[0] {
        lemma_lex_trans(a.drop_first(), b.drop_first(), c.drop_first());
    }
}

pub proof fn lemma_lex_antisym(a: Seq<char>, b: Seq<char>)
    requires
        lex_le(a, b),
        lex_le(b, a),
    ensures
        a == b,
    decreases a.len(),
{
    if a.len() == 0 {
        assert(b.len() == 0);
        assert(a =~= b);
    } else {
        assert(b.len() > 0);
        assert(a[0] == b[0]);
        let (da, db) = (a.drop_first(), b.drop_first());
        lemma_lex_antisym(da, db);
        assert forall|i: int| 0 <= i < a.len() implies a[i] == b[i] by {
            if i > 0 {
                assert(a[i] == da[i - 1]);
                assert(b[i] == db[i - 1]);
            }
        }
        assert(a =~= b);
    }
}

/// Compares two strings in the order of `str`.
pub fn str_le(a: &str, b: &str) -> (r: bool)
    ensures
        r == lex_le(a@, b@),
{
    let n = a.unicode_len();
    let m = b.unicode_len();
    let mut i: usize = 0;
    assert(a@.skip(0) =~= a@);
    assert(b@.skip(0) =~= b@);
    while i < n && i < m && a.get_char(i) == b.get_char(i)
        invariant
            n == a@.len(),
            m == b@.len(),
            i <= n,
            i <= m,
            lex_le(a@, b@) == lex_le(a@.skip(i as int), b@.skip(i as int)),
        decreases n - i,
    {
        proof {
            let sa = a@.skip(i as int);
            let sb = b@.skip(i as int);
            assert(sa.drop_first() =~= a@.skip(i + 1));
            assert(sb.drop_first() =~= b@.skip(i + 1));
        }
        i = i + 1;
    }
    if i == n {
        true
    } else if i == m {
        false
    } else {
        (a.get_char(i) as u32) < (b.get_char(i) as u32)
    }
}

/// Things ordered by a name.
pub trait Named {
    spec fn name_key(&self) -> Seq<char>;

    fn name_text(&self) -> (r: &str)
        ensures
            r@ == self.name_key();
}

impl Named for String {
    open spec fn name_key(&self) -> Seq<char> {
        self@
    }

    fn name_text(&self) -> (r: &str) {
        self.as_str()
    }
}

impl Named for Entry {
    open spec fn name_key(&self) -> Seq<char> {
        self.name@
    }

    fn name_text(&self) -> (r: &str) {
        self.name.as_str()
    }
}

impl Named for WorkspaceSummary {
    open spec fn name_key(&self) -> Seq<char> {
        self.name@
    }

    fn name_text(&self) -> (r: &str) {
        self.name.as_str()
    }
}

/// Ascending by name.
pub open spec fn sorted_by_name<T: Named>(s: Seq<T>) -> bool {
    forall|i: int, j: int| 0 <= i < j < s.len() ==> lex_le((#[trigger] s[i]).name_key(), (#[trigger] s[j]).name_key())
}

/// `s` with `x` put after the first items whose names are at most the
/// name of `x`.
pub open spec fn insert_by_name<T: Named>(s: Seq<T>, x: T) -> Seq<T>
    decreases s.len(),
{
    if s.len() == 0 {
        seq![x]
    } else if lex_le(s[0].name_key(), x.name_key()) {
        seq![s[0]] + insert_by_name(s.drop_first(), x)
    } else {
        seq![x] + s
    }
}

/// The items of `s` sorted by name, each put after the items before it
/// whose names are at most its own: items with equal names keep their
/// order.
pub open spec fn sorted_stably<T: Named>(s: Seq<T>) -> Seq<T>
    decreases s.len(),
{
    if s.len() == 0 {
        Seq::empty()
    } else {
        insert_by_name(sorted_stably(s.drop_last()), s.last())
    }
}

proof fn lemma_insert_at<T: Named>(s: Seq<T>, x: T, p: int)
    requires
        0 <= p <= s.len(),
        forall|k: int| 0 <= k < p ==> lex_le((#[trigger] s[k]).name_key(), x.name_key()),
        p == s.len() || !lex_le(s[p].name_key(), x.name_key()),
    ensures
        insert_by_name(s, x) == s.insert(p, x),
    decreases s.len(),
{
    if s.len() == 0 {
        assert(s.insert(p, x) =~= seq![x]);
    } else if p == 0 {
        assert(s.insert(p, x) =~= seq![x] + s);
    } else {
        let d = s.drop_first();
        assert forall|k: int| 0 <= k < p - 1 implies lex_le((#[trigger] d[k]).name_key(), x.name_key()) by {
            assert(d[k] == s[k + 1]);
        }
        if p < s.len() {
            assert(d[p - 1] == s[p]);
        }
        lemma_insert_at(d, x, p - 1);
        assert(s.insert(p, x) =~= seq![s[0]] + d.insert(p - 1, x));
    }
}

/// Sorts by name, as a stable sort does: items with equal names keep their
/// order.
pub fn sort_by_name<T: Named>(v: Vec<T>) -> (r: Vec<T>)
    ensures
        r@ == sorted_stably(v@),
        sorted_by_name(r@),
        r@.to_multiset() == v@.to_multiset(),
        r@.len() == v@.len(),
{
    let mut src = v;
    let mut out: Vec<T> = Vec::new();
    let ghost orig = src@;
    let ghost mut k: int = 0;
    assert(orig.take(0) =~= Seq::<T>::empty());
    assert(orig.skip(0) =~= orig);
    while src.len() > 0
        invariant
            sorted_by_name(out@),
            out@.to_multiset().add(src@.to_multiset()) == orig.to_multiset(),
            0 <= k <= orig.len(),
            src@ == orig.skip(k),
            out@ == sorted_stably(orig.take(k)),
        decreases src@.len(),
    {
        let ghost before_src = src@;
        let x = src.remove(0);
        proof {
            assert(x == orig[k]);
            assert(src@ =~= orig.skip(k + 1));
            assert(orig.take(k + 1).drop_last() =~= orig.take(k));
            assert(orig.take(k + 1).last() == x);
        }
        proof {
            vstd::seq_lib::to_multiset_remove(before_src, 0);
        }
        let n = out.len();
        let mut p: usize = 0;
        while p < n && str_le(out[p].name_text(), x.name_text())
            invariant
                n == out@.len(),
                p <= n,
                forall|k: int| 0 <= k < p ==> lex_le((#[trigger] out@[k]).name_key(), x.name_key()),
            decreases n - p,
        {
            p = p + 1;
        }
        let ghost before = out@;
        out.insert(p, x);
        proof {
            lemma_insert_at(before, x, p as int);
            k = k + 1;
            vstd::seq_lib::to_multiset_insert(before, p as int, x);
            assert forall|i: int, j: int| 0 <= i < j < out@.len() implies lex_le(
                (#[trigger] out@[i]).name_key(),
                (#[trigger] out@[j]).name_key(),
            ) by {
                if j < p {
                    assert(out@[i] == before[i] && out@[j] == before[j]);
                } else if j == p {
                    assert(out@[i] == before[i]);
                } else if i == p {
                    assert(out@[j] == before[j - 1]);
                    assert(!lex_le(before[p as int].name_key(), x.name_key()));
                    lemma_lex_total(before[p as int].name_key(), x.name_key());
                    if j - 1 > p {
                        assert(lex_le(before[p as int].name_key(), before[j - 1].name_key()));
                        lemma_lex_trans(x.name_key(), before[p as int].name_key(), before[j - 1].name_key());
                    }
                } else if i < p {
                    assert(out@[i] == before[i]);
                    assert(out@[j] == before[j - 1]);
                } else {
                    assert(out@[i] == before[i - 1]);
                    assert(out@[j] == before[j - 1]);
                }
            }
            assert(out@.to_multiset().add(src@.to_multiset()) =~= orig.to_multiset());
        }
    }
    proof {
        assert(orig.take(k) =~= orig);
        assert(src@.to_multiset() =~= Multiset::<T>::empty());
        assert(out@.to_multiset() =~= orig.to_multiset());
        vstd::seq_lib::to_multiset_len(out@);
        vstd::seq_lib::to_multiset_len(orig);
    }
    out
}

} // verus!

verus! {

/// The texts of some strings.
pub open spec fn names_of(v: Seq<String>) -> Seq<Seq<char>> {
    v.map_values(|s: String| s@)
}

/// Strictly ascending: sorted with no name twice.
pub open spec fn strictly_sorted(s: Seq<Seq<char>>) -> bool {
    forall|i: int, j: int| 0 <= i < j < s.len() ==> lex_le(#[trigger] s[i], #[trigger] s[j]) && s[i] != s[j]
}

/// The distinct names of `names`, ascending, as collecting them into a
/// `BTreeSet` and walking it gives them.
pub fn sorted_unique_names(names: Vec<String>) -> (r: Vec<String>)
    ensures
        strictly_sorted(names_of(r@)),
        forall|x: Seq<char>| #[trigger] names_of(r@).contains(x) <==> names_of(names@).contains(x),
{
    let ghost input = names@;
    let sorted = sort_by_name(names);
    proof {
        assert forall|x: String| sorted@.contains(x) <==> input.contains(x) by {
            vstd::seq_lib::to_multiset_contains(sorted@, x);
            vstd::seq_lib::to_multiset_contains(input, x);
        }
    }
    let ghost sv = names_of(sorted@);
    let mut out: Vec<String> = Vec::new();
    let n = sorted.len();
    let mut i: usize = 0;
    while i < n
        invariant
            n == sorted@.len(),
            sv == names_of(sorted@),
            sorted_by_name(sorted@),
            i <= n,
            strictly_sorted(names_of(out@)),
            out@.len() > 0 ==> i > 0 && out@.last()@ == sv[i - 1],
            i > 0 ==> out@.len() > 0,
            forall|x: Seq<char>| names_of(out@).contains(x) <==> sv.take(i as int).contains(x),
        decreases n - i,
    {
        let ghost ov = names_of(out@);
        let take_it = out.len() == 0 || !crate::text::str_eq(out[out.len() - 1].as_str(), sorted[i].as_str());
        if take_it {
            out.push(sorted[i].clone());
            proof {
                let nv = names_of(out@);
                assert(nv =~= ov.push(sv[i as int]));
                assert forall|a: int, b: int| 0 <= a < b < nv.len() implies lex_le(#[trigger] nv[a], #[trigger] nv[b])
                    && nv[a] != nv[b] by {
                    if b == nv.len() - 1 && a < b {
                        // nv[a] is some sorted[k] with k < i, and the last one is sorted[i - 1].
                        assert(ov.contains(nv[a]));
                        assert(sv.take(i as int).contains(nv[a]));
                        let k = choose|k: int| 0 <= k < i && #[trigger] sv.take(i as int)[k] == nv[a];
                        assert(sv[k] == nv[a]);
                        assert(lex_le(sorted@[k].name_key(), sorted@[i as int].name_key()));
                        if nv[a] == sv[i as int] {
                            assert(lex_le(sorted@[k].name_key(), sorted@[i - 1].name_key()));
                            assert(lex_le(sorted@[i - 1].name_key(), sorted@[i as int].name_key()));
                            lemma_lex_antisym(sv[k], sv[i - 1]);
                            assert(ov.last() == sv[i - 1]);
                        }
                    }
                }
                assert forall|x: Seq<char>| nv.contains(x) <==> sv.take(i + 1).contains(x) by {
                    let t1 = sv.take(i as int);
                    let t2 = sv.take(i + 1);
                    if nv.contains(x) {
                        let k = choose|k: int| 0 <= k < nv.len() && nv[k] == x;
                        if k < ov.len() {
                            assert(ov[k] == x);
                            assert(ov.contains(x));
                            assert(t1.contains(x));
                            let k1 = choose|k1: int| 0 <= k1 < t1.len() && #[trigger] t1[k1] == x;
                            assert(t2[k1] == x);
                        } else {
                            assert(t2[i as int] == x);
                        }
                    }
                    if t2.contains(x) {
                        let k = choose|k: int| 0 <= k < t2.len() && #[trigger] t2[k] == x;
                        if k < i {
                            assert(t1[k] == x);
                            assert(t1.contains(x));
                            assert(ov.contains(x));
                            let k2 = choose|k2: int| 0 <= k2 < ov.len() && ov[k2] == x;
                            assert(nv[k2] == x);
                        } else {
                            assert(nv[nv.len() - 1] == x);
                        }
                    }
                }
            }
        } else {
            proof {
                assert(out@.last()@ == sv[i as int]);
                assert forall|x: Seq<char>| ov.contains(x) <==> sv.take(i + 1).contains(x) by {
                    assert(sv.take(i + 1) =~= sv.take(i as int).push(sv[i as int]));
                    if sv.take(i + 1).contains(x) {
                        let k = choose|k: int| 0 <= k < i + 1 && #[trigger] sv.take(i + 1)[k] == x;
                        if k == i {
                            assert(ov[ov.len() - 1] == x);
                        } else {
                            assert(sv.take(i as int)[k] == x);
                        }
                    }
                }
            }
        }
        i = i + 1;
    }
    proof {
        assert(sv.take(n as int) =~= sv);
        assert forall|x: Seq<char>| sv.contains(x) <==> names_of(input).contains(x) by {
            if sv.contains(x) {
                let k = choose|k: int| 0 <= k < sv.len() && sv[k] == x;
                assert(sorted@.contains(sorted@[k]));
                assert(input.contains(sorted@[k]));
                let k2 = choose|k2: int| 0 <= k2 < input.len() && input[k2] == sorted@[k];
                assert(names_of(input)[k2] == x);
            }
            if names_of(input).contains(x) {
                let k = choose|k: int| 0 <= k < input.len() && names_of(input)[k] == x;
                assert(input.contains(input[k]));
                assert(sorted@.contains(input[k]));
                let k2 = choose|k2: int| 0 <= k2 < sorted@.len() && sorted@[k2] == input[k];
                assert(sv[k2] == x);
            }
        }
    }
    out
}

} // verus!
