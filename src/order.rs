//! The order in which holes are shown: by file name, then by line.

use vstd::prelude::*;
use vstd::seq_lib::*;
use vstd::multiset::Multiset;
use crate::hole::{at, distinct_sites, Hole, HoleModel, Holes};

verus! {

/// `a` comes before `b` in the lexicographic order of code points.
pub open spec fn text_lt(a: Seq<char>, b: Seq<char>) -> bool
    decreases a.len(),
{
    if a.len() == 0 {
        b.len() > 0
    } else if b.len() == 0 {
        false
    } else if a[0] != b[0] {
        a[0] < b[0]
    } else {
        text_lt(a.drop_first(), b.drop_first())
    }
}

/// `a` is shown before `b`.
pub open spec fn site_lt(a: HoleModel, b: HoleModel) -> bool {
    text_lt(a.file, b.file) || (a.file == b.file && a.line < b.line)
}

/// `a` may be shown before `b`.
pub open spec fn site_le(a: HoleModel, b: HoleModel) -> bool {
    site_lt(a, b) || (a.file == b.file && a.line == b.line)
}

/// Each hole may be shown before every later one.
pub open spec fn sorted_by_site(hs: Seq<HoleModel>) -> bool {
    forall|i: int, j: int| 0 <= i < j < hs.len() ==> site_le(#[trigger] hs[i], #[trigger] hs[j])
}

/// Each hole is shown before every later one: no two share a place.
pub open spec fn strictly_sorted(hs: Seq<HoleModel>) -> bool {
    forall|i: int, j: int| 0 <= i < j < hs.len() ==> site_lt(#[trigger] hs[i], #[trigger] hs[j])
}

/// Of two different texts, one comes first.
pub proof fn lemma_text_lt_total(a: Seq<char>, b: Seq<char>)
    ensures
        a == b || text_lt(a, b) || text_lt(b, a),
    decreases a.len(),
{
    if a.len() > 0 && b.len() > 0 {
        if a[0] == b[0] {
            lemma_text_lt_total(a.drop_first(), b.drop_first());
            if a.drop_first() == b.drop_first() {
                assert(a.drop_first().len() == a.len() - 1);
                assert(b.drop_first().len() == b.len() - 1);
                assert(a =~= b) by {
                    assert forall|k: int| 0 <= k < a.len() implies a[k] == b[k] by {
                        if k > 0 {
                            assert(a[k] == a.drop_first()[k - 1]);
                            assert(b[k] == b.drop_first()[k - 1]);
                        }
                    }
                }
            }
        }
    } else if a.len() == 0 && b.len() == 0 {
        assert(a =~= b);
    }
}

/// The order of texts is transitive.
pub proof fn lemma_text_lt_trans(a: Seq<char>, b: Seq<char>, c: Seq<char>)
    requires
        text_lt(a, b),
        text_lt(b, c),
    ensures
        text_lt(a, c),
    decreases a.len(),
{
    if a.len() > 0 && b.len() > 0 && c.len() > 0 && a[0] == b[0] && b[0] == c[0] {
        lemma_text_lt_trans(a.drop_first(), b.drop_first(), c.drop_first());
    }
}

/// Of two holes, one may be shown before the other.
pub proof fn lemma_site_total(x: HoleModel, y: HoleModel)
    ensures
        site_lt(x, y) || site_le(y, x),
{
    lemma_text_lt_total(x.file, y.file);
}

/// The order of holes is transitive.
pub proof fn lemma_site_trans(x: HoleModel, y: HoleModel, z: HoleModel)
    requires
        site_le(x, y),
        site_le(y, z),
    ensures
        site_le(x, z),
{
    if text_lt(x.file, y.file) && text_lt(y.file, z.file) {
        lemma_text_lt_trans(x.file, y.file, z.file);
    }
}

/// `a` comes before `b`.
pub fn text_less(a: &str, b: &str) -> (r: bool)
    ensures
        r == text_lt(a@, b@),
{
    let n = a.unicode_len();
    let m = b.unicode_len();
    let mut i: usize = 0;
    assert(a@.skip(0) =~= a@);
    assert(b@.skip(0) =~= b@);
    while i < n && i < m
        invariant
            i <= n,
            i <= m,
            n == a@.len(),
            m == b@.len(),
            text_lt(a@, b@) == text_lt(a@.skip(i as int), b@.skip(i as int)),
        decreases n - i,
    {
        let c = a.get_char(i);
        let d = b.get_char(i);
        assert(a@.skip(i as int)[0] == c);
        assert(b@.skip(i as int)[0] == d);
        if c != d {
            return c < d;
        }
        assert(a@.skip(i as int).drop_first() =~= a@.skip(i + 1));
        assert(b@.skip(i as int).drop_first() =~= b@.skip(i + 1));
        i = i + 1;
    }
    i == n && i < m
}

/// `a` is shown before `b`.
pub fn site_less(a: &Hole, b: &Hole) -> (r: bool)
    ensures
        r == site_lt(a@, b@),
{
    if text_less(a.file.as_str(), b.file.as_str()) {
        return true;
    }
    if a.line >= b.line {
        return false;
    }
    crate::text::text_eq(a.file.as_str(), b.file.as_str())
}

/// A hole that occurs twice in `s` occurs at two positions.
proof fn lemma_twice(s: Seq<HoleModel>, x: HoleModel)
    requires
        s.to_multiset().count(x) >= 2,
    ensures
        exists|p: int, q: int| 0 <= p < s.len() && 0 <= q < s.len() && p != q && s[p] == x && s[q] == x,
{
    broadcast use vstd::multiset::group_multiset_axioms;
    to_multiset_contains(s, x);
    let p = choose|p: int| 0 <= p < s.len() && s[p] == x;
    to_multiset_remove(s, p);
    let t = s.remove(p);
    to_multiset_contains(t, x);
    let q = choose|q: int| 0 <= q < t.len() && t[q] == x;
    let q2 = if q < p { q } else { q + 1 };
    assert(s[q2] == x);
}

/// Rearranging holes keeps their sites distinct.
pub proof fn lemma_rearranged_distinct(a: Seq<HoleModel>, b: Seq<HoleModel>)
    requires
        distinct_sites(a),
        a.to_multiset() == b.to_multiset(),
    ensures
        distinct_sites(b),
{
    broadcast use vstd::multiset::group_multiset_axioms;
    assert forall|i: int, j: int| 0 <= i < b.len() && 0 <= j < b.len() && i != j implies !at(#[trigger] b[i], b[j].file, #[trigger] b[j].line) by {
        if at(b[i], b[j].file, b[j].line) {
            let x = b[i];
            let y = b[j];
            to_multiset_contains(b, x);
            to_multiset_contains(b, y);
            to_multiset_contains(a, x);
            to_multiset_contains(a, y);
            if x == y {
                to_multiset_remove(b, i);
                let t = b.remove(i);
                assert(t.contains(y)) by {
                    if j < i {
                        assert(t[j] == y);
                    } else {
                        assert(t[j - 1] == y);
                    }
                }
                to_multiset_contains(t, y);
                lemma_twice(a, x);
                let (p, q) = choose|p: int, q: int| 0 <= p < a.len() && 0 <= q < a.len() && p != q && a[p] == x && a[q] == x;
                assert(!at(a[p], a[q].file, a[q].line));
            } else {
                let p = choose|p: int| 0 <= p < a.len() && a[p] == x;
                let q = choose|q: int| 0 <= q < a.len() && a[q] == y;
                assert(!at(a[p], a[q].file, a[q].line));
            }
        }
    }
}

/// Holes, as models.
pub open spec fn models(v: Seq<Hole>) -> Seq<HoleModel> {
    v.map_values(|h: Hole| h@)
}

/// The holes in the order they are shown: by file name, then by line.
pub fn sorted_holes(holes: Holes) -> (r: Vec<Hole>)
    ensures
        sorted_by_site(models(r@)),
        models(r@).to_multiset() == holes@.to_multiset(),
        holes.wf() ==> strictly_sorted(models(r@)),
{
    let mut rest = holes.entries;
    let ghost all = models(rest@);
    let mut out: Vec<Hole> = Vec::new();
    broadcast use group_to_multiset_ensures;
    assert(models(out@).to_multiset() =~= Multiset::<HoleModel>::empty());
    assert(all.to_multiset().add(Multiset::empty()) =~= all.to_multiset());
    while rest.len() > 0
        invariant
            sorted_by_site(models(out@)),
            models(out@).to_multiset().add(models(rest@).to_multiset()) == all.to_multiset(),
        decreases rest.len(),
    {
        let ghost rs = models(rest@);
        let x = rest.remove(0);
        proof {
            assert(models(rest@) =~= rs.remove(0));
            to_multiset_remove(rs, 0);
            assert(rs[0] == x@);
            assert(rs.contains(x@));
            to_multiset_contains(rs, x@);
        }
        let mut j: usize = 0;
        while j < out.len() && !site_less(&x, &out[j])
            invariant
                j <= out@.len(),
                forall|k: int| 0 <= k < j ==> !site_lt(x@, #[trigger] models(out@)[k]),
            decreases out.len() - j,
        {
            j = j + 1;
        }
        let ghost os = models(out@);
        out.insert(j, x);
        proof {
            assert(models(out@) =~= os.insert(j as int, x@));
            to_multiset_insert(os, j as int, x@);
            broadcast use vstd::multiset::group_multiset_axioms;
            assert(models(out@).to_multiset().add(models(rest@).to_multiset()) =~= all.to_multiset());
            let ns = models(out@);
            assert forall|a: int, b: int| 0 <= a < b < ns.len() implies site_le(#[trigger] ns[a], #[trigger] ns[b]) by {
                if b < j {
                    assert(site_le(os[a], os[b]));
                } else if a > j {
                    assert(site_le(os[a - 1], os[b - 1]));
                } else if a == j {
                    if b - 1 == j {
                        lemma_site_total(x@, os[j as int]);
                        assert(site_le(x@, os[j as int]));
                    } else {
                        assert(site_le(os[j as int], os[b - 1]));
                        lemma_site_total(x@, os[j as int]);
                        lemma_site_trans(x@, os[j as int], os[b - 1]);
                    }
                } else {
                    // a < j == b
                    if b == j {
                        lemma_site_total(x@, os[a]);
                    } else {
                        lemma_site_total(x@, os[a]);
                        lemma_site_total(x@, os[j as int]);
                        assert(site_le(os[a], os[b - 1]));
                    }
                }
            }
        }
    }
    proof {
        assert(models(rest@).to_multiset() =~= Multiset::<HoleModel>::empty());
        assert(models(out@).to_multiset().add(Multiset::empty()) =~= models(out@).to_multiset());
        if holes.wf() {
            lemma_rearranged_distinct(all, models(out@));
        }
    }
    out
}

} // verus!
