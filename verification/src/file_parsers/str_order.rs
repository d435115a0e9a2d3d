//! The lexicographic order of texts, by character code.
use vstd::prelude::*;
use vstd::string::*;
use crate::file_parsers::str_views;

verus! {

/// Whether `a` comes before `b` when both are compared from position `i` on: at the first
/// position where they differ the character of `a` is smaller, or `a` ends there first.
pub open spec fn str_lt_from(a: Seq<char>, b: Seq<char>, i: int) -> bool
    decreases a.len() - i,
{
    if i >= a.len() {
        i < b.len()
    } else if i >= b.len() {
        false
    } else if a[i] != b[i] {
        (a[i] as u32) < (b[i] as u32)
    } else {
        str_lt_from(a, b, i + 1)
    }
}

/// Whether `a` comes before `b` in lexicographic order.
pub open spec fn str_lt(a: Seq<char>, b: Seq<char>) -> bool {
    str_lt_from(a, b, 0)
}

/// Whether the texts of `s` are in strictly increasing order.
pub open spec fn strictly_sorted(s: Seq<Seq<char>>) -> bool {
    forall|i: int, j: int| 0 <= i < j < s.len() ==> str_lt(#[trigger] s[i], #[trigger] s[j])
}

/// No text comes before itself.
pub proof fn lemma_str_lt_irreflexive(a: Seq<char>, i: int)
    ensures
        !str_lt_from(a, a, i),
    decreases a.len() - i,
{
    if i < a.len() {
        lemma_str_lt_irreflexive(a, i + 1);
    }
}

/// The order is transitive.
pub proof fn lemma_str_lt_transitive(a: Seq<char>, b: Seq<char>, c: Seq<char>, i: int)
    requires
        str_lt_from(a, b, i),
        str_lt_from(b, c, i),
    ensures
        str_lt_from(a, c, i),
    decreases a.len() - i,
{
    if i < a.len() && i < b.len() && i < c.len() && a[i] == b[i] && b[i] == c[i] {
        lemma_str_lt_transitive(a, b, c, i + 1);
    }
}

/// Two different texts that agree before position `i` are ordered one way or the other.
pub proof fn lemma_str_lt_total(a: Seq<char>, b: Seq<char>, i: int)
    requires
        0 <= i <= a.len(),
        i <= b.len(),
        a.take(i) == b.take(i),
        a != b,
    ensures
        str_lt_from(a, b, i) || str_lt_from(b, a, i),
    decreases a.len() - i,
{
    if i >= a.len() {
        if b.len() == i {
            assert(a =~= a.take(i));
            assert(b =~= b.take(i));
        }
    } else if i < b.len() && a[i] != b[i] {
        vstd::utf8::char_u32_cast(a[i], a[i] as u32);
        vstd::utf8::char_u32_cast(b[i], b[i] as u32);
    } else if i < b.len() && a[i] == b[i] {
        assert(a.take(i + 1) =~= a.take(i).push(a[i]));
        assert(b.take(i + 1) =~= b.take(i).push(b[i]));
        lemma_str_lt_total(a, b, i + 1);
    }
}

/// Whether `a` comes before `b` in lexicographic order.
pub fn str_less(a: &str, b: &str) -> (r: bool)
    ensures
        r == str_lt(a@, b@),
{
    let na = a.unicode_len();
    let nb = b.unicode_len();
    let mut i: usize = 0;
    while i < na && i < nb
        invariant
            na == a@.len(),
            nb == b@.len(),
            i <= na && i <= nb,
            str_lt(a@, b@) == str_lt_from(a@, b@, i as int),
        decreases na - i,
    {
        let ca = a.get_char(i);
        let cb = b.get_char(i);
        if ca != cb {
            return (ca as u32) < (cb as u32);
        }
        i += 1;
    }
    i == na && i < nb
}

/// Insert `x` into the strictly sorted list `v` unless it already holds it.
pub fn insert_sorted(v: &mut Vec<&'static str>, x: &'static str)
    requires
        strictly_sorted(str_views(old(v)@)),
    ensures
        strictly_sorted(str_views(final(v)@)),
        forall|y: Seq<char>| #[trigger] str_views(final(v)@).contains(y)
            <==> (str_views(old(v)@).contains(y) || y == x@),
{
    let ghost old_views = str_views(v@);
    let mut j: usize = 0;
    while j < v.len() && str_less(v[j], x)
        invariant
            str_views(v@) == old_views,
            j <= v@.len(),
            forall|k: int| 0 <= k < j ==> str_lt(#[trigger] old_views[k], x@),
        decreases v.len() - j,
    {
        j += 1;
    }
    if j < v.len() && crate::file_parsers::str_eq(v[j], x) {
        proof {
            assert forall|y: Seq<char>| old_views.contains(y) || y == x@ implies old_views.contains(y) by {
                if y == x@ {
                    assert(old_views[j as int] == y);
                }
            }
        }
        return;
    }
    proof {
        if j < v@.len() {
            assert(old_views[j as int] != x@);
            assert(!str_lt(old_views[j as int], x@));
            assert(old_views[j as int].take(0) =~= x@.take(0));
            lemma_str_lt_total(old_views[j as int], x@, 0);
        }
    }
    v.insert(j, x);
    proof {
        let nv = str_views(v@);
        assert(nv =~= old_views.insert(j as int, x@));
        assert forall|p: int, q: int| 0 <= p < q < nv.len() implies str_lt(#[trigger] nv[p], #[trigger] nv[q]) by {
            if q < j {
            } else if q == j {
            } else if p < j {
                assert(str_lt(old_views[p], old_views[q - 1]));
            } else if p == j {
                if q - 1 > j {
                    lemma_str_lt_transitive(x@, old_views[j as int], old_views[q - 1], 0);
                }
            } else {
                assert(str_lt(old_views[p - 1], old_views[q - 1]));
            }
        }
        assert forall|y: Seq<char>| nv.contains(y) <==> (old_views.contains(y) || y == x@) by {
            if nv.contains(y) {
                let k = choose|k: int| 0 <= k < nv.len() && nv[k] == y;
                if k < j {
                    assert(old_views[k] == y);
                } else if k > j {
                    assert(old_views[k - 1] == y);
                }
            }
            if old_views.contains(y) {
                let k = choose|k: int| 0 <= k < old_views.len() && old_views[k] == y;
                if k < j {
                    assert(nv[k] == y);
                } else {
                    assert(nv[k + 1] == y);
                }
            }
            if y == x@ {
                assert(nv[j as int] == y);
            }
        }
    }
}

} // verus!
