//! A canonical order for the entries of a string map: by key, compared
//! code point by code point. Two maps holding the same entries, stored in
//! whatever order, list them the same way in this order.

use crate::collections::{keys_unique, StringMap};
use vstd::prelude::*;
use vstd::string::*;

verus! {

/// Keys ordered lexicographically by code point; a proper prefix comes
/// first.
pub open spec fn key_lt(a: Seq<char>, b: Seq<char>) -> bool
    decreases a.len(),
{
    if b.len() == 0 {
        false
    } else if a.len() == 0 {
        true
    } else if a[0] != b[0] {
        (a[0] as u32) < (b[0] as u32)
    } else {
        key_lt(a.drop_first(), b.drop_first())
    }
}

proof fn lemma_key_lt_irreflexive(a: Seq<char>)
    ensures
        !key_lt(a, a),
    decreases a.len(),
{
    if a.len() > 0 {
        lemma_key_lt_irreflexive(a.drop_first());
    }
}

proof fn lemma_key_lt_transitive(a: Seq<char>, b: Seq<char>, c: Seq<char>)
    requires
        key_lt(a, b),
        key_lt(b, c),
    ensures
        key_lt(a, c),
    decreases a.len(),
{
    if a.len() > 0 && b.len() > 0 && c.len() > 0 && a[0] == b[0] && b[0] == c[0] {
        lemma_key_lt_transitive(a.drop_first(), b.drop_first(), c.drop_first());
    }
}

proof fn lemma_key_lt_total(a: Seq<char>, b: Seq<char>)
    requires
        a != b,
    ensures
        key_lt(a, b) || key_lt(b, a),
    decreases a.len(),
{
    if a.len() > 0 && b.len() > 0 && a[0] != b[0] {
        vstd::utf8::char_u32_cast(a[0], a[0] as u32);
        vstd::utf8::char_u32_cast(b[0], b[0] as u32);
    }
    if a.len() > 0 && b.len() > 0 && a[0] == b[0] {
        if a.drop_first() == b.drop_first() {
            assert(a.drop_first().len() == a.len() - 1);
            assert(b.drop_first().len() == b.len() - 1);
            assert(a.len() == b.len());
            assert(a =~= b) by {
                assert forall|i: int| 0 <= i < a.len() implies a[i] == b[i] by {
                    if i > 0 {
                        assert(a[i] == a.drop_first()[i - 1]);
                        assert(b[i] == b.drop_first()[i - 1]);
                    }
                }
            }
        } else {
            lemma_key_lt_total(a.drop_first(), b.drop_first());
        }
    } else if a.len() == 0 && b.len() == 0 {
        assert(a =~= b);
    }
}

/// Entries whose keys strictly increase in key order.
pub open spec fn keys_sorted(s: Seq<(Seq<char>, Seq<char>)>) -> bool {
    forall|i: int, j: int| 0 <= i < j < s.len() ==> key_lt(#[trigger] s[i].0, #[trigger] s[j].0)
}

/// `s` with `x` placed after the entries whose keys do not come after its
/// key.
pub open spec fn insert_sorted(s: Seq<(Seq<char>, Seq<char>)>, x: (Seq<char>, Seq<char>)) -> Seq<
    (Seq<char>, Seq<char>),
>
    decreases s.len(),
{
    if s.len() == 0 || !key_lt(x.0, s.last().0) {
        s.push(x)
    } else {
        insert_sorted(s.drop_last(), x).push(s.last())
    }
}

/// The entries of `e` in key order.
pub open spec fn sort_entries(e: Seq<(Seq<char>, Seq<char>)>) -> Seq<(Seq<char>, Seq<char>)>
    decreases e.len(),
{
    if e.len() == 0 {
        e
    } else {
        insert_sorted(sort_entries(e.drop_last()), e.last())
    }
}

proof fn lemma_insert_sorted(s: Seq<(Seq<char>, Seq<char>)>, x: (Seq<char>, Seq<char>))
    ensures
        insert_sorted(s, x).len() == s.len() + 1,
        forall|y: (Seq<char>, Seq<char>)| #[trigger] insert_sorted(s, x).contains(y) <==> (s.contains(y) || y == x),
        keys_sorted(s) && (forall|i: int| 0 <= i < s.len() ==> #[trigger] s[i].0 != x.0) ==> keys_sorted(
            insert_sorted(s, x),
        ),
    decreases s.len(),
{
    let r = insert_sorted(s, x);
    if s.len() == 0 || !key_lt(x.0, s.last().0) {
        assert forall|y: (Seq<char>, Seq<char>)| r.contains(y) <==> (s.contains(y) || y == x) by {
            if r.contains(y) {
                let w = choose|w: int| 0 <= w < r.len() && r[w] == y;
                if w < s.len() {
                    assert(s[w] == y);
                }
            }
            if s.contains(y) {
                let w = choose|w: int| 0 <= w < s.len() && s[w] == y;
                assert(r[w] == y);
            }
            if y == x {
                assert(r[s.len() as int] == y);
            }
        }
        if keys_sorted(s) && (forall|i: int| 0 <= i < s.len() ==> #[trigger] s[i].0 != x.0) {
            if s.len() > 0 {
                let l = s.len() - 1;
                assert(s[l].0 != x.0);
                lemma_key_lt_total(s[l].0, x.0);
                assert forall|i: int, j: int| 0 <= i < j < r.len() implies key_lt(#[trigger] r[i].0, #[trigger] r[j].0) by {
                    if j == s.len() {
                        if i < l {
                            lemma_key_lt_transitive(s[i].0, s[l].0, x.0);
                        }
                    } else {
                        assert(r[i] == s[i] && r[j] == s[j]);
                    }
                }
            }
        }
    } else {
        let rest = s.drop_last();
        let l = s.last();
        lemma_insert_sorted(rest, x);
        let inner = insert_sorted(rest, x);
        assert forall|y: (Seq<char>, Seq<char>)| r.contains(y) <==> (s.contains(y) || y == x) by {
            if r.contains(y) {
                let w = choose|w: int| 0 <= w < r.len() && r[w] == y;
                if w < inner.len() {
                    assert(inner[w] == y);
                    assert(inner.contains(y));
                    if rest.contains(y) {
                        let v = choose|v: int| 0 <= v < rest.len() && rest[v] == y;
                        assert(s[v] == y);
                    }
                } else {
                    assert(s[s.len() - 1] == y);
                }
            }
            if s.contains(y) {
                let w = choose|w: int| 0 <= w < s.len() && s[w] == y;
                if w < s.len() - 1 {
                    assert(rest[w] == y);
                    assert(inner.contains(y));
                    let v = choose|v: int| 0 <= v < inner.len() && inner[v] == y;
                    assert(r[v] == y);
                } else {
                    assert(r[r.len() - 1] == y);
                }
            }
            if y == x {
                assert(inner.contains(y));
                let v = choose|v: int| 0 <= v < inner.len() && inner[v] == y;
                assert(r[v] == y);
            }
        }
        if keys_sorted(s) && (forall|i: int| 0 <= i < s.len() ==> #[trigger] s[i].0 != x.0) {
            assert(keys_sorted(rest)) by {
                assert forall|i: int, j: int| 0 <= i < j < rest.len() implies key_lt(#[trigger] rest[i].0, #[trigger] rest[j].0) by {
                    assert(rest[i] == s[i] && rest[j] == s[j]);
                }
            }
            assert forall|i: int| 0 <= i < rest.len() implies #[trigger] rest[i].0 != x.0 by {
                assert(rest[i] == s[i]);
            }
            assert forall|i: int, j: int| 0 <= i < j < r.len() implies key_lt(#[trigger] r[i].0, #[trigger] r[j].0) by {
                if j == r.len() - 1 {
                    assert(r[j] == l);
                    assert(r[i] == inner[i]);
                    assert(inner.contains(inner[i]));
                    if inner[i] == x {
                    } else {
                        assert(rest.contains(inner[i]));
                        let v = choose|v: int| 0 <= v < rest.len() && rest[v] == inner[i];
                        assert(s[v] == inner[i]);
                        assert(key_lt(s[v].0, s[s.len() - 1].0));
                    }
                } else {
                    assert(r[i] == inner[i] && r[j] == inner[j]);
                }
            }
        }
    }
}

/// Sorting keeps the entries and their number, and lists entries with
/// distinct keys in strictly increasing key order.
pub proof fn lemma_sort_entries(e: Seq<(Seq<char>, Seq<char>)>)
    ensures
        sort_entries(e).len() == e.len(),
        forall|y: (Seq<char>, Seq<char>)| #[trigger] sort_entries(e).contains(y) <==> e.contains(y),
        keys_unique(e) ==> keys_sorted(sort_entries(e)),
    decreases e.len(),
{
    if e.len() > 0 {
        let rest = e.drop_last();
        let x = e.last();
        lemma_sort_entries(rest);
        let s = sort_entries(rest);
        lemma_insert_sorted(s, x);
        assert forall|y: (Seq<char>, Seq<char>)| sort_entries(e).contains(y) <==> e.contains(y) by {
            if rest.contains(y) {
                let v = choose|v: int| 0 <= v < rest.len() && rest[v] == y;
                assert(e[v] == y);
            }
            if e.contains(y) {
                let v = choose|v: int| 0 <= v < e.len() && e[v] == y;
                if v < e.len() - 1 {
                    assert(rest[v] == y);
                }
            }
            if y == x {
                assert(e[e.len() - 1] == y);
            }
        }
        if keys_unique(e) {
            assert(keys_unique(rest)) by {
                assert forall|i: int, j: int| 0 <= i < j < rest.len() implies #[trigger] rest[i].0 != #[trigger] rest[j].0 by {
                    assert(rest[i] == e[i] && rest[j] == e[j]);
                }
            }
            assert forall|i: int| 0 <= i < s.len() implies #[trigger] s[i].0 != x.0 by {
                assert(s.contains(s[i]));
                assert(rest.contains(s[i]));
                let v = choose|v: int| 0 <= v < rest.len() && rest[v] == s[i];
                assert(e[v] == s[i]);
                assert(e[v].0 != e[e.len() - 1].0);
            }
        }
    }
}

/// Two key-sorted sequences holding the same entries are equal.
proof fn lemma_sorted_unique(a: Seq<(Seq<char>, Seq<char>)>, b: Seq<(Seq<char>, Seq<char>)>)
    requires
        keys_sorted(a),
        keys_sorted(b),
        forall|y: (Seq<char>, Seq<char>)| a.contains(y) <==> b.contains(y),
    ensures
        a == b,
    decreases a.len() + b.len(),
{
    if a.len() == 0 {
        if b.len() > 0 {
            assert(b.contains(b[0]));
        }
        assert(a =~= b);
    } else if b.len() == 0 {
        assert(a.contains(a[0]));
    } else {
        let la = a.len() - 1;
        let lb = b.len() - 1;
        assert(a.contains(a[la]));
        assert(b.contains(b[lb]));
        let j = choose|j: int| 0 <= j < b.len() && b[j] == a[la];
        let i = choose|i: int| 0 <= i < a.len() && a[i] == b[lb];
        if j < lb {
            assert(key_lt(b[j].0, b[lb].0));
            if i < la {
                assert(key_lt(a[i].0, a[la].0));
                lemma_key_lt_transitive(a[la].0, a[i].0, a[la].0);
            }
            lemma_key_lt_irreflexive(a[la].0);
        }
        assert(a[la] == b[lb]);
        let ra = a.drop_last();
        let rb = b.drop_last();
        assert forall|i: int, j: int| 0 <= i < j < ra.len() implies key_lt(#[trigger] ra[i].0, #[trigger] ra[j].0) by {
            assert(ra[i] == a[i] && ra[j] == a[j]);
        }
        assert forall|i: int, j: int| 0 <= i < j < rb.len() implies key_lt(#[trigger] rb[i].0, #[trigger] rb[j].0) by {
            assert(rb[i] == b[i] && rb[j] == b[j]);
        }
        assert forall|y: (Seq<char>, Seq<char>)| ra.contains(y) <==> rb.contains(y) by {
            if ra.contains(y) {
                let v = choose|v: int| 0 <= v < ra.len() && ra[v] == y;
                assert(a[v] == y);
                assert(a.contains(y));
                let w = choose|w: int| 0 <= w < b.len() && b[w] == y;
                if w == lb {
                    assert(key_lt(a[v].0, a[la].0));
                    lemma_key_lt_irreflexive(y.0);
                }
                assert(rb[w] == y);
            }
            if rb.contains(y) {
                let v = choose|v: int| 0 <= v < rb.len() && rb[v] == y;
                assert(b[v] == y);
                assert(b.contains(y));
                let w = choose|w: int| 0 <= w < a.len() && a[w] == y;
                if w == la {
                    assert(key_lt(b[v].0, b[lb].0));
                    lemma_key_lt_irreflexive(y.0);
                }
                assert(ra[w] == y);
            }
        }
        lemma_sorted_unique(ra, rb);
        assert(a =~= ra.push(a[la]));
        assert(b =~= rb.push(b[lb]));
    }
}

/// Two maps holding the same entries, each key once, list them the same
/// way in key order, whatever order they store them in.
pub proof fn lemma_sort_ignores_order(a: Seq<(Seq<char>, Seq<char>)>, b: Seq<(Seq<char>, Seq<char>)>)
    requires
        keys_unique(a),
        keys_unique(b),
        forall|y: (Seq<char>, Seq<char>)| a.contains(y) <==> b.contains(y),
    ensures
        sort_entries(a) == sort_entries(b),
        a.len() == b.len(),
{
    lemma_sort_entries(a);
    lemma_sort_entries(b);
    lemma_sorted_unique(sort_entries(a), sort_entries(b));
}

/// Whether `a` comes before `b` in key order.
pub fn key_less(a: &String, b: &String) -> (r: bool)
    ensures
        r == key_lt(a@, b@),
{
    let n = a.as_str().unicode_len();
    let m = b.as_str().unicode_len();
    let mut i: usize = 0;
    assert(a@.skip(0) =~= a@);
    assert(b@.skip(0) =~= b@);
    while i < n && i < m
        invariant
            i <= n,
            i <= m,
            n == a@.len(),
            m == b@.len(),
            key_lt(a@, b@) == key_lt(a@.skip(i as int), b@.skip(i as int)),
        decreases n - i,
    {
        let ca = a.as_str().get_char(i);
        let cb = b.as_str().get_char(i);
        assert(a@.skip(i as int)[0] == ca);
        assert(b@.skip(i as int)[0] == cb);
        if ca != cb {
            return (ca as u32) < (cb as u32);
        }
        assert(a@.skip(i as int).drop_first() =~= a@.skip(i as int + 1));
        assert(b@.skip(i as int).drop_first() =~= b@.skip(i as int + 1));
        i = i + 1;
    }
    i < m
}

/// The entries of `e` at the positions `ix`, in that order.
pub open spec fn pick(e: Seq<(Seq<char>, Seq<char>)>, ix: Seq<usize>) -> Seq<(Seq<char>, Seq<char>)> {
    ix.map_values(|i: usize| e[i as int])
}

/// The positions of the entries of `m` in key order.
pub fn sorted_positions(m: &StringMap) -> (ix: Vec<usize>)
    ensures
        ix@.len() == m@.len(),
        forall|t: int| 0 <= t < ix@.len() ==> #[trigger] ix@[t] < m@.len(),
        pick(m@, ix@) == sort_entries(m@),
{
    let n = m.len();
    let mut ix: Vec<usize> = Vec::new();
    let mut k: usize = 0;
    while k < n
        invariant
            k <= n,
            n == m@.len(),
            ix@.len() == k,
            forall|t: int| 0 <= t < ix@.len() ==> #[trigger] ix@[t] < k,
            pick(m@, ix@) == sort_entries(m@.take(k as int)),
        decreases n - k,
    {
        let ghost s = pick(m@, ix@);
        let ghost x = m@[k as int];
        let mut j: usize = ix.len();
        assert(s.take(j as int) =~= s);
        assert(s.skip(j as int) =~= Seq::<(Seq<char>, Seq<char>)>::empty());
        assert(insert_sorted(s, x) + s.skip(j as int) =~= insert_sorted(s, x));
        loop
            invariant
                j <= ix@.len(),
                ix@.len() == k,
                k < n,
                n == m@.len(),
                s == pick(m@, ix@),
                x == m@[k as int],
                forall|t: int| 0 <= t < ix@.len() ==> #[trigger] ix@[t] < k,
                insert_sorted(s, x) == insert_sorted(s.take(j as int), x) + s.skip(j as int),
            ensures
                j <= ix@.len(),
                insert_sorted(s, x) == s.take(j as int).push(x) + s.skip(j as int),
            decreases j,
        {
            if j == 0 {
                assert(insert_sorted(s.take(0), x) == s.take(0).push(x));
                break;
            }
            assert(s[j - 1] == m@[ix@[j - 1] as int]);
            let smaller = key_less(m.key_at(k), m.key_at(ix[j - 1]));
            let ghost t = s.take(j as int);
            assert(t.last() == s[j - 1]);
            assert(t.drop_last() =~= s.take(j - 1));
            if smaller {
                assert(insert_sorted(t, x) == insert_sorted(s.take(j - 1), x).push(s[j - 1]));
                assert(insert_sorted(s.take(j - 1), x).push(s[j - 1]) + s.skip(j as int) =~= insert_sorted(
                    s.take(j - 1),
                    x,
                ) + s.skip(j - 1));
                j = j - 1;
            } else {
                assert(insert_sorted(t, x) == t.push(x));
                break;
            }
        }
        ix.insert(j, k);
        proof {
            assert(pick(m@, ix@) =~= s.take(j as int).push(x) + s.skip(j as int));
            let t1 = m@.take(k + 1);
            assert(t1.drop_last() =~= m@.take(k as int));
            assert(t1.last() == x);
        }
        k = k + 1;
    }
    assert(m@.take(n as int) =~= m@);
    ix
}

} // verus!
