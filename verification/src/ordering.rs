//! Orderings and stable insertion sorting, as the menus and listings sort their entries.

use vstd::prelude::*;

verus! {

/// Lexicographic order of character sequences (the order of `str::cmp`: UTF-8 bytes
/// compare like the characters they encode).
pub open spec fn lex_le(a: Seq<char>, b: Seq<char>) -> bool
    decreases a.len(),
{
    if a.len() == 0 {
        true
    } else if b.len() == 0 {
        false
    } else if a[0] != b[0] {
        a[0] < b[0]
    } else {
        lex_le(a.drop_first(), b.drop_first())
    }
}

/// `a <= b` for strings.
pub fn chars_le(a: &[char], b: &[char]) -> (r: bool)
    ensures
        r == lex_le(a@, b@),
{
    let mut i: usize = 0;
    assert(a@.skip(0) =~= a@);
    assert(b@.skip(0) =~= b@);
    while i < a.len() && i < b.len() && a[i] == b[i]
        invariant
            i <= a@.len(),
            i <= b@.len(),
            lex_le(a@, b@) == lex_le(a@.skip(i as int), b@.skip(i as int)),
        decreases a@.len() - i,
    {
        assert(a@.skip(i as int)[0] == a@[i as int]);
        assert(b@.skip(i as int)[0] == b@[i as int]);
        assert(a@.skip(i as int).drop_first() =~= a@.skip(i + 1));
        assert(b@.skip(i as int).drop_first() =~= b@.skip(i + 1));
        i = i + 1;
    }
    if i == a.len() {
        true
    } else if i == b.len() {
        false
    } else {
        assert(a@.skip(i as int)[0] == a@[i as int]);
        assert(b@.skip(i as int)[0] == b@[i as int]);
        a[i] < b[i]
    }
}

/// `lex_le` is a total order: total, transitive and antisymmetric.
pub proof fn lemma_lex_le_total(a: Seq<char>, b: Seq<char>)
    ensures
        lex_le(a, b) || lex_le(b, a),
        lex_le(a, b) && lex_le(b, a) ==> a =~= b,
    decreases a.len(),
{
    if a.len() > 0 && b.len() > 0 && a[0] == b[0] {
        lemma_lex_le_total(a.drop_first(), b.drop_first());
        if lex_le(a, b) && lex_le(b, a) {
            assert(a =~= seq![a[0]] + a.drop_first());
            assert(b =~= seq![b[0]] + b.drop_first());
        }
    }
}

/// Transitivity of `lex_le`.
pub proof fn lemma_lex_le_transitive(a: Seq<char>, b: Seq<char>, c: Seq<char>)
    requires
        lex_le(a, b),
        lex_le(b, c),
    ensures
        lex_le(a, c),
    decreases a.len(),
{
    if a.len() > 0 && b.len() > 0 && c.len() > 0 && a[0] == b[0] && b[0] == c[0] {
        lemma_lex_le_transitive(a.drop_first(), b.drop_first(), c.drop_first());
    }
}

/// Inserts `x` into `s` after every element that `le` puts on or before it, scanning
/// from the end (the step of a stable insertion sort).
pub open spec fn insert_by<T>(s: Seq<T>, x: T, le: spec_fn(T, T) -> bool) -> Seq<T>
    decreases s.len(),
{
    if s.len() == 0 || le(s.last(), x) {
        s.push(x)
    } else {
        insert_by(s.drop_last(), x, le).push(s.last())
    }
}

/// Stable insertion sort of `s` by `le`.
pub open spec fn sort_by<T>(s: Seq<T>, le: spec_fn(T, T) -> bool) -> Seq<T>
    decreases s.len(),
{
    if s.len() == 0 {
        s
    } else {
        insert_by(sort_by(s.drop_last(), le), s.last(), le)
    }
}

/// Where `insert_by` puts `x`: after the last element of `s` that `le` puts on or before
/// it, counting back from the end over the elements it does not.
pub open spec fn insert_position<T>(s: Seq<T>, x: T, le: spec_fn(T, T) -> bool) -> int
    decreases s.len(),
{
    if s.len() == 0 || le(s.last(), x) {
        s.len() as int
    } else {
        insert_position(s.drop_last(), x, le)
    }
}

/// `insert_by` places `x` at `insert_position`, keeping the rest in order.
pub proof fn lemma_insert_by<T>(s: Seq<T>, x: T, le: spec_fn(T, T) -> bool)
    ensures
        0 <= insert_position(s, x, le) <= s.len(),
        insert_by(s, x, le) =~= s.take(insert_position(s, x, le)).push(x) + s.skip(
            insert_position(s, x, le),
        ),
        forall|j: int| insert_position(s, x, le) <= j < s.len() ==> !le(#[trigger] s[j], x),
        insert_position(s, x, le) > 0 ==> le(s[insert_position(s, x, le) - 1], x),
    decreases s.len(),
{
    if s.len() > 0 && !le(s.last(), x) {
        let dl = s.drop_last();
        lemma_insert_by(dl, x, le);
        let p = insert_position(dl, x, le);
        assert(s.take(p) =~= dl.take(p));
        assert(s.skip(p) =~= dl.skip(p).push(s.last()));
        assert forall|j: int| p <= j < s.len() implies !le(#[trigger] s[j], x) by {
            if j < s.len() - 1 {
                assert(s[j] == dl[j]);
            }
        }
    } else {
        assert(s.take(s.len() as int) =~= s);
        assert(s.skip(s.len() as int) =~= Seq::<T>::empty());
    }
}

/// Sorting keeps exactly the elements it was given.
pub proof fn lemma_sort_by_permutes<T>(s: Seq<T>, le: spec_fn(T, T) -> bool)
    ensures
        sort_by(s, le).to_multiset() =~= s.to_multiset(),
        sort_by(s, le).len() == s.len(),
    decreases s.len(),
{
    broadcast use vstd::seq_lib::group_to_multiset_ensures;
    if s.len() > 0 {
        let dl = s.drop_last();
        lemma_sort_by_permutes(dl, le);
        let t = sort_by(dl, le);
        lemma_insert_by(t, s.last(), le);
        let p = insert_position(t, s.last(), le);
        assert(t =~= t.take(p) + t.skip(p));
        assert(s =~= dl.push(s.last()));
        vstd::seq_lib::lemma_multiset_commutative(t.take(p).push(s.last()), t.skip(p));
        vstd::seq_lib::lemma_multiset_commutative(t.take(p), t.skip(p));
    }
}

/// Every adjacent pair of `s` is in `le` order.
pub open spec fn sorted_by<T>(s: Seq<T>, le: spec_fn(T, T) -> bool) -> bool {
    forall|i: int, j: int| 0 <= i < j < s.len() ==> le(#[trigger] s[i], #[trigger] s[j])
}

/// When `le` is a total preorder, sorting yields a sequence in `le` order.
pub proof fn lemma_sort_by_sorted<T>(s: Seq<T>, le: spec_fn(T, T) -> bool)
    requires
        forall|a: T, b: T| #[trigger] le(a, b) || le(b, a),
        forall|a: T, b: T, c: T| #[trigger] le(a, b) && #[trigger] le(b, c) ==> le(a, c),
    ensures
        sorted_by(sort_by(s, le), le),
    decreases s.len(),
{
    if s.len() > 0 {
        let dl = s.drop_last();
        let x = s.last();
        lemma_sort_by_sorted(dl, le);
        let t = sort_by(dl, le);
        lemma_insert_by(t, x, le);
        let p = insert_position(t, x, le);
        let r = sort_by(s, le);
        assert(r =~= t.take(p).push(x) + t.skip(p));
        assert forall|i: int, j: int| 0 <= i < j < r.len() implies le(#[trigger] r[i], #[trigger] r[j]) by {
            if j < p {
                assert(r[i] == t[i] && r[j] == t[j]);
            } else if j == p {
                assert(r[j] == x);
                assert(r[i] == t[i]);
                if i < p - 1 {
                    assert(le(t[i], t[p - 1]));
                }
            } else if i < p {
                assert(r[i] == t[i] && r[j] == t[j - 1]);
            } else if i == p {
                assert(r[i] == x && r[j] == t[j - 1]);
                assert(!le(t[j - 1], x));
            } else {
                assert(r[i] == t[i - 1] && r[j] == t[j - 1]);
            }
        }
    }
}

/// Two sequences in the order of a total, antisymmetric `le` that hold the same
/// elements are the same sequence.
pub proof fn lemma_sorted_unique<T>(s: Seq<T>, t: Seq<T>, le: spec_fn(T, T) -> bool)
    requires
        forall|a: T, b: T| #[trigger] le(a, b) && le(b, a) ==> a == b,
        sorted_by(s, le),
        sorted_by(t, le),
        s.to_multiset() == t.to_multiset(),
    ensures
        s == t,
    decreases s.len(),
{
    broadcast use vstd::seq_lib::group_to_multiset_ensures;
    assert(s.len() == s.to_multiset().len());
    assert(t.len() == t.to_multiset().len());
    if s.len() == 0 {
        assert(s =~= t);
    } else {
        let x = s[0];
        let y = t[0];
        assert(s.contains(x));
        assert(s.to_multiset().count(x) > 0);
        assert(t.contains(x));
        let j = choose|j: int| 0 <= j < t.len() && t[j] == x;
        if j > 0 {
            assert(le(t[0], t[j]));
        }
        assert(t.contains(y));
        assert(t.to_multiset().count(y) > 0);
        assert(s.contains(y));
        let i = choose|i: int| 0 <= i < s.len() && s[i] == y;
        if i > 0 {
            assert(le(s[0], s[i]));
        }
        assert(x == y);
        let s1 = s.remove(0);
        let t1 = t.remove(0);
        assert(s1.to_multiset() =~= s.to_multiset().remove(x));
        assert(t1.to_multiset() =~= t.to_multiset().remove(y));
        assert forall|a: int, b: int| 0 <= a < b < s1.len() implies le(#[trigger] s1[a], #[trigger] s1[b]) by {
            assert(s1[a] == s[a + 1] && s1[b] == s[b + 1]);
        }
        assert forall|a: int, b: int| 0 <= a < b < t1.len() implies le(#[trigger] t1[a], #[trigger] t1[b]) by {
            assert(t1[a] == t[a + 1] && t1[b] == t[b + 1]);
        }
        lemma_sorted_unique(s1, t1, le);
        assert(s =~= seq![x] + s1);
        assert(t =~= seq![y] + t1);
    }
}


/// Every element of `s` is in `le` order with the one after it.
pub open spec fn adjacent_sorted_by<T>(s: Seq<T>, le: spec_fn(T, T) -> bool) -> bool {
    forall|i: int| 0 <= i < s.len() - 1 ==> #[trigger] le(s[i], s[i + 1])
}

/// When of any two elements at least one is `le` the other (no transitivity needed),
/// sorting leaves each element in `le` order with its successor.
pub proof fn lemma_sort_by_adjacent<T>(s: Seq<T>, le: spec_fn(T, T) -> bool)
    requires
        forall|a: T, b: T| #[trigger] le(a, b) || le(b, a),
    ensures
        adjacent_sorted_by(sort_by(s, le), le),
    decreases s.len(),
{
    if s.len() > 0 {
        let dl = s.drop_last();
        let x = s.last();
        lemma_sort_by_adjacent(dl, le);
        let t = sort_by(dl, le);
        lemma_insert_by(t, x, le);
        let p = insert_position(t, x, le);
        let r = sort_by(s, le);
        assert(r =~= t.take(p).push(x) + t.skip(p));
        assert forall|i: int| 0 <= i < r.len() - 1 implies #[trigger] le(r[i], r[i + 1]) by {
            if i + 1 < p {
                assert(r[i] == t[i] && r[i + 1] == t[i + 1]);
            } else if i + 1 == p {
                assert(r[i] == t[p - 1] && r[i + 1] == x);
            } else if i == p {
                assert(r[i] == x && r[i + 1] == t[p]);
                assert(!le(t[p], x));
            } else {
                assert(r[i] == t[i - 1] && r[i + 1] == t[i]);
                assert(le(t[i - 1], t[(i - 1) + 1]));
            }
        }
    }
}

} // verus!
