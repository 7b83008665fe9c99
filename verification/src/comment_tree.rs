//! The comments of a menu as a forest: a reply hangs under its parent, a comment whose
//! parent is gone becomes a root (an orphan is rescued), and the roots are paged.

use vstd::prelude::*;

verus! {

/// Whether `id` is the id of one of the comments.
pub open spec fn has_id(ids: Seq<u128>, id: u128) -> bool {
    exists|k: int| 0 <= k < ids.len() && ids[k] == id
}

/// A comment is a root when it has no parent or its parent is not among the comments.
pub open spec fn is_root(ids: Seq<u128>, parents: Seq<Option<u128>>, k: int) -> bool {
    match parents[k] {
        Some(p) => !has_id(ids, p),
        None => true,
    }
}

/// The places of the roots among the first `n` comments, in order.
pub open spec fn roots_upto(ids: Seq<u128>, parents: Seq<Option<u128>>, n: int) -> Seq<int>
    decreases n,
{
    if n <= 0 {
        Seq::empty()
    } else {
        let p = roots_upto(ids, parents, n - 1);
        if is_root(ids, parents, n - 1) { p.push(n - 1) } else { p }
    }
}

/// The places of the replies to the `i`-th comment among the first `n`, in order.
pub open spec fn children_upto(ids: Seq<u128>, parents: Seq<Option<u128>>, i: int, n: int) -> Seq<int>
    decreases n,
{
    if n <= 0 {
        Seq::empty()
    } else {
        let p = children_upto(ids, parents, i, n - 1);
        if parents[n - 1] == Some(ids[i]) { p.push(n - 1) } else { p }
    }
}

/// The page size of a comment thread: 100 unless asked, at most 500.
pub open spec fn page_limit(limit: Option<u64>) -> int {
    match limit {
        Some(l) => if l < 500 { l as int } else { 500 },
        None => 100,
    }
}

/// The roots `offset .. offset + limit` (none when the offset is past them).
pub open spec fn page_of(roots: Seq<int>, limit: Option<u64>, offset: Option<u64>) -> Seq<int> {
    let off = match offset { Some(o) => o as int, None => 0 };
    if off < roots.len() {
        let end = if off + page_limit(limit) < roots.len() { off + page_limit(limit) } else { roots.len() as int };
        roots.subrange(off, end)
    } else {
        Seq::empty()
    }
}

/// The shape of a comment thread: the roots on the page, and the replies of each comment
/// (all by their places in the chronological list).
pub struct CommentForest {
    pub roots: Vec<usize>,
    pub children: Vec<Vec<usize>>,
}

fn index_of_id(ids: &Vec<u128>, id: u128) -> (r: bool)
    ensures
        r == has_id(ids@, id),
{
    let mut i: usize = 0;
    while i < ids.len()
        invariant
            i <= ids@.len(),
            forall|k: int| 0 <= k < i ==> ids@[k] != id,
        decreases ids@.len() - i,
    {
        if ids[i] == id {
            return true;
        }
        i = i + 1;
    }
    false
}

/// Views of a list of places.
pub open spec fn places(v: Seq<usize>) -> Seq<int> {
    v.map_values(|i: usize| i as int)
}

/// Arranges the comments of a menu (ids and parents, oldest first, ids distinct) into
/// the roots of the requested page and the replies of every comment, each list in
/// chronological order.
pub fn comment_forest(ids: &Vec<u128>, parents: &Vec<Option<u128>>, limit: Option<u64>, offset: Option<u64>) -> (r: CommentForest)
    requires
        ids@.len() == parents@.len(),
    ensures
        places(r.roots@) == page_of(roots_upto(ids@, parents@, ids@.len() as int), limit, offset),
        r.children@.len() == ids@.len(),
        forall|i: int| 0 <= i < ids@.len() ==> places(#[trigger] r.children@[i]@) == children_upto(ids@, parents@, i, ids@.len() as int),
{
    let n = ids.len();
    let mut roots: Vec<usize> = Vec::new();
    let mut k: usize = 0;
    assert(places(roots@) =~= Seq::<int>::empty());
    while k < n
        invariant
            k <= n == ids@.len() == parents@.len(),
            places(roots@) == roots_upto(ids@, parents@, k as int),
            forall|j: int| 0 <= j < roots@.len() ==> roots@[j] < k,
        decreases n - k,
    {
        let root = match parents[k] {
            Some(p) => !index_of_id(ids, p),
            None => true,
        };
        if root {
            let ghost before = places(roots@);
            roots.push(k);
            assert(places(roots@) =~= before.push(k as int));
        }
        k = k + 1;
    }
    let mut children: Vec<Vec<usize>> = Vec::new();
    let mut i: usize = 0;
    while i < n
        invariant
            i <= n == ids@.len() == parents@.len(),
            children@.len() == i,
            forall|j: int| 0 <= j < i ==> places(#[trigger] children@[j]@) == children_upto(ids@, parents@, j, n as int),
        decreases n - i,
    {
        let mut ch: Vec<usize> = Vec::new();
        let mut k: usize = 0;
        assert(places(ch@) =~= Seq::<int>::empty());
        while k < n
            invariant
                i < n == ids@.len() == parents@.len(),
                k <= n,
                places(ch@) == children_upto(ids@, parents@, i as int, k as int),
            decreases n - k,
        {
            let is_child = match parents[k] {
                Some(p) => p == ids[i],
                None => false,
            };
            if is_child {
                let ghost before = places(ch@);
                ch.push(k);
                assert(places(ch@) =~= before.push(k as int));
            }
            k = k + 1;
        }
        children.push(ch);
        i = i + 1;
    }
    let total = roots.len();
    let lim: u64 = match limit {
        Some(l) => if l < 500 { l } else { 500 },
        None => 100,
    };
    let off: u64 = match offset {
        Some(o) => o,
        None => 0,
    };
    let mut page: Vec<usize> = Vec::new();
    if (off as u128) < (total as u128) {
        let start = off as usize;
        let end: usize = if (off as u128) + (lim as u128) < (total as u128) { start + lim as usize } else { total };
        let mut j = start;
        while j < end
            invariant
                start <= j <= end <= roots@.len(),
                places(page@) == places(roots@).subrange(start as int, j as int),
            decreases end - j,
        {
            let ghost before = places(page@);
            page.push(roots[j]);
            assert(places(page@) =~= before.push(roots@[j as int] as int));
            assert(places(roots@)[j as int] == roots@[j as int] as int);
            assert(places(page@) =~= places(roots@).subrange(start as int, j + 1));
            j = j + 1;
        }
    } else {
        assert(places(page@) =~= Seq::<int>::empty());
    }
    CommentForest { roots: page, children }
}

/// The roots are exactly the comments without a parent among the comments.
pub proof fn lemma_roots_exact(ids: Seq<u128>, parents: Seq<Option<u128>>, n: int, k: int)
    requires
        0 <= n <= parents.len(),
    ensures
        roots_upto(ids, parents, n).contains(k) <==> (0 <= k < n && is_root(ids, parents, k)),
    decreases n,
{
    if n > 0 {
        lemma_roots_exact(ids, parents, n - 1, k);
        let p = roots_upto(ids, parents, n - 1);
        if is_root(ids, parents, n - 1) {
            lemma_push_contains(p, n - 1, k);
        }
    }
}

/// The replies listed under the `i`-th comment are exactly the comments naming it as
/// their parent.
pub proof fn lemma_children_exact(ids: Seq<u128>, parents: Seq<Option<u128>>, i: int, n: int, k: int)
    requires
        0 <= i < ids.len(),
        0 <= n <= parents.len(),
    ensures
        children_upto(ids, parents, i, n).contains(k) <==> (0 <= k < n && parents[k] == Some(ids[i])),
    decreases n,
{
    if n > 0 {
        lemma_children_exact(ids, parents, i, n - 1, k);
        let p = children_upto(ids, parents, i, n - 1);
        if parents[n - 1] == Some(ids[i]) {
            lemma_push_contains(p, n - 1, k);
        }
    }
}

proof fn lemma_push_contains(s: Seq<int>, x: int, v: int)
    ensures
        s.push(x).contains(v) <==> (s.contains(v) || x == v),
{
    if s.push(x).contains(v) {
        let j = choose|j: int| 0 <= j < s.push(x).len() && s.push(x)[j] == v;
        if j < s.len() {
            assert(s[j] == v);
        }
    }
    if s.contains(v) {
        let j = choose|j: int| 0 <= j < s.len() && s[j] == v;
        assert(s.push(x)[j] == v);
    }
    if x == v {
        assert(s.push(x)[s.len() as int] == v);
    }
}

/// No comment is lost: each one is a root (orphans included) or is listed under the
/// comment it replies to.
pub proof fn lemma_every_comment_placed(ids: Seq<u128>, parents: Seq<Option<u128>>, k: int)
    requires
        ids.len() == parents.len(),
        0 <= k < ids.len(),
    ensures
        roots_upto(ids, parents, ids.len() as int).contains(k)
            || exists|i: int| 0 <= i < ids.len() && #[trigger] children_upto(ids, parents, i, ids.len() as int).contains(k),
{
    lemma_roots_exact(ids, parents, ids.len() as int, k);
    if !is_root(ids, parents, k) {
        let p = parents[k]->0;
        let i = choose|i: int| 0 <= i < ids.len() && ids[i] == p;
        lemma_children_exact(ids, parents, i, ids.len() as int, k);
    }
}

} // verus!
