//! A user's favourite and pinned dishes: toggles that keep the two lists in step, and
//! the dishes the dashboard shows.

use vstd::prelude::*;

verus! {

/// `s` without any `d`.
pub open spec fn without(s: Seq<i32>, d: i32) -> Seq<i32>
    decreases s.len(),
{
    if s.len() == 0 {
        s
    } else if s.last() == d {
        without(s.drop_last(), d)
    } else {
        without(s.drop_last(), d).push(s.last())
    }
}

proof fn lemma_without_contains(s: Seq<i32>, d: i32, x: i32)
    ensures
        without(s, d).contains(x) <==> (s.contains(x) && x != d),
    decreases s.len(),
{
    if s.len() > 0 {
        lemma_without_contains(s.drop_last(), d, x);
        let p = without(s.drop_last(), d);
        assert(s =~= s.drop_last().push(s.last()));
        lemma_contains_push(s.drop_last(), s.last(), x);
        lemma_contains_push(p, s.last(), x);
    }
}

proof fn lemma_contains_push(s: Seq<i32>, y: i32, x: i32)
    ensures
        s.push(y).contains(x) <==> (s.contains(x) || y == x),
{
    if s.push(y).contains(x) {
        let j = choose|j: int| 0 <= j < s.push(y).len() && s.push(y)[j] == x;
        if j < s.len() {
            assert(s[j] == x);
        }
    }
    if s.contains(x) {
        let j = choose|j: int| 0 <= j < s.len() && s[j] == x;
        assert(s.push(y)[j] == x);
    }
    if y == x {
        assert(s.push(y)[s.len() as int] == x);
    }
}

fn remove_all(v: &Vec<i32>, d: i32) -> (r: Vec<i32>)
    ensures
        r@ == without(v@, d),
{
    let mut out: Vec<i32> = Vec::new();
    let mut i: usize = 0;
    assert(v@.take(0) =~= Seq::<i32>::empty());
    while i < v.len()
        invariant
            i <= v@.len(),
            out@ == without(v@.take(i as int), d),
        decreases v@.len() - i,
    {
        proof {
            assert(v@.take(i + 1).drop_last() =~= v@.take(i as int));
            assert(v@.take(i + 1).last() == v@[i as int]);
        }
        if v[i] != d {
            out.push(v[i]);
        }
        i = i + 1;
    }
    assert(v@.take(v@.len() as int) =~= v@);
    out
}

fn contains_i32(v: &Vec<i32>, d: i32) -> (r: bool)
    ensures
        r == v@.contains(d),
{
    let mut i: usize = 0;
    while i < v.len()
        invariant
            i <= v@.len(),
            forall|k: int| 0 <= k < i ==> v@[k] != d,
        decreases v@.len() - i,
    {
        if v[i] == d {
            return true;
        }
        i = i + 1;
    }
    false
}

/// A user's favourite dishes and the dishes pinned to his profile.
pub struct Favorites {
    pub favorites: Vec<i32>,
    pub pinned: Vec<i32>,
}

/// The lists after a click on a dish's favourite mark: a favourite stops being one and
/// is unpinned; another dish becomes a favourite and is pinned unless it already was.
pub open spec fn spec_toggle_favorite(favs: Seq<i32>, pins: Seq<i32>, d: i32) -> (Seq<i32>, Seq<i32>) {
    if favs.contains(d) {
        (without(favs, d), without(pins, d))
    } else {
        (favs.push(d), if pins.contains(d) { pins } else { pins.push(d) })
    }
}

/// The pinned list after a click on a dish's pin.
pub open spec fn spec_toggle_pinned(pins: Seq<i32>, d: i32) -> Seq<i32> {
    if pins.contains(d) { without(pins, d) } else { pins.push(d) }
}

impl Favorites {
    /// A click on a dish's favourite mark; returns whether the dish is now a favourite.
    pub fn toggle_favorite(&mut self, d: i32) -> (r: bool)
        ensures
            (final(self).favorites@, final(self).pinned@) == spec_toggle_favorite(old(self).favorites@, old(self).pinned@, d),
            r == !old(self).favorites@.contains(d),
    {
        if contains_i32(&self.favorites, d) {
            self.favorites = remove_all(&self.favorites, d);
            self.pinned = remove_all(&self.pinned, d);
            false
        } else {
            self.favorites.push(d);
            if !contains_i32(&self.pinned, d) {
                self.pinned.push(d);
            }
            true
        }
    }

    /// A click on a dish's pin; returns whether the dish is now pinned.
    pub fn toggle_pinned(&mut self, d: i32) -> (r: bool)
        ensures
            final(self).pinned@ == spec_toggle_pinned(old(self).pinned@, d),
            final(self).favorites@ == old(self).favorites@,
            r == !old(self).pinned@.contains(d),
    {
        if contains_i32(&self.pinned, d) {
            self.pinned = remove_all(&self.pinned, d);
            false
        } else {
            self.pinned.push(d);
            true
        }
    }
}

/// A favourite click marks the dish as favourite and pinned, or clears both; a second
/// click gives back the same favourites, and the other dishes keep their marks.
pub proof fn lemma_toggle_favorite(favs: Seq<i32>, pins: Seq<i32>, d: i32, x: i32)
    ensures
        ({
            let (f1, p1) = spec_toggle_favorite(favs, pins, d);
            let (f2, _) = spec_toggle_favorite(f1, p1, d);
            &&& f1.contains(d) == !favs.contains(d)
            &&& p1.contains(d) == !favs.contains(d)
            &&& x != d ==> (f1.contains(x) == favs.contains(x) && p1.contains(x) == pins.contains(x))
            &&& f2.contains(x) == favs.contains(x)
        }),
{
    lemma_without_contains(favs, d, x);
    lemma_without_contains(pins, d, x);
    lemma_without_contains(favs, d, d);
    lemma_without_contains(pins, d, d);
    lemma_contains_push(favs, d, x);
    lemma_contains_push(pins, d, x);
    lemma_contains_push(favs, d, d);
    lemma_contains_push(pins, d, d);
    let (f1, p1) = spec_toggle_favorite(favs, pins, d);
    lemma_without_contains(f1, d, x);
    lemma_contains_push(f1, d, x);
}

/// The dishes on the dashboard: the pinned ones, then the favourites not yet listed,
/// each once.
pub open spec fn dashboard_ids(pins: Seq<i32>, favs: Seq<i32>) -> Seq<i32>
    decreases favs.len(),
{
    if favs.len() == 0 {
        pins
    } else {
        let p = dashboard_ids(pins, favs.drop_last());
        if p.contains(favs.last()) { p } else { p.push(favs.last()) }
    }
}

/// Lists the dishes the dashboard needs names for.
pub fn dashboard_dish_ids(pins: &Vec<i32>, favs: &Vec<i32>) -> (r: Vec<i32>)
    ensures
        r@ == dashboard_ids(pins@, favs@),
{
    let mut out: Vec<i32> = Vec::new();
    let mut i: usize = 0;
    while i < pins.len()
        invariant
            i <= pins@.len(),
            out@ == pins@.take(i as int),
        decreases pins@.len() - i,
    {
        out.push(pins[i]);
        assert(out@ =~= pins@.take(i + 1));
        i = i + 1;
    }
    assert(pins@.take(pins@.len() as int) =~= pins@);
    let mut j: usize = 0;
    assert(favs@.take(0) =~= Seq::<i32>::empty());
    while j < favs.len()
        invariant
            j <= favs@.len(),
            out@ == dashboard_ids(pins@, favs@.take(j as int)),
        decreases favs@.len() - j,
    {
        proof {
            assert(favs@.take(j + 1).drop_last() =~= favs@.take(j as int));
            assert(favs@.take(j + 1).last() == favs@[j as int]);
        }
        if !contains_i32(&out, favs[j]) {
            out.push(favs[j]);
        }
        j = j + 1;
    }
    assert(favs@.take(favs@.len() as int) =~= favs@);
    out
}

/// The name of dish `id` among `names`, if it is there (the last one listed wins).
pub open spec fn dish_name(names: Seq<(i32, Seq<char>)>, id: i32) -> Option<Seq<char>>
    decreases names.len(),
{
    if names.len() == 0 {
        None
    } else if names.last().0 == id {
        Some(names.last().1)
    } else {
        dish_name(names.drop_last(), id)
    }
}

/// Views of named dishes.
pub open spec fn named_views(v: Seq<(i32, String)>) -> Seq<(i32, Seq<char>)> {
    v.map_values(|p: (i32, String)| (p.0, p.1@))
}

/// The dishes of `ids` that have a name, in order, with their names.
pub open spec fn named_in_order(ids: Seq<i32>, names: Seq<(i32, Seq<char>)>) -> Seq<(i32, Seq<char>)>
    decreases ids.len(),
{
    if ids.len() == 0 {
        Seq::empty()
    } else {
        let p = named_in_order(ids.drop_last(), names);
        match dish_name(names, ids.last()) {
            Some(n) => p.push((ids.last(), n)),
            None => p,
        }
    }
}

fn lookup_name(names: &Vec<(i32, String)>, id: i32) -> (r: Option<String>)
    ensures
        match r {
            Some(n) => dish_name(named_views(names@), id) == Some(n@),
            None => dish_name(named_views(names@), id) is None,
        },
{
    let ghost all = named_views(names@);
    let mut i = names.len();
    assert(all.take(all.len() as int) =~= all);
    while i > 0
        invariant
            i <= names@.len(),
            all == named_views(names@),
            dish_name(all, id) == dish_name(all.take(i as int), id),
        decreases i,
    {
        proof {
            assert(all.take(i as int).drop_last() =~= all.take(i - 1));
            assert(all.take(i as int).last() == all[i - 1]);
            assert(all[i - 1] == (names@[i - 1].0, names@[i - 1].1@));
        }
        if names[i - 1].0 == id {
            return Some(names[i - 1].1.clone());
        }
        i = i - 1;
    }
    None
}

/// Pairs the dishes of `ids` with their names, skipping dishes without one.
pub fn named_dishes(ids: &Vec<i32>, names: &Vec<(i32, String)>) -> (r: Vec<(i32, String)>)
    ensures
        named_views(r@) == named_in_order(ids@, named_views(names@)),
{
    let mut out: Vec<(i32, String)> = Vec::new();
    let mut i: usize = 0;
    assert(ids@.take(0) =~= Seq::<i32>::empty());
    assert(named_views(out@) =~= Seq::<(i32, Seq<char>)>::empty());
    while i < ids.len()
        invariant
            i <= ids@.len(),
            named_views(out@) == named_in_order(ids@.take(i as int), named_views(names@)),
        decreases ids@.len() - i,
    {
        proof {
            assert(ids@.take(i + 1).drop_last() =~= ids@.take(i as int));
            assert(ids@.take(i + 1).last() == ids@[i as int]);
        }
        match lookup_name(names, ids[i]) {
            Some(n) => {
                let ghost before = named_views(out@);
                let ghost nv = n@;
                out.push((ids[i], n));
                assert(named_views(out@) =~= before.push((ids@[i as int], nv)));
            },
            None => {},
        }
        i = i + 1;
    }
    assert(ids@.take(ids@.len() as int) =~= ids@);
    out
}

} // verus!
