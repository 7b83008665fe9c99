//! Editing the dish catalogue: splitting a combined dish name ("Pilav / Ayran") into its
//! dishes, re-pointing the menus that served it, and the search and labels of the
//! catalogue listing.

use vstd::prelude::*;
use crate::text::{
    char_vec, trim_chars, spec_trim, string_from_chars, find_chars, occurs_at, slice_chars, spec_contains,
    extend_str, extend_chars,
};
use vstd::string::StringExecFns;
use crate::menu::char_views;

verus! {

/// The first position at or after `i` where `p` occurs in `s`, or -1.
pub open spec fn find_from(s: Seq<char>, p: Seq<char>, i: int) -> int
    decreases s.len() + 1 - i,
{
    if i < 0 || i + p.len() > s.len() {
        -1
    } else if occurs_at(s, p, i) {
        i
    } else {
        find_from(s, p, i + 1)
    }
}

/// `find_from` finds the first occurrence at or after `i`, or reports there is none.
pub proof fn lemma_find_from(s: Seq<char>, p: Seq<char>, i: int)
    requires
        i >= 0,
    ensures
        find_from(s, p, i) == -1 || (i <= find_from(s, p, i) && occurs_at(s, p, find_from(s, p, i))),
        find_from(s, p, i) == -1 ==> forall|j: int| i <= j ==> !#[trigger] occurs_at(s, p, j),
        find_from(s, p, i) >= 0 ==> forall|j: int| i <= j < find_from(s, p, i) ==> !#[trigger] occurs_at(s, p, j),
    decreases s.len() + 1 - i,
{
    if i + p.len() <= s.len() && !occurs_at(s, p, i) {
        lemma_find_from(s, p, i + 1);
    }
}

/// `str::split` by a non-empty pattern: the text before the first occurrence, then the
/// pieces of the rest after it.
pub open spec fn split_by(s: Seq<char>, p: Seq<char>) -> Seq<Seq<char>>
    decreases s.len(),
{
    let i = find_from(s, p, 0);
    if p.len() > 0 && i >= 0 {
        proof {
            lemma_find_from(s, p, 0);
        }
        seq![s.take(i)] + split_by(s.skip(i + p.len()), p)
    } else {
        seq![s]
    }
}

/// `str::split` by the empty pattern: an empty piece, each character, an empty piece.
pub open spec fn split_empty(s: Seq<char>) -> Seq<Seq<char>> {
    seq![Seq::empty()] + s.map_values(|c: char| seq![c]) + seq![Seq::empty()]
}

/// The trimmed, non-empty pieces.
pub open spec fn nonblank_pieces(pieces: Seq<Seq<char>>) -> Seq<Seq<char>>
    decreases pieces.len(),
{
    if pieces.len() == 0 {
        Seq::empty()
    } else {
        let prev = nonblank_pieces(pieces.drop_last());
        let t = spec_trim(pieces.last());
        if t.len() > 0 { prev.push(t) } else { prev }
    }
}

/// The dishes a combined dish name splits into: the trimmed, non-empty pieces of the name
/// between the delimiters.
pub open spec fn spec_split_dish_name(name: Seq<char>, delimiter: Seq<char>) -> Seq<Seq<char>> {
    nonblank_pieces(if delimiter.len() == 0 { split_empty(name) } else { split_by(name, delimiter) })
}


fn pieces_by(s: &[char], p: &[char]) -> (r: Vec<Vec<char>>)
    requires
        p@.len() > 0,
    ensures
        char_views(r@) == split_by(s@, p@),
    decreases s@.len(),
{
    match find_chars(s, p) {
        Some(i) => {
            proof {
                lemma_find_from(s@, p@, 0);
                assert(occurs_at(s@, p@, i as int));
                let f = find_from(s@, p@, 0);
                if f == -1 {
                    assert(!occurs_at(s@, p@, i as int));
                }
                if f >= 0 && f < i {
                    assert(!occurs_at(s@, p@, f));
                }
                if f > i {
                    assert(!occurs_at(s@, p@, i as int));
                }
                assert(f == i);
            }
            let plen = p.len();
            let slen = s.len();
            assert(i + plen <= slen);
            let head = slice_chars(s, 0, i);
            let rest = slice_chars(s, i + plen, slen);
            let tail = pieces_by(rest.as_slice(), p);
            let mut out: Vec<Vec<char>> = Vec::new();
            out.push(head);
            let mut src = tail;
            let ghost tv = char_views(src@);
            let ghost mut k: int = 0;
            assert(head@ =~= s@.take(i as int));
            assert(rest@ =~= s@.skip(i + p@.len()));
            while src.len() > 0
                invariant
                    0 <= k <= tv.len(),
                    char_views(src@) == tv.skip(k),
                    char_views(out@) == seq![s@.take(i as int)] + tv.take(k),
                decreases src@.len(),
            {
                let ghost before = src@;
                proof {
                    assert(char_views(before).len() == before.len());
                    assert(tv.skip(k)[0] == tv[k]);
                    assert(char_views(before)[0] == before[0]@);
                }
                let w = src.remove(0);
                proof {
                    assert(w == before[0]);
                    assert(char_views(before)[0] == tv.skip(k)[0]);
                    assert(w@ == tv[k]);
                    assert forall|j: int| 0 <= j < src@.len() implies #[trigger] char_views(src@)[j] == tv.skip(k + 1)[j] by {
                        assert(src@[j] == before[j + 1]);
                        assert(char_views(before)[j + 1] == tv.skip(k)[j + 1]);
                        assert(char_views(before)[j + 1] == before[j + 1]@);
                        assert(char_views(src@)[j] == src@[j]@);
                        assert(tv.skip(k)[j + 1] == tv.skip(k + 1)[j]);
                    }
                    assert(char_views(src@) =~= tv.skip(k + 1));
                }
                let ghost ob = char_views(out@);
                out.push(w);
                proof {
                    assert(char_views(out@) =~= ob.push(tv[k]));
                    assert(tv.take(k + 1) =~= tv.take(k).push(tv[k]));
                    assert(seq![s@.take(i as int)] + tv.take(k + 1) =~= (seq![s@.take(i as int)] + tv.take(k)).push(tv[k]));
                    k = k + 1;
                }
            }
            assert(tv.take(k) =~= tv);
            out
        },
        None => {
            proof {
                lemma_find_from(s@, p@, 0);
                if find_from(s@, p@, 0) >= 0 {
                    assert(occurs_at(s@, p@, find_from(s@, p@, 0)));
                    assert(spec_contains(s@, p@));
                }
            }
            let mut out: Vec<Vec<char>> = Vec::new();
            let whole = slice_chars(s, 0, s.len());
            assert(whole@ =~= s@);
            out.push(whole);
            assert(char_views(out@) =~= seq![s@]);
            out
        },
    }
}

/// Splits a combined dish name by `delimiter` into the names of its dishes. A name that
/// does not split into at least two dishes is refused.
pub fn split_dish_name(name: &str, delimiter: &str) -> (r: Result<Vec<String>, String>)
    ensures
        match r {
            Ok(v) => v@.map_values(|s: String| s@) == spec_split_dish_name(name@, delimiter@) && v@.len() > 1,
            Err(e) => spec_split_dish_name(name@, delimiter@).len() <= 1 && e@ == "Yemek ismi belirtilen delimiter ile bölünemedi."@,
        },
{
    let nv = char_vec(name);
    let dv = char_vec(delimiter);
    let pieces: Vec<Vec<char>> = if dv.len() == 0 {
        let mut out: Vec<Vec<char>> = Vec::new();
        out.push(Vec::new());
        let mut i: usize = 0;
        while i < nv.len()
            invariant
                i <= nv@.len(),
                char_views(out@) == seq![Seq::<char>::empty()] + nv@.take(i as int).map_values(|c: char| seq![c]),
            decreases nv@.len() - i,
        {
            let mut one: Vec<char> = Vec::new();
            one.push(nv[i]);
            let ghost before = char_views(out@);
            out.push(one);
            assert(char_views(out@) =~= before.push(seq![nv@[i as int]]));
            assert(nv@.take(i + 1).map_values(|c: char| seq![c]) =~= nv@.take(i as int).map_values(|c: char| seq![c]).push(seq![nv@[i as int]]));
            i = i + 1;
        }
        let ghost before = char_views(out@);
        out.push(Vec::new());
        assert(char_views(out@) =~= before.push(Seq::<char>::empty()));
        assert(nv@.take(nv@.len() as int) =~= nv@);
        assert(char_views(out@) =~= split_empty(nv@));
        out
    } else {
        pieces_by(nv.as_slice(), dv.as_slice())
    };
    let ghost pv = char_views(pieces@);
    let mut parts: Vec<String> = Vec::new();
    let mut i: usize = 0;
    assert(pv.take(0) =~= Seq::<Seq<char>>::empty());
    while i < pieces.len()
        invariant
            i <= pieces@.len(),
            pv == char_views(pieces@),
            parts@.map_values(|s: String| s@) == nonblank_pieces(pv.take(i as int)),
        decreases pieces@.len() - i,
    {
        proof {
            assert(pv.take(i + 1).drop_last() =~= pv.take(i as int));
            assert(pv.take(i + 1).last() == pieces@[i as int]@);
        }
        let t = trim_chars(pieces[i].as_slice());
        if t.len() > 0 {
            let ghost before = parts@.map_values(|s: String| s@);
            let st = string_from_chars(t.as_slice());
            parts.push(st);
            assert(parts@.map_values(|s: String| s@) =~= before.push(t@));
        }
        i = i + 1;
    }
    assert(pv.take(pieces@.len() as int) =~= pv);
    if parts.len() <= 1 {
        Err(String::from_str("Yemek ismi belirtilen delimiter ile bölünemedi."))
    } else {
        Ok(parts)
    }
}

/// A menu's link to a dish alias, with the place the dish had on the menu.
pub struct MenuDishLink {
    pub menu_id: i32,
    pub dish_alias_id: i32,
    pub order_index: i32,
    pub is_alternative: bool,
    pub package_name: String,
    pub amount: Option<String>,
    pub calories: Option<i32>,
}

/// A link by the characters of its strings.
pub struct LinkView {
    pub menu_id: i32,
    pub dish_alias_id: i32,
    pub order_index: i32,
    pub is_alternative: bool,
    pub package_name: Seq<char>,
    pub amount: Option<Seq<char>>,
    pub calories: Option<i32>,
}

/// The link a menu gets to one of the new aliases in place of an old link.
pub open spec fn relinked(l: MenuDishLink, alias: i32) -> LinkView {
    LinkView {
        menu_id: l.menu_id,
        dish_alias_id: alias,
        order_index: l.order_index,
        is_alternative: l.is_alternative,
        package_name: l.package_name@,
        amount: crate::validation::opt_string_view(&l.amount),
        calories: l.calories,
    }
}

/// Every old link replaced by one link per new alias, at the same place of its menu.
pub open spec fn spec_relink(links: Seq<MenuDishLink>, aliases: Seq<i32>) -> Seq<LinkView>
    decreases links.len(),
{
    if links.len() == 0 {
        Seq::empty()
    } else {
        spec_relink(links.drop_last(), aliases) + aliases.map_values(|a: i32| relinked(links.last(), a))
    }
}

/// The links of a link, by the characters of its strings.
pub open spec fn link_views(v: Seq<MenuDishLink>) -> Seq<LinkView> {
    v.map_values(|l: MenuDishLink| LinkView {
        menu_id: l.menu_id,
        dish_alias_id: l.dish_alias_id,
        order_index: l.order_index,
        is_alternative: l.is_alternative,
        package_name: l.package_name@,
        amount: crate::validation::opt_string_view(&l.amount),
        calories: l.calories,
    })
}

/// The menu links that replace the links of a split dish.
pub fn relink_menus(links: &Vec<MenuDishLink>, aliases: &Vec<i32>) -> (r: Vec<MenuDishLink>)
    ensures
        link_views(r@) == spec_relink(links@, aliases@),
{
    let mut out: Vec<MenuDishLink> = Vec::new();
    let mut i: usize = 0;
    assert(links@.take(0) =~= Seq::<MenuDishLink>::empty());
    while i < links.len()
        invariant
            i <= links@.len(),
            link_views(out@) == spec_relink(links@.take(i as int), aliases@),
        decreases links@.len() - i,
    {
        proof {
            assert(links@.take(i + 1).drop_last() =~= links@.take(i as int));
            assert(links@.take(i + 1).last() == links@[i as int]);
        }
        let l = &links[i];
        let ghost base = link_views(out@);
        let mut j: usize = 0;
        while j < aliases.len()
            invariant
                j <= aliases@.len(),
                i < links@.len(),
                l == links@[i as int],
                link_views(out@) == base + aliases@.take(j as int).map_values(|a: i32| relinked(links@[i as int], a)),
            decreases aliases@.len() - j,
        {
            let n = MenuDishLink {
                menu_id: l.menu_id,
                dish_alias_id: aliases[j],
                order_index: l.order_index,
                is_alternative: l.is_alternative,
                package_name: l.package_name.clone(),
                amount: match &l.amount {
                    Some(a) => Some(a.clone()),
                    None => None,
                },
                calories: l.calories,
            };
            let ghost before = link_views(out@);
            out.push(n);
            proof {
                assert(link_views(out@) =~= before.push(relinked(links@[i as int], aliases@[j as int])));
                assert(aliases@.take(j + 1).map_values(|a: i32| relinked(links@[i as int], a)) =~= aliases@.take(j as int).map_values(|a: i32| relinked(links@[i as int], a)).push(relinked(links@[i as int], aliases@[j as int])));
            }
            j = j + 1;
        }
        assert(aliases@.take(aliases@.len() as int) =~= aliases@);
        i = i + 1;
    }
    assert(links@.take(links@.len() as int) =~= links@);
    out
}

/// The diet labels of a catalogue dish, in order: vegan, vegetarian, gluten-free.
pub open spec fn spec_constraints(vegan: bool, vegetarian: bool, celiac: bool) -> Seq<Seq<char>> {
    (if vegan { seq!["Vegan"@] } else { Seq::empty() }) + (if vegetarian { seq!["Vejetaryen"@] } else { Seq::empty() })
        + (if celiac { seq!["Glutensiz"@] } else { Seq::empty() })
}

/// The diet labels of a catalogue dish.
pub fn dish_constraints(vegan: bool, vegetarian: bool, celiac: bool) -> (r: Vec<String>)
    ensures
        r@.map_values(|s: String| s@) == spec_constraints(vegan, vegetarian, celiac),
{
    let mut out: Vec<String> = Vec::new();
    if vegan {
        out.push(String::from_str("Vegan"));
    }
    if vegetarian {
        out.push(String::from_str("Vejetaryen"));
    }
    if celiac {
        out.push(String::from_str("Glutensiz"));
    }
    assert(out@.map_values(|s: String| s@) =~= spec_constraints(vegan, vegetarian, celiac));
    out
}

/// The `LIKE` pattern of a catalogue search: the trimmed term between `%` signs; no
/// filter for a blank term.
pub open spec fn spec_search_pattern(search: Option<Seq<char>>) -> Option<Seq<char>> {
    match search {
        Some(s) => if spec_trim(s).len() > 0 {
            Some("%"@ + spec_trim(s) + "%"@)
        } else {
            None
        },
        None => None,
    }
}

/// The pattern of a catalogue search.
pub fn dish_search_pattern(search: Option<&str>) -> (r: Option<String>)
    ensures
        crate::validation::opt_string_view(&r) == spec_search_pattern(match search {
            Some(s) => Some(s@),
            None => None,
        }),
{
    match search {
        Some(s) => {
            let t = crate::text::trim(s);
            if t.len() > 0 {
                let mut out: Vec<char> = Vec::new();
                extend_str(&mut out, "%");
                extend_chars(&mut out, t.as_slice());
                extend_str(&mut out, "%");
                Some(string_from_chars(out.as_slice()))
            } else {
                None
            }
        },
        None => None,
    }
}

} // verus!
