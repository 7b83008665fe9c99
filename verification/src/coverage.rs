//! The kitchen coverage table of a month: for every city, the days that have menus and,
//! for each day, the menu of each meal with its state.

use vstd::prelude::*;
use crate::text::{to_lowercase, spec_to_lowercase};
use crate::menu::char_views;

verus! {

/// The days of a month as the coverage table counts them: 31 or 30 as the month has,
/// February by the leap-year rule, and 30 for a month number out of range.
pub open spec fn spec_coverage_days(year: int, month: int) -> int {
    if month == 1 || month == 3 || month == 5 || month == 7 || month == 8 || month == 10 || month == 12 {
        31
    } else if month == 4 || month == 6 || month == 9 || month == 11 {
        30
    } else if month == 2 {
        if (year % 4 == 0 && year % 100 != 0) || year % 400 == 0 { 29 } else { 28 }
    } else {
        30
    }
}

/// Computes the number of days of the table's month.
pub fn coverage_days(year: i32, month: i32) -> (r: i32)
    ensures
        r == spec_coverage_days(year as int, month as int),
{
    if month == 1 || month == 3 || month == 5 || month == 7 || month == 8 || month == 10 || month == 12 {
        31
    } else if month == 4 || month == 6 || month == 9 || month == 11 {
        30
    } else if month == 2 {
        if (year % 4 == 0 && year % 100 != 0) || year % 400 == 0 { 29 } else { 28 }
    } else {
        30
    }
}

/// One row of the month's query: a city, and (when the city has a menu that month) the
/// menu's day, meal and state.
pub struct CoverageRow {
    pub city_id: i32,
    pub city_name: String,
    pub city_slug: String,
    pub day: Option<i32>,
    pub meal: Option<String>,
    pub menu_id: Option<i32>,
    pub is_approved: Option<bool>,
    pub source: Option<String>,
    pub has_bot_commentary: Option<bool>,
    pub dish_count: Option<i32>,
}

/// The state of one menu in the table.
pub struct CoverageCell {
    pub menu_id: Option<i32>,
    pub is_approved: bool,
    pub source: Option<String>,
    pub has_bot_commentary: bool,
    pub dish_count: i32,
}

/// A meal of a day, with its menu.
pub struct MealCoverage {
    pub meal: String,
    pub cell: CoverageCell,
}

/// A day of a city that has menus.
pub struct DayCoverage {
    pub day: i32,
    pub meals: Vec<MealCoverage>,
}

/// A city with its covered days.
pub struct CityCoverage {
    pub id: i32,
    pub name: String,
    pub slug: String,
    pub days: Vec<DayCoverage>,
}

/// Whether `s` is strictly increasing.
pub open spec fn strictly_sorted(s: Seq<i32>) -> bool {
    forall|i: int, j: int| 0 <= i < j < s.len() ==> s[i] < s[j]
}

fn contains_int(v: &Vec<i32>, x: i32) -> (r: bool)
    ensures
        r == v@.contains(x),
{
    let mut i: usize = 0;
    while i < v.len()
        invariant
            i <= v@.len(),
            forall|k: int| 0 <= k < i ==> v@[k] != x,
        decreases v@.len() - i,
    {
        if v[i] == x {
            return true;
        }
        i = i + 1;
    }
    false
}

fn insert_sorted(v: &mut Vec<i32>, x: i32)
    requires
        strictly_sorted(old(v)@),
    ensures
        strictly_sorted(final(v)@),
        forall|y: i32| final(v)@.contains(y) <==> (old(v)@.contains(y) || y == x),
{
    if contains_int(v, x) {
        return;
    }
    let mut p: usize = 0;
    while p < v.len() && v[p] < x
        invariant
            p <= v@.len(),
            forall|k: int| 0 <= k < p ==> v@[k] < x,
        decreases v@.len() - p,
    {
        p = p + 1;
    }
    let ghost before = v@;
    v.insert(p, x);
    proof {
        assert forall|i: int, j: int| 0 <= i < j < v@.len() implies v@[i] < v@[j] by {
            if j < p {
                assert(v@[i] == before[i] && v@[j] == before[j]);
            } else if j == p {
                assert(v@[i] == before[i]);
            } else if i < p {
                assert(v@[i] == before[i] && v@[j] == before[j - 1]);
                if p < before.len() {
                    assert(before[p as int] >= x);
                    assert(before[p as int] != x);
                    if j - 1 > p {
                        assert(before[p as int] < before[j - 1]);
                    }
                }
            } else if i == p {
                assert(v@[j] == before[j - 1]);
                assert(before[p as int] >= x);
                assert(before[p as int] != x);
                if j - 1 > p {
                    assert(before[p as int] < before[j - 1]);
                }
            } else {
                assert(v@[i] == before[i - 1] && v@[j] == before[j - 1]);
            }
        }
        assert forall|y: i32| v@.contains(y) <==> (before.contains(y) || y == x) by {
            if v@.contains(y) {
                let k = choose|k: int| 0 <= k < v@.len() && v@[k] == y;
                if k < p {
                    assert(before[k] == y);
                } else if k > p {
                    assert(before[k - 1] == y);
                }
            }
            if before.contains(y) {
                let k = choose|k: int| 0 <= k < before.len() && before[k] == y;
                if k < p {
                    assert(v@[k] == y);
                } else {
                    assert(v@[k + 1] == y);
                }
            }
            if y == x {
                assert(v@[p as int] == y);
            }
        }
    }
}

/// The lowercased meal of a row, when it names a menu of a day.
pub open spec fn row_meal(r: CoverageRow) -> Option<Seq<char>> {
    match (r.day, r.meal) {
        (Some(_), Some(m)) => Some(spec_to_lowercase(m@)),
        _ => None,
    }
}

/// Whether a row names a menu of city `c` on day `d`.
pub open spec fn row_at(r: CoverageRow, c: i32, d: i32) -> bool {
    r.city_id == c && r.day == Some(d) && r.meal is Some
}

/// The state a row gives its menu: missing flags are false, a missing count is 0.
pub open spec fn row_cell_matches(r: CoverageRow, cell: CoverageCell) -> bool {
    &&& cell.menu_id == r.menu_id
    &&& cell.is_approved == (r.is_approved == Some(true))
    &&& cell.source == r.source
    &&& cell.has_bot_commentary == (r.has_bot_commentary == Some(true))
    &&& cell.dish_count == (match r.dish_count { Some(n) => n, None => 0 })
}

/// The place of the first row of city `c`.
pub open spec fn first_row_of(rows: Seq<CoverageRow>, c: i32) -> int
    decreases rows.len(),
{
    if rows.len() == 0 {
        -1
    } else if rows[0].city_id == c {
        0
    } else {
        let k = first_row_of(rows.drop_first(), c);
        if k < 0 { -1 } else { k + 1 }
    }
}

/// The place of the last row of the menu of meal `m` of city `c` on day `d`.
pub open spec fn last_row_of(rows: Seq<CoverageRow>, lowered: Seq<Seq<char>>, c: i32, d: i32, m: Seq<char>) -> int
    decreases rows.len(),
{
    if rows.len() == 0 {
        -1
    } else if row_at(rows.last(), c, d) && lowered[rows.len() - 1] == m {
        rows.len() - 1
    } else {
        last_row_of(rows.drop_last(), lowered, c, d, m)
    }
}

/// The ids of the table's cities.
pub open spec fn city_ids(t: Seq<CityCoverage>) -> Seq<i32> {
    t.map_values(|c: CityCoverage| c.id)
}

/// The days of a list of day entries.
pub open spec fn days_of(s: Seq<DayCoverage>) -> Seq<i32> {
    s.map_values(|d: DayCoverage| d.day)
}

/// The days of a city's entry.
pub open spec fn day_keys(c: CityCoverage) -> Seq<i32> {
    days_of(c.days@)
}

/// The meals of a day's entry.
pub open spec fn meal_keys(d: DayCoverage) -> Seq<Seq<char>> {
    d.meals@.map_values(|m: MealCoverage| m.meal@)
}

/// Some row is of city `id`.
pub open spec fn has_city_row(rows: Seq<CoverageRow>, id: i32) -> bool {
    exists|k: int| 0 <= k < rows.len() && (#[trigger] rows[k]).city_id == id
}

/// Some row names a menu of city `c` on `day`.
pub open spec fn has_day_row(rows: Seq<CoverageRow>, c: i32, day: i32) -> bool {
    exists|k: int| 0 <= k < rows.len() && row_at(#[trigger] rows[k], c, day)
}

/// Some row names a menu of meal `m` of city `c` on `day`.
pub open spec fn has_meal_row(rows: Seq<CoverageRow>, lowered: Seq<Seq<char>>, c: i32, day: i32, m: Seq<char>) -> bool {
    exists|k: int| 0 <= k < rows.len() && row_at(#[trigger] rows[k], c, day) && lowered[k] == m
}

/// The entry of one day of city `c`: each meal named by its rows once, and for each
/// meal the state of the last row naming it.
pub open spec fn day_matches(rows: Seq<CoverageRow>, lowered: Seq<Seq<char>>, c: i32, d: DayCoverage) -> bool {
    let ms = meal_keys(d);
    &&& forall|a: int, b: int| 0 <= a < b < ms.len() ==> ms[a] != ms[b]
    &&& forall|m: Seq<char>| #[trigger] ms.contains(m) <==> has_meal_row(rows, lowered, c, d.day, m)
    &&& forall|q: int| 0 <= q < d.meals@.len() ==> {
        let l = last_row_of(rows, lowered, c, d.day, (#[trigger] d.meals@[q]).meal@);
        0 <= l < rows.len() && row_cell_matches(rows[l], d.meals@[q].cell)
    }
}

/// The entry of one city: named after its first row, with its days with menus by
/// increasing day, each as `day_matches` says.
pub open spec fn city_matches(rows: Seq<CoverageRow>, lowered: Seq<Seq<char>>, c: CityCoverage) -> bool {
    let f = first_row_of(rows, c.id);
    &&& 0 <= f < rows.len()
    &&& c.name@ == rows[f].city_name@
    &&& c.slug@ == rows[f].city_slug@
    &&& strictly_sorted(day_keys(c))
    &&& forall|day: i32| #[trigger] day_keys(c).contains(day) <==> has_day_row(rows, c.id, day)
    &&& forall|j: int| 0 <= j < c.days@.len() ==> day_matches(rows, lowered, c.id, #[trigger] c.days@[j])
}

/// The coverage table: every city of the rows once, by increasing id, each as
/// `city_matches` says (meals are compared lowercased, `lowered[k]` being the meal of
/// row `k` lowercased).
pub open spec fn table_matches(rows: Seq<CoverageRow>, lowered: Seq<Seq<char>>, t: Seq<CityCoverage>) -> bool {
    &&& strictly_sorted(city_ids(t))
    &&& forall|id: i32| #[trigger] city_ids(t).contains(id) <==> has_city_row(rows, id)
    &&& forall|i: int| 0 <= i < t.len() ==> city_matches(rows, lowered, #[trigger] t[i])
}

/// The meal of each row, lowercased (empty for a row without one).
pub open spec fn lowered_meals(rows: Seq<CoverageRow>) -> Seq<Seq<char>> {
    rows.map_values(|r: CoverageRow| match r.meal { Some(m) => spec_to_lowercase(m@), None => Seq::<char>::empty() })
}

fn lower_meals(rows: &Vec<CoverageRow>) -> (r: Vec<Vec<char>>)
    ensures
        r@.len() == rows@.len(),
        forall|k: int| 0 <= k < rows@.len() ==> (#[trigger] r@[k])@ == lowered_meals(rows@)[k],
{
    let mut out: Vec<Vec<char>> = Vec::new();
    let mut i: usize = 0;
    while i < rows.len()
        invariant
            i <= rows@.len(),
            out@.len() == i,
            forall|k: int| 0 <= k < i ==> (#[trigger] out@[k])@ == lowered_meals(rows@)[k],
        decreases rows@.len() - i,
    {
        let l: Vec<char> = match &rows[i].meal {
            Some(m) => crate::text::char_vec(to_lowercase(m.as_str()).as_str()),
            None => Vec::new(),
        };
        out.push(l);
        i = i + 1;
    }
    out
}

fn cell_of(r: &CoverageRow) -> (c: CoverageCell)
    ensures
        row_cell_matches(*r, c),
{
    CoverageCell {
        menu_id: r.menu_id,
        is_approved: match r.is_approved { Some(b) => b, None => false },
        source: r.source.clone(),
        has_bot_commentary: match r.has_bot_commentary { Some(b) => b, None => false },
        dish_count: match r.dish_count { Some(n) => n, None => 0 },
    }
}

proof fn lemma_first_row_of(rows: Seq<CoverageRow>, c: i32)
    ensures
        -1 <= first_row_of(rows, c) < rows.len(),
        first_row_of(rows, c) >= 0 ==> rows[first_row_of(rows, c)].city_id == c,
        forall|k: int| 0 <= k < rows.len() && (first_row_of(rows, c) < 0 || k < first_row_of(rows, c)) ==> (#[trigger] rows[k]).city_id != c,
    decreases rows.len(),
{
    if rows.len() > 0 && rows[0].city_id != c {
        lemma_first_row_of(rows.drop_first(), c);
        assert forall|k: int| 0 <= k < rows.len() && (first_row_of(rows, c) < 0 || k < first_row_of(rows, c)) implies (#[trigger] rows[k]).city_id != c by {
            if k > 0 {
                assert(rows.drop_first()[k - 1] == rows[k]);
            }
        }
    }
}

fn first_row(rows: &Vec<CoverageRow>, c: i32) -> (r: usize)
    requires
        has_city_row(rows@, c),
    ensures
        r as int == first_row_of(rows@, c),
        r < rows@.len(),
{
    proof {
        lemma_first_row_of(rows@, c);
        let k = choose|k: int| 0 <= k < rows@.len() && (#[trigger] rows@[k]).city_id == c;
    }
    let mut i: usize = 0;
    while i < rows.len()
        invariant
            i <= rows@.len(),
            has_city_row(rows@, c),
            -1 <= first_row_of(rows@, c) < rows@.len(),
            first_row_of(rows@, c) >= 0 ==> rows@[first_row_of(rows@, c)].city_id == c,
            forall|k: int| 0 <= k < rows@.len() && (first_row_of(rows@, c) < 0 || k < first_row_of(rows@, c)) ==> (#[trigger] rows@[k]).city_id != c,
            forall|k: int| 0 <= k < i ==> (#[trigger] rows@[k]).city_id != c,
        decreases rows@.len() - i,
    {
        if rows[i].city_id == c {
            return i;
        }
        i = i + 1;
    }
    proof {
        let k = choose|k: int| 0 <= k < rows@.len() && (#[trigger] rows@[k]).city_id == c;
        assert(rows@[k].city_id != c);
    }
    0
}

fn city_days(rows: &Vec<CoverageRow>, c: i32) -> (r: Vec<i32>)
    ensures
        strictly_sorted(r@),
        forall|day: i32| #[trigger] r@.contains(day) <==> has_day_row(rows@, c, day),
{
    let mut out: Vec<i32> = Vec::new();
    let mut i: usize = 0;
    while i < rows.len()
        invariant
            i <= rows@.len(),
            strictly_sorted(out@),
            forall|day: i32| #[trigger] out@.contains(day) <==> exists|k: int| 0 <= k < i && row_at(#[trigger] rows@[k], c, day),
        decreases rows@.len() - i,
    {
        let r = &rows[i];
        let ghost before = out@;
        if r.city_id == c && r.meal.is_some() {
            if let Some(d) = r.day {
                insert_sorted(&mut out, d);
            }
        }
        proof {
            assert forall|day: i32| #[trigger] out@.contains(day) <==> exists|k: int| 0 <= k < i + 1 && row_at(#[trigger] rows@[k], c, day) by {
                if exists|k: int| 0 <= k < i + 1 && row_at(#[trigger] rows@[k], c, day) {
                    let k = choose|k: int| 0 <= k < i + 1 && row_at(#[trigger] rows@[k], c, day);
                    if k < i {
                        assert(before.contains(day));
                    }
                }
                if before.contains(day) {
                    let k = choose|k: int| 0 <= k < i && row_at(#[trigger] rows@[k], c, day);
                    assert(row_at(rows@[k], c, day));
                }
            }
        }
        i = i + 1;
    }
    out
}

fn chars_eq(a: &Vec<char>, b: &Vec<char>) -> (r: bool)
    ensures
        r == (a@ == b@),
{
    crate::assistant::chars_equal(a.as_slice(), b.as_slice())
}

fn copy_chars(v: &Vec<char>) -> (r: Vec<char>)
    ensures
        r@ == v@,
{
    let mut out: Vec<char> = Vec::new();
    let mut i: usize = 0;
    while i < v.len()
        invariant
            i <= v@.len(),
            out@ == v@.take(i as int),
        decreases v@.len() - i,
    {
        out.push(v[i]);
        assert(out@ =~= v@.take(i + 1));
        i = i + 1;
    }
    assert(v@.take(v@.len() as int) =~= v@);
    out
}

fn day_meals(rows: &Vec<CoverageRow>, lowered: &Vec<Vec<char>>, c: i32, d: i32) -> (r: Vec<Vec<char>>)
    requires
        lowered@.len() == rows@.len(),
    ensures
        forall|a: int, b: int| 0 <= a < b < r@.len() ==> r@[a]@ != r@[b]@,
        forall|m: Seq<char>| #[trigger] char_views(r@).contains(m)
            <==> exists|k: int| 0 <= k < rows@.len() && row_at(#[trigger] rows@[k], c, d) && lowered@[k]@ == m,
{
    let mut out: Vec<Vec<char>> = Vec::new();
    let mut i: usize = 0;
    while i < rows.len()
        invariant
            i <= rows@.len() == lowered@.len(),
            forall|a: int, b: int| 0 <= a < b < out@.len() ==> out@[a]@ != out@[b]@,
            forall|m: Seq<char>| #[trigger] char_views(out@).contains(m)
                <==> exists|k: int| 0 <= k < i && row_at(#[trigger] rows@[k], c, d) && lowered@[k]@ == m,
        decreases rows@.len() - i,
    {
        let r = &rows[i];
        let ghost before = char_views(out@);
        let ghost before_out = out@;
        let hit = r.city_id == c && r.meal.is_some() && r.day == Some(d);
        assert(hit == row_at(rows@[i as int], c, d));
        let mut added = false;
        if hit {
            let mut seen = false;
            let mut j: usize = 0;
            while j < out.len()
                invariant
                    j <= out@.len(),
                    i < lowered@.len(),
                    seen == exists|q: int| 0 <= q < j && out@[q]@ == lowered@[i as int]@,
                decreases out@.len() - j,
            {
                if chars_eq(&out[j], &lowered[i]) {
                    seen = true;
                }
                j = j + 1;
            }
            if !seen {
                let l = copy_chars(&lowered[i]);
                out.push(l);
                added = true;
                proof {
                    assert(char_views(out@) =~= before.push(lowered@[i as int]@));
                    assert forall|a: int, b: int| 0 <= a < b < out@.len() implies out@[a]@ != out@[b]@ by {
                        if b == out@.len() - 1 {
                            assert(out@[a] == before_out[a]);
                        }
                    }
                }
            } else {
                proof {
                    let q = choose|q: int| 0 <= q < out@.len() && out@[q]@ == lowered@[i as int]@;
                    assert(before[q] == lowered@[i as int]@);
                }
            }
        }
        proof {
            let after = char_views(out@);
            if !added {
                assert(out@ == before_out);
            }
            assert forall|m: Seq<char>| #[trigger] after.contains(m)
                <==> exists|k: int| 0 <= k < i + 1 && row_at(#[trigger] rows@[k], c, d) && lowered@[k]@ == m by {
                if after.contains(m) {
                    let q = choose|q: int| 0 <= q < after.len() && after[q] == m;
                    if q < before.len() {
                        assert(before[q] == m);
                        assert(before.contains(m));
                    } else {
                        assert(m == lowered@[i as int]@);
                    }
                }
                if before.contains(m) {
                    let q = choose|q: int| 0 <= q < before.len() && before[q] == m;
                    assert(after[q] == m);
                }
                if hit && m == lowered@[i as int]@ {
                    if !added {
                        let q = choose|q: int| 0 <= q < before.len() && before[q] == lowered@[i as int]@;
                        assert(after[q] == m);
                    } else {
                        assert(after[before.len() as int] == m);
                    }
                }
            }
        }
        i = i + 1;
    }
    out
}

proof fn lemma_last_row_of(rows: Seq<CoverageRow>, lowered: Seq<Seq<char>>, c: i32, d: i32, m: Seq<char>)
    requires
        lowered.len() == rows.len(),
        has_meal_row(rows, lowered, c, d, m),
    ensures
        0 <= last_row_of(rows, lowered, c, d, m) < rows.len(),
        row_at(rows[last_row_of(rows, lowered, c, d, m)], c, d),
        lowered[last_row_of(rows, lowered, c, d, m)] == m,
    decreases rows.len(),
{
    let n = rows.len() - 1;
    if !(row_at(rows.last(), c, d) && lowered[n] == m) {
        let k = choose|k: int| 0 <= k < rows.len() && row_at(#[trigger] rows[k], c, d) && lowered[k] == m;
        assert(k < n);
        let pre = rows.drop_last();
        assert(pre[k] == rows[k]);
        assert(row_at(pre[k], c, d) && lowered[k] == m);
        lemma_last_row_of_prefix(pre, lowered, c, d, m, k);
        assert(last_row_of(rows, lowered, c, d, m) == last_row_of(pre, lowered, c, d, m));
    }
}

proof fn lemma_last_row_of_prefix(rows: Seq<CoverageRow>, lowered: Seq<Seq<char>>, c: i32, d: i32, m: Seq<char>, k: int)
    requires
        lowered.len() > rows.len(),
        0 <= k < rows.len(),
        row_at(rows[k], c, d) && lowered[k] == m,
    ensures
        0 <= last_row_of(rows, lowered, c, d, m) < rows.len(),
        row_at(rows[last_row_of(rows, lowered, c, d, m)], c, d),
        lowered[last_row_of(rows, lowered, c, d, m)] == m,
    decreases rows.len(),
{
    let n = rows.len() - 1;
    if !(row_at(rows.last(), c, d) && lowered[n] == m) {
        assert(k < n);
        let pre = rows.drop_last();
        assert(pre[k] == rows[k]);
        lemma_last_row_of_prefix(pre, lowered, c, d, m, k);
        assert forall|j: int| 0 <= j < pre.len() implies pre[j] == rows[j] by {}
    }
}

fn last_row(rows: &Vec<CoverageRow>, lowered: &Vec<Vec<char>>, c: i32, d: i32, m: &Vec<char>) -> (r: usize)
    requires
        lowered@.len() == rows@.len(),
        has_meal_row(rows@, char_views(lowered@), c, d, m@),
    ensures
        r as int == last_row_of(rows@, char_views(lowered@), c, d, m@),
        r < rows@.len(),
{
    let ghost lv = char_views(lowered@);
    proof {
        lemma_last_row_of(rows@, lv, c, d, m@);
    }
    let mut i = rows.len();
    assert(rows@.take(rows@.len() as int) =~= rows@);
    while i > 0
        invariant
            i <= rows@.len() == lowered@.len(),
            lv == char_views(lowered@),
            last_row_of(rows@, lv, c, d, m@) == last_row_of(rows@.take(i as int), lv, c, d, m@),
            0 <= last_row_of(rows@, lv, c, d, m@) < i,
            row_at(rows@[last_row_of(rows@, lv, c, d, m@)], c, d),
            lv[last_row_of(rows@, lv, c, d, m@)] == m@,
        decreases i,
    {
        let r = &rows[i - 1];
        proof {
            let t = rows@.take(i as int);
            assert(t.last() == rows@[i - 1]);
            assert(t.drop_last() =~= rows@.take(i - 1));
            assert(lv[i - 1] == lowered@[i - 1]@);
        }
        if r.city_id == c && r.meal.is_some() && r.day == Some(d) && chars_eq(&lowered[i - 1], m) {
            return i - 1;
        }
        i = i - 1;
    }
    0
}

fn meal_entries(rows: &Vec<CoverageRow>, lowered: &Vec<Vec<char>>, c: i32, d: i32) -> (r: Vec<MealCoverage>)
    requires
        lowered@.len() == rows@.len(),
    ensures
        day_matches(rows@, char_views(lowered@), c, DayCoverage { day: d, meals: r }),
{
    let ghost lv = char_views(lowered@);
    let meals = day_meals(rows, lowered, c, d);
    let mut out: Vec<MealCoverage> = Vec::new();
    let mut q: usize = 0;
    while q < meals.len()
        invariant
            q <= meals@.len(),
            lowered@.len() == rows@.len(),
            lv == char_views(lowered@),
            forall|a: int, b: int| 0 <= a < b < meals@.len() ==> meals@[a]@ != meals@[b]@,
            forall|m: Seq<char>| #[trigger] char_views(meals@).contains(m)
                <==> exists|k: int| 0 <= k < rows@.len() && row_at(#[trigger] rows@[k], c, d) && lowered@[k]@ == m,
            out@.len() == q,
            forall|j: int| 0 <= j < q ==> (#[trigger] out@[j]).meal@ == meals@[j]@,
            forall|j: int| 0 <= j < q ==> {
                let l = last_row_of(rows@, lv, c, d, (#[trigger] out@[j]).meal@);
                0 <= l < rows@.len() && row_cell_matches(rows@[l], out@[j].cell)
            },
        decreases meals@.len() - q,
    {
        proof {
            assert(char_views(meals@)[q as int] == meals@[q as int]@);
            assert(char_views(meals@).contains(meals@[q as int]@));
            let k = choose|k: int| 0 <= k < rows@.len() && row_at(#[trigger] rows@[k], c, d) && lowered@[k]@ == meals@[q as int]@;
            assert(lv[k] == lowered@[k]@);
            assert(has_meal_row(rows@, lv, c, d, meals@[q as int]@));
        }
        let l = last_row(rows, lowered, c, d, &meals[q]);
        proof {
            lemma_last_row_of(rows@, lv, c, d, meals@[q as int]@);
        }
        let cell = cell_of(&rows[l]);
        let name = crate::text::string_from_chars(meals[q].as_slice());
        out.push(MealCoverage { meal: name, cell });
        q = q + 1;
    }
    proof {
        let dc = DayCoverage { day: d, meals: out };
        let ms = meal_keys(dc);
        assert(ms =~= char_views(meals@));
        assert forall|m: Seq<char>| #[trigger] ms.contains(m) <==> has_meal_row(rows@, lv, c, d, m) by {
            if ms.contains(m) {
                let k = choose|k: int| 0 <= k < rows@.len() && row_at(#[trigger] rows@[k], c, d) && lowered@[k]@ == m;
                assert(lv[k] == lowered@[k]@);
            }
            if has_meal_row(rows@, lv, c, d, m) {
                let k = choose|k: int| 0 <= k < rows@.len() && row_at(#[trigger] rows@[k], c, d) && lv[k] == m;
                assert(lv[k] == lowered@[k]@);
            }
        }
    }
    out
}

fn day_entries(rows: &Vec<CoverageRow>, lowered: &Vec<Vec<char>>, c: i32) -> (r: Vec<DayCoverage>)
    requires
        lowered@.len() == rows@.len(),
    ensures
        strictly_sorted(days_of(r@)),
        forall|day: i32| #[trigger] days_of(r@).contains(day) <==> has_day_row(rows@, c, day),
        forall|j: int| 0 <= j < r@.len() ==> day_matches(rows@, char_views(lowered@), c, #[trigger] r@[j]),
{
    let days = city_days(rows, c);
    let mut out: Vec<DayCoverage> = Vec::new();
    let mut j: usize = 0;
    while j < days.len()
        invariant
            j <= days@.len(),
            lowered@.len() == rows@.len(),
            out@.len() == j,
            forall|k: int| 0 <= k < j ==> (#[trigger] out@[k]).day == days@[k],
            forall|k: int| 0 <= k < j ==> day_matches(rows@, char_views(lowered@), c, #[trigger] out@[k]),
        decreases days@.len() - j,
    {
        let d = days[j];
        let meals = meal_entries(rows, lowered, c, d);
        out.push(DayCoverage { day: d, meals });
        j = j + 1;
    }
    proof {
        assert(days_of(out@) =~= days@);
    }
    out
}

/// Builds the coverage table of a month from the rows of its query.
pub fn coverage_table(rows: &Vec<CoverageRow>) -> (r: Vec<CityCoverage>)
    ensures
        table_matches(rows@, lowered_meals(rows@), r@),
{
    let lowered = lower_meals(rows);
    let ghost lv = lowered_meals(rows@);
    assert(char_views(lowered@) =~= lv);
    let mut ids: Vec<i32> = Vec::new();
    let mut i: usize = 0;
    while i < rows.len()
        invariant
            i <= rows@.len(),
            strictly_sorted(ids@),
            forall|y: i32| #[trigger] ids@.contains(y) <==> exists|k: int| 0 <= k < i && (#[trigger] rows@[k]).city_id == y,
        decreases rows@.len() - i,
    {
        let ghost before = ids@;
        insert_sorted(&mut ids, rows[i].city_id);
        proof {
            assert forall|y: i32| #[trigger] ids@.contains(y) <==> exists|k: int| 0 <= k < i + 1 && (#[trigger] rows@[k]).city_id == y by {
                if before.contains(y) {
                    let k = choose|k: int| 0 <= k < i && (#[trigger] rows@[k]).city_id == y;
                    assert(rows@[k].city_id == y);
                }
                if exists|k: int| 0 <= k < i + 1 && (#[trigger] rows@[k]).city_id == y {
                    let k = choose|k: int| 0 <= k < i + 1 && (#[trigger] rows@[k]).city_id == y;
                    if k < i {
                        assert(before.contains(y));
                    }
                }
            }
        }
        i = i + 1;
    }
    let mut out: Vec<CityCoverage> = Vec::new();
    let mut q: usize = 0;
    while q < ids.len()
        invariant
            q <= ids@.len(),
            lowered@.len() == rows@.len(),
            char_views(lowered@) == lv,
            strictly_sorted(ids@),
            forall|y: i32| #[trigger] ids@.contains(y) <==> exists|k: int| 0 <= k < rows@.len() && (#[trigger] rows@[k]).city_id == y,
            out@.len() == q,
            forall|k: int| 0 <= k < q ==> (#[trigger] out@[k]).id == ids@[k],
            forall|k: int| 0 <= k < q ==> city_matches(rows@, lv, #[trigger] out@[k]),
        decreases ids@.len() - q,
    {
        let c = ids[q];
        proof {
            assert(ids@.contains(c));
        }
        let f = first_row(rows, c);
        proof {
            lemma_first_row_of(rows@, c);
        }
        let days = day_entries(rows, &lowered, c);
        let entry = CityCoverage {
            id: c,
            name: rows[f].city_name.clone(),
            slug: rows[f].city_slug.clone(),
            days,
        };
        proof {
            assert(day_keys(entry) == days_of(days@));
            assert forall|day: i32| #[trigger] day_keys(entry).contains(day) <==> has_day_row(rows@, c, day) by {
                assert(day_keys(entry) == days_of(days@));
            }
            assert forall|j: int| 0 <= j < entry.days@.len() implies day_matches(rows@, lv, entry.id, #[trigger] entry.days@[j]) by {
                assert(entry.days@[j] == days@[j]);
            }
        }
        out.push(entry);
        q = q + 1;
    }
    proof {
        assert(city_ids(out@) =~= ids@);
        assert forall|id: i32| #[trigger] city_ids(out@).contains(id) <==> has_city_row(rows@, id) by {
            assert(city_ids(out@) =~= ids@);
        }
    }
    out
}

} // verus!
