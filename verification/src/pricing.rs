//! Dish prices by city, pricing period and meal.
//!
//! Prices are not stored with the menus: they are looked up when a menu is read, from
//! the pricing periods of the menu's city (Istanbul's periods stand in for cities that
//! have none). In July and August the dining halls run a reduced summer service and no
//! price is shown.

use vstd::prelude::*;
use crate::calendar::CalendarDate;
use crate::text::{char_vec, to_uppercase, spec_to_uppercase};
use crate::assistant::str_is;

verus! {

/// Portion and price of one priced item; the price is in kuruş (hundredths of a lira).
pub struct PriceInfo {
    pub amount: String,
    pub price_kurus: u64,
}

impl View for PriceInfo {
    type V = (Seq<char>, u64);

    open spec fn view(&self) -> (Seq<char>, u64) {
        (self.amount@, self.price_kurus)
    }
}

impl PriceInfo {
    /// A copy of the price.
    pub fn duplicate(&self) -> (r: PriceInfo)
        ensures
            r@ == self@,
    {
        PriceInfo { amount: self.amount.clone(), price_kurus: self.price_kurus }
    }
}

/// A price under its (uppercase) item or category name.
pub struct PriceEntry {
    pub key: String,
    pub info: PriceInfo,
}

/// The prices of one meal: by item name and by dish category.
///
/// Each list is a map from name to price kept as a vector: `insert_price` replaces the
/// price under a name already listed, so `price_of` finds every name's latest price. A
/// `HashMap` keyed by the name would say nothing here, as vstd's `HashMap`
/// specification gives nothing for `String` keys.
pub struct MealPricing {
    pub items: Vec<PriceEntry>,
    pub categories: Vec<PriceEntry>,
}

/// The prices of a city for a period of days, meal by meal.
pub struct PeriodPricing {
    pub period_start: CalendarDate,
    pub period_end: CalendarDate,
    pub breakfast: Option<MealPricing>,
    pub lunch: Option<MealPricing>,
    pub dinner: Option<MealPricing>,
}

/// The pricing periods of one city, in order of their start dates.
pub struct CityPricing {
    pub city: String,
    pub periods: Vec<PeriodPricing>,
}

/// Every city's pricing periods, city by city (a vector keyed by the city's slug, for the
/// reason given at `MealPricing`).
pub struct PricingTable {
    pub cities: Vec<CityPricing>,
}

/// Keys of a list of prices.
pub open spec fn entry_keys(entries: Seq<PriceEntry>) -> Seq<Seq<char>> {
    entries.map_values(|e: PriceEntry| e.key@)
}

/// Index of the first entry with `key`, or the length of the list.
pub open spec fn key_index(entries: Seq<PriceEntry>, key: Seq<char>) -> int
    decreases entries.len(),
{
    if entries.len() == 0 {
        0
    } else if entries[0].key@ == key {
        0
    } else {
        1 + key_index(entries.drop_first(), key)
    }
}

/// The price listed under `key`, if any (the first one; keys are unique when the list is
/// built with `insert_price`).
pub open spec fn price_of(entries: Seq<PriceEntry>, key: Seq<char>) -> Option<(Seq<char>, u64)> {
    let i = key_index(entries, key);
    if i < entries.len() {
        Some(entries[i].info@)
    } else {
        None
    }
}

proof fn lemma_key_index(entries: Seq<PriceEntry>, key: Seq<char>)
    ensures
        0 <= key_index(entries, key) <= entries.len(),
        key_index(entries, key) < entries.len() ==> entries[key_index(entries, key)].key@ == key,
        forall|j: int| 0 <= j < key_index(entries, key) ==> entries[j].key@ != key,
    decreases entries.len(),
{
    if entries.len() > 0 && entries[0].key@ != key {
        lemma_key_index(entries.drop_first(), key);
        assert forall|j: int| 0 <= j < key_index(entries, key) implies entries[j].key@ != key by {
            if j > 0 {
                assert(entries[j] == entries.drop_first()[j - 1]);
            }
        }
    }
}

/// Looks up the price listed under `key`.
pub fn find_price(entries: &Vec<PriceEntry>, key: &str) -> (r: Option<PriceInfo>)
    ensures
        match r {
            Some(p) => price_of(entries@, key@) == Some(p@),
            None => price_of(entries@, key@) is None,
        },
{
    proof {
        lemma_key_index(entries@, key@);
    }
    let mut i: usize = 0;
    while i < entries.len()
        invariant
            i <= entries@.len(),
            forall|j: int| 0 <= j < i ==> entries@[j].key@ != key@,
            0 <= key_index(entries@, key@) <= entries@.len(),
            key_index(entries@, key@) < entries@.len() ==> entries@[key_index(entries@, key@)].key@ == key@,
            forall|j: int| 0 <= j < key_index(entries@, key@) ==> entries@[j].key@ != key@,
        decreases entries@.len() - i,
    {
        if str_is(entries[i].key.as_str(), key) {
            assert(key_index(entries@, key@) == i);
            return Some(entries[i].info.duplicate());
        }
        i = i + 1;
    }
    assert(key_index(entries@, key@) == entries@.len());
    None
}

/// Lists `info` under `key`, replacing the price that was there (`HashMap::insert`).
pub fn insert_price(entries: &mut Vec<PriceEntry>, key: String, info: PriceInfo)
    ensures
        price_of(final(entries)@, key@) == Some(info@),
        forall|k: Seq<char>| k != key@ ==> price_of(final(entries)@, k) == price_of(old(entries)@, k),
{
    let ghost k0 = key@;
    let ghost info0 = info@;
    proof {
        lemma_key_index(entries@, key@);
    }
    let mut i: usize = 0;
    while i < entries.len()
        invariant
            i <= entries@.len(),
            entries@ == old(entries)@,
            forall|j: int| 0 <= j < i ==> entries@[j].key@ != k0,
            k0 == key@,
            info0 == info@,
        decreases entries@.len() - i,
    {
        if str_is(entries[i].key.as_str(), key.as_str()) {
            let ghost before = entries@;
            entries.set(i, PriceEntry { key, info });
            proof {
                let newv = entries@;
                assert(newv[i as int].key@ == k0);
                assert(newv[i as int].info@ == info0);
                assert forall|j: int| 0 <= j < newv.len() && j != i implies newv[j] == before[j] by {}
                assert forall|k: Seq<char>| k != k0 implies price_of(newv, k) == price_of(before, k) by {
                    lemma_key_index(before, k);
                    lemma_key_index(newv, k);
                    let a = key_index(before, k);
                    let b = key_index(newv, k);
                    if a < b {
                        assert(a != i);
                        assert(newv[a] == before[a]);
                    }
                    if b < a {
                        assert(b != i);
                        assert(newv[b] == before[b]);
                    }
                }
                assert forall|j: int| 0 <= j < i implies newv[j].key@ != k0 by {
                    assert(newv[j] == before[j]);
                }
                lemma_key_index(newv, k0);
                assert(key_index(newv, k0) == i);
            }
            return;
        }
        i = i + 1;
    }
    let ghost before = entries@;
    entries.push(PriceEntry { key, info });
    proof {
        assert forall|k: Seq<char>| k != k0 implies price_of(entries@, k) == price_of(before, k) by {
            lemma_key_index(before, k);
            lemma_key_index(entries@, k);
            let a = key_index(before, k);
            let b = key_index(entries@, k);
            assert(entries@[before.len() as int].key@ == k0);
            if a < b && a < before.len() {
                assert(entries@[a] == before[a]);
            }
            if b < a {
                assert(entries@[b] == before[b]);
            }
        }
        lemma_key_index(entries@, k0);
        assert(entries@[before.len() as int].key@ == k0);
        assert(key_index(entries@, k0) == before.len());
    }
}

/// `a` comes on or before `b` in the calendar.
pub open spec fn date_le(a: CalendarDate, b: CalendarDate) -> bool {
    a.year < b.year || (a.year == b.year && (a.month < b.month || (a.month == b.month && a.day
        <= b.day)))
}

/// Compares two dates.
pub fn date_on_or_before(a: CalendarDate, b: CalendarDate) -> (r: bool)
    ensures
        r == date_le(a, b),
{
    a.year < b.year || (a.year == b.year && (a.month < b.month || (a.month == b.month && a.day
        <= b.day)))
}

/// Index of the first period that covers `d`, or the number of periods.
pub open spec fn covering_period(periods: Seq<PeriodPricing>, d: CalendarDate) -> int
    decreases periods.len(),
{
    if periods.len() == 0 {
        0
    } else if date_le(periods[0].period_start, d) && date_le(d, periods[0].period_end) {
        0
    } else {
        1 + covering_period(periods.drop_first(), d)
    }
}

/// The period whose prices apply on `d`: the first one that covers it, otherwise the
/// last one.
pub open spec fn period_for(periods: Seq<PeriodPricing>, d: CalendarDate) -> Option<int> {
    let i = covering_period(periods, d);
    if i < periods.len() {
        Some(i)
    } else if periods.len() > 0 {
        Some(periods.len() - 1)
    } else {
        None
    }
}

proof fn lemma_covering_period(periods: Seq<PeriodPricing>, d: CalendarDate)
    ensures
        0 <= covering_period(periods, d) <= periods.len(),
        forall|j: int| 0 <= j < covering_period(periods, d) ==> !(date_le(#[trigger] periods[j].period_start, d)
            && date_le(d, periods[j].period_end)),
        covering_period(periods, d) < periods.len() ==> date_le(periods[covering_period(periods, d)].period_start, d)
            && date_le(d, periods[covering_period(periods, d)].period_end),
    decreases periods.len(),
{
    if periods.len() > 0 && !(date_le(periods[0].period_start, d) && date_le(d, periods[0].period_end)) {
        lemma_covering_period(periods.drop_first(), d);
        assert forall|j: int| 0 <= j < covering_period(periods, d) implies !(date_le(#[trigger] periods[j].period_start, d)
            && date_le(d, periods[j].period_end)) by {
            if j > 0 {
                assert(periods[j] == periods.drop_first()[j - 1]);
            }
        }
    }
}

/// The period `p` covers the day `d`: it starts on or before `d` and ends on or after it.
pub open spec fn period_covers(p: PeriodPricing, d: CalendarDate) -> bool {
    date_le(p.period_start, d) && date_le(d, p.period_end)
}

/// Which period's prices apply on a day: the first period that covers the day; when
/// none does, the last period (the one with the latest start, the periods being kept
/// in start order); no period at all when the city has none.
pub proof fn lemma_period_choice(periods: Seq<PeriodPricing>, d: CalendarDate)
    ensures
        period_for(periods, d) is None <==> periods.len() == 0,
        period_for(periods, d) matches Some(i) ==> 0 <= i < periods.len(),
        forall|i: int|
            0 <= i < periods.len() && period_covers(periods[i], d) && (forall|j: int|
                0 <= j < i ==> !period_covers(#[trigger] periods[j], d)) ==> period_for(periods, d) == Some(i),
        periods.len() > 0 && (forall|j: int| 0 <= j < periods.len() ==> !period_covers(#[trigger] periods[j], d))
            ==> period_for(periods, d) == Some(periods.len() - 1),
{
    lemma_covering_period(periods, d);
    let c = covering_period(periods, d);
    assert forall|i: int|
        0 <= i < periods.len() && period_covers(periods[i], d) && (forall|j: int|
            0 <= j < i ==> !period_covers(#[trigger] periods[j], d)) implies period_for(periods, d) == Some(i) by {
        if c < i {
            assert(period_covers(periods[c], d));
        } else if c > i {
            assert(!(date_le(periods[i].period_start, d) && date_le(d, periods[i].period_end)));
        }
    }
    if periods.len() > 0 && (forall|j: int| 0 <= j < periods.len() ==> !period_covers(#[trigger] periods[j], d)) {
        if c < periods.len() {
            assert(period_covers(periods[c], d));
        }
    }
}

/// Chooses the pricing period for a day.
pub fn choose_period(periods: &Vec<PeriodPricing>, d: CalendarDate) -> (r: Option<usize>)
    ensures
        match r {
            Some(i) => period_for(periods@, d) == Some(i as int),
            None => period_for(periods@, d) is None,
        },
        r is None <==> periods@.len() == 0,
        r matches Some(i) ==> i < periods@.len() && (period_covers(periods@[i as int], d) || (i == periods@.len() - 1
            && forall|j: int| 0 <= j < periods@.len() ==> !period_covers(#[trigger] periods@[j], d))),
        r matches Some(i) ==> forall|j: int| 0 <= j < i ==> !period_covers(#[trigger] periods@[j], d),
{
    proof {
        lemma_covering_period(periods@, d);
        lemma_period_choice(periods@, d);
    }
    let mut i: usize = 0;
    while i < periods.len()
        invariant
            i <= periods@.len(),
            forall|j: int| 0 <= j < i ==> !(date_le(#[trigger] periods@[j].period_start, d) && date_le(d, periods@[j].period_end)),
            0 <= covering_period(periods@, d) <= periods@.len(),
            forall|j: int| 0 <= j < covering_period(periods@, d) ==> !(date_le(#[trigger] periods@[j].period_start, d)
                && date_le(d, periods@[j].period_end)),
            covering_period(periods@, d) < periods@.len() ==> date_le(periods@[covering_period(periods@, d)].period_start, d)
                && date_le(d, periods@[covering_period(periods@, d)].period_end),
        decreases periods@.len() - i,
    {
        if date_on_or_before(periods[i].period_start, d) && date_on_or_before(d, periods[i].period_end) {
            assert(covering_period(periods@, d) == i);
            return Some(i);
        }
        i = i + 1;
    }
    if periods.len() > 0 {
        Some(periods.len() - 1)
    } else {
        None
    }
}

/// Index of the first city entry named `city`, or the number of entries.
pub open spec fn city_index(cities: Seq<CityPricing>, city: Seq<char>) -> int
    decreases cities.len(),
{
    if cities.len() == 0 {
        0
    } else if cities[0].city@ == city {
        0
    } else {
        1 + city_index(cities.drop_first(), city)
    }
}

proof fn lemma_city_index(cities: Seq<CityPricing>, city: Seq<char>)
    ensures
        0 <= city_index(cities, city) <= cities.len(),
        city_index(cities, city) < cities.len() ==> cities[city_index(cities, city)].city@ == city,
        forall|j: int| 0 <= j < city_index(cities, city) ==> cities[j].city@ != city,
    decreases cities.len(),
{
    if cities.len() > 0 && cities[0].city@ != city {
        lemma_city_index(cities.drop_first(), city);
        assert forall|j: int| 0 <= j < city_index(cities, city) implies cities[j].city@ != city by {
            if j > 0 {
                assert(cities[j] == cities.drop_first()[j - 1]);
            }
        }
    }
}

fn find_city(cities: &Vec<CityPricing>, city: &str) -> (r: usize)
    ensures
        r == city_index(cities@, city@),
{
    proof {
        lemma_city_index(cities@, city@);
    }
    let mut i: usize = 0;
    while i < cities.len()
        invariant
            i <= cities@.len(),
            forall|j: int| 0 <= j < i ==> cities@[j].city@ != city@,
            0 <= city_index(cities@, city@) <= cities@.len(),
            city_index(cities@, city@) < cities@.len() ==> cities@[city_index(cities@, city@)].city@ == city@,
            forall|j: int| 0 <= j < city_index(cities@, city@) ==> cities@[j].city@ != city@,
        decreases cities@.len() - i,
    {
        if str_is(cities[i].city.as_str(), city) {
            return i;
        }
        i = i + 1;
    }
    i
}

/// The pricing periods of a city; Istanbul's when the city has none of its own.
pub open spec fn periods_of(table: PricingTable, city: Seq<char>) -> Option<Seq<PeriodPricing>> {
    let i = city_index(table.cities@, city);
    let j = city_index(table.cities@, "istanbul"@);
    if i < table.cities@.len() {
        Some(table.cities@[i].periods@)
    } else if j < table.cities@.len() {
        Some(table.cities@[j].periods@)
    } else {
        None
    }
}

/// The prices of a meal in a period (`breakfast`, `lunch` or `dinner`).
pub open spec fn meal_prices(p: PeriodPricing, meal: Seq<char>) -> Option<MealPricing> {
    if meal == "breakfast"@ {
        p.breakfast
    } else if meal == "lunch"@ {
        p.lunch
    } else if meal == "dinner"@ {
        p.dinner
    } else {
        None
    }
}

/// The price of a dish in a meal's prices: by the dish's uppercase name among the items,
/// else by its uppercase category, else by the uppercase category that the dish
/// categorizer detected for it.
pub open spec fn price_in_meal(
    mp: MealPricing,
    category: Option<Seq<char>>,
    name: Seq<char>,
    detected: Option<Seq<char>>,
) -> Option<(Seq<char>, u64)> {
    let by_name = price_of(mp.items@, spec_to_uppercase(name));
    let by_category = match category {
        Some(c) => price_of(mp.categories@, spec_to_uppercase(c)),
        None => None,
    };
    let by_detected = match detected {
        Some(c) => price_of(mp.categories@, spec_to_uppercase(c)),
        None => None,
    };
    if by_name is Some {
        by_name
    } else if by_category is Some {
        by_category
    } else {
        by_detected
    }
}

/// The price of a dish for a city, day and meal. No price in July and August; the day
/// defaults to `today`; the period is the one covering the day, else the latest.
pub open spec fn spec_pricing_info(
    table: PricingTable,
    city: Seq<char>,
    serve_date: Option<CalendarDate>,
    today: CalendarDate,
    meal: Seq<char>,
    category: Option<Seq<char>>,
    name: Seq<char>,
    detected: Option<Seq<char>>,
) -> Option<(Seq<char>, u64)> {
    if serve_date matches Some(d) && (d.month == 7 || d.month == 8) {
        None
    } else {
        let target = match serve_date {
            Some(d) => d,
            None => today,
        };
        match periods_of(table, city) {
            Some(periods) => match period_for(periods, target) {
                Some(i) => match meal_prices(periods[i], meal) {
                    Some(mp) => price_in_meal(mp, category, name, detected),
                    None => None,
                },
                None => None,
            },
            None => None,
        }
    }
}

/// A city is priced by its own periods (those of the first entry under its name); a city
/// with no entry is priced by Istanbul's; with neither there are no prices.
pub proof fn lemma_city_periods(table: PricingTable, city: Seq<char>)
    ensures
        forall|i: int|
            0 <= i < table.cities@.len() && (#[trigger] table.cities@[i]).city@ == city && (forall|j: int|
                0 <= j < i ==> table.cities@[j].city@ != city) ==> periods_of(table, city) == Some(
                table.cities@[i].periods@,
            ),
        forall|k: int|
            0 <= k < table.cities@.len() && (forall|j: int| 0 <= j < table.cities@.len() ==> table.cities@[j].city@ != city)
                && (#[trigger] table.cities@[k]).city@ == "istanbul"@ && (forall|j: int|
                0 <= j < k ==> table.cities@[j].city@ != "istanbul"@) ==> periods_of(table, city) == Some(
                table.cities@[k].periods@,
            ),
        (forall|j: int| 0 <= j < table.cities@.len() ==> table.cities@[j].city@ != city && table.cities@[j].city@
            != "istanbul"@) ==> periods_of(table, city) is None,
{
    let cs = table.cities@;
    lemma_city_index(cs, city);
    lemma_city_index(cs, "istanbul"@);
    let ci = city_index(cs, city);
    let ii = city_index(cs, "istanbul"@);
    assert forall|i: int|
        0 <= i < cs.len() && (#[trigger] cs[i]).city@ == city && (forall|j: int| 0 <= j < i ==> cs[j].city@ != city)
            implies periods_of(table, city) == Some(cs[i].periods@) by {
        if ci < i {
            assert(cs[ci].city@ == city);
        } else if ci > i {
            assert(cs[i].city@ != city);
        }
    }
    assert forall|k: int|
        0 <= k < cs.len() && (forall|j: int| 0 <= j < cs.len() ==> cs[j].city@ != city) && (#[trigger] cs[k]).city@
            == "istanbul"@ && (forall|j: int| 0 <= j < k ==> cs[j].city@ != "istanbul"@) implies periods_of(table, city)
        == Some(cs[k].periods@) by {
        if ci < cs.len() {
            assert(cs[ci].city@ == city);
        }
        if ii < k {
            assert(cs[ii].city@ == "istanbul"@);
        } else if ii > k {
            assert(cs[k].city@ != "istanbul"@);
        }
    }
    if forall|j: int| 0 <= j < cs.len() ==> cs[j].city@ != city && cs[j].city@ != "istanbul"@ {
        if ci < cs.len() {
            assert(cs[ci].city@ == city);
        }
        if ii < cs.len() {
            assert(cs[ii].city@ == "istanbul"@);
        }
    }
}

/// Outside July and August, a day that no pricing period of the city covers is priced by
/// the city's last period (the latest to start), and a day that a period covers by the
/// first period covering it.
pub proof fn lemma_price_period(
    table: PricingTable,
    city: Seq<char>,
    d: CalendarDate,
    today: CalendarDate,
    meal: Seq<char>,
    category: Option<Seq<char>>,
    name: Seq<char>,
    detected: Option<Seq<char>>,
)
    requires
        d.month != 7 && d.month != 8,
        periods_of(table, city) is Some,
    ensures
        ({
            let ps = periods_of(table, city)->Some_0;
            let got = spec_pricing_info(table, city, Some(d), today, meal, category, name, detected);
            let priced_by = |p: PeriodPricing|
                match meal_prices(p, meal) {
                    Some(mp) => price_in_meal(mp, category, name, detected),
                    None => None,
                };
            &&& (ps.len() > 0 && (forall|j: int| 0 <= j < ps.len() ==> !period_covers(#[trigger] ps[j], d)))
                ==> got == priced_by(ps.last())
            &&& forall|i: int|
                0 <= i < ps.len() && period_covers(ps[i], d) && (forall|j: int|
                    0 <= j < i ==> !period_covers(#[trigger] ps[j], d)) ==> got == priced_by(ps[i])
            &&& ps.len() == 0 ==> got is None
        }),
{
    let ps = periods_of(table, city)->Some_0;
    lemma_period_choice(ps, d);
}

/// A dish listed by name in a meal's prices is priced by that entry, whatever its
/// category; otherwise its category's price applies before the detected category's.
pub proof fn lemma_price_by_name_first(
    mp: MealPricing,
    category: Option<Seq<char>>,
    name: Seq<char>,
    detected: Option<Seq<char>>,
)
    ensures
        price_of(mp.items@, spec_to_uppercase(name)) matches Some(x) ==> price_in_meal(mp, category, name, detected)
            == Some(x),
        price_of(mp.items@, spec_to_uppercase(name)) is None && category is Some && price_of(
            mp.categories@,
            spec_to_uppercase(category->Some_0),
        ) is Some ==> price_in_meal(mp, category, name, detected) == price_of(
            mp.categories@,
            spec_to_uppercase(category->Some_0),
        ),
        price_of(mp.items@, spec_to_uppercase(name)) is None && (category is None || price_of(
            mp.categories@,
            spec_to_uppercase(category->Some_0),
        ) is None) ==> price_in_meal(mp, category, name, detected) == (match detected {
            Some(c) => price_of(mp.categories@, spec_to_uppercase(c)),
            None => None,
        }),
{
}

/// No prices are shown for menus served in July or August, whatever the table says.
pub proof fn lemma_no_summer_prices(
    table: PricingTable,
    city: Seq<char>,
    serve_date: CalendarDate,
    today: CalendarDate,
    meal: Seq<char>,
    category: Option<Seq<char>>,
    name: Seq<char>,
    detected: Option<Seq<char>>,
)
    requires
        serve_date.month == 7 || serve_date.month == 8,
    ensures
        spec_pricing_info(table, city, Some(serve_date), today, meal, category, name, detected) is None,
{
}

/// The characters of an optional string slice.
pub open spec fn opt_str_view(o: Option<&str>) -> Option<Seq<char>> {
    match o {
        Some(s) => Some(s@),
        None => None,
    }
}

fn price_in_meal_exec(
    mp: &MealPricing,
    category: Option<&str>,
    name: &str,
    detected: Option<&str>,
) -> (r: Option<PriceInfo>)
    ensures
        match r {
            Some(p) => price_in_meal(*mp, opt_str_view(category), name@, opt_str_view(detected)) == Some(p@),
            None => price_in_meal(*mp, opt_str_view(category), name@, opt_str_view(detected)) is None,
        },
{
    let upper_name = to_uppercase(name);
    match find_price(&mp.items, upper_name.as_str()) {
        Some(p) => return Some(p),
        None => {},
    }
    match category {
        Some(c) => {
            let uc = to_uppercase(c);
            match find_price(&mp.categories, uc.as_str()) {
                Some(p) => return Some(p),
                None => {},
            }
        },
        None => {},
    }
    match detected {
        Some(c) => {
            let uc = to_uppercase(c);
            find_price(&mp.categories, uc.as_str())
        },
        None => None,
    }
}

/// The price of a dish on a city's menu for a day and meal: hidden in July and August;
/// otherwise looked up in the period covering the day (or the latest period) of the
/// city, or of Istanbul when the city has no prices, by the dish's name, its category,
/// then the category `detected` for it by the dish categorizer.
pub fn get_pricing_info_for_city(
    table: &PricingTable,
    city: &str,
    serve_date: Option<CalendarDate>,
    today: CalendarDate,
    meal_type: &str,
    category: Option<&str>,
    name: &str,
    detected: Option<&str>,
) -> (r: Option<PriceInfo>)
    ensures
        match r {
            Some(p) => spec_pricing_info(*table, city@, serve_date, today, meal_type@, opt_str_view(category), name@, opt_str_view(detected)) == Some(p@),
            None => spec_pricing_info(*table, city@, serve_date, today, meal_type@, opt_str_view(category), name@, opt_str_view(detected)) is None,
        },
{
    match serve_date {
        Some(d) => {
            if d.month == 7 || d.month == 8 {
                return None;
            }
        },
        None => {},
    }
    let target = match serve_date {
        Some(d) => d,
        None => today,
    };
    let i = find_city(&table.cities, city);
    let j = find_city(&table.cities, "istanbul");
    let periods = if i < table.cities.len() {
        &table.cities[i].periods
    } else if j < table.cities.len() {
        &table.cities[j].periods
    } else {
        return None;
    };
    let k = match choose_period(periods, target) {
        Some(k) => k,
        None => return None,
    };
    let p = &periods[k];
    let mp = if str_is(meal_type, "breakfast") {
        &p.breakfast
    } else if str_is(meal_type, "lunch") {
        &p.lunch
    } else if str_is(meal_type, "dinner") {
        &p.dinner
    } else {
        return None;
    };
    match mp {
        Some(m) => price_in_meal_exec(m, category, name, detected),
        None => None,
    }
}

} // verus!
