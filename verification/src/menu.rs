//! How a menu is put together for clients from the rows of its dishes: which dishes go
//! on the tray, which into take-away packages and which are left out (junk entries,
//! and, in celiac mode, everything that is not gluten-free), what each dish costs, the
//! calorie figures, and which reports of other sources are shown beside it.

use vstd::prelude::*;
use crate::calendar::{CalendarDate, date_of, date_from_ymd};
use crate::dto::menu::{
    MealType, MenuItemDto, MenuItemView, DishMasterDataDto, DishMasterView, TakeawayMenuDto,
    TakeawayView, item_views, AlternativeMenuDto,
};
use crate::pricing::{PricingTable, get_pricing_info_for_city, spec_pricing_info, opt_str_view};
use crate::text::{
    trim, spec_trim, to_lowercase, spec_to_lowercase, is_alphanumeric, spec_is_alphanumeric,
    char_vec, to_uppercase, spec_to_uppercase, contains_str, spec_contains, extend_str,
    extend_chars, decimal_i128, spec_int_decimal, string_from_chars,
};
use crate::validation::opt_string_view;
use crate::assistant::{str_is, chars_equal};
use crate::ordering::{lex_le, chars_le, sort_by, insert_by, insert_position, lemma_insert_by};

verus! {

/// The calorie range printed for a menu: `"min - max kcal"`, or the one bound that is
/// known followed by `" kcal"`.
pub open spec fn spec_calorie_range(min: Option<i32>, max: Option<i32>) -> Option<Seq<char>> {
    match (min, max) {
        (Some(a), Some(b)) => Some(spec_int_decimal(a as int) + " - "@ + spec_int_decimal(b as int) + " kcal"@),
        (Some(a), None) => Some(spec_int_decimal(a as int) + " kcal"@),
        (None, Some(b)) => Some(spec_int_decimal(b as int) + " kcal"@),
        (None, None) => None,
    }
}

/// Formats the calorie range of a menu.
pub fn format_calorie_range(min: Option<i32>, max: Option<i32>) -> (r: Option<String>)
    ensures
        opt_string_view(&r) == spec_calorie_range(min, max),
{
    match (min, max) {
        (Some(a), Some(b)) => {
            let mut out = decimal_i128(a as i128);
            extend_str(&mut out, " - ");
            let bv = decimal_i128(b as i128);
            extend_chars(&mut out, bv.as_slice());
            extend_str(&mut out, " kcal");
            Some(string_from_chars(out.as_slice()))
        },
        (Some(a), None) => {
            let mut out = decimal_i128(a as i128);
            extend_str(&mut out, " kcal");
            Some(string_from_chars(out.as_slice()))
        },
        (None, Some(b)) => {
            let mut out = decimal_i128(b as i128);
            extend_str(&mut out, " kcal");
            Some(string_from_chars(out.as_slice()))
        },
        (None, None) => None,
    }
}

/// Sum of the known calories of the dishes that are not alternatives.
pub open spec fn tray_calories(items: Seq<MenuItemDto>) -> int
    decreases items.len(),
{
    if items.len() == 0 {
        0
    } else {
        tray_calories(items.drop_last()) + match items.last() {
            MenuItemDto { is_alternative: false, calories: Some(c), .. } => c as int,
            _ => 0,
        }
    }
}

/// Some dish that is not an alternative has a known calorie count.
pub open spec fn has_tray_calories(items: Seq<MenuItemDto>) -> bool {
    exists|i: int| 0 <= i < items.len() && !(#[trigger] items[i]).is_alternative && items[i].calories is Some
}

/// Total calories of a tray: the known calories of its dishes, leaving out the
/// alternatives (they replace a dish rather than add to it); `None` when no dish has a
/// known calorie count.
pub fn calculate_total_calories(items: &[MenuItemDto]) -> (r: Option<i32>)
    requires
        forall|k: int| 0 <= k <= items@.len() ==> i32::MIN <= #[trigger] tray_calories(items@.take(k)) <= i32::MAX,
    ensures
        r == (if has_tray_calories(items@) { Some(tray_calories(items@) as i32) } else { None }),
{
    let mut total: i32 = 0;
    let mut has = false;
    let mut i: usize = 0;
    assert(items@.take(0) =~= Seq::<MenuItemDto>::empty());
    while i < items.len()
        invariant
            i <= items@.len(),
            forall|k: int| 0 <= k <= items@.len() ==> i32::MIN <= #[trigger] tray_calories(items@.take(k)) <= i32::MAX,
            total == tray_calories(items@.take(i as int)),
            has == has_tray_calories(items@.take(i as int)),
        decreases items@.len() - i,
    {
        let ghost pre = items@.take(i as int);
        let ghost next = items@.take(i + 1);
        assert(next.drop_last() =~= pre);
        assert(next.last() == items@[i as int]);
        assert(tray_calories(next) <= i32::MAX);
        assert(tray_calories(next) >= i32::MIN);
        if !items[i].is_alternative {
            match items[i].calories {
                Some(c) => {
                    total = total + c;
                    has = true;
                    assert(!next[i as int].is_alternative && next[i as int].calories is Some);
                },
                None => {},
            }
        }
        proof {
            if has_tray_calories(next) && !has_tray_calories(pre) {
                let w = choose|j: int| 0 <= j < next.len() && !(#[trigger] next[j]).is_alternative && next[j].calories is Some;
                if w < i {
                    assert(pre[w] == next[w]);
                }
            }
            if has_tray_calories(pre) {
                let w = choose|j: int| 0 <= j < pre.len() && !(#[trigger] pre[j]).is_alternative && pre[j].calories is Some;
                assert(next[w] == pre[w]);
            }
        }
        i = i + 1;
    }
    assert(items@.take(items@.len() as int) =~= items@);
    if has {
        Some(total)
    } else {
        None
    }
}

/// Where a dish of a menu is served.
#[derive(Clone, Copy, Debug, PartialEq, Eq, Structural)]
pub enum Placement {
    /// On the tray of the meal.
    Tray,
    /// In the take-away package named after its package.
    Takeaway,
    /// Not shown.
    Dropped,
}

/// The package is a celiac (gluten-free) one: its uppercase name contains "ÇÖLYAK" or
/// "COLYAK".
pub open spec fn is_celiac_package(package: Seq<char>) -> bool {
    spec_contains(spec_to_uppercase(package), "ÇÖLYAK"@) || spec_contains(
        spec_to_uppercase(package),
        "COLYAK"@,
    )
}

/// Where a dish goes. In celiac mode only celiac packages and celiac dishes of the
/// normal tray are shown, all on the tray. Otherwise celiac packages are hidden, the
/// `NORMAL` package is the tray, and every other package is a take-away.
pub open spec fn spec_placement(package: Seq<char>, dish_is_celiac: bool, celiac_mode: bool) -> Placement {
    let celiac_pkg = is_celiac_package(package);
    let normal = package == "NORMAL"@;
    if celiac_mode {
        if celiac_pkg || (normal && dish_is_celiac) {
            Placement::Tray
        } else {
            Placement::Dropped
        }
    } else if celiac_pkg {
        Placement::Dropped
    } else if normal {
        Placement::Tray
    } else {
        Placement::Takeaway
    }
}

/// Decides where a dish of the given package goes.
pub fn item_placement(package: &str, dish_is_celiac: bool, celiac_mode: bool) -> (r: Placement)
    ensures
        r == spec_placement(package@, dish_is_celiac, celiac_mode),
{
    let upper = to_uppercase(package);
    let uv = char_vec(upper.as_str());
    let celiac_pkg = contains_str(uv.as_slice(), "ÇÖLYAK") || contains_str(uv.as_slice(), "COLYAK");
    let normal = str_is(package, "NORMAL");
    if celiac_mode {
        if celiac_pkg || (normal && dish_is_celiac) {
            Placement::Tray
        } else {
            Placement::Dropped
        }
    } else if celiac_pkg {
        Placement::Dropped
    } else if normal {
        Placement::Tray
    } else {
        Placement::Takeaway
    }
}

/// A catalogue dish a menu entry was matched to, with its vote counts.
pub struct DishRecord {
    pub id: i32,
    pub name: String,
    pub category: Option<String>,
    pub is_celiac: bool,
    pub is_vegan: bool,
    pub is_vegetarian: bool,
    pub estimated_calories: Option<i32>,
    pub total_votes: i32,
    pub positive_votes: i32,
    pub negative_votes: i32,
}

/// One dish row of a stored menu: its place and package, the name it was published
/// under, and the catalogue dish that name is an alias of. `alias_is_junk` is the
/// content guard's verdict on the name (placeholder texts such as "Veri yok" are
/// junk); `detected_category` is the dish categorizer's category for the dish.
pub struct MenuDishRow {
    pub order_index: i32,
    pub package_name: String,
    pub is_alternative: bool,
    pub amount: Option<String>,
    pub calories: Option<i32>,
    pub alias_name: String,
    pub alias_is_junk: bool,
    pub dish: Option<DishRecord>,
    pub detected_category: Option<String>,
}

/// The city, day and meal of a menu, and whether the client asked for celiac mode.
pub struct MenuContext {
    pub city_slug: String,
    pub serve_date: CalendarDate,
    pub meal: MealType,
    pub celiac_mode: bool,
}

/// The name a dish is priced by: its catalogue name, else its published name.
pub open spec fn pricing_name(row: MenuDishRow) -> Seq<char> {
    match row.dish {
        Some(d) => d.name@,
        None => row.alias_name@,
    }
}

/// The catalogue category of a dish row.
pub open spec fn row_category(row: MenuDishRow) -> Option<Seq<char>> {
    match row.dish {
        Some(d) => opt_string_view(&d.category),
        None => None,
    }
}

/// The price of a dish row on its menu's day.
pub open spec fn row_price(row: MenuDishRow, table: PricingTable, ctx: MenuContext) -> Option<(Seq<char>, u64)> {
    spec_pricing_info(
        table,
        ctx.city_slug@,
        Some(ctx.serve_date),
        ctx.serve_date,
        ctx.meal.spec_wire_name(),
        row_category(row),
        pricing_name(row),
        opt_string_view(&row.detected_category),
    )
}

/// The dish a client sees for a row: the published name, the row's portion (else the
/// priced portion), the price, the catalogue category and the catalogue entry.
pub open spec fn row_item(row: MenuDishRow, price: Option<(Seq<char>, u64)>) -> MenuItemView {
    MenuItemView {
        order_index: row.order_index,
        raw_name: row.alias_name@,
        is_alternative: row.is_alternative,
        amount: match row.amount {
            Some(a) => Some(a@),
            None => match price {
                Some(p) => Some(p.0),
                None => None,
            },
        },
        calories: row.calories,
        price_kurus: match price {
            Some(p) => Some(p.1),
            None => None,
        },
        category: row_category(row),
        master_data: match row.dish {
            Some(d) => Some(
                DishMasterView {
                    dish_id: d.id,
                    name: d.name@,
                    is_celiac: d.is_celiac,
                    is_vegan: d.is_vegan,
                    is_vegetarian: d.is_vegetarian,
                    estimated_calories: d.estimated_calories,
                    total_votes: d.total_votes,
                    positive_votes: d.positive_votes,
                    negative_votes: d.negative_votes,
                },
            ),
            None => None,
        },
    }
}

/// A dish keeps the portion its menu row publishes, whatever the price table says; only a
/// row without one shows the priced portion (and none when there is no price); the price
/// is the one looked up, if any.
pub proof fn lemma_row_portion(row: MenuDishRow, price: Option<(Seq<char>, u64)>)
    ensures
        row.amount matches Some(a) ==> row_item(row, price).amount == Some(a@),
        row.amount is None ==> row_item(row, price).amount == (match price {
            Some(p) => Some(p.0),
            None => None::<Seq<char>>,
        }),
        row_item(row, price).price_kurus == (match price {
            Some(p) => Some(p.1),
            None => None::<u64>,
        }),
        row_item(row, price).raw_name == row.alias_name@,
        row_item(row, price).order_index == row.order_index,
{
}

/// Where a row goes: junk names are dropped, the others by their package.
pub open spec fn row_placement(row: MenuDishRow, celiac_mode: bool) -> Placement {
    if row.alias_is_junk {
        Placement::Dropped
    } else {
        spec_placement(
            row.package_name@,
            match row.dish {
                Some(d) => d.is_celiac,
                None => false,
            },
            celiac_mode,
        )
    }
}

/// Builds the dish a client sees for a row, and decides where it goes.
pub fn menu_item_of_row(row: MenuDishRow, table: &PricingTable, ctx: &MenuContext) -> (r: (
    MenuItemDto,
    Placement,
    String,
))
    ensures
        r.0@ == row_item(row, row_price(row, *table, *ctx)),
        row.amount matches Some(a) ==> r.0@.amount == Some(a@),
        row.amount is None ==> r.0@.amount == (match row_price(row, *table, *ctx) {
            Some(p) => Some(p.0),
            None => None::<Seq<char>>,
        }),
        r.0@.price_kurus == (match row_price(row, *table, *ctx) {
            Some(p) => Some(p.1),
            None => None::<u64>,
        }),
        r.1 == row_placement(row, ctx.celiac_mode),
        r.2@ == row.package_name@,
{
    let ghost row0 = row;
    let dish_is_celiac = match &row.dish {
        Some(d) => d.is_celiac,
        None => false,
    };
    let placement = if row.alias_is_junk {
        Placement::Dropped
    } else {
        item_placement(row.package_name.as_str(), dish_is_celiac, ctx.celiac_mode)
    };
    let price = {
        let (category, name): (Option<&str>, &str) = match &row.dish {
            Some(d) => (
                match &d.category {
                    Some(c) => Some(c.as_str()),
                    None => None,
                },
                d.name.as_str(),
            ),
            None => (None, row.alias_name.as_str()),
        };
        let detected: Option<&str> = match &row.detected_category {
            Some(c) => Some(c.as_str()),
            None => None,
        };
        get_pricing_info_for_city(
            table,
            ctx.city_slug.as_str(),
            Some(ctx.serve_date),
            ctx.serve_date,
            ctx.meal.wire_name(),
            category,
            name,
            detected,
        )
    };
    let MenuDishRow {
        order_index,
        package_name,
        is_alternative,
        amount,
        calories,
        alias_name,
        alias_is_junk: _,
        dish,
        detected_category: _,
    } = row;
    let (amount, price_kurus) = match price {
        Some(p) => (
            match amount {
                Some(a) => Some(a),
                None => Some(p.amount),
            },
            Some(p.price_kurus),
        ),
        None => (amount, None),
    };
    let (category, master_data) = match dish {
        Some(d) => (
            d.category,
            Some(
                DishMasterDataDto {
                    dish_id: d.id,
                    name: d.name,
                    is_celiac: d.is_celiac,
                    is_vegan: d.is_vegan,
                    is_vegetarian: d.is_vegetarian,
                    estimated_calories: d.estimated_calories,
                    total_votes: d.total_votes,
                    positive_votes: d.positive_votes,
                    negative_votes: d.negative_votes,
                },
            ),
        ),
        None => (None, None),
    };
    let item = MenuItemDto {
        order_index,
        raw_name: alias_name,
        is_alternative,
        amount,
        calories,
        price_kurus,
        category,
        master_data,
    };
    (item, placement, package_name)
}

/// The tray dishes of a menu's rows, in row order.
pub open spec fn tray_views(rows: Seq<MenuDishRow>, table: PricingTable, ctx: MenuContext) -> Seq<MenuItemView>
    decreases rows.len(),
{
    if rows.len() == 0 {
        Seq::empty()
    } else {
        let prev = tray_views(rows.drop_last(), table, ctx);
        if row_placement(rows.last(), ctx.celiac_mode) == Placement::Tray {
            prev.push(row_item(rows.last(), row_price(rows.last(), table, ctx)))
        } else {
            prev
        }
    }
}

/// The take-away dishes of a menu's rows with their package names, in row order.
pub open spec fn takeaway_pairs(rows: Seq<MenuDishRow>, table: PricingTable, ctx: MenuContext) -> Seq<(Seq<char>, MenuItemView)>
    decreases rows.len(),
{
    if rows.len() == 0 {
        Seq::empty()
    } else {
        let prev = takeaway_pairs(rows.drop_last(), table, ctx);
        if row_placement(rows.last(), ctx.celiac_mode) == Placement::Takeaway {
            prev.push((rows.last().package_name@, row_item(rows.last(), row_price(rows.last(), table, ctx))))
        } else {
            prev
        }
    }
}

/// Order of dishes in a package: by position, a dish before its alternatives.
pub open spec fn item_key_le(a: MenuItemView, b: MenuItemView) -> bool {
    a.order_index < b.order_index || (a.order_index == b.order_index && (!a.is_alternative
        || b.is_alternative))
}

/// Order of take-away dishes: by package name, then by position within the package.
pub open spec fn package_le(a: (Seq<char>, MenuItemView), b: (Seq<char>, MenuItemView)) -> bool {
    (a.0 != b.0 && lex_le(a.0, b.0)) || (a.0 == b.0 && item_key_le(a.1, b.1))
}

/// `package_le` as a relation value.
pub open spec fn by_package() -> spec_fn((Seq<char>, MenuItemView), (Seq<char>, MenuItemView)) -> bool {
    |a: (Seq<char>, MenuItemView), b: (Seq<char>, MenuItemView)| package_le(a, b)
}

/// The packages of a sequence of dishes sorted by package: each maximal run of one
/// package name becomes a package.
pub open spec fn package_runs(pairs: Seq<(Seq<char>, MenuItemView)>) -> Seq<TakeawayView>
    decreases pairs.len(),
{
    if pairs.len() == 0 {
        Seq::empty()
    } else {
        let prev = package_runs(pairs.drop_last());
        let (name, item) = pairs.last();
        if prev.len() > 0 && prev.last().name == name {
            prev.update(
                prev.len() - 1,
                TakeawayView { name: name, items: prev.last().items.push(item) },
            )
        } else {
            prev.push(TakeawayView { name: name, items: seq![item] })
        }
    }
}

/// The take-away packages of a menu: its take-away dishes grouped by package, the
/// packages in order of their names, the dishes of a package by position (a dish before
/// its alternatives, rows of equal position in row order).
pub open spec fn spec_takeaways(rows: Seq<MenuDishRow>, table: PricingTable, ctx: MenuContext) -> Seq<TakeawayView> {
    package_runs(sort_by(takeaway_pairs(rows, table, ctx), by_package()))
}

/// Names of packages listed in strictly increasing order (so each name once).
pub open spec fn names_increasing(ts: Seq<TakeawayView>) -> bool {
    forall|i: int, j: int| 0 <= i < j < ts.len() ==> lex_le(#[trigger] ts[i].name, #[trigger] ts[j].name) && ts[i].name != ts[j].name
}

proof fn lemma_package_order()
    ensures
        forall|a: (Seq<char>, MenuItemView), b: (Seq<char>, MenuItemView)| #[trigger] by_package()(a, b) || by_package()(b, a),
        forall|a: (Seq<char>, MenuItemView), b: (Seq<char>, MenuItemView), c: (Seq<char>, MenuItemView)|
            #[trigger] by_package()(a, b) && #[trigger] by_package()(b, c) ==> by_package()(a, c),
{
    assert forall|a: (Seq<char>, MenuItemView), b: (Seq<char>, MenuItemView)| #[trigger] by_package()(a, b) || by_package()(b, a) by {
        crate::ordering::lemma_lex_le_total(a.0, b.0);
    }
    assert forall|a: (Seq<char>, MenuItemView), b: (Seq<char>, MenuItemView), c: (Seq<char>, MenuItemView)|
        #[trigger] by_package()(a, b) && #[trigger] by_package()(b, c) implies by_package()(a, c) by {
        if a.0 != b.0 && b.0 != c.0 {
            crate::ordering::lemma_lex_le_transitive(a.0, b.0, c.0);
            crate::ordering::lemma_lex_le_total(a.0, b.0);
        }
    }
}

proof fn lemma_runs_increasing(p: Seq<(Seq<char>, MenuItemView)>)
    requires
        forall|i: int, j: int| 0 <= i < j < p.len() ==> lex_le(#[trigger] p[i].0, #[trigger] p[j].0),
    ensures
        names_increasing(package_runs(p)),
        p.len() > 0 ==> package_runs(p).len() > 0 && package_runs(p).last().name == p.last().0,
        p.len() == 0 ==> package_runs(p).len() == 0,
    decreases p.len(),
{
    if p.len() > 0 {
        let q = p.drop_last();
        assert forall|i: int, j: int| 0 <= i < j < q.len() implies lex_le(#[trigger] q[i].0, #[trigger] q[j].0) by {
            assert(q[i] == p[i] && q[j] == p[j]);
        }
        lemma_runs_increasing(q);
        let prev = package_runs(q);
        let (name, item) = p.last();
        let r = package_runs(p);
        if prev.len() > 0 && prev.last().name == name {
            assert forall|i: int, j: int| 0 <= i < j < r.len() implies lex_le(#[trigger] r[i].name, #[trigger] r[j].name) && r[i].name != r[j].name by {
                assert(r[i].name == prev[i].name && r[j].name == prev[j].name);
            }
        } else {
            if prev.len() > 0 {
                assert(lex_le(q.last().0, name)) by {
                    assert(q.last() == p[p.len() - 2]);
                }
            }
            assert forall|i: int, j: int| 0 <= i < j < r.len() implies lex_le(#[trigger] r[i].name, #[trigger] r[j].name) && r[i].name != r[j].name by {
                if j == r.len() - 1 {
                    let last = prev.last().name;
                    assert(r[i].name == prev[i].name);
                    if i < prev.len() - 1 {
                        assert(lex_le(prev[i].name, last) && prev[i].name != last);
                        crate::ordering::lemma_lex_le_transitive(prev[i].name, last, name);
                        if prev[i].name == name {
                            crate::ordering::lemma_lex_le_total(last, name);
                        }
                    }
                } else {
                    assert(r[i].name == prev[i].name && r[j].name == prev[j].name);
                }
            }
        }
    }
}

/// The take-away packages of a menu come in increasing order of name, each name once.
pub proof fn lemma_takeaway_names_increasing(rows: Seq<MenuDishRow>, table: PricingTable, ctx: MenuContext)
    ensures
        names_increasing(spec_takeaways(rows, table, ctx)),
{
    let pairs = takeaway_pairs(rows, table, ctx);
    lemma_package_order();
    crate::ordering::lemma_sort_by_sorted(pairs, by_package());
    let sorted = sort_by(pairs, by_package());
    assert forall|i: int, j: int| 0 <= i < j < sorted.len() implies lex_le(#[trigger] sorted[i].0, #[trigger] sorted[j].0) by {
        assert(by_package()(sorted[i], sorted[j]));
        if sorted[i].0 == sorted[j].0 {
            crate::ordering::lemma_lex_le_total(sorted[i].0, sorted[j].0);
        }
    }
    lemma_runs_increasing(sorted);
}

/// Views of package-name and dish pairs.
pub open spec fn pair_views(ps: Seq<(String, MenuItemDto)>) -> Seq<(Seq<char>, MenuItemView)> {
    ps.map_values(|p: (String, MenuItemDto)| (p.0@, p.1@))
}

/// Views of take-away packages.
pub open spec fn takeaway_views(ts: Seq<TakeawayMenuDto>) -> Seq<TakeawayView> {
    ts.map_values(|t: TakeawayMenuDto| t@)
}

fn pair_le_exec(a: &(String, MenuItemDto), b: &(String, MenuItemDto)) -> (r: bool)
    ensures
        r == package_le((a.0@, a.1@), (b.0@, b.1@)),
{
    let same = str_is(a.0.as_str(), b.0.as_str());
    if !same {
        let av = char_vec(a.0.as_str());
        let bv = char_vec(b.0.as_str());
        chars_le(av.as_slice(), bv.as_slice())
    } else {
        a.1.order_index < b.1.order_index || (a.1.order_index == b.1.order_index && (
        !a.1.is_alternative || b.1.is_alternative))
    }
}

/// Stable insertion sort of take-away dishes by package, then position.
fn sort_pairs(v: Vec<(String, MenuItemDto)>) -> (r: Vec<(String, MenuItemDto)>)
    ensures
        pair_views(r@) == sort_by(pair_views(v@), by_package()),
{
    let ghost orig = pair_views(v@);
    let mut src = v;
    let mut out: Vec<(String, MenuItemDto)> = Vec::new();
    let ghost mut k: int = 0;
    assert(orig.take(0) =~= Seq::<(Seq<char>, MenuItemView)>::empty());
    while src.len() > 0
        invariant
            0 <= k <= orig.len(),
            pair_views(src@) == orig.skip(k),
            pair_views(out@) == sort_by(orig.take(k), by_package()),
        decreases src@.len(),
    {
        let ghost before = src@;
        proof {
            assert(pair_views(before).len() == before.len());
            assert(orig.skip(k)[0] == orig[k]);
            assert(pair_views(before)[0] == orig[k]);
        }
        let x = src.remove(0);
        proof {
            assert(x == before[0]);
            assert forall|i: int| 0 <= i < src@.len() implies #[trigger] pair_views(src@)[i] == orig.skip(k + 1)[i] by {
                assert(src@[i] == before[i + 1]);
                assert(pair_views(before)[i + 1] == orig.skip(k)[i + 1]);
            }
            assert(pair_views(src@) =~= orig.skip(k + 1));
        }
        let ghost sv = pair_views(out@);
        let ghost xv = (x.0@, x.1@);
        let mut p = out.len();
        assert(sv.len() == out@.len());
        assert(sv.take(p as int) =~= sv);
        while p > 0 && !pair_le_exec(&out[p - 1], &x)
            invariant
                p <= out@.len(),
                sv == pair_views(out@),
                xv == (x.0@, x.1@),
                insert_position(sv, xv, by_package()) == insert_position(sv.take(p as int), xv, by_package()),
            decreases p,
        {
            assert(sv.take(p as int).drop_last() =~= sv.take(p - 1));
            assert(sv.take(p as int).last() == sv[p - 1]);
            p = p - 1;
        }
        proof {
            assert(sv.take(sv.len() as int) =~= sv);
            if p > 0 {
                assert(sv.take(p as int).last() == sv[p - 1]);
            }
            lemma_insert_by(sv, xv, by_package());
            assert(insert_position(sv, xv, by_package()) == p);
            assert(orig.take(k + 1).drop_last() =~= orig.take(k));
            assert(orig.take(k + 1).last() == xv);
        }
        out.insert(p, x);
        proof {
            assert(pair_views(out@) =~= sv.take(p as int).push(xv) + sv.skip(p as int));
            k = k + 1;
        }
    }
    assert(orig.take(k) =~= orig);
    out
}

/// Splits dishes sorted by package into packages.
fn split_packages(v: Vec<(String, MenuItemDto)>) -> (r: Vec<TakeawayMenuDto>)
    ensures
        takeaway_views(r@) == package_runs(pair_views(v@)),
{
    let ghost orig = pair_views(v@);
    let mut src = v;
    let mut out: Vec<TakeawayMenuDto> = Vec::new();
    let ghost mut k: int = 0;
    assert(orig.take(0) =~= Seq::<(Seq<char>, MenuItemView)>::empty());
    while src.len() > 0
        invariant
            0 <= k <= orig.len(),
            pair_views(src@) == orig.skip(k),
            takeaway_views(out@) == package_runs(orig.take(k)),
        decreases src@.len(),
    {
        let ghost before = src@;
        proof {
            assert(pair_views(before).len() == before.len());
            assert(orig.skip(k)[0] == orig[k]);
            assert(pair_views(before)[0] == orig[k]);
        }
        let (name, item) = src.remove(0);
        proof {
            assert(before[0] == (name, item));
            assert forall|i: int| 0 <= i < src@.len() implies #[trigger] pair_views(src@)[i] == orig.skip(k + 1)[i] by {
                assert(src@[i] == before[i + 1]);
                assert(pair_views(before)[i + 1] == orig.skip(k)[i + 1]);
            }
            assert(pair_views(src@) =~= orig.skip(k + 1));
            assert(orig.take(k + 1).drop_last() =~= orig.take(k));
            assert(orig.take(k + 1).last() == (name@, item@));
        }
        let ghost prev = takeaway_views(out@);
        let n = out.len();
        let extend = n > 0 && str_is(out[n - 1].name.as_str(), name.as_str());
        if extend {
            let mut last = out.pop().unwrap();
            proof {
                assert(prev.last() == last@);
            }
            let ghost old_items = item_views(last.items@);
            last.items.push(item);
            proof {
                assert(item_views(last.items@) =~= old_items.push(item@));
            }
            out.push(last);
            proof {
                assert(takeaway_views(out@) =~= prev.update(prev.len() - 1, TakeawayView {
                    name: name@,
                    items: prev.last().items.push(item@),
                }));
            }
        } else {
            let mut items: Vec<MenuItemDto> = Vec::new();
            items.push(item);
            let t = TakeawayMenuDto { name, items };
            proof {
                assert(item_views(t.items@) =~= seq![item@]);
            }
            out.push(t);
            proof {
                assert(takeaway_views(out@) =~= prev.push(t@));
            }
        }
        proof {
            k = k + 1;
        }
    }
    assert(orig.take(k) =~= orig);
    out
}

/// The dishes of a menu as a client sees them: the tray, in row order, and the
/// take-away packages, each dish priced for the menu's city, day and meal.
pub fn assemble_menu(rows: Vec<MenuDishRow>, table: &PricingTable, ctx: &MenuContext) -> (r: (
    Vec<MenuItemDto>,
    Vec<TakeawayMenuDto>,
))
    ensures
        item_views(r.0@) == tray_views(rows@, *table, *ctx),
        takeaway_views(r.1@) == spec_takeaways(rows@, *table, *ctx),
{
    let ghost orig = rows@;
    let mut src = rows;
    let mut tray: Vec<MenuItemDto> = Vec::new();
    let mut pairs: Vec<(String, MenuItemDto)> = Vec::new();
    let ghost mut k: int = 0;
    assert(orig.take(0) =~= Seq::<MenuDishRow>::empty());
    while src.len() > 0
        invariant
            0 <= k <= orig.len(),
            src@ == orig.skip(k),
            item_views(tray@) == tray_views(orig.take(k), *table, *ctx),
            pair_views(pairs@) == takeaway_pairs(orig.take(k), *table, *ctx),
        decreases src@.len(),
    {
        let row = src.remove(0);
        proof {
            assert(src@ =~= orig.skip(k + 1));
            assert(orig.take(k + 1).drop_last() =~= orig.take(k));
            assert(orig.take(k + 1).last() == row);
        }
        let (item, placement, package) = menu_item_of_row(row, table, ctx);
        match placement {
            Placement::Tray => {
                let ghost before = item_views(tray@);
                tray.push(item);
                assert(item_views(tray@) =~= before.push(item@));
            },
            Placement::Takeaway => {
                let ghost before = pair_views(pairs@);
                let ghost pv = (package@, item@);
                pairs.push((package, item));
                assert(pair_views(pairs@) =~= before.push(pv));
            },
            Placement::Dropped => {},
        }
        proof {
            k = k + 1;
        }
    }
    assert(orig.take(k) =~= orig);
    let sorted = sort_pairs(pairs);
    let takeaways = split_packages(sorted);
    (tray, takeaways)
}

/// The letters and digits of `s`, in order.
pub open spec fn alnum_only(s: Seq<char>) -> Seq<char>
    decreases s.len(),
{
    if s.len() == 0 {
        s
    } else if spec_is_alphanumeric(s.last()) {
        alnum_only(s.drop_last()).push(s.last())
    } else {
        alnum_only(s.drop_last())
    }
}

/// How a dish name is compared across sources: trimmed, lowercase, letters and digits only.
pub open spec fn dish_key(name: Seq<char>) -> Seq<char> {
    alnum_only(spec_to_lowercase(spec_trim(name)))
}

/// The non-empty comparison keys of a list of dishes, in order.
pub open spec fn dish_keys(items: Seq<MenuItemView>) -> Seq<Seq<char>>
    decreases items.len(),
{
    if items.len() == 0 {
        Seq::empty()
    } else {
        let prev = dish_keys(items.drop_last());
        let k = dish_key(items.last().raw_name);
        if k.len() > 0 {
            prev.push(k)
        } else {
            prev
        }
    }
}

/// `lex_le` as a relation value.
pub open spec fn by_lex() -> spec_fn(Seq<char>, Seq<char>) -> bool {
    |a: Seq<char>, b: Seq<char>| lex_le(a, b)
}

/// The signature of a list of dishes: the sorted comparison keys of its dishes. Two
/// menus with the same signature list the same dishes, whatever their order, case,
/// spacing or punctuation.
pub open spec fn spec_signature(items: Seq<MenuItemView>) -> Seq<Seq<char>> {
    sort_by(dish_keys(items), by_lex())
}

proof fn lemma_dish_keys_concat(p: Seq<MenuItemView>, q: Seq<MenuItemView>)
    ensures
        dish_keys(p + q) == dish_keys(p) + dish_keys(q),
    decreases q.len(),
{
    if q.len() == 0 {
        assert(p + q =~= p);
        assert(dish_keys(p) + dish_keys(q) =~= dish_keys(p));
    } else {
        assert((p + q).drop_last() =~= p + q.drop_last());
        assert((p + q).last() == q.last());
        lemma_dish_keys_concat(p, q.drop_last());
        let k = dish_key(q.last().raw_name);
        if k.len() > 0 {
            assert(dish_keys(p) + dish_keys(q) =~= (dish_keys(p) + dish_keys(q.drop_last())).push(k));
        } else {
            assert(dish_keys(q) == dish_keys(q.drop_last()));
        }
    }
}

proof fn lemma_dish_keys_permutation(a: Seq<MenuItemView>, b: Seq<MenuItemView>)
    requires
        a.to_multiset() == b.to_multiset(),
    ensures
        dish_keys(a).to_multiset() == dish_keys(b).to_multiset(),
    decreases a.len(),
{
    broadcast use vstd::seq_lib::group_to_multiset_ensures;
    assert(a.len() == a.to_multiset().len());
    assert(b.len() == b.to_multiset().len());
    if a.len() == 0 {
        assert(b.len() == 0);
        assert(a =~= b);
    } else {
        let x = a.last();
        let a1 = a.drop_last();
        assert(a =~= a1.push(x));
        assert(a.to_multiset() =~= a1.to_multiset().insert(x));
        assert(a.to_multiset().count(x) > 0);
        assert(b.contains(x));
        let j = choose|j: int| 0 <= j < b.len() && b[j] == x;
        let b1 = b.remove(j);
        assert(b1.to_multiset() =~= b.to_multiset().remove(x));
        assert(a1.to_multiset() =~= a.to_multiset().remove(x));
        lemma_dish_keys_permutation(a1, b1);
        let pre = b.take(j);
        let post = b.skip(j + 1);
        assert(b =~= pre + seq![x] + post);
        assert(b1 =~= pre + post);
        lemma_dish_keys_concat(pre + seq![x], post);
        lemma_dish_keys_concat(pre, seq![x]);
        lemma_dish_keys_concat(pre, post);
        let one = dish_keys(seq![x]);
        assert(seq![x].drop_last() =~= Seq::<MenuItemView>::empty());
        vstd::seq_lib::lemma_multiset_commutative(dish_keys(pre) + one, dish_keys(post));
        vstd::seq_lib::lemma_multiset_commutative(dish_keys(pre), one);
        vstd::seq_lib::lemma_multiset_commutative(dish_keys(pre), dish_keys(post));
        vstd::seq_lib::lemma_multiset_commutative(dish_keys(a1), one);
        assert(dish_keys(a) == dish_keys(a1) + one) by {
            lemma_dish_keys_concat(a1, seq![x]);
            assert(a1 + seq![x] =~= a);
        }
        assert(dish_keys(b) == dish_keys(pre) + one + dish_keys(post));
        assert(dish_keys(b1) == dish_keys(pre) + dish_keys(post));
        assert(dish_keys(b).to_multiset() =~= dish_keys(b1).to_multiset().add(one.to_multiset()));
    }
}

/// The signature of a menu does not depend on the order its dishes are listed in: two
/// lists holding the same dishes have the same signature.
pub proof fn lemma_signature_order_free(a: Seq<MenuItemView>, b: Seq<MenuItemView>)
    requires
        a.to_multiset() == b.to_multiset(),
    ensures
        spec_signature(a) == spec_signature(b),
{
    lemma_dish_keys_permutation(a, b);
    let ka = dish_keys(a);
    let kb = dish_keys(b);
    crate::ordering::lemma_sort_by_permutes(ka, by_lex());
    crate::ordering::lemma_sort_by_permutes(kb, by_lex());
    assert forall|x: Seq<char>, y: Seq<char>| #[trigger] by_lex()(x, y) || by_lex()(y, x) by {
        crate::ordering::lemma_lex_le_total(x, y);
    }
    assert forall|x: Seq<char>, y: Seq<char>, z: Seq<char>| #[trigger] by_lex()(x, y) && #[trigger] by_lex()(y, z) implies by_lex()(x, z) by {
        crate::ordering::lemma_lex_le_transitive(x, y, z);
    }
    assert forall|x: Seq<char>, y: Seq<char>| #[trigger] by_lex()(x, y) && by_lex()(y, x) implies x == y by {
        crate::ordering::lemma_lex_le_total(x, y);
    }
    crate::ordering::lemma_sort_by_sorted(ka, by_lex());
    crate::ordering::lemma_sort_by_sorted(kb, by_lex());
    crate::ordering::lemma_sorted_unique(sort_by(ka, by_lex()), sort_by(kb, by_lex()), by_lex());
}

fn dish_key_exec(name: &str) -> (r: Vec<char>)
    ensures
        r@ == dish_key(name@),
{
    let t = trim(name);
    let ts = string_from_chars(t.as_slice());
    let lower = to_lowercase(ts.as_str());
    let lv = char_vec(lower.as_str());
    let mut out: Vec<char> = Vec::new();
    let mut i: usize = 0;
    assert(lv@.take(0) =~= Seq::<char>::empty());
    while i < lv.len()
        invariant
            i <= lv@.len(),
            out@ == alnum_only(lv@.take(i as int)),
        decreases lv@.len() - i,
    {
        assert(lv@.take(i + 1).drop_last() =~= lv@.take(i as int));
        if is_alphanumeric(lv[i]) {
            out.push(lv[i]);
        }
        i = i + 1;
    }
    assert(lv@.take(lv@.len() as int) =~= lv@);
    out
}

/// Views of character vectors.
pub open spec fn char_views(v: Seq<Vec<char>>) -> Seq<Seq<char>> {
    v.map_values(|w: Vec<char>| w@)
}

/// Sorts strings by `lex_le`, as `Vec<String>::sort` orders them.
pub fn sort_keys(v: Vec<Vec<char>>) -> (r: Vec<Vec<char>>)
    ensures
        char_views(r@) == sort_by(char_views(v@), by_lex()),
{
    let ghost orig = char_views(v@);
    let mut src = v;
    let mut out: Vec<Vec<char>> = Vec::new();
    let ghost mut k: int = 0;
    assert(orig.take(0) =~= Seq::<Seq<char>>::empty());
    while src.len() > 0
        invariant
            0 <= k <= orig.len(),
            char_views(src@) == orig.skip(k),
            char_views(out@) == sort_by(orig.take(k), by_lex()),
        decreases src@.len(),
    {
        let ghost before = src@;
        proof {
            assert(char_views(before).len() == before.len());
            assert(orig.skip(k)[0] == orig[k]);
            assert(char_views(before)[0] == orig[k]);
        }
        let x = src.remove(0);
        proof {
            assert(x == before[0]);
            assert forall|i: int| 0 <= i < src@.len() implies #[trigger] char_views(src@)[i] == orig.skip(k + 1)[i] by {
                assert(src@[i] == before[i + 1]);
                assert(char_views(before)[i + 1] == orig.skip(k)[i + 1]);
            }
            assert(char_views(src@) =~= orig.skip(k + 1));
        }
        let ghost sv = char_views(out@);
        let ghost xv = x@;
        let mut p = out.len();
        assert(sv.len() == out@.len());
        assert(sv.take(p as int) =~= sv);
        while p > 0 && !chars_le(out[p - 1].as_slice(), x.as_slice())
            invariant
                p <= out@.len(),
                sv == char_views(out@),
                xv == x@,
                insert_position(sv, xv, by_lex()) == insert_position(sv.take(p as int), xv, by_lex()),
            decreases p,
        {
            assert(sv.take(p as int).drop_last() =~= sv.take(p - 1));
            assert(sv.take(p as int).last() == sv[p - 1]);
            p = p - 1;
        }
        proof {
            if p > 0 {
                assert(sv.take(p as int).last() == sv[p - 1]);
            }
            lemma_insert_by(sv, xv, by_lex());
            assert(insert_position(sv, xv, by_lex()) == p);
            assert(orig.take(k + 1).drop_last() =~= orig.take(k));
            assert(orig.take(k + 1).last() == xv);
        }
        out.insert(p, x);
        proof {
            assert(char_views(out@) =~= sv.take(p as int).push(xv) + sv.skip(p as int));
            k = k + 1;
        }
    }
    assert(orig.take(k) =~= orig);
    out
}

/// The signature of a list of dishes, as character vectors.
pub fn menu_signature(items: &[MenuItemDto]) -> (r: Vec<Vec<char>>)
    ensures
        char_views(r@) == spec_signature(item_views(items@)),
{
    let ghost views = item_views(items@);
    let mut keys: Vec<Vec<char>> = Vec::new();
    let mut i: usize = 0;
    assert(views.take(0) =~= Seq::<MenuItemView>::empty());
    while i < items.len()
        invariant
            i <= items@.len(),
            views == item_views(items@),
            char_views(keys@) == dish_keys(views.take(i as int)),
        decreases items@.len() - i,
    {
        proof {
            assert(views.take(i + 1).drop_last() =~= views.take(i as int));
            assert(views.take(i + 1).last() == items@[i as int]@);
        }
        let k = dish_key_exec(items[i].raw_name.as_str());
        if k.len() > 0 {
            let ghost before = char_views(keys@);
            keys.push(k);
            assert(char_views(keys@) =~= before.push(k@));
        }
        i = i + 1;
    }
    assert(views.take(items@.len() as int) =~= views);
    sort_keys(keys)
}

/// The signature of a list of dishes: the sorted comparison keys (trimmed, lowercase,
/// letters and digits only) of its dishes with a non-empty key.
pub fn compute_menu_dishes_signature(items: &[MenuItemDto]) -> (r: Vec<String>)
    ensures
        r@.map_values(|s: String| s@) == spec_signature(item_views(items@)),
{
    let keys = menu_signature(items);
    let mut out: Vec<String> = Vec::new();
    let mut i: usize = 0;
    while i < keys.len()
        invariant
            i <= keys@.len(),
            out@.map_values(|s: String| s@) == char_views(keys@).take(i as int),
        decreases keys@.len() - i,
    {
        let ghost before = out@.map_values(|s: String| s@);
        let st = string_from_chars(keys[i].as_slice());
        proof {
            assert(st@ == char_views(keys@)[i as int]);
        }
        out.push(st);
        proof {
            assert(out@.map_values(|s: String| s@) =~= before.push(st@));
            assert(char_views(keys@).take(i + 1) =~= char_views(keys@).take(i as int).push(char_views(keys@)[i as int]));
        }
        i = i + 1;
    }
    assert(char_views(keys@).take(keys@.len() as int) =~= char_views(keys@));
    out
}

/// One entry of a dishes payload kept in a menu's history, as the fields the menu
/// reads: the entry itself when it is a string, else its `name` or `raw_name` string,
/// and its `is_alternative` flag.
pub struct PayloadDish {
    pub text: Option<String>,
    pub name: Option<String>,
    pub raw_name: Option<String>,
    pub is_alternative: Option<bool>,
}

/// A menu as another source reported it: the record's id, the source, and the list of
/// dishes of its payload (`None` when the payload holds no list of dishes).
pub struct HistoryRecord {
    pub id: i32,
    pub source_type: String,
    pub dishes: Option<Vec<PayloadDish>>,
}

/// A history record from its stored payload: the dishes are the list under the payload's
/// `dishes` member when it has one (`member`), else the payload itself when it is a list
/// (`itself`), else there are none.
pub fn history_record(
    id: i32,
    source_type: String,
    member: Option<Vec<PayloadDish>>,
    itself: Option<Vec<PayloadDish>>,
) -> (r: HistoryRecord)
    ensures
        r.id == id,
        r.source_type == source_type,
        r.dishes == (if member is Some { member } else { itself }),
{
    let dishes = match member {
        Some(m) => Some(m),
        None => itself,
    };
    HistoryRecord { id, source_type, dishes }
}

/// The name of a payload entry: the entry itself when it is a string, else its `name`,
/// else its `raw_name`.
pub open spec fn payload_label(d: PayloadDish) -> Option<Seq<char>> {
    match d.text {
        Some(t) => Some(t@),
        None => match d.name {
            Some(n) => Some(n@),
            None => opt_string_view(&d.raw_name),
        },
    }
}

/// The name of a payload entry, for the content guard to judge.
pub fn dish_label(d: &PayloadDish) -> (r: Option<&String>)
    ensures
        match r {
            Some(s) => payload_label(*d) == Some(s@),
            None => payload_label(*d) is None,
        },
{
    match &d.text {
        Some(t) => Some(t),
        None => match &d.name {
            Some(n) => Some(n),
            None => match &d.raw_name {
                Some(r) => Some(r),
                None => None,
            },
        },
    }
}

/// The dishes of a payload: each entry with a name the content guard accepts (`junk[i]`
/// is its verdict on entry `i`), at the entry's position, not an alternative unless the
/// entry says so.
pub open spec fn payload_items(dishes: Seq<PayloadDish>, junk: Seq<bool>) -> Seq<MenuItemView>
    decreases dishes.len(),
{
    if dishes.len() == 0 {
        Seq::empty()
    } else {
        let prev = payload_items(dishes.drop_last(), junk);
        let i = dishes.len() - 1;
        match payload_label(dishes.last()) {
            Some(label) => if junk[i] {
                prev
            } else {
                prev.push(
                    MenuItemView {
                        order_index: i as i32,
                        raw_name: label,
                        is_alternative: match dishes.last().is_alternative {
                            Some(b) => b,
                            None => false,
                        },
                        amount: None,
                        calories: None,
                        price_kurus: None,
                        category: None,
                        master_data: None,
                    },
                )
            },
            None => prev,
        }
    }
}

/// Another source's menu, by the characters of its strings.
pub struct AlternativeView {
    pub id: Option<i32>,
    pub source_type: Seq<char>,
    pub meal_type: MealType,
    pub items: Seq<MenuItemView>,
    pub calories: Option<Seq<char>>,
}

impl View for AlternativeMenuDto {
    type V = AlternativeView;

    open spec fn view(&self) -> AlternativeView {
        AlternativeView {
            id: self.id,
            source_type: self.source_type@,
            meal_type: self.meal_type,
            items: item_views(self.items@),
            calories: opt_string_view(&self.calories),
        }
    }
}

/// The menu a history record reports, if its payload names any dish the content guard
/// accepts.
pub open spec fn spec_alternative(h: HistoryRecord, junk: Seq<bool>, meal: MealType) -> Option<AlternativeView> {
    let items = match h.dishes {
        Some(ds) => payload_items(ds@, junk),
        None => Seq::empty(),
    };
    if items.len() == 0 {
        None
    } else {
        Some(
            AlternativeView {
                id: Some(h.id),
                source_type: h.source_type@,
                meal_type: meal,
                items: items,
                calories: None,
            },
        )
    }
}

/// Reads the menu a history record reports; `junk[i]` is the content guard's verdict on
/// the name of dish `i` of the payload.
pub fn parse_alternative_from_history(hist: HistoryRecord, junk: &Vec<bool>, meal: MealType) -> (r: Option<AlternativeMenuDto>)
    requires
        hist.dishes matches Some(ds) ==> junk@.len() >= ds@.len(),
    ensures
        match r {
            Some(a) => spec_alternative(hist, junk@, meal) == Some(a@),
            None => spec_alternative(hist, junk@, meal) is None,
        },
{
    let ghost h0 = hist;
    let HistoryRecord { id, source_type, dishes } = hist;
    let mut items: Vec<MenuItemDto> = Vec::new();
    match dishes {
        Some(ds) => {
            let ghost all = ds@;
            let mut src = ds;
            let total = src.len();
            let mut idx: usize = 0;
            assert(all.take(0) =~= Seq::<PayloadDish>::empty());
            while src.len() > 0
                invariant
                    idx <= all.len(),
                    junk@.len() >= all.len(),
                    src@ == all.skip(idx as int),
                    src@.len() == all.len() - idx,
                    all.len() == total,
                    item_views(items@) == payload_items(all.take(idx as int), junk@),
                decreases src@.len(),
            {
                let d = src.remove(0);
                proof {
                    assert(src@ =~= all.skip(idx + 1));
                    assert(all.take(idx + 1).drop_last() =~= all.take(idx as int));
                    assert(all.take(idx + 1).last() == d);
                }
                let ghost dv = d;
                let PayloadDish { text, name, raw_name, is_alternative } = d;
                let label: Option<String> = match text {
                    Some(t) => Some(t),
                    None => match name {
                        Some(n) => Some(n),
                        None => raw_name,
                    },
                };
                match label {
                    Some(l) => {
                        if !junk[idx] {
                            let ghost before = item_views(items@);
                            let it = MenuItemDto {
                                order_index: idx as i32,
                                raw_name: l,
                                is_alternative: match is_alternative {
                                    Some(b) => b,
                                    None => false,
                                },
                                amount: None,
                                calories: None,
                                price_kurus: None,
                                category: None,
                                master_data: None,
                            };
                            items.push(it);
                            assert(item_views(items@) =~= before.push(it@));
                        }
                    },
                    None => {},
                }
                idx = idx + 1;
            }
            assert(all.take(idx as int) =~= all);
        },
        None => {},
    }
    if items.len() == 0 {
        None
    } else {
        Some(AlternativeMenuDto { id: Some(id), source_type, meal_type: meal, items, calories: None })
    }
}

/// What the selection of other sources' menus has gathered after some records: the
/// sources seen, the signatures seen, and the menus kept.
pub open spec fn alternatives_fold(
    current_source: Seq<char>,
    main_signature: Seq<Seq<char>>,
    hs: Seq<(HistoryRecord, Vec<bool>)>,
    meal: MealType,
) -> (Seq<Seq<char>>, Seq<Seq<Seq<char>>>, Seq<AlternativeView>)
    decreases hs.len(),
{
    if hs.len() == 0 {
        (
            Seq::empty(),
            if main_signature.len() > 0 { seq![main_signature] } else { Seq::empty() },
            Seq::empty(),
        )
    } else {
        let (sources, sigs, alts) = alternatives_fold(current_source, main_signature, hs.drop_last(), meal);
        let (h, junk) = hs.last();
        let src = h.source_type@;
        if src != current_source && !sources.contains(src) {
            let sources2 = sources.push(src);
            match spec_alternative(h, junk@, meal) {
                Some(a) => {
                    let sig = spec_signature(a.items);
                    if sig.len() > 0 && !sigs.contains(sig) {
                        (sources2, sigs.push(sig), alts.push(a))
                    } else {
                        (sources2, sigs, alts)
                    }
                },
                None => (sources2, sigs, alts),
            }
        } else {
            (sources, sigs, alts)
        }
    }
}

/// The menus other sources reported for a meal, newest record first: only the newest
/// record of each source other than the menu's own is read, and a reported menu is
/// shown only when it lists dishes and its signature differs from the menu's and from
/// every menu shown before it.
pub open spec fn spec_alternatives(
    current_source: Seq<char>,
    tray: Seq<MenuItemView>,
    hs: Seq<(HistoryRecord, Vec<bool>)>,
    meal: MealType,
) -> Seq<AlternativeView> {
    alternatives_fold(current_source, spec_signature(tray), hs, meal).2
}

/// There is a content-guard verdict for every dish of the record.
pub open spec fn verdicts_cover(h: (HistoryRecord, Vec<bool>)) -> bool {
    match h.0.dishes {
        Some(ds) => h.1@.len() >= ds@.len(),
        None => true,
    }
}

fn contains_chars_seq(v: &Vec<Vec<char>>, x: &[char]) -> (r: bool)
    ensures
        r == char_views(v@).contains(x@),
{
    let mut i: usize = 0;
    while i < v.len()
        invariant
            i <= v@.len(),
            forall|j: int| 0 <= j < i ==> char_views(v@)[j] != x@,
        decreases v@.len() - i,
    {
        if chars_equal(v[i].as_slice(), x) {
            assert(char_views(v@)[i as int] == x@);
            return true;
        }
        i = i + 1;
    }
    false
}

fn same_signature(a: &Vec<Vec<char>>, b: &Vec<Vec<char>>) -> (r: bool)
    ensures
        r == (char_views(a@) == char_views(b@)),
{
    if a.len() != b.len() {
        assert(char_views(a@).len() != char_views(b@).len());
        return false;
    }
    let mut i: usize = 0;
    while i < a.len()
        invariant
            a@.len() == b@.len(),
            i <= a@.len(),
            forall|j: int| 0 <= j < i ==> char_views(a@)[j] == char_views(b@)[j],
        decreases a@.len() - i,
    {
        if !chars_equal(a[i].as_slice(), b[i].as_slice()) {
            assert(char_views(a@)[i as int] != char_views(b@)[i as int]);
            return false;
        }
        i = i + 1;
    }
    assert(char_views(a@) =~= char_views(b@));
    true
}

fn contains_signature(v: &Vec<Vec<Vec<char>>>, x: &Vec<Vec<char>>) -> (r: bool)
    ensures
        r == v@.map_values(|s: Vec<Vec<char>>| char_views(s@)).contains(char_views(x@)),
{
    let ghost vs = v@.map_values(|s: Vec<Vec<char>>| char_views(s@));
    let mut i: usize = 0;
    while i < v.len()
        invariant
            i <= v@.len(),
            vs == v@.map_values(|s: Vec<Vec<char>>| char_views(s@)),
            forall|j: int| 0 <= j < i ==> vs[j] != char_views(x@),
        decreases v@.len() - i,
    {
        if same_signature(&v[i], x) {
            assert(vs[i as int] == char_views(x@));
            return true;
        }
        i = i + 1;
    }
    false
}

/// Chooses the menus of other sources to show beside a meal's menu. `history` holds the
/// meal's history records, newest first, each with the content guard's verdicts on the
/// names of its dishes.
pub fn select_alternatives(
    current_source: &str,
    tray: &[MenuItemDto],
    history: Vec<(HistoryRecord, Vec<bool>)>,
    meal: MealType,
) -> (r: Vec<AlternativeMenuDto>)
    requires
        forall|i: int| 0 <= i < history@.len() ==> verdicts_cover(#[trigger] history@[i]),
    ensures
        r@.map_values(|a: AlternativeMenuDto| a@) == spec_alternatives(current_source@, item_views(tray@), history@, meal),
{
    let ghost all = history@;
    let main_sig = menu_signature(tray);
    let ghost msig = char_views(main_sig@);
    let mut sources: Vec<Vec<char>> = Vec::new();
    let mut sigs: Vec<Vec<Vec<char>>> = Vec::new();
    if main_sig.len() > 0 {
        sigs.push(main_sig);
    }
    let mut out: Vec<AlternativeMenuDto> = Vec::new();
    let mut src = history;
    let ghost mut k: int = 0;
    let cur = char_vec(current_source);
    assert(all.take(0) =~= Seq::<(HistoryRecord, Vec<bool>)>::empty());
    assert(sigs@.map_values(|s: Vec<Vec<char>>| char_views(s@)) =~= alternatives_fold(current_source@, msig, all.take(0), meal).1);
    while src.len() > 0
        invariant
            0 <= k <= all.len(),
            src@ == all.skip(k),
            cur@ == current_source@,
            forall|i: int| 0 <= i < all.len() ==> verdicts_cover(#[trigger] all[i]),
            char_views(sources@) == alternatives_fold(current_source@, msig, all.take(k), meal).0,
            sigs@.map_values(|s: Vec<Vec<char>>| char_views(s@)) == alternatives_fold(current_source@, msig, all.take(k), meal).1,
            out@.map_values(|a: AlternativeMenuDto| a@) == alternatives_fold(current_source@, msig, all.take(k), meal).2,
        decreases src@.len(),
    {
        let (h, junk) = src.remove(0);
        proof {
            assert(src@ =~= all.skip(k + 1));
            assert(all.take(k + 1).drop_last() =~= all.take(k));
            assert(all.take(k + 1).last() == (h, junk));
            assert(all[k] == (h, junk));
        }
        let hs = char_vec(h.source_type.as_str());
        let fresh = !chars_equal(hs.as_slice(), cur.as_slice()) && !contains_chars_seq(&sources, hs.as_slice());
        if fresh {
            let ghost before_sources = char_views(sources@);
            sources.push(hs);
            assert(char_views(sources@) =~= before_sources.push(h.source_type@));
            match parse_alternative_from_history(h, &junk, meal) {
                Some(a) => {
                    let sig = menu_signature(a.items.as_slice());
                    if sig.len() > 0 && !contains_signature(&sigs, &sig) {
                        let ghost before_sigs = sigs@.map_values(|s: Vec<Vec<char>>| char_views(s@));
                        let ghost sv = char_views(sig@);
                        sigs.push(sig);
                        assert(sigs@.map_values(|s: Vec<Vec<char>>| char_views(s@)) =~= before_sigs.push(sv));
                        let ghost before_out = out@.map_values(|a: AlternativeMenuDto| a@);
                        let ghost av = a@;
                        out.push(a);
                        assert(out@.map_values(|a: AlternativeMenuDto| a@) =~= before_out.push(av));
                    }
                },
                None => {},
            }
        }
        proof {
            k = k + 1;
        }
    }
    assert(all.take(k) =~= all);
    out
}

/// The moderation state of a stored menu.
#[derive(Clone, Copy, Debug, PartialEq, Eq, Structural)]
pub enum MenuStatus {
    Pending,
    Approved,
    Rejected,
}

impl MenuStatus {
    /// Lowercase wire name of the state.
    pub open spec fn spec_wire_name(self) -> Seq<char> {
        match self {
            MenuStatus::Pending => "pending"@,
            MenuStatus::Approved => "approved"@,
            MenuStatus::Rejected => "rejected"@,
        }
    }

    /// Lowercase wire name of the state.
    pub fn wire_name(&self) -> (r: &'static str)
        ensures
            r@ == self.spec_wire_name(),
    {
        match self {
            MenuStatus::Pending => "pending",
            MenuStatus::Approved => "approved",
            MenuStatus::Rejected => "rejected",
        }
    }

    /// Only approved menus are shown to clients; any other is reported as not found.
    pub fn is_public(&self) -> (r: bool)
        ensures
            r == (*self == MenuStatus::Approved),
    {
        match self {
            MenuStatus::Approved => true,
            _ => false,
        }
    }
}

/// The first day of month `m` of year `y` and the first day of the following month, when
/// both exist: the half-open range of days a month filter selects.
pub open spec fn spec_month_bounds(y: int, m: int) -> Option<(CalendarDate, CalendarDate)> {
    match date_of(y, m, 1) {
        Some(start) => {
            let (ny, nm) = if m == 12 { (y + 1, 1) } else { (y, m + 1) };
            match date_of(ny, nm, 1) {
                Some(end) => Some((start, end)),
                None => None,
            }
        },
        None => None,
    }
}

/// The range of days of a month filter (from its first day, up to but excluding the
/// first day of the next month); `None` when either day does not exist, in which case the
/// listing is not narrowed by month.
pub fn month_bounds(year: i32, month: u32) -> (r: Option<(CalendarDate, CalendarDate)>)
    ensures
        r == spec_month_bounds(year as int, month as int),
{
    match date_from_ymd(year, month, 1) {
        Some(start) => {
            let (ny, nm) = if month == 12 { (year + 1, 1) } else { (year, month + 1) };
            match date_from_ymd(ny, nm, 1) {
                Some(end) => Some((start, end)),
                None => None,
            }
        },
        None => None,
    }
}

/// A menu is listed only when it has a dish on its tray or in a take-away package.
pub fn is_listed(tray: &Vec<MenuItemDto>, takeaways: &Vec<TakeawayMenuDto>) -> (r: bool)
    ensures
        r == (tray@.len() > 0 || takeaways@.len() > 0),
{
    tray.len() > 0 || takeaways.len() > 0
}

} // verus!
