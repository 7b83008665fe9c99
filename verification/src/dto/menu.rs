//! Menus as clients see them.

use vstd::prelude::*;
use crate::validation::opt_string_view;

verus! {

/// The meal a menu is served at.
#[derive(Clone, Copy, Debug, PartialEq, Eq, Structural)]
pub enum MealType {
    Breakfast,
    Lunch,
    Dinner,
}

impl MealType {
    /// Lowercase wire name of the meal (`breakfast`, `lunch`, `dinner`).
    pub open spec fn spec_wire_name(self) -> Seq<char> {
        match self {
            MealType::Breakfast => "breakfast"@,
            MealType::Lunch => "lunch"@,
            MealType::Dinner => "dinner"@,
        }
    }

    /// Lowercase wire name of the meal.
    pub fn wire_name(&self) -> (r: &'static str)
        ensures
            r@ == self.spec_wire_name(),
    {
        match self {
            MealType::Breakfast => "breakfast",
            MealType::Lunch => "lunch",
            MealType::Dinner => "dinner",
        }
    }

    /// Turkish name of the meal, as the assistant and the archive show it.
    pub open spec fn spec_turkish_name(self) -> Seq<char> {
        match self {
            MealType::Breakfast => "Kahvaltı"@,
            MealType::Lunch => "Öğle Yemeği"@,
            MealType::Dinner => "Akşam Yemeği"@,
        }
    }

    /// Turkish name of the meal.
    pub fn turkish_name(&self) -> (r: &'static str)
        ensures
            r@ == self.spec_turkish_name(),
    {
        match self {
            MealType::Breakfast => "Kahvaltı",
            MealType::Lunch => "Öğle Yemeği",
            MealType::Dinner => "Akşam Yemeği",
        }
    }
}

/// The latest year and month with an approved menu, for a city on the archive page.
pub struct ArchiveHighlightDto {
    pub city_slug: String,
    pub city_name: String,
    pub year: i32,
    pub month: i32,
}

/// The catalogue entry a dish on a menu was matched to, with its vote counts (the like
/// and dislike ratios shown to clients are `positive_votes / total_votes` and
/// `negative_votes / total_votes`).
pub struct DishMasterDataDto {
    pub dish_id: i32,
    pub name: String,
    pub is_celiac: bool,
    pub is_vegan: bool,
    pub is_vegetarian: bool,
    pub estimated_calories: Option<i32>,
    pub total_votes: i32,
    pub positive_votes: i32,
    pub negative_votes: i32,
}

/// A catalogue entry, by the characters of its strings.
pub struct DishMasterView {
    pub dish_id: i32,
    pub name: Seq<char>,
    pub is_celiac: bool,
    pub is_vegan: bool,
    pub is_vegetarian: bool,
    pub estimated_calories: Option<i32>,
    pub total_votes: i32,
    pub positive_votes: i32,
    pub negative_votes: i32,
}

impl View for DishMasterDataDto {
    type V = DishMasterView;

    open spec fn view(&self) -> DishMasterView {
        DishMasterView {
            dish_id: self.dish_id,
            name: self.name@,
            is_celiac: self.is_celiac,
            is_vegan: self.is_vegan,
            is_vegetarian: self.is_vegetarian,
            estimated_calories: self.estimated_calories,
            total_votes: self.total_votes,
            positive_votes: self.positive_votes,
            negative_votes: self.negative_votes,
        }
    }
}

/// One dish of a menu. The price is in kuruş (hundredths of a lira).
pub struct MenuItemDto {
    pub order_index: i32,
    pub raw_name: String,
    pub is_alternative: bool,
    pub amount: Option<String>,
    pub calories: Option<i32>,
    pub price_kurus: Option<u64>,
    pub category: Option<String>,
    pub master_data: Option<DishMasterDataDto>,
}

/// A dish of a menu, by the characters of its strings.
pub struct MenuItemView {
    pub order_index: i32,
    pub raw_name: Seq<char>,
    pub is_alternative: bool,
    pub amount: Option<Seq<char>>,
    pub calories: Option<i32>,
    pub price_kurus: Option<u64>,
    pub category: Option<Seq<char>>,
    pub master_data: Option<DishMasterView>,
}

impl View for MenuItemDto {
    type V = MenuItemView;

    open spec fn view(&self) -> MenuItemView {
        MenuItemView {
            order_index: self.order_index,
            raw_name: self.raw_name@,
            is_alternative: self.is_alternative,
            amount: opt_string_view(&self.amount),
            calories: self.calories,
            price_kurus: self.price_kurus,
            category: opt_string_view(&self.category),
            master_data: match self.master_data {
                Some(m) => Some(m@),
                None => None,
            },
        }
    }
}

/// A take-away package of a meal (anything served outside the normal tray), with its dishes.
pub struct TakeawayMenuDto {
    pub name: String,
    pub items: Vec<MenuItemDto>,
}

/// A take-away package, by the characters of its strings.
pub struct TakeawayView {
    pub name: Seq<char>,
    pub items: Seq<MenuItemView>,
}

/// The views of a list of dishes.
pub open spec fn item_views(items: Seq<MenuItemDto>) -> Seq<MenuItemView> {
    items.map_values(|i: MenuItemDto| i@)
}

impl View for TakeawayMenuDto {
    type V = TakeawayView;

    open spec fn view(&self) -> TakeawayView {
        TakeawayView { name: self.name@, items: item_views(self.items@) }
    }
}

/// The menu another source reported for the same meal.
pub struct AlternativeMenuDto {
    pub id: Option<i32>,
    pub source_type: String,
    pub meal_type: MealType,
    pub items: Vec<MenuItemDto>,
    pub calories: Option<String>,
}

} // verus!
