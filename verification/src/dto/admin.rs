//! Bodies of the dish catalogue tools.

use vstd::prelude::*;
use vstd::string::StringExecFns;
use crate::validation::{length_within, opt_length_within, opt_string_view, spec_valid_email, opt_valid_email, length_ok, opt_length_ok, valid_email, opt_email_ok};

verus! {

/// Changes to a dish; absent fields stay as they are.
pub struct UpdateDishDto {
    pub name: Option<String>,
    pub category: Option<String>,
    pub is_celiac: Option<bool>,
    pub is_vegan: Option<bool>,
    pub is_vegetarian: Option<bool>,
}

impl UpdateDishDto {
    /// The message of the first field that breaks its rule, in field order
    /// (`None` when every field is valid).
    pub open spec fn spec_error(&self) -> Option<Seq<char>> {
        if !opt_length_within(opt_string_view(&self.name), Some(1), Some(255)) {
            Some("Girdi doğrulama hatası"@)
        } else {
            None
        }
    }

    /// Checks every field rule; gives the message of the first broken one.
    pub fn validate(&self) -> (r: Option<String>)
        ensures
            match r {
                Some(m) => self.spec_error() == Some(m@),
                None => self.spec_error() is None,
            },
    {
        if !opt_length_ok(&self.name, Some(1), Some(255)) {
            return Some(String::from_str("Girdi doğrulama hatası"));
        }
        None
    }
}

/// A new dish of the catalogue.
pub struct CreateDishDto {
    pub name: String,
    pub category: Option<String>,
    pub is_celiac: Option<bool>,
    pub is_vegan: Option<bool>,
    pub is_vegetarian: Option<bool>,
}

impl CreateDishDto {
    /// The message of the first field that breaks its rule, in field order
    /// (`None` when every field is valid).
    pub open spec fn spec_error(&self) -> Option<Seq<char>> {
        if !length_within(self.name@, Some(1), Some(255)) {
            Some("Girdi doğrulama hatası"@)
        } else {
            None
        }
    }

    /// Checks every field rule; gives the message of the first broken one.
    pub fn validate(&self) -> (r: Option<String>)
        ensures
            match r {
                Some(m) => self.spec_error() == Some(m@),
                None => self.spec_error() is None,
            },
    {
        if !length_ok(self.name.as_str(), Some(1), Some(255)) {
            return Some(String::from_str("Girdi doğrulama hatası"));
        }
        None
    }
}

/// Folds one dish into another.
pub struct MergeDishesDto {
    pub source_dish_id: i32,
    pub target_dish_id: i32,
}

/// Splits a combined dish name at a delimiter.
pub struct SplitDishDto {
    pub dish_id: i32,
    pub delimiter: String,
}

impl SplitDishDto {
    /// The message of the first field that breaks its rule, in field order
    /// (`None` when every field is valid).
    pub open spec fn spec_error(&self) -> Option<Seq<char>> {
        if !length_within(self.delimiter@, Some(1), Some(50)) {
            Some("Girdi doğrulama hatası"@)
        } else {
            None
        }
    }

    /// Checks every field rule; gives the message of the first broken one.
    pub fn validate(&self) -> (r: Option<String>)
        ensures
            match r {
                Some(m) => self.spec_error() == Some(m@),
                None => self.spec_error() is None,
            },
    {
        if !length_ok(self.delimiter.as_str(), Some(1), Some(50)) {
            return Some(String::from_str("Girdi doğrulama hatası"));
        }
        None
    }
}

/// Detaches an alias from its dish.
pub struct DetachDishDto {
    pub alias_id: i32,
}

/// One spelling under which a dish appears in menus.
pub struct DishAliasDto {
    pub id: i32,
    pub name: String,
}

/// A dish with its usage and aliases, for the catalogue tools.
pub struct DishModerationStatsDto {
    pub id: i32,
    pub name: String,
    pub category: Option<String>,
    pub constraints: Vec<String>,
    pub usage_count: i64,
    pub aliases: Vec<DishAliasDto>,
}

} // verus!
