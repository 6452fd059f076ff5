//! The structured records extraction produces, their abstract models,
//! and the extraction error taxonomy.
use vstd::prelude::*;

verus! {

/// Dietary classification of a meal, decided by icon evidence alone.
#[derive(Debug, Clone, Copy, PartialEq, Eq, Structural)]
pub enum DietaryKind {
    /// No vegan and no vegetarian icon evidence.
    Normal,
    /// Vegetarian icon evidence, without vegan evidence.
    Vegetarian,
    /// Vegan icon evidence, whatever else is present.
    Vegan,
}

/// Why extraction of a fragment failed.
#[derive(Debug, Clone, Copy, PartialEq, Eq, Structural)]
pub enum ExtractError {
    /// A required element (a name) is absent from a fragment.
    MissingField,
    /// Fewer than three currency-marked price tokens were found for a meal.
    MalformedPrice,
}

/// One menu item at one location: name, three-tier price, dietary kind.
#[derive(Debug, PartialEq)]
pub struct Meal {
    /// Display name, trimmed of surrounding whitespace.
    pub name: String,
    /// The three price tiers, in document order.
    pub price: (String, String, String),
    /// Dietary classification.
    pub kind: DietaryKind,
}

/// One serving site, with its meals in document order.
#[derive(Debug, PartialEq)]
pub struct Location {
    /// Display name, trimmed of surrounding whitespace.
    pub name: String,
    /// The meals found within this location's fragment, in document order.
    pub meals: Vec<Meal>,
}

/// The abstract value of a [`Meal`].
pub struct MealModel {
    /// The meal's name.
    pub name: Seq<char>,
    /// The three price tokens, in document order.
    pub price: (Seq<char>, Seq<char>, Seq<char>),
    /// Dietary classification.
    pub kind: DietaryKind,
}

/// The abstract value of a [`Location`].
pub struct LocationModel {
    /// The location's name.
    pub name: Seq<char>,
    /// The abstract values of the location's meals, in order.
    pub meals: Seq<MealModel>,
}

impl View for Meal {
    type V = MealModel;

    open spec fn view(&self) -> MealModel {
        MealModel {
            name: self.name@,
            price: (self.price.0@, self.price.1@, self.price.2@),
            kind: self.kind,
        }
    }
}

impl View for Location {
    type V = LocationModel;

    open spec fn view(&self) -> LocationModel {
        LocationModel { name: self.name@, meals: self.meals@.map_values(|m: Meal| m@) }
    }
}

/// The abstract values of a sequence of locations, in order.
pub open spec fn locations_view(ls: Seq<Location>) -> Seq<LocationModel> {
    ls.map_values(|l: Location| l@)
}

} // verus!
