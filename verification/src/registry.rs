//! The selector registry: the fixed query patterns and icon references
//! that tie extraction to the source page's markup conventions.
use vstd::prelude::*;

use crate::dom::Pattern;

verus! {

/// The fixed query patterns extraction uses, built once and passed by
/// reference into every extraction call.
pub struct Registry {
    /// Visible location containers at document level.
    pub location: Pattern,
    /// A location's display-name element.
    pub location_name: Pattern,
    /// A location's meal containers.
    pub meal: Pattern,
    /// A meal's display-name element.
    pub meal_name: Pattern,
    /// A meal's dietary-icon elements.
    pub icon: Pattern,
    /// A meal's price-tier elements.
    pub price: Pattern,
    /// The icon reference that marks a meal as vegan.
    pub vegan_icon: String,
    /// The icon reference that marks a meal as vegetarian.
    pub vegetarian_icon: String,
}

/// The registry's patterns read exactly as the source page's markup
/// conventions demand.
pub open spec fn registry_wf(r: Registry) -> bool {
    &&& (r.location.tag matches Some(t) && t@ == "div"@)
    &&& r.location.class@ == "tx-epwerkmenu-menu-location-container"@
    &&& (r.location.not_class matches Some(c) && c@ == "d-none"@)
    &&& r.location_name.tag is None
    &&& r.location_name.class@ == "mensainfo__title"@
    &&& r.location_name.not_class is None
    &&& r.meal.tag is None
    &&& r.meal.class@ == "singlemeal"@
    &&& r.meal.not_class is None
    &&& r.meal_name.tag is None
    &&& r.meal_name.class@ == "singlemeal__headline"@
    &&& r.meal_name.not_class is None
    &&& r.icon.tag is None
    &&& r.icon.class@ == "singlemeal__icon"@
    &&& r.icon.not_class is None
    &&& r.price.tag is None
    &&& r.price.class@ == "singlemeal__info--semibold"@
    &&& r.price.not_class is None
    &&& r.vegan_icon@ == "/typo3conf/ext/ep_werk_menu/Resources/Public/Icons/MealIcons/Normal/vega.svg"@
    &&& r.vegetarian_icon@ == "/typo3conf/ext/ep_werk_menu/Resources/Public/Icons/MealIcons/Normal/vege.svg"@
}

impl Registry {
    /// Build the registry of query patterns for the source page.
    pub fn new() -> (r: Registry)
        ensures
            registry_wf(r),
    {
        Registry {
            location: Pattern {
                tag: Some("div".to_owned()),
                class: "tx-epwerkmenu-menu-location-container".to_owned(),
                not_class: Some("d-none".to_owned()),
            },
            location_name: Pattern {
                tag: None,
                class: "mensainfo__title".to_owned(),
                not_class: None,
            },
            meal: Pattern { tag: None, class: "singlemeal".to_owned(), not_class: None },
            meal_name: Pattern {
                tag: None,
                class: "singlemeal__headline".to_owned(),
                not_class: None,
            },
            icon: Pattern { tag: None, class: "singlemeal__icon".to_owned(), not_class: None },
            price: Pattern {
                tag: None,
                class: "singlemeal__info--semibold".to_owned(),
                not_class: None,
            },
            vegan_icon: "/typo3conf/ext/ep_werk_menu/Resources/Public/Icons/MealIcons/Normal/vega.svg".to_owned(),
            vegetarian_icon: "/typo3conf/ext/ep_werk_menu/Resources/Public/Icons/MealIcons/Normal/vege.svg".to_owned(),
        }
    }
}

} // verus!
