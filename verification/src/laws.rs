//! Properties of the extraction pipeline that relate several of its
//! functions, stated and proved over the same models the extractors'
//! contracts use.
use vstd::prelude::*;

use crate::dom::{descendant_hits, has_class, lemma_forest_hits_match, node_matches, Node};
use crate::extract::{
    classify, icon_refs, location_model, locations_model, meal_model, meals_model, plan_model,
    plan_result_view, price_tokens,
};
use crate::model::{DietaryKind, ExtractError, Location, LocationModel, MealModel};
use crate::registry::{registry_wf, Registry};

verus! {

/// A meal fragment with a name element, at least three qualifying price
/// tokens, and no icon references extracts successfully, is classified
/// `Normal`, and carries the trimmed name and the first three price
/// tokens in document order.
pub proof fn lemma_plain_meal_is_normal(n: Node, r: Registry)
    requires
        descendant_hits(n, r.meal_name).len() > 0,
        price_tokens(descendant_hits(n, r.price)).len() >= 3,
        icon_refs(descendant_hits(n, r.icon)).len() == 0,
    ensures
        meal_model(n, r) matches Ok(m) && m == (MealModel {
            name: crate::text::trimmed(descendant_hits(n, r.meal_name)[0].text@),
            price: (
                price_tokens(descendant_hits(n, r.price))[0],
                price_tokens(descendant_hits(n, r.price))[1],
                price_tokens(descendant_hits(n, r.price))[2],
            ),
            kind: DietaryKind::Normal,
        }),
{
    assert(!icon_refs(descendant_hits(n, r.icon)).contains(r.vegan_icon@));
    assert(!icon_refs(descendant_hits(n, r.icon)).contains(r.vegetarian_icon@));
}

/// A successfully extracted meal whose icon references include the vegan
/// marker is classified `Vegan`, whatever else is present.
pub proof fn lemma_vegan_icon_wins(n: Node, r: Registry, m: MealModel)
    requires
        meal_model(n, r) == Ok::<MealModel, ExtractError>(m),
        icon_refs(descendant_hits(n, r.icon)).contains(r.vegan_icon@),
    ensures
        m.kind == DietaryKind::Vegan,
{
}

/// A successfully extracted meal with a vegetarian marker but no vegan
/// marker among its icon references is classified `Vegetarian`.
pub proof fn lemma_vegetarian_without_vegan(n: Node, r: Registry, m: MealModel)
    requires
        meal_model(n, r) == Ok::<MealModel, ExtractError>(m),
        icon_refs(descendant_hits(n, r.icon)).contains(r.vegetarian_icon@),
        !icon_refs(descendant_hits(n, r.icon)).contains(r.vegan_icon@),
    ensures
        m.kind == DietaryKind::Vegetarian,
{
}

/// Extraction is a function of the document and the registry alone: two
/// results that both meet the document extractor's contract agree.
pub proof fn lemma_extraction_deterministic(
    doc: Node,
    r: Registry,
    r1: Result<Vec<Location>, ExtractError>,
    r2: Result<Vec<Location>, ExtractError>,
)
    requires
        plan_result_view(r1) == plan_model(doc, r),
        plan_result_view(r2) == plan_model(doc, r),
    ensures
        plan_result_view(r1) == plan_result_view(r2),
{
}

/// A successfully extracted meal sequence has one meal per meal fragment,
/// in the fragments' document order.
pub proof fn lemma_meals_in_document_order(ns: Seq<Node>, r: Registry, ms: Seq<MealModel>)
    requires
        meals_model(ns, r) == Ok::<Seq<MealModel>, ExtractError>(ms),
    ensures
        ms.len() == ns.len(),
        forall|i: int|
            0 <= i < ns.len() ==> meal_model(ns[i], r) == Ok::<MealModel, ExtractError>(ms[i]),
    decreases ns.len(),
{
    if ns.len() > 0 {
        match meal_model(ns[0], r) {
            Ok(m) => {
                match meals_model(ns.drop_first(), r) {
                    Ok(s) => {
                        lemma_meals_in_document_order(ns.drop_first(), r, s);
                        assert(forall|i: int|
                            1 <= i < ns.len() ==> ns.drop_first()[i - 1] == ns[i]);
                        assert(forall|i: int| 1 <= i < ms.len() ==> s[i - 1] == ms[i]);
                    },
                    Err(_) => {},
                }
            },
            Err(_) => {},
        }
    }
}

/// A successfully extracted location sequence has one location per
/// visible location fragment, in the fragments' document order.
pub proof fn lemma_locations_in_document_order(ns: Seq<Node>, r: Registry, ls: Seq<LocationModel>)
    requires
        locations_model(ns, r) == Ok::<Seq<LocationModel>, ExtractError>(ls),
    ensures
        ls.len() == ns.len(),
        forall|i: int|
            0 <= i < ns.len() ==> location_model(ns[i], r) == Ok::<LocationModel, ExtractError>(
                ls[i],
            ),
    decreases ns.len(),
{
    if ns.len() > 0 {
        match location_model(ns[0], r) {
            Ok(l) => {
                match locations_model(ns.drop_first(), r) {
                    Ok(s) => {
                        lemma_locations_in_document_order(ns.drop_first(), r, s);
                        assert(forall|i: int|
                            1 <= i < ns.len() ==> ns.drop_first()[i - 1] == ns[i]);
                        assert(forall|i: int| 1 <= i < ls.len() ==> s[i - 1] == ls[i]);
                    },
                    Err(_) => {},
                }
            },
            Err(_) => {},
        }
    }
}

/// A meal fragment without a name element makes meal extraction fail
/// with `MissingField`.
pub proof fn lemma_meal_missing_name(n: Node, r: Registry)
    requires
        descendant_hits(n, r.meal_name).len() == 0,
    ensures
        meal_model(n, r) == Err::<MealModel, ExtractError>(ExtractError::MissingField),
{
}

/// A meal fragment with a name element but fewer than three qualifying
/// price tokens makes meal extraction fail with `MalformedPrice`.
pub proof fn lemma_meal_short_prices(n: Node, r: Registry)
    requires
        descendant_hits(n, r.meal_name).len() > 0,
        price_tokens(descendant_hits(n, r.price)).len() < 3,
    ensures
        meal_model(n, r) == Err::<MealModel, ExtractError>(ExtractError::MalformedPrice),
{
}

/// One malformed meal fragment anywhere in the document makes the whole
/// document extraction fail: no partial result is produced.
pub proof fn lemma_bad_meal_fails_document(doc: Node, r: Registry, li: int, mi: int)
    requires
        0 <= li < descendant_hits(doc, r.location).len(),
        0 <= mi < descendant_hits(descendant_hits(doc, r.location)[li], r.meal).len(),
        meal_model(descendant_hits(descendant_hits(doc, r.location)[li], r.meal)[mi], r) is Err,
    ensures
        plan_model(doc, r) is Err,
{
    let locs = descendant_hits(doc, r.location);
    let meals = descendant_hits(locs[li], r.meal);
    if plan_model(doc, r) is Ok {
        let ls = plan_model(doc, r)->Ok_0;
        lemma_locations_in_document_order(locs, r, ls);
        assert(location_model(locs[li], r) == Ok::<LocationModel, ExtractError>(ls[li]));
        match meals_model(meals, r) {
            Ok(ms) => {
                lemma_meals_in_document_order(meals, r, ms);
                assert(meal_model(meals[mi], r) is Ok);
            },
            Err(_) => {},
        }
    }
}

/// A location fragment carrying the hidden marker never appears among
/// the fragments document extraction visits, whatever it contains.
pub proof fn lemma_hidden_location_excluded(doc: Node, r: Registry, h: Node)
    requires
        registry_wf(r),
        has_class(h.classes@, "d-none"@),
    ensures
        !descendant_hits(doc, r.location).contains(h),
{
    lemma_forest_hits_match(doc.children@, r.location);
    if descendant_hits(doc, r.location).contains(h) {
        let i = choose|i: int|
            0 <= i < descendant_hits(doc, r.location).len() && descendant_hits(doc, r.location)[i]
                == h;
        assert(node_matches(h, r.location));
    }
}

} // verus!
