//! The extractors: from a markup fragment to `Meal`, `Location`, and the
//! whole plan, with the price-parsing and icon-classification rules.
use vstd::prelude::*;

use crate::dom::{deref_seq, descendant_hits, select, string_eq, Node};
use crate::model::{DietaryKind, ExtractError, Location, LocationModel, Meal, MealModel};
use crate::registry::Registry;
use crate::text::{extract_price_token, price_token, trim, trimmed};

verus! {

/// The qualifying price tokens the given price elements yield, in
/// document order: each element's text is trimmed, kept only when it
/// carries the currency marker, and cut to its first word.
pub open spec fn price_tokens(ns: Seq<Node>) -> Seq<Seq<char>>
    decreases ns.len(),
{
    if ns.len() == 0 {
        Seq::<Seq<char>>::empty()
    } else {
        (match price_token(ns[0].text@) {
            Some(t) => seq![t],
            None => Seq::<Seq<char>>::empty(),
        }) + price_tokens(ns.drop_first())
    }
}

/// The icon references the given icon elements carry, in document order,
/// skipping elements without the attribute.
pub open spec fn icon_refs(ns: Seq<Node>) -> Seq<Seq<char>>
    decreases ns.len(),
{
    if ns.len() == 0 {
        Seq::<Seq<char>>::empty()
    } else {
        (match ns[0].src {
            Some(s) => seq![s@],
            None => Seq::<Seq<char>>::empty(),
        }) + icon_refs(ns.drop_first())
    }
}

/// Dietary classification from icon evidence: vegan evidence outranks
/// vegetarian evidence, which outranks the default.
pub open spec fn classify(refs: Seq<Seq<char>>, vegan: Seq<char>, vegetarian: Seq<char>) -> DietaryKind {
    if refs.contains(vegan) {
        DietaryKind::Vegan
    } else if refs.contains(vegetarian) {
        DietaryKind::Vegetarian
    } else {
        DietaryKind::Normal
    }
}

/// What extracting one meal fragment yields: its trimmed name, the first
/// three qualifying price tokens, and its dietary kind — or the error.
pub open spec fn meal_model(n: Node, r: Registry) -> Result<MealModel, ExtractError> {
    let names = descendant_hits(n, r.meal_name);
    if names.len() == 0 {
        Err(ExtractError::MissingField)
    } else {
        let toks = price_tokens(descendant_hits(n, r.price));
        if toks.len() < 3 {
            Err(ExtractError::MalformedPrice)
        } else {
            Ok(
                MealModel {
                    name: trimmed(names[0].text@),
                    price: (toks[0], toks[1], toks[2]),
                    kind: classify(
                        icon_refs(descendant_hits(n, r.icon)),
                        r.vegan_icon@,
                        r.vegetarian_icon@,
                    ),
                },
            )
        }
    }
}

/// What extracting a sequence of meal fragments yields: the first failure,
/// or all the meals in document order.
pub open spec fn meals_model(ns: Seq<Node>, r: Registry) -> Result<Seq<MealModel>, ExtractError>
    decreases ns.len(),
{
    if ns.len() == 0 {
        Ok(Seq::<MealModel>::empty())
    } else {
        match meal_model(ns[0], r) {
            Err(e) => Err(e),
            Ok(m) => match meals_model(ns.drop_first(), r) {
                Err(e) => Err(e),
                Ok(s) => Ok(seq![m] + s),
            },
        }
    }
}

/// What extracting one location fragment yields: its trimmed name and its
/// meals in document order — or the first failure.
pub open spec fn location_model(n: Node, r: Registry) -> Result<LocationModel, ExtractError> {
    let names = descendant_hits(n, r.location_name);
    if names.len() == 0 {
        Err(ExtractError::MissingField)
    } else {
        match meals_model(descendant_hits(n, r.meal), r) {
            Err(e) => Err(e),
            Ok(ms) => Ok(LocationModel { name: trimmed(names[0].text@), meals: ms }),
        }
    }
}

/// What extracting a sequence of location fragments yields.
pub open spec fn locations_model(ns: Seq<Node>, r: Registry) -> Result<
    Seq<LocationModel>,
    ExtractError,
>
    decreases ns.len(),
{
    if ns.len() == 0 {
        Ok(Seq::<LocationModel>::empty())
    } else {
        match location_model(ns[0], r) {
            Err(e) => Err(e),
            Ok(l) => match locations_model(ns.drop_first(), r) {
                Err(e) => Err(e),
                Ok(s) => Ok(seq![l] + s),
            },
        }
    }
}

/// What extracting a whole document yields: the visible location
/// fragments, in document order, each extracted in turn.
pub open spec fn plan_model(doc: Node, r: Registry) -> Result<Seq<LocationModel>, ExtractError> {
    locations_model(descendant_hits(doc, r.location), r)
}

/// The abstract value of a meal extraction result.
pub open spec fn meal_result_view(r: Result<Meal, ExtractError>) -> Result<
    MealModel,
    ExtractError,
> {
    match r {
        Ok(m) => Ok(m@),
        Err(e) => Err(e),
    }
}

/// The abstract value of a location extraction result.
pub open spec fn location_result_view(r: Result<Location, ExtractError>) -> Result<
    LocationModel,
    ExtractError,
> {
    match r {
        Ok(l) => Ok(l@),
        Err(e) => Err(e),
    }
}

/// The abstract value of a whole-document extraction result.
pub open spec fn plan_result_view(r: Result<Vec<Location>, ExtractError>) -> Result<
    Seq<LocationModel>,
    ExtractError,
> {
    match r {
        Ok(ls) => Ok(ls@.map_values(|l: Location| l@)),
        Err(e) => Err(e),
    }
}

/// Collecting tokens from one more price element appends that element's
/// token, if it has one.
proof fn lemma_price_tokens_push(ns: Seq<Node>, x: Node)
    ensures
        price_tokens(ns.push(x)) == price_tokens(ns) + (match price_token(x.text@) {
            Some(t) => seq![t],
            None => Seq::<Seq<char>>::empty(),
        }),
    decreases ns.len(),
{
    let tail = (match price_token(x.text@) {
        Some(t) => seq![t],
        None => Seq::<Seq<char>>::empty(),
    });
    if ns.len() == 0 {
        assert(ns.push(x)[0] == x);
        assert(ns.push(x).drop_first() =~= Seq::<Node>::empty());
        assert(price_tokens(ns.push(x)) == tail + price_tokens(Seq::<Node>::empty()));
        assert(price_tokens(ns.push(x)) =~~= price_tokens(ns) + tail);
    } else {
        assert(ns.push(x)[0] == ns[0]);
        assert(ns.push(x).drop_first() =~= ns.drop_first().push(x));
        lemma_price_tokens_push(ns.drop_first(), x);
        assert(price_tokens(ns.push(x)) == (match price_token(ns[0].text@) {
            Some(t) => seq![t],
            None => Seq::<Seq<char>>::empty(),
        }) + (price_tokens(ns.drop_first()) + tail));
        assert(price_tokens(ns.push(x)) =~~= price_tokens(ns) + tail);
    }
}

/// Collecting references from one more icon element appends that
/// element's reference, if it has one.
proof fn lemma_icon_refs_push(ns: Seq<Node>, x: Node)
    ensures
        icon_refs(ns.push(x)) == icon_refs(ns) + (match x.src {
            Some(s) => seq![s@],
            None => Seq::<Seq<char>>::empty(),
        }),
    decreases ns.len(),
{
    let tail = (match x.src {
        Some(s) => seq![s@],
        None => Seq::<Seq<char>>::empty(),
    });
    if ns.len() == 0 {
        assert(ns.push(x)[0] == x);
        assert(ns.push(x).drop_first() =~= Seq::<Node>::empty());
        assert(icon_refs(ns.push(x)) == tail + icon_refs(Seq::<Node>::empty()));
        assert(icon_refs(ns.push(x)) =~~= icon_refs(ns) + tail);
    } else {
        assert(ns.push(x)[0] == ns[0]);
        assert(ns.push(x).drop_first() =~= ns.drop_first().push(x));
        lemma_icon_refs_push(ns.drop_first(), x);
        assert(icon_refs(ns.push(x)) == (match ns[0].src {
            Some(s) => seq![s@],
            None => Seq::<Seq<char>>::empty(),
        }) + (icon_refs(ns.drop_first()) + tail));
        assert(icon_refs(ns.push(x)) =~~= icon_refs(ns) + tail);
    }
}

/// A concatenation holds an element exactly when one of its parts does.
proof fn lemma_contains_append(a: Seq<Seq<char>>, b: Seq<Seq<char>>, x: Seq<char>)
    ensures
        (a + b).contains(x) == (a.contains(x) || b.contains(x)),
{
    if a.contains(x) {
        let i = choose|i: int| 0 <= i < a.len() && a[i] == x;
        assert((a + b)[i] == x);
    }
    if b.contains(x) {
        let i = choose|i: int| 0 <= i < b.len() && b[i] == x;
        assert((a + b)[a.len() + i] == x);
    }
    if (a + b).contains(x) {
        let i = choose|i: int| 0 <= i < (a + b).len() && (a + b)[i] == x;
        if i < a.len() {
            assert(a[i] == x);
        } else {
            assert(b[i - a.len()] == x);
        }
    }
}

/// Extract one meal fragment: locate the name element, assemble the
/// three-tier price from the qualifying price tokens, and classify the
/// dietary kind from the icon references.
pub fn parse_meal(n: &Node, reg: &Registry) -> (r: Result<Meal, ExtractError>)
    ensures
        meal_result_view(r) == meal_model(*n, *reg),
{
    let names = select(n, &reg.meal_name);
    if names.len() == 0 {
        assert(descendant_hits(*n, reg.meal_name).len() == 0);
        return Err(ExtractError::MissingField);
    }
    assert(*names@[0] == descendant_hits(*n, reg.meal_name)[0]);
    let name = trim(names[0].text.as_str());
    let price_nodes = select(n, &reg.price);
    let ghost price_sel = deref_seq(price_nodes@);
    let mut toks: Vec<String> = Vec::new();
    let mut i: usize = 0;
    while i < price_nodes.len()
        invariant
            i <= price_nodes.len(),
            price_sel == deref_seq(price_nodes@),
            toks@.map_values(|t: String| t@) == price_tokens(price_sel.take(i as int)),
        decreases price_nodes.len() - i,
    {
        proof {
            assert(*price_nodes@[i as int] == price_sel[i as int]);
            assert(price_sel.take(i + 1) =~= price_sel.take(i as int).push(price_sel[i as int]));
            lemma_price_tokens_push(price_sel.take(i as int), price_sel[i as int]);
        }
        match extract_price_token(price_nodes[i].text.as_str()) {
            Some(t) => {
                toks.push(t);
                assert(toks@.map_values(|t: String| t@) =~= price_tokens(price_sel.take(i + 1)));
            },
            None => {
                assert(toks@.map_values(|t: String| t@) =~= price_tokens(price_sel.take(i + 1)));
            },
        }
        i = i + 1;
    }
    proof {
        assert(price_sel.take(price_sel.len() as int) =~= price_sel);
    }
    if toks.len() < 3 {
        return Err(ExtractError::MalformedPrice);
    }
    assert(toks@.map_values(|t: String| t@)[0] == toks@[0]@);
    assert(toks@.map_values(|t: String| t@)[1] == toks@[1]@);
    assert(toks@.map_values(|t: String| t@)[2] == toks@[2]@);
    let t0 = toks.remove(0);
    let t1 = toks.remove(0);
    let t2 = toks.remove(0);
    let icon_nodes = select(n, &reg.icon);
    let ghost icon_sel = deref_seq(icon_nodes@);
    let mut has_vegan: bool = false;
    let mut has_vegetarian: bool = false;
    let mut k: usize = 0;
    while k < icon_nodes.len()
        invariant
            k <= icon_nodes.len(),
            icon_sel == deref_seq(icon_nodes@),
            has_vegan == icon_refs(icon_sel.take(k as int)).contains(reg.vegan_icon@),
            has_vegetarian == icon_refs(icon_sel.take(k as int)).contains(reg.vegetarian_icon@),
        decreases icon_nodes.len() - k,
    {
        proof {
            assert(*icon_nodes@[k as int] == icon_sel[k as int]);
            assert(icon_sel.take(k + 1) =~= icon_sel.take(k as int).push(icon_sel[k as int]));
            lemma_icon_refs_push(icon_sel.take(k as int), icon_sel[k as int]);
            let ghost tail = (match icon_sel[k as int].src {
                Some(s) => seq![s@],
                None => Seq::<Seq<char>>::empty(),
            });
            lemma_contains_append(icon_refs(icon_sel.take(k as int)), tail, reg.vegan_icon@);
            lemma_contains_append(icon_refs(icon_sel.take(k as int)), tail, reg.vegetarian_icon@);
        }
        if let Some(s) = &icon_nodes[k].src {
            assert(icon_sel[k as int].src == Some(*s));
            if string_eq(s, &reg.vegan_icon) {
                has_vegan = true;
            }
            if string_eq(s, &reg.vegetarian_icon) {
                has_vegetarian = true;
            }
            proof {
                let ghost tail = seq![(*s)@];
                if (*s)@ == reg.vegan_icon@ {
                    assert(tail[0] == reg.vegan_icon@);
                } else {
                    assert(forall|j: int| 0 <= j < tail.len() ==> tail[j] != reg.vegan_icon@);
                }
                if (*s)@ == reg.vegetarian_icon@ {
                    assert(tail[0] == reg.vegetarian_icon@);
                } else {
                    assert(forall|j: int| 0 <= j < tail.len() ==> tail[j] != reg.vegetarian_icon@);
                }
            }
        }
        k = k + 1;
    }
    proof {
        assert(icon_sel.take(icon_sel.len() as int) =~= icon_sel);
    }
    let kind = if has_vegan {
        DietaryKind::Vegan
    } else if has_vegetarian {
        DietaryKind::Vegetarian
    } else {
        DietaryKind::Normal
    };
    Ok(Meal { name, price: (t0, t1, t2), kind })
}

/// Meals already extracted, composed with the outcome for the rest.
pub open spec fn prepend_meals(
    ms: Seq<MealModel>,
    rest: Result<Seq<MealModel>, ExtractError>,
) -> Result<Seq<MealModel>, ExtractError> {
    match rest {
        Err(e) => Err(e),
        Ok(s) => Ok(ms + s),
    }
}

/// Locations already extracted, composed with the outcome for the rest.
pub open spec fn prepend_locations(
    ls: Seq<LocationModel>,
    rest: Result<Seq<LocationModel>, ExtractError>,
) -> Result<Seq<LocationModel>, ExtractError> {
    match rest {
        Err(e) => Err(e),
        Ok(s) => Ok(ls + s),
    }
}

/// Extract one location fragment: locate the name element, then extract
/// every meal fragment within it, in document order, failing on the
/// first malformed meal.
pub fn parse_location(n: &Node, reg: &Registry) -> (r: Result<Location, ExtractError>)
    ensures
        location_result_view(r) == location_model(*n, *reg),
{
    let names = select(n, &reg.location_name);
    if names.len() == 0 {
        return Err(ExtractError::MissingField);
    }
    assert(*names@[0] == descendant_hits(*n, reg.location_name)[0]);
    let name = trim(names[0].text.as_str());
    let meal_nodes = select(n, &reg.meal);
    let ghost sel = deref_seq(meal_nodes@);
    let mut meals: Vec<Meal> = Vec::new();
    let mut i: usize = 0;
    proof {
        assert(sel.skip(0) =~= sel);
        assert(meals@.map_values(|m: Meal| m@) =~= Seq::<MealModel>::empty());
        match meals_model(sel, *reg) {
            Ok(s) => {
                assert(Seq::<MealModel>::empty() + s =~= s);
            },
            Err(_) => {},
        }
    }
    while i < meal_nodes.len()
        invariant
            i <= meal_nodes.len(),
            sel == deref_seq(meal_nodes@),
            sel == descendant_hits(*n, reg.meal),
            descendant_hits(*n, reg.location_name).len() > 0,
            meals_model(sel, *reg) == prepend_meals(
                meals@.map_values(|m: Meal| m@),
                meals_model(sel.skip(i as int), *reg),
            ),
        decreases meal_nodes.len() - i,
    {
        proof {
            assert(*meal_nodes@[i as int] == sel[i as int]);
            assert(sel.skip(i as int)[0] == sel[i as int]);
            assert(sel.skip(i as int).drop_first() =~= sel.skip(i + 1));
        }
        let ghost old_ms = meals@.map_values(|m: Meal| m@);
        match parse_meal(meal_nodes[i], reg) {
            Err(e) => {
                assert(meals_model(sel.skip(i as int), *reg) == Err::<
                    Seq<MealModel>,
                    ExtractError,
                >(e));
                return Err(e);
            },
            Ok(m) => {
                proof {
                    let rest = meals_model(sel.skip(i + 1), *reg);
                    match rest {
                        Ok(s) => {
                            assert(old_ms + (seq![m@] + s) =~= old_ms.push(m@) + s);
                        },
                        Err(_) => {},
                    }
                }
                meals.push(m);
                assert(meals@.map_values(|mm: Meal| mm@) =~= old_ms.push(m@));
            },
        }
        i = i + 1;
    }
    proof {
        assert(sel.skip(sel.len() as int) =~= Seq::<Node>::empty());
        assert(meals@.map_values(|m: Meal| m@) + Seq::<MealModel>::empty() =~= meals@.map_values(
            |m: Meal| m@,
        ));
    }
    Ok(Location { name, meals })
}

/// Extract the whole document: every visible location fragment, in
/// document order, failing on the first malformed location.
pub fn parse_speiseplan(doc: &Node, reg: &Registry) -> (r: Result<Vec<Location>, ExtractError>)
    ensures
        plan_result_view(r) == plan_model(*doc, *reg),
{
    let loc_nodes = select(doc, &reg.location);
    let ghost sel = deref_seq(loc_nodes@);
    let mut locations: Vec<Location> = Vec::new();
    let mut i: usize = 0;
    proof {
        assert(sel.skip(0) =~= sel);
        assert(locations@.map_values(|l: Location| l@) =~= Seq::<LocationModel>::empty());
        match locations_model(sel, *reg) {
            Ok(s) => {
                assert(Seq::<LocationModel>::empty() + s =~= s);
            },
            Err(_) => {},
        }
    }
    while i < loc_nodes.len()
        invariant
            i <= loc_nodes.len(),
            sel == deref_seq(loc_nodes@),
            sel == descendant_hits(*doc, reg.location),
            locations_model(sel, *reg) == prepend_locations(
                locations@.map_values(|l: Location| l@),
                locations_model(sel.skip(i as int), *reg),
            ),
        decreases loc_nodes.len() - i,
    {
        proof {
            assert(*loc_nodes@[i as int] == sel[i as int]);
            assert(sel.skip(i as int)[0] == sel[i as int]);
            assert(sel.skip(i as int).drop_first() =~= sel.skip(i + 1));
        }
        let ghost old_ls = locations@.map_values(|l: Location| l@);
        match parse_location(loc_nodes[i], reg) {
            Err(e) => {
                assert(locations_model(sel.skip(i as int), *reg) == Err::<
                    Seq<LocationModel>,
                    ExtractError,
                >(e));
                return Err(e);
            },
            Ok(l) => {
                proof {
                    let rest = locations_model(sel.skip(i + 1), *reg);
                    match rest {
                        Ok(s) => {
                            assert(old_ls + (seq![l@] + s) =~= old_ls.push(l@) + s);
                        },
                        Err(_) => {},
                    }
                }
                locations.push(l);
                assert(locations@.map_values(|ll: Location| ll@) =~= old_ls.push(l@));
            },
        }
        i = i + 1;
    }
    proof {
        assert(sel.skip(sel.len() as int) =~= Seq::<Node>::empty());
        assert(locations@.map_values(|l: Location| l@) + Seq::<LocationModel>::empty()
            =~= locations@.map_values(|l: Location| l@));
    }
    Ok(locations)
}

} // verus!
