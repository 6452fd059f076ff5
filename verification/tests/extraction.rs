use speiseplan::dom::Node;
use speiseplan::extract::{parse_location, parse_meal, parse_speiseplan};
use speiseplan::model::{DietaryKind, ExtractError};
use speiseplan::registry::Registry;

const VEGAN: &str = "/typo3conf/ext/ep_werk_menu/Resources/Public/Icons/MealIcons/Normal/vega.svg";
const VEGETARIAN: &str =
    "/typo3conf/ext/ep_werk_menu/Resources/Public/Icons/MealIcons/Normal/vege.svg";

fn el(tag: &str, classes: &[&str], text: &str, children: Vec<Node>) -> Node {
    Node {
        tag: tag.to_string(),
        classes: classes.iter().map(|c| c.to_string()).collect(),
        src: None,
        text: text.to_string(),
        children,
    }
}

fn icon(src: Option<&str>) -> Node {
    Node {
        tag: "img".to_string(),
        classes: vec!["singlemeal__icon".to_string()],
        src: src.map(|s| s.to_string()),
        text: String::new(),
        children: vec![],
    }
}

fn meal_fragment(name: Option<&str>, prices: &[&str], icons: &[Node]) -> Node {
    let mut children = Vec::new();
    if let Some(n) = name {
        children.push(el("h5", &["singlemeal__headline"], n, vec![]));
    }
    for p in prices {
        children.push(el("span", &["singlemeal__info--semibold"], p, vec![]));
    }
    for i in icons {
        children.push(Node {
            tag: i.tag.clone(),
            classes: i.classes.clone(),
            src: i.src.clone(),
            text: i.text.clone(),
            children: vec![],
        });
    }
    el("div", &["singlemeal"], "", children)
}

fn plain_meal(name: &str) -> Node {
    meal_fragment(
        Some(name),
        &["3,50 € (Studierende)", "5,00 € (Beschäftigte)", "6,10 € (Gäste)"],
        &[],
    )
}

fn location_fragment(name: Option<&str>, meals: Vec<Node>, hidden: bool) -> Node {
    let mut children = Vec::new();
    if let Some(n) = name {
        children.push(el("h4", &["mensainfo__title"], n, vec![]));
    }
    children.extend(meals);
    let classes: &[&str] = if hidden {
        &["tx-epwerkmenu-menu-location-container", "d-none"]
    } else {
        &["tx-epwerkmenu-menu-location-container"]
    };
    el("div", classes, "", children)
}

fn document(locations: Vec<Node>) -> Node {
    let body = el("body", &[], "", locations);
    el("html", &[], "", vec![body])
}

#[test]
fn plain_meal_is_normal() {
    let reg = Registry::new();
    let meal = parse_meal(&plain_meal(" Pasta Bolognese "), &reg).unwrap();
    assert_eq!(meal.name, "Pasta Bolognese");
    assert_eq!(
        meal.price,
        ("3,50".to_string(), "5,00".to_string(), "6,10".to_string())
    );
    assert_eq!(meal.kind, DietaryKind::Normal);
}

#[test]
fn price_token_takes_first_word() {
    let frag = meal_fragment(
        Some("Eintopf"),
        &["  2,20 €  (Studierende)  ", "3,10 €", "4,00 € je Portion"],
        &[],
    );
    let reg = Registry::new();
    let meal = parse_meal(&frag, &reg).unwrap();
    assert_eq!(
        meal.price,
        ("2,20".to_string(), "3,10".to_string(), "4,00".to_string())
    );
}

#[test]
fn decorative_price_elements_are_skipped() {
    let frag = meal_fragment(
        Some("Salat"),
        &["Preisangabe", "1,50 €", "2,00 €", "2,50 €"],
        &[],
    );
    let reg = Registry::new();
    let meal = parse_meal(&frag, &reg).unwrap();
    assert_eq!(
        meal.price,
        ("1,50".to_string(), "2,00".to_string(), "2,50".to_string())
    );
}

#[test]
fn extra_price_elements_beyond_three_are_ignored() {
    let frag = meal_fragment(
        Some("Auflauf"),
        &["1,00 €", "2,00 €", "3,00 €", "9,99 €"],
        &[],
    );
    let reg = Registry::new();
    let meal = parse_meal(&frag, &reg).unwrap();
    assert_eq!(
        meal.price,
        ("1,00".to_string(), "2,00".to_string(), "3,00".to_string())
    );
}

#[test]
fn vegan_icon_outranks_vegetarian_icon() {
    let frag = meal_fragment(
        Some("Curry"),
        &["3,50 €", "5,00 €", "6,10 €"],
        &[icon(Some(VEGETARIAN)), icon(Some(VEGAN))],
    );
    let reg = Registry::new();
    let meal = parse_meal(&frag, &reg).unwrap();
    assert_eq!(meal.kind, DietaryKind::Vegan);
}

#[test]
fn vegetarian_icon_without_vegan_icon() {
    let frag = meal_fragment(
        Some("Omelett"),
        &["3,50 €", "5,00 €", "6,10 €"],
        &[icon(Some(VEGETARIAN))],
    );
    let reg = Registry::new();
    let meal = parse_meal(&frag, &reg).unwrap();
    assert_eq!(meal.kind, DietaryKind::Vegetarian);
}

#[test]
fn icons_without_reference_are_skipped() {
    let frag = meal_fragment(
        Some("Gulasch"),
        &["3,50 €", "5,00 €", "6,10 €"],
        &[icon(None), icon(Some(VEGETARIAN))],
    );
    let reg = Registry::new();
    let meal = parse_meal(&frag, &reg).unwrap();
    assert_eq!(meal.kind, DietaryKind::Vegetarian);
}

#[test]
fn unrelated_icon_reference_stays_normal() {
    let frag = meal_fragment(
        Some("Schnitzel"),
        &["3,50 €", "5,00 €", "6,10 €"],
        &[icon(Some("/icons/pork.svg"))],
    );
    let reg = Registry::new();
    let meal = parse_meal(&frag, &reg).unwrap();
    assert_eq!(meal.kind, DietaryKind::Normal);
}

#[test]
fn meal_missing_name_fails_document() {
    let frag = meal_fragment(None, &["3,50 €", "5,00 €", "6,10 €"], &[]);
    let doc = document(vec![location_fragment(Some("Mensa A"), vec![frag], false)]);
    let reg = Registry::new();
    assert_eq!(
        parse_speiseplan(&doc, &reg),
        Err(ExtractError::MissingField)
    );
}

#[test]
fn two_price_tokens_fail_document() {
    let frag = meal_fragment(Some("Suppe"), &["3,50 €", "5,00 €"], &[]);
    let doc = document(vec![location_fragment(Some("Mensa A"), vec![frag], false)]);
    let reg = Registry::new();
    assert_eq!(
        parse_speiseplan(&doc, &reg),
        Err(ExtractError::MalformedPrice)
    );
}

#[test]
fn location_missing_name_fails() {
    let loc = location_fragment(None, vec![plain_meal("Pasta")], false);
    let reg = Registry::new();
    assert_eq!(parse_location(&loc, &reg), Err(ExtractError::MissingField));
}

#[test]
fn meals_keep_document_order() {
    let loc = location_fragment(
        Some("Mensa"),
        vec![plain_meal("Erstes"), plain_meal("Zweites"), plain_meal("Drittes")],
        false,
    );
    let reg = Registry::new();
    let location = parse_location(&loc, &reg).unwrap();
    let names: Vec<&str> = location.meals.iter().map(|m| m.name.as_str()).collect();
    assert_eq!(names, vec!["Erstes", "Zweites", "Drittes"]);
}

#[test]
fn locations_keep_document_order() {
    let doc = document(vec![
        location_fragment(Some("Nord"), vec![plain_meal("A")], false),
        location_fragment(Some("Süd"), vec![plain_meal("B")], false),
        location_fragment(Some("West"), vec![], false),
    ]);
    let reg = Registry::new();
    let plan = parse_speiseplan(&doc, &reg).unwrap();
    let names: Vec<&str> = plan.iter().map(|l| l.name.as_str()).collect();
    assert_eq!(names, vec!["Nord", "Süd", "West"]);
    assert!(plan[2].meals.is_empty());
}

#[test]
fn hidden_location_is_excluded() {
    let doc = document(vec![
        location_fragment(Some("Sichtbar"), vec![plain_meal("A")], false),
        location_fragment(Some("Versteckt"), vec![plain_meal("B")], true),
    ]);
    let reg = Registry::new();
    let plan = parse_speiseplan(&doc, &reg).unwrap();
    let names: Vec<&str> = plan.iter().map(|l| l.name.as_str()).collect();
    assert_eq!(names, vec!["Sichtbar"]);
}

#[test]
fn hidden_location_with_bad_meal_does_not_fail_extraction() {
    let bad = meal_fragment(None, &[], &[]);
    let doc = document(vec![
        location_fragment(Some("Offen"), vec![plain_meal("A")], false),
        location_fragment(Some("Zu"), vec![bad], true),
    ]);
    let reg = Registry::new();
    assert!(parse_speiseplan(&doc, &reg).is_ok());
}

#[test]
fn location_class_on_other_tag_is_not_a_location() {
    let mut loc = location_fragment(Some("Falsch"), vec![], false);
    loc.tag = "span".to_string();
    let doc = document(vec![loc]);
    let reg = Registry::new();
    assert_eq!(parse_speiseplan(&doc, &reg).unwrap().len(), 0);
}

#[test]
fn nested_location_is_still_found() {
    let inner = location_fragment(Some("Tief"), vec![plain_meal("A")], false);
    let wrapper = el("div", &["wrapper"], "", vec![inner]);
    let doc = document(vec![wrapper]);
    let reg = Registry::new();
    let plan = parse_speiseplan(&doc, &reg).unwrap();
    assert_eq!(plan.len(), 1);
    assert_eq!(plan[0].name, "Tief");
}

#[test]
fn empty_document_yields_empty_plan() {
    let doc = document(vec![]);
    let reg = Registry::new();
    assert_eq!(parse_speiseplan(&doc, &reg).unwrap().len(), 0);
}

#[test]
fn extraction_is_idempotent() {
    let doc = document(vec![
        location_fragment(
            Some("Mensa"),
            vec![
                plain_meal(" Eins "),
                meal_fragment(
                    Some("Zwei"),
                    &["1,00 €", "2,00 €", "3,00 €"],
                    &[icon(Some(VEGAN))],
                ),
            ],
            false,
        ),
    ]);
    let reg = Registry::new();
    let first = parse_speiseplan(&doc, &reg);
    let second = parse_speiseplan(&doc, &reg);
    assert_eq!(first, second);
}
