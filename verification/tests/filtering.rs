use speiseplan::filter::filter_locations;
use speiseplan::model::Location;

fn location(name: &str) -> Location {
    Location { name: name.to_string(), meals: vec![] }
}

fn names(locations: &[Location]) -> Vec<&str> {
    locations.iter().map(|l| l.name.as_str()).collect()
}

#[test]
fn allowed_set_keeps_exactly_the_named_locations_in_order() {
    let locations = vec![location("A"), location("B"), location("C"), location("D")];
    let allowed = Some(vec!["A".to_string(), "C".to_string()]);
    let kept = filter_locations(locations, &allowed);
    assert_eq!(names(&kept), vec!["A", "C"]);
}

#[test]
fn no_allowed_set_keeps_everything() {
    let locations = vec![location("A"), location("B"), location("C")];
    let kept = filter_locations(locations, &None);
    assert_eq!(names(&kept), vec!["A", "B", "C"]);
}

#[test]
fn disjoint_allowed_set_keeps_nothing() {
    let locations = vec![location("A"), location("B")];
    let allowed = Some(vec!["X".to_string(), "Y".to_string()]);
    let kept = filter_locations(locations, &allowed);
    assert!(kept.is_empty());
}

#[test]
fn matching_is_exact_without_case_folding_or_trimming() {
    let locations = vec![location("Mensa"), location("mensa"), location(" Mensa")];
    let allowed = Some(vec!["Mensa".to_string()]);
    let kept = filter_locations(locations, &allowed);
    assert_eq!(names(&kept), vec!["Mensa"]);
}

#[test]
fn duplicate_names_are_each_kept() {
    let locations = vec![location("A"), location("B"), location("A")];
    let allowed = Some(vec!["A".to_string()]);
    let kept = filter_locations(locations, &allowed);
    assert_eq!(names(&kept), vec!["A", "A"]);
}
