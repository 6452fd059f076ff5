use speiseplan::text::{contains, extract_price_token, take_first_word, trim};

#[test]
fn price_element_text_yields_first_word() {
    assert_eq!(
        extract_price_token("3,50 € (Studierende)"),
        Some("3,50".to_string())
    );
}

#[test]
fn text_without_currency_marker_yields_no_token() {
    assert_eq!(extract_price_token("Studierende"), None);
    assert_eq!(extract_price_token("   "), None);
    assert_eq!(extract_price_token(""), None);
}

#[test]
fn leading_whitespace_is_trimmed_before_the_first_word_is_taken() {
    assert_eq!(
        extract_price_token("\n\t  2,80 €  je Portion "),
        Some("2,80".to_string())
    );
}

#[test]
fn currency_marker_alone_is_its_own_token() {
    assert_eq!(extract_price_token("€"), Some("€".to_string()));
}

#[test]
fn trim_removes_surrounding_whitespace_only() {
    assert_eq!(trim("  Mensa am Park \r\n"), "Mensa am Park".to_string());
    assert_eq!(trim(""), "".to_string());
    assert_eq!(trim(" \t "), "".to_string());
    assert_eq!(trim("kein Rand"), "kein Rand".to_string());
}

#[test]
fn first_word_stops_at_whitespace() {
    assert_eq!(take_first_word("3,50 € mehr"), "3,50".to_string());
    assert_eq!(take_first_word("einzeln"), "einzeln".to_string());
    assert_eq!(take_first_word(""), "".to_string());
}

#[test]
fn contains_finds_the_currency_marker() {
    assert!(contains("ab 4,20 € pro Tag", '€'));
    assert!(!contains("ab 4,20 EUR pro Tag", '€'));
}
