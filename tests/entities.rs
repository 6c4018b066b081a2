use torifune::decimal::{chars_of, keep_number_chars, parse_decimal, parse_integer, Amount};
use torifune::entity::{
    find_entity, resolve_text, resolve_total, DateValue, EntityNode, MoneyValue, NormalizedValue,
};
use torifune::receipt::{merchant_type_names, receipt_from_entities, ReceiptData};
use torifune::text::format_date;

fn node(kind: &str) -> EntityNode {
    EntityNode {
        entity_type: Some(kind.to_string()),
        mention_text: None,
        normalized_value: None,
        properties: Vec::new(),
    }
}

fn with_mention(kind: &str, mention: &str) -> EntityNode {
    let mut e = node(kind);
    e.mention_text = Some(mention.to_string());
    e
}

fn normalized(text: Option<&str>, money: Option<MoneyValue>, date: Option<DateValue>) -> NormalizedValue {
    NormalizedValue { text: text.map(|s| s.to_string()), money_value: money, date_value: date }
}

fn names(list: &[&str]) -> Vec<String> {
    list.iter().map(|s| s.to_string()).collect()
}

fn amount(billionths: u128) -> Option<Amount> {
    Some(Amount { billionths })
}

#[test]
fn find_entity_takes_later_type_when_first_is_absent() {
    let entities = vec![with_mention("other", "x"), with_mention("supplier_name", "Shop")];
    let found = find_entity(&entities, &names(&["merchant_name", "supplier_name"]));
    assert_eq!(found, Some(1));
}

#[test]
fn find_entity_priority_beats_document_order() {
    let entities = vec![
        with_mention("supplier_name", "Second choice"),
        with_mention("merchant_name", "First choice"),
    ];
    let found = find_entity(&entities, &names(&["merchant_name", "supplier_name"]));
    assert_eq!(found, Some(1));
    assert_eq!(entities[1].mention_text.as_deref(), Some("First choice"));
}

#[test]
fn find_entity_takes_first_of_chosen_type() {
    let entities = vec![with_mention("date", "a"), with_mention("date", "b")];
    assert_eq!(find_entity(&entities, &names(&["receipt_date", "date"])), Some(0));
}

#[test]
fn find_entity_none_when_no_type_matches() {
    let entities = vec![node("a"), node("b")];
    assert_eq!(find_entity(&entities, &names(&["c"])), None);
    assert_eq!(find_entity(&Vec::new(), &names(&["c"])), None);
}

#[test]
fn resolve_total_from_money() {
    let mut e = node("total_amount");
    e.normalized_value = Some(normalized(
        None,
        Some(MoneyValue { units: Some("12".to_string()), nanos: Some(340_000_000) }),
        None,
    ));
    let a = resolve_total(&e).unwrap();
    assert_eq!(a.billionths, 12_340_000_000);
    assert_eq!(a.whole_units(), 12);
    assert_eq!(a.fraction_nanos(), 340_000_000);
}

#[test]
fn resolve_total_from_mention_strips_symbols() {
    let e = with_mention("total_amount", "¥1,234");
    assert_eq!(resolve_total(&e), amount(1_234_000_000_000));
}

#[test]
fn resolve_total_money_units_unreadable_count_as_zero() {
    let mut e = node("total_amount");
    e.normalized_value = Some(normalized(
        None,
        Some(MoneyValue { units: Some("twelve".to_string()), nanos: Some(500_000_000) }),
        None,
    ));
    assert_eq!(resolve_total(&e), amount(500_000_000));
}

#[test]
fn resolve_total_negative_money_falls_through() {
    let mut e = with_mention("total_amount", "$7");
    e.normalized_value = Some(normalized(
        None,
        Some(MoneyValue { units: Some("-3".to_string()), nanos: None }),
        None,
    ));
    assert_eq!(resolve_total(&e), amount(7_000_000_000));
}

#[test]
fn resolve_total_from_normalized_text() {
    let mut e = with_mention("total_amount", "999");
    e.normalized_value = Some(normalized(Some("1500.5"), None, None));
    assert_eq!(resolve_total(&e), amount(1_500_500_000_000));
}

#[test]
fn resolve_total_searches_children_depth_first() {
    let mut inner = node("child");
    inner.properties.push(with_mention("grandchild", "42"));
    let mut e = with_mention("total_amount", "none here");
    e.properties.push(with_mention("first", "n/a"));
    e.properties.push(inner);
    e.properties.push(with_mention("later", "99"));
    assert_eq!(resolve_total(&e), amount(42_000_000_000));
}

#[test]
fn resolve_total_absent_when_nothing_parses() {
    let e = with_mention("total_amount", "free");
    assert_eq!(resolve_total(&e), None);
    assert_eq!(resolve_total(&node("total_amount")), None);
}

#[test]
fn resolve_text_renders_date() {
    let mut e = node("receipt_date");
    e.normalized_value = Some(normalized(
        None,
        None,
        Some(DateValue { year: Some(2024), month: Some(3), day: Some(5) }),
    ));
    assert_eq!(resolve_text(&e), Some("2024-03-05".to_string()));
}

#[test]
fn resolve_text_prefers_normalized_text() {
    let mut e = with_mention("merchant_name", "raw");
    e.normalized_value = Some(normalized(
        Some("Clean"),
        None,
        Some(DateValue { year: Some(2024), month: Some(1), day: Some(1) }),
    ));
    assert_eq!(resolve_text(&e), Some("Clean".to_string()));
}

#[test]
fn resolve_text_incomplete_date_uses_mention() {
    let mut e = with_mention("date", "3/5");
    e.normalized_value = Some(normalized(
        None,
        None,
        Some(DateValue { year: Some(2024), month: None, day: Some(5) }),
    ));
    assert_eq!(resolve_text(&e), Some("3/5".to_string()));
    assert_eq!(resolve_text(&node("date")), None);
}

#[test]
fn format_date_pads_like_std() {
    assert_eq!(format_date(7, 12, 31), "0007-12-31");
    assert_eq!(format_date(-5, 1, 2), format!("{:04}-{:02}-{:02}", -5, 1, 2));
    assert_eq!(format_date(12345, 100, 0), "12345-100-00");
}

#[test]
fn parse_decimal_grammar() {
    let p = |s: &str| parse_decimal(&chars_of(s)).map(|a| a.billionths);
    assert_eq!(p("12.34"), Some(12_340_000_000));
    assert_eq!(p(".5"), Some(500_000_000));
    assert_eq!(p("5."), Some(5_000_000_000));
    assert_eq!(p("0.1234567899"), Some(123_456_789));
    assert_eq!(p("."), None);
    assert_eq!(p(""), None);
    assert_eq!(p("1.2.3"), None);
    assert_eq!(p("-1"), None);
    assert_eq!(p("+5"), Some(5_000_000_000));
    assert_eq!(p("1e3"), Some(1_000_000_000_000));
    assert_eq!(p("2.5E-1"), Some(250_000_000));
    assert_eq!(p("+.5e+1"), Some(5_000_000_000));
    assert_eq!(p("1e-10"), Some(0));
    assert_eq!(p("0e99999"), Some(0));
    assert_eq!(p("1e"), None);
    assert_eq!(p("e5"), None);
    assert_eq!(p("1e2.5"), None);
    assert_eq!(p("-1e3"), None);
    assert_eq!(p("inf"), None);
    assert_eq!(p("NaN"), None);
    assert_eq!(p("1e28"), Some(10_000_000_000_000_000_000_000_000_000_000_000_000));
    assert_eq!(p("1e29"), None);
    assert_eq!(p("10000000000000000000000000001"), None);
}

#[test]
fn parse_integer_grammar() {
    let p = |s: &str| parse_integer(&chars_of(s));
    assert_eq!(p("-12"), Some(-12));
    assert_eq!(p("+7"), Some(7));
    assert_eq!(p("9223372036854775807"), Some(i64::MAX));
    assert_eq!(p("-9223372036854775808"), Some(i64::MIN));
    assert_eq!(p("9223372036854775808"), None);
    assert_eq!(p("-"), None);
    assert_eq!(p("1a"), None);
}

#[test]
fn keep_number_chars_drops_others() {
    let kept: String = keep_number_chars(&chars_of("¥1,234.5円")).into_iter().collect();
    assert_eq!(kept, "1234.5");
}

#[test]
fn receipt_from_entities_fills_three_fields() {
    let mut date = node("purchase_date");
    date.normalized_value = Some(normalized(
        None,
        None,
        Some(DateValue { year: Some(2023), month: Some(11), day: Some(9) }),
    ));
    let entities = vec![
        with_mention("vendor_name", "Vendor"),
        date,
        with_mention("receipt_total", "1,080"),
        with_mention("merchant_name", "Merchant"),
    ];
    let r: ReceiptData = receipt_from_entities("scan.png".to_string(), &entities);
    assert_eq!(r.file, "scan.png");
    assert_eq!(r.merchant.as_deref(), Some("Merchant"));
    assert_eq!(r.date.as_deref(), Some("2023-11-09"));
    assert_eq!(r.amount, amount(1_080_000_000_000));
    assert!(r.currency.is_none());
    assert!(r.receiver_name.is_none());
}

#[test]
fn receipt_from_no_entities_is_empty() {
    let r = receipt_from_entities("a.pdf".to_string(), &Vec::new());
    assert!(r.merchant.is_none() && r.date.is_none() && r.amount.is_none());
    assert_eq!(merchant_type_names()[3], "receipt_merchant_name");
}

#[test]
fn resolve_total_reads_signed_and_exponent_text() {
    let mut e = node("total_amount");
    e.normalized_value = Some(normalized(Some("+5"), None, None));
    assert_eq!(resolve_total(&e), amount(5_000_000_000));
    e.normalized_value = Some(normalized(Some("1.2e3"), None, None));
    assert_eq!(resolve_total(&e), amount(1_200_000_000_000));
}
