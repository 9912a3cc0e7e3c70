use octy_services::json::{Json, JsonFloat, JsonNumber};
use octy_services::messaging::currency::{get_money_text, item_price_params, money_format_template, replace_text};
use octy_services::messaging::engine::format_content;
use octy_services::messaging::models::{
    extract_placeholder_tags, is_profile_id, py_repr, py_str, py_str_list_repr, py_str_repr, validate_friendly_name,
};

fn pairs(v: Vec<(&str, &str)>) -> Vec<(String, String)> {
    v.into_iter().map(|(k, x)| (k.to_string(), x.to_string())).collect()
}

#[test]
fn str_repr_quoting() {
    assert_eq!(py_str_repr("abc"), "'abc'");
    assert_eq!(py_str_repr("it's"), "\"it's\"");
    assert_eq!(py_str_repr("it's \"q\""), "'it\\'s \"q\"'");
    assert_eq!(py_str_repr("a\\b"), "'a\\\\b'");
}

#[test]
fn str_repr_escapes_control_characters() {
    assert_eq!(py_str_repr("a\nb\tc\r"), "'a\\nb\\tc\\r'");
    assert_eq!(py_str_repr("\u{1}\u{1f}\u{7f}"), "'\\x01\\x1f\\x7f'");
    assert_eq!(py_str_repr("it's\n"), "\"it's\\n\"");
    assert_eq!(py_str_repr("caf\u{e9}"), "'caf\u{e9}'");
}

#[test]
fn str_repr_escapes_unprintable_unicode() {
    assert_eq!(
        py_str_repr("\u{85}\u{a0}\u{200b}\u{e0001}"),
        "'\\x85\\xa0\\u200b\\U000e0001'"
    );
    assert_eq!(py_str_repr("\u{2028}x\u{3000}"), "'\\u2028x\\u3000'");
    assert_eq!(py_str_repr("\u{4e2d}\u{1f600}"), "'\u{4e2d}\u{1f600}'");
}

#[test]
fn str_repr_escapes_backslash_between_double_quotes() {
    assert_eq!(py_str_repr("a'\\"), "\"a'\\\\\"");
    assert_eq!(py_str_list_repr(&vec!["it's\\".to_string()]), "[\"it's\\\\\"]");
}

#[test]
fn str_list_repr_joins_with_comma() {
    assert_eq!(py_str_list_repr(&vec![]), "[]");
    assert_eq!(py_str_list_repr(&vec![",".to_string(), "'".to_string()]), "[',', \"'\"]");
}

#[test]
fn repr_and_str_of_values() {
    assert_eq!(py_repr(&Json::Null), "None");
    assert_eq!(py_repr(&Json::Bool(true)), "True");
    assert_eq!(py_repr(&Json::Str("x".to_string())), "'x'");
    assert_eq!(py_str(&Json::Str("x".to_string())), "x");
    assert_eq!(py_str(&Json::Number(JsonNumber::Int(-4))), "-4");
    let f = JsonFloat { text: "1.5".to_string(), py_text: "1.5".to_string(), truncated: 1, is_zero: false };
    assert_eq!(py_str(&Json::Number(JsonNumber::Float(f))), "1.5");
}

#[test]
fn friendly_name_rules() {
    assert_eq!(validate_friendly_name("Welcome mail"), Ok(()));
    assert_eq!(
        validate_friendly_name(""),
        Err("Message template friendly names must be at least 1 character long and less than 60 characters long."
            .to_string())
    );
    assert_eq!(
        validate_friendly_name("a.b,c"),
        Err("Illegal character(s) found in provided message template friendly name : [',', '.']".to_string())
    );
}

#[test]
fn placeholder_tags_in_order() {
    assert_eq!(
        extract_placeholder_tags("Hi {{first_name}}, see {{item_rec.item_name}}!"),
        vec!["first_name".to_string(), "item_rec.item_name".to_string()]
    );
    assert_eq!(extract_placeholder_tags("no tags {here}"), Vec::<String>::new());
    assert_eq!(extract_placeholder_tags("{{a\nb}}{{}}"), vec!["a\nb".to_string(), "".to_string()]);
}

#[test]
fn profile_identifiers() {
    assert!(is_profile_id("profile_abc"));
    assert!(is_profile_id("profile_9-x"));
    assert!(!is_profile_id("profile_"));
    assert!(!is_profile_id("profile_-"));
    assert!(!is_profile_id("cust_1"));
}

#[test]
fn money_formats() {
    assert_eq!(money_format_template("USD"), Some("${amount}".to_string()));
    assert_eq!(money_format_template("SEK"), Some("{amount} kr".to_string()));
    assert_eq!(money_format_template("XXX"), None);
    assert_eq!(get_money_text("EUR", "12.5"), Ok("€12.5".to_string()));
    assert_eq!(get_money_text("INR", "3.0"), Ok("Rs. 3.0".to_string()));
    assert_eq!(get_money_text("ABC", "1"), Err("KeyError: unknown currency code 'ABC'".to_string()));
    assert_eq!(replace_text("{amount} and {amount}", "{amount}", "7"), "7 and 7");
}

#[test]
fn item_price_parameters() {
    assert_eq!(
        item_price_params("profile_1::USD::EUR:: 10 "),
        Ok((10, "USD".to_string(), "EUR".to_string()))
    );
    assert_eq!(item_price_params("profile_1::USD::EUR"), Err("invalid item_price discount parameter".to_string()));
    assert_eq!(item_price_params("p::USD::EUR::x"), Err("invalid item_price discount parameter".to_string()));
}

#[test]
fn content_placeholders_are_filled() {
    let values = pairs(vec![("first_name", "Ada")]);
    let rec = pairs(vec![("item_name", "Lamp")]);
    assert_eq!(
        format_content("Hi {first_name}, try {item_rec.item_name} {", &values, &rec, true),
        Ok("Hi Ada, try Lamp {".to_string())
    );
    assert_eq!(
        format_content("{item_rec.item_name}", &values, &rec, false),
        Err("KeyError: 'item_rec.item_name'".to_string())
    );
    assert_eq!(
        format_content("{item_rec.price}", &values, &rec, true),
        Err("KeyError: 'price'".to_string())
    );
    assert_eq!(format_content("{last}", &values, &rec, true), Err("KeyError: 'last'".to_string()));
    assert_eq!(format_content("", &values, &rec, true), Ok(String::new()));
}

#[test]
fn content_without_braces_is_unchanged() {
    let values = pairs(vec![("first_name", "Ada")]);
    let rec = pairs(vec![]);
    assert_eq!(
        format_content("Hello first_name, no placeholders}", &values, &rec, false),
        Ok("Hello first_name, no placeholders}".to_string())
    );
}
