use octy_services::events::models::{py_repr_char, validate_event_type_name};
use octy_services::events::services::{
    assess_resource_limit, parse_event_type_ids, resource_limit_fits, resource_limit_message, strip_zero_width, ApiError,
};

fn chars_text(v: Vec<char>) -> String {
    v.into_iter().collect()
}

#[test]
fn strip_zero_width_drops_whitespace_and_invisible_marks() {
    assert_eq!(strip_zero_width("a\u{200B} b\tc\u{FEFF}\u{2060}d"), "abcd");
    assert_eq!(strip_zero_width(""), "");
    assert_eq!(strip_zero_width("\u{180B}\u{200C}\u{200D}"), "");
}

#[test]
fn event_type_ids_are_trimmed_deduplicated_and_non_empty() {
    assert_eq!(
        parse_event_type_ids(" a,b,,a , c\u{200B}"),
        vec!["a".to_string(), "b".to_string(), "c".to_string()]
    );
    assert_eq!(parse_event_type_ids(",,"), Vec::<String>::new());
}

#[test]
fn events_resource_limit_within_and_over() {
    match assess_resource_limit("10*20*30", 5, 3, 1) {
        Ok((within, counts)) => {
            assert!(within);
            assert_eq!(counts.limit, 20);
            assert_eq!(counts.remainder, 12);
        }
        Err(_) => panic!("slot 1 is readable"),
    }
    match assess_resource_limit("10*20*30", 18, 3, 1) {
        Ok((within, counts)) => {
            assert!(!within);
            assert_eq!(counts.limit, 20);
            assert_eq!(counts.remainder, 2);
        }
        Err(_) => panic!("slot 1 is readable"),
    }
    match assess_resource_limit("10*20*30", 20, 0, 1) {
        Ok((within, counts)) => {
            assert!(within);
            assert_eq!(counts.remainder, 0);
        }
        Err(_) => panic!("slot 1 is readable"),
    }
}

#[test]
fn events_resource_limit_missing_slot_and_bad_number() {
    match assess_resource_limit("10*20", 0, 1, 5) {
        Err(ApiError::Internal(m)) => assert_eq!(m, "IndexError: resource limit slot 5"),
        _ => panic!("slot 5 does not exist"),
    }
    match assess_resource_limit("10* x ", 0, 1, 1) {
        Err(ApiError::Internal(m)) => assert_eq!(m, "ValueError: invalid resource limit ' x '"),
        _ => panic!("slot 1 is no number"),
    }
}

#[test]
fn resource_limit_message_names_limit_and_remainder() {
    assert_eq!(
        resource_limit_message(100, 7, "events"),
        "This request could not be completed as the number of events sent with this request exceeds the allowed limit of : 100. This account can create another 7 events."
    );
}

#[test]
fn py_repr_of_characters() {
    assert_eq!(chars_text(py_repr_char('a')), "'a'");
    assert_eq!(chars_text(py_repr_char('\'')), "\"'\"");
    assert_eq!(chars_text(py_repr_char(' ')), "' '");
}

#[test]
fn event_type_name_rules() {
    assert_eq!(validate_event_type_name("checkout"), Ok(()));
    assert_eq!(
        validate_event_type_name(""),
        Err("Event types must be at least 1 character long and less than 60 characters long.".to_string())
    );
    assert_eq!(
        validate_event_type_name(&"x".repeat(61)),
        Err("Event types must be at least 1 character long and less than 60 characters long.".to_string())
    );
    assert_eq!(validate_event_type_name(&"x".repeat(60)), Ok(()));
    assert_eq!(
        validate_event_type_name("a b.c'"),
        Err("Illegal character(s) found in provided event type : [\"'\", '.', ' ']".to_string())
    );
}

#[test]
fn resource_limit_fits_refuses_overflowing_limits() {
    assert!(resource_limit_fits("10*20*30*40", 5, 3, 3));
    assert!(resource_limit_fits("10*20", 5, 3, 3));
    assert!(resource_limit_fits("10*20*30*abc", 5, 3, 3));
    assert!(!resource_limit_fits("0*0*0*-9223372036854775808", 1, 1, 3));
    assert!(!resource_limit_fits("0*0*9223372036854775807", -1, 0, 2));
}
