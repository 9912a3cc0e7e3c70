use octy_services::profiles::utils::{assess_resource_limit, assessment_in_range, dedupe_identifiers, validate_arg_format};

#[test]
fn resource_limit_within_bounds() {
    let (ok, counts) = assess_resource_limit("100*50*10*1000*5*5", 10, 20);
    assert!(ok);
    assert_eq!(counts.count_after, 30);
    assert_eq!(counts.remainder, 70);
}

#[test]
fn resource_limit_exceeded() {
    let (ok, counts) = assess_resource_limit("100*50*10*1000*5*5", 90, 20);
    assert!(!ok);
    assert_eq!(counts.limit, 100);
    assert_eq!(counts.remainder, 10);
}

#[test]
fn arg_format_parses_range() {
    assert_eq!(validate_arg_format("1-5"), (true, vec![1, 5]));
    assert_eq!(validate_arg_format("no-dash-here"), (false, vec![]));
    assert_eq!(validate_arg_format("nodash"), (false, vec![]));
}

#[test]
fn dedupe_identifiers_trims_and_filters() {
    assert_eq!(
        dedupe_identifiers(" a , b ,a,, c"),
        vec!["a".to_string(), "b".to_string(), "c".to_string()]
    );
}

#[test]
fn resource_limit_unparsable_slot_counts_as_zero() {
    let (ok, counts) = assess_resource_limit("abc*5", 0, 1);
    assert!(!ok);
    assert_eq!(counts.limit, 0);
    assert_eq!(counts.exceeded_by, 1);
    assert_eq!(counts.count_after, 0);
}

#[test]
fn arg_format_one_sided_ranges() {
    assert_eq!(validate_arg_format("3-"), (true, vec![3]));
    assert_eq!(validate_arg_format("-"), (true, vec![]));
    assert_eq!(validate_arg_format("x-2"), (false, vec![]));
}

#[test]
fn dedupe_identifiers_empty_input() {
    assert_eq!(dedupe_identifiers(""), Vec::<String>::new());
    assert_eq!(dedupe_identifiers(" ,\t, "), Vec::<String>::new());
}

#[test]
fn dedupe_identifiers_read_back_after_join() {
    for raw in [" a , b ,a,, c", "", " , ", "x", "p1,p2,p1 ,\tp3"] {
        let r = dedupe_identifiers(raw);
        assert_eq!(dedupe_identifiers(&r.join(",")), r);
    }
}

#[test]
fn assessment_in_range_refuses_overflowing_limits() {
    assert!(assessment_in_range("100*5", 10, 3));
    assert!(assessment_in_range("abc", 10, 3));
    assert!(!assessment_in_range("-9223372036854775808", 1, 0));
    assert!(!assessment_in_range("9223372036854775807", -1, 0));
}
