use cddlconv::occur::{calculate_occurrence, is_group_entry_occurence_optional, UNBOUNDED};
use cddlconv::ast::{Occur, Occurrence};
use cddlconv::strnum::{i64_dec_str, str_eq, u64_dec_str};
use cddlconv::util::{is_alphaspace, split_identifier, split_namespaced, to_namespaced, to_pascalcase};

fn occurrence(occur: Occur) -> Option<Occurrence> {
    Some(Occurrence { occur })
}

#[test]
fn pascal_casing_runs_through_the_real_converter() {
    assert_eq!(to_pascalcase("hello world"), "HelloWorld");
    assert_eq!(to_pascalcase("ok"), "Ok");
    assert_eq!(to_pascalcase("error"), "Error");
}

#[test]
fn namespacing_round_trip() {
    assert_eq!(to_namespaced("a.b.Widget"), "A.B.Widget");
    let (parts, name) = split_namespaced("a.b.Widget");
    assert_eq!(parts, vec!["A".to_string(), "B".to_string()]);
    assert_eq!(name, "Widget");
    assert_eq!(format!("{}.{}", parts.join("."), name), to_namespaced("a.b.Widget"));
}

#[test]
fn split_identifier_keeps_every_segment() {
    assert_eq!(split_identifier("a.b.c"), vec!["a", "b", "c"]);
    assert_eq!(split_identifier("plain"), vec!["plain"]);
    assert_eq!(split_identifier(""), vec![""]);
}

#[test]
fn alphaspace_accepts_letters_and_spaces_only() {
    assert!(is_alphaspace("Hello world"));
    assert!(is_alphaspace(""));
    assert!(!is_alphaspace("a-b"));
    assert!(!is_alphaspace("x1"));
}

#[test]
fn occurrence_bounds_follow_the_specifier() {
    assert_eq!(calculate_occurrence(&None), (1, 1));
    assert_eq!(calculate_occurrence(&occurrence(Occur::Optional)), (0, 1));
    assert_eq!(calculate_occurrence(&occurrence(Occur::ZeroOrMore)), (0, UNBOUNDED));
    assert_eq!(calculate_occurrence(&occurrence(Occur::OneOrMore)), (1, UNBOUNDED));
    assert_eq!(
        calculate_occurrence(&occurrence(Occur::Exact { lower: Some(3), upper: None })),
        (3, UNBOUNDED)
    );
    assert_eq!(
        calculate_occurrence(&occurrence(Occur::Exact { lower: None, upper: Some(7) })),
        (0, 7)
    );
}

#[test]
fn optionality_follows_the_normalized_lower_bound() {
    assert!(is_group_entry_occurence_optional(&occurrence(Occur::Optional)));
    assert!(is_group_entry_occurence_optional(&occurrence(Occur::ZeroOrMore)));
    assert!(is_group_entry_occurence_optional(&occurrence(Occur::Exact {
        lower: Some(0),
        upper: Some(4),
    })));
    assert!(is_group_entry_occurence_optional(&occurrence(Occur::Exact {
        lower: None,
        upper: Some(4),
    })));
    assert!(!is_group_entry_occurence_optional(&occurrence(Occur::Exact {
        lower: Some(1),
        upper: Some(4),
    })));
    assert!(!is_group_entry_occurence_optional(&occurrence(Occur::OneOrMore)));
    assert!(!is_group_entry_occurence_optional(&None));
}

#[test]
fn decimal_rendering_is_exact() {
    assert_eq!(u64_dec_str(0), "0");
    assert_eq!(u64_dec_str(12034), "12034");
    assert_eq!(i64_dec_str(-7), "-7");
    assert_eq!(i64_dec_str(i64::MIN), "-9223372036854775808");
}

#[test]
fn string_equality_is_character_exact() {
    assert!(str_eq("abc", "abc"));
    assert!(!str_eq("abc", "abd"));
    assert!(!str_eq("abc", "ab"));
}
