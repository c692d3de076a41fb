use parpy::utils::info::Info;
use parpy::utils::name::Name;

#[test]
fn plain_name_prints_its_text() {
    assert_eq!(Name::new("x".to_string()).pprint(), "x");
}

#[test]
fn numbered_name_prints_text_and_number() {
    assert_eq!(Name::sym_str("while", 0).pprint(), "while_0");
    assert_eq!(Name::sym_str("stmt", 10).pprint(), "stmt_10");
    assert_eq!(Name::sym_str("if", 1234).pprint(), "if_1234");
    assert_eq!(Name::sym_str("v", u64::MAX).pprint(), "v_18446744073709551615");
}

#[test]
fn names_equal_by_text_and_number() {
    let a = Name::sym_str("x", 1);
    assert!(a.eq_name(&Name::sym_str("x", 1)));
    assert!(!a.eq_name(&Name::sym_str("x", 2)));
    assert!(!a.eq_name(&Name::new("x".to_string())));
    assert!(!a.eq_name(&Name::sym_str("y", 1)));
    assert_eq!(a.clone(), a);
}

#[test]
fn default_info_is_origin() {
    assert_eq!(Info::default(), Info::new(0, 0));
}
