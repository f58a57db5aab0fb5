use lispvm::{LispRecord, LispValue, Target};

#[test]
fn injective_from_orig_is_sane() {
    assert!(LispValue::Number(2).equals(&LispValue::from(2)));
}

#[test]
fn injective_wrong_pattern_conversion_error() {
    let r = LispRecord::from_value(LispValue::Symbol("nothing".to_string()));
    let err = r.to_number().unwrap_err();
    let expected = lispvm::ConversionError::new(LispValue::Symbol("nothing".to_string()), Target::Number);
    assert!(err.same_source(&expected));
    assert_eq!(err.target(), Target::Number);
}

#[test]
fn injective_try_from_other_is_sane() {
    assert_eq!(LispRecord::from_number(2).to_number().unwrap(), 2);
}

#[test]
fn bool_projection_accepts_only_true_and_false() {
    assert_eq!(LispRecord::from_bool(true).to_bool().unwrap(), true);
    assert_eq!(LispRecord::from_bool(false).to_bool().unwrap(), false);
    let other = LispRecord::from_value(LispValue::Symbol("yes".to_string()));
    let err = other.to_bool().unwrap_err();
    assert_eq!(err.target(), Target::Bool);
    assert!(LispRecord::from_number(1).to_bool().is_err());
}

#[test]
fn char_and_string_projections() {
    assert_eq!(LispRecord::from_char('x').to_char().unwrap(), 'x');
    assert_eq!(LispRecord::from_string("hi".to_string()).to_string_value().unwrap(), "hi");
    assert!(LispRecord::from_char('x').to_number().is_err());
    assert_eq!(LispRecord::from_number(3).to_char().unwrap_err().target(), Target::Char);
    assert_eq!(LispRecord::from_number(3).to_string_value().unwrap_err().target(), Target::String);
}

#[test]
fn type_and_literal_see_through_quotes() {
    let quoted = LispValue::Expression(Box::new(LispValue::Number(1)));
    assert_eq!(quoted.get_type(), lispvm::LispType::Number);
    assert!(quoted.literal());
    let quoted_sym = LispValue::Expression(Box::new(LispValue::Symbol("a".to_string())));
    assert_eq!(quoted_sym.get_type(), lispvm::LispType::Symbol);
    assert!(!quoted_sym.literal());
    assert!(!LispValue::List(vec![]).literal());
    assert!(LispValue::Char('c').literal());
    assert!(LispValue::String("s".to_string()).literal());
}

#[test]
fn records_compare_properties_in_any_order() {
    let mut a = LispRecord::from_number(1);
    a.set_property("x".to_string(), LispValue::Number(1));
    a.set_property("y".to_string(), LispValue::Number(2));
    let mut b = LispRecord::from_number(1);
    b.set_property("y".to_string(), LispValue::Number(2));
    b.set_property("x".to_string(), LispValue::Number(1));
    assert!(a.equals(&b));
    b.set_property("x".to_string(), LispValue::Number(5));
    assert!(!a.equals(&b));
    assert!(!a.equals(&LispRecord::from_number(1)));
}

#[test]
fn defaults_are_the_undefined_symbol() {
    let undefined = LispValue::Symbol("undefined".to_string());
    assert!(LispValue::default().equals(&undefined));
    let r = LispRecord::default();
    assert!(r.value().equals(&undefined));
    assert!(r.equals(&LispRecord::undefined()));
}

#[test]
fn copies_keep_value_and_properties() {
    let mut r = LispRecord::from_value(LispValue::List(vec![LispValue::Char('a')]));
    r.set_property("k".to_string(), LispValue::from("v".to_string()));
    let c = r.clone();
    assert!(c.equals(&r));
    assert!(c.to_value().equals(&LispValue::List(vec![LispValue::from('a')])));
}
