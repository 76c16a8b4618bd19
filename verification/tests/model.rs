use asn1_xer::types::{Bounds, Class, Constraints, Tag};
use asn1_xer::xer::names::{or_own_name, FieldTagStack};

#[test]
fn tags_hold_class_and_number() {
    assert_eq!(Tag::new(Class::Context, 3), Tag { class: Class::Context, value: 3 });
    assert_eq!(Tag::universal(16), Tag { class: Class::Universal, value: 16 });
}

#[test]
fn the_constraints_of_a_field_override_those_of_its_type() {
    let own = Constraints {
        value: Some(Bounds { min: Some(0), max: Some(10) }),
        size: Some(Bounds { min: Some(1), max: None }),
        extensible: false,
    };
    let field = Constraints {
        value: Some(Bounds { min: Some(2), max: Some(5) }),
        size: None,
        extensible: true,
    };
    assert_eq!(
        own.override_constraints(field),
        Constraints {
            value: Some(Bounds { min: Some(2), max: Some(5) }),
            size: Some(Bounds { min: Some(1), max: None }),
            extensible: true,
        }
    );
    assert_eq!(own.override_constraints(Constraints::none()), own);
    assert_eq!(Constraints::none().override_constraints(field), field);
}

#[test]
fn overriding_is_associative() {
    let a = Constraints { value: Some(Bounds { min: Some(0), max: None }), size: None, extensible: false };
    let b = Constraints { value: None, size: Some(Bounds { min: None, max: Some(4) }), extensible: false };
    let c = Constraints { value: Some(Bounds { min: Some(1), max: Some(2) }), size: None, extensible: true };
    assert_eq!(
        a.override_constraints(b).override_constraints(c),
        a.override_constraints(b.override_constraints(c))
    );
}

#[test]
fn the_names_of_a_scope_are_given_out_in_order_and_once() {
    let mut stack = FieldTagStack::new();
    assert!(!stack.is_in_fields());
    assert_eq!(stack.take_name(Some("alone")), Some("alone"));
    assert_eq!(stack.take_name(None), None);
    stack.open_fields(vec!["a", "b"]);
    assert!(stack.is_in_fields());
    assert_eq!(stack.peek_name(), Some("a"));
    assert_eq!(stack.take_name(Some("alone")), Some("a"));
    assert_eq!(stack.take_name(Some("alone")), Some("b"));
    assert_eq!(stack.peek_name(), None);
    assert_eq!(stack.take_name(Some("alone")), None);
    stack.close_scope();
    assert!(!stack.is_in_fields());
    assert_eq!(stack.take_name(Some("alone")), Some("alone"));
}

#[test]
fn an_inner_scope_hides_the_names_of_the_outer_one() {
    let mut stack = FieldTagStack::new();
    stack.open_fields(vec!["outer", "next"]);
    assert_eq!(stack.take_name(None), Some("outer"));
    stack.open_fields(vec!["inner"]);
    assert_eq!(stack.take_name(None), Some("inner"));
    assert_eq!(stack.take_name(None), None);
    stack.close_scope();
    assert_eq!(stack.take_name(None), Some("next"));
}

#[test]
fn the_items_of_a_collection_name_themselves() {
    let mut stack = FieldTagStack::new();
    stack.open_fields(vec!["list", "after"]);
    assert_eq!(stack.take_name(Some("SEQUENCE_OF")), Some("list"));
    stack.open_items();
    assert!(!stack.is_in_fields());
    assert_eq!(stack.peek_name(), None);
    assert_eq!(stack.take_name(Some("INTEGER")), Some("INTEGER"));
    assert_eq!(stack.take_name(Some("INTEGER")), Some("INTEGER"));
    stack.close_scope();
    assert_eq!(stack.take_name(Some("BOOLEAN")), Some("after"));
}

#[test]
fn an_absent_field_takes_its_name_with_it() {
    let mut stack = FieldTagStack::new();
    stack.drop_name();
    stack.open_fields(vec!["a", "b"]);
    stack.drop_name();
    assert_eq!(stack.take_name(None), Some("b"));
    stack.drop_name();
    assert_eq!(stack.take_name(None), None);
    stack.close_scope();
    stack.close_scope();
    assert_eq!(stack.take_name(Some("x")), Some("x"));
}

#[test]
fn a_value_that_is_given_a_name_keeps_it() {
    assert_eq!(or_own_name(Some("given"), "BOOLEAN"), Some("given"));
    assert_eq!(or_own_name(None, "BOOLEAN"), Some("BOOLEAN"));
}
