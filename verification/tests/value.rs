use nixpkgs_eval::value::{convert_expression_to_string, integer_text, Value};

#[test]
fn plain_shapes_have_a_text() {
    assert_eq!(convert_expression_to_string(None), Some("Null".to_string()));
    assert_eq!(convert_expression_to_string(Some(Value::Null)), Some("Null".to_string()));
    assert_eq!(convert_expression_to_string(Some(Value::Bool(true))), Some("true".to_string()));
    assert_eq!(convert_expression_to_string(Some(Value::Bool(false))), Some("false".to_string()));
    assert_eq!(convert_expression_to_string(Some(Value::Integer(2))), Some("2".to_string()));
    assert_eq!(convert_expression_to_string(Some(Value::Integer(-17))), Some("-17".to_string()));
    assert_eq!(
        convert_expression_to_string(Some(Value::Float("1.5".to_string()))),
        Some("1.5".to_string())
    );
    assert_eq!(
        convert_expression_to_string(Some(Value::String("a b".to_string()))),
        Some("a b".to_string())
    );
}

#[test]
fn the_other_shapes_have_none() {
    for shape in [
        Value::Path,
        Value::Attrs,
        Value::List,
        Value::Closure,
        Value::Builtin,
        Value::Thunk,
        Value::AttrNotFound,
        Value::Blueprint,
        Value::DeferredUpvalue,
        Value::UnresolvedPath,
        Value::FinaliseRequest,
        Value::Catchable,
    ] {
        assert_eq!(convert_expression_to_string(Some(shape)), None);
    }
}

#[test]
fn integers_are_written_in_base_ten() {
    for n in [0i64, 1, -1, 9, 10, -10, 1234567890123, i64::MAX, i64::MIN, i64::MIN + 1] {
        assert_eq!(integer_text(n), n.to_string());
    }
}
