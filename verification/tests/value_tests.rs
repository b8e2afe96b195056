use gdv8::num::parse_number;
use gdv8::value::{number_value, string_value};
use gdv8::{Array, Num, Object, Value};

fn s(text: &str) -> Value {
    Value::String(text.to_string())
}

fn n(v: i64) -> Value {
    Value::Number(Num::Int(v))
}

fn nan() -> Value {
    Value::Number(Num::NaN)
}

fn obj(pairs: Vec<(&str, Value)>) -> Value {
    Value::Object(Object {
        entries: pairs.into_iter().map(|(k, v)| (k.to_string(), v)).collect(),
    })
}

fn arr(elems: Vec<Value>) -> Value {
    Value::Array(Array::new(elems))
}

#[test]
fn add_two_numbers() {
    assert_eq!(n(2).add(&n(3)), n(5));
}

#[test]
fn add_numeric_string_to_number() {
    assert_eq!(s("2").add(&n(3)), n(5));
}

#[test]
fn add_non_numeric_string_to_number() {
    assert_eq!(s("a").add(&n(3)), s("a3"));
}

#[test]
fn add_object_to_number_is_nan() {
    assert_eq!(obj(vec![]).add(&n(1)), nan());
}

#[test]
fn add_undefined_to_number_is_nan() {
    assert_eq!(Value::Undefined.add(&n(1)), nan());
}

#[test]
fn add_number_to_numeric_string() {
    assert_eq!(n(3).add(&s("2")), n(5));
}

#[test]
fn add_number_to_nan_concatenates() {
    assert_eq!(n(1).add(&nan()), s("1NaN"));
}

#[test]
fn add_nan_to_number_concatenates() {
    assert_eq!(nan().add(&n(3)), s("NaN3"));
    assert_eq!(nan().add(&nan()), s("NaNNaN"));
}

#[test]
fn add_two_strings_concatenates() {
    assert_eq!(s("2").add(&s("3")), s("23"));
}

#[test]
fn add_string_and_undefined() {
    assert_eq!(s("x = ").add(&Value::Undefined), s("x = undefined"));
}

#[test]
fn add_string_and_object() {
    assert_eq!(s("o: ").add(&obj(vec![])), s("o: [object Object]"));
}

#[test]
fn add_string_and_array() {
    assert_eq!(s("a: ").add(&arr(vec![n(1), n(2)])), s("a: 1, 2"));
}

#[test]
fn add_nan_to_numeric_string_is_nan() {
    assert_eq!(nan().add(&s("2")), nan());
}

#[test]
fn add_undefined_pair_concatenates() {
    assert_eq!(Value::Undefined.add(&Value::Undefined), s("undefinedundefined"));
}

#[test]
fn add_object_and_string() {
    assert_eq!(obj(vec![]).add(&s("!")), s("[object Object]!"));
}

#[test]
fn add_arrays_concatenates_coercions() {
    assert_eq!(arr(vec![n(1)]).add(&arr(vec![n(2)])), s("12"));
}

#[test]
fn add_saturates_at_the_top_of_the_range() {
    assert_eq!(n(i64::MAX).add(&n(1)), n(i64::MAX));
    assert_eq!(n(i64::MIN).add(&n(-1)), n(i64::MIN));
}

#[test]
fn index_present_key() {
    assert_eq!(obj(vec![("x", n(1))]).index("x"), n(1));
}

#[test]
fn index_absent_key_is_undefined() {
    assert_eq!(obj(vec![]).index("y"), Value::Undefined);
}

#[test]
fn index_non_object_is_undefined() {
    assert_eq!(s("s").index("y"), Value::Undefined);
    assert_eq!(n(4).index("y"), Value::Undefined);
    assert_eq!(Value::Undefined.index("y"), Value::Undefined);
    assert_eq!(arr(vec![n(1)]).index("y"), Value::Undefined);
}

#[test]
fn index_first_binding_wins_inside_an_object() {
    let duplicated = obj(vec![("k", n(1)), ("k", n(2))]);
    assert_eq!(duplicated.index("k"), n(1));
}

#[test]
fn get_shares_the_bound_value() {
    let o = obj(vec![("x", n(1))]);
    assert_eq!(o.get("x"), Some(&n(1)));
    assert_eq!(o.get("y"), None);
    assert_eq!(s("s").get("x"), None);
}

#[test]
fn coerce_to_string_idempotent_on_samples() {
    let samples = vec![
        s("hello"),
        n(12),
        n(-3),
        nan(),
        Value::Undefined,
        obj(vec![("x", n(1))]),
        arr(vec![n(1), s("a"), Value::Undefined]),
        arr(vec![]),
    ];
    for v in samples {
        let once = v.coerce_to_string();
        let twice = Value::String(once.clone()).coerce_to_string();
        assert_eq!(once, twice);
    }
}

#[test]
fn coerce_to_string_spellings() {
    assert_eq!(n(5).coerce_to_string(), "5");
    assert_eq!(n(-9).coerce_to_string(), "-9");
    assert_eq!(n(0).coerce_to_string(), "0");
    assert_eq!(nan().coerce_to_string(), "NaN");
    assert_eq!(Value::Undefined.coerce_to_string(), "undefined");
    assert_eq!(obj(vec![("a", n(1))]).coerce_to_string(), "[object Object]");
    assert_eq!(n(i64::MIN).coerce_to_string(), "-9223372036854775808");
    assert_eq!(n(i64::MAX).coerce_to_string(), "9223372036854775807");
}

#[test]
fn coerce_to_string_joins_arrays() {
    assert_eq!(arr(vec![]).coerce_to_string(), "");
    assert_eq!(arr(vec![n(1)]).coerce_to_string(), "1");
    assert_eq!(arr(vec![n(1), s("a"), nan()]).coerce_to_string(), "1, a, NaN");
    let nested = arr(vec![n(1), arr(vec![n(2), n(3)]), n(4)]);
    assert_eq!(nested.coerce_to_string(), "1, 2, 3, 4");
}

#[test]
fn coerce_to_number_on_each_shape() {
    assert_eq!(s("41").coerce_to_number(), Num::Int(41));
    assert_eq!(n(7).coerce_to_number(), Num::Int(7));
    assert_eq!(obj(vec![]).coerce_to_number(), Num::NaN);
    assert_eq!(arr(vec![n(1)]).coerce_to_number(), Num::NaN);
    assert_eq!(Value::Undefined.coerce_to_number(), Num::NaN);
}

#[test]
fn parse_number_accepts_signed_decimals() {
    assert_eq!(parse_number("2"), Num::Int(2));
    assert_eq!(parse_number("+7"), Num::Int(7));
    assert_eq!(parse_number("-5"), Num::Int(-5));
    assert_eq!(parse_number("007"), Num::Int(7));
    assert_eq!(parse_number("9223372036854775807"), Num::Int(i64::MAX));
    assert_eq!(parse_number("-9223372036854775808"), Num::Int(i64::MIN));
}

#[test]
fn parse_number_rejects_other_shapes() {
    assert_eq!(parse_number(""), Num::NaN);
    assert_eq!(parse_number("a"), Num::NaN);
    assert_eq!(parse_number("1a"), Num::NaN);
    assert_eq!(parse_number(" 2"), Num::NaN);
    assert_eq!(parse_number("+"), Num::NaN);
    assert_eq!(parse_number("-"), Num::NaN);
    assert_eq!(parse_number("9223372036854775808"), Num::NaN);
    assert_eq!(parse_number("-9223372036854775809"), Num::NaN);
    assert_eq!(parse_number("99999999999999999999999"), Num::NaN);
}

#[test]
fn string_value_coerces() {
    assert_eq!(string_value(&n(5)), s("5"));
    assert_eq!(string_value(&Value::Undefined), s("undefined"));
}

#[test]
fn number_value_coerces() {
    assert_eq!(number_value(&s("8")), n(8));
    assert_eq!(number_value(&obj(vec![])), nan());
}

#[test]
fn array_from_copies_a_slice() {
    let elems = vec![n(1), s("a")];
    let v = Array::from(&elems);
    assert_eq!(v, arr(vec![n(1), s("a")]));
    assert_eq!(elems.len(), 2);
}

#[test]
fn value_from_conversions() {
    assert_eq!(Value::from(5i64), n(5));
    assert_eq!(Value::from(Num::NaN), nan());
    assert_eq!(Value::from("hi".to_string()), s("hi"));
    assert_eq!(Value::from(vec![n(1), n(2)]), arr(vec![n(1), n(2)]));
    assert_eq!(Value::from(Array::new(vec![n(1)])), arr(vec![n(1)]));
    let o = Object { entries: vec![("x".to_string(), n(1))] };
    assert_eq!(Value::from(o), obj(vec![("x", n(1))]));
}

#[test]
fn object_from_values_keeps_the_last_binding() {
    let built = Object::from_values(vec![
        ("k".to_string(), n(1)),
        ("other".to_string(), n(9)),
        ("k".to_string(), n(2)),
    ]);
    assert_eq!(built.index("k"), n(2));
    assert_eq!(built.index("other"), n(9));
    assert_eq!(built.index("absent"), Value::Undefined);
}
