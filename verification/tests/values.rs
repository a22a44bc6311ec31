use r_sql_database::condition::{Condition, Op};
use r_sql_database::database::Value;
use r_sql_database::floats::{bits_at_most, bits_equal, bits_less, FloatValue};

fn read_float(s: &str) -> Option<FloatValue> {
    match s.parse::<f64>() {
        Ok(v) => Some(float(v)),
        Err(_) => None,
    }
}

fn float(v: f64) -> FloatValue {
    FloatValue { bits: v.to_bits(), text: v.to_string() }
}

fn text(s: &str) -> Value {
    Value::String(s.to_string())
}

const OPS: [Op; 6] = [Op::Eq, Op::Ne, Op::Lt, Op::Le, Op::Gt, Op::Ge];

#[test]
fn values_are_read_by_their_type_tag() {
    assert!(Value::from_string("42", "INT", &read_float) == Some(Value::Int(42)));
    assert!(Value::from_string("-7", " int ", &read_float) == Some(Value::Int(-7)));
    assert!(Value::from_string("4x", "Int", &read_float).is_none());
    assert!(Value::from_string(" 4", "Int", &read_float).is_none());
    assert!(Value::from_string("true", "Bool", &read_float) == Some(Value::Bool(true)));
    assert!(Value::from_string("false", "BOOL", &read_float) == Some(Value::Bool(false)));
    assert!(Value::from_string("True", "BOOL", &read_float).is_none());
    assert!(Value::from_string("1", "BOOL", &read_float).is_none());
    assert!(Value::from_string(" x y ", "string", &read_float) == Some(text(" x y ")));
    assert!(Value::from_string("", "STRING", &read_float) == Some(text("")));
    assert!(Value::from_string("1.5", "Float", &read_float) == Some(Value::Float(float(1.5))));
    assert!(Value::from_string("abc", "FLOAT", &read_float).is_none());
    assert!(Value::from_string("1", "", &read_float).is_none());
    assert!(Value::from_string("1", "INTEGER", &read_float).is_none());
    assert!(Value::from_string("1", "ınt", &read_float).is_none());
}

#[test]
fn no_type_is_guessed_from_the_text() {
    assert!(Value::from_string("42", "STRING", &read_float) == Some(text("42")));
    assert!(Value::from_string("true", "STRING", &read_float) == Some(text("true")));
    assert!(Value::from_string("42", "FLOAT", &read_float) == Some(Value::Float(float(42.0))));
}

#[test]
fn values_are_shown_as_text() {
    assert_eq!(Value::Bool(true).as_string(), "true");
    assert_eq!(Value::Bool(false).as_string(), "false");
    assert_eq!(Value::Int(-12).as_string(), "-12");
    assert_eq!(Value::Int(i64::MIN).as_string(), "-9223372036854775808");
    assert_eq!(text("a b").as_string(), "a b");
    assert_eq!(Value::Float(float(2.50)).as_string(), "2.5");
    assert_eq!(Value::Float(float(1e21)).as_string(), "1000000000000000000000");
}

#[test]
fn clones_are_equal_to_what_they_copy() {
    for v in [Value::Bool(true), Value::Int(3), text("x"), Value::Float(float(0.25))] {
        assert!(v.clone() == v);
    }
}

#[test]
fn operators_are_spelled() {
    assert_eq!(Op::as_str("="), Some(Op::Eq));
    assert_eq!(Op::as_str("!="), Some(Op::Ne));
    assert_eq!(Op::as_str("<"), Some(Op::Lt));
    assert_eq!(Op::as_str("<="), Some(Op::Le));
    assert_eq!(Op::as_str(">"), Some(Op::Gt));
    assert_eq!(Op::as_str(">="), Some(Op::Ge));
    assert_eq!(Op::as_str("=="), None);
    assert_eq!(Op::as_str(""), None);
    assert_eq!(Op::as_str(" ="), None);
    assert_eq!(Op::get_options(), vec!["=", "!=", "<", "<=", ">", ">="]);
    for spelling in Op::get_options() {
        assert!(Op::as_str(&spelling).is_some());
    }
}

#[test]
fn integers_compare_by_size() {
    let (a, b) = (Value::Int(-3), Value::Int(5));
    assert!(!Op::Eq.cmp(&a, &b) && Op::Ne.cmp(&a, &b));
    assert!(Op::Lt.cmp(&a, &b) && Op::Le.cmp(&a, &b));
    assert!(!Op::Gt.cmp(&a, &b) && !Op::Ge.cmp(&a, &b));
    assert!(Op::Gt.cmp(&b, &a) && Op::Ge.cmp(&b, &a));
    assert!(Op::Eq.cmp(&a, &a) && Op::Le.cmp(&a, &a) && Op::Ge.cmp(&a, &a));
    assert!(!Op::Lt.cmp(&a, &a) && !Op::Gt.cmp(&a, &a) && !Op::Ne.cmp(&a, &a));
}

#[test]
fn texts_compare_as_strings_do() {
    let samples = ["", "a", "B", "ab", "b", "é"];
    for a in samples {
        for b in samples {
            let (x, y) = (text(a), text(b));
            assert_eq!(Op::Eq.cmp(&x, &y), a == b);
            assert_eq!(Op::Ne.cmp(&x, &y), a != b);
            assert_eq!(Op::Lt.cmp(&x, &y), a < b);
            assert_eq!(Op::Le.cmp(&x, &y), a <= b);
            assert_eq!(Op::Gt.cmp(&x, &y), a > b);
            assert_eq!(Op::Ge.cmp(&x, &y), a >= b);
        }
    }
}

#[test]
fn truth_values_are_equal_or_not_and_never_ordered() {
    let (t, f) = (Value::Bool(true), Value::Bool(false));
    assert!(Op::Eq.cmp(&t, &t) && Op::Ne.cmp(&t, &f));
    for op in [Op::Lt, Op::Le, Op::Gt, Op::Ge] {
        assert!(!op.cmp(&f, &t) && !op.cmp(&t, &f) && !op.cmp(&t, &t));
    }
}

#[test]
fn bit_patterns_compare_as_the_numbers_do() {
    let samples = [
        0.0,
        -0.0,
        1.0,
        -1.0,
        1.5,
        -1.5,
        f64::MIN_POSITIVE,
        -f64::MIN_POSITIVE,
        5e-324,
        -5e-324,
        f64::MAX,
        f64::MIN,
        f64::INFINITY,
        f64::NEG_INFINITY,
        f64::NAN,
        -f64::NAN,
        f64::from_bits(0x7ff0_0000_0000_0001),
        f64::from_bits(0xfff8_0000_0000_0001),
        0.1 + 0.2,
        0.3,
    ];
    for a in samples {
        for b in samples {
            assert_eq!(bits_equal(a.to_bits(), b.to_bits()), a == b, "{:?} == {:?}", a, b);
            assert_eq!(bits_less(a.to_bits(), b.to_bits()), a < b, "{:?} < {:?}", a, b);
            assert_eq!(bits_at_most(a.to_bits(), b.to_bits()), a <= b, "{:?} <= {:?}", a, b);
            let (x, y) = (Value::Float(float(a)), Value::Float(float(b)));
            assert_eq!(Op::Eq.cmp(&x, &y), a == b);
            assert_eq!(Op::Ne.cmp(&x, &y), a != b);
            assert_eq!(Op::Lt.cmp(&x, &y), a < b);
            assert_eq!(Op::Le.cmp(&x, &y), a <= b);
            assert_eq!(Op::Gt.cmp(&x, &y), a > b);
            assert_eq!(Op::Ge.cmp(&x, &y), a >= b);
        }
    }
}

#[test]
fn values_of_different_kinds_are_unequal_and_unordered() {
    let values = [Value::Bool(true), text("1"), Value::Int(1), Value::Float(float(1.0))];
    for (i, a) in values.iter().enumerate() {
        for (j, b) in values.iter().enumerate() {
            if i == j {
                continue;
            }
            for op in OPS {
                assert_eq!(op.cmp(a, b), op == Op::Ne, "{:?} between kinds {} and {}", op, i, j);
            }
        }
    }
}

#[test]
fn a_condition_reads_its_value_by_the_type_of_its_field() {
    let c = Condition::new("age", Op::Ge, "18", "int", &read_float).ok().unwrap();
    assert_eq!(c.field_name, "age");
    assert_eq!(c.op, Op::Ge);
    assert!(c.value == Value::Int(18));
    let e = Condition::new("age", Op::Ge, "old", "Int", &read_float).err();
    assert_eq!(e, Some("Cannot parse value 'old' as type 'Int'".to_string()));
}
