//! The comparison operators and the conditions that a selection filters by.

use crate::database::{value_eq, value_of_text, Value, ValueView};
use crate::floats::{
    bits_at_most, bits_less, float_le, float_lt, is_reader, readings, FloatValue, Readings,
};
use crate::text::{comes_before, same_text, text_lt, to_chars};
use vstd::prelude::*;
use vstd::string::*;

verus! {

/// A comparison operator.
#[derive(Debug, Clone, Copy, PartialEq, Eq, Structural)]
pub enum Op {
    /// `=`
    Eq,
    /// `!=`
    Ne,
    /// `<`
    Lt,
    /// `<=`
    Le,
    /// `>`
    Gt,
    /// `>=`
    Ge,
}

/// A field, an operator and the value that the field is compared with.
pub struct Condition {
    pub field_name: String,
    pub op: Op,
    pub value: Value,
}

/// A condition as the contracts see it.
pub ghost struct ConditionView {
    pub field_name: Seq<char>,
    pub op: Op,
    pub value: ValueView,
}

impl View for Condition {
    type V = ConditionView;

    open spec fn view(&self) -> ConditionView {
        ConditionView { field_name: self.field_name@, op: self.op, value: self.value@ }
    }
}

/// The two values are of one kind.
pub open spec fn same_kind(a: ValueView, b: ValueView) -> bool {
    match (a, b) {
        (ValueView::Bool(_), ValueView::Bool(_)) => true,
        (ValueView::String(_), ValueView::String(_)) => true,
        (ValueView::Int(_), ValueView::Int(_)) => true,
        (ValueView::Float(_), ValueView::Float(_)) => true,
        _ => false,
    }
}

/// The first value is smaller than the second: both are integers, both
/// floating-point numbers or both texts, and ordered so.
pub open spec fn value_lt(a: ValueView, b: ValueView) -> bool {
    match (a, b) {
        (ValueView::Int(x), ValueView::Int(y)) => x < y,
        (ValueView::Float(x), ValueView::Float(y)) => float_lt(x.bits, y.bits),
        (ValueView::String(x), ValueView::String(y)) => text_lt(x, y),
        _ => false,
    }
}

/// The first value is no larger than the second: both are integers, both
/// floating-point numbers or both texts, and ordered so.
pub open spec fn value_le(a: ValueView, b: ValueView) -> bool {
    match (a, b) {
        (ValueView::Int(x), ValueView::Int(y)) => x <= y,
        (ValueView::Float(x), ValueView::Float(y)) => float_le(x.bits, y.bits),
        (ValueView::String(x), ValueView::String(y)) => x == y || text_lt(x, y),
        _ => false,
    }
}

/// The operator that a text spells.
pub open spec fn op_of_text(s: Seq<char>) -> Option<Op> {
    if s == "="@ {
        Some(Op::Eq)
    } else if s == "!="@ {
        Some(Op::Ne)
    } else if s == "<"@ {
        Some(Op::Lt)
    } else if s == "<="@ {
        Some(Op::Le)
    } else if s == ">"@ {
        Some(Op::Gt)
    } else if s == ">="@ {
        Some(Op::Ge)
    } else {
        None
    }
}

fn value_less(a: &Value, b: &Value) -> (r: bool)
    ensures
        r == value_lt(a@, b@),
{
    match (a, b) {
        (Value::Int(x), Value::Int(y)) => *x < *y,
        (Value::Float(x), Value::Float(y)) => bits_less(x.bits, y.bits),
        (Value::String(x), Value::String(y)) => comes_before(
            &to_chars(x.as_str()),
            &to_chars(y.as_str()),
        ),
        _ => false,
    }
}

fn value_at_most(a: &Value, b: &Value) -> (r: bool)
    ensures
        r == value_le(a@, b@),
{
    match (a, b) {
        (Value::Int(x), Value::Int(y)) => *x <= *y,
        (Value::Float(x), Value::Float(y)) => bits_at_most(x.bits, y.bits),
        (Value::String(x), Value::String(y)) => {
            let p: Vec<char> = to_chars(x.as_str());
            let q: Vec<char> = to_chars(y.as_str());
            same_text(&p, &q) || comes_before(&p, &q)
        },
        _ => false,
    }
}

impl Op {
    /// Whether the comparison `a op b` holds. Equality and inequality are
    /// defined for every pair of values; the four orderings hold only
    /// between two integers, two floating-point numbers or two texts.
    pub open spec fn holds(self, a: ValueView, b: ValueView) -> bool {
        match self {
            Op::Eq => value_eq(a, b),
            Op::Ne => !value_eq(a, b),
            Op::Lt => value_lt(a, b),
            Op::Le => value_le(a, b),
            Op::Gt => value_lt(b, a),
            Op::Ge => value_le(b, a),
        }
    }

    /// The operator that `s` spells.
    pub fn as_str(s: &str) -> (r: Option<Self>)
        ensures
            r == op_of_text(s@),
    {
        let text: Vec<char> = to_chars(s);
        if same_text(&text, &to_chars("=")) {
            Some(Op::Eq)
        } else if same_text(&text, &to_chars("!=")) {
            Some(Op::Ne)
        } else if same_text(&text, &to_chars("<")) {
            Some(Op::Lt)
        } else if same_text(&text, &to_chars("<=")) {
            Some(Op::Le)
        } else if same_text(&text, &to_chars(">")) {
            Some(Op::Gt)
        } else if same_text(&text, &to_chars(">=")) {
            Some(Op::Ge)
        } else {
            None
        }
    }

    /// The spellings of the six operators.
    pub fn get_options() -> (r: Vec<String>)
        ensures
            r@.len() == 6,
            r@[0]@ == "="@,
            r@[1]@ == "!="@,
            r@[2]@ == "<"@,
            r@[3]@ == "<="@,
            r@[4]@ == ">"@,
            r@[5]@ == ">="@,
            forall|i: int| 0 <= i < 6 ==> op_of_text(#[trigger] r@[i]@) is Some,
    {
        let mut r: Vec<String> = Vec::new();
        r.push(String::from_str("="));
        r.push(String::from_str("!="));
        r.push(String::from_str("<"));
        r.push(String::from_str("<="));
        r.push(String::from_str(">"));
        r.push(String::from_str(">="));
        r
    }

    /// Evaluates the comparison `v1 op v2`. Between values of different
    /// kinds only `!=` holds.
    pub fn cmp(&self, v1: &Value, v2: &Value) -> (r: bool)
        ensures
            r == self.holds(v1@, v2@),
            !same_kind(v1@, v2@) ==> r == (*self == Op::Ne),
    {
        match self {
            Op::Eq => *v1 == *v2,
            Op::Ne => !(*v1 == *v2),
            Op::Lt => value_less(v1, v2),
            Op::Le => value_at_most(v1, v2),
            Op::Gt => value_less(v2, v1),
            Op::Ge => value_at_most(v2, v1),
        }
    }
}

/// The condition that compares the field `field_name` by `op` with the
/// value that `raw_value` denotes under the type tag `field_type`.
pub open spec fn condition_of(
    field_name: Seq<char>,
    op: Op,
    raw_value: Seq<char>,
    field_type: Seq<char>,
    floats: Readings,
) -> Option<ConditionView> {
    match value_of_text(raw_value, field_type, floats) {
        Some(value) => Some(ConditionView { field_name, op, value }),
        None => None,
    }
}

impl Condition {
    /// Builds a condition from its three parts and the type of its field.
    /// Fails, with a message that names the text and the type, where the
    /// text denotes no value of that type.
    pub fn new<F: Fn(&str) -> Option<FloatValue>>(
        field_name: &str,
        op: Op,
        raw_value: &str,
        field_type: &str,
        reader: &F,
    ) -> (r: Result<Self, String>)
        requires
            is_reader(reader),
        ensures
            match r {
                Ok(c) => condition_of(
                    field_name@,
                    op,
                    raw_value@,
                    field_type@,
                    readings(reader),
                ) == Some(c@),
                Err(e) => condition_of(field_name@, op, raw_value@, field_type@, readings(reader))
                    is None && e@ == "Cannot parse value '"@ + raw_value@ + "' as type '"@
                    + field_type@ + "'"@,
            },
    {
        match Value::from_string(raw_value, field_type, reader) {
            Some(value) => Ok(Condition { field_name: String::from_str(field_name), op, value }),
            None => {
                let mut e: String = String::from_str("Cannot parse value '");
                e.append(raw_value);
                e.append("' as type '");
                e.append(field_type);
                e.append("'");
                Err(e)
            },
        }
    }
}

/// Between values of different kinds none of the four orderings holds,
/// in either direction; `=` does not hold and `!=` does.
pub proof fn lemma_different_kinds(a: ValueView, b: ValueView)
    requires
        !same_kind(a, b),
    ensures
        !Op::Lt.holds(a, b),
        !Op::Le.holds(a, b),
        !Op::Gt.holds(a, b),
        !Op::Ge.holds(a, b),
        !Op::Eq.holds(a, b),
        Op::Ne.holds(a, b),
{
}

/// Of `=` and `!=` exactly one holds, whatever the two values.
pub proof fn lemma_equality_defined(a: ValueView, b: ValueView)
    ensures
        Op::Ne.holds(a, b) == !Op::Eq.holds(a, b),
{
}

} // verus!
