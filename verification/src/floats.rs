//! Floating-point values as the engine holds them.
//!
//! The engine never computes with floating-point numbers. It keeps the
//! IEEE 754 binary64 bit pattern of a value together with the text that
//! renders it, compares two values by their bit patterns, and leaves the
//! conversion of a literal to whoever embeds it: every operation that may
//! meet a `FLOAT` literal takes a reader, a function from the literal's text
//! to the value it denotes, if any.

use vstd::prelude::*;

verus! {

/// A floating-point value: its binary64 bit pattern and its rendering.
pub struct FloatValue {
    pub bits: u64,
    pub text: String,
}

/// A floating-point value as the contracts see it.
pub ghost struct FloatView {
    pub bits: u64,
    pub text: Seq<char>,
}

impl View for FloatValue {
    type V = FloatView;

    open spec fn view(&self) -> FloatView {
        FloatView { bits: self.bits, text: self.text@ }
    }
}

impl Clone for FloatValue {
    fn clone(&self) -> (r: Self)
        ensures
            r@ == self@,
    {
        FloatValue { bits: self.bits, text: self.text.clone() }
    }
}

/// What a reader may make of a literal.
pub type Readings = spec_fn(Seq<char>) -> Option<FloatView>;

/// The view of a floating-point value that may be absent.
pub open spec fn float_view(r: Option<FloatValue>) -> Option<FloatView> {
    match r {
        Some(v) => Some(v@),
        None => None,
    }
}

/// `r` is a possible answer of `f` to the text `s`.
pub open spec fn may_read<F: Fn(&str) -> Option<FloatValue>>(
    f: &F,
    s: Seq<char>,
    r: Option<FloatValue>,
) -> bool {
    exists|t: &str| t@ == s && #[trigger] call_ensures(*f, (t,), r)
}

/// `f` can be asked about every text, and its answer depends on the text
/// alone.
pub open spec fn is_reader<F: Fn(&str) -> Option<FloatValue>>(f: &F) -> bool {
    &&& forall|t: &str| call_requires(*f, (t,))
    &&& forall|s: Seq<char>, a: Option<FloatValue>, b: Option<FloatValue>|
        #[trigger] may_read(f, s, a) && #[trigger] may_read(f, s, b) ==> float_view(a)
            == float_view(b)
}

/// The answer of the reader `f` to the text `s`.
pub open spec fn reading<F: Fn(&str) -> Option<FloatValue>>(f: &F, s: Seq<char>) -> Option<
    FloatView,
> {
    float_view(choose|r: Option<FloatValue>| may_read(f, s, r))
}

/// The answers of the reader `f`, as a function of the text.
pub open spec fn readings<F: Fn(&str) -> Option<FloatValue>>(f: &F) -> Readings {
    |s: Seq<char>| reading(f, s)
}

/// Asks the reader about one literal.
pub fn read_float<F: Fn(&str) -> Option<FloatValue>>(f: &F, s: &str) -> (r: Option<FloatValue>)
    requires
        is_reader(f),
    ensures
        float_view(r) == readings(f)(s@),
        may_read(f, s@, r),
{
    let r = f(s);
    assert(may_read(f, s@, r));
    r
}

/// The bit pattern without its sign bit.
pub open spec fn magnitude(bits: u64) -> int {
    bits as int % 0x8000_0000_0000_0000
}

/// The bit pattern has its sign bit set.
pub open spec fn is_negative(bits: u64) -> bool {
    bits >= 0x8000_0000_0000_0000
}

/// The bit pattern stands for no number: all exponent bits set and a
/// fraction other than zero.
pub open spec fn is_nan(bits: u64) -> bool {
    magnitude(bits) > 0x7ff0_0000_0000_0000
}

/// An integer that orders the bit patterns other than NaN as the numbers
/// they stand for are ordered; both zeros have rank 0.
pub open spec fn rank(bits: u64) -> int {
    if is_negative(bits) {
        -magnitude(bits)
    } else {
        magnitude(bits)
    }
}

/// The two patterns stand for equal numbers.
pub open spec fn float_eq(a: u64, b: u64) -> bool {
    !is_nan(a) && !is_nan(b) && rank(a) == rank(b)
}

/// The first pattern stands for a smaller number than the second.
pub open spec fn float_lt(a: u64, b: u64) -> bool {
    !is_nan(a) && !is_nan(b) && rank(a) < rank(b)
}

/// The first pattern stands for a number no larger than the second.
pub open spec fn float_le(a: u64, b: u64) -> bool {
    !is_nan(a) && !is_nan(b) && rank(a) <= rank(b)
}

fn bits_rank(bits: u64) -> (r: Option<i128>)
    ensures
        match r {
            Some(k) => !is_nan(bits) && k == rank(bits),
            None => is_nan(bits),
        },
{
    let top: u64 = 0x8000_0000_0000_0000;
    let size: u64 = bits % top;
    if size > 0x7ff0_0000_0000_0000 {
        None
    } else if bits >= top {
        Some(-(size as i128))
    } else {
        Some(size as i128)
    }
}

/// Whether the two patterns stand for equal numbers.
pub fn bits_equal(a: u64, b: u64) -> (r: bool)
    ensures
        r == float_eq(a, b),
{
    match (bits_rank(a), bits_rank(b)) {
        (Some(x), Some(y)) => x == y,
        _ => false,
    }
}

/// Whether the first pattern stands for a smaller number than the second.
pub fn bits_less(a: u64, b: u64) -> (r: bool)
    ensures
        r == float_lt(a, b),
{
    match (bits_rank(a), bits_rank(b)) {
        (Some(x), Some(y)) => x < y,
        _ => false,
    }
}

/// Whether the first pattern stands for a number no larger than the second.
pub fn bits_at_most(a: u64, b: u64) -> (r: bool)
    ensures
        r == float_le(a, b),
{
    match (bits_rank(a), bits_rank(b)) {
        (Some(x), Some(y)) => x <= y,
        _ => false,
    }
}

} // verus!
