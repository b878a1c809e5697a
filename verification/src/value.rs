//! Scalar configuration values, their runtime kinds, and parsing of raw
//! environment text into values.

use vstd::prelude::*;
use crate::strings::str_eq;

verus! {

/// The semantic type of a scalar configuration field.
#[derive(Clone, Copy, PartialEq, Eq, Structural, Debug)]
pub enum ScalarKind {
    Text,
    Uint,
    Boolean,
}

/// One scalar configuration value.
#[derive(Debug, PartialEq)]
pub enum Value {
    Text(String),
    Uint(u64),
    Boolean(bool),
}

/// Mathematical model of a `Value`.
#[verifier::ext_equal]
pub enum ValueModel {
    Text(Seq<char>),
    Uint(u64),
    Boolean(bool),
}

impl View for Value {
    type V = ValueModel;

    open spec fn view(&self) -> ValueModel {
        match self {
            Value::Text(s) => ValueModel::Text(s@),
            Value::Uint(n) => ValueModel::Uint(*n),
            Value::Boolean(b) => ValueModel::Boolean(*b),
        }
    }
}

impl Clone for Value {
    fn clone(&self) -> (r: Value)
        ensures
            r@ == self@,
    {
        match self {
            Value::Text(s) => Value::Text(s.clone()),
            Value::Uint(n) => Value::Uint(*n),
            Value::Boolean(b) => Value::Boolean(*b),
        }
    }
}

/// A copy of an optional scalar value.
pub fn clone_opt_value(o: &Option<Value>) -> (r: Option<Value>)
    ensures
        opt_value_model(r) == opt_value_model(*o),
{
    match o {
        Option::Some(v) => Option::Some(v.clone()),
        Option::None => Option::None,
    }
}

/// The kind a value belongs to.
pub open spec fn kind_of(v: ValueModel) -> ScalarKind {
    match v {
        ValueModel::Text(_) => ScalarKind::Text,
        ValueModel::Uint(_) => ScalarKind::Uint,
        ValueModel::Boolean(_) => ScalarKind::Boolean,
    }
}

/// Model of an optional value.
pub open spec fn opt_value_model(o: Option<Value>) -> Option<ValueModel> {
    match o {
        Option::Some(v) => Option::Some(v@),
        Option::None => Option::None,
    }
}

/// An optional value is either absent or of the given kind.
pub open spec fn opt_has_kind(o: Option<ValueModel>, k: ScalarKind) -> bool {
    o matches Option::Some(v) ==> kind_of(v) == k
}

pub open spec fn is_digit_char(c: char) -> bool {
    '0' <= c && c <= '9'
}

/// Numeric value of one decimal digit.
pub open spec fn digit_val(c: char) -> int {
    c as int - 48
}

pub open spec fn all_digits(s: Seq<char>) -> bool {
    forall|i: int| 0 <= i < s.len() ==> is_digit_char(s[i])
}

/// The number denoted by a sequence of decimal digits, most significant first.
pub open spec fn digits_value(s: Seq<char>) -> int
    decreases s.len(),
{
    if s.len() == 0 {
        0
    } else {
        digits_value(s.drop_last()) * 10 + digit_val(s.last())
    }
}

/// What an unsigned decimal field accepts: one or more digits denoting a
/// number that fits in a `u64`.
pub open spec fn parse_uint(s: Seq<char>) -> Option<u64> {
    if s.len() > 0 && all_digits(s) && digits_value(s) <= u64::MAX {
        Option::Some(digits_value(s) as u64)
    } else {
        Option::None
    }
}

/// What a boolean field accepts: exactly "true" or "false".
pub open spec fn parse_bool(s: Seq<char>) -> Option<bool> {
    if s == "true"@ {
        Option::Some(true)
    } else if s == "false"@ {
        Option::Some(false)
    } else {
        Option::None
    }
}

/// What raw text denotes at the given kind; text fields accept anything.
pub open spec fn parse_value_model(k: ScalarKind, s: Seq<char>) -> Option<ValueModel> {
    match k {
        ScalarKind::Text => Option::Some(ValueModel::Text(s)),
        ScalarKind::Uint => match parse_uint(s) {
            Option::Some(n) => Option::Some(ValueModel::Uint(n)),
            Option::None => Option::None,
        },
        ScalarKind::Boolean => match parse_bool(s) {
            Option::Some(b) => Option::Some(ValueModel::Boolean(b)),
            Option::None => Option::None,
        },
    }
}

/// A parsed value always belongs to the kind it was parsed at.
pub proof fn lemma_parse_value_kind(k: ScalarKind, s: Seq<char>)
    ensures
        opt_has_kind(parse_value_model(k, s), k),
{
}

proof fn lemma_digits_value_nonneg(s: Seq<char>)
    requires
        all_digits(s),
    ensures
        digits_value(s) >= 0,
    decreases s.len(),
{
    if s.len() > 0 {
        lemma_digits_value_nonneg(s.drop_last());
    }
}

/// Appending digits can only grow the denoted number.
proof fn lemma_digits_value_prefix(s: Seq<char>, i: int)
    requires
        all_digits(s),
        0 <= i <= s.len(),
    ensures
        digits_value(s.subrange(0, i)) <= digits_value(s),
    decreases s.len() - i,
{
    if i < s.len() {
        let t = s.subrange(0, i + 1);
        assert(t.drop_last() =~= s.subrange(0, i));
        assert(all_digits(t.drop_last()));
        lemma_digits_value_nonneg(t.drop_last());
        assert(digits_value(t) == digits_value(s.subrange(0, i)) * 10 + digit_val(t.last()));
        lemma_digits_value_prefix(s, i + 1);
    } else {
        assert(s.subrange(0, i) =~= s);
    }
}

/// Parse a decimal `u64`, rejecting empty input, non-digits, and overflow.
pub fn parse_uint_str(raw: &str) -> (r: Option<u64>)
    ensures
        r == parse_uint(raw@),
{
    let n = raw.unicode_len();
    if n == 0 {
        return Option::None;
    }
    let mut acc: u64 = 0;
    let mut i: usize = 0;
    while i < n
        invariant
            0 < n == raw@.len(),
            i <= n,
            all_digits(raw@.subrange(0, i as int)),
            acc == digits_value(raw@.subrange(0, i as int)),
        decreases n - i,
    {
        let c = raw.get_char(i);
        if !('0' <= c && c <= '9') {
            assert(!all_digits(raw@));
            return Option::None;
        }
        let d: u64 = (c as u32 as u64) - 48;
        let wide: u128 = (acc as u128) * 10 + (d as u128);
        proof {
            let pre = raw@.subrange(0, i as int);
            let ext = raw@.subrange(0, i + 1 as int);
            assert(ext.drop_last() =~= pre);
            assert(ext.last() == raw@[i as int]);
            assert(digits_value(ext) == digits_value(pre) * 10 + digit_val(raw@[i as int]));
        }
        if wide > u64::MAX as u128 {
            proof {
                if all_digits(raw@) {
                    lemma_digits_value_prefix(raw@, i + 1);
                    assert(digits_value(raw@) > u64::MAX);
                }
            }
            return Option::None;
        }
        acc = wide as u64;
        i = i + 1;
    }
    proof {
        assert(raw@.subrange(0, n as int) =~= raw@);
    }
    Option::Some(acc)
}

/// Parse raw text at a kind; `None` exactly when the text does not denote a
/// value of that kind.
pub fn parse_value(kind: ScalarKind, raw: &str) -> (r: Option<Value>)
    ensures
        opt_value_model(r) == parse_value_model(kind, raw@),
{
    match kind {
        ScalarKind::Text => Option::Some(Value::Text(raw.to_owned())),
        ScalarKind::Uint => match parse_uint_str(raw) {
            Option::Some(n) => Option::Some(Value::Uint(n)),
            Option::None => Option::None,
        },
        ScalarKind::Boolean => {
            if str_eq(raw, "true") {
                Option::Some(Value::Boolean(true))
            } else if str_eq(raw, "false") {
                Option::Some(Value::Boolean(false))
            } else {
                Option::None
            }
        },
    }
}

} // verus!
