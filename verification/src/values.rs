//! The values of the language.

use crate::decimal::decimal_text;
use crate::decimal::format_decimal;
use crate::decimal::Decimal;
use vstd::prelude::*;
use vstd::std_specs::cmp::PartialEqSpecImpl;
use vstd::string::StringExecFns;

verus! {

/// A value: the result of an evaluation, or the content of an input slot.
#[derive(Debug, Copy, Clone)]
pub enum Value {
    /// The absent value.
    Null,
    /// A truth value.
    Bool(bool),
    /// An exact decimal number.
    Number(Decimal),
}

impl Value {
    /// Equality of values: the same variant, and in it the same truth value
    /// or the same number. Numbers are equal by what they amount to, not by
    /// how they are written.
    pub open spec fn same(self, other: Value) -> bool {
        match (self, other) {
            (Value::Null, Value::Null) => true,
            (Value::Bool(a), Value::Bool(b)) => a == b,
            (Value::Number(a), Value::Number(b)) => a@.same(b@),
            _ => false,
        }
    }

    /// The text of a value: `Null`, `Bool: ` and the truth value, or
    /// `Number: ` and the decimal.
    pub open spec fn text(self) -> Seq<char> {
        match self {
            Value::Null => "Null"@,
            Value::Bool(true) => "Bool: true"@,
            Value::Bool(false) => "Bool: false"@,
            Value::Number(d) => "Number: "@ + decimal_text(d@.mantissa, d@.scale, d@.negative),
        }
    }

    /// The text of the value.
    pub fn to_string(&self) -> (text: String)
        ensures
            text@ == self.text(),
    {
        match self {
            Value::Null => String::from_str("Null"),
            Value::Bool(true) => String::from_str("Bool: true"),
            Value::Bool(false) => String::from_str("Bool: false"),
            Value::Number(d) => {
                let digits = format_decimal(d);
                String::from_str("Number: ").concat(digits.as_str())
            },
        }
    }
}

impl PartialEq for Value {
    fn eq(&self, other: &Value) -> (r: bool) {
        match (self, other) {
            (Value::Null, Value::Null) => true,
            (Value::Bool(a), Value::Bool(b)) => *a == *b,
            (Value::Number(a), Value::Number(b)) => *a == *b,
            _ => false,
        }
    }
}

impl Eq for Value {}

impl PartialEqSpecImpl for Value {
    open spec fn obeys_eq_spec() -> bool {
        true
    }

    open spec fn eq_spec(&self, other: &Value) -> bool {
        self.same(*other)
    }
}

} // verus!
