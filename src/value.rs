//! The dynamically typed configuration value.
use vstd::prelude::*;

use crate::error::CannotConvert;
use crate::table::{index_of, lookup, Table};
use crate::text::{decimal, decimal_of, int_of, lower_of, lowercase, parse_int, str_eq};
use vstd::arithmetic::power2::pow2;

verus! {

/// A configuration value: a scalar, a sequence of values or a table.
///
/// A float is held as its IEEE 754 binary64 bit pattern.
#[derive(Debug, PartialEq)]
pub enum Value {
    Null,
    Array(Vec<Value>),
    Table(Table),
    String(String),
    Float(u64),
    Int(i64),
    Bool(bool),
}

/// Relies on `Vec::clone`, which clones each element in order: as
/// `Value::clone` keeps every value, the copy is the same sequence.
#[verifier::external_body]
fn clone_values(a: &Vec<Value>) -> (r: Vec<Value>)
    ensures
        r == *a,
{
    a.clone()
}

impl Clone for Value {
    fn clone(&self) -> (r: Value)
        ensures
            r == *self,
    {
        match self {
            Value::Null => Value::Null,
            Value::Array(a) => Value::Array(clone_values(a)),
            Value::Table(t) => Value::Table(t.clone()),
            Value::String(s) => Value::String(s.clone()),
            Value::Float(b) => Value::Float(*b),
            Value::Int(n) => Value::Int(*n),
            Value::Bool(b) => Value::Bool(*b),
        }
    }
}

/// The name of a value's kind, as conversion errors give it.
pub open spec fn kind_of(v: Value) -> Seq<char> {
    match v {
        Value::Null => "None"@,
        Value::Array(_) => "Array"@,
        Value::Table(_) => "Table"@,
        Value::String(_) => "String"@,
        Value::Float(_) => "Float"@,
        Value::Int(_) => "Int"@,
        Value::Bool(_) => "Bool"@,
    }
}

/// `r` is the error that converting `v` to kind `to` fails with.
pub open spec fn fails_as<T>(r: Result<T, CannotConvert>, v: Value, to: Seq<char>) -> bool {
    r matches Err(e) && e.from_kind() == kind_of(v) && e.to_kind() == to
}

/// The biased exponent field of a binary64 bit pattern.
pub open spec fn exponent_field(bits: u64) -> int {
    ((bits >> 52u64) & 0x7ffu64) as int
}

/// The fraction field of a binary64 bit pattern.
pub open spec fn fraction_field(bits: u64) -> int {
    (bits & 0xfffffffffffffu64) as int
}

/// Whether a binary64 bit pattern is a NaN.
pub open spec fn is_nan_bits(bits: u64) -> bool {
    exponent_field(bits) == 0x7ff && fraction_field(bits) != 0
}

/// Whether a binary64 bit pattern stands for a value other than zero.
pub open spec fn float_is_nonzero(bits: u64) -> bool {
    bits & 0x7fffffffffffffffu64 != 0
}

/// The magnitude of a finite binary64 value, truncated toward zero; for an
/// infinity a number too large for any 64-bit integer.
pub open spec fn truncated_magnitude(bits: u64) -> int {
    let e = exponent_field(bits);
    let full = fraction_field(bits) + pow2(52);
    if e == 0 {
        0
    } else if e >= 1075 {
        full * pow2((e - 1075) as nat)
    } else {
        full / (pow2((1075 - e) as nat) as int)
    }
}

/// A binary64 value truncated toward zero to a 64-bit integer: NaN gives 0,
/// and values out of range give the nearest bound.
pub open spec fn float_to_int(bits: u64) -> int {
    let m = truncated_magnitude(bits);
    let v = if bits >> 63u64 == 1 {
        -m
    } else {
        m
    };
    if is_nan_bits(bits) {
        0
    } else if v > i64::MAX {
        i64::MAX as int
    } else if v < i64::MIN {
        i64::MIN as int
    } else {
        v
    }
}

/// Truncates a binary64 value toward zero, as `f64 as i64` does.
pub fn truncate_float(bits: u64) -> (r: i64)
    ensures
        r as int == float_to_int(bits),
{
    let e: u64 = (bits >> 52u64) & 0x7ffu64;
    let f: u64 = bits & 0xfffffffffffffu64;
    let neg = bits >> 63u64 == 1;
    assert(e <= 0x7ff) by (bit_vector)
        requires
            e == (bits >> 52u64) & 0x7ffu64,
    ;
    assert(f < 0x10000000000000) by (bit_vector)
        requires
            f == bits & 0xfffffffffffffu64,
    ;
    proof {
        vstd::arithmetic::power2::lemma2_to64();
        vstd::arithmetic::power2::lemma2_to64_rest();
    }
    let full: u64 = f + 0x10000000000000u64;
    if e == 0x7ff && f != 0 {
        return 0;
    }
    if e < 1023 {
        proof {
            if e != 0 {
                if 1075 - e > 53 {
                    vstd::arithmetic::power2::lemma_pow2_strictly_increases(53, (1075 - e) as nat);
                }
                assert(full < pow2((1075 - e) as nat));
                vstd::arithmetic::div_mod::lemma_basic_div(full as int, pow2((1075 - e) as nat) as int);
            }
        }
        return 0;
    }
    if e >= 1086 {
        proof {
            vstd::arithmetic::power2::lemma_pow2_adds(11, (e - 1086) as nat);
            vstd::arithmetic::power2::lemma_pow2_pos((e - 1086) as nat);
            assert(pow2((e - 1075) as nat) >= pow2(11)) by (nonlinear_arith)
                requires
                    pow2((e - 1075) as nat) == pow2(11) * pow2((e - 1086) as nat),
                    pow2((e - 1086) as nat) >= 1,
                    pow2(11) > 0,
            ;
            assert(full * pow2((e - 1075) as nat) >= 0x10000000000000 * pow2(11))
                by (nonlinear_arith)
                requires
                    pow2((e - 1075) as nat) >= pow2(11),
                    full >= 0x10000000000000,
            ;
        }
        if neg {
            return i64::MIN;
        } else {
            return i64::MAX;
        }
    }
    let mag: u64 = if e >= 1075 {
        proof {
            if e - 1075 < 10 {
                vstd::arithmetic::power2::lemma_pow2_strictly_increases((e - 1075) as nat, 10);
            }
            assert(full * pow2((e - 1075) as nat) < 0x8000000000000000) by (nonlinear_arith)
                requires
                    pow2((e - 1075) as nat) <= 1024,
                    full < 0x20000000000000,
            ;
            vstd::bits::lemma_u64_shl_is_mul(full, (e - 1075) as u64);
        }
        full << (e - 1075)
    } else {
        proof {
            vstd::bits::lemma_u64_shr_is_div(full, (1075 - e) as u64);
            vstd::arithmetic::power2::lemma_pow2_pos((1075 - e) as nat);
            vstd::arithmetic::div_mod::lemma_div_is_ordered_by_denominator(
                full as int,
                1,
                pow2((1075 - e) as nat) as int,
            );
            assert(full as int / 1 == full);
        }
        full >> (1075 - e)
    };
    assert(mag < 0x8000000000000000);
    if neg {
        -(mag as i64)
    } else {
        mag as i64
    }
}

impl Value {
    /// A value made from anything that converts into one.
    pub fn new<V: Into<Value>>(value: V) -> (r: Value)
        ensures
            call_ensures(V::into, (value,), r),
    {
        value.into()
    }

    /// The table inside a `Table` value.
    pub fn as_table(&self) -> (r: Option<&Table>)
        ensures
            match *self {
                Value::Table(t) => r == Some(&t),
                _ => r is None,
            },
    {
        match self {
            Value::Table(t) => Some(t),
            _ => None,
        }
    }

    /// The table inside a `Table` value, to change in place.
    pub fn as_table_mut(&mut self) -> (r: Option<&mut Table>)
        ensures
            match *old(self) {
                Value::Table(t) => r matches Some(m) && *m == t && *final(self) == Value::Table(
                    *final(m),
                ),
                _ => r is None && *final(self) == *old(self),
            },
    {
        match self {
            Value::Table(t) => Some(t),
            _ => None,
        }
    }

    /// The elements of an `Array` value.
    pub fn as_array(&self) -> (r: Option<&Vec<Value>>)
        ensures
            match *self {
                Value::Array(a) => r == Some(&a),
                _ => r is None,
            },
    {
        match self {
            Value::Array(a) => Some(a),
            _ => None,
        }
    }

    /// The elements of an `Array` value, to change in place.
    pub fn as_array_mut(&mut self) -> (r: Option<&mut Vec<Value>>)
        ensures
            match *old(self) {
                Value::Array(a) => r matches Some(m) && *m == a && *final(self) == Value::Array(
                    *final(m),
                ),
                _ => r is None && *final(self) == *old(self),
            },
    {
        match self {
            Value::Array(a) => Some(a),
            _ => None,
        }
    }

    /// The value stored under `key` in a `Table` value; other kinds hold no
    /// keys.
    pub fn get(&self, key: &str) -> (r: Option<&Value>)
        ensures
            match *self {
                Value::Table(t) => match lookup(t@, key@) {
                    Some(v) => r == Some(&v),
                    None => r is None,
                },
                _ => r is None,
            },
    {
        match self {
            Value::Table(t) => t.get(key),
            _ => None,
        }
    }

    /// The value stored under `key` in a `Table` value, to change in place.
    pub fn get_mut(&mut self, key: &str) -> (r: Option<&mut Value>)
        ensures
            match *old(self) {
                Value::Table(t) => match lookup(t@, key@) {
                    Some(v) => r matches Some(m) && *m == v && (*final(self) matches Value::Table(
                        u,
                    ) && u@ == t@.update(index_of(t@, key@), (key@, *final(m)))),
                    None => r is None && *final(self) == *old(self),
                },
                _ => r is None && *final(self) == *old(self),
            },
    {
        match self {
            Value::Table(t) => t.get_mut(key),
            _ => None,
        }
    }

    /// Whether the value is a table.
    pub fn is_table(&self) -> (r: bool)
        ensures
            r == (*self is Table),
    {
        matches!(self, Value::Table(_))
    }

    /// The name of the value's kind.
    pub fn kind_name(&self) -> (r: &'static str)
        ensures
            r@ == kind_of(*self),
    {
        proof {
            reveal_strlit("None");
            reveal_strlit("Array");
            reveal_strlit("Table");
            reveal_strlit("String");
            reveal_strlit("Float");
            reveal_strlit("Int");
            reveal_strlit("Bool");
        }
        match self {
            Value::Null => "None",
            Value::Array(_) => "Array",
            Value::Table(_) => "Table",
            Value::String(_) => "String",
            Value::Float(_) => "Float",
            Value::Int(_) => "Int",
            Value::Bool(_) => "Bool",
        }
    }

    fn cannot<T>(&self, to: &str) -> (r: Result<T, CannotConvert>)
        ensures
            fails_as(r, *self, to@),
    {
        Err(CannotConvert::new(self.kind_name(), to))
    }

    /// Converts the value to text: `null`, `true` or `false`, the decimal
    /// text of an integer, or the string itself. Arrays and tables fail.
    /// A float is not taken: its text needs floating-point formatting, which
    /// callers that hold the value as an `f64` do themselves.
    pub fn try_into_string(self) -> (r: Result<String, CannotConvert>)
        requires
            !(self is Float),
        ensures
            match self {
                Value::Null => r matches Ok(s) && s@ == "null"@,
                Value::Bool(b) => r matches Ok(s) && s@ == bool_text(b),
                Value::Int(n) => r matches Ok(s) && s@ == decimal_of(n as int),
                Value::String(t) => r == Ok::<String, CannotConvert>(t),
                _ => fails_as(r, self, "String"@),
            },
    {
        match self {
            Value::Null => Ok(String::from_str("null")),
            Value::Bool(b) => {
                proof {
                    reveal_strlit("true");
                    reveal_strlit("false");
                }
                Ok(
                    if b {
                        String::from_str("true")
                    } else {
                        String::from_str("false")
                    },
                )
            },
            Value::Int(n) => Ok(decimal(n)),
            Value::String(t) => Ok(t),
            _ => self.cannot("String"),
        }
    }

    /// Converts the value to a 64-bit integer: 0 for `None`, 1 or 0 for a
    /// boolean, a float truncated toward zero, a string read as decimal
    /// text. Arrays, tables and strings that are no integer fail.
    pub fn try_into_int(self) -> (r: Result<i64, CannotConvert>)
        ensures
            match self {
                Value::Null => r == Ok::<i64, CannotConvert>(0),
                Value::Bool(b) => r == Ok::<i64, CannotConvert>(if b {
                    1
                } else {
                    0
                }),
                Value::Int(n) => r == Ok::<i64, CannotConvert>(n),
                Value::Float(bits) => r matches Ok(n) && n as int == float_to_int(bits),
                Value::String(t) => match int_of(t@) {
                    Some(n) => r matches Ok(m) && m as int == n,
                    None => fails_as(r, self, "Int"@),
                },
                _ => fails_as(r, self, "Int"@),
            },
    {
        match self {
            Value::Null => Ok(0),
            Value::Bool(b) => Ok(
                if b {
                    1
                } else {
                    0
                },
            ),
            Value::Int(n) => Ok(n),
            Value::Float(bits) => Ok(truncate_float(bits)),
            Value::String(ref t) => match parse_int(t.as_str()) {
                Some(n) => Ok(n),
                None => self.cannot("Int"),
            },
            _ => self.cannot("Int"),
        }
    }

    /// Converts the value to a boolean: `false` for `None`, whether a number
    /// is other than zero, and for a string whether its lowercase form is
    /// `t`, `true` or `1`. Arrays and tables fail.
    pub fn try_into_bool(self) -> (r: Result<bool, CannotConvert>)
        ensures
            match self {
                Value::Null => r == Ok::<bool, CannotConvert>(false),
                Value::Bool(b) => r == Ok::<bool, CannotConvert>(b),
                Value::Int(n) => r == Ok::<bool, CannotConvert>(n != 0),
                Value::Float(bits) => r == Ok::<bool, CannotConvert>(float_is_nonzero(bits)),
                Value::String(t) => r == Ok::<bool, CannotConvert>(is_truthy_text(lower_of(t@))),
                _ => fails_as(r, self, "Bool"@),
            },
    {
        match self {
            Value::Null => Ok(false),
            Value::Bool(b) => Ok(b),
            Value::Int(n) => Ok(n != 0),
            Value::Float(bits) => Ok(bits & 0x7fffffffffffffffu64 != 0),
            Value::String(ref t) => {
                let lowered = lowercase(t.as_str());
                Ok(is_truthy(lowered.as_str()))
            },
            _ => self.cannot("Bool"),
        }
    }

    /// Converts the value to an array: empty for `None`, the array itself
    /// for an array. Every other kind fails.
    pub fn try_into_array(self) -> (r: Result<Vec<Value>, CannotConvert>)
        ensures
            match self {
                Value::Null => r matches Ok(a) && a@.len() == 0,
                Value::Array(a) => r == Ok::<Vec<Value>, CannotConvert>(a),
                _ => fails_as(r, self, "Array"@),
            },
    {
        match self {
            Value::Null => Ok(Vec::new()),
            Value::Array(a) => Ok(a),
            _ => self.cannot("Array"),
        }
    }

    /// Converts the value to a table: empty for `None`, the table itself for
    /// a table. Every other kind fails.
    pub fn try_into_table(self) -> (r: Result<Table, CannotConvert>)
        ensures
            match self {
                Value::Null => r matches Ok(t) && t@.len() == 0,
                Value::Table(t) => r == Ok::<Table, CannotConvert>(t),
                _ => fails_as(r, self, "Table"@),
            },
    {
        match self {
            Value::Null => Ok(Table::new()),
            Value::Table(t) => Ok(t),
            _ => self.cannot("Table"),
        }
    }
}

/// Whether lowercase text reads as true: `t`, `true` or `1`.
pub open spec fn is_truthy_text(s: Seq<char>) -> bool {
    s == "t"@ || s == "true"@ || s == "1"@
}

/// Whether lowercase text reads as true.
pub fn is_truthy(lowered: &str) -> (r: bool)
    ensures
        r == is_truthy_text(lowered@),
{
    str_eq(lowered, "t") || str_eq(lowered, "true") || str_eq(lowered, "1")
}

/// The text of a boolean.
pub open spec fn bool_text(b: bool) -> Seq<char> {
    if b {
        "true"@
    } else {
        "false"@
    }
}

/// Writing a boolean as text and reading the text back as a boolean gives
/// the boolean again: the text is already lowercase, and of the two only
/// `true` reads as true.
pub proof fn bool_text_round_trip(b: bool)
    ensures
        is_truthy_text(bool_text(b)) == b,
{
    reveal_strlit("true");
    reveal_strlit("false");
    reveal_strlit("t");
    reveal_strlit("1");
    assert("false"@.len() == 5 && "true"@.len() == 4 && "t"@.len() == 1 && "1"@.len() == 1);
}

/// Writing a 64-bit integer as text and reading the text back as an
/// integer gives the integer again.
pub proof fn int_text_round_trip(n: i64)
    ensures
        int_of(decimal_of(n as int)) == Some(n as int),
{
    crate::text::lemma_decimal_round_trip(n);
}

impl Default for Value {
    fn default() -> (r: Value)
        ensures
            r == Value::Null,
    {
        Value::Null
    }
}

impl From<bool> for Value {
    fn from(v: bool) -> (r: Value)
        ensures
            r == Value::Bool(v),
    {
        Value::Bool(v)
    }
}

impl vstd::std_specs::convert::FromSpecImpl<bool> for Value {
    open spec fn obeys_from_spec() -> bool {
        true
    }

    open spec fn from_spec(v: bool) -> Value {
        Value::Bool(v)
    }
}

impl From<String> for Value {
    fn from(v: String) -> (r: Value)
        ensures
            r == Value::String(v),
    {
        Value::String(v)
    }
}

impl vstd::std_specs::convert::FromSpecImpl<String> for Value {
    open spec fn obeys_from_spec() -> bool {
        true
    }

    open spec fn from_spec(v: String) -> Value {
        Value::String(v)
    }
}

impl From<Table> for Value {
    fn from(v: Table) -> (r: Value)
        ensures
            r == Value::Table(v),
    {
        Value::Table(v)
    }
}

impl vstd::std_specs::convert::FromSpecImpl<Table> for Value {
    open spec fn obeys_from_spec() -> bool {
        true
    }

    open spec fn from_spec(v: Table) -> Value {
        Value::Table(v)
    }
}

impl From<Vec<Value>> for Value {
    fn from(v: Vec<Value>) -> (r: Value)
        ensures
            r == Value::Array(v),
    {
        Value::Array(v)
    }
}

impl vstd::std_specs::convert::FromSpecImpl<Vec<Value>> for Value {
    open spec fn obeys_from_spec() -> bool {
        true
    }

    open spec fn from_spec(v: Vec<Value>) -> Value {
        Value::Array(v)
    }
}

impl From<i64> for Value {
    fn from(v: i64) -> (r: Value)
        ensures
            r == Value::Int(v),
    {
        Value::Int(v)
    }
}

impl vstd::std_specs::convert::FromSpecImpl<i64> for Value {
    open spec fn obeys_from_spec() -> bool {
        true
    }

    open spec fn from_spec(v: i64) -> Value {
        Value::Int(v)
    }
}

impl From<i128> for Value {
    fn from(v: i128) -> (r: Value)
        ensures
            r == Value::Int(v as i64),
    {
        Value::Int(v as i64)
    }
}

impl vstd::std_specs::convert::FromSpecImpl<i128> for Value {
    open spec fn obeys_from_spec() -> bool {
        true
    }

    open spec fn from_spec(v: i128) -> Value {
        Value::Int(v as i64)
    }
}

impl From<i32> for Value {
    fn from(v: i32) -> (r: Value)
        ensures
            r == Value::Int(v as i64),
    {
        Value::Int(v as i64)
    }
}

impl vstd::std_specs::convert::FromSpecImpl<i32> for Value {
    open spec fn obeys_from_spec() -> bool {
        true
    }

    open spec fn from_spec(v: i32) -> Value {
        Value::Int(v as i64)
    }
}

impl From<i16> for Value {
    fn from(v: i16) -> (r: Value)
        ensures
            r == Value::Int(v as i64),
    {
        Value::Int(v as i64)
    }
}

impl vstd::std_specs::convert::FromSpecImpl<i16> for Value {
    open spec fn obeys_from_spec() -> bool {
        true
    }

    open spec fn from_spec(v: i16) -> Value {
        Value::Int(v as i64)
    }
}

impl From<i8> for Value {
    fn from(v: i8) -> (r: Value)
        ensures
            r == Value::Int(v as i64),
    {
        Value::Int(v as i64)
    }
}

impl vstd::std_specs::convert::FromSpecImpl<i8> for Value {
    open spec fn obeys_from_spec() -> bool {
        true
    }

    open spec fn from_spec(v: i8) -> Value {
        Value::Int(v as i64)
    }
}

impl From<u128> for Value {
    fn from(v: u128) -> (r: Value)
        ensures
            r == Value::Int(v as i64),
    {
        Value::Int(v as i64)
    }
}

impl vstd::std_specs::convert::FromSpecImpl<u128> for Value {
    open spec fn obeys_from_spec() -> bool {
        true
    }

    open spec fn from_spec(v: u128) -> Value {
        Value::Int(v as i64)
    }
}

impl From<u64> for Value {
    fn from(v: u64) -> (r: Value)
        ensures
            r == Value::Int(v as i64),
    {
        Value::Int(v as i64)
    }
}

impl vstd::std_specs::convert::FromSpecImpl<u64> for Value {
    open spec fn obeys_from_spec() -> bool {
        true
    }

    open spec fn from_spec(v: u64) -> Value {
        Value::Int(v as i64)
    }
}

impl From<u32> for Value {
    fn from(v: u32) -> (r: Value)
        ensures
            r == Value::Int(v as i64),
    {
        Value::Int(v as i64)
    }
}

impl vstd::std_specs::convert::FromSpecImpl<u32> for Value {
    open spec fn obeys_from_spec() -> bool {
        true
    }

    open spec fn from_spec(v: u32) -> Value {
        Value::Int(v as i64)
    }
}

impl From<u16> for Value {
    fn from(v: u16) -> (r: Value)
        ensures
            r == Value::Int(v as i64),
    {
        Value::Int(v as i64)
    }
}

impl vstd::std_specs::convert::FromSpecImpl<u16> for Value {
    open spec fn obeys_from_spec() -> bool {
        true
    }

    open spec fn from_spec(v: u16) -> Value {
        Value::Int(v as i64)
    }
}

impl From<u8> for Value {
    fn from(v: u8) -> (r: Value)
        ensures
            r == Value::Int(v as i64),
    {
        Value::Int(v as i64)
    }
}

impl vstd::std_specs::convert::FromSpecImpl<u8> for Value {
    open spec fn obeys_from_spec() -> bool {
        true
    }

    open spec fn from_spec(v: u8) -> Value {
        Value::Int(v as i64)
    }
}

impl<'a> From<&'a str> for Value {
    fn from(v: &'a str) -> (r: Value)
        ensures
            r matches Value::String(s) && s@ == v@,
    {
        Value::String(String::from_str(v))
    }
}

impl<'a> vstd::std_specs::convert::FromSpecImpl<&'a str> for Value {
    open spec fn obeys_from_spec() -> bool {
        false
    }

    open spec fn from_spec(v: &'a str) -> Value {
        Value::Null
    }
}

impl<'a> From<&'a [Value]> for Value {
    fn from(v: &'a [Value]) -> (r: Value)
        ensures
            r matches Value::Array(a) && a@ == v@,
    {
        let mut out: Vec<Value> = Vec::new();
        let mut i: usize = 0;
        while i < v.len()
            invariant
                i <= v@.len(),
                out@ == v@.take(i as int),
            decreases v@.len() - i,
        {
            out.push(v[i].clone());
            assert(out@ =~= v@.take(i + 1));
            i = i + 1;
        }
        assert(v@.take(v@.len() as int) =~= v@);
        Value::Array(out)
    }
}

impl<'a> vstd::std_specs::convert::FromSpecImpl<&'a [Value]> for Value {
    open spec fn obeys_from_spec() -> bool {
        false
    }

    open spec fn from_spec(v: &'a [Value]) -> Value {
        Value::Null
    }
}

impl<T: Into<Value>> From<Option<T>> for Value {
    fn from(v: Option<T>) -> (r: Value)
        ensures
            v is None ==> r == Value::Null,
            v matches Some(x) ==> call_ensures(T::into, (x,), r),
    {
        match v {
            Some(x) => x.into(),
            None => Value::Null,
        }
    }
}

impl<T: Into<Value>> vstd::std_specs::convert::FromSpecImpl<Option<T>> for Value {
    open spec fn obeys_from_spec() -> bool {
        false
    }

    open spec fn from_spec(v: Option<T>) -> Value {
        Value::Null
    }
}

} // verus!
