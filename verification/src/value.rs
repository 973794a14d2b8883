//! Typed scalar values.
//!
//! A value is a raw string tagged with a scalar type and optional
//! `{format, unit, language}` options. Equality is structural over the
//! three parts. Values convert to and from their wire form, a
//! `(type tag, raw string)` pair; the round trip is exact for every
//! value whose options are the defaults.

use vstd::prelude::*;

use crate::ids::string_from_ascii;
use crate::pb;

verus! {

/// Scalar type tag of a [`Value`].
#[derive(Clone, Copy, Debug, PartialEq, Eq, Structural)]
pub enum ValueType {
    Text,
    Number,
    Checkbox,
    Url,
    Time,
    Point,
}

impl Default for ValueType {
    fn default() -> (r: Self)
        ensures
            r == ValueType::Text,
    {
        ValueType::Text
    }
}

/// Optional presentation options of a [`Value`].
#[derive(Debug)]
pub struct Options {
    pub format: Option<String>,
    pub unit: Option<String>,
    pub language: Option<String>,
}

/// Mathematical image of [`Options`].
pub ghost struct OptionsView {
    pub format: Option<Seq<char>>,
    pub unit: Option<Seq<char>>,
    pub language: Option<Seq<char>>,
}

impl View for Options {
    type V = OptionsView;

    open spec fn view(&self) -> OptionsView {
        OptionsView {
            format: match self.format {
                Some(ref s) => Some(s@),
                None => None,
            },
            unit: match self.unit {
                Some(ref s) => Some(s@),
                None => None,
            },
            language: match self.language {
                Some(ref s) => Some(s@),
                None => None,
            },
        }
    }
}

/// The default options: all absent.
pub open spec fn default_options() -> OptionsView {
    OptionsView { format: None, unit: None, language: None }
}

impl Options {
    /// Options with all three fields absent.
    pub fn none() -> (r: Options)
        ensures
            r@ == default_options(),
    {
        Options { format: None, unit: None, language: None }
    }
}

impl Default for Options {
    fn default() -> (r: Self)
        ensures
            r@ == default_options(),
    {
        Options::none()
    }
}

fn clone_opt_string(o: &Option<String>) -> (r: Option<String>)
    ensures
        match (o, r) {
            (Some(x), Some(y)) => x@ == y@,
            (None, None) => true,
            _ => false,
        },
{
    match o {
        Some(s) => Some(s.clone()),
        None => None,
    }
}

impl Clone for Options {
    fn clone(&self) -> (r: Self)
        ensures
            r@ == self@,
    {
        Options {
            format: clone_opt_string(&self.format),
            unit: clone_opt_string(&self.unit),
            language: clone_opt_string(&self.language),
        }
    }
}

impl Clone for Value {
    fn clone(&self) -> (r: Self)
        ensures
            r@ == self@,
    {
        Value {
            value: self.value.clone(),
            value_type: self.value_type,
            options: self.options.clone(),
        }
    }
}

fn option_string_eq(a: &Option<String>, b: &Option<String>) -> (r: bool)
    ensures
        r == match (a, b) {
            (Some(x), Some(y)) => x@ == y@,
            (None, None) => true,
            _ => false,
        },
{
    match (a, b) {
        (Some(x), Some(y)) => crate::ids::str_eq(x.as_str(), y.as_str()),
        (None, None) => true,
        _ => false,
    }
}

impl PartialEq for Options {
    fn eq(&self, other: &Options) -> (r: bool) {
        option_string_eq(&self.format, &other.format) && option_string_eq(&self.unit, &other.unit)
            && option_string_eq(&self.language, &other.language)
    }
}

impl vstd::std_specs::cmp::PartialEqSpecImpl for Options {
    open spec fn obeys_eq_spec() -> bool {
        true
    }

    open spec fn eq_spec(&self, other: &Options) -> bool {
        self@ == other@
    }
}

/// A typed scalar value: raw string, type tag and options.
#[derive(Debug)]
pub struct Value {
    pub value: String,
    pub value_type: ValueType,
    pub options: Options,
}

/// Mathematical image of a [`Value`].
pub ghost struct ValueView {
    pub value: Seq<char>,
    pub value_type: ValueType,
    pub options: OptionsView,
}

impl View for Value {
    type V = ValueView;

    open spec fn view(&self) -> ValueView {
        ValueView { value: self.value@, value_type: self.value_type, options: self.options@ }
    }
}

impl PartialEq for Value {
    fn eq(&self, other: &Value) -> (r: bool) {
        self.value == other.value && self.value_type == other.value_type && self.options
            == other.options
    }
}

impl vstd::std_specs::cmp::PartialEqSpecImpl for Value {
    open spec fn obeys_eq_spec() -> bool {
        true
    }

    open spec fn eq_spec(&self, other: &Value) -> bool {
        self@ == other@
    }
}

/// The view of a value built from a raw string and a type, with
/// default options.
pub open spec fn plain_value(s: Seq<char>, t: ValueType) -> ValueView {
    ValueView { value: s, value_type: t, options: default_options() }
}

/// Decimal digits of `n`, most significant first.
pub open spec fn decimal_chars(n: int) -> Seq<char>
    decreases n,
{
    if n < 10 {
        seq![((48 + n) as u8) as char]
    } else {
        decimal_chars(n / 10).push(((48 + n % 10) as u8) as char)
    }
}

/// Render a number in decimal.
pub fn u64_to_decimal(n: u64) -> (r: String)
    ensures
        r@ == decimal_chars(n as int),
{
    let mut rev: Vec<u8> = Vec::new();
    let mut h = n;
    loop
        invariant_except_break
            forall|i: int| 0 <= i < rev@.len() ==> rev@[i] < 128,
            h > 0 || rev@.len() == 0,
            decimal_chars(n as int) == decimal_chars(h as int) + rev_chars(rev@),
        ensures
            forall|i: int| 0 <= i < rev@.len() ==> rev@[i] < 128,
            decimal_chars(n as int) == rev_chars(rev@),
        decreases h,
    {
        let d = (h % 10) as u8;
        let ghost prev = h as int;
        let ghost prev_rev = rev@;
        rev.push(48 + d);
        h = h / 10;
        proof {
            assert(rev@ =~= prev_rev.push((48 + prev % 10) as u8));
            assert(rev_chars(rev@) =~= seq![((48 + prev % 10) as u8) as char] + rev_chars(
                prev_rev,
            ));
            if prev < 10 {
                assert(decimal_chars(prev) == seq![((48 + prev) as u8) as char]);
                assert(decimal_chars(prev) + rev_chars(prev_rev) =~= rev_chars(rev@));
            } else {
                assert(decimal_chars(prev) == decimal_chars(prev / 10).push(
                    ((48 + prev % 10) as u8) as char,
                ));
                assert(decimal_chars(h as int) + rev_chars(rev@) =~= decimal_chars(prev)
                    + rev_chars(prev_rev));
            }
        }
        if h == 0 {
            break ;
        }
    }
    let mut bytes: Vec<u8> = Vec::new();
    let n_digits = rev.len();
    let mut j: usize = 0;
    while j < n_digits
        invariant
            0 <= j <= n_digits,
            n_digits == rev@.len(),
            forall|i: int| 0 <= i < rev@.len() ==> rev@[i] < 128,
            bytes@.len() == j,
            forall|t: int| 0 <= t < j ==> bytes@[t] == rev@[n_digits - 1 - t],
        decreases n_digits - j,
    {
        bytes.push(rev[n_digits - 1 - j]);
        j = j + 1;
    }
    proof {
        assert forall|t: int| 0 <= t < bytes@.len() implies bytes@[t] < 128 by {
            assert(bytes@[t] == rev@[n_digits - 1 - t]);
        }
    }
    let r = string_from_ascii(bytes);
    proof {
        lemma_rev_chars_len(rev@);
        assert forall|t: int| 0 <= t < r@.len() implies r@[t] == rev_chars(rev@)[t] by {
            lemma_rev_chars_index(rev@, t);
            assert(r@[t] == bytes@[t] as char);
        }
        assert(r@ =~= rev_chars(rev@));
    }
    r
}

/// Characters of a digit-byte sequence read back to front.
pub open spec fn rev_chars(bytes: Seq<u8>) -> Seq<char> {
    Seq::new(bytes.len(), |i: int| bytes[bytes.len() - 1 - i] as char)
}

proof fn lemma_rev_chars_len(bytes: Seq<u8>)
    ensures
        rev_chars(bytes).len() == bytes.len(),
{
}

proof fn lemma_rev_chars_index(bytes: Seq<u8>, i: int)
    requires
        0 <= i < bytes.len(),
    ensures
        rev_chars(bytes)[i] == bytes[bytes.len() - 1 - i] as char,
{
}

impl Value {
    /// A TEXT value.
    pub fn text(value: String) -> (r: Self)
        ensures
            r@ == plain_value(value@, ValueType::Text),
    {
        Value { value, value_type: ValueType::Text, options: Options::none() }
    }

    /// A NUMBER value holding the given raw decimal string.
    pub fn number(value: String) -> (r: Self)
        ensures
            r@ == plain_value(value@, ValueType::Number),
    {
        Value { value, value_type: ValueType::Number, options: Options::none() }
    }

    /// A NUMBER value rendered from an unsigned integer.
    pub fn number_from_u64(n: u64) -> (r: Self)
        ensures
            r@ == plain_value(decimal_chars(n as int), ValueType::Number),
    {
        Value::number(u64_to_decimal(n))
    }

    /// A CHECKBOX value: `"true"` or `"false"`.
    pub fn checkbox(value: bool) -> (r: Self)
        ensures
            r@ == plain_value(if value { "true"@ } else { "false"@ }, ValueType::Checkbox),
    {
        let s = if value {
            "true"
        } else {
            "false"
        };
        Value { value: s.to_owned(), value_type: ValueType::Checkbox, options: Options::none() }
    }

    /// A URL value.
    pub fn url(value: String) -> (r: Self)
        ensures
            r@ == plain_value(value@, ValueType::Url),
    {
        Value { value, value_type: ValueType::Url, options: Options::none() }
    }

    /// A TIME value holding an RFC 3339 string.
    pub fn time(value: String) -> (r: Self)
        ensures
            r@ == plain_value(value@, ValueType::Time),
    {
        Value { value, value_type: ValueType::Time, options: Options::none() }
    }

    /// A POINT value.
    pub fn point(value: String) -> (r: Self)
        ensures
            r@ == plain_value(value@, ValueType::Point),
    {
        Value { value, value_type: ValueType::Point, options: Options::none() }
    }

    /// Encode to the wire pair `(type tag, raw string)`. Options are
    /// not carried on the wire.
    pub fn to_wire(&self) -> (r: pb::Value)
        ensures
            r.value_type == pb::value_type_tag(self.value_type),
            r.value@ == self@.value,
    {
        pb::Value { value_type: pb::value_type_tag_exec(self.value_type), value: self.value.clone() }
    }

    /// Decode from the wire pair. Fails exactly on an unknown type tag.
    pub fn from_wire(wire: &pb::Value) -> (r: Result<Self, String>)
        ensures
            match pb::value_type_of_tag(wire.value_type) {
                Some(t) => r is Ok && r->Ok_0@ == plain_value(wire.value@, t),
                None => r is Err,
            },
    {
        match pb::ValueType::of_tag(wire.value_type) {
            Some(pb::ValueType::Text) => Ok(Value::text(wire.value.clone())),
            Some(pb::ValueType::Number) => Ok(Value::number(wire.value.clone())),
            Some(pb::ValueType::Checkbox) => Ok(
                Value {
                    value: wire.value.clone(),
                    value_type: ValueType::Checkbox,
                    options: Options::none(),
                },
            ),
            Some(pb::ValueType::Url) => Ok(Value::url(wire.value.clone())),
            Some(pb::ValueType::Time) => Ok(Value::time(wire.value.clone())),
            Some(pb::ValueType::Point) => Ok(Value::point(wire.value.clone())),
            Some(pb::ValueType::Unknown) | None => Err("unknown value type".to_owned()),
        }
    }
}

/// Decoding inverts encoding: for every value with default options,
/// the wire round trip gives the value back.
pub fn value_round_trip(v: &Value) -> (r: Result<Value, String>)
    requires
        v@.options == default_options(),
    ensures
        r is Ok,
        r->Ok_0@ == v@,
{
    let wire = v.to_wire();
    proof {
        pb::lemma_value_type_tag_round_trip(v.value_type);
    }
    Value::from_wire(&wire)
}

} // verus!
