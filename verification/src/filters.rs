//! Property, version, attribute and edge filters.
//!
//! A `PropFilter` constrains a single scalar property with any of
//! `eq, ne, gt, ge, lt, le, in, not_in`; it compiles to one `WHERE`
//! conjunct and one parameter per set operation, the parameter named
//! after `(node_var, key, op)`. The higher filters compose property
//! filters over attribute edges, relation edges and entities.

use vstd::prelude::*;

use crate::ids::{str_eq, str_lt};
use crate::query::{
    merged_query_part,
    empty_query_part,
    params_disjoint,
    Param,
    ParamValue,
    ParamView,
    ParamValueView,
    QueryPart,
    QueryPartView,
};
use crate::value::Value;

verus! {

/// Filter for property `key` of node `node_var`.
#[derive(Clone, Debug)]
pub struct PropFilter<T> {
    pub value: Option<T>,
    pub value_gt: Option<T>,
    pub value_gte: Option<T>,
    pub value_lt: Option<T>,
    pub value_lte: Option<T>,
    pub value_not: Option<T>,
    pub value_in: Option<Vec<T>>,
    pub value_not_in: Option<Vec<T>>,
}

/// Mathematical image of a `PropFilter<String>`.
pub ghost struct PropFilterView {
    pub value: Option<Seq<char>>,
    pub value_gt: Option<Seq<char>>,
    pub value_gte: Option<Seq<char>>,
    pub value_lt: Option<Seq<char>>,
    pub value_lte: Option<Seq<char>>,
    pub value_not: Option<Seq<char>>,
    pub value_in: Option<Seq<Seq<char>>>,
    pub value_not_in: Option<Seq<Seq<char>>>,
}

pub open spec fn view_opt_string(o: Option<String>) -> Option<Seq<char>> {
    match o {
        Some(s) => Some(s@),
        None => None,
    }
}

pub open spec fn view_opt_string_list(o: Option<Vec<String>>) -> Option<Seq<Seq<char>>> {
    match o {
        Some(l) => Some(l@.map_values(|s: String| s@)),
        None => None,
    }
}

impl View for PropFilter<String> {
    type V = PropFilterView;

    open spec fn view(&self) -> PropFilterView {
        PropFilterView {
            value: view_opt_string(self.value),
            value_gt: view_opt_string(self.value_gt),
            value_gte: view_opt_string(self.value_gte),
            value_lt: view_opt_string(self.value_lt),
            value_lte: view_opt_string(self.value_lte),
            value_not: view_opt_string(self.value_not),
            value_in: view_opt_string_list(self.value_in),
            value_not_in: view_opt_string_list(self.value_not_in),
        }
    }
}

impl<T> Default for PropFilter<T> {
    fn default() -> (r: Self)
        ensures
            r.value is None,
            r.value_gt is None,
            r.value_gte is None,
            r.value_lt is None,
            r.value_lte is None,
            r.value_not is None,
            r.value_in is None,
            r.value_not_in is None,
    {
        PropFilter {
            value: None,
            value_gt: None,
            value_gte: None,
            value_lt: None,
            value_lte: None,
            value_not: None,
            value_in: None,
            value_not_in: None,
        }
    }
}

impl<T> PropFilter<T> {
    /// Constrain the property to equal `value`.
    pub fn value(self, value: T) -> (r: Self)
        ensures
            r == (PropFilter { value: Some(value), ..self }),
    {
        PropFilter { value: Some(value), ..self }
    }

    /// In-place form of [`PropFilter::value`].
    pub fn value_mut(&mut self, value: T)
        ensures
            *final (self) == (PropFilter { value: Some(value), ..*old(self) }),
    {
        self.value = Some(value);
    }

    /// Constrain the property to be greater than `value`.
    pub fn value_gt(self, value: T) -> (r: Self)
        ensures
            r == (PropFilter { value_gt: Some(value), ..self }),
    {
        PropFilter { value_gt: Some(value), ..self }
    }

    /// In-place form of [`PropFilter::value_gt`].
    pub fn value_gt_mut(&mut self, value: T)
        ensures
            *final (self) == (PropFilter { value_gt: Some(value), ..*old(self) }),
    {
        self.value_gt = Some(value);
    }

    /// Constrain the property to be at least `value`.
    pub fn value_gte(self, value: T) -> (r: Self)
        ensures
            r == (PropFilter { value_gte: Some(value), ..self }),
    {
        PropFilter { value_gte: Some(value), ..self }
    }

    /// In-place form of [`PropFilter::value_gte`].
    pub fn value_gte_mut(&mut self, value: T)
        ensures
            *final (self) == (PropFilter { value_gte: Some(value), ..*old(self) }),
    {
        self.value_gte = Some(value);
    }

    /// Constrain the property to be less than `value`.
    pub fn value_lt(self, value: T) -> (r: Self)
        ensures
            r == (PropFilter { value_lt: Some(value), ..self }),
    {
        PropFilter { value_lt: Some(value), ..self }
    }

    /// In-place form of [`PropFilter::value_lt`].
    pub fn value_lt_mut(&mut self, value: T)
        ensures
            *final (self) == (PropFilter { value_lt: Some(value), ..*old(self) }),
    {
        self.value_lt = Some(value);
    }

    /// Constrain the property to be at most `value`.
    pub fn value_lte(self, value: T) -> (r: Self)
        ensures
            r == (PropFilter { value_lte: Some(value), ..self }),
    {
        PropFilter { value_lte: Some(value), ..self }
    }

    /// In-place form of [`PropFilter::value_lte`].
    pub fn value_lte_mut(&mut self, value: T)
        ensures
            *final (self) == (PropFilter { value_lte: Some(value), ..*old(self) }),
    {
        self.value_lte = Some(value);
    }

    /// Constrain the property to differ from `value`.
    pub fn value_not(self, value: T) -> (r: Self)
        ensures
            r == (PropFilter { value_not: Some(value), ..self }),
    {
        PropFilter { value_not: Some(value), ..self }
    }

    /// In-place form of [`PropFilter::value_not`].
    pub fn value_not_mut(&mut self, value: T)
        ensures
            *final (self) == (PropFilter { value_not: Some(value), ..*old(self) }),
    {
        self.value_not = Some(value);
    }

    /// Constrain the property to one of `values`.
    pub fn value_in(self, values: Vec<T>) -> (r: Self)
        ensures
            r == (PropFilter { value_in: Some(values), ..self }),
    {
        PropFilter { value_in: Some(values), ..self }
    }

    /// In-place form of [`PropFilter::value_in`].
    pub fn value_in_mut(&mut self, values: Vec<T>)
        ensures
            *final (self) == (PropFilter { value_in: Some(values), ..*old(self) }),
    {
        self.value_in = Some(values);
    }

    /// Constrain the property to none of `values`.
    pub fn value_not_in(self, values: Vec<T>) -> (r: Self)
        ensures
            r == (PropFilter { value_not_in: Some(values), ..self }),
    {
        PropFilter { value_not_in: Some(values), ..self }
    }

    /// In-place form of [`PropFilter::value_not_in`].
    pub fn value_not_in_mut(&mut self, values: Vec<T>)
        ensures
            *final (self) == (PropFilter { value_not_in: Some(values), ..*old(self) }),
    {
        self.value_not_in = Some(values);
    }
}

/// A filter constraining the property to equal `value`.
pub fn value<T>(v: T) -> (r: PropFilter<T>)
    ensures
        r.value == Some(v),
        r.value_gt is None,
        r.value_gte is None,
        r.value_lt is None,
        r.value_lte is None,
        r.value_not is None,
        r.value_in is None,
        r.value_not_in is None,
{
    PropFilter::default().value(v)
}

/// A filter constraining the property to be greater than `value`.
pub fn value_gt<T>(v: T) -> (r: PropFilter<T>)
    ensures
        r.value_gt == Some(v),
        r.value is None,
        r.value_gte is None,
        r.value_lt is None,
        r.value_lte is None,
        r.value_not is None,
        r.value_in is None,
        r.value_not_in is None,
{
    PropFilter::default().value_gt(v)
}

/// A filter constraining the property to be at least `value`.
pub fn value_gte<T>(v: T) -> (r: PropFilter<T>)
    ensures
        r.value_gte == Some(v),
        r.value is None,
        r.value_gt is None,
        r.value_lt is None,
        r.value_lte is None,
        r.value_not is None,
        r.value_in is None,
        r.value_not_in is None,
{
    PropFilter::default().value_gte(v)
}

/// A filter constraining the property to be less than `value`.
pub fn value_lt<T>(v: T) -> (r: PropFilter<T>)
    ensures
        r.value_lt == Some(v),
        r.value is None,
        r.value_gt is None,
        r.value_gte is None,
        r.value_lte is None,
        r.value_not is None,
        r.value_in is None,
        r.value_not_in is None,
{
    PropFilter::default().value_lt(v)
}

/// A filter constraining the property to be at most `value`.
pub fn value_lte<T>(v: T) -> (r: PropFilter<T>)
    ensures
        r.value_lte == Some(v),
        r.value is None,
        r.value_gt is None,
        r.value_gte is None,
        r.value_lt is None,
        r.value_not is None,
        r.value_in is None,
        r.value_not_in is None,
{
    PropFilter::default().value_lte(v)
}

/// A filter constraining the property to differ from `value`.
pub fn value_not<T>(v: T) -> (r: PropFilter<T>)
    ensures
        r.value_not == Some(v),
        r.value is None,
        r.value_gt is None,
        r.value_gte is None,
        r.value_lt is None,
        r.value_lte is None,
        r.value_in is None,
        r.value_not_in is None,
{
    PropFilter::default().value_not(v)
}

/// A filter constraining the property to one of `values`.
pub fn value_in<T>(vs: Vec<T>) -> (r: PropFilter<T>)
    ensures
        r.value_in == Some(vs),
        r.value is None,
        r.value_gt is None,
        r.value_gte is None,
        r.value_lt is None,
        r.value_lte is None,
        r.value_not is None,
        r.value_not_in is None,
{
    PropFilter::default().value_in(vs)
}

/// A filter constraining the property to none of `values`.
pub fn value_not_in<T>(vs: Vec<T>) -> (r: PropFilter<T>)
    ensures
        r.value_not_in == Some(vs),
        r.value is None,
        r.value_gt is None,
        r.value_gte is None,
        r.value_lt is None,
        r.value_lte is None,
        r.value_not is None,
        r.value_in is None,
{
    PropFilter::default().value_not_in(vs)
}

/// Parameter name derived from `(node_var, key, op)`.
pub open spec fn prop_param_key(nv: Seq<char>, key: Seq<char>, op: Seq<char>) -> Seq<char> {
    nv + "_"@ + key + "_"@ + op
}

/// The `WHERE` conjunct comparing `node_var.key` with the parameter.
pub open spec fn prop_where_clause(
    nv: Seq<char>,
    key: Seq<char>,
    sym: Seq<char>,
    pkey: Seq<char>,
) -> Seq<char> {
    nv + ".`"@ + key + "` "@ + sym + " $"@ + pkey
}

/// One scalar segment of a property filter: where the field is set, a
/// `WHERE` conjunct and its parameter are appended.
pub open spec fn prop_str_segment(
    q: QueryPartView,
    field: Option<Seq<char>>,
    nv: Seq<char>,
    key: Seq<char>,
    op: Seq<char>,
    sym: Seq<char>,
) -> QueryPartView {
    match field {
        Some(v) => QueryPartView {
            where_clauses: q.where_clauses.push(
                prop_where_clause(nv, key, sym, prop_param_key(nv, key, op)),
            ),
            params: q.params.push(
                ParamView { key: prop_param_key(nv, key, op), value: ParamValueView::Str(v) },
            ),
            ..q
        },
        None => q,
    }
}

/// One list segment of a property filter.
pub open spec fn prop_list_segment(
    q: QueryPartView,
    field: Option<Seq<Seq<char>>>,
    nv: Seq<char>,
    key: Seq<char>,
    op: Seq<char>,
    sym: Seq<char>,
) -> QueryPartView {
    match field {
        Some(vs) => QueryPartView {
            where_clauses: q.where_clauses.push(
                prop_where_clause(nv, key, sym, prop_param_key(nv, key, op)),
            ),
            params: q.params.push(
                ParamView { key: prop_param_key(nv, key, op), value: ParamValueView::StrList(vs) },
            ),
            ..q
        },
        None => q,
    }
}

/// The query part a string property filter compiles to.
pub open spec fn prop_filter_part(f: PropFilterView, nv: Seq<char>, key: Seq<char>) -> QueryPartView {
    prop_list_segment(
        prop_list_segment(
            prop_str_segment(
                prop_str_segment(
                    prop_str_segment(
                        prop_str_segment(
                            prop_str_segment(
                                prop_str_segment(
                                    empty_query_part(),
                                    f.value,
                                    nv,
                                    key,
                                    "value"@,
                                    "="@,
                                ),
                                f.value_gt,
                                nv,
                                key,
                                "value_gt"@,
                                ">"@,
                            ),
                            f.value_gte,
                            nv,
                            key,
                            "value_gte"@,
                            ">="@,
                        ),
                        f.value_lt,
                        nv,
                        key,
                        "value_lt"@,
                        "<"@,
                    ),
                    f.value_lte,
                    nv,
                    key,
                    "value_lte"@,
                    "<="@,
                ),
                f.value_not,
                nv,
                key,
                "value_not"@,
                "<>"@,
            ),
            f.value_in,
            nv,
            key,
            "value_in"@,
            "IN"@,
        ),
        f.value_not_in,
        nv,
        key,
        "value_not_in"@,
        "NOT IN"@,
    )
}

/// Build the parameter name `{nv}_{key}_{op}`.
fn build_param_key(nv: &str, key: &str, op: &str) -> (r: String)
    ensures
        r@ == prop_param_key(nv@, key@, op@),
{
    String::from_str(nv).concat("_").concat(key).concat("_").concat(op)
}

/// Build the conjunct `{nv}.`{key}` {sym} ${pkey}`.
fn build_where_clause(nv: &str, key: &str, sym: &str, pkey: &str) -> (r: String)
    ensures
        r@ == prop_where_clause(nv@, key@, sym@, pkey@),
{
    String::from_str(nv).concat(".`").concat(key).concat("` ").concat(sym).concat(" $").concat(
        pkey,
    )
}

/// Append the segment of one scalar operation to a query part.
fn add_str_segment(
    qp: QueryPart,
    field: Option<String>,
    nv: &str,
    key: &str,
    op: &str,
    sym: &str,
) -> (r: QueryPart)
    ensures
        r@ == prop_str_segment(qp@, view_opt_string(field), nv@, key@, op@, sym@),
{
    match field {
        Some(v) => {
            let pkey = build_param_key(nv, key, op);
            let clause = build_where_clause(nv, key, sym, pkey.as_str());
            qp.where_clause(clause).params(pkey, ParamValue::Str(v))
        },
        None => qp,
    }
}

/// Append the segment of one list operation to a query part.
fn add_list_segment(
    qp: QueryPart,
    field: Option<Vec<String>>,
    nv: &str,
    key: &str,
    op: &str,
    sym: &str,
) -> (r: QueryPart)
    ensures
        r@ == prop_list_segment(qp@, view_opt_string_list(field), nv@, key@, op@, sym@),
{
    match field {
        Some(vs) => {
            let pkey = build_param_key(nv, key, op);
            let clause = build_where_clause(nv, key, sym, pkey.as_str());
            qp.where_clause(clause).params(pkey, ParamValue::StrList(vs))
        },
        None => qp,
    }
}

impl PropFilter<String> {
    /// Compile to a query part: one `WHERE` conjunct and one parameter
    /// per set operation, in the order
    /// `eq, gt, gte, lt, lte, ne, in, not_in`.
    pub fn into_query_part(self, node_var: &str, key: &str) -> (r: QueryPart)
        ensures
            r@ == prop_filter_part(self@, node_var@, key@),
    {
        let PropFilter {
            value: f_value,
            value_gt: f_gt,
            value_gte: f_gte,
            value_lt: f_lt,
            value_lte: f_lte,
            value_not: f_not,
            value_in: f_in,
            value_not_in: f_not_in,
        } = self;
        let qp = QueryPart::new();
        let qp = add_str_segment(qp, f_value, node_var, key, "value", "=");
        let qp = add_str_segment(qp, f_gt, node_var, key, "value_gt", ">");
        let qp = add_str_segment(qp, f_gte, node_var, key, "value_gte", ">=");
        let qp = add_str_segment(qp, f_lt, node_var, key, "value_lt", "<");
        let qp = add_str_segment(qp, f_lte, node_var, key, "value_lte", "<=");
        let qp = add_str_segment(qp, f_not, node_var, key, "value_not", "<>");
        let qp = add_list_segment(qp, f_in, node_var, key, "value_in", "IN");
        let qp = add_list_segment(qp, f_not_in, node_var, key, "value_not_in", "NOT IN");
        qp
    }

    /// Whether a concrete string satisfies every set operation, under
    /// lexicographic order of the character sequences.
    pub fn matches(&self, s: &str) -> (r: bool)
        ensures
            r == prop_filter_matches(self@, s@),
    {
        let eq_ok = match &self.value {
            Some(v) => str_eq(v.as_str(), s),
            None => true,
        };
        let gt_ok = match &self.value_gt {
            Some(v) => str_lt(v.as_str(), s),
            None => true,
        };
        let gte_ok = match &self.value_gte {
            Some(v) => !str_lt(s, v.as_str()),
            None => true,
        };
        let lt_ok = match &self.value_lt {
            Some(v) => str_lt(s, v.as_str()),
            None => true,
        };
        let lte_ok = match &self.value_lte {
            Some(v) => !str_lt(v.as_str(), s),
            None => true,
        };
        let not_ok = match &self.value_not {
            Some(v) => !str_eq(v.as_str(), s),
            None => true,
        };
        let in_ok = match &self.value_in {
            Some(vs) => list_contains(vs, s),
            None => true,
        };
        let not_in_ok = match &self.value_not_in {
            Some(vs) => !list_contains(vs, s),
            None => true,
        };
        eq_ok && gt_ok && gte_ok && lt_ok && lte_ok && not_ok && in_ok && not_in_ok
    }
}

/// Whether `s` is among `vs`.
pub open spec fn seq_contains_str(vs: Seq<Seq<char>>, s: Seq<char>) -> bool {
    exists|i: int| 0 <= i < vs.len() && vs[i] == s
}

fn list_contains(vs: &Vec<String>, s: &str) -> (r: bool)
    ensures
        r == seq_contains_str(vs@.map_values(|v: String| v@), s@),
{
    let ghost vsv = vs@.map_values(|v: String| v@);
    let n = vs.len();
    let mut i: usize = 0;
    while i < n
        invariant
            n == vs@.len(),
            vsv == vs@.map_values(|v: String| v@),
            0 <= i <= n,
            forall|t: int| 0 <= t < i ==> vsv[t] != s@,
        decreases n - i,
    {
        if str_eq(vs[i].as_str(), s) {
            proof {
                assert(vsv[i as int] == s@);
            }
            return true;
        }
        i = i + 1;
    }
    false
}

/// Whether a string satisfies every set operation of a filter, under
/// lexicographic order.
pub open spec fn prop_filter_matches(f: PropFilterView, s: Seq<char>) -> bool {
    &&& match f.value {
        Some(v) => s == v,
        None => true,
    }
    &&& match f.value_gt {
        Some(v) => crate::ids::lex_lt(v, s),
        None => true,
    }
    &&& match f.value_gte {
        Some(v) => !crate::ids::lex_lt(s, v),
        None => true,
    }
    &&& match f.value_lt {
        Some(v) => crate::ids::lex_lt(s, v),
        None => true,
    }
    &&& match f.value_lte {
        Some(v) => !crate::ids::lex_lt(v, s),
        None => true,
    }
    &&& match f.value_not {
        Some(v) => s != v,
        None => true,
    }
    &&& match f.value_in {
        Some(vs) => seq_contains_str(vs, s),
        None => true,
    }
    &&& match f.value_not_in {
        Some(vs) => !seq_contains_str(vs, s),
        None => true,
    }
}

impl PropFilter<Value> {
    /// Project a filter over typed values to a filter over their raw
    /// strings: each bound keeps its place, the value keeps only its
    /// raw string.
    pub fn as_string(self) -> (r: PropFilter<String>)
        ensures
            r@.value == opt_value_str(self.value),
            r@.value_gt == opt_value_str(self.value_gt),
            r@.value_gte == opt_value_str(self.value_gte),
            r@.value_lt == opt_value_str(self.value_lt),
            r@.value_lte == opt_value_str(self.value_lte),
            r@.value_not == opt_value_str(self.value_not),
            r@.value_in == opt_value_list_str(self.value_in),
            r@.value_not_in == opt_value_list_str(self.value_not_in),
    {
        let PropFilter {
            value,
            value_gt,
            value_gte,
            value_lt,
            value_lte,
            value_not,
            value_in,
            value_not_in,
        } = self;
        PropFilter {
            value: opt_value_to_string(value),
            value_gt: opt_value_to_string(value_gt),
            value_gte: opt_value_to_string(value_gte),
            value_lt: opt_value_to_string(value_lt),
            value_lte: opt_value_to_string(value_lte),
            value_not: opt_value_to_string(value_not),
            value_in: opt_value_list_to_string(value_in),
            value_not_in: opt_value_list_to_string(value_not_in),
        }
    }
}

/// Raw string of an optional value.
pub open spec fn opt_value_str(o: Option<Value>) -> Option<Seq<char>> {
    match o {
        Some(v) => Some(v@.value),
        None => None,
    }
}

/// Raw strings of an optional value list.
pub open spec fn opt_value_list_str(o: Option<Vec<Value>>) -> Option<Seq<Seq<char>>> {
    match o {
        Some(l) => Some(l@.map_values(|v: Value| v@.value)),
        None => None,
    }
}

fn opt_value_to_string(o: Option<Value>) -> (r: Option<String>)
    ensures
        view_opt_string(r) == opt_value_str(o),
{
    match o {
        Some(v) => Some(v.value),
        None => None,
    }
}

fn opt_value_list_to_string(o: Option<Vec<Value>>) -> (r: Option<Vec<String>>)
    ensures
        view_opt_string_list(r) == opt_value_list_str(o),
{
    match o {
        Some(l) => {
            let ghost lv = l@;
            let mut out: Vec<String> = Vec::new();
            let n = l.len();
            let mut l = l;
            let mut i: usize = 0;
            while i < n
                invariant
                    n == lv.len(),
                    l@ == lv.skip(i as int),
                    0 <= i <= n,
                    out@.len() == i,
                    forall|t: int| 0 <= t < i ==> out@[t]@ == lv[t]@.value,
                decreases n - i,
            {
                let v = l.remove(0);
                proof {
                    assert(v == lv[i as int]);
                    assert(l@ =~= lv.skip(i + 1));
                }
                out.push(v.value);
                i = i + 1;
            }
            proof {
                assert(out@.map_values(|s: String| s@) =~= lv.map_values(|v: Value| v@.value));
            }
            Some(out)
        },
        None => None,
    }
}



/// Direction of an ordering.
#[derive(Clone, Copy, Debug, PartialEq, Eq, Structural)]
pub enum OrderDirection {
    Ascending,
    Descending,
}

/// Ordering on an entity or attribute field, with a stable tie-break
/// on the entity identifier.
#[derive(Debug)]
pub struct FieldOrderBy {
    pub node_var: String,
    pub field: String,
    pub direction: OrderDirection,
}

/// The `ORDER BY` segment an ordering compiles to: the field in its
/// direction, then the entity identifier.
pub open spec fn field_order_clause(
    nv: Seq<char>,
    field: Seq<char>,
    direction: OrderDirection,
) -> Seq<char> {
    nv + ".`"@ + field + (match direction {
        OrderDirection::Ascending => "`"@,
        OrderDirection::Descending => "` DESC"@,
    }) + ", "@ + nv + ".id"@
}

impl FieldOrderBy {
    /// Order ascending on a field.
    pub fn asc(node_var: &str, field: &str) -> (r: Self)
        ensures
            r.node_var@ == node_var@,
            r.field@ == field@,
            r.direction == OrderDirection::Ascending,
    {
        FieldOrderBy {
            node_var: node_var.to_owned(),
            field: field.to_owned(),
            direction: OrderDirection::Ascending,
        }
    }

    /// Order descending on a field.
    pub fn desc(node_var: &str, field: &str) -> (r: Self)
        ensures
            r.node_var@ == node_var@,
            r.field@ == field@,
            r.direction == OrderDirection::Descending,
    {
        FieldOrderBy {
            node_var: node_var.to_owned(),
            field: field.to_owned(),
            direction: OrderDirection::Descending,
        }
    }

    /// Compile to the `ORDER BY` segment of a query part.
    pub fn into_query_part(self) -> (r: QueryPart)
        ensures
            r@ == (QueryPartView {
                order_by_clause: Some(
                    field_order_clause(self.node_var@, self.field@, self.direction),
                ),
                ..empty_query_part()
            }),
    {
        let dir = match self.direction {
            OrderDirection::Ascending => "`",
            OrderDirection::Descending => "` DESC",
        };
        let clause = String::from_str(self.node_var.as_str()).concat(".`").concat(
            self.field.as_str(),
        ).concat(dir).concat(", ").concat(self.node_var.as_str()).concat(".id");
        QueryPart::new().order_by_clause(clause)
    }
}

/// The version segment of an edge pattern: at a version ordinal the
/// edge must satisfy `min_version <= v` and be unretired or retired
/// past `v`; with no version only live edges pass.
#[derive(Debug)]
pub struct VersionFilter {
    pub version: Option<String>,
}

/// Mathematical image of a [`VersionFilter`].
pub ghost struct VersionFilterView {
    pub version: Option<Seq<char>>,
}

impl View for VersionFilter {
    type V = VersionFilterView;

    open spec fn view(&self) -> VersionFilterView {
        VersionFilterView { version: view_opt_string(self.version) }
    }
}

impl Clone for VersionFilter {
    fn clone(&self) -> (r: Self)
        ensures
            r@ == self@,
    {
        match &self.version {
            Some(v) => VersionFilter { version: Some(v.clone()) },
            None => VersionFilter { version: None },
        }
    }
}

impl Default for VersionFilter {
    fn default() -> (r: Self)
        ensures
            r@.version is None,
    {
        VersionFilter { version: None }
    }
}

/// The clauses a version filter compiles to for edge variable `ev`:
/// with a version, the interval conjuncts and one parameter named
/// `{ev}_version`; without, the liveness conjunct alone.
pub open spec fn version_filter_part(f: VersionFilterView, ev: Seq<char>) -> QueryPartView {
    match f.version {
        Some(v) => QueryPartView {
            where_clauses: seq![
                ev + ".min_version <= $"@ + ev + "_version"@,
                "("@ + ev + ".max_version IS null OR "@ + ev + ".max_version > $"@ + ev
                    + "_version"@ + ")"@,
            ],
            params: seq![ParamView { key: ev + "_version"@, value: ParamValueView::Str(v) }],
            ..empty_query_part()
        },
        None => QueryPartView {
            where_clauses: seq![ev + ".max_version IS null"@],
            ..empty_query_part()
        },
    }
}

impl VersionFilter {
    /// A filter reading at `version`, or at the live view for `None`.
    pub fn new(version: Option<String>) -> (r: Self)
        ensures
            r@.version == view_opt_string(version),
    {
        VersionFilter { version }
    }

    /// Set the read version.
    pub fn version_mut(&mut self, version: String)
        ensures
            final (self)@.version == Some(version@),
    {
        self.version = Some(version);
    }

    /// Compile to the `WHERE` conjuncts over edge variable `ev`.
    pub fn into_query_part(self, ev: &str) -> (r: QueryPart)
        ensures
            r@ == version_filter_part(self@, ev@),
    {
        match self.version {
            Some(v) => {
                let pkey = String::from_str(ev).concat("_version");
                let c1 = String::from_str(ev).concat(".min_version <= $").concat(pkey.as_str());
                let c2 = String::from_str("(").concat(ev).concat(".max_version IS null OR ")
                    .concat(ev).concat(".max_version > $").concat(pkey.as_str());
                let c2 = c2.concat(")");
                let qp = QueryPart::new().where_clause(c1).where_clause(c2).params(
                    pkey,
                    ParamValue::Str(v),
                );
                proof {
                    assert(qp@.where_clauses =~~= version_filter_part(self@, ev@).where_clauses);
                    assert(qp@.params =~~= version_filter_part(self@, ev@).params);
                }
                qp
            },
            None => {
                let c = String::from_str(ev).concat(".max_version IS null");
                let qp = QueryPart::new().where_clause(c);
                proof {
                    assert(qp@.where_clauses =~~= version_filter_part(self@, ev@).where_clauses);
                    assert(qp@.params =~~= version_filter_part(self@, ev@).params);
                }
                qp
            },
        }
    }
}

/// Two parts merged where their parameters are disjoint; a collision
/// compiles to nothing.
pub open spec fn check_merge(a: QueryPartView, b: QueryPartView) -> Option<QueryPartView> {
    if params_disjoint(a.params, b.params) {
        Some(merged_query_part(a, b))
    } else {
        None
    }
}

/// The compiled part of an edge filter: the edge `MATCH` into fresh
/// variables, the target filter and the version clauses, or `None` on
/// a parameter collision.
pub open spec fn edge_filter_part(
    f: EdgeFilterView,
    node_var: Seq<char>,
    attribute: Seq<char>,
    space_version: Option<Seq<char>>,
) -> Option<QueryPartView> {
    let tv = "t_"@ + node_var + "_"@ + attribute;
    let evv = "e_"@ + node_var + "_"@ + attribute;
    let base = QueryPartView {
        match_clauses: seq![
            "("@ + node_var + ") -[" @+ evv + ":`"@ + attribute + "`]-> ("@ + tv + ")"@,
        ],
        ..empty_query_part()
    };
    let with_target = match f.to_id {
        Some(pf) => merged_query_part(base, prop_filter_part(pf, tv, "id"@)),
        None => base,
    };
    check_merge(
        with_target,
        version_filter_part(VersionFilterView { version: space_version }, evv),
    )
}

/// Filter on an edge with a given label out of a node: constrains the
/// target's identifier and the edge's version.
#[derive(Debug)]
pub struct EdgeFilter {
    pub to_id: Option<PropFilter<String>>,
}

/// Mathematical image of an [`EdgeFilter`].
pub ghost struct EdgeFilterView {
    pub to_id: Option<PropFilterView>,
}

impl View for EdgeFilter {
    type V = EdgeFilterView;

    open spec fn view(&self) -> EdgeFilterView {
        EdgeFilterView {
            to_id: match self.to_id {
                Some(ref f) => Some(f@),
                None => None,
            },
        }
    }
}

impl Default for EdgeFilter {
    fn default() -> (r: Self)
        ensures
            r@.to_id is None,
    {
        EdgeFilter { to_id: None }
    }
}

impl EdgeFilter {
    /// Constrain the target entity's identifier.
    pub fn to_id(self, to_id: PropFilter<String>) -> (r: Self)
        ensures
            r@.to_id == Some(to_id@),
    {
        EdgeFilter { to_id: Some(to_id) }
    }

    /// Compile for the edge labelled `attribute` out of `node_var`:
    /// a `MATCH` of the edge into a fresh target variable, the target
    /// filter, and the version clauses on the edge. Merging is
    /// collision-free since every parameter is derived from the fresh
    /// variables.
    pub fn into_query_part(self, node_var: &str, attribute: &str, space_version: Option<String>) -> (
        r: Result<QueryPart, String>)
        ensures
            r is Ok <==> edge_filter_part(
                self@,
                node_var@,
                attribute@,
                view_opt_string(space_version),
            ) is Some,
            r is Ok ==> Some(r->Ok_0@) == edge_filter_part(
                self@,
                node_var@,
                attribute@,
                view_opt_string(space_version),
            ),
    {
        let tv = String::from_str("t_").concat(node_var).concat("_").concat(attribute);
        let ev = String::from_str("e_").concat(node_var).concat("_").concat(attribute);
        let m = String::from_str("(").concat(node_var).concat(") -[").concat(ev.as_str()).concat(
            ":`",
        ).concat(attribute).concat("`]-> (").concat(tv.as_str()).concat(")");
        let base = QueryPart::new().match_clause(m);
        let with_target = match self.to_id {
            Some(pf) => {
                let part = pf.into_query_part(tv.as_str(), "id");
                match base.merge(part) {
                    Ok(q) => q,
                    Err(e) => {
                        return Err(e);
                    },
                }
            },
            None => base,
        };
        let vf = VersionFilter::new(space_version);
        let vpart = vf.into_query_part(ev.as_str());
        with_target.merge(vpart)
    }
}

/// The compiled part of an attribute filter: the attribute-edge
/// `MATCH` into fresh variables, the value and space filters and the
/// version clauses, or `None` on a parameter collision.
pub open spec fn attribute_filter_part(
    f: AttributeFilterView,
    node_var: Seq<char>,
) -> Option<QueryPartView> {
    let av = "a_"@ + node_var + "_"@ + f.attribute;
    let evv = "r_"@ + node_var + "_"@ + f.attribute;
    let base = QueryPartView {
        match_clauses: seq![
            "("@ + node_var + ") -["@ + evv + ":ATTRIBUTE]-> ("@ + av + ":Attribute {id: \""@
                + f.attribute + "\"})"@,
        ],
        ..empty_query_part()
    };
    let with_value = match f.value {
        Some(pf) => merged_query_part(base, prop_filter_part(pf, av, "value"@)),
        None => base,
    };
    let with_space = match f.space_id {
        Some(pf) => check_merge(with_value, prop_filter_part(pf, evv, "space_id"@)),
        None => Some(with_value),
    };
    match with_space {
        Some(ws) => check_merge(ws, version_filter_part(f.version, evv)),
        None => None,
    }
}

/// Filter asserting that an entity carries an attribute whose value
/// matches a nested property filter, optionally constrained to a
/// space and a version.
#[derive(Debug)]
pub struct AttributeFilter {
    pub attribute: String,
    pub value: Option<PropFilter<String>>,
    pub space_id: Option<PropFilter<String>>,
    pub version: VersionFilter,
}

/// Mathematical image of an [`AttributeFilter`].
pub ghost struct AttributeFilterView {
    pub attribute: Seq<char>,
    pub value: Option<PropFilterView>,
    pub space_id: Option<PropFilterView>,
    pub version: VersionFilterView,
}

impl View for AttributeFilter {
    type V = AttributeFilterView;

    open spec fn view(&self) -> AttributeFilterView {
        AttributeFilterView {
            attribute: self.attribute@,
            value: match self.value {
                Some(ref f) => Some(f@),
                None => None,
            },
            space_id: match self.space_id {
                Some(ref f) => Some(f@),
                None => None,
            },
            version: self.version@,
        }
    }
}

impl AttributeFilter {
    /// A filter on the attribute with this identifier.
    pub fn new(attribute: &str) -> (r: Self)
        ensures
            r@.attribute == attribute@,
            r@.value is None,
            r@.space_id is None,
            r@.version.version is None,
    {
        AttributeFilter {
            attribute: attribute.to_owned(),
            value: None,
            space_id: None,
            version: VersionFilter { version: None },
        }
    }

    /// Constrain the attribute's value.
    pub fn value(self, value: PropFilter<String>) -> (r: Self)
        ensures
            r@ == (AttributeFilterView { value: Some(value@), ..self@ }),
    {
        AttributeFilter { value: Some(value), ..self }
    }

    /// Constrain the edge's space.
    pub fn space_id(self, space_id: PropFilter<String>) -> (r: Self)
        ensures
            r@ == (AttributeFilterView { space_id: Some(space_id@), ..self@ }),
    {
        AttributeFilter { space_id: Some(space_id), ..self }
    }

    /// Read at a version.
    pub fn version(self, version: String) -> (r: Self)
        ensures
            r@ == (AttributeFilterView {
                version: VersionFilterView { version: Some(version@) },
                ..self@
            }),
    {
        AttributeFilter { version: VersionFilter { version: Some(version) }, ..self }
    }

    /// Compile for the entity variable `node_var`: a `MATCH` of the
    /// attribute edge into fresh variables, the value and space
    /// filters, and the version clauses.
    pub fn into_query_part(self, node_var: &str) -> (r: Result<QueryPart, String>)
        ensures
            r is Ok <==> attribute_filter_part(self@, node_var@) is Some,
            r is Ok ==> Some(r->Ok_0@) == attribute_filter_part(self@, node_var@),
    {
        let av = String::from_str("a_").concat(node_var).concat("_").concat(self.attribute.as_str());
        let ev = String::from_str("r_").concat(node_var).concat("_").concat(self.attribute.as_str());
        let m = String::from_str("(").concat(node_var).concat(") -[").concat(ev.as_str()).concat(
            ":ATTRIBUTE]-> (",
        ).concat(av.as_str()).concat(":Attribute {id: \"").concat(self.attribute.as_str()).concat(
            "\"})",
        );
        let base = QueryPart::new().match_clause(m);
        let with_value = match self.value {
            Some(pf) => {
                let part = pf.into_query_part(av.as_str(), "value");
                match base.merge(part) {
                    Ok(q) => q,
                    Err(e) => {
                        return Err(e);
                    },
                }
            },
            None => base,
        };
        let with_space = match self.space_id {
            Some(pf) => {
                let part = pf.into_query_part(ev.as_str(), "space_id");
                match with_value.merge(part) {
                    Ok(q) => q,
                    Err(e) => {
                        return Err(e);
                    },
                }
            },
            None => with_value,
        };
        let vpart = self.version.into_query_part(ev.as_str());
        with_space.merge(vpart)
    }
}

/// The compiled part of an entity-relation filter: nothing for the
/// empty filter, else the inbound source-edge `MATCH` and the edge
/// filters on the fresh relation variable, or `None` on a parameter
/// collision.
pub open spec fn entity_relation_filter_part(
    f: EntityRelationFilterView,
    node_var: Seq<char>,
) -> Option<QueryPartView> {
    if f.relation_type is None && f.to_id is None {
        Some(empty_query_part())
    } else {
        let rv = "r_"@ + node_var;
        let base = QueryPartView {
            match_clauses: seq![
                "("@ + node_var + ") <-[:`"@ + crate::system_ids::RELATION_FROM_ATTRIBUTE@
                    + "`]- ("@ + rv + ")"@,
            ],
            ..empty_query_part()
        };
        let q1 = match f.relation_type {
            Some(ef) => match edge_filter_part(
                ef,
                rv,
                crate::system_ids::RELATION_TYPE_ATTRIBUTE@,
                f.space_version,
            ) {
                Some(p) => check_merge(base, p),
                None => None,
            },
            None => Some(base),
        };
        match f.to_id {
            Some(ef) => match q1 {
                Some(q) => match edge_filter_part(
                    ef,
                    rv,
                    crate::system_ids::RELATION_TO_ATTRIBUTE@,
                    f.space_version,
                ) {
                    Some(p) => check_merge(q, p),
                    None => None,
                },
                None => None,
            },
            None => q1,
        }
    }
}

/// Filter on an entity's outgoing relations: by relation type, by
/// target, at a version.
#[derive(Debug)]
pub struct EntityRelationFilter {
    pub relation_type: Option<EdgeFilter>,
    pub to_id: Option<EdgeFilter>,
    pub space_version: Option<String>,
}

/// Mathematical image of an [`EntityRelationFilter`].
pub ghost struct EntityRelationFilterView {
    pub relation_type: Option<EdgeFilterView>,
    pub to_id: Option<EdgeFilterView>,
    pub space_version: Option<Seq<char>>,
}

impl View for EntityRelationFilter {
    type V = EntityRelationFilterView;

    open spec fn view(&self) -> EntityRelationFilterView {
        EntityRelationFilterView {
            relation_type: match self.relation_type {
                Some(ref f) => Some(f@),
                None => None,
            },
            to_id: match self.to_id {
                Some(ref f) => Some(f@),
                None => None,
            },
            space_version: view_opt_string(self.space_version),
        }
    }
}

impl Default for EntityRelationFilter {
    fn default() -> (r: Self)
        ensures
            r@.relation_type is None,
            r@.to_id is None,
            r@.space_version is None,
    {
        EntityRelationFilter { relation_type: None, to_id: None, space_version: None }
    }
}

impl EntityRelationFilter {
    /// Constrain the relation type.
    pub fn relation_type(self, relation_type: EdgeFilter) -> (r: Self)
        ensures
            r@ == (EntityRelationFilterView { relation_type: Some(relation_type@), ..self@ }),
    {
        EntityRelationFilter { relation_type: Some(relation_type), ..self }
    }

    /// Constrain the target entity.
    pub fn to_id(self, to_id: EdgeFilter) -> (r: Self)
        ensures
            r@ == (EntityRelationFilterView { to_id: Some(to_id@), ..self@ }),
    {
        EntityRelationFilter { to_id: Some(to_id), ..self }
    }

    /// Read at a version.
    pub fn version(self, version: String) -> (r: Self)
        ensures
            r@ == (EntityRelationFilterView { space_version: Some(version@), ..self@ }),
    {
        EntityRelationFilter { space_version: Some(version), ..self }
    }

    /// Whether no constraint is set: an empty filter compiles to
    /// nothing.
    pub fn is_empty(&self) -> (r: bool)
        ensures
            r == (self@.relation_type is None && self@.to_id is None),
    {
        self.relation_type.is_none() && self.to_id.is_none()
    }

    /// Compile for the entity variable `node_var`: where any
    /// constraint is set, a `MATCH` of the inbound source edge into a
    /// fresh relation variable and the edge filters on it.
    pub fn into_query_part(self, node_var: &str) -> (r: Result<QueryPart, String>)
        ensures
            r is Ok <==> entity_relation_filter_part(self@, node_var@) is Some,
            r is Ok ==> Some(r->Ok_0@) == entity_relation_filter_part(self@, node_var@),
    {
        if self.relation_type.is_none() && self.to_id.is_none() {
            return Ok(QueryPart::new());
        }
        let rv = String::from_str("r_").concat(node_var);
        let m = String::from_str("(").concat(node_var).concat(") <-[:`").concat(
            crate::system_ids::RELATION_FROM_ATTRIBUTE,
        ).concat("`]- (").concat(rv.as_str()).concat(")");
        let mut qp = QueryPart::new().match_clause(m);
        let version = self.space_version;
        if let Some(rt) = self.relation_type {
            let cloned_version = match &version {
                Some(v) => Some(v.clone()),
                None => None,
            };
            let part = match rt.into_query_part(
                rv.as_str(),
                crate::system_ids::RELATION_TYPE_ATTRIBUTE,
                cloned_version,
            ) {
                Ok(p) => p,
                Err(e) => {
                    return Err(e);
                },
            };
            match qp.merge_mut(part) {
                Ok(()) => {},
                Err(e) => {
                    return Err(e);
                },
            }
        }
        if let Some(to) = self.to_id {
            let part = match to.into_query_part(
                rv.as_str(),
                crate::system_ids::RELATION_TO_ATTRIBUTE,
                version,
            ) {
                Ok(p) => p,
                Err(e) => {
                    return Err(e);
                },
            };
            match qp.merge_mut(part) {
                Ok(()) => {},
                Err(e) => {
                    return Err(e);
                },
            }
        }
        Ok(qp)
    }
}

/// Conjunction filter over entities: an identifier filter, attribute
/// filters and an outgoing-relation filter.
#[derive(Debug)]
pub struct EntityFilter {
    pub id: Option<PropFilter<String>>,
    pub attributes: Vec<AttributeFilter>,
    pub relations: Option<EntityRelationFilter>,
}

/// Mathematical image of an [`EntityFilter`].
pub ghost struct EntityFilterView {
    pub id: Option<PropFilterView>,
    pub attributes: Seq<AttributeFilterView>,
    pub relations: Option<EntityRelationFilterView>,
}

impl View for EntityFilter {
    type V = EntityFilterView;

    open spec fn view(&self) -> EntityFilterView {
        EntityFilterView {
            id: match self.id {
                Some(ref f) => Some(f@),
                None => None,
            },
            attributes: self.attributes@.map_values(|a: AttributeFilter| a@),
            relations: match self.relations {
                Some(ref f) => Some(f@),
                None => None,
            },
        }
    }
}

/// The attribute filters folded onto an accumulated part in list
/// order, each merge checked.
pub open spec fn entity_attr_parts(
    acc: Option<QueryPartView>,
    attrs: Seq<AttributeFilterView>,
    node_var: Seq<char>,
) -> Option<QueryPartView>
    decreases attrs.len(),
{
    if attrs.len() == 0 {
        acc
    } else {
        let acc2 = match acc {
            Some(q) => match attribute_filter_part(attrs[0], node_var) {
                Some(p) => check_merge(q, p),
                None => None,
            },
            None => None,
        };
        entity_attr_parts(acc2, attrs.drop_first(), node_var)
    }
}

/// A rejected accumulator rejects the whole fold.
proof fn lemma_entity_attr_parts_none(attrs: Seq<AttributeFilterView>, node_var: Seq<char>)
    ensures
        entity_attr_parts(None, attrs, node_var) is None,
    decreases attrs.len(),
{
    if attrs.len() > 0 {
        lemma_entity_attr_parts_none(attrs.drop_first(), node_var);
    }
}

/// The compiled part of an entity filter: the identifier filter, each
/// attribute filter and the relation filter merged in order, or
/// `None` on a parameter collision anywhere along the way.
pub open spec fn entity_filter_part(
    f: EntityFilterView,
    node_var: Seq<char>,
) -> Option<QueryPartView> {
    let q0 = match f.id {
        Some(pf) => merged_query_part(empty_query_part(), prop_filter_part(pf, node_var, "id"@)),
        None => empty_query_part(),
    };
    let q1 = entity_attr_parts(Some(q0), f.attributes, node_var);
    match f.relations {
        Some(rf) => match q1 {
            Some(q) => match entity_relation_filter_part(rf, node_var) {
                Some(p) => check_merge(q, p),
                None => None,
            },
            None => None,
        },
        None => q1,
    }
}

impl Default for EntityFilter {
    fn default() -> (r: Self)
        ensures
            r.id is None,
            r.attributes@.len() == 0,
            r.relations is None,
    {
        EntityFilter { id: None, attributes: Vec::new(), relations: None }
    }
}

impl EntityFilter {
    /// Constrain the entity identifier.
    pub fn id(self, id: PropFilter<String>) -> (r: Self)
        ensures
            r.id == Some(id),
            r.attributes == self.attributes,
            r.relations == self.relations,
    {
        EntityFilter { id: Some(id), ..self }
    }

    /// Add an attribute constraint.
    pub fn attribute(self, attribute: AttributeFilter) -> (r: Self)
        ensures
            r.attributes@ == self.attributes@.push(attribute),
            r.id == self.id,
            r.relations == self.relations,
    {
        let mut s = self;
        s.attributes.push(attribute);
        s
    }

    /// In-place form of [`EntityFilter::attribute`].
    pub fn attribute_mut(&mut self, attribute: AttributeFilter)
        ensures
            final (self).attributes@ == old(self).attributes@.push(attribute),
            final (self).id == old(self).id,
            final (self).relations == old(self).relations,
    {
        self.attributes.push(attribute);
    }

    /// Add several attribute constraints.
    pub fn attributes(self, attributes: Vec<AttributeFilter>) -> (r: Self)
        ensures
            r.attributes@ == self.attributes@ + attributes@,
            r.id == self.id,
            r.relations == self.relations,
    {
        let mut s = self;
        s.attributes_mut(attributes);
        s
    }

    /// In-place form of [`EntityFilter::attributes`].
    pub fn attributes_mut(&mut self, attributes: Vec<AttributeFilter>)
        ensures
            final (self).attributes@ == old(self).attributes@ + attributes@,
            final (self).id == old(self).id,
            final (self).relations == old(self).relations,
    {
        let mut attributes = attributes;
        self.attributes.append(&mut attributes);
    }

    /// Constrain the entity's outgoing relations.
    pub fn relations(self, relations: EntityRelationFilter) -> (r: Self)
        ensures
            r.relations == Some(relations),
            r.id == self.id,
            r.attributes == self.attributes,
    {
        EntityFilter { relations: Some(relations), ..self }
    }

    /// Compile for the entity variable `node_var`: the identifier
    /// filter, each attribute filter and the relation filter, merged.
    /// A parameter collision anywhere is rejected, and nothing else is.
    #[verifier::loop_isolation(false)]
    #[verifier::rlimit(100)]
    pub fn into_query_part(self, node_var: &str) -> (r: Result<QueryPart, String>)
        ensures
            r is Ok <==> entity_filter_part(self@, node_var@) is Some,
            r is Ok ==> Some(r->Ok_0@) == entity_filter_part(self@, node_var@),
    {
        let ghost fv = self@;
        let mut qp = QueryPart::new();
        if let Some(id) = self.id {
            let part = id.into_query_part(node_var, "id");
            match qp.merge_mut(part) {
                Ok(()) => {},
                Err(e) => {
                    return Err(e);
                },
            }
        }
        let ghost q0 = qp@;
        let mut attributes = self.attributes;
        let ghost attrs0 = fv.attributes;
        proof {
            assert(attrs0 == attributes@.map_values(|a: AttributeFilter| a@));
            assert(attrs0.skip(0) =~= attrs0);
        }
        let mut i: usize = 0;
        let total = attributes.len();
        proof {
            assert(attrs0.len() == total as int);
        }
        while attributes.len() > 0
            invariant
                attrs0.len() <= usize::MAX,
                i + attributes@.len() == attrs0.len(),
                attributes@.map_values(|a: AttributeFilter| a@) == attrs0.skip(i as int),
                0 <= i <= attrs0.len(),
                entity_attr_parts(Some(qp@), attrs0.skip(i as int), node_var@)
                    == entity_attr_parts(Some(q0), attrs0, node_var@),
            decreases attributes@.len(),
        {
            let ghost pre_attrs = attributes@;
            let af = attributes.remove(0);
            proof {
                let f = |a: AttributeFilter| a@;
                assert(pre_attrs.map_values(f)[0] == af@);
                assert(attrs0.skip(i as int)[0] == attrs0[i as int]);
                assert(attributes@ =~= pre_attrs.drop_first());
                assert(attributes@.map_values(f) =~= pre_attrs.map_values(f).drop_first());
                assert(attrs0.skip(i as int).drop_first() =~= attrs0.skip(i + 1));
            }
            let part = match af.into_query_part(node_var) {
                Ok(p) => p,
                Err(e) => {
                    proof {
                        lemma_entity_attr_parts_none(attrs0.skip(i + 1), node_var@);
                        assert(entity_attr_parts(Some(q0), attrs0, node_var@) is None);
                    }
                    return Err(e);
                },
            };
            match qp.merge_mut(part) {
                Ok(()) => {},
                Err(e) => {
                    proof {
                        lemma_entity_attr_parts_none(attrs0.skip(i + 1), node_var@);
                        assert(entity_attr_parts(Some(q0), attrs0, node_var@) is None);
                    }
                    return Err(e);
                },
            }
            i = i + 1;
        }
        proof {
            assert(attrs0.skip(attrs0.len() as int) =~= Seq::<AttributeFilterView>::empty());
            assert(Some(qp@) == entity_attr_parts(Some(q0), attrs0, node_var@));
        }
        if let Some(rel) = self.relations {
            let part = match rel.into_query_part(node_var) {
                Ok(p) => p,
                Err(e) => {
                    return Err(e);
                },
            };
            match qp.merge_mut(part) {
                Ok(()) => {},
                Err(e) => {
                    return Err(e);
                },
            }
        }
        Ok(qp)
    }
}

} // verus!
