//! Filter algebra and query-builder kernel.
//!
//! Filters compose into a [`QueryPart`]: `MATCH`, `WHERE`, `WITH`,
//! `RETURN`, `ORDER BY`, `SKIP` and `LIMIT` segments plus a parameter
//! map. Merging two parts concatenates their `MATCH`es, conjoins their
//! `WHERE`s and merges their parameters, rejecting a parameter-name
//! collision. Parameter names are derived from `(node_var, key, op)`
//! so that parts built from distinct fields merge without collisions.

use vstd::prelude::*;

use crate::ids::str_eq;

verus! {

/// A parameter value attached to a query.
#[derive(Clone, Debug)]
pub enum ParamValue {
    Str(String),
    Int(i64),
    StrList(Vec<String>),
}

/// Mathematical image of a [`ParamValue`].
pub ghost enum ParamValueView {
    Str(Seq<char>),
    Int(i64),
    StrList(Seq<Seq<char>>),
}

impl View for ParamValue {
    type V = ParamValueView;

    open spec fn view(&self) -> ParamValueView {
        match self {
            ParamValue::Str(s) => ParamValueView::Str(s@),
            ParamValue::Int(i) => ParamValueView::Int(*i),
            ParamValue::StrList(l) => ParamValueView::StrList(
                l@.map_values(|s: String| s@),
            ),
        }
    }
}

/// A named query parameter.
#[derive(Clone, Debug)]
pub struct Param {
    pub key: String,
    pub value: ParamValue,
}

/// Mathematical image of a [`Param`].
pub ghost struct ParamView {
    pub key: Seq<char>,
    pub value: ParamValueView,
}

impl View for Param {
    type V = ParamView;

    open spec fn view(&self) -> ParamView {
        ParamView { key: self.key@, value: self.value@ }
    }
}

/// A composable fragment of a graph query.
#[derive(Clone, Debug)]
pub struct QueryPart {
    pub match_clauses: Vec<String>,
    pub where_clauses: Vec<String>,
    pub with_clauses: Vec<String>,
    pub return_clause: Option<String>,
    pub order_by_clause: Option<String>,
    pub skip: Option<u64>,
    pub limit: Option<u64>,
    pub params: Vec<Param>,
}

/// Mathematical image of a [`QueryPart`].
pub ghost struct QueryPartView {
    pub match_clauses: Seq<Seq<char>>,
    pub where_clauses: Seq<Seq<char>>,
    pub with_clauses: Seq<Seq<char>>,
    pub return_clause: Option<Seq<char>>,
    pub order_by_clause: Option<Seq<char>>,
    pub skip: Option<u64>,
    pub limit: Option<u64>,
    pub params: Seq<ParamView>,
}

impl View for QueryPart {
    type V = QueryPartView;

    open spec fn view(&self) -> QueryPartView {
        QueryPartView {
            match_clauses: self.match_clauses@.map_values(|s: String| s@),
            where_clauses: self.where_clauses@.map_values(|s: String| s@),
            with_clauses: self.with_clauses@.map_values(|s: String| s@),
            return_clause: match self.return_clause {
                Some(ref s) => Some(s@),
                None => None,
            },
            order_by_clause: match self.order_by_clause {
                Some(ref s) => Some(s@),
                None => None,
            },
            skip: self.skip,
            limit: self.limit,
            params: self.params@.map_values(|p: Param| p@),
        }
    }
}

/// The empty query part.
pub open spec fn empty_query_part() -> QueryPartView {
    QueryPartView {
        match_clauses: Seq::empty(),
        where_clauses: Seq::empty(),
        with_clauses: Seq::empty(),
        return_clause: None,
        order_by_clause: None,
        skip: None,
        limit: None,
        params: Seq::empty(),
    }
}

/// Whether a parameter list holds a key.
pub open spec fn has_param_key(params: Seq<ParamView>, key: Seq<char>) -> bool {
    exists|i: int| 0 <= i < params.len() && params[i].key == key
}

/// Whether two parameter lists share no key: the condition under which
/// two query parts merge.
pub open spec fn params_disjoint(a: Seq<ParamView>, b: Seq<ParamView>) -> bool {
    forall|i: int, j: int|
        0 <= i < a.len() && 0 <= j < b.len() ==> a[i].key != b[j].key
}

impl Default for QueryPart {
    fn default() -> (r: Self)
        ensures
            r@ == empty_query_part(),
    {
        let r = QueryPart {
            match_clauses: Vec::new(),
            where_clauses: Vec::new(),
            with_clauses: Vec::new(),
            return_clause: None,
            order_by_clause: None,
            skip: None,
            limit: None,
            params: Vec::new(),
        };
        proof {
            assert(r@.match_clauses =~= Seq::<Seq<char>>::empty());
            assert(r@.where_clauses =~= Seq::<Seq<char>>::empty());
            assert(r@.with_clauses =~= Seq::<Seq<char>>::empty());
            assert(r@.params =~= Seq::<ParamView>::empty());
        }
        r
    }
}

impl QueryPart {
    /// The empty query part.
    pub fn new() -> (r: Self)
        ensures
            r@ == empty_query_part(),
    {
        QueryPart::default()
    }

    /// Append a `MATCH` clause.
    pub fn match_clause(self, clause: String) -> (r: Self)
        ensures
            r@ == (QueryPartView { match_clauses: self@.match_clauses.push(clause@), ..self@ }),
    {
        let mut s = self;
        s.match_clauses.push(clause);
        proof {
            assert(s@.match_clauses =~= self@.match_clauses.push(clause@));
        }
        s
    }

    /// Append a `WHERE` conjunct.
    pub fn where_clause(self, clause: String) -> (r: Self)
        ensures
            r@ == (QueryPartView { where_clauses: self@.where_clauses.push(clause@), ..self@ }),
    {
        let mut s = self;
        s.where_clauses.push(clause);
        proof {
            assert(s@.where_clauses =~= self@.where_clauses.push(clause@));
        }
        s
    }

    /// Append a `WITH` projection.
    pub fn with_clause(self, clause: String) -> (r: Self)
        ensures
            r@ == (QueryPartView { with_clauses: self@.with_clauses.push(clause@), ..self@ }),
    {
        let mut s = self;
        s.with_clauses.push(clause);
        proof {
            assert(s@.with_clauses =~= self@.with_clauses.push(clause@));
        }
        s
    }

    /// Set the `RETURN` segment.
    pub fn return_clause(self, clause: String) -> (r: Self)
        ensures
            r@ == (QueryPartView { return_clause: Some(clause@), ..self@ }),
    {
        let mut s = self;
        s.return_clause = Some(clause);
        s
    }

    /// Set the `ORDER BY` segment.
    pub fn order_by_clause(self, clause: String) -> (r: Self)
        ensures
            r@ == (QueryPartView { order_by_clause: Some(clause@), ..self@ }),
    {
        let mut s = self;
        s.order_by_clause = Some(clause);
        s
    }

    /// Set the `SKIP` segment.
    pub fn skip(self, skip: u64) -> (r: Self)
        ensures
            r@ == (QueryPartView { skip: Some(skip), ..self@ }),
    {
        let mut s = self;
        s.skip = Some(skip);
        s
    }

    /// Set the `LIMIT` segment.
    pub fn limit(self, limit: u64) -> (r: Self)
        ensures
            r@ == (QueryPartView { limit: Some(limit), ..self@ }),
    {
        let mut s = self;
        s.limit = Some(limit);
        s
    }

    /// Attach a parameter.
    pub fn params(self, key: String, value: ParamValue) -> (r: Self)
        ensures
            r@ == (QueryPartView {
                params: self@.params.push(ParamView { key: key@, value: value@ }),
                ..self@
            }),
    {
        let mut s = self;
        s.params.push(Param { key, value });
        proof {
            assert(s@.params =~= self@.params.push(s.params@.last()@));
        }
        s
    }

    /// Whether a parameter with this key is attached.
    pub fn has_param(&self, key: &str) -> (r: bool)
        ensures
            r == has_param_key(self@.params, key@),
    {
        let n = self.params.len();
        let mut i: usize = 0;
        while i < n
            invariant
                n == self.params@.len(),
                0 <= i <= n,
                forall|t: int| 0 <= t < i ==> self@.params[t].key != key@,
            decreases n - i,
        {
            if str_eq(self.params[i].key.as_str(), key) {
                proof {
                    assert(self@.params[i as int].key == key@);
                }
                return true;
            }
            i = i + 1;
        }
        false
    }

    /// Merge another part into this one: `MATCH`es concatenate,
    /// `WHERE`s conjoin, parameters union. Of the scalar segments the
    /// later part wins where it is set. A parameter-name collision is
    /// rejected and leaves this part unchanged except for the segments
    /// merged before the collision was found; the error names the key.
    pub fn merge(self, other: QueryPart) -> (r: Result<QueryPart, String>)
        ensures
            params_disjoint(self@.params, other@.params) <==> r is Ok,
            r is Ok ==> r->Ok_0@ == merged_query_part(self@, other@),
    {
        let mut s = self;
        match s.merge_mut(other) {
            Ok(()) => Ok(s),
            Err(e) => Err(e),
        }
    }

    /// In-place form of [`QueryPart::merge`].
    pub fn merge_mut(&mut self, other: QueryPart) -> (r: Result<(), String>)
        ensures
            params_disjoint(old(self)@.params, other@.params) <==> r is Ok,
            r is Ok ==> final (self)@ == merged_query_part(old(self)@, other@),
            r is Err ==> final (self)@ == old(self)@,
    {
        // Check for parameter collisions before changing anything.
        let n = other.params.len();
        let mut i: usize = 0;
        while i < n
            invariant
                n == other.params@.len(),
                0 <= i <= n,
                *self == *old(self),
                forall|s: int, t: int|
                    0 <= s < self@.params.len() && 0 <= t < i ==> self@.params[s].key
                        != other@.params[t].key,
            decreases n - i,
        {
            if self.has_param(other.params[i].key.as_str()) {
                proof {
                    let k = other@.params[i as int].key;
                    assert(has_param_key(self@.params, k));
                }
                return Err(String::from_str("duplicate query parameter: ").concat(
                    other.params[i].key.as_str(),
                ));
            }
            i = i + 1;
        }
        let ghost pre = self@;
        let ghost other_view = other@;
        let QueryPart {
            mut match_clauses,
            mut where_clauses,
            mut with_clauses,
            return_clause,
            order_by_clause,
            skip,
            limit,
            mut params,
        } = other;
        self.match_clauses.append(&mut match_clauses);
        self.where_clauses.append(&mut where_clauses);
        self.with_clauses.append(&mut with_clauses);
        if let Some(rc) = return_clause {
            self.return_clause = Some(rc);
        }
        if let Some(ob) = order_by_clause {
            self.order_by_clause = Some(ob);
        }
        if let Some(sk) = skip {
            self.skip = Some(sk);
        }
        if let Some(lm) = limit {
            self.limit = Some(lm);
        }
        self.params.append(&mut params);
        proof {
            let m = merged_query_part(pre, other_view);
            assert(final (self)@.match_clauses =~= m.match_clauses);
            assert(final (self)@.where_clauses =~= m.where_clauses);
            assert(final (self)@.with_clauses =~= m.with_clauses);
            assert(final (self)@.params =~= m.params);
        }
        Ok(())
    }
}

/// The merge of two query parts: segment lists concatenate, scalar
/// segments take the later value where it is set.
pub open spec fn merged_query_part(a: QueryPartView, b: QueryPartView) -> QueryPartView {
    QueryPartView {
        match_clauses: a.match_clauses + b.match_clauses,
        where_clauses: a.where_clauses + b.where_clauses,
        with_clauses: a.with_clauses + b.with_clauses,
        return_clause: if b.return_clause is Some {
            b.return_clause
        } else {
            a.return_clause
        },
        order_by_clause: if b.order_by_clause is Some {
            b.order_by_clause
        } else {
            a.order_by_clause
        },
        skip: if b.skip is Some {
            b.skip
        } else {
            a.skip
        },
        limit: if b.limit is Some {
            b.limit
        } else {
            a.limit
        },
        params: a.params + b.params,
    }
}

} // verus!
