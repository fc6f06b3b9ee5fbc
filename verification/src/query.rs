//! The query parser: splits `field=value&field=value...` into an
//! ordered multi-valued mapping. Fields are keyed by exact match and
//! keep insertion order; a repeated field appends to its value list; a
//! bare field (no `=`) is present with no value, while `field=` gives
//! an empty value. Percent-encoding is validated once over the whole
//! input before tokenizing.

use vstd::prelude::*;

use crate::utils::{
    all_query_bytes, bytes_eq, check_query_byte, find_byte, first_index_from,
    is_properly_percent_encoded, is_query_byte, lemma_bytes_deep_view, lemma_first_index_props,
    percent_encoded_ok, B_AMP, B_EQUALS,
};

verus! {

/// Error returned when a query string is rejected.
#[derive(Debug, PartialEq, Eq, Structural, Clone, Copy)]
pub enum QueryParseError {
    InvalidCharacter,
    BadFieldValue,
    EmptyInput,
    EmptyField,
    BadPercentEncoding,
}

/// One `field` or `field=value` token: a field name and an optional
/// value (`field=` has an empty value, a bare `field` has none).
#[derive(Debug)]
pub struct QueryItem {
    pub field: Vec<u8>,
    pub value: Option<Vec<u8>>,
}

impl View for QueryItem {
    type V = (Seq<u8>, Option<Seq<u8>>);

    open spec fn view(&self) -> (Seq<u8>, Option<Seq<u8>>) {
        (
            self.field@,
            match self.value {
                Some(v) => Some(v@),
                None => None,
            },
        )
    }
}

impl PartialEq for QueryItem {
    fn eq(&self, other: &QueryItem) -> (r: bool) {
        let fields_match = bytes_eq(self.field.as_slice(), other.field.as_slice());
        let values_match = match (&self.value, &other.value) {
            (Some(a), Some(b)) => bytes_eq(a.as_slice(), b.as_slice()),
            (None, None) => true,
            _ => false,
        };
        fields_match && values_match
    }
}

impl vstd::std_specs::cmp::PartialEqSpecImpl for QueryItem {
    open spec fn obeys_eq_spec() -> bool {
        true
    }

    open spec fn eq_spec(&self, other: &QueryItem) -> bool {
        self@ == other@
    }
}

/// Mathematical model of a query: the fields in insertion order, each
/// with its values in arrival order.
pub type QueryModel = Seq<(Seq<u8>, Seq<Seq<u8>>)>;

/// The view of an optional borrowed byte slice.
pub open spec fn opt_bytes_view(v: Option<&[u8]>) -> Option<Seq<u8>> {
    match v {
        Some(b) => Some(b@),
        None => None,
    }
}

/// The tokens of `s` between occurrences of `sep`, from `start` on.
/// Splitting never yields an empty token list: a separator-free
/// suffix, even an empty one, is one token.
pub open spec fn split_from(s: Seq<u8>, sep: u8, start: int) -> Seq<Seq<u8>>
    decreases s.len() - start,
        via split_from_decreases
{
    let i = first_index_from(s, sep, start);
    if i >= s.len() {
        seq![s.subrange(start, s.len() as int)]
    } else {
        seq![s.subrange(start, i)] + split_from(s, sep, i + 1)
    }
}

#[via_fn]
proof fn split_from_decreases(s: Seq<u8>, sep: u8, start: int) {
    if 0 <= start <= s.len() {
        lemma_first_index_props(s, sep, start);
    }
}

/// The tokens of `s` between occurrences of `sep`.
pub open spec fn split_on(s: Seq<u8>, sep: u8) -> Seq<Seq<u8>> {
    split_from(s, sep, 0)
}

/// What parsing one `&`-separated token yields: an empty token is
/// rejected; with no `=` the whole token is a bare field; with more
/// than one `=` the token is rejected; otherwise the part before the
/// `=` is the field, which must be non-empty, and the part after it
/// the value. Field and value must hold only query bytes.
pub open spec fn item_spec(t: Seq<u8>) -> Result<(Seq<u8>, Option<Seq<u8>>), QueryParseError> {
    let i = first_index_from(t, B_EQUALS, 0);
    if i == t.len() {
        if t.len() == 0 {
            Err(QueryParseError::EmptyInput)
        } else if all_query_bytes(t) {
            Ok((t, None))
        } else {
            Err(QueryParseError::InvalidCharacter)
        }
    } else {
        if first_index_from(t, B_EQUALS, i + 1) < t.len() {
            Err(QueryParseError::BadFieldValue)
        } else {
            let f = t.subrange(0, i);
            let v = t.subrange(i + 1, t.len() as int);
            if f.len() == 0 {
                Err(QueryParseError::EmptyField)
            } else if all_query_bytes(f) && all_query_bytes(v) {
                Ok((f, Some(v)))
            } else {
                Err(QueryParseError::InvalidCharacter)
            }
        }
    }
}

/// The index of the first entry with field `f` at or after `i`, or
/// the length of the mapping when there is none.
pub open spec fn find_field_from(q: QueryModel, f: Seq<u8>, i: int) -> int
    decreases q.len() - i,
{
    if i < 0 || i >= q.len() {
        q.len() as int
    } else if q[i].0 == f {
        i
    } else {
        find_field_from(q, f, i + 1)
    }
}

/// Inserting a parsed token into the mapping: a new field is appended
/// with its value list (empty for a bare field); an existing field
/// appends the value to its list, and a bare repetition changes
/// nothing.
pub open spec fn insert_spec(q: QueryModel, f: Seq<u8>, v: Option<Seq<u8>>) -> QueryModel {
    let i = find_field_from(q, f, 0);
    if i < q.len() {
        match v {
            Some(val) => q.update(i, (q[i].0, q[i].1.push(val))),
            None => q,
        }
    } else {
        match v {
            Some(val) => q.push((f, seq![val])),
            None => q.push((f, Seq::empty())),
        }
    }
}

/// Folds the tokens from index `i` on into the mapping, stopping at
/// the first token error.
pub open spec fn query_accum(q: QueryModel, toks: Seq<Seq<u8>>, i: int) -> Result<
    QueryModel,
    QueryParseError,
>
    decreases toks.len() - i,
{
    if i < 0 || i >= toks.len() {
        Ok(q)
    } else {
        match item_spec(toks[i]) {
            Err(e) => Err(e),
            Ok(fv) => query_accum(insert_spec(q, fv.0, fv.1), toks, i + 1),
        }
    }
}

/// What parsing a query string yields: empty input is the empty
/// mapping; malformed percent-encoding anywhere rejects the whole
/// input; otherwise the `&`-separated tokens are parsed and folded
/// into the mapping in order, stopping at the first token error.
pub open spec fn query_spec(s: Seq<u8>) -> Result<QueryModel, QueryParseError> {
    if s.len() == 0 {
        Ok(Seq::empty())
    } else if !percent_encoded_ok(s) {
        Err(QueryParseError::BadPercentEncoding)
    } else {
        query_accum(Seq::empty(), split_on(s, B_AMP), 0)
    }
}

impl QueryItem {
    /// A byte a query field or value may hold: a letter, a digit, or
    /// one of `%-._~`.
    pub fn is_valid_byte(b: &u8) -> (r: bool)
        ensures
            r == is_query_byte(*b),
    {
        check_query_byte(*b)
    }

    /// Every byte of the field is a query byte.
    pub fn is_valid_field(field: &[u8]) -> (r: bool)
        ensures
            r == all_query_bytes(field@),
    {
        all_query_bytes_check(field)
    }

    /// Every byte of the value is a query byte.
    pub fn is_valid_value(value: &[u8]) -> (r: bool)
        ensures
            r == all_query_bytes(value@),
    {
        all_query_bytes_check(value)
    }

    /// Parses one `&`-separated token into a field and an optional
    /// value.
    pub fn parse(t: &[u8]) -> (r: Result<QueryItem, QueryParseError>)
        ensures
            r is Ok <==> item_spec(t@) is Ok,
            r is Ok ==> r->Ok_0@ == item_spec(t@)->Ok_0,
            r is Err ==> r->Err_0 == item_spec(t@)->Err_0,
    {
        let n = t.len();
        proof {
            lemma_first_index_props(t@, B_EQUALS, 0);
        }
        let e1 = find_byte(t, B_EQUALS, 0);
        if e1 == n {
            if n == 0 {
                Err(QueryParseError::EmptyInput)
            } else if all_query_bytes_check(t) {
                Ok(QueryItem { field: vstd::slice::slice_to_vec(t), value: None })
            } else {
                Err(QueryParseError::InvalidCharacter)
            }
        } else {
            proof {
                lemma_first_index_props(t@, B_EQUALS, e1 + 1);
            }
            let e2 = find_byte(t, B_EQUALS, e1 + 1);
            if e2 < n {
                return Err(QueryParseError::BadFieldValue);
            }
            if e1 == 0 {
                return Err(QueryParseError::EmptyField);
            }
            let f = vstd::slice::slice_subrange(t, 0, e1);
            let v = vstd::slice::slice_subrange(t, e1 + 1, n);
            if all_query_bytes_check(f) && all_query_bytes_check(v) {
                Ok(
                    QueryItem {
                        field: vstd::slice::slice_to_vec(f),
                        value: Some(vstd::slice::slice_to_vec(v)),
                    },
                )
            } else {
                Err(QueryParseError::InvalidCharacter)
            }
        }
    }
}

/// An ordered multi-valued mapping from query fields to their values,
/// kept as parallel vectors: these stay small, and scanning them is
/// cheap.
#[derive(Debug)]
pub struct Query {
    fields: Vec<Vec<u8>>,
    values: Vec<Vec<Vec<u8>>>,
}

impl View for Query {
    type V = QueryModel;

    closed spec fn view(&self) -> QueryModel {
        Seq::new(self.fields@.len(), |i: int| (self.fields@[i]@, self.values@[i].deep_view()))
    }
}

impl PartialEq for Query {
    fn eq(&self, other: &Query) -> (r: bool) {
        proof {
            use_type_invariant(&*self);
            use_type_invariant(&*other);
        }
        if self.fields.len() != other.fields.len() {
            proof {
                assert(self@.len() != other@.len());
            }
            return false;
        }
        let n = self.fields.len();
        let mut i: usize = 0;
        while i < n
            invariant
                self.wf(),
                other.wf(),
                n == self@.len() == other@.len(),
                n == self.fields@.len() == other.fields@.len(),
                i <= n,
                forall|j: int| 0 <= j < i ==> self@[j] == other@[j],
            decreases n - i,
        {
            proof {
                assert(self@[i as int].0 == self.fields@[i as int]@);
                assert(other@[i as int].0 == other.fields@[i as int]@);
                assert(self@[i as int].1 == self.values@[i as int].deep_view());
                assert(other@[i as int].1 == other.values@[i as int].deep_view());
            }
            if !bytes_eq(self.fields[i].as_slice(), other.fields[i].as_slice()) {
                proof {
                    assert(self@[i as int] != other@[i as int]);
                }
                return false;
            }
            if !vec_of_bytes_eq(&self.values[i], &other.values[i]) {
                proof {
                    assert(self@[i as int] != other@[i as int]);
                }
                return false;
            }
            i = i + 1;
        }
        proof {
            assert(self@ =~= other@);
        }
        true
    }
}

impl vstd::std_specs::cmp::PartialEqSpecImpl for Query {
    open spec fn obeys_eq_spec() -> bool {
        true
    }

    open spec fn eq_spec(&self, other: &Query) -> bool {
        self@ == other@
    }
}

impl Query {
    /// The parallel vectors are the same length.
    #[verifier::type_invariant]
    spec fn wf(&self) -> bool {
        self.fields@.len() == self.values@.len()
    }

    /// An empty mapping.
    pub fn new() -> (r: Query)
        ensures
            r@ == Seq::<(Seq<u8>, Seq<Seq<u8>>)>::empty(),
    {
        let r = Query { fields: Vec::new(), values: Vec::new() };
        proof {
            assert(r@ =~= Seq::<(Seq<u8>, Seq<Seq<u8>>)>::empty());
        }
        r
    }

    /// The position of a field in the mapping, if it is present.
    pub fn find(&self, field: &[u8]) -> (r: Option<usize>)
        ensures
            match r {
                Some(i) => i == find_field_from(self@, field@, 0) && i < self@.len(),
                None => find_field_from(self@, field@, 0) == self@.len(),
            },
    {
        proof {
            use_type_invariant(&*self);
        }
        let n = self.fields.len();
        let mut i: usize = 0;
        while i < n
            invariant
                self.wf(),
                n == self@.len(),
                n == self.fields@.len(),
                i <= n,
                find_field_from(self@, field@, 0) == find_field_from(self@, field@, i as int),
            decreases n - i,
        {
            if bytes_eq(self.fields[i].as_slice(), field) {
                proof {
                    assert(self@[i as int].0 == field@);
                }
                return Some(i);
            }
            proof {
                assert(self@[i as int].0 != field@);
            }
            i = i + 1;
        }
        None
    }

    /// Records one parsed token. A new field is appended with its
    /// value (or with no values for a bare field); an existing field
    /// appends the value to its list, and a bare repetition changes
    /// nothing.
    pub fn insert(&mut self, field: &[u8], value: Option<&[u8]>)
        ensures
            final(self)@ == insert_spec(old(self)@, field@, opt_bytes_view(value)),
    {
        proof {
            use_type_invariant(&*self);
        }
        let found = self.find(field);
        let mut tmp = Query::new();
        core::mem::swap(self, &mut tmp);
        let Query { mut fields, mut values } = tmp;
        match found {
            Some(index) => {
                if let Some(v) = value {
                    let mut row = values.remove(index);
                    row.push(vstd::slice::slice_to_vec(v));
                    values.insert(index, row);
                }
            },
            None => {
                fields.push(vstd::slice::slice_to_vec(field));
                match value {
                    Some(v) => {
                        let mut row: Vec<Vec<u8>> = Vec::new();
                        row.push(vstd::slice::slice_to_vec(v));
                        proof {
                            lemma_bytes_deep_view(&row@[0]);
                            assert(row.deep_view() =~= seq![v@]);
                        }
                        values.push(row);
                    },
                    None => {
                        let row: Vec<Vec<u8>> = Vec::new();
                        proof {
                            assert(row.deep_view() =~= Seq::<Seq<u8>>::empty());
                        }
                        values.push(row);
                    },
                }
            },
        }
        let result = Query { fields, values };
        proof {
            assert(result@ =~~= insert_spec(old(self)@, field@, opt_bytes_view(value)));
        }
        *self = result;
    }

    /// The values recorded for a field, if the field is present.
    pub fn get(&self, field: &[u8]) -> (r: Option<&Vec<Vec<u8>>>)
        ensures
            match r {
                Some(vals) => find_field_from(self@, field@, 0) < self@.len()
                    && vals.deep_view() == self@[find_field_from(self@, field@, 0)].1,
                None => find_field_from(self@, field@, 0) == self@.len(),
            },
    {
        proof {
            use_type_invariant(&*self);
        }
        match self.find(field) {
            Some(index) => Some(&self.values[index]),
            None => None,
        }
    }

    /// Mutable access to the values recorded for a field, if the
    /// field is present.
    pub fn get_mut(&mut self, field: &[u8]) -> (r: Option<&mut Vec<Vec<u8>>>)
        ensures
            match r {
                Some(vals) => {
                    let i = find_field_from(old(self)@, field@, 0);
                    &&& i < old(self)@.len()
                    &&& (*vals).deep_view() == old(self)@[i].1
                    &&& final(self)@ == old(self)@.update(
                        i,
                        (old(self)@[i].0, (*final(vals)).deep_view()),
                    )
                },
                None => {
                    &&& find_field_from(old(self)@, field@, 0) == old(self)@.len()
                    &&& final(self)@ == old(self)@
                },
            },
    {
        proof {
            use_type_invariant(&*self);
        }
        match self.find(field) {
            Some(index) => Some(&mut self.values[index]),
            None => None,
        }
    }

    /// Parses a whole query string into a mapping.
    pub fn parse(s: &[u8]) -> (r: Result<Query, QueryParseError>)
        ensures
            r is Ok <==> query_spec(s@) is Ok,
            r is Ok ==> r->Ok_0@ == query_spec(s@)->Ok_0,
            r is Err ==> r->Err_0 == query_spec(s@)->Err_0,
    {
        let mut query = Query::new();
        let n = s.len();
        if n == 0 {
            return Ok(query);
        }
        if !is_properly_percent_encoded(s) {
            return Err(QueryParseError::BadPercentEncoding);
        }
        let ghost toks = split_on(s@, B_AMP);
        let mut start: usize = 0;
        let ghost mut tix: int = 0;
        loop
            invariant_except_break
                n == s@.len(),
                0 < n,
                percent_encoded_ok(s@),
                start <= n,
                0 <= tix < toks.len(),
                toks == split_on(s@, B_AMP),
                toks.subrange(tix, toks.len() as int) == split_from(s@, B_AMP, start as int),
                query_accum(Seq::empty(), toks, 0) == query_accum(query@, toks, tix),
            ensures
                query_accum(Seq::empty(), toks, 0) == Ok::<QueryModel, QueryParseError>(query@),
            decreases n - start,
        {
            proof {
                lemma_first_index_props(s@, B_AMP, start as int);
            }
            let j = find_byte(s, B_AMP, start);
            let tok = vstd::slice::slice_subrange(s, start, j);
            proof {
                let rest = toks.subrange(tix, toks.len() as int);
                assert(rest[0] == toks[tix]);
                assert(toks[tix] == tok@);
            }
            match QueryItem::parse(tok) {
                Err(e) => {
                    return Err(e);
                },
                Ok(item) => {
                    let value_ref = match &item.value {
                        Some(v) => Some(v.as_slice()),
                        None => None,
                    };
                    query.insert(item.field.as_slice(), value_ref);
                },
            }
            proof {
                tix = tix + 1;
            }
            if j == n {
                proof {
                    assert(toks.subrange(tix - 1, toks.len() as int) =~= seq![
                        s@.subrange(start as int, n as int),
                    ]);
                    assert(tix == toks.len());
                }
                break ;
            }
            start = j + 1;
            proof {
                let rest = toks.subrange(tix - 1, toks.len() as int);
                assert(rest == seq![tok@] + split_from(s@, B_AMP, start as int));
                assert(split_from(s@, B_AMP, start as int).len() >= 1);
                assert(tix < toks.len());
                assert(toks.subrange(tix, toks.len() as int) =~= rest.subrange(
                    1,
                    rest.len() as int,
                ));
                assert(rest.subrange(1, rest.len() as int) =~= split_from(
                    s@,
                    B_AMP,
                    start as int,
                ));
            }
        }
        Ok(query)
    }
}

/// Every byte of the slice is a query byte.
fn all_query_bytes_check(s: &[u8]) -> (r: bool)
    ensures
        r == all_query_bytes(s@),
{
    let mut i: usize = 0;
    while i < s.len()
        invariant
            i <= s@.len(),
            forall|j: int| 0 <= j < i ==> is_query_byte(#[trigger] s@[j]),
        decreases s@.len() - i,
    {
        if !check_query_byte(s[i]) {
            return false;
        }
        i = i + 1;
    }
    true
}

/// Two vectors of byte vectors hold the same byte sequences.
fn vec_of_bytes_eq(a: &Vec<Vec<u8>>, b: &Vec<Vec<u8>>) -> (r: bool)
    ensures
        r == (a.deep_view() == b.deep_view()),
{
    if a.len() != b.len() {
        proof {
            assert(a.deep_view().len() != b.deep_view().len());
        }
        return false;
    }
    let n = a.len();
    let mut i: usize = 0;
    while i < n
        invariant
            n == a@.len() == b@.len(),
            i <= n,
            forall|j: int| 0 <= j < i ==> a.deep_view()[j] == b.deep_view()[j],
        decreases n - i,
    {
        proof {
            lemma_bytes_deep_view(&a@[i as int]);
            lemma_bytes_deep_view(&b@[i as int]);
        }
        if !bytes_eq(a[i].as_slice(), b[i].as_slice()) {
            proof {
                lemma_bytes_deep_view(&a@[i as int]);
                lemma_bytes_deep_view(&b@[i as int]);
                assert(a.deep_view()[i as int] != b.deep_view()[i as int]);
            }
            return false;
        }
        i = i + 1;
    }
    proof {
        assert(a.deep_view() =~= b.deep_view());
    }
    true
}

} // verus!
