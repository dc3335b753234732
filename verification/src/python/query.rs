use vstd::prelude::*;
use crate::python::ejdb::{io_check, io_error, io_result, value_error, PyErrorKind, PyFailure};
use crate::python::to_jbl::{is_container, jbl_instructions, jbl_plan, to_jbl_panics, JblInstr, PyValue};

verus! {

/// The value a placeholder is bound to, by the `jql_set_*` call that binds it.
#[derive(Debug, PartialEq, Eq)]
pub enum PlaceholderValue {
    I64(i64),
    /// The IEEE-754 bits of the float.
    F64(u64),
    Str(String),
}

/// Where the JBL value of a JSON placeholder comes from: a Python string is parsed as JSON
/// text, a dict, list or set is built with the given instructions.
#[derive(Debug, PartialEq, Eq)]
pub enum PlaceholderJson {
    Text(String),
    Built(Vec<JblInstr>),
}

/// A query of the Python binding: its text and the collection it runs on. The compiled query
/// stays with the caller, which hands each call's return code here.
pub struct EJDBQuery {
    query: String,
    collection: String,
}

impl EJDBQuery {
    pub closed spec fn spec_query(&self) -> Seq<char> {
        self.query@
    }

    pub closed spec fn spec_collection(&self) -> Seq<char> {
        self.collection@
    }

    /// A query with the given text on the given collection, not compiled yet.
    pub fn new(collection: &str, query: &str) -> (q: EJDBQuery)
        ensures
            q.spec_collection() == collection@,
            q.spec_query() == query@,
    {
        EJDBQuery { query: query.to_owned(), collection: collection.to_owned() }
    }

    /// The text of the query.
    pub fn query(&self) -> (r: &str)
        ensures
            r@ == self.spec_query(),
    {
        self.query.as_str()
    }

    /// The collection the query runs on.
    pub fn collection(&self) -> (r: &str)
        ensures
            r@ == self.spec_collection(),
    {
        self.collection.as_str()
    }

    /// `init`: the return code of `jql_create`; on failure the compiled query is destroyed
    /// and forgotten.
    pub fn init(rc: u64) -> (r: Result<u64, PyFailure>)
        ensures
            r == io_result(rc),
    {
        io_check(rc)
    }

    /// `limit`: the return code of `jql_get_limit` and the limit it wrote.
    pub fn limit(rc: u64, out: i64) -> (r: Result<i64, PyFailure>)
        ensures
            r == (if rc != 0 { Err::<i64, PyFailure>(io_error(rc)) } else { Ok(out) }),
    {
        if rc != 0 {
            Err(PyFailure { kind: PyErrorKind::IOError, rc })
        } else {
            Ok(out)
        }
    }

    /// The JBL value of a JSON placeholder. A value that is no string, dict, list or set,
    /// or that holds what cannot be stored, makes the binding panic.
    pub fn placeholder_json(val: &PyValue) -> (r: PlaceholderJson)
        requires
            val is Str || (is_container(*val) && !to_jbl_panics(*val)),
        ensures
            val matches PyValue::Str(s) ==> (r matches PlaceholderJson::Text(t) && t@ == s@),
            !(val is Str) ==> (r matches PlaceholderJson::Built(p) && p@ == jbl_plan(*val).unwrap()),
    {
        match val {
            PyValue::Str(s) => PlaceholderJson::Text(s.clone()),
            _ => PlaceholderJson::Built(jbl_instructions(val)),
        }
    }

    /// `set_placeholder_json`: the return code of parsing a JSON text (0 for a built value),
    /// then, when that succeeded, the return code of `jql_set_json_jbl`.
    pub fn set_placeholder_json(parse_rc: u64, set_rc: Option<u64>) -> (r: Result<u64, PyFailure>)
        requires
            set_rc is Some <==> parse_rc == 0,
        ensures
            parse_rc != 0 ==> r == Err::<u64, PyFailure>(value_error(parse_rc)),
            set_rc matches Some(c) ==> r == io_result(c),
    {
        match set_rc {
            Some(c) => io_check(c),
            None => Err(PyFailure { kind: PyErrorKind::ValueError, rc: parse_rc }),
        }
    }

    /// `set_regexp`: the return code of `jql_set_regexp`.
    pub fn set_regexp(rc: u64) -> (r: Result<u64, PyFailure>)
        ensures
            r == io_result(rc),
    {
        io_check(rc)
    }

    /// `set_null`: the return code of `jql_set_null`.
    pub fn set_null(rc: u64) -> (r: Result<u64, PyFailure>)
        ensures
            r == io_result(rc),
    {
        io_check(rc)
    }

    /// The call that `set_placeholder` makes for a value, by the first of the binding's type
    /// tests that it passes: an int (a bool is one) is bound with `jql_set_i64`, a float with
    /// `jql_set_f64`, a string with `jql_set_str`; any other value is not bound (`None`).
    /// An int that does not fit in 64 bits makes the binding panic.
    pub fn placeholder_value(val: &PyValue) -> (r: Option<PlaceholderValue>)
        requires
            !(val is BigInt),
        ensures
            r == placeholder_value_of(*val),
            *val matches PyValue::Int(i) ==> r == Some(PlaceholderValue::I64(i)),
    {
        match val {
            PyValue::Int(i) => Some(PlaceholderValue::I64(*i)),
            PyValue::Bool(b) => Some(PlaceholderValue::I64(if *b { 1i64 } else { 0i64 })),
            PyValue::Float(f) => Some(PlaceholderValue::F64(*f)),
            PyValue::Str(s) => Some(PlaceholderValue::Str(s.clone())),
            _ => None,
        }
    }

    /// `set_placeholder`: the return code of the `jql_set_*` call, or `None` when the value's
    /// type made no call.
    pub fn set_placeholder(rc: Option<u64>) -> (r: Result<u64, PyFailure>)
        ensures
            r == io_result(match rc {
                Some(c) => c,
                None => 0,
            }),
    {
        match rc {
            Some(c) => io_check(c),
            None => Ok(0),
        }
    }
}

pub open spec fn placeholder_value_of(val: PyValue) -> Option<PlaceholderValue> {
    match val {
        PyValue::Int(i) => Some(PlaceholderValue::I64(i)),
        PyValue::Bool(b) => Some(PlaceholderValue::I64(if b { 1i64 } else { 0i64 })),
        PyValue::Float(f) => Some(PlaceholderValue::F64(f)),
        PyValue::Str(s) => Some(PlaceholderValue::Str(s)),
        _ => None,
    }
}

/// A bool placeholder is bound as the integer 0 or 1, never with `jql_set_bool`: a bool is an
/// int, and the int test comes first.
pub proof fn lemma_bool_placeholder_is_int(b: bool)
    ensures
        placeholder_value_of(PyValue::Bool(b)) == placeholder_value_of(
            PyValue::Int(if b { 1i64 } else { 0i64 }),
        ),
{
}


/// An int placeholder is bound with `jql_set_i64` and exactly that integer, negatives and all,
/// so two different ints are never bound alike.
pub proof fn lemma_int_placeholder_exact(i: i64, j: i64)
    ensures
        placeholder_value_of(PyValue::Int(i)) == Some(PlaceholderValue::I64(i)),
        i != j ==> placeholder_value_of(PyValue::Int(i)) != placeholder_value_of(PyValue::Int(j)),
{
}


/// Every placeholder value is bound with exactly what it holds: a float with the same IEEE-754
/// bits through `jql_set_f64`, a string as that text through `jql_set_str`.
pub proof fn lemma_placeholder_keeps_value(f: u64, s: String)
    ensures
        placeholder_value_of(PyValue::Float(f)) == Some(PlaceholderValue::F64(f)),
        placeholder_value_of(PyValue::Str(s)) == Some(PlaceholderValue::Str(s)),
        placeholder_value_of(PyValue::Other) is None,
{
}

} // verus!
