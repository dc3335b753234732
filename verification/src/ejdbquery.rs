use vstd::prelude::*;

verus! {

/// A query of the Rust binding: its text and the collection it runs on. The compiled query
/// (`JQL`) stays with the caller, which hands each call's return code here.
pub struct EJDBQuery {
    query: String,
    collection: String,
}

/// A return code as the `Result` that the query's methods give: `Ok` exactly for 0.
pub open spec fn rc_result(rc: u64) -> Result<(), u64> {
    if rc != 0 {
        Err(rc)
    } else {
        Ok(())
    }
}

fn check(rc: u64) -> (r: Result<(), u64>)
    ensures
        r == rc_result(rc),
{
    if rc != 0 {
        Err(rc)
    } else {
        Ok(())
    }
}

impl EJDBQuery {
    pub closed spec fn spec_query(&self) -> Seq<char> {
        self.query@
    }

    pub closed spec fn spec_collection(&self) -> Seq<char> {
        self.collection@
    }

    /// A query with the given text on the given collection, not compiled yet.
    pub fn new(collection: &str, query: &str) -> (q: EJDBQuery)
        ensures
            q.spec_collection() == collection@,
            q.spec_query() == query@,
    {
        EJDBQuery { query: query.to_owned(), collection: collection.to_owned() }
    }

    /// The text of the query.
    pub fn query(&self) -> (r: &str)
        ensures
            r@ == self.spec_query(),
    {
        self.query.as_str()
    }

    /// The collection the query runs on.
    pub fn collection(&self) -> (r: &str)
        ensures
            r@ == self.spec_collection(),
    {
        self.collection.as_str()
    }

    /// `init`: the return code of `jql_create`. On failure the compiled query is destroyed and
    /// forgotten, and the code is the error.
    pub fn init(rc: u64) -> (r: Result<(), u64>)
        ensures
            r == rc_result(rc),
    {
        check(rc)
    }

    /// `limit`: the return code of `jql_get_limit` and the limit it wrote.
    pub fn limit(rc: u64, out: i64) -> (r: Result<i64, u64>)
        ensures
            r == (if rc != 0 { Err::<i64, u64>(rc) } else { Ok(out) }),
    {
        if rc != 0 {
            Err(rc)
        } else {
            Ok(out)
        }
    }

    /// `set_placeholder_json`: the return code of parsing the JSON text, then, when that
    /// succeeded, the return code of `jql_set_json_jbl`.
    pub fn set_placeholder_json(parse_rc: u64, set_rc: Option<u64>) -> (r: Result<(), u64>)
        requires
            set_rc is Some <==> parse_rc == 0,
        ensures
            parse_rc != 0 ==> r == Err::<(), u64>(parse_rc),
            set_rc matches Some(c) ==> r == rc_result(c),
    {
        match set_rc {
            Some(c) => check(c),
            None => Err(parse_rc),
        }
    }

    /// `set_regexp`: the return code of `jql_set_regexp`.
    pub fn set_regexp(rc: u64) -> (r: Result<(), u64>)
        ensures
            r == rc_result(rc),
    {
        check(rc)
    }

    /// `set_null`: the return code of `jql_set_null`.
    pub fn set_null(rc: u64) -> (r: Result<(), u64>)
        ensures
            r == rc_result(rc),
    {
        check(rc)
    }

    /// `set_placeholder`, for every type of value: the return code of the `jql_set_*` call.
    pub fn set_placeholder(rc: u64) -> (r: Result<(), u64>)
        ensures
            r == rc_result(rc),
    {
        check(rc)
    }
}

} // verus!
