use vstd::prelude::*;

verus! {

/// A document rendered as JSON text: the return code of `jbl_as_json` and, when that is 0,
/// the text it printed.
#[derive(Debug, PartialEq, Eq)]
pub struct Rendered {
    pub rc: u64,
    pub text: String,
}

/// A return code as a result: `Ok` exactly for 0.
pub open spec fn rc_result(rc: u64) -> Result<(), u64> {
    if rc != 0 {
        Err(rc)
    } else {
        Ok(())
    }
}

fn check(rc: u64) -> (r: Result<(), u64>)
    ensures
        r == rc_result(rc),
{
    if rc != 0 {
        Err(rc)
    } else {
        Ok(())
    }
}

/// `from_jbl` of a string: the document's JSON text, or the code of `jbl_as_json`.
pub fn text_from_jbl(rendered: Rendered) -> (r: Result<String, u64>)
    ensures
        rendered.rc != 0 ==> r == Err::<String, u64>(rendered.rc),
        rendered.rc == 0 ==> (r matches Ok(t) && t@ == rendered.text@),
{
    if rendered.rc != 0 {
        Err(rendered.rc)
    } else {
        Ok(rendered.text)
    }
}

/// `to_jbl` of a string: the code of `jbl_from_json` parsing the text, as a result.
pub fn text_to_jbl(rc: u64) -> (r: Result<(), u64>)
    ensures
        r == rc_result(rc),
{
    check(rc)
}

/// The decisions of the database handle of the Rust binding. The handle itself, and every
/// call into the database and into a data format's conversion, stay with the caller, which
/// hands each outcome here.
pub struct EJDB;

impl EJDB {
    /// `init`: the return code of `ejdb_init`.
    pub fn init(rc: u64) -> (r: Result<(), u64>)
        ensures
            r == rc_result(rc),
    {
        check(rc)
    }

    /// `open`: the return code of `ejdb_open`.
    pub fn open(rc: u64) -> (r: Result<(), u64>)
        ensures
            r == rc_result(rc),
    {
        check(rc)
    }

    /// `put_new`: how converting the data to a JBL document went, then, when it did, the
    /// return code of `ejdb_put_new` and the id it assigned. The first failure is the error.
    pub fn put_new(converted: Result<(), u64>, put: Option<(u64, i64)>) -> (r: Result<i64, u64>)
        requires
            put is Some <==> converted is Ok,
        ensures
            converted matches Err(e) ==> r == Err::<i64, u64>(e),
            put matches Some((rc, id)) ==> r == (if rc != 0 { Err::<i64, u64>(rc) } else { Ok(id) }),
    {
        match converted {
            Err(e) => Err(e),
            Ok(()) => match put {
                Some((rc, id)) => if rc != 0 {
                    Err(rc)
                } else {
                    Ok(id)
                },
                None => Err(0),
            },
        }
    }

    /// Whether `put_new` destroys the document it built: only when storing it failed (a
    /// stored document is left to the database).
    pub fn put_new_frees(put: Option<(u64, i64)>) -> (r: bool)
        ensures
            r == (put matches Some((rc, _)) && rc != 0),
    {
        match put {
            Some((rc, _)) => rc != 0,
            None => false,
        }
    }

    /// `close`: whether the binding forgets its handle, which it does only when
    /// `ejdb_close` succeeded; the return code itself is handed back unchanged.
    pub fn close(rc: u64) -> (release: bool)
        ensures
            release == (rc == 0),
    {
        rc == 0
    }

    /// `get`: the return code of `ejdb_get`, whether it produced a document, and, when it
    /// did, the document converted to the caller's data format.
    pub fn get<T>(fetch_rc: u64, found: bool, read: Option<Result<T, u64>>) -> (r: Result<T, u64>)
        requires
            read is Some <==> (fetch_rc == 0 && found),
        ensures
            fetch_rc != 0 ==> r == Err::<T, u64>(fetch_rc),
            fetch_rc == 0 && !found ==> r == Err::<T, u64>(0),
            read matches Some(x) ==> r == x,
    {
        if fetch_rc != 0 {
            return Err(fetch_rc);
        }
        match read {
            Some(x) => x,
            None => Err(0),
        }
    }

    /// Whether `get` destroys the document: when the fetch failed or produced one.
    pub fn get_frees(fetch_rc: u64, found: bool) -> (r: bool)
        ensures
            r == (fetch_rc != 0 || found),
    {
        fetch_rc != 0 || found
    }

    /// `info`: the return code of `ejdb_get_meta` and, when it succeeded, the metadata
    /// converted to the caller's data format.
    pub fn info<T>(meta_rc: u64, read: Option<Result<T, u64>>) -> (r: Result<T, u64>)
        requires
            read is Some <==> meta_rc == 0,
        ensures
            meta_rc != 0 ==> r == Err::<T, u64>(meta_rc),
            read matches Some(x) ==> r == x,
    {
        match read {
            Some(x) => x,
            None => Err(meta_rc),
        }
    }

    /// `online_backup`: the return code of `ejdb_online_backup` and the timestamp it wrote.
    pub fn online_backup(rc: u64, ts: u64) -> (r: Result<u64, u64>)
        ensures
            r == (if rc != 0 { Err::<u64, u64>(rc) } else { Ok(ts) }),
    {
        if rc != 0 {
            Err(rc)
        } else {
            Ok(ts)
        }
    }

    /// `exec`: the return code of `ejdb_exec`.
    pub fn exec(rc: u64) -> (r: Result<(), u64>)
        ensures
            r == rc_result(rc),
    {
        check(rc)
    }
}

/// The visitor of `exec`: a document converted to the caller's data format is collected with
/// its id (`Ok`), and the visit goes on with 0; a failed conversion stops the visit with its code.
pub fn document_visitor<T>(id: i64, read: Result<T, u64>) -> (r: Result<(i64, T), u64>)
    ensures
        read matches Ok(x) ==> r == Ok::<(i64, T), u64>((id, x)),
        read matches Err(c) ==> r == Err::<(i64, T), u64>(c),
{
    match read {
        Ok(x) => Ok((id, x)),
        Err(c) => Err(c),
    }
}

} // verus!
