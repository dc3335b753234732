use vstd::prelude::*;
use crate::jbl::JblValue;
use crate::python::from_jbl::{from_jbl, from_jbl_panics, is_jbl_container, py_plan};
use crate::value::{steps, ValueInstr};
use crate::python::to_jbl::{is_container, jbl_plan, to_jbl, to_jbl_panics, JblInstr, PyValue};

verus! {

/// The Python exception a method raises.
#[derive(Debug, Clone, Copy, PartialEq, Eq)]
pub enum PyErrorKind {
    IOError,
    ValueError,
}

/// A raised exception: its kind and the return code whose message it carries.
#[derive(Debug, PartialEq, Eq)]
pub struct PyFailure {
    pub kind: PyErrorKind,
    pub rc: u64,
}

pub open spec fn io_error(rc: u64) -> PyFailure {
    PyFailure { kind: PyErrorKind::IOError, rc }
}

pub open spec fn value_error(rc: u64) -> PyFailure {
    PyFailure { kind: PyErrorKind::ValueError, rc }
}

/// A return code as a method result: an `IOError` for a failure, else `Ok(0)`.
pub open spec fn io_result(rc: u64) -> Result<u64, PyFailure> {
    if rc != 0 {
        Err(io_error(rc))
    } else {
        Ok(0)
    }
}

pub(crate) fn io_check(rc: u64) -> (r: Result<u64, PyFailure>)
    ensures
        r == io_result(rc),
{
    if rc != 0 {
        Err(PyFailure { kind: PyErrorKind::IOError, rc })
    } else {
        Ok(0)
    }
}

/// Where the JBL document of a JSON argument comes from: a Python string is parsed as JSON
/// text; a dict, list or set is built with the given instructions; anything else is refused
/// with the code.
#[derive(Debug, PartialEq, Eq)]
pub enum JsonDocument {
    Text(String),
    Built(Vec<JblInstr>),
    Rejected(u64),
}

/// The document a JSON argument gives, when it does not make the binding panic.
pub open spec fn json_document_ok(json: PyValue, d: JsonDocument) -> bool {
    match json {
        PyValue::Str(s) => d matches JsonDocument::Text(t) && t@ == s@,
        _ => if is_container(json) {
            d matches JsonDocument::Built(p) && p@ == jbl_plan(json).unwrap()
        } else {
            d == JsonDocument::Rejected(0)
        },
    }
}

/// Turns the JSON argument of `put_new`, `put` and `patch` into its document.
pub fn json_document(json: &PyValue) -> (d: JsonDocument)
    requires
        !to_jbl_panics(*json),
    ensures
        json_document_ok(*json, d),
{
    match json {
        PyValue::Str(s) => JsonDocument::Text(s.clone()),
        _ => match to_jbl(json) {
            Ok(p) => JsonDocument::Built(p),
            Err(e) => JsonDocument::Rejected(e),
        },
    }
}

/// The decisions of the database handle of the Python binding. The handle and the calls into
/// the database stay with the caller, which hands each call's outcome here.
pub struct EJDB;

impl EJDB {
    /// `init`: the return code of `ejdb_init`.
    pub fn init(rc: u64) -> (r: Result<u64, PyFailure>)
        ensures
            r == io_result(rc),
    {
        io_check(rc)
    }

    /// `open`: the return code of `ejdb_open`.
    pub fn open(rc: u64) -> (r: Result<u64, PyFailure>)
        ensures
            r == io_result(rc),
    {
        io_check(rc)
    }

    /// `put_new`: how the document was obtained (`Err` with the code of a failed parse or of
    /// a refused value), then, when it was, the return code of `ejdb_put_new` and the new id.
    pub fn put_new(converted: Result<(), u64>, put: Option<(u64, i64)>) -> (r: Result<i64, PyFailure>)
        requires
            put is Some <==> converted is Ok,
        ensures
            converted matches Err(e) ==> r == Err::<i64, PyFailure>(value_error(e)),
            put matches Some((rc, id)) ==> r == (if rc != 0 {
                Err::<i64, PyFailure>(io_error(rc))
            } else {
                Ok(id)
            }),
    {
        match converted {
            Err(e) => Err(PyFailure { kind: PyErrorKind::ValueError, rc: e }),
            Ok(()) => match put {
                Some((rc, id)) => if rc != 0 {
                    Err(PyFailure { kind: PyErrorKind::IOError, rc })
                } else {
                    Ok(id)
                },
                None => Err(PyFailure { kind: PyErrorKind::ValueError, rc: 0 }),
            },
        }
    }

    /// `put`: as `put_new`, with `ejdb_put` under a given id; a JSON text that does not parse
    /// raises an `IOError`, any other refused value a `ValueError`.
    pub fn put(json: &PyValue, converted: Result<(), u64>, put_rc: Option<u64>) -> (r: Result<u64, PyFailure>)
        requires
            put_rc is Some <==> converted is Ok,
        ensures
            converted matches Err(e) ==> r == Err::<u64, PyFailure>(
                if json is Str { io_error(e) } else { value_error(e) },
            ),
            put_rc matches Some(rc) ==> r == io_result(rc),
    {
        match converted {
            Err(e) => match json {
                PyValue::Str(_) => Err(PyFailure { kind: PyErrorKind::IOError, rc: e }),
                _ => Err(PyFailure { kind: PyErrorKind::ValueError, rc: e }),
            },
            Ok(()) => match put_rc {
                Some(rc) => io_check(rc),
                None => Ok(0),
            },
        }
    }

    /// Whether `put_new` or `put` destroys the document it built: only when storing it failed.
    pub fn put_frees(put_rc: Option<u64>) -> (r: bool)
        ensures
            r == (put_rc matches Some(rc) && rc != 0),
    {
        match put_rc {
            Some(rc) => rc != 0,
            None => false,
        }
    }

    /// Whether `patch` destroys the document it built: only when patching succeeded (a
    /// document whose patch failed is left undestroyed).
    pub fn patch_frees(patch_rc: Option<u64>) -> (r: bool)
        ensures
            r == (patch_rc == Some(0u64)),
    {
        match patch_rc {
            Some(rc) => rc == 0,
            None => false,
        }
    }

    /// `close`: the return code of `ejdb_close`; the handle is forgotten only on success.
    pub fn close(rc: u64) -> (r: Result<u64, PyFailure>)
        ensures
            r == io_result(rc),
    {
        io_check(rc)
    }

    /// `patch`: as `put`, with `ejdb_patch_jbl`; every failure raises an `IOError`.
    pub fn patch(converted: Result<(), u64>, patch_rc: Option<u64>) -> (r: Result<u64, PyFailure>)
        requires
            patch_rc is Some <==> converted is Ok,
        ensures
            converted matches Err(e) ==> r == Err::<u64, PyFailure>(io_error(e)),
            patch_rc matches Some(rc) ==> r == io_result(rc),
    {
        match converted {
            Err(e) => Err(PyFailure { kind: PyErrorKind::IOError, rc: e }),
            Ok(()) => match patch_rc {
                Some(rc) => io_check(rc),
                None => Ok(0),
            },
        }
    }

    /// `get`: the return code of `ejdb_get` and the document it produced, if any; the
    /// document is read into the instructions that build its Python object.
    pub fn get(fetch_rc: u64, doc: Option<&JblValue>) -> (r: Result<Vec<ValueInstr>, PyFailure>)
        requires
            fetch_rc != 0 ==> doc is None,
            doc matches Some(d) ==> !from_jbl_panics(*d),
        ensures
            fetch_rc != 0 ==> r == Err::<Vec<ValueInstr>, PyFailure>(io_error(fetch_rc)),
            fetch_rc == 0 && doc is None ==> r == Err::<Vec<ValueInstr>, PyFailure>(io_error(0)),
            doc matches Some(d) ==> read_result(*d, r),
    {
        if fetch_rc != 0 {
            return Err(PyFailure { kind: PyErrorKind::IOError, rc: fetch_rc });
        }
        match doc {
            Some(d) => read(d),
            None => Err(PyFailure { kind: PyErrorKind::IOError, rc: 0 }),
        }
    }

    /// `info`: the return code of `ejdb_get_meta` and, when it succeeded, the metadata document.
    pub fn info(meta_rc: u64, doc: Option<&JblValue>) -> (r: Result<Vec<ValueInstr>, PyFailure>)
        requires
            doc is Some <==> meta_rc == 0,
            doc matches Some(d) ==> !from_jbl_panics(*d),
        ensures
            meta_rc != 0 ==> r == Err::<Vec<ValueInstr>, PyFailure>(io_error(meta_rc)),
            doc matches Some(d) ==> read_result(*d, r),
    {
        match doc {
            Some(d) => read(d),
            None => Err(PyFailure { kind: PyErrorKind::IOError, rc: meta_rc }),
        }
    }

    /// `del`: the return code of `ejdb_del`.
    pub fn del(rc: u64) -> (r: Result<u64, PyFailure>)
        ensures
            r == io_result(rc),
    {
        io_check(rc)
    }

    /// `rename_collection`: the return code of `ejdb_rename_collection`.
    pub fn rename_collection(rc: u64) -> (r: Result<u64, PyFailure>)
        ensures
            r == io_result(rc),
    {
        io_check(rc)
    }

    /// `ensure_index`: the return code of `ejdb_ensure_index`.
    pub fn ensure_index(rc: u64) -> (r: Result<u64, PyFailure>)
        ensures
            r == io_result(rc),
    {
        io_check(rc)
    }

    /// `remove_index`: the return code of `ejdb_remove_index`.
    pub fn remove_index(rc: u64) -> (r: Result<u64, PyFailure>)
        ensures
            r == io_result(rc),
    {
        io_check(rc)
    }

    /// `remove_collection`: the return code of `ejdb_remove_collection`.
    pub fn remove_collection(rc: u64) -> (r: Result<u64, PyFailure>)
        ensures
            r == io_result(rc),
    {
        io_check(rc)
    }

    /// `online_backup`: the return code of `ejdb_online_backup` and the timestamp it wrote.
    pub fn online_backup(rc: u64, ts: u64) -> (r: Result<u64, PyFailure>)
        ensures
            r == (if rc != 0 { Err::<u64, PyFailure>(io_error(rc)) } else { Ok(ts) }),
    {
        if rc != 0 {
            Err(PyFailure { kind: PyErrorKind::IOError, rc })
        } else {
            Ok(ts)
        }
    }

    /// `exec`: the return code of `ejdb_exec`.
    pub fn exec(rc: u64) -> (r: Result<u64, PyFailure>)
        ensures
            r == io_result(rc),
    {
        io_check(rc)
    }
}

/// What reading a document gives: an `IOError` with the code of `from_jbl` for a value that is
/// no object or array, else the instructions that build the Python object.
pub open spec fn read_result(d: JblValue, r: Result<Vec<ValueInstr>, PyFailure>) -> bool {
    if is_jbl_container(d) {
        r matches Ok(p) && steps(p@) == py_plan(d)->Ok_0
    } else {
        r == Err::<Vec<ValueInstr>, PyFailure>(io_error(0))
    }
}

fn read(d: &JblValue) -> (r: Result<Vec<ValueInstr>, PyFailure>)
    requires
        !from_jbl_panics(*d),
    ensures
        read_result(*d, r),
{
    match from_jbl(d) {
        Ok(p) => Ok(p),
        Err(e) => Err(PyFailure { kind: PyErrorKind::IOError, rc: e }),
    }
}

/// The visitor of `exec`: a document that is an object or array is appended to the result
/// list as `(id, object)` and the visit goes on (`Ok`); any other document stops it with
/// the code of `from_jbl`.
pub fn document_visitor(id: i64, doc: &JblValue) -> (r: Result<(i64, Vec<ValueInstr>), u64>)
    requires
        !from_jbl_panics(*doc),
    ensures
        is_jbl_container(*doc) ==> (r matches Ok((i, p)) && i == id && steps(p@) == py_plan(*doc)->Ok_0),
        !is_jbl_container(*doc) ==> r == Err::<(i64, Vec<ValueInstr>), u64>(0),
{
    match from_jbl(doc) {
        Ok(p) => Ok((id, p)),
        Err(e) => Err(e),
    }
}

} // verus!
