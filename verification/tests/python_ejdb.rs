use ejdb2::python::ejdb::{document_visitor, json_document, JsonDocument, PyErrorKind, PyFailure, EJDB};
use ejdb2::jbl::{JblIter, JblValue};
use ejdb2::value::ValueInstr;
use ejdb2::python::query::{EJDBQuery, PlaceholderJson, PlaceholderValue};
use ejdb2::python::to_jbl::{JblInstr, PyValue};

fn io(rc: u64) -> PyFailure {
    PyFailure { kind: PyErrorKind::IOError, rc }
}

fn value(rc: u64) -> PyFailure {
    PyFailure { kind: PyErrorKind::ValueError, rc }
}

fn empty_obj() -> JblValue {
    JblValue::Object(JblIter { holder_rc: 0, init_rc: 0, entries: vec![] })
}

#[test]
fn simple_calls_raise_io_errors() {
    assert_eq!(EJDB::init(0), Ok(0));
    assert_eq!(EJDB::init(70001), Err(io(70001)));
    assert_eq!(EJDB::open(0), Ok(0));
    assert_eq!(EJDB::open(70005), Err(io(70005)));
    assert_eq!(EJDB::close(0), Ok(0));
    assert_eq!(EJDB::close(70010), Err(io(70010)));
    assert_eq!(EJDB::del(0), Ok(0));
    assert_eq!(EJDB::del(75001), Err(io(75001)));
    assert_eq!(EJDB::rename_collection(0), Ok(0));
    assert_eq!(EJDB::rename_collection(75002), Err(io(75002)));
    assert_eq!(EJDB::ensure_index(0), Ok(0));
    assert_eq!(EJDB::ensure_index(75003), Err(io(75003)));
    assert_eq!(EJDB::remove_index(0), Ok(0));
    assert_eq!(EJDB::remove_index(75004), Err(io(75004)));
    assert_eq!(EJDB::remove_collection(0), Ok(0));
    assert_eq!(EJDB::remove_collection(75005), Err(io(75005)));
    assert_eq!(EJDB::exec(0), Ok(0));
    assert_eq!(EJDB::exec(87001), Err(io(87001)));
    assert_eq!(EJDB::online_backup(0, 99), Ok(99));
    assert_eq!(EJDB::online_backup(70002, 99), Err(io(70002)));
}

#[test]
fn json_documents() {
    assert_eq!(json_document(&PyValue::Str(String::from("{}"))), JsonDocument::Text(String::from("{}")));
    assert_eq!(json_document(&PyValue::Int(4)), JsonDocument::Rejected(0));
    assert_eq!(
        json_document(&PyValue::Dict(vec![(PyValue::Str(String::from("a")), PyValue::Int(1))])),
        JsonDocument::Built(vec![JblInstr::SetInt64 { key: Some(String::from("a")), value: 1 }])
    );
}

#[test]
fn put_new_errors() {
    assert_eq!(EJDB::put_new(Ok(()), Some((0, 12))), Ok(12));
    assert_eq!(EJDB::put_new(Err(86001), None), Err(value(86001)));
    assert_eq!(EJDB::put_new(Err(0), None), Err(value(0)));
    assert_eq!(EJDB::put_new(Ok(()), Some((70004, 1))), Err(io(70004)));
}

#[test]
fn put_errors_depend_on_the_argument() {
    let text = PyValue::Str(String::from("{"));
    let num = PyValue::Int(1);
    assert_eq!(EJDB::put(&text, Err(86001), None), Err(io(86001)));
    assert_eq!(EJDB::put(&num, Err(0), None), Err(value(0)));
    assert_eq!(EJDB::put(&text, Ok(()), Some(0)), Ok(0));
    assert_eq!(EJDB::put(&text, Ok(()), Some(70004)), Err(io(70004)));
}

#[test]
fn patch_errors_are_io_errors() {
    assert_eq!(EJDB::patch(Err(86001), None), Err(io(86001)));
    assert_eq!(EJDB::patch(Err(0), None), Err(io(0)));
    assert_eq!(EJDB::patch(Ok(()), Some(0)), Ok(0));
    assert_eq!(EJDB::patch(Ok(()), Some(75001)), Err(io(75001)));
}

#[test]
fn get_and_info() {
    let doc = empty_obj();
    assert_eq!(EJDB::get(0, Some(&doc)), Ok(vec![ValueInstr::BeginDict, ValueInstr::End]));
    assert_eq!(EJDB::get(0, None), Err(io(0)));
    assert_eq!(EJDB::get(75001, None), Err(io(75001)));
    assert_eq!(EJDB::get(0, Some(&JblValue::I64(1))), Err(io(0)));
    assert_eq!(EJDB::info(0, Some(&doc)), Ok(vec![ValueInstr::BeginDict, ValueInstr::End]));
    assert_eq!(EJDB::info(70002, None), Err(io(70002)));
}

#[test]
fn visitor_appends_or_stops() {
    let doc = JblValue::Array(JblIter { holder_rc: 0, init_rc: 0, entries: vec![(vec![], JblValue::I64(7))] });
    assert_eq!(
        document_visitor(3, &doc),
        Ok((3, vec![ValueInstr::BeginList, ValueInstr::Int(7), ValueInstr::End]))
    );
    assert_eq!(document_visitor(3, &JblValue::Str(String::from("x"))), Err(0));
}

#[test]
fn query_text_and_results() {
    let q = EJDBQuery::new("test", "/* | limit :limit");
    assert_eq!(q.collection(), "test");
    assert_eq!(q.query(), "/* | limit :limit");
    assert_eq!(EJDBQuery::init(0), Ok(0));
    assert_eq!(EJDBQuery::init(87001), Err(io(87001)));
    assert_eq!(EJDBQuery::limit(0, 10), Ok(10));
    assert_eq!(EJDBQuery::limit(87001, 10), Err(io(87001)));
    assert_eq!(EJDBQuery::set_regexp(87002), Err(io(87002)));
    assert_eq!(EJDBQuery::set_null(0), Ok(0));
    assert_eq!(EJDBQuery::set_placeholder_json(86001, None), Err(value(86001)));
    assert_eq!(EJDBQuery::set_placeholder_json(0, Some(87003)), Err(io(87003)));
    assert_eq!(EJDBQuery::set_placeholder_json(0, Some(0)), Ok(0));
}

#[test]
fn placeholder_values() {
    assert_eq!(EJDBQuery::placeholder_value(&PyValue::Int(3)), Some(PlaceholderValue::I64(3)));
    assert_eq!(EJDBQuery::placeholder_value(&PyValue::Bool(true)), Some(PlaceholderValue::I64(1)));
    assert_eq!(EJDBQuery::placeholder_value(&PyValue::Bool(false)), Some(PlaceholderValue::I64(0)));
    assert_eq!(
        EJDBQuery::placeholder_value(&PyValue::Float(2.5f64.to_bits())),
        Some(PlaceholderValue::F64(2.5f64.to_bits()))
    );
    assert_eq!(
        EJDBQuery::placeholder_value(&PyValue::Str(String::from("x"))),
        Some(PlaceholderValue::Str(String::from("x")))
    );
    assert_eq!(EJDBQuery::placeholder_value(&PyValue::Other), None);
    assert_eq!(EJDBQuery::placeholder_value(&PyValue::List(vec![])), None);
    assert_eq!(EJDBQuery::set_placeholder(None), Ok(0));
    assert_eq!(EJDBQuery::set_placeholder(Some(0)), Ok(0));
    assert_eq!(EJDBQuery::set_placeholder(Some(87002)), Err(io(87002)));
}

#[test]
fn placeholder_json_sources() {
    assert_eq!(
        EJDBQuery::placeholder_json(&PyValue::Str(String::from("[1]"))),
        PlaceholderJson::Text(String::from("[1]"))
    );
    assert_eq!(
        EJDBQuery::placeholder_json(&PyValue::List(vec![PyValue::Int(1)])),
        PlaceholderJson::Built(vec![JblInstr::SetInt64 { key: None, value: 1 }])
    );
}

#[test]
fn only_a_failed_put_destroys_the_document() {
    assert!(!EJDB::put_frees(None));
    assert!(!EJDB::put_frees(Some(0)));
    assert!(EJDB::put_frees(Some(70004)));
}

#[test]
fn only_a_successful_patch_destroys_the_document() {
    assert!(!EJDB::patch_frees(None));
    assert!(EJDB::patch_frees(Some(0)));
    assert!(!EJDB::patch_frees(Some(75001)));
}
