use ejdb2::ejdb::{document_visitor, text_from_jbl, Rendered, EJDB};
use ejdb2::ejdbquery::EJDBQuery;

#[test]
fn init_and_open_report_their_codes() {
    assert_eq!(EJDB::init(0), Ok(()));
    assert_eq!(EJDB::init(70001), Err(70001));
    assert_eq!(EJDB::open(0), Ok(()));
    assert_eq!(EJDB::open(70005), Err(70005));
}

#[test]
fn put_new_returns_the_new_id() {
    assert_eq!(EJDB::put_new(Ok(()), Some((0, 42))), Ok(42));
    assert!(!EJDB::put_new_frees(Some((0, 42))));
}

#[test]
fn put_new_reports_a_failed_conversion() {
    assert_eq!(EJDB::put_new(Err(86001), None), Err(86001));
    assert!(!EJDB::put_new_frees(None));
}

#[test]
fn put_new_reports_a_failed_put() {
    assert_eq!(EJDB::put_new(Ok(()), Some((70004, 7))), Err(70004));
    assert!(EJDB::put_new_frees(Some((70004, 7))));
}

#[test]
fn close_forgets_the_handle_only_on_success() {
    assert!(EJDB::close(0));
    assert!(!EJDB::close(70001));
}

#[test]
fn get_returns_the_converted_document() {
    let d = Rendered { rc: 0, text: String::from("{\"a\":1}") };
    assert_eq!(EJDB::get(0, true, Some(text_from_jbl(d))), Ok(String::from("{\"a\":1}")));
    assert!(EJDB::get_frees(0, true));
}

#[test]
fn get_reports_a_missing_document_as_zero() {
    assert_eq!(EJDB::get::<String>(0, false, None), Err(0));
    assert!(!EJDB::get_frees(0, false));
}

#[test]
fn get_reports_fetch_and_conversion_failures() {
    assert_eq!(EJDB::get::<String>(75001, false, None), Err(75001));
    assert!(EJDB::get_frees(75001, false));
    let d = Rendered { rc: 70013, text: String::new() };
    assert_eq!(EJDB::get(0, true, Some(text_from_jbl(d))), Err(70013));
}

#[test]
fn info_returns_or_reports() {
    let d = Rendered { rc: 0, text: String::from("{\"version\":\"2.61\"}") };
    assert_eq!(EJDB::info(0, Some(text_from_jbl(d))), Ok(String::from("{\"version\":\"2.61\"}")));
    assert_eq!(EJDB::info::<String>(70002, None), Err(70002));
    let bad = Rendered { rc: 70013, text: String::new() };
    assert_eq!(EJDB::info(0, Some(text_from_jbl(bad))), Err(70013));
}

#[test]
fn online_backup_returns_the_timestamp() {
    assert_eq!(EJDB::online_backup(0, 1_600_000_000_000), Ok(1_600_000_000_000));
    assert_eq!(EJDB::online_backup(70002, 5), Err(70002));
}

#[test]
fn exec_reports_its_code() {
    assert_eq!(EJDB::exec(0), Ok(()));
    assert_eq!(EJDB::exec(87001), Err(87001));
}

#[test]
fn visitor_collects_or_stops() {
    assert_eq!(document_visitor(7, Ok(String::from("{}"))), Ok((7, String::from("{}"))));
    assert_eq!(document_visitor::<String>(7, Err(70013)), Err(70013));
}

#[test]
fn query_keeps_its_text_and_collection() {
    let q = EJDBQuery::new("test", "/* | limit :limit skip :skip ");
    assert_eq!(q.collection(), "test");
    assert_eq!(q.query(), "/* | limit :limit skip :skip ");
}

#[test]
fn query_results() {
    assert_eq!(EJDBQuery::init(0), Ok(()));
    assert_eq!(EJDBQuery::init(87001), Err(87001));
    assert_eq!(EJDBQuery::limit(0, 3), Ok(3));
    assert_eq!(EJDBQuery::limit(70004, 3), Err(70004));
    assert_eq!(EJDBQuery::set_regexp(0), Ok(()));
    assert_eq!(EJDBQuery::set_regexp(87002), Err(87002));
    assert_eq!(EJDBQuery::set_null(0), Ok(()));
    assert_eq!(EJDBQuery::set_null(87002), Err(87002));
    assert_eq!(EJDBQuery::set_placeholder(0), Ok(()));
    assert_eq!(EJDBQuery::set_placeholder(87002), Err(87002));
}

#[test]
fn set_placeholder_json_first_failure_wins() {
    assert_eq!(EJDBQuery::set_placeholder_json(0, Some(0)), Ok(()));
    assert_eq!(EJDBQuery::set_placeholder_json(86001, None), Err(86001));
    assert_eq!(EJDBQuery::set_placeholder_json(0, Some(87003)), Err(87003));
}
