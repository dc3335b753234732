use ejdb2::jbl::{JblIter, JblValue};
use ejdb2::json::{json_from_jbl, json_to_jbl, JsonOp, JsonValue};
use ejdb2::value::ValueInstr;

fn k(x: &str) -> Option<String> {
    Some(String::from(x))
}

fn member(name: &str, v: JsonValue) -> (String, JsonValue) {
    (String::from(name), v)
}

fn obj(entries: Vec<(&str, JblValue)>) -> JblValue {
    JblValue::Object(JblIter {
        holder_rc: 0,
        init_rc: 0,
        entries: entries.into_iter().map(|(k, v)| (k.as_bytes().to_vec(), v)).collect(),
    })
}

fn arr(items: Vec<JblValue>) -> JblValue {
    JblValue::Array(JblIter { holder_rc: 0, init_rc: 0, entries: items.into_iter().map(|v| (Vec::new(), v)).collect() })
}

#[test]
fn the_example_document_becomes_jbl_steps() {
    let data = JsonValue::Object(vec![
        member("serde_key", JsonValue::Int(32)),
        member("test_val", JsonValue::Array(vec![JsonValue::Int(1), JsonValue::Int(2), JsonValue::Int(3)])),
        member("nested", JsonValue::Object(vec![member("test", JsonValue::Str(String::from("str")))])),
    ]);
    assert_eq!(
        json_to_jbl(&data),
        Ok(vec![
            JsonOp::BeginObject,
            JsonOp::SetInt64 { key: k("serde_key"), value: 32 },
            JsonOp::BeginArray,
            JsonOp::SetInt64 { key: None, value: 1 },
            JsonOp::SetInt64 { key: None, value: 2 },
            JsonOp::SetInt64 { key: None, value: 3 },
            JsonOp::End { key: k("test_val") },
            JsonOp::BeginObject,
            JsonOp::SetString { key: k("test"), text: String::from("str") },
            JsonOp::End { key: k("nested") },
            JsonOp::End { key: None },
        ])
    );
}

#[test]
fn nulls_bools_and_floats_are_kept() {
    let data = JsonValue::Array(vec![JsonValue::Null, JsonValue::Bool(true), JsonValue::Float(0x3ff8_0000_0000_0000)]);
    assert_eq!(
        json_to_jbl(&data),
        Ok(vec![
            JsonOp::BeginArray,
            JsonOp::SetNull { key: None },
            JsonOp::SetBool { key: None, value: true },
            JsonOp::SetF64 { key: None, bits: 0x3ff8_0000_0000_0000 },
            JsonOp::End { key: None },
        ])
    );
}

#[test]
fn a_scalar_or_a_nul_is_refused() {
    assert_eq!(json_to_jbl(&JsonValue::Int(5)), Err(0));
    assert_eq!(json_to_jbl(&JsonValue::Str(String::from("a"))), Err(0));
    let nul_text = JsonValue::Array(vec![JsonValue::Str(String::from("a\0b"))]);
    assert_eq!(json_to_jbl(&nul_text), Err(0));
    let nul_name = JsonValue::Object(vec![member("a\0", JsonValue::Null)]);
    assert_eq!(json_to_jbl(&nul_name), Err(0));
}

#[test]
fn reading_keeps_nulls_and_whole_keys() {
    let doc = obj(vec![
        ("n", JblValue::Null),
        ("b", JblValue::Bool(2)),
        ("a\0b", arr(vec![JblValue::I64(1), JblValue::Null])),
    ]);
    assert_eq!(
        json_from_jbl(&doc),
        Ok(vec![
            ValueInstr::BeginDict,
            ValueInstr::Key(b"n".to_vec()),
            ValueInstr::Null,
            ValueInstr::Key(b"b".to_vec()),
            ValueInstr::Bool(true),
            ValueInstr::Key(b"a\0b".to_vec()),
            ValueInstr::BeginList,
            ValueInstr::Int(1),
            ValueInstr::Null,
            ValueInstr::End,
            ValueInstr::End,
        ])
    );
}

#[test]
fn reading_reports_iterator_failures_and_untyped_values() {
    let failed = JblValue::Object(JblIter { holder_rc: 0, init_rc: 70009, entries: vec![] });
    assert_eq!(json_from_jbl(&failed), Err(70009));
    let inner = arr(vec![JblValue::Array(JblIter { holder_rc: 70003, init_rc: 5, entries: vec![] })]);
    assert_eq!(json_from_jbl(&inner), Err(70003));
    assert_eq!(json_from_jbl(&JblValue::NoneValue), Err(0));
    assert_eq!(json_from_jbl(&JblValue::Other(9)), Err(0));
    assert_eq!(json_from_jbl(&JblValue::Bool(0)), Ok(vec![ValueInstr::Bool(false)]));
}
