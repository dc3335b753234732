use ejdb2::python::to_jbl::{to_jbl, to_jbl_fails, JblInstr, PyValue};

fn s(x: &str) -> PyValue {
    PyValue::Str(String::from(x))
}

fn k(x: &str) -> Option<String> {
    Some(String::from(x))
}

fn dict(es: Vec<(PyValue, PyValue)>) -> PyValue {
    PyValue::Dict(es)
}

#[test]
fn dict_of_scalars() {
    let v = dict(vec![
        (s("serde_key"), PyValue::Int(32)),
        (s("name"), s("str")),
        (s("ratio"), PyValue::Float(0x3ff8_0000_0000_0000)),
    ]);
    assert!(!to_jbl_fails(&v));
    assert_eq!(
        to_jbl(&v),
        Ok(vec![
            JblInstr::SetInt64 { key: k("serde_key"), value: 32 },
            JblInstr::SetString { key: k("name"), text: String::from("str") },
            JblInstr::SetF64 { key: k("ratio"), bits: 0x3ff8_0000_0000_0000 },
        ])
    );
}

#[test]
fn bools_are_stored_as_integers() {
    let v = dict(vec![(s("t"), PyValue::Bool(true)), (s("f"), PyValue::Bool(false))]);
    assert_eq!(
        to_jbl(&v),
        Ok(vec![
            JblInstr::SetInt64 { key: k("t"), value: 1 },
            JblInstr::SetInt64 { key: k("f"), value: 0 },
        ])
    );
}

#[test]
fn nested_dict_keeps_its_key() {
    let v = dict(vec![(s("nested"), dict(vec![(s("test"), s("str"))]))]);
    assert_eq!(
        to_jbl(&v),
        Ok(vec![
            JblInstr::BeginNested,
            JblInstr::SetString { key: k("test"), text: String::from("str") },
            JblInstr::EndNested { key: k("nested") },
        ])
    );
}

#[test]
fn nested_list_loses_its_key() {
    let v = dict(vec![(
        s("test_val"),
        PyValue::List(vec![PyValue::Int(1), PyValue::Int(2), PyValue::Int(3)]),
    )]);
    assert_eq!(
        to_jbl(&v),
        Ok(vec![
            JblInstr::BeginNested,
            JblInstr::SetInt64 { key: None, value: 1 },
            JblInstr::SetInt64 { key: None, value: 2 },
            JblInstr::SetInt64 { key: None, value: 3 },
            JblInstr::EndNested { key: None },
        ])
    );
}

#[test]
fn list_and_set_items_have_no_key() {
    let items = vec![s("a"), PyValue::Bool(true), PyValue::Float(0)];
    let expected = vec![
        JblInstr::SetString { key: None, text: String::from("a") },
        JblInstr::SetInt64 { key: None, value: 1 },
        JblInstr::SetF64 { key: None, bits: 0 },
    ];
    assert_eq!(to_jbl(&PyValue::List(vec![s("a"), PyValue::Bool(true), PyValue::Float(0)])), Ok(expected));
    let expected2 = vec![
        JblInstr::SetString { key: None, text: String::from("a") },
        JblInstr::SetInt64 { key: None, value: 1 },
        JblInstr::SetF64 { key: None, bits: 0 },
    ];
    assert_eq!(to_jbl(&PyValue::PySet(items)), Ok(expected2));
}

#[test]
fn list_in_list_and_dict_in_list() {
    let v = PyValue::List(vec![
        PyValue::List(vec![PyValue::Int(5)]),
        dict(vec![(s("x"), PyValue::Int(6))]),
    ]);
    assert_eq!(
        to_jbl(&v),
        Ok(vec![
            JblInstr::BeginNested,
            JblInstr::SetInt64 { key: None, value: 5 },
            JblInstr::EndNested { key: None },
            JblInstr::BeginNested,
            JblInstr::SetInt64 { key: k("x"), value: 6 },
            JblInstr::EndNested { key: None },
        ])
    );
}

#[test]
fn empty_containers() {
    assert_eq!(to_jbl(&dict(vec![])), Ok(vec![]));
    assert_eq!(to_jbl(&PyValue::List(vec![])), Ok(vec![]));
    assert_eq!(to_jbl(&PyValue::PySet(vec![])), Ok(vec![]));
}

#[test]
fn non_containers_are_refused_with_zero() {
    assert!(!to_jbl_fails(&PyValue::Int(1)));
    assert_eq!(to_jbl(&PyValue::Int(1)), Err(0));
    assert_eq!(to_jbl(&s("{}")), Err(0));
    assert_eq!(to_jbl(&PyValue::Other), Err(0));
    assert_eq!(to_jbl(&PyValue::BigInt), Err(0));
    assert_eq!(to_jbl(&PyValue::Float(1)), Err(0));
}

#[test]
fn failures_inside_containers() {
    // a value of no supported type
    assert!(to_jbl_fails(&dict(vec![(s("n"), PyValue::Other)])));
    // an int beyond 64 bits
    assert!(to_jbl_fails(&PyValue::List(vec![PyValue::BigInt])));
    // a key that is not a string
    assert!(to_jbl_fails(&dict(vec![(PyValue::Int(1), PyValue::Int(2))])));
    // NUL in a key or in a string value
    assert!(to_jbl_fails(&dict(vec![(s("a\0b"), PyValue::Int(2))])));
    assert!(to_jbl_fails(&dict(vec![(s("a"), s("x\0"))])));
    assert!(to_jbl_fails(&PyValue::List(vec![s("\0")])));
    // a set inside a set, where only lists are looked for
    assert!(to_jbl_fails(&PyValue::PySet(vec![PyValue::PySet(vec![])])));
    // but a set inside a list or a dict is fine
    assert!(!to_jbl_fails(&PyValue::List(vec![PyValue::PySet(vec![])])));
    assert!(!to_jbl_fails(&dict(vec![(s("s"), PyValue::PySet(vec![PyValue::Int(1)]))])));
    // a failure deep inside
    assert!(to_jbl_fails(&dict(vec![(s("a"), PyValue::List(vec![dict(vec![(s("b"), PyValue::Other)])]))])));
}

fn replay_depths(plan: &[JblInstr]) -> Vec<i64> {
    let mut depth = 0i64;
    let mut out = Vec::new();
    for i in plan {
        match i {
            JblInstr::BeginNested => depth += 1,
            JblInstr::EndNested { .. } => depth -= 1,
            _ => {}
        }
        out.push(depth);
    }
    out
}

#[test]
fn deep_plan_is_balanced() {
    let v = dict(vec![
        (s("a"), PyValue::List(vec![dict(vec![(s("b"), PyValue::PySet(vec![PyValue::Int(1)]))])])),
        (s("c"), dict(vec![(s("d"), dict(vec![]))])),
        (s("e"), PyValue::Int(2)),
    ]);
    let plan = to_jbl(&v).unwrap();
    let depths = replay_depths(&plan);
    assert!(depths.iter().all(|d| *d >= 0));
    assert_eq!(depths.last(), Some(&0));
    assert_eq!(plan.len(), 12);
}
