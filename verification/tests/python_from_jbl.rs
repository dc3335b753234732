use ejdb2::jbl::{JblIter, JblValue};
use ejdb2::python::from_jbl::{from_jbl, from_jbl_failure, ReadFailure};
use ejdb2::value::ValueInstr;

fn obj(entries: Vec<(&str, JblValue)>) -> JblValue {
    JblValue::Object(JblIter {
        holder_rc: 0,
        init_rc: 0,
        entries: entries.into_iter().map(|(k, v)| (k.as_bytes().to_vec(), v)).collect(),
    })
}

fn arr(items: Vec<JblValue>) -> JblValue {
    JblValue::Array(JblIter { holder_rc: 0, init_rc: 0, entries: items.into_iter().map(|v| (Vec::new(), v)).collect() })
}

fn key(x: &str) -> ValueInstr {
    ValueInstr::Key(x.as_bytes().to_vec())
}

#[test]
fn object_with_scalars() {
    let v = obj(vec![
        ("serde_key", JblValue::I64(32)),
        ("s", JblValue::Str(String::from("str"))),
        ("f", JblValue::F64(0x4000_0000_0000_0000)),
        ("b", JblValue::Bool(5)),
        ("c", JblValue::Bool(0)),
    ]);
    assert_eq!(from_jbl_failure(&v), None);
    assert_eq!(
        from_jbl(&v),
        Ok(vec![
            ValueInstr::BeginDict,
            key("serde_key"),
            ValueInstr::Int(32),
            key("s"),
            ValueInstr::Str(String::from("str")),
            key("f"),
            ValueInstr::Float(0x4000_0000_0000_0000),
            key("b"),
            ValueInstr::Bool(true),
            key("c"),
            ValueInstr::Bool(false),
            ValueInstr::End,
        ])
    );
}

#[test]
fn nulls_are_dropped() {
    let v = obj(vec![("n", JblValue::Null), ("z", JblValue::NoneValue), ("i", JblValue::I64(1))]);
    assert_eq!(
        from_jbl(&v),
        Ok(vec![ValueInstr::BeginDict, key("n"), key("z"), key("i"), ValueInstr::Int(1), ValueInstr::End])
    );
    let a = arr(vec![JblValue::Null, JblValue::I64(2), JblValue::Other(99)]);
    assert_eq!(from_jbl(&a), Ok(vec![ValueInstr::BeginList, ValueInstr::Int(2), ValueInstr::End]));
}

#[test]
fn nested_containers() {
    let v = obj(vec![
        ("test_val", arr(vec![JblValue::I64(1), JblValue::I64(2), JblValue::I64(3)])),
        ("nested", obj(vec![("test", JblValue::Str(String::from("str")))])),
    ]);
    assert_eq!(
        from_jbl(&v),
        Ok(vec![
            ValueInstr::BeginDict,
            key("test_val"),
            ValueInstr::BeginList,
            ValueInstr::Int(1),
            ValueInstr::Int(2),
            ValueInstr::Int(3),
            ValueInstr::End,
            key("nested"),
            ValueInstr::BeginDict,
            key("test"),
            ValueInstr::Str(String::from("str")),
            ValueInstr::End,
            ValueInstr::End,
        ])
    );
}

#[test]
fn keys_end_at_the_first_nul() {
    let v = JblValue::Object(JblIter {
        holder_rc: 0,
        init_rc: 0,
        entries: vec![(vec![b'a', b'b', 0, b'c'], JblValue::I64(1)), (vec![0, b'x'], JblValue::I64(2))],
    });
    assert_eq!(
        from_jbl(&v),
        Ok(vec![
            ValueInstr::BeginDict,
            ValueInstr::Key(vec![b'a', b'b']),
            ValueInstr::Int(1),
            ValueInstr::Key(vec![]),
            ValueInstr::Int(2),
            ValueInstr::End,
        ])
    );
}

#[test]
fn long_keys() {
    let fits = JblValue::Object(JblIter { holder_rc: 0, init_rc: 0, entries: vec![(vec![b'k'; 255], JblValue::I64(1))] });
    assert_eq!(from_jbl_failure(&fits), None);
    let mut with_nul = vec![b'k'; 256];
    with_nul[10] = 0;
    let fits_nul = JblValue::Object(JblIter { holder_rc: 0, init_rc: 0, entries: vec![(with_nul, JblValue::I64(1))] });
    assert_eq!(from_jbl_failure(&fits_nul), None);
    assert_eq!(
        from_jbl(&fits_nul),
        Ok(vec![ValueInstr::BeginDict, ValueInstr::Key(vec![b'k'; 10]), ValueInstr::Int(1), ValueInstr::End])
    );
    let too_long = JblValue::Object(JblIter { holder_rc: 0, init_rc: 0, entries: vec![(vec![b'k'; 256], JblValue::I64(1))] });
    assert_eq!(from_jbl_failure(&too_long), Some(ReadFailure::KeyTooLong));
    let longer = JblValue::Object(JblIter { holder_rc: 0, init_rc: 0, entries: vec![(vec![0; 300], JblValue::I64(1))] });
    assert_eq!(from_jbl_failure(&longer), Some(ReadFailure::KeyTooLong));
}

#[test]
fn array_keys_are_not_read() {
    let a = JblValue::Array(JblIter { holder_rc: 0, init_rc: 0, entries: vec![(vec![b'k'; 400], JblValue::I64(1))] });
    assert_eq!(from_jbl_failure(&a), None);
    assert_eq!(from_jbl(&a), Ok(vec![ValueInstr::BeginList, ValueInstr::Int(1), ValueInstr::End]));
}

#[test]
fn iterator_failures() {
    let bad_holder = JblValue::Object(JblIter { holder_rc: 70014, init_rc: 0, entries: vec![] });
    assert_eq!(from_jbl_failure(&bad_holder), Some(ReadFailure::Code(70014)));
    let bad_init = JblValue::Array(JblIter { holder_rc: 0, init_rc: 70019, entries: vec![] });
    assert_eq!(from_jbl_failure(&bad_init), Some(ReadFailure::Code(70019)));
    let nested_bad = obj(vec![("a", bad_init)]);
    assert_eq!(from_jbl_failure(&nested_bad), Some(ReadFailure::Code(70019)));
}

#[test]
fn holder_failure_comes_before_init_failure() {
    let both = JblValue::Object(JblIter { holder_rc: 70014, init_rc: 70019, entries: vec![] });
    assert_eq!(from_jbl_failure(&both), Some(ReadFailure::Code(70014)));
}

#[test]
fn first_failing_entry_decides() {
    let bad = JblValue::Array(JblIter { holder_rc: 0, init_rc: 70019, entries: vec![] });
    let v = JblValue::Object(JblIter {
        holder_rc: 0,
        init_rc: 0,
        entries: vec![(b"a".to_vec(), bad), (vec![b'k'; 300], JblValue::I64(1))],
    });
    assert_eq!(from_jbl_failure(&v), Some(ReadFailure::Code(70019)));
    let w = JblValue::Object(JblIter {
        holder_rc: 0,
        init_rc: 0,
        entries: vec![
            (vec![b'k'; 300], JblValue::I64(1)),
            (b"a".to_vec(), JblValue::Array(JblIter { holder_rc: 0, init_rc: 70019, entries: vec![] })),
        ],
    });
    assert_eq!(from_jbl_failure(&w), Some(ReadFailure::KeyTooLong));
}

#[test]
fn jbl_scalars_are_refused_with_zero() {
    for v in vec![JblValue::I64(3), JblValue::Null, JblValue::Str(String::from("x")), JblValue::Bool(1)] {
        assert_eq!(from_jbl_failure(&v), None);
        assert_eq!(from_jbl(&v), Err(0));
    }
}

#[test]
fn read_plan_has_a_single_root() {
    let v = obj(vec![
        ("a", arr(vec![obj(vec![("b", arr(vec![]))]), JblValue::Null])),
        ("c", JblValue::I64(1)),
    ]);
    let plan = from_jbl(&v).unwrap();
    let mut depth = 0i64;
    for (i, step) in plan.iter().enumerate() {
        match step {
            ValueInstr::BeginDict | ValueInstr::BeginList => depth += 1,
            ValueInstr::End => depth -= 1,
            _ => {}
        }
        if i + 1 < plan.len() {
            assert!(depth >= 1);
        }
    }
    assert_eq!(depth, 0);
}
