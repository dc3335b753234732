use ejdb2::builder::{BuildAction, Placement, ValueBuilder};
use ejdb2::jbl::{JblIter, JblValue};
use ejdb2::json::json_from_jbl;
use ejdb2::python::from_jbl::from_jbl;
use ejdb2::value::ValueInstr;
use std::collections::BTreeMap;

#[derive(Debug, PartialEq)]
enum Tree {
    Scalar(String),
    Dict(BTreeMap<Vec<u8>, Tree>),
    List(Vec<Tree>),
}

fn put(open: &mut Vec<Tree>, result: &mut Option<Tree>, p: Placement, t: Tree) {
    match (p, open.last_mut()) {
        (Placement::Under(k), Some(Tree::Dict(m))) => {
            m.insert(k, t);
        }
        (Placement::Append, Some(Tree::List(l))) => l.push(t),
        (Placement::Root, _) => *result = Some(t),
        _ => {}
    }
}

fn build(plan: &[ValueInstr]) -> Option<Tree> {
    let mut b = ValueBuilder::new();
    let mut open: Vec<Tree> = Vec::new();
    let mut result = None;
    for instr in plan {
        match b.step(instr) {
            BuildAction::OpenDict => open.push(Tree::Dict(BTreeMap::new())),
            BuildAction::OpenList => open.push(Tree::List(Vec::new())),
            BuildAction::KeyNoted => {}
            BuildAction::Place(p) => put(&mut open, &mut result, p, Tree::Scalar(format!("{:?}", instr))),
            BuildAction::Close(p) => {
                let t = open.pop().unwrap();
                put(&mut open, &mut result, p, t);
            }
            BuildAction::Invalid => return None,
        }
    }
    result
}

fn obj(entries: Vec<(&[u8], JblValue)>) -> JblValue {
    JblValue::Object(JblIter { holder_rc: 0, init_rc: 0, entries: entries.into_iter().map(|(k, v)| (k.to_vec(), v)).collect() })
}

fn arr(items: Vec<JblValue>) -> JblValue {
    JblValue::Array(JblIter { holder_rc: 0, init_rc: 0, entries: items.into_iter().map(|v| (Vec::new(), v)).collect() })
}

fn scalar(i: ValueInstr) -> Tree {
    Tree::Scalar(format!("{:?}", i))
}

fn doc() -> JblValue {
    obj(vec![
        (b"a", JblValue::I64(1)),
        (b"n", JblValue::Null),
        (b"a", JblValue::I64(2)),
        (b"k\0x", arr(vec![JblValue::Null, JblValue::Bool(3), JblValue::NoneValue])),
    ])
}

#[test]
fn python_reading_builds_the_python_value() {
    let mut m = BTreeMap::new();
    m.insert(b"a".to_vec(), scalar(ValueInstr::Int(2)));
    m.insert(b"k".to_vec(), Tree::List(vec![scalar(ValueInstr::Bool(true))]));
    assert_eq!(build(&from_jbl(&doc()).unwrap()), Some(Tree::Dict(m)));
}

#[test]
fn json_reading_builds_the_json_value() {
    let mut m = BTreeMap::new();
    m.insert(b"a".to_vec(), scalar(ValueInstr::Int(2)));
    m.insert(b"n".to_vec(), scalar(ValueInstr::Null));
    m.insert(b"k\0x".to_vec(), Tree::List(vec![scalar(ValueInstr::Null), scalar(ValueInstr::Bool(true))]));
    assert_eq!(build(&json_from_jbl(&doc()).unwrap()), Some(Tree::Dict(m)));
}
