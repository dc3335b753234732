use ejdb2::builder::{BuildAction, Placement, ValueBuilder};
use ejdb2::jbl::{JblIter, JblValue};
use ejdb2::python::from_jbl::from_jbl;
use ejdb2::value::ValueInstr;

fn replay(plan: &[ValueInstr]) -> Vec<BuildAction> {
    let mut b = ValueBuilder::new();
    plan.iter().map(|i| b.step(i)).collect()
}

#[test]
fn dict_entries_go_under_their_keys() {
    let plan = vec![
        ValueInstr::BeginDict,
        ValueInstr::Key(b"a".to_vec()),
        ValueInstr::Int(1),
        ValueInstr::Key(b"n".to_vec()),
        ValueInstr::Key(b"b".to_vec()),
        ValueInstr::BeginList,
        ValueInstr::Int(2),
        ValueInstr::End,
        ValueInstr::End,
    ];
    assert_eq!(
        replay(&plan),
        vec![
            BuildAction::OpenDict,
            BuildAction::KeyNoted,
            BuildAction::Place(Placement::Under(b"a".to_vec())),
            BuildAction::KeyNoted,
            BuildAction::KeyNoted,
            BuildAction::OpenList,
            BuildAction::Place(Placement::Append),
            BuildAction::Close(Placement::Under(b"b".to_vec())),
            BuildAction::Close(Placement::Root),
        ]
    );
}

#[test]
fn a_value_with_no_key_pending_is_discarded() {
    let plan = vec![ValueInstr::BeginDict, ValueInstr::Key(b"a".to_vec()), ValueInstr::Int(1), ValueInstr::Int(2), ValueInstr::End];
    assert_eq!(replay(&plan)[3], BuildAction::Place(Placement::Discard));
}

#[test]
fn instructions_that_cannot_apply() {
    let mut b = ValueBuilder::new();
    assert_eq!(b.step(&ValueInstr::End), BuildAction::Invalid);
    assert_eq!(b.step(&ValueInstr::Key(b"k".to_vec())), BuildAction::Invalid);
    assert_eq!(b.step(&ValueInstr::Int(3)), BuildAction::Place(Placement::Root));
    assert_eq!(b.depth(), 0);
    assert_eq!(b.step(&ValueInstr::BeginList), BuildAction::OpenList);
    assert_eq!(b.step(&ValueInstr::Key(b"k".to_vec())), BuildAction::Invalid);
    assert_eq!(b.depth(), 1);
}

#[test]
fn a_read_plan_replays_to_one_result() {
    let v = JblValue::Object(JblIter {
        holder_rc: 0,
        init_rc: 0,
        entries: vec![
            (b"x".to_vec(), JblValue::Array(JblIter { holder_rc: 0, init_rc: 0, entries: vec![(vec![], JblValue::I64(1))] })),
            (b"y".to_vec(), JblValue::Null),
        ],
    });
    let plan = from_jbl(&v).unwrap();
    let actions = replay(&plan);
    let roots = actions
        .iter()
        .filter(|a| matches!(a, BuildAction::Close(Placement::Root) | BuildAction::Place(Placement::Root)))
        .count();
    assert_eq!(roots, 1);
    assert_eq!(actions.last(), Some(&BuildAction::Close(Placement::Root)));
    assert!(!actions.contains(&BuildAction::Invalid));
}
