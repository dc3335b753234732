use vstd::prelude::*;
use crate::builder::{place_in, PlacementView};
use crate::jbl::{JblIter, JblValue};
use crate::json::{container_json, entries_json, json_read_plan, lemma_int_item_read, lemma_int_member_read, value_json};
use crate::replay::{
    apply, empty_partial, frames, initial, lemma_frames_drop_last, lemma_open_close, lemma_run_concat,
    lemma_run_single, place_value, run, Built, Partial, Replay,
};
use crate::value::ValueStep;

verus! {

/// Whether reading a JBL value as JSON gives a value: all but values of no JSON type do.
pub open spec fn json_gives_value(v: JblValue) -> bool {
    !(v is NoneValue || v is Other)
}

/// The JSON value read from a JBL value that gives one: null, a bool (true when its integer is
/// not 0), a number, a string, an object of the members or an array of the items.
pub open spec fn json_tree(v: JblValue) -> Built
    decreases v, 2int,
{
    match v {
        JblValue::Bool(i) => Built::Scalar(ValueStep::Bool(i != 0i32)),
        JblValue::I64(i) => Built::Scalar(ValueStep::Int(i)),
        JblValue::F64(b) => Built::Scalar(ValueStep::Float(b)),
        JblValue::Str(s) => Built::Scalar(ValueStep::Str(s@)),
        JblValue::Object(it) => json_container(it, true),
        JblValue::Array(it) => json_container(it, false),
        _ => Built::Scalar(ValueStep::Null),
    }
}

/// An object (`keyed`) of each member that gives a value under its whole key, of two members
/// under one key the later one; or an array of each item that gives a value, in order.
pub open spec fn json_container(it: JblIter, keyed: bool) -> Built
    decreases it, 1int,
{
    if keyed {
        Built::Dict(json_members(it.entries@))
    } else {
        Built::List(json_items(it.entries@))
    }
}

pub open spec fn json_members(es: Seq<(Vec<u8>, JblValue)>) -> Map<Seq<u8>, Built>
    decreases es, 0int,
{
    if es.len() == 0 {
        Map::empty()
    } else if json_gives_value(es.last().1) {
        json_members(es.drop_last()).insert(es.last().0@, json_tree(es.last().1))
    } else {
        json_members(es.drop_last())
    }
}

pub open spec fn json_items(es: Seq<(Vec<u8>, JblValue)>) -> Seq<Built>
    decreases es, 0int,
{
    if es.len() == 0 {
        Seq::empty()
    } else if json_gives_value(es.last().1) {
        json_items(es.drop_last()).push(json_tree(es.last().1))
    } else {
        json_items(es.drop_last())
    }
}

/// The key still pending in an object after its members: that of the last member when it gave
/// no value.
pub open spec fn json_pending_key(es: Seq<(Vec<u8>, JblValue)>) -> Option<Seq<u8>> {
    if es.len() == 0 || json_gives_value(es.last().1) {
        None
    } else {
        Some(es.last().0@)
    }
}

/// What a container holds once its entries are built.
pub open spec fn json_filled(es: Seq<(Vec<u8>, JblValue)>, keyed: bool) -> Partial {
    if keyed {
        Partial { dict: true, key: json_pending_key(es), members: json_members(es), items: Seq::empty() }
    } else {
        Partial { dict: false, key: None, members: Map::empty(), items: json_items(es) }
    }
}

proof fn lemma_json_value_builds(st: Replay, v: JblValue)
    requires
        st.ok,
        value_json(v) is Ok,
    ensures
        run(st, value_json(v)->Ok_0) == (if json_gives_value(v) { place_value(st, json_tree(v)) } else { st }),
    decreases v, 2int,
{
    match v {
        JblValue::Object(it) => lemma_json_container_builds(st, it, true),
        JblValue::Array(it) => lemma_json_container_builds(st, it, false),
        JblValue::Null | JblValue::Bool(_) | JblValue::I64(_) | JblValue::F64(_) | JblValue::Str(_) => {
            let x = value_json(v)->Ok_0[0];
            assert(value_json(v)->Ok_0 =~= seq![x]);
            lemma_run_single(st, x);
        },
        _ => {
            assert(run(st, Seq::<ValueStep>::empty()) == st);
        },
    }
}

proof fn lemma_json_container_builds(st: Replay, it: JblIter, keyed: bool)
    requires
        st.ok,
        container_json(it, keyed) is Ok,
    ensures
        run(st, container_json(it, keyed)->Ok_0) == place_value(st, json_container(it, keyed)),
    decreases it, 1int,
{
    let es = it.entries@;
    let opened = Replay { open: st.open.push(empty_partial(keyed)), result: st.result, ok: true };
    lemma_json_entries_build(opened, es, keyed);
    assert(opened.open.drop_last() =~= st.open);
    lemma_open_close(st, keyed, entries_json(es, keyed)->Ok_0, json_filled(es, keyed));
}

proof fn lemma_json_entries_build(st: Replay, es: Seq<(Vec<u8>, JblValue)>, keyed: bool)
    requires
        st.ok,
        st.open.len() > 0,
        st.open.last() == empty_partial(keyed),
        entries_json(es, keyed) is Ok,
    ensures
        run(st, entries_json(es, keyed)->Ok_0) == (Replay {
            open: st.open.drop_last().push(json_filled(es, keyed)),
            result: st.result,
            ok: true,
        }),
    decreases es, 0int,
{
    if es.len() == 0 {
        assert(run(st, Seq::<ValueStep>::empty()) == st);
        assert(st.open.drop_last().push(st.open.last()) =~= st.open);
    } else {
        let e = es.last();
        let a = entries_json(es.drop_last(), keyed)->Ok_0;
        let b = value_json(e.1)->Ok_0;
        lemma_json_entries_build(st, es.drop_last(), keyed);
        let s1 = run(st, a);
        lemma_frames_drop_last(s1.open);
        if keyed {
            let k = e.0@;
            assert(entries_json(es, keyed)->Ok_0 == a + seq![ValueStep::Key(k)] + b);
            lemma_run_concat(st, a, seq![ValueStep::Key(k)]);
            lemma_run_single(s1, ValueStep::Key(k));
            let s2 = apply(s1, ValueStep::Key(k));
            assert(s2.open.last() == Partial {
                dict: true,
                key: Some(k),
                members: json_members(es.drop_last()),
                items: Seq::<Built>::empty(),
            });
            lemma_run_concat(st, a + seq![ValueStep::Key(k)], b);
            lemma_json_value_builds(s2, e.1);
            lemma_frames_drop_last(s2.open);
            assert(s2.open.drop_last() =~= st.open.drop_last());
            if json_gives_value(e.1) {
                assert(place_in(frames(s2.open)).0 == PlacementView::Under(k));
                assert(run(st, entries_json(es, keyed)->Ok_0) == place_value(s2, json_tree(e.1)));
            } else {
                assert(run(st, entries_json(es, keyed)->Ok_0) == s2);
                assert(s2.open =~= st.open.drop_last().push(s2.open.last()));
            }
        } else {
            assert(entries_json(es, keyed)->Ok_0 == a + b);
            lemma_run_concat(st, a, b);
            lemma_json_value_builds(s1, e.1);
            assert(s1.open.drop_last() =~= st.open.drop_last());
        }
    }
}

/// Doing what the builder says for each step read from a JBL document as JSON builds exactly the
/// JSON value read from it, with every step applying: an object holds each member that gives a
/// value (nulls included) under its whole key, the later of two members under one key winning;
/// an array holds each item that gives a value, in order; values of no JSON type are left out.
pub proof fn lemma_json_replay_builds_value(v: JblValue)
    requires
        json_read_plan(v) is Ok,
    ensures
        run(initial(), json_read_plan(v)->Ok_0) == (Replay { open: Seq::empty(), result: Some(json_tree(v)), ok: true }),
{
    lemma_json_value_builds(initial(), v);
    assert(frames(initial().open) =~= Seq::<(bool, Option<Seq<u8>>)>::empty());
}


/// Reading as JSON an object with one more member, an integer, builds the object that the one
/// without it builds, with that member's whole key now holding exactly the integer stored,
/// negatives and all.
pub proof fn lemma_int_member_built(it1: JblIter, it2: JblIter, k: Vec<u8>, i: i64)
    requires
        json_read_plan(JblValue::Object(it1)) is Ok,
        it2.holder_rc == it1.holder_rc,
        it2.init_rc == it1.init_rc,
        it2.entries@ == it1.entries@.push((k, JblValue::I64(i))),
    ensures
        json_read_plan(JblValue::Object(it2)) is Ok,
        run(initial(), json_read_plan(JblValue::Object(it2))->Ok_0).result == Some(Built::Dict(
            run(initial(), json_read_plan(JblValue::Object(it1))->Ok_0).result.unwrap()->Dict_0.insert(
                k@,
                Built::Scalar(ValueStep::Int(i)),
            ),
        )),
{
    lemma_int_member_read(it1.entries@, k, i);
    lemma_json_replay_builds_value(JblValue::Object(it1));
    lemma_json_replay_builds_value(JblValue::Object(it2));
    assert(it2.entries@.drop_last() =~= it1.entries@);
    assert(it2.entries@.last() == (k, JblValue::I64(i)));
    assert(json_tree(JblValue::I64(i)) == Built::Scalar(ValueStep::Int(i)));
    assert(json_members(it2.entries@) == json_members(it1.entries@).insert(k@, Built::Scalar(ValueStep::Int(i))));
    assert(json_tree(JblValue::Object(it1)) == Built::Dict(json_members(it1.entries@)));
    assert(json_tree(JblValue::Object(it2)) == Built::Dict(json_members(it2.entries@)));
}

/// Reading as JSON an array with one more item, an integer, builds the array that the one
/// without it builds, followed by exactly the integer stored, negatives and all.
pub proof fn lemma_int_item_built(it1: JblIter, it2: JblIter, k: Vec<u8>, i: i64)
    requires
        json_read_plan(JblValue::Array(it1)) is Ok,
        it2.holder_rc == it1.holder_rc,
        it2.init_rc == it1.init_rc,
        it2.entries@ == it1.entries@.push((k, JblValue::I64(i))),
    ensures
        json_read_plan(JblValue::Array(it2)) is Ok,
        run(initial(), json_read_plan(JblValue::Array(it2))->Ok_0).result == Some(Built::List(
            run(initial(), json_read_plan(JblValue::Array(it1))->Ok_0).result.unwrap()->List_0.push(
                Built::Scalar(ValueStep::Int(i)),
            ),
        )),
{
    lemma_int_item_read(it1.entries@, k, i);
    lemma_json_replay_builds_value(JblValue::Array(it1));
    lemma_json_replay_builds_value(JblValue::Array(it2));
    assert(it2.entries@.drop_last() =~= it1.entries@);
    assert(it2.entries@.last() == (k, JblValue::I64(i)));
    assert(json_tree(JblValue::I64(i)) == Built::Scalar(ValueStep::Int(i)));
    assert(json_items(it2.entries@) == json_items(it1.entries@).push(Built::Scalar(ValueStep::Int(i))));
    assert(json_tree(JblValue::Array(it1)) == Built::List(json_items(it1.entries@)));
    assert(json_tree(JblValue::Array(it2)) == Built::List(json_items(it2.entries@)));
}


/// Reading as JSON an object with one more member that is no container builds the object that
/// the one without it builds, with the member's whole key now holding exactly what was stored:
/// null, a bool (true when its integer is not 0), the integer, a float of the same bits, the
/// text; a member of no JSON type changes nothing.
pub proof fn lemma_scalar_member_built_json(it1: JblIter, it2: JblIter, k: Vec<u8>, x: JblValue)
    requires
        json_read_plan(JblValue::Object(it1)) is Ok,
        !(x is Object || x is Array),
        it2.holder_rc == it1.holder_rc,
        it2.init_rc == it1.init_rc,
        it2.entries@ == it1.entries@.push((k, x)),
    ensures
        json_read_plan(JblValue::Object(it2)) is Ok,
        ({
            let m = run(initial(), json_read_plan(JblValue::Object(it1))->Ok_0).result.unwrap()->Dict_0;
            let r = run(initial(), json_read_plan(JblValue::Object(it2))->Ok_0).result;
            &&& (x is Null ==> r == Some(Built::Dict(m.insert(k@, Built::Scalar(ValueStep::Null)))))
            &&& (x matches JblValue::Bool(n) ==> r == Some(Built::Dict(m.insert(k@, Built::Scalar(ValueStep::Bool(n != 0i32))))))
            &&& (x matches JblValue::I64(i) ==> r == Some(Built::Dict(m.insert(k@, Built::Scalar(ValueStep::Int(i))))))
            &&& (x matches JblValue::F64(b) ==> r == Some(Built::Dict(m.insert(k@, Built::Scalar(ValueStep::Float(b))))))
            &&& (x matches JblValue::Str(s) ==> r == Some(Built::Dict(m.insert(k@, Built::Scalar(ValueStep::Str(s@))))))
            &&& ((x is NoneValue || x is Other) ==> r == Some(Built::Dict(m)))
        }),
{
    let es1 = it1.entries@;
    let es2 = it2.entries@;
    assert(es2.drop_last() =~= es1);
    assert(es2.last() == (k, x));
    assert(value_json(x) is Ok);
    assert(entries_json(es2, true) is Ok);
    lemma_json_replay_builds_value(JblValue::Object(it1));
    lemma_json_replay_builds_value(JblValue::Object(it2));
    assert(json_tree(JblValue::Object(it1)) == Built::Dict(json_members(es1)));
    assert(json_tree(JblValue::Object(it2)) == Built::Dict(json_members(es2)));
    if json_gives_value(x) {
        assert(json_members(es2) == json_members(es1).insert(k@, json_tree(x)));
    } else {
        assert(json_members(es2) == json_members(es1));
    }
    json_scalar_tree(x);
}

/// Reading as JSON an array with one more item that is no container builds the array that the
/// one without it builds, followed by exactly what was stored; an item of no JSON type changes
/// nothing.
pub proof fn lemma_scalar_item_built_json(it1: JblIter, it2: JblIter, k: Vec<u8>, x: JblValue)
    requires
        json_read_plan(JblValue::Array(it1)) is Ok,
        !(x is Object || x is Array),
        it2.holder_rc == it1.holder_rc,
        it2.init_rc == it1.init_rc,
        it2.entries@ == it1.entries@.push((k, x)),
    ensures
        json_read_plan(JblValue::Array(it2)) is Ok,
        ({
            let l = run(initial(), json_read_plan(JblValue::Array(it1))->Ok_0).result.unwrap()->List_0;
            let r = run(initial(), json_read_plan(JblValue::Array(it2))->Ok_0).result;
            &&& (x is Null ==> r == Some(Built::List(l.push(Built::Scalar(ValueStep::Null)))))
            &&& (x matches JblValue::Bool(n) ==> r == Some(Built::List(l.push(Built::Scalar(ValueStep::Bool(n != 0i32))))))
            &&& (x matches JblValue::I64(i) ==> r == Some(Built::List(l.push(Built::Scalar(ValueStep::Int(i))))))
            &&& (x matches JblValue::F64(b) ==> r == Some(Built::List(l.push(Built::Scalar(ValueStep::Float(b))))))
            &&& (x matches JblValue::Str(s) ==> r == Some(Built::List(l.push(Built::Scalar(ValueStep::Str(s@))))))
            &&& ((x is NoneValue || x is Other) ==> r == Some(Built::List(l)))
        }),
{
    let es1 = it1.entries@;
    let es2 = it2.entries@;
    assert(es2.drop_last() =~= es1);
    assert(es2.last() == (k, x));
    assert(value_json(x) is Ok);
    assert(entries_json(es2, false) is Ok);
    lemma_json_replay_builds_value(JblValue::Array(it1));
    lemma_json_replay_builds_value(JblValue::Array(it2));
    assert(json_tree(JblValue::Array(it1)) == Built::List(json_items(es1)));
    assert(json_tree(JblValue::Array(it2)) == Built::List(json_items(es2)));
    if json_gives_value(x) {
        assert(json_items(es2) == json_items(es1).push(json_tree(x)));
    } else {
        assert(json_items(es2) == json_items(es1));
    }
    json_scalar_tree(x);
}

proof fn json_scalar_tree(x: JblValue)
    ensures
        x is Null ==> json_tree(x) == Built::Scalar(ValueStep::Null),
        x matches JblValue::Bool(n) ==> json_tree(x) == Built::Scalar(ValueStep::Bool(n != 0i32)),
        x matches JblValue::I64(i) ==> json_tree(x) == Built::Scalar(ValueStep::Int(i)),
        x matches JblValue::F64(b) ==> json_tree(x) == Built::Scalar(ValueStep::Float(b)),
        x matches JblValue::Str(s) ==> json_tree(x) == Built::Scalar(ValueStep::Str(s@)),
{
}

} // verus!
