use vstd::prelude::*;
use crate::builder::place_in;
use crate::jbl::{JblIter, JblValue};
use crate::python::from_jbl::{
    array_py, before_nul, entries_py, key_fits, lemma_float_item_read, lemma_float_member_read, object_py, py_plan, value_py,
};
use crate::replay::{
    apply, empty_partial, frames, initial, lemma_frames_drop_last, lemma_open_close, lemma_run_concat,
    lemma_run_single, place_value, run, Built, Partial, Replay,
};
use crate::value::ValueStep;

verus! {

/// Whether reading a JBL value gives the Python object anything: null values and values of no
/// type read here give nothing.
pub open spec fn gives_value(v: JblValue) -> bool {
    v is Bool || v is I64 || v is F64 || v is Str || v is Object || v is Array
}

/// The Python value read from a JBL value that gives one: a bool (true when its integer is
/// not 0), an int, a float, a str, a dict of the object's members or a list of the array's items.
pub open spec fn py_tree(v: JblValue) -> Built
    decreases v, 2int,
{
    match v {
        JblValue::Bool(i) => Built::Scalar(ValueStep::Bool(i != 0i32)),
        JblValue::I64(i) => Built::Scalar(ValueStep::Int(i)),
        JblValue::F64(b) => Built::Scalar(ValueStep::Float(b)),
        JblValue::Str(s) => Built::Scalar(ValueStep::Str(s@)),
        JblValue::Object(it) => py_dict(it),
        JblValue::Array(it) => py_list(it),
        _ => Built::Scalar(ValueStep::Null),
    }
}

/// The dict of an object: each member that gives a value, under its key up to the first NUL; of
/// two members under one key, the later one.
pub open spec fn py_dict(it: JblIter) -> Built
    decreases it, 1int,
{
    Built::Dict(py_members(it.entries@))
}

/// The list of an array: each item that gives a value, in order.
pub open spec fn py_list(it: JblIter) -> Built
    decreases it, 1int,
{
    Built::List(py_items(it.entries@))
}

pub open spec fn py_members(es: Seq<(Vec<u8>, JblValue)>) -> Map<Seq<u8>, Built>
    decreases es, 0int,
{
    if es.len() == 0 {
        Map::empty()
    } else if gives_value(es.last().1) {
        py_members(es.drop_last()).insert(before_nul(es.last().0@), py_tree(es.last().1))
    } else {
        py_members(es.drop_last())
    }
}

pub open spec fn py_items(es: Seq<(Vec<u8>, JblValue)>) -> Seq<Built>
    decreases es, 0int,
{
    if es.len() == 0 {
        Seq::empty()
    } else if gives_value(es.last().1) {
        py_items(es.drop_last()).push(py_tree(es.last().1))
    } else {
        py_items(es.drop_last())
    }
}

/// The key still pending in a dict after its members: that of the last member when it gave no
/// value.
pub open spec fn pending_key(es: Seq<(Vec<u8>, JblValue)>) -> Option<Seq<u8>> {
    if es.len() == 0 || gives_value(es.last().1) {
        None
    } else {
        Some(before_nul(es.last().0@))
    }
}

proof fn lemma_value_builds(st: Replay, v: JblValue)
    requires
        st.ok,
        value_py(v) is Ok,
    ensures
        run(st, value_py(v)->Ok_0) == (if gives_value(v) { place_value(st, py_tree(v)) } else { st }),
    decreases v, 2int,
{
    match v {
        JblValue::Object(it) => lemma_object_builds(st, it),
        JblValue::Array(it) => lemma_array_builds(st, it),
        JblValue::Bool(_) | JblValue::I64(_) | JblValue::F64(_) | JblValue::Str(_) => {
            let x = value_py(v)->Ok_0[0];
            assert(value_py(v)->Ok_0 =~= seq![x]);
            lemma_run_single(st, x);
        },
        _ => {
            assert(run(st, Seq::<ValueStep>::empty()) == st);
        },
    }
}

proof fn lemma_object_builds(st: Replay, it: JblIter)
    requires
        st.ok,
        object_py(it) is Ok,
    ensures
        run(st, object_py(it)->Ok_0) == place_value(st, py_dict(it)),
    decreases it, 1int,
{
    let es = it.entries@;
    let opened = Replay { open: st.open.push(empty_partial(true)), result: st.result, ok: true };
    lemma_dict_entries_build(opened, es);
    let filled = Partial { dict: true, key: pending_key(es), members: py_members(es), items: Seq::empty() };
    assert(opened.open.drop_last() =~= st.open);
    lemma_open_close(st, true, entries_py(es, true)->Ok_0, filled);
}

proof fn lemma_array_builds(st: Replay, it: JblIter)
    requires
        st.ok,
        array_py(it) is Ok,
    ensures
        run(st, array_py(it)->Ok_0) == place_value(st, py_list(it)),
    decreases it, 1int,
{
    let es = it.entries@;
    let opened = Replay { open: st.open.push(empty_partial(false)), result: st.result, ok: true };
    lemma_list_entries_build(opened, es);
    let filled = Partial { dict: false, key: None, members: Map::empty(), items: py_items(es) };
    assert(opened.open.drop_last() =~= st.open);
    lemma_open_close(st, false, entries_py(es, false)->Ok_0, filled);
}

proof fn lemma_dict_entries_build(st: Replay, es: Seq<(Vec<u8>, JblValue)>)
    requires
        st.ok,
        st.open.len() > 0,
        st.open.last() == empty_partial(true),
        entries_py(es, true) is Ok,
    ensures
        run(st, entries_py(es, true)->Ok_0) == (Replay {
            open: st.open.drop_last().push(
                Partial { dict: true, key: pending_key(es), members: py_members(es), items: Seq::empty() },
            ),
            result: st.result,
            ok: true,
        }),
    decreases es, 0int,
{
    if es.len() == 0 {
        assert(run(st, Seq::<ValueStep>::empty()) == st);
        assert(st.open.drop_last().push(st.open.last()) =~= st.open);
    } else {
        let e = es.last();
        let a = entries_py(es.drop_last(), true)->Ok_0;
        let b = value_py(e.1)->Ok_0;
        let k = before_nul(e.0@);
        assert(entries_py(es, true)->Ok_0 == a + seq![ValueStep::Key(k)] + b);
        lemma_dict_entries_build(st, es.drop_last());
        let s1 = run(st, a);
        lemma_run_concat(st, a, seq![ValueStep::Key(k)]);
        lemma_run_single(s1, ValueStep::Key(k));
        lemma_frames_drop_last(s1.open);
        let s2 = apply(s1, ValueStep::Key(k));
        assert(s2.open.last().key == Some(k));
        lemma_run_concat(st, a + seq![ValueStep::Key(k)], b);
        lemma_value_builds(s2, e.1);
        lemma_frames_drop_last(s2.open);
        assert(s2.open.drop_last() =~= st.open.drop_last());
        assert(s2.open.last() == Partial { dict: true, key: Some(k), members: py_members(es.drop_last()), items: Seq::<Built>::empty() });
        if gives_value(e.1) {
            assert(place_in(frames(s2.open)).0 == crate::builder::PlacementView::Under(k));
            assert(py_members(es) == py_members(es.drop_last()).insert(k, py_tree(e.1)));
            assert(run(st, entries_py(es, true)->Ok_0) == place_value(s2, py_tree(e.1)));
        } else {
            assert(run(st, entries_py(es, true)->Ok_0) == s2);
            assert(s2.open =~= st.open.drop_last().push(s2.open.last()));
        }
    }
}

proof fn lemma_list_entries_build(st: Replay, es: Seq<(Vec<u8>, JblValue)>)
    requires
        st.ok,
        st.open.len() > 0,
        st.open.last() == empty_partial(false),
        entries_py(es, false) is Ok,
    ensures
        run(st, entries_py(es, false)->Ok_0) == (Replay {
            open: st.open.drop_last().push(
                Partial { dict: false, key: None, members: Map::empty(), items: py_items(es) },
            ),
            result: st.result,
            ok: true,
        }),
    decreases es, 0int,
{
    if es.len() == 0 {
        assert(run(st, Seq::<ValueStep>::empty()) == st);
        assert(st.open.drop_last().push(st.open.last()) =~= st.open);
    } else {
        let e = es.last();
        let a = entries_py(es.drop_last(), false)->Ok_0;
        lemma_list_entries_build(st, es.drop_last());
        let s1 = run(st, a);
        lemma_run_concat(st, a, value_py(e.1)->Ok_0);
        lemma_value_builds(s1, e.1);
        lemma_frames_drop_last(s1.open);
        assert(s1.open.drop_last() =~= st.open.drop_last());
    }
}

/// Doing what the builder says for each step read from an object or array builds exactly the
/// Python value read from it, with every step applying: a dict holds each member that gives a
/// value under its key up to the first NUL, the later of two members under one key winning; a
/// list holds each item that gives a value, in order; null members and items are left out.
pub proof fn lemma_replay_builds_value(v: JblValue)
    requires
        py_plan(v) is Ok,
    ensures
        run(initial(), py_plan(v)->Ok_0) == (Replay { open: Seq::empty(), result: Some(py_tree(v)), ok: true }),
{
    lemma_value_builds(initial(), v);
    assert(frames(initial().open) =~= Seq::<(bool, Option<Seq<u8>>)>::empty());
}


/// Reading an object with one more member, a float, builds the dict that the object without it
/// builds, with that member's key (up to the first NUL) now holding a float of exactly the bits
/// `jbl_get_f64` gave, sign and all.
pub proof fn lemma_float_member_built(it1: JblIter, it2: JblIter, k: Vec<u8>, b: u64)
    requires
        py_plan(JblValue::Object(it1)) is Ok,
        key_fits(k@),
        it2.holder_rc == it1.holder_rc,
        it2.init_rc == it1.init_rc,
        it2.entries@ == it1.entries@.push((k, JblValue::F64(b))),
    ensures
        py_plan(JblValue::Object(it2)) is Ok,
        run(initial(), py_plan(JblValue::Object(it2))->Ok_0).result == Some(Built::Dict(
            run(initial(), py_plan(JblValue::Object(it1))->Ok_0).result.unwrap()->Dict_0.insert(
                before_nul(k@),
                Built::Scalar(ValueStep::Float(b)),
            ),
        )),
{
    lemma_float_member_read(it1.entries@, k, b);
    lemma_replay_builds_value(JblValue::Object(it1));
    lemma_replay_builds_value(JblValue::Object(it2));
    let e = (k, JblValue::F64(b));
    assert(it2.entries@.drop_last() =~= it1.entries@);
    assert(it2.entries@.last() == e);
    assert(py_tree(JblValue::F64(b)) == Built::Scalar(ValueStep::Float(b)));
    assert(py_members(it2.entries@) == py_members(it1.entries@).insert(before_nul(k@), Built::Scalar(ValueStep::Float(b))));
    assert(py_tree(JblValue::Object(it1)) == Built::Dict(py_members(it1.entries@)));
    assert(py_tree(JblValue::Object(it2)) == Built::Dict(py_members(it2.entries@)));
}

/// Reading an array with one more item, a float, builds the list that the array without it
/// builds, followed by a float of exactly the bits `jbl_get_f64` gave, sign and all.
pub proof fn lemma_float_item_built(it1: JblIter, it2: JblIter, k: Vec<u8>, b: u64)
    requires
        py_plan(JblValue::Array(it1)) is Ok,
        it2.holder_rc == it1.holder_rc,
        it2.init_rc == it1.init_rc,
        it2.entries@ == it1.entries@.push((k, JblValue::F64(b))),
    ensures
        py_plan(JblValue::Array(it2)) is Ok,
        run(initial(), py_plan(JblValue::Array(it2))->Ok_0).result == Some(Built::List(
            run(initial(), py_plan(JblValue::Array(it1))->Ok_0).result.unwrap()->List_0.push(
                Built::Scalar(ValueStep::Float(b)),
            ),
        )),
{
    lemma_float_item_read(it1.entries@, k, b);
    lemma_replay_builds_value(JblValue::Array(it1));
    lemma_replay_builds_value(JblValue::Array(it2));
    let e = (k, JblValue::F64(b));
    assert(it2.entries@.drop_last() =~= it1.entries@);
    assert(it2.entries@.last() == e);
    assert(py_tree(JblValue::F64(b)) == Built::Scalar(ValueStep::Float(b)));
    assert(py_items(it2.entries@) == py_items(it1.entries@).push(Built::Scalar(ValueStep::Float(b))));
    assert(py_tree(JblValue::Array(it1)) == Built::List(py_items(it1.entries@)));
    assert(py_tree(JblValue::Array(it2)) == Built::List(py_items(it2.entries@)));
}


/// Reading an object with one more member that is no container builds the dict that the object
/// without it builds, with the member's key (up to the first NUL) now holding exactly what was
/// stored: a bool (true when its integer is not 0), the integer, a float of the same bits, the
/// text; a null member, or one of no type read here, changes nothing.
pub proof fn lemma_scalar_member_built(it1: JblIter, it2: JblIter, k: Vec<u8>, x: JblValue)
    requires
        py_plan(JblValue::Object(it1)) is Ok,
        key_fits(k@),
        !(x is Object || x is Array),
        it2.holder_rc == it1.holder_rc,
        it2.init_rc == it1.init_rc,
        it2.entries@ == it1.entries@.push((k, x)),
    ensures
        py_plan(JblValue::Object(it2)) is Ok,
        ({
            let m = run(initial(), py_plan(JblValue::Object(it1))->Ok_0).result.unwrap()->Dict_0;
            let r = run(initial(), py_plan(JblValue::Object(it2))->Ok_0).result;
            let kk = before_nul(k@);
            &&& (x matches JblValue::Bool(n) ==> r == Some(Built::Dict(m.insert(kk, Built::Scalar(ValueStep::Bool(n != 0i32))))))
            &&& (x matches JblValue::I64(i) ==> r == Some(Built::Dict(m.insert(kk, Built::Scalar(ValueStep::Int(i))))))
            &&& (x matches JblValue::F64(b) ==> r == Some(Built::Dict(m.insert(kk, Built::Scalar(ValueStep::Float(b))))))
            &&& (x matches JblValue::Str(s) ==> r == Some(Built::Dict(m.insert(kk, Built::Scalar(ValueStep::Str(s@))))))
            &&& (!gives_value(x) ==> r == Some(Built::Dict(m)))
        }),
{
    let es1 = it1.entries@;
    let es2 = it2.entries@;
    assert(es2.drop_last() =~= es1);
    assert(es2.last() == (k, x));
    assert(value_py(x) is Ok);
    assert(entries_py(es2, true) is Ok);
    lemma_replay_builds_value(JblValue::Object(it1));
    lemma_replay_builds_value(JblValue::Object(it2));
    assert(py_tree(JblValue::Object(it1)) == Built::Dict(py_members(es1)));
    assert(py_tree(JblValue::Object(it2)) == Built::Dict(py_members(es2)));
    if gives_value(x) {
        assert(py_members(es2) == py_members(es1).insert(before_nul(k@), py_tree(x)));
    } else {
        assert(py_members(es2) == py_members(es1));
    }
    scalar_tree(x);
}

/// Reading an array with one more item that is no container builds the list that the array
/// without it builds, followed by exactly what was stored; a null item, or one of no type read
/// here, changes nothing.
pub proof fn lemma_scalar_item_built(it1: JblIter, it2: JblIter, k: Vec<u8>, x: JblValue)
    requires
        py_plan(JblValue::Array(it1)) is Ok,
        !(x is Object || x is Array),
        it2.holder_rc == it1.holder_rc,
        it2.init_rc == it1.init_rc,
        it2.entries@ == it1.entries@.push((k, x)),
    ensures
        py_plan(JblValue::Array(it2)) is Ok,
        ({
            let l = run(initial(), py_plan(JblValue::Array(it1))->Ok_0).result.unwrap()->List_0;
            let r = run(initial(), py_plan(JblValue::Array(it2))->Ok_0).result;
            &&& (x matches JblValue::Bool(n) ==> r == Some(Built::List(l.push(Built::Scalar(ValueStep::Bool(n != 0i32))))))
            &&& (x matches JblValue::I64(i) ==> r == Some(Built::List(l.push(Built::Scalar(ValueStep::Int(i))))))
            &&& (x matches JblValue::F64(b) ==> r == Some(Built::List(l.push(Built::Scalar(ValueStep::Float(b))))))
            &&& (x matches JblValue::Str(s) ==> r == Some(Built::List(l.push(Built::Scalar(ValueStep::Str(s@))))))
            &&& (!gives_value(x) ==> r == Some(Built::List(l)))
        }),
{
    let es1 = it1.entries@;
    let es2 = it2.entries@;
    assert(es2.drop_last() =~= es1);
    assert(es2.last() == (k, x));
    assert(value_py(x) is Ok);
    assert(entries_py(es2, false) is Ok);
    lemma_replay_builds_value(JblValue::Array(it1));
    lemma_replay_builds_value(JblValue::Array(it2));
    assert(py_tree(JblValue::Array(it1)) == Built::List(py_items(es1)));
    assert(py_tree(JblValue::Array(it2)) == Built::List(py_items(es2)));
    if gives_value(x) {
        assert(py_items(es2) == py_items(es1).push(py_tree(x)));
    } else {
        assert(py_items(es2) == py_items(es1));
    }
    scalar_tree(x);
}

proof fn scalar_tree(x: JblValue)
    ensures
        x matches JblValue::Bool(n) ==> py_tree(x) == Built::Scalar(ValueStep::Bool(n != 0i32)),
        x matches JblValue::I64(i) ==> py_tree(x) == Built::Scalar(ValueStep::Int(i)),
        x matches JblValue::F64(b) ==> py_tree(x) == Built::Scalar(ValueStep::Float(b)),
        x matches JblValue::Str(s) ==> py_tree(x) == Built::Scalar(ValueStep::Str(s@)),
{
}

} // verus!
