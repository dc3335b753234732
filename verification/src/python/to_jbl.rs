use vstd::prelude::*;
use crate::text::{has_nul, has_nul_str};
use crate::nesting::{balanced, lemma_balanced_concat, lemma_balanced_empty, lemma_balanced_single, lemma_wrap};

verus! {

/// A Python object as the conversion into JBL sees it, by its exact type.
#[derive(Debug, PartialEq, Eq)]
pub enum PyValue {
    Bool(bool),
    /// An int that fits in 64 bits.
    Int(i64),
    /// An int that does not.
    BigInt,
    /// The IEEE-754 bits of a float.
    Float(u64),
    Str(String),
    List(Vec<PyValue>),
    /// A set, its items in the order iteration gives them.
    PySet(Vec<PyValue>),
    /// A dict, its entries in the order iteration gives them.
    Dict(Vec<(PyValue, PyValue)>),
    /// `None` and every other type.
    Other,
}

/// One step of building a JBL document on an empty object. The `jbl_set_*` steps store into
/// the innermost open object, under `key`, or under no key when it is `None`. `BeginNested`
/// opens a new empty object; `EndNested` closes the innermost one and stores it into the one
/// around it under `key`.
#[derive(Debug, PartialEq, Eq)]
pub enum JblInstr {
    SetString { key: Option<String>, text: String },
    /// `jbl_set_f64` with the float of these IEEE-754 bits.
    SetF64 { key: Option<String>, bits: u64 },
    SetInt64 { key: Option<String>, value: i64 },
    BeginNested,
    EndNested { key: Option<String> },
}

/// The instructions for one value stored under `key` (`None` for array items), or `None`
/// where the conversion fails. The value's type is tested in the order str, list or set,
/// float, int (which a bool is), dict; anything else fails, and so does an int beyond 64
/// bits, a string with a NUL, and, in a set, a nested set (only lists are looked for there).
/// A nested list or set is stored under no key.
pub open spec fn value_instrs(v: PyValue, key: Option<String>, in_set: bool) -> Option<Seq<JblInstr>>
    decreases v, 0int,
{
    match v {
        PyValue::Str(s) => if has_nul(s@) { None } else { Some(seq![JblInstr::SetString { key, text: s }]) },
        PyValue::List(items) => match array_instrs(items@, false) {
            Some(n) => Some(seq![JblInstr::BeginNested] + n + seq![JblInstr::EndNested { key: None }]),
            None => None,
        },
        PyValue::PySet(items) => if in_set { None } else { match array_instrs(items@, true) {
            Some(n) => Some(seq![JblInstr::BeginNested] + n + seq![JblInstr::EndNested { key: None }]),
            None => None,
        } },
        PyValue::Float(b) => Some(seq![JblInstr::SetF64 { key, bits: b }]),
        PyValue::Int(i) => Some(seq![JblInstr::SetInt64 { key, value: i }]),
        PyValue::Bool(b) => Some(seq![JblInstr::SetInt64 { key, value: if b { 1i64 } else { 0i64 } }]),
        PyValue::Dict(es) => match object_instrs(es@) {
            Some(n) => Some(seq![JblInstr::BeginNested] + n + seq![JblInstr::EndNested { key }]),
            None => None,
        },
        _ => None,
    }
}

/// The instructions for the items of a list (or of a set, `in_set`), each stored under no key.
pub open spec fn array_instrs(items: Seq<PyValue>, in_set: bool) -> Option<Seq<JblInstr>>
    decreases items, 1int,
{
    if items.len() == 0 {
        Some(Seq::empty())
    } else {
        match (array_instrs(items.drop_last(), in_set), value_instrs(items.last(), None, in_set)) {
            (Some(a), Some(b)) => Some(a + b),
            _ => None,
        }
    }
}

/// The instructions for the entries of a dict, each value stored under its key, which must be
/// a string without a NUL.
pub open spec fn object_instrs(es: Seq<(PyValue, PyValue)>) -> Option<Seq<JblInstr>>
    decreases es, 1int,
{
    if es.len() == 0 {
        Some(Seq::empty())
    } else {
        let e = es.last();
        match (object_instrs(es.drop_last()), e.0) {
            (Some(a), PyValue::Str(k)) => if has_nul(k@) { None } else {
                match value_instrs(e.1, Some(k), false) {
                    Some(b) => Some(a + b),
                    None => None,
                }
            },
            _ => None,
        }
    }
}


/// Once a prefix of the items cannot be converted, no longer prefix can.
proof fn lemma_array_failure_persists(items: Seq<PyValue>, in_set: bool, i: int, j: int)
    requires
        0 <= i <= j <= items.len(),
        array_instrs(items.take(i), in_set) is None,
    ensures
        array_instrs(items.take(j), in_set) is None,
    decreases j - i,
{
    if j > i {
        lemma_array_failure_persists(items, in_set, i, j - 1);
        assert(items.take(j).drop_last() =~= items.take(j - 1));
    }
}

/// Once a prefix of the entries cannot be converted, no longer prefix can.
proof fn lemma_object_failure_persists(es: Seq<(PyValue, PyValue)>, i: int, j: int)
    requires
        0 <= i <= j <= es.len(),
        object_instrs(es.take(i)) is None,
    ensures
        object_instrs(es.take(j)) is None,
    decreases j - i,
{
    if j > i {
        lemma_object_failure_persists(es, i, j - 1);
        assert(es.take(j).drop_last() =~= es.take(j - 1));
    }
}

fn clone_key(key: &Option<String>) -> (r: Option<String>)
    ensures
        r == *key,
{
    match key {
        Some(k) => Some(k.clone()),
        None => None,
    }
}

fn push_value(v: &PyValue, key: &Option<String>, in_set: bool, out: &mut Vec<JblInstr>) -> (ok: bool)
    ensures
        ok == value_instrs(*v, *key, in_set) is Some,
        ok ==> final(out)@ == old(out)@ + value_instrs(*v, *key, in_set).unwrap(),
    decreases v, 0int,
{
    match v {
        PyValue::Str(s) => {
            if has_nul_str(s.as_str()) {
                false
            } else {
                out.push(JblInstr::SetString { key: clone_key(key), text: s.clone() });
                true
            }
        },
        PyValue::List(items) => {
            out.push(JblInstr::BeginNested);
            let ghost mid = out@;
            if !to_jbl_array(items, false, out) {
                return false;
            }
            out.push(JblInstr::EndNested { key: None });
            proof {
                let n = array_instrs(items@, false).unwrap();
                assert(out@ =~= old(out)@ + (seq![JblInstr::BeginNested] + n + seq![JblInstr::EndNested { key: None }]));
            }
            true
        },
        PyValue::PySet(items) => {
            if in_set {
                return false;
            }
            out.push(JblInstr::BeginNested);
            if !to_jbl_array(items, true, out) {
                return false;
            }
            out.push(JblInstr::EndNested { key: None });
            proof {
                let n = array_instrs(items@, true).unwrap();
                assert(out@ =~= old(out)@ + (seq![JblInstr::BeginNested] + n + seq![JblInstr::EndNested { key: None }]));
            }
            true
        },
        PyValue::Float(b) => {
            out.push(JblInstr::SetF64 { key: clone_key(key), bits: *b });
            true
        },
        PyValue::Int(i) => {
            out.push(JblInstr::SetInt64 { key: clone_key(key), value: *i });
            true
        },
        PyValue::Bool(b) => {
            out.push(JblInstr::SetInt64 { key: clone_key(key), value: if *b { 1i64 } else { 0i64 } });
            true
        },
        PyValue::Dict(es) => {
            out.push(JblInstr::BeginNested);
            if !to_jbl_object(es, out) {
                return false;
            }
            out.push(JblInstr::EndNested { key: clone_key(key) });
            proof {
                let n = object_instrs(es@).unwrap();
                assert(out@ =~= old(out)@ + (seq![JblInstr::BeginNested] + n + seq![JblInstr::EndNested { key: *key }]));
            }
            true
        },
        _ => false,
    }
}

fn to_jbl_array(items: &Vec<PyValue>, in_set: bool, out: &mut Vec<JblInstr>) -> (ok: bool)
    ensures
        ok == array_instrs(items@, in_set) is Some,
        ok ==> final(out)@ == old(out)@ + array_instrs(items@, in_set).unwrap(),
    decreases items, 1int,
{
    let n = items.len();
    let mut i: usize = 0;
    let none: Option<String> = None;
    assert(items@.take(0) =~= Seq::<PyValue>::empty());
    while i < n
        invariant
            n == items@.len(),
            0 <= i <= n,
            none is None,
            array_instrs(items@.take(i as int), in_set) is Some,
            out@ == old(out)@ + array_instrs(items@.take(i as int), in_set).unwrap(),
        decreases n - i,
    {
        assert(items@.take(i + 1).drop_last() =~= items@.take(i as int));
        assert(items@.take(i + 1).last() == items@[i as int]);
        let ghost before = out@;
        if !push_value(&items[i], &none, in_set, out) {
            proof {
                lemma_array_failure_persists(items@, in_set, i + 1, n as int);
                assert(items@.take(n as int) =~= items@);
            }
            return false;
        }
        assert(out@ =~= old(out)@ + array_instrs(items@.take(i + 1), in_set).unwrap());
        i = i + 1;
    }
    assert(items@.take(n as int) =~= items@);
    true
}

fn to_jbl_object(es: &Vec<(PyValue, PyValue)>, out: &mut Vec<JblInstr>) -> (ok: bool)
    ensures
        ok == object_instrs(es@) is Some,
        ok ==> final(out)@ == old(out)@ + object_instrs(es@).unwrap(),
    decreases es, 1int,
{
    let n = es.len();
    let mut i: usize = 0;
    assert(es@.take(0) =~= Seq::<(PyValue, PyValue)>::empty());
    while i < n
        invariant
            n == es@.len(),
            0 <= i <= n,
            object_instrs(es@.take(i as int)) is Some,
            out@ == old(out)@ + object_instrs(es@.take(i as int)).unwrap(),
        decreases n - i,
    {
        assert(es@.take(i + 1).drop_last() =~= es@.take(i as int));
        assert(es@.take(i + 1).last() == es@[i as int]);
        let entry = &es[i];
        match &entry.0 {
            PyValue::Str(k) => {
                if has_nul_str(k.as_str()) {
                    proof {
                        lemma_object_failure_persists(es@, i + 1, n as int);
                        assert(es@.take(n as int) =~= es@);
                    }
                    return false;
                }
                let key = Some(k.clone());
                if !push_value(&entry.1, &key, false, out) {
                    proof {
                        lemma_object_failure_persists(es@, i + 1, n as int);
                        assert(es@.take(n as int) =~= es@);
                    }
                    return false;
                }
            },
            _ => {
                proof {
                    lemma_object_failure_persists(es@, i + 1, n as int);
                    assert(es@.take(n as int) =~= es@);
                }
                return false;
            },
        }
        assert(out@ =~= old(out)@ + object_instrs(es@.take(i + 1)).unwrap());
        i = i + 1;
    }
    assert(es@.take(n as int) =~= es@);
    true
}


/// True when `to_jbl` accepts the value's type at all: dicts, lists and sets.
pub open spec fn is_container(v: PyValue) -> bool {
    v is Dict || v is List || v is PySet
}

/// The instructions that build the JBL document for a dict, list or set.
pub open spec fn jbl_plan(v: PyValue) -> Option<Seq<JblInstr>> {
    match v {
        PyValue::Dict(es) => object_instrs(es@),
        PyValue::List(items) => array_instrs(items@, false),
        PyValue::PySet(items) => array_instrs(items@, true),
        _ => None,
    }
}

/// The binding panics (through `unwrap`) when a container holds something it cannot store.
pub open spec fn to_jbl_panics(v: PyValue) -> bool {
    is_container(v) && jbl_plan(v) is None
}

/// Whether converting `value` to JBL fails inside the container, where the binding panics.
pub fn to_jbl_fails(value: &PyValue) -> (r: bool)
    ensures
        r == to_jbl_panics(*value),
{
    let mut scratch: Vec<JblInstr> = Vec::new();
    match value {
        PyValue::Dict(es) => !to_jbl_object(es, &mut scratch),
        PyValue::List(items) => !to_jbl_array(items, false, &mut scratch),
        PyValue::PySet(items) => !to_jbl_array(items, true, &mut scratch),
        _ => false,
    }
}

/// The instructions that build the JBL document of a dict, list or set that converts.
pub fn jbl_instructions(value: &PyValue) -> (p: Vec<JblInstr>)
    requires
        is_container(*value),
        !to_jbl_panics(*value),
    ensures
        p@ == jbl_plan(*value).unwrap(),
{
    let mut out: Vec<JblInstr> = Vec::new();
    let ok = match value {
        PyValue::Dict(es) => to_jbl_object(es, &mut out),
        PyValue::List(items) => to_jbl_array(items, false, &mut out),
        PyValue::PySet(items) => to_jbl_array(items, true, &mut out),
        _ => true,
    };
    assert(out@ =~= jbl_plan(*value).unwrap());
    out
}

/// Converts a Python value into the instructions that build its JBL document on an empty
/// object: `Err(0)` for anything but a dict, list or set.
pub fn to_jbl(value: &PyValue) -> (r: Result<Vec<JblInstr>, u64>)
    requires
        !to_jbl_panics(*value),
    ensures
        !is_container(*value) ==> r == Err::<Vec<JblInstr>, u64>(0),
        is_container(*value) ==> (r matches Ok(p) && p@ == jbl_plan(*value).unwrap()),
{
    match value {
        PyValue::Dict(_) | PyValue::List(_) | PyValue::PySet(_) => Ok(jbl_instructions(value)),
        _ => Err(0),
    }
}


/// A Python bool is stored exactly as the integer 0 or 1 would be, wherever it stands:
/// the dispatch tests for int before bool, and a bool is an int.
pub proof fn lemma_bool_stored_as_int(b: bool, key: Option<String>, in_set: bool)
    ensures
        value_instrs(PyValue::Bool(b), key, in_set) == value_instrs(
            PyValue::Int(if b { 1i64 } else { 0i64 }),
            key,
            in_set,
        ),
{
}

/// A list or set stored in a dict is attached without its key, as an array item would be.
pub proof fn lemma_nested_array_drops_key(v: PyValue, key: Option<String>, in_set: bool)
    requires
        v is List || v is PySet,
    ensures
        value_instrs(v, key, in_set) == value_instrs(v, None, in_set),
{
}

/// Items that a set can hold are stored as the same items in a list would be; the only
/// difference is that a set refuses a nested set.
pub proof fn lemma_set_items_as_list(items: Seq<PyValue>)
    requires
        array_instrs(items, true) is Some,
    ensures
        array_instrs(items, false) == array_instrs(items, true),
    decreases items.len(),
{
    if items.len() > 0 {
        let last = items.last();
        assert(array_instrs(items.drop_last(), true) is Some);
        assert(value_instrs(last, None, true) is Some);
        lemma_set_items_as_list(items.drop_last());
        assert(!(last is PySet));
        assert(value_instrs(last, None, false) == value_instrs(last, None, true));
    }
}


/// What an instruction opens (+1) or closes (-1) of the nested objects being built.
pub open spec fn jbl_delta(x: JblInstr) -> int {
    match x {
        JblInstr::BeginNested => 1,
        JblInstr::EndNested { .. } => -1,
        _ => 0,
    }
}

pub open spec fn jbl_depth() -> spec_fn(JblInstr) -> int {
    |x: JblInstr| jbl_delta(x)
}

proof fn lemma_value_balanced(v: PyValue, key: Option<String>, in_set: bool)
    requires
        value_instrs(v, key, in_set) is Some,
    ensures
        balanced(value_instrs(v, key, in_set).unwrap(), jbl_depth()),
    decreases v, 0int,
{
    let d = jbl_depth();
    match v {
        PyValue::List(items) => {
            lemma_array_balanced(items@, false);
            lemma_wrap(JblInstr::BeginNested, array_instrs(items@, false).unwrap(), JblInstr::EndNested { key: None }, d);
        },
        PyValue::PySet(items) => {
            lemma_array_balanced(items@, true);
            lemma_wrap(JblInstr::BeginNested, array_instrs(items@, true).unwrap(), JblInstr::EndNested { key: None }, d);
        },
        PyValue::Dict(es) => {
            lemma_object_balanced(es@);
            lemma_wrap(JblInstr::BeginNested, object_instrs(es@).unwrap(), JblInstr::EndNested { key }, d);
        },
        _ => {
            lemma_balanced_single(value_instrs(v, key, in_set).unwrap()[0], d);
            assert(seq![value_instrs(v, key, in_set).unwrap()[0]] =~= value_instrs(v, key, in_set).unwrap());
        },
    }
}

proof fn lemma_array_balanced(items: Seq<PyValue>, in_set: bool)
    requires
        array_instrs(items, in_set) is Some,
    ensures
        balanced(array_instrs(items, in_set).unwrap(), jbl_depth()),
    decreases items, 1int,
{
    if items.len() == 0 {
        lemma_balanced_empty(jbl_depth());
    } else {
        lemma_array_balanced(items.drop_last(), in_set);
        lemma_value_balanced(items.last(), None, in_set);
        lemma_balanced_concat(
            array_instrs(items.drop_last(), in_set).unwrap(),
            value_instrs(items.last(), None, in_set).unwrap(),
            jbl_depth(),
        );
    }
}

proof fn lemma_object_balanced(es: Seq<(PyValue, PyValue)>)
    requires
        object_instrs(es) is Some,
    ensures
        balanced(object_instrs(es).unwrap(), jbl_depth()),
    decreases es, 1int,
{
    if es.len() == 0 {
        lemma_balanced_empty(jbl_depth());
    } else {
        let e = es.last();
        let k = e.0->Str_0;
        lemma_object_balanced(es.drop_last());
        lemma_value_balanced(e.1, Some(k), false);
        lemma_balanced_concat(object_instrs(es.drop_last()).unwrap(), value_instrs(e.1, Some(k), false).unwrap(), jbl_depth());
    }
}

/// The instructions for a dict, list or set never close the object they are built on, and
/// close every nested object they open: replaying them leaves exactly that object.
pub proof fn lemma_plan_balanced(v: PyValue)
    requires
        is_container(v),
        !to_jbl_panics(v),
    ensures
        balanced(jbl_plan(v).unwrap(), jbl_depth()),
{
    match v {
        PyValue::Dict(es) => lemma_object_balanced(es@),
        PyValue::List(items) => lemma_array_balanced(items@, false),
        PyValue::PySet(items) => lemma_array_balanced(items@, true),
        _ => {},
    }
}


/// An int stored in a dict goes under its key with exactly the Python integer, negatives and
/// all: the entry adds one `jbl_set_int64` of that integer after what the entries before it add.
pub proof fn lemma_dict_int_entry_stored(es: Seq<(PyValue, PyValue)>, k: String, i: i64)
    requires
        !has_nul(k@),
    ensures
        object_instrs(es.push((PyValue::Str(k), PyValue::Int(i)))) == (match object_instrs(es) {
            Some(a) => Some(a + seq![JblInstr::SetInt64 { key: Some(k), value: i }]),
            None => None::<Seq<JblInstr>>,
        }),
{
    let e = (PyValue::Str(k), PyValue::Int(i));
    assert(es.push(e).drop_last() =~= es);
    assert(es.push(e).last() == e);
    assert(value_instrs(PyValue::Int(i), Some(k), false) == Some(seq![JblInstr::SetInt64 { key: Some(k), value: i }]));
}

/// An int item of a list or set is appended with exactly the Python integer, negatives and all.
pub proof fn lemma_array_int_item_stored(items: Seq<PyValue>, in_set: bool, i: i64)
    ensures
        array_instrs(items.push(PyValue::Int(i)), in_set) == (match array_instrs(items, in_set) {
            Some(a) => Some(a + seq![JblInstr::SetInt64 { key: None, value: i }]),
            None => None::<Seq<JblInstr>>,
        }),
{
    assert(items.push(PyValue::Int(i)).drop_last() =~= items);
    assert(items.push(PyValue::Int(i)).last() == PyValue::Int(i));
    assert(value_instrs(PyValue::Int(i), None, in_set) == Some(seq![JblInstr::SetInt64 { key: None, value: i }]));
}

/// A dict of one int entry converts to exactly one `jbl_set_int64` of that integer under its key.
pub proof fn lemma_int_entry_document(v: PyValue, k: String, i: i64)
    requires
        v matches PyValue::Dict(es) && es@ == seq![(PyValue::Str(k), PyValue::Int(i))],
        !has_nul(k@),
    ensures
        jbl_plan(v) == Some(seq![JblInstr::SetInt64 { key: Some(k), value: i }]),
{
    let es = v->Dict_0@;
    lemma_dict_int_entry_stored(Seq::empty(), k, i);
    assert(Seq::<(PyValue, PyValue)>::empty().push((PyValue::Str(k), PyValue::Int(i))) =~= es);
    assert(Seq::<JblInstr>::empty() + seq![JblInstr::SetInt64 { key: Some(k), value: i }]
        =~= seq![JblInstr::SetInt64 { key: Some(k), value: i }]);
}


/// The instructions of a prefix followed by some more, or none when the prefix has none.
pub open spec fn followed_by(a: Option<Seq<JblInstr>>, b: Seq<JblInstr>) -> Option<Seq<JblInstr>> {
    match a {
        Some(x) => Some(x + b),
        None => None,
    }
}

/// A scalar stored in a dict goes under its key with exactly the Python value: an int as that
/// integer, a bool as 1 or 0, a float with the same IEEE-754 bits, a string as that text (one
/// with a NUL, an int beyond 64 bits or a value of another type makes the conversion fail).
pub proof fn lemma_dict_scalar_entry_stored(es: Seq<(PyValue, PyValue)>, k: String, x: PyValue)
    requires
        !has_nul(k@),
        !(x is Dict || x is List || x is PySet),
    ensures
        x matches PyValue::Int(i) ==> object_instrs(es.push((PyValue::Str(k), x)))
            == followed_by(object_instrs(es), seq![JblInstr::SetInt64 { key: Some(k), value: i }]),
        x matches PyValue::Bool(b) ==> object_instrs(es.push((PyValue::Str(k), x)))
            == followed_by(object_instrs(es), seq![JblInstr::SetInt64 { key: Some(k), value: if b { 1i64 } else { 0i64 } }]),
        x matches PyValue::Float(f) ==> object_instrs(es.push((PyValue::Str(k), x)))
            == followed_by(object_instrs(es), seq![JblInstr::SetF64 { key: Some(k), bits: f }]),
        x matches PyValue::Str(t) ==> object_instrs(es.push((PyValue::Str(k), x))) == (if has_nul(t@) {
            None
        } else {
            followed_by(object_instrs(es), seq![JblInstr::SetString { key: Some(k), text: t }])
        }),
        (x is BigInt || x is Other) ==> object_instrs(es.push((PyValue::Str(k), x))) is None,
{
    let e = (PyValue::Str(k), x);
    assert(es.push(e).drop_last() =~= es);
    assert(es.push(e).last() == e);
    let key = Some(k);
    match x {
        PyValue::Int(i) => assert(value_instrs(x, key, false) == Some(seq![JblInstr::SetInt64 { key, value: i }])),
        PyValue::Bool(b) => assert(value_instrs(x, key, false)
            == Some(seq![JblInstr::SetInt64 { key, value: if b { 1i64 } else { 0i64 } }])),
        PyValue::Float(f) => assert(value_instrs(x, key, false) == Some(seq![JblInstr::SetF64 { key, bits: f }])),
        PyValue::Str(t) => if !has_nul(t@) {
            assert(value_instrs(x, key, false) == Some(seq![JblInstr::SetString { key, text: t }]));
        },
        _ => assert(value_instrs(x, key, false) is None),
    }
}

/// A scalar item of a list or set is appended with exactly the Python value: an int as that
/// integer, a bool as 1 or 0, a float with the same IEEE-754 bits, a string as that text.
pub proof fn lemma_array_scalar_item_stored(items: Seq<PyValue>, in_set: bool, x: PyValue)
    requires
        !(x is Dict || x is List || x is PySet),
    ensures
        x matches PyValue::Int(i) ==> array_instrs(items.push(x), in_set)
            == followed_by(array_instrs(items, in_set), seq![JblInstr::SetInt64 { key: None, value: i }]),
        x matches PyValue::Bool(b) ==> array_instrs(items.push(x), in_set)
            == followed_by(array_instrs(items, in_set), seq![JblInstr::SetInt64 { key: None, value: if b { 1i64 } else { 0i64 } }]),
        x matches PyValue::Float(f) ==> array_instrs(items.push(x), in_set)
            == followed_by(array_instrs(items, in_set), seq![JblInstr::SetF64 { key: None, bits: f }]),
        x matches PyValue::Str(t) ==> array_instrs(items.push(x), in_set) == (if has_nul(t@) {
            None
        } else {
            followed_by(array_instrs(items, in_set), seq![JblInstr::SetString { key: None, text: t }])
        }),
        (x is BigInt || x is Other) ==> array_instrs(items.push(x), in_set) is None,
{
    assert(items.push(x).drop_last() =~= items);
    assert(items.push(x).last() == x);
    let key = None::<String>;
    match x {
        PyValue::Int(i) => assert(value_instrs(x, key, in_set) == Some(seq![JblInstr::SetInt64 { key, value: i }])),
        PyValue::Bool(b) => assert(value_instrs(x, key, in_set)
            == Some(seq![JblInstr::SetInt64 { key, value: if b { 1i64 } else { 0i64 } }])),
        PyValue::Float(f) => assert(value_instrs(x, key, in_set) == Some(seq![JblInstr::SetF64 { key, bits: f }])),
        PyValue::Str(t) => if !has_nul(t@) {
            assert(value_instrs(x, key, in_set) == Some(seq![JblInstr::SetString { key, text: t }]));
        },
        _ => assert(value_instrs(x, key, in_set) is None),
    }
}

} // verus!
