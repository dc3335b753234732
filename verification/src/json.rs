use vstd::prelude::*;
use crate::jbl::{iter_rc, JblIter, JblValue};
use crate::text::{has_nul, has_nul_str};
use crate::nesting::{balanced, lemma_balanced_concat, lemma_balanced_empty, lemma_balanced_single, lemma_wrap, nesting};
use crate::value::{lemma_steps_push, steps, value_depth, ValueInstr, ValueStep};

verus! {

/// A JSON value (as serde_json holds one), numbers as a 64-bit integer or the IEEE-754 bits
/// of a float; an object's members in order.
#[derive(Debug, PartialEq, Eq)]
pub enum JsonValue {
    Null,
    Bool(bool),
    Int(i64),
    Float(u64),
    Str(String),
    Array(Vec<JsonValue>),
    Object(Vec<(String, JsonValue)>),
}

/// One step of building a JBL document for a JSON value. `BeginObject`/`BeginArray` open a new
/// empty container; `End` closes the innermost one and stores it into the one around it under
/// `key` (it is the document when none is around). The `Set*` steps store a value into the
/// innermost open container, under `key` in an object, appended (`None`) in an array.
#[derive(Debug, PartialEq, Eq)]
pub enum JsonOp {
    BeginObject,
    BeginArray,
    End { key: Option<String> },
    SetNull { key: Option<String> },
    SetBool { key: Option<String>, value: bool },
    SetInt64 { key: Option<String>, value: i64 },
    /// `jbl_set_f64` with the float of these IEEE-754 bits.
    SetF64 { key: Option<String>, bits: u64 },
    SetString { key: Option<String>, text: String },
}

/// The steps for one value stored under `key`, or `None` where a string (a value or a member
/// name inside) holds a NUL, which a C string cannot carry.
pub open spec fn json_ops(v: JsonValue, key: Option<String>) -> Option<Seq<JsonOp>>
    decreases v, 1int,
{
    match v {
        JsonValue::Null => Some(seq![JsonOp::SetNull { key }]),
        JsonValue::Bool(b) => Some(seq![JsonOp::SetBool { key, value: b }]),
        JsonValue::Int(i) => Some(seq![JsonOp::SetInt64 { key, value: i }]),
        JsonValue::Float(b) => Some(seq![JsonOp::SetF64 { key, bits: b }]),
        JsonValue::Str(s) => if has_nul(s@) { None } else { Some(seq![JsonOp::SetString { key, text: s }]) },
        JsonValue::Array(items) => match items_ops(items@) {
            Some(n) => Some(seq![JsonOp::BeginArray] + n + seq![JsonOp::End { key }]),
            None => None,
        },
        JsonValue::Object(ms) => match members_ops(ms@) {
            Some(n) => Some(seq![JsonOp::BeginObject] + n + seq![JsonOp::End { key }]),
            None => None,
        },
    }
}

/// The steps for the items of an array, each appended.
pub open spec fn items_ops(items: Seq<JsonValue>) -> Option<Seq<JsonOp>>
    decreases items, 0int,
{
    if items.len() == 0 {
        Some(Seq::empty())
    } else {
        match (items_ops(items.drop_last()), json_ops(items.last(), None)) {
            (Some(a), Some(b)) => Some(a + b),
            _ => None,
        }
    }
}

/// The steps for the members of an object, each under its name.
pub open spec fn members_ops(ms: Seq<(String, JsonValue)>) -> Option<Seq<JsonOp>>
    decreases ms, 0int,
{
    if ms.len() == 0 {
        Some(Seq::empty())
    } else {
        let m = ms.last();
        match members_ops(ms.drop_last()) {
            Some(a) => if has_nul(m.0@) {
                None
            } else {
                match json_ops(m.1, Some(m.0)) {
                    Some(b) => Some(a + b),
                    None => None,
                }
            },
            None => None,
        }
    }
}

/// The steps that build the JBL document of an array or object: `None` for any other value,
/// which is no document, and where a string holds a NUL.
pub open spec fn json_plan(v: JsonValue) -> Option<Seq<JsonOp>> {
    if v is Array || v is Object {
        json_ops(v, None)
    } else {
        None
    }
}

proof fn lemma_items_failure_persists(items: Seq<JsonValue>, i: int, j: int)
    requires
        0 <= i <= j <= items.len(),
        items_ops(items.take(i)) is None,
    ensures
        items_ops(items.take(j)) is None,
    decreases j - i,
{
    if j > i {
        lemma_items_failure_persists(items, i, j - 1);
        assert(items.take(j).drop_last() =~= items.take(j - 1));
    }
}

proof fn lemma_members_failure_persists(ms: Seq<(String, JsonValue)>, i: int, j: int)
    requires
        0 <= i <= j <= ms.len(),
        members_ops(ms.take(i)) is None,
    ensures
        members_ops(ms.take(j)) is None,
    decreases j - i,
{
    if j > i {
        lemma_members_failure_persists(ms, i, j - 1);
        assert(ms.take(j).drop_last() =~= ms.take(j - 1));
    }
}

fn clone_key(key: &Option<String>) -> (r: Option<String>)
    ensures
        r == *key,
{
    match key {
        Some(k) => Some(k.clone()),
        None => None,
    }
}

fn push_json(v: &JsonValue, key: &Option<String>, out: &mut Vec<JsonOp>) -> (ok: bool)
    ensures
        ok == json_ops(*v, *key) is Some,
        ok ==> final(out)@ == old(out)@ + json_ops(*v, *key).unwrap(),
    decreases v, 1int,
{
    match v {
        JsonValue::Null => {
            out.push(JsonOp::SetNull { key: clone_key(key) });
            true
        },
        JsonValue::Bool(b) => {
            out.push(JsonOp::SetBool { key: clone_key(key), value: *b });
            true
        },
        JsonValue::Int(i) => {
            out.push(JsonOp::SetInt64 { key: clone_key(key), value: *i });
            true
        },
        JsonValue::Float(b) => {
            out.push(JsonOp::SetF64 { key: clone_key(key), bits: *b });
            true
        },
        JsonValue::Str(s) => {
            if has_nul_str(s.as_str()) {
                false
            } else {
                out.push(JsonOp::SetString { key: clone_key(key), text: s.clone() });
                true
            }
        },
        JsonValue::Array(items) => {
            out.push(JsonOp::BeginArray);
            if !push_items(items, out) {
                return false;
            }
            out.push(JsonOp::End { key: clone_key(key) });
            proof {
                let n = items_ops(items@).unwrap();
                assert(out@ =~= old(out)@ + (seq![JsonOp::BeginArray] + n + seq![JsonOp::End { key: *key }]));
            }
            true
        },
        JsonValue::Object(ms) => {
            out.push(JsonOp::BeginObject);
            if !push_members(ms, out) {
                return false;
            }
            out.push(JsonOp::End { key: clone_key(key) });
            proof {
                let n = members_ops(ms@).unwrap();
                assert(out@ =~= old(out)@ + (seq![JsonOp::BeginObject] + n + seq![JsonOp::End { key: *key }]));
            }
            true
        },
    }
}

fn push_items(items: &Vec<JsonValue>, out: &mut Vec<JsonOp>) -> (ok: bool)
    ensures
        ok == items_ops(items@) is Some,
        ok ==> final(out)@ == old(out)@ + items_ops(items@).unwrap(),
    decreases items, 0int,
{
    let n = items.len();
    let mut i: usize = 0;
    let none: Option<String> = None;
    assert(items@.take(0) =~= Seq::<JsonValue>::empty());
    while i < n
        invariant
            n == items@.len(),
            0 <= i <= n,
            none is None,
            items_ops(items@.take(i as int)) is Some,
            out@ == old(out)@ + items_ops(items@.take(i as int)).unwrap(),
        decreases n - i,
    {
        assert(items@.take(i + 1).drop_last() =~= items@.take(i as int));
        assert(items@.take(i + 1).last() == items@[i as int]);
        if !push_json(&items[i], &none, out) {
            proof {
                lemma_items_failure_persists(items@, i + 1, n as int);
                assert(items@.take(n as int) =~= items@);
            }
            return false;
        }
        assert(out@ =~= old(out)@ + items_ops(items@.take(i + 1)).unwrap());
        i = i + 1;
    }
    assert(items@.take(n as int) =~= items@);
    true
}

fn push_members(ms: &Vec<(String, JsonValue)>, out: &mut Vec<JsonOp>) -> (ok: bool)
    ensures
        ok == members_ops(ms@) is Some,
        ok ==> final(out)@ == old(out)@ + members_ops(ms@).unwrap(),
    decreases ms, 0int,
{
    let n = ms.len();
    let mut i: usize = 0;
    assert(ms@.take(0) =~= Seq::<(String, JsonValue)>::empty());
    while i < n
        invariant
            n == ms@.len(),
            0 <= i <= n,
            members_ops(ms@.take(i as int)) is Some,
            out@ == old(out)@ + members_ops(ms@.take(i as int)).unwrap(),
        decreases n - i,
    {
        assert(ms@.take(i + 1).drop_last() =~= ms@.take(i as int));
        assert(ms@.take(i + 1).last() == ms@[i as int]);
        let m = &ms[i];
        if has_nul_str(m.0.as_str()) {
            proof {
                lemma_members_failure_persists(ms@, i + 1, n as int);
                assert(ms@.take(n as int) =~= ms@);
            }
            return false;
        }
        let key = Some(m.0.clone());
        if !push_json(&m.1, &key, out) {
            proof {
                lemma_members_failure_persists(ms@, i + 1, n as int);
                assert(ms@.take(n as int) =~= ms@);
            }
            return false;
        }
        assert(out@ =~= old(out)@ + members_ops(ms@.take(i + 1)).unwrap());
        i = i + 1;
    }
    assert(ms@.take(n as int) =~= ms@);
    true
}

/// Converts a JSON value into the steps that build its JBL document: `Err(0)` for a value that
/// is no array or object, or that holds a string with a NUL.
pub fn json_to_jbl(value: &JsonValue) -> (r: Result<Vec<JsonOp>, u64>)
    ensures
        json_plan(*value) is None ==> r == Err::<Vec<JsonOp>, u64>(0),
        json_plan(*value) is Some ==> (r matches Ok(p) && p@ == json_plan(*value).unwrap()),
{
    match value {
        JsonValue::Array(_) | JsonValue::Object(_) => {
            let mut out: Vec<JsonOp> = Vec::new();
            let none: Option<String> = None;
            if push_json(value, &none, &mut out) {
                assert(out@ =~= json_plan(*value).unwrap());
                Ok(out)
            } else {
                Err(0)
            }
        },
        _ => Err(0),
    }
}

/// The steps that rebuild one JBL value as JSON, or the code of the first iterator call that
/// failed: null stays null, a bool is true when its integer is not 0, every member keeps its
/// whole key; a value of no JSON type (`NoneValue`, `Other`) gives no step.
pub open spec fn value_json(v: JblValue) -> Result<Seq<ValueStep>, u64>
    decreases v, 2int,
{
    match v {
        JblValue::Null => Ok(seq![ValueStep::Null]),
        JblValue::Bool(i) => Ok(seq![ValueStep::Bool(i != 0i32)]),
        JblValue::I64(i) => Ok(seq![ValueStep::Int(i)]),
        JblValue::F64(b) => Ok(seq![ValueStep::Float(b)]),
        JblValue::Str(s) => Ok(seq![ValueStep::Str(s@)]),
        JblValue::Object(it) => container_json(it, true),
        JblValue::Array(it) => container_json(it, false),
        _ => Ok(Seq::empty()),
    }
}

/// The steps for the entries of an object (`keyed`: each value after its key) or an array.
pub open spec fn entries_json(es: Seq<(Vec<u8>, JblValue)>, keyed: bool) -> Result<Seq<ValueStep>, u64>
    decreases es, 0int,
{
    if es.len() == 0 {
        Ok(Seq::empty())
    } else {
        let e = es.last();
        match entries_json(es.drop_last(), keyed) {
            Err(c) => Err(c),
            Ok(a) => match value_json(e.1) {
                Err(c) => Err(c),
                Ok(b) => if keyed {
                    Ok(a + seq![ValueStep::Key(e.0@)] + b)
                } else {
                    Ok(a + b)
                },
            },
        }
    }
}

/// The steps for an object (`keyed`) or an array: its container around its entries, or the
/// code of its iterator call that failed.
pub open spec fn container_json(it: JblIter, keyed: bool) -> Result<Seq<ValueStep>, u64>
    decreases it, 1int,
{
    if iter_rc(it) != 0 {
        Err(iter_rc(it))
    } else {
        match entries_json(it.entries@, keyed) {
            Ok(b) => Ok(seq![if keyed { ValueStep::BeginDict } else { ValueStep::BeginList }] + b + seq![ValueStep::End]),
            Err(c) => Err(c),
        }
    }
}

/// The steps that rebuild a JBL document as JSON: `Err(0)` for a value of no JSON type.
pub open spec fn json_read_plan(v: JblValue) -> Result<Seq<ValueStep>, u64> {
    if v is NoneValue || v is Other {
        Err(0)
    } else {
        value_json(v)
    }
}

proof fn lemma_entries_json_failure_persists(es: Seq<(Vec<u8>, JblValue)>, keyed: bool, i: int, j: int, c: u64)
    requires
        0 <= i <= j <= es.len(),
        entries_json(es.take(i), keyed) == Err::<Seq<ValueStep>, u64>(c),
    ensures
        entries_json(es.take(j), keyed) == Err::<Seq<ValueStep>, u64>(c),
    decreases j - i,
{
    if j > i {
        lemma_entries_json_failure_persists(es, keyed, i, j - 1, c);
        assert(es.take(j).drop_last() =~= es.take(j - 1));
    }
}

fn read_value(v: &JblValue, out: &mut Vec<ValueInstr>) -> (r: Result<(), u64>)
    ensures
        r matches Err(c) ==> value_json(*v) == Err::<Seq<ValueStep>, u64>(c),
        r is Ok ==> (value_json(*v) is Ok && steps(final(out)@) == steps(old(out)@) + value_json(*v)->Ok_0),
    decreases v, 2int,
{
    let ghost before = out@;
    let x = match v {
        JblValue::Null => ValueInstr::Null,
        JblValue::Bool(i) => ValueInstr::Bool(*i != 0i32),
        JblValue::I64(i) => ValueInstr::Int(*i),
        JblValue::F64(b) => ValueInstr::Float(*b),
        JblValue::Str(s) => ValueInstr::Str(s.clone()),
        JblValue::Object(it) => {
            return read_container(it, true, out);
        },
        JblValue::Array(it) => {
            return read_container(it, false, out);
        },
        _ => {
            assert(steps(out@) =~= steps(old(out)@) + value_json(*v)->Ok_0);
            return Ok(());
        },
    };
    out.push(x);
    proof {
        lemma_steps_push(before, x);
        assert(steps(out@) =~= steps(old(out)@) + value_json(*v)->Ok_0);
    }
    Ok(())
}

fn clone_bytes(k: &Vec<u8>) -> (r: Vec<u8>)
    ensures
        r@ == k@,
{
    let mut r: Vec<u8> = Vec::new();
    let n = k.len();
    let mut i: usize = 0;
    while i < n
        invariant
            n == k@.len(),
            0 <= i <= n,
            r@ == k@.take(i as int),
        decreases n - i,
    {
        r.push(k[i]);
        assert(r@ =~= k@.take(i + 1));
        i = i + 1;
    }
    assert(k@.take(n as int) =~= k@);
    r
}

fn read_entries(es: &Vec<(Vec<u8>, JblValue)>, keyed: bool, out: &mut Vec<ValueInstr>) -> (r: Result<(), u64>)
    ensures
        r matches Err(c) ==> entries_json(es@, keyed) == Err::<Seq<ValueStep>, u64>(c),
        r is Ok ==> (entries_json(es@, keyed) is Ok && steps(final(out)@) == steps(old(out)@) + entries_json(es@, keyed)->Ok_0),
    decreases es, 0int,
{
    let n = es.len();
    let mut i: usize = 0;
    assert(es@.take(0) =~= Seq::<(Vec<u8>, JblValue)>::empty());
    while i < n
        invariant
            n == es@.len(),
            0 <= i <= n,
            entries_json(es@.take(i as int), keyed) is Ok,
            steps(out@) == steps(old(out)@) + entries_json(es@.take(i as int), keyed)->Ok_0,
        decreases n - i,
    {
        assert(es@.take(i + 1).drop_last() =~= es@.take(i as int));
        assert(es@.take(i + 1).last() == es@[i as int]);
        let entry = &es[i];
        let ghost mid0 = out@;
        if keyed {
            let k = ValueInstr::Key(clone_bytes(&entry.0));
            out.push(k);
            proof {
                lemma_steps_push(mid0, k);
            }
        }
        match read_value(&entry.1, out) {
            Err(c) => {
                proof {
                    lemma_entries_json_failure_persists(es@, keyed, i + 1, n as int, c);
                    assert(es@.take(n as int) =~= es@);
                }
                return Err(c);
            },
            Ok(()) => {},
        }
        assert(steps(out@) =~= steps(old(out)@) + entries_json(es@.take(i + 1), keyed)->Ok_0);
        i = i + 1;
    }
    assert(es@.take(n as int) =~= es@);
    Ok(())
}

fn read_container(it: &JblIter, keyed: bool, out: &mut Vec<ValueInstr>) -> (r: Result<(), u64>)
    ensures
        it.holder_rc != 0 ==> r == Err::<(), u64>(it.holder_rc),
        it.holder_rc == 0 && it.init_rc != 0 ==> r == Err::<(), u64>(it.init_rc),
        r matches Err(c) ==> container_json(*it, keyed) == Err::<Seq<ValueStep>, u64>(c),
        r is Ok ==> (container_json(*it, keyed) is Ok && steps(final(out)@) == steps(old(out)@) + container_json(*it, keyed)->Ok_0),
    decreases it, 1int,
{
    if it.holder_rc != 0 {
        return Err(it.holder_rc);
    }
    if it.init_rc != 0 {
        return Err(it.init_rc);
    }
    let ghost before = out@;
    let open = if keyed { ValueInstr::BeginDict } else { ValueInstr::BeginList };
    out.push(open);
    proof { lemma_steps_push(before, open); }
    match read_entries(&it.entries, keyed, out) {
        Err(c) => {
            return Err(c);
        },
        Ok(()) => {},
    }
    let ghost mid = out@;
    out.push(ValueInstr::End);
    proof {
        lemma_steps_push(mid, ValueInstr::End);
        assert(steps(out@) =~= steps(old(out)@) + container_json(*it, keyed)->Ok_0);
    }
    Ok(())
}

/// Reads a JBL document into the steps that build its JSON value: the code of the first
/// iterator call that failed, or `Err(0)` for a value of no JSON type.
pub fn json_from_jbl(value: &JblValue) -> (r: Result<Vec<ValueInstr>, u64>)
    ensures
        json_read_plan(*value) matches Err(c) ==> r == Err::<Vec<ValueInstr>, u64>(c),
        json_read_plan(*value) matches Ok(p) ==> (r matches Ok(q) && steps(q@) == p),
{
    match value {
        JblValue::NoneValue | JblValue::Other(_) => Err(0),
        _ => {
            let mut out: Vec<ValueInstr> = Vec::new();
            assert(steps(Seq::<ValueInstr>::empty()) =~= Seq::<ValueStep>::empty());
            match read_value(value, &mut out) {
                Ok(()) => {
                    assert(steps(out@) =~= json_read_plan(*value)->Ok_0);
                    Ok(out)
                },
                Err(c) => Err(c),
            }
        },
    }
}

/// What a step opens (+1) or closes (-1) of the JBL containers being built.
pub open spec fn json_delta(x: JsonOp) -> int {
    match x {
        JsonOp::BeginObject => 1,
        JsonOp::BeginArray => 1,
        JsonOp::End { .. } => -1,
        _ => 0,
    }
}

pub open spec fn json_depth() -> spec_fn(JsonOp) -> int {
    |x: JsonOp| json_delta(x)
}

proof fn lemma_json_ops_balanced(v: JsonValue, key: Option<String>)
    requires
        json_ops(v, key) is Some,
    ensures
        balanced(json_ops(v, key).unwrap(), json_depth()),
    decreases v, 1int,
{
    match v {
        JsonValue::Array(items) => {
            lemma_items_balanced(items@);
            lemma_wrap(JsonOp::BeginArray, items_ops(items@).unwrap(), JsonOp::End { key }, json_depth());
        },
        JsonValue::Object(ms) => {
            lemma_members_balanced(ms@);
            lemma_wrap(JsonOp::BeginObject, members_ops(ms@).unwrap(), JsonOp::End { key }, json_depth());
        },
        _ => {
            let x = json_ops(v, key).unwrap()[0];
            lemma_balanced_single(x, json_depth());
            assert(seq![x] =~= json_ops(v, key).unwrap());
        },
    }
}

proof fn lemma_items_balanced(items: Seq<JsonValue>)
    requires
        items_ops(items) is Some,
    ensures
        balanced(items_ops(items).unwrap(), json_depth()),
    decreases items, 0int,
{
    if items.len() == 0 {
        lemma_balanced_empty(json_depth());
    } else {
        lemma_items_balanced(items.drop_last());
        lemma_json_ops_balanced(items.last(), None);
        lemma_balanced_concat(items_ops(items.drop_last()).unwrap(), json_ops(items.last(), None).unwrap(), json_depth());
    }
}

proof fn lemma_members_balanced(ms: Seq<(String, JsonValue)>)
    requires
        members_ops(ms) is Some,
    ensures
        balanced(members_ops(ms).unwrap(), json_depth()),
    decreases ms, 0int,
{
    if ms.len() == 0 {
        lemma_balanced_empty(json_depth());
    } else {
        let m = ms.last();
        lemma_members_balanced(ms.drop_last());
        lemma_json_ops_balanced(m.1, Some(m.0));
        lemma_balanced_concat(members_ops(ms.drop_last()).unwrap(), json_ops(m.1, Some(m.0)).unwrap(), json_depth());
    }
}

/// The steps for a JSON array or object build exactly one JBL document: they open its
/// container first, close it last, and stay inside it in between, closing whatever they open.
pub proof fn lemma_json_plan_single_root(v: JsonValue)
    requires
        json_plan(v) is Some,
    ensures
        balanced(json_plan(v).unwrap(), json_depth()),
        forall|i: int| 1 <= i < json_plan(v).unwrap().len() ==> nesting(#[trigger] json_plan(v).unwrap().take(i), json_depth()) >= 1,
{
    match v {
        JsonValue::Array(items) => {
            lemma_items_balanced(items@);
            lemma_wrap(JsonOp::BeginArray, items_ops(items@).unwrap(), JsonOp::End { key: None }, json_depth());
        },
        JsonValue::Object(ms) => {
            lemma_members_balanced(ms@);
            lemma_wrap(JsonOp::BeginObject, members_ops(ms@).unwrap(), JsonOp::End { key: None }, json_depth());
        },
        _ => {},
    }
}

proof fn lemma_value_json_balanced(v: JblValue)
    requires
        value_json(v) is Ok,
    ensures
        balanced(value_json(v)->Ok_0, value_depth()),
    decreases v, 2int,
{
    match v {
        JblValue::Object(it) => lemma_container_json_balanced(it, true),
        JblValue::Array(it) => lemma_container_json_balanced(it, false),
        JblValue::Null | JblValue::Bool(_) | JblValue::I64(_) | JblValue::F64(_) | JblValue::Str(_) => {
            let x = value_json(v)->Ok_0[0];
            lemma_balanced_single(x, value_depth());
            assert(seq![x] =~= value_json(v)->Ok_0);
        },
        _ => lemma_balanced_empty(value_depth()),
    }
}

proof fn lemma_entries_json_balanced(es: Seq<(Vec<u8>, JblValue)>, keyed: bool)
    requires
        entries_json(es, keyed) is Ok,
    ensures
        balanced(entries_json(es, keyed)->Ok_0, value_depth()),
    decreases es, 0int,
{
    if es.len() == 0 {
        lemma_balanced_empty(value_depth());
    } else {
        let e = es.last();
        lemma_entries_json_balanced(es.drop_last(), keyed);
        lemma_value_json_balanced(e.1);
        let a = entries_json(es.drop_last(), keyed)->Ok_0;
        let b = value_json(e.1)->Ok_0;
        if keyed {
            let k = seq![ValueStep::Key(e.0@)];
            lemma_balanced_single(ValueStep::Key(e.0@), value_depth());
            lemma_balanced_concat(a, k, value_depth());
            lemma_balanced_concat(a + k, b, value_depth());
        } else {
            lemma_balanced_concat(a, b, value_depth());
        }
    }
}

proof fn lemma_container_json_balanced(it: JblIter, keyed: bool)
    requires
        container_json(it, keyed) is Ok,
    ensures
        balanced(container_json(it, keyed)->Ok_0, value_depth()),
    decreases it, 1int,
{
    lemma_entries_json_balanced(it.entries@, keyed);
    let open = if keyed { ValueStep::BeginDict } else { ValueStep::BeginList };
    lemma_wrap(open, entries_json(it.entries@, keyed)->Ok_0, ValueStep::End, value_depth());
}

/// The steps read from a JBL document close every container they open, after opening it.
pub proof fn lemma_json_read_balanced(v: JblValue)
    requires
        json_read_plan(v) is Ok,
    ensures
        balanced(json_read_plan(v)->Ok_0, value_depth()),
{
    lemma_value_json_balanced(v);
}


/// A bool member of an object is stored under its name with exactly the JSON bool, false as
/// false: it adds one `jbl_set_bool` of that bool after what the members before it add.
pub proof fn lemma_bool_member_stored(ms: Seq<(String, JsonValue)>, k: String, b: bool)
    requires
        !has_nul(k@),
    ensures
        members_ops(ms.push((k, JsonValue::Bool(b)))) == (match members_ops(ms) {
            Some(a) => Some(a + seq![JsonOp::SetBool { key: Some(k), value: b }]),
            None => None::<Seq<JsonOp>>,
        }),
{
    let m = (k, JsonValue::Bool(b));
    assert(ms.push(m).drop_last() =~= ms);
    assert(ms.push(m).last() == m);
    assert(json_ops(JsonValue::Bool(b), Some(k)) == Some(seq![JsonOp::SetBool { key: Some(k), value: b }]));
}

/// A bool item of an array is appended with exactly the JSON bool, false as false.
pub proof fn lemma_bool_item_stored(items: Seq<JsonValue>, b: bool)
    ensures
        items_ops(items.push(JsonValue::Bool(b))) == (match items_ops(items) {
            Some(a) => Some(a + seq![JsonOp::SetBool { key: None, value: b }]),
            None => None::<Seq<JsonOp>>,
        }),
{
    assert(items.push(JsonValue::Bool(b)).drop_last() =~= items);
    assert(items.push(JsonValue::Bool(b)).last() == JsonValue::Bool(b));
    assert(json_ops(JsonValue::Bool(b), None) == Some(seq![JsonOp::SetBool { key: None, value: b }]));
}

/// An object of one bool member converts to a new object holding exactly that bool under its name.
pub proof fn lemma_bool_member_document(v: JsonValue, k: String, b: bool)
    requires
        v matches JsonValue::Object(ms) && ms@ == seq![(k, JsonValue::Bool(b))],
        !has_nul(k@),
    ensures
        json_plan(v) == Some(seq![
            JsonOp::BeginObject,
            JsonOp::SetBool { key: Some(k), value: b },
            JsonOp::End { key: None },
        ]),
{
    let ms = v->Object_0@;
    lemma_bool_member_stored(Seq::empty(), k, b);
    assert(Seq::<(String, JsonValue)>::empty().push((k, JsonValue::Bool(b))) =~= ms);
    assert(seq![JsonOp::BeginObject] + (Seq::<JsonOp>::empty() + seq![JsonOp::SetBool { key: Some(k), value: b }])
        + seq![JsonOp::End { key: None }] =~= seq![
            JsonOp::BeginObject,
            JsonOp::SetBool { key: Some(k), value: b },
            JsonOp::End { key: None },
        ]);
}

/// An integer member of an object is read as JSON with exactly the integer stored, negatives
/// and all: it adds its whole key and that integer after what the members before it add.
pub proof fn lemma_int_member_read(es: Seq<(Vec<u8>, JblValue)>, k: Vec<u8>, i: i64)
    ensures
        entries_json(es.push((k, JblValue::I64(i))), true) == (match entries_json(es, true) {
            Ok(a) => Ok(a + seq![ValueStep::Key(k@), ValueStep::Int(i)]),
            Err(c) => Err::<Seq<ValueStep>, u64>(c),
        }),
{
    let e = (k, JblValue::I64(i));
    assert(es.push(e).drop_last() =~= es);
    assert(es.push(e).last() == e);
    assert(value_json(JblValue::I64(i)) == Ok::<Seq<ValueStep>, u64>(seq![ValueStep::Int(i)]));
    if let Ok(a) = entries_json(es, true) {
        assert(a + seq![ValueStep::Key(k@)] + seq![ValueStep::Int(i)] =~= a + seq![ValueStep::Key(k@), ValueStep::Int(i)]);
    }
}

/// An integer item of an array is read as JSON with exactly the integer stored, negatives and all.
pub proof fn lemma_int_item_read(es: Seq<(Vec<u8>, JblValue)>, k: Vec<u8>, i: i64)
    ensures
        entries_json(es.push((k, JblValue::I64(i))), false) == (match entries_json(es, false) {
            Ok(a) => Ok(a + seq![ValueStep::Int(i)]),
            Err(c) => Err::<Seq<ValueStep>, u64>(c),
        }),
{
    let e = (k, JblValue::I64(i));
    assert(es.push(e).drop_last() =~= es);
    assert(es.push(e).last() == e);
    assert(value_json(JblValue::I64(i)) == Ok::<Seq<ValueStep>, u64>(seq![ValueStep::Int(i)]));
}


/// The steps of a prefix followed by some more, or none when the prefix has none.
pub open spec fn ops_followed_by(a: Option<Seq<JsonOp>>, b: Seq<JsonOp>) -> Option<Seq<JsonOp>> {
    match a {
        Some(x) => Some(x + b),
        None => None,
    }
}

/// A scalar member of an object is stored under its name with exactly the JSON value: null as
/// null, a bool as that bool, an integer as that integer, a float with the same bits, a string
/// as that text (one with a NUL makes the conversion fail).
pub proof fn lemma_scalar_member_stored(ms: Seq<(String, JsonValue)>, k: String, x: JsonValue)
    requires
        !has_nul(k@),
        !(x is Array || x is Object),
    ensures
        x is Null ==> members_ops(ms.push((k, x))) == ops_followed_by(members_ops(ms), seq![JsonOp::SetNull { key: Some(k) }]),
        x matches JsonValue::Bool(b) ==> members_ops(ms.push((k, x)))
            == ops_followed_by(members_ops(ms), seq![JsonOp::SetBool { key: Some(k), value: b }]),
        x matches JsonValue::Int(i) ==> members_ops(ms.push((k, x)))
            == ops_followed_by(members_ops(ms), seq![JsonOp::SetInt64 { key: Some(k), value: i }]),
        x matches JsonValue::Float(f) ==> members_ops(ms.push((k, x)))
            == ops_followed_by(members_ops(ms), seq![JsonOp::SetF64 { key: Some(k), bits: f }]),
        x matches JsonValue::Str(t) ==> members_ops(ms.push((k, x))) == (if has_nul(t@) {
            None
        } else {
            ops_followed_by(members_ops(ms), seq![JsonOp::SetString { key: Some(k), text: t }])
        }),
{
    let m = (k, x);
    assert(ms.push(m).drop_last() =~= ms);
    assert(ms.push(m).last() == m);
    let key = Some(k);
    match x {
        JsonValue::Null => assert(json_ops(x, key) == Some(seq![JsonOp::SetNull { key }])),
        JsonValue::Bool(b) => assert(json_ops(x, key) == Some(seq![JsonOp::SetBool { key, value: b }])),
        JsonValue::Int(i) => assert(json_ops(x, key) == Some(seq![JsonOp::SetInt64 { key, value: i }])),
        JsonValue::Float(f) => assert(json_ops(x, key) == Some(seq![JsonOp::SetF64 { key, bits: f }])),
        JsonValue::Str(t) => if !has_nul(t@) {
            assert(json_ops(x, key) == Some(seq![JsonOp::SetString { key, text: t }]));
        },
        _ => {},
    }
}

/// A scalar item of an array is appended with exactly the JSON value.
pub proof fn lemma_scalar_item_stored(items: Seq<JsonValue>, x: JsonValue)
    requires
        !(x is Array || x is Object),
    ensures
        x is Null ==> items_ops(items.push(x)) == ops_followed_by(items_ops(items), seq![JsonOp::SetNull { key: None }]),
        x matches JsonValue::Bool(b) ==> items_ops(items.push(x))
            == ops_followed_by(items_ops(items), seq![JsonOp::SetBool { key: None, value: b }]),
        x matches JsonValue::Int(i) ==> items_ops(items.push(x))
            == ops_followed_by(items_ops(items), seq![JsonOp::SetInt64 { key: None, value: i }]),
        x matches JsonValue::Float(f) ==> items_ops(items.push(x))
            == ops_followed_by(items_ops(items), seq![JsonOp::SetF64 { key: None, bits: f }]),
        x matches JsonValue::Str(t) ==> items_ops(items.push(x)) == (if has_nul(t@) {
            None
        } else {
            ops_followed_by(items_ops(items), seq![JsonOp::SetString { key: None, text: t }])
        }),
{
    assert(items.push(x).drop_last() =~= items);
    assert(items.push(x).last() == x);
    let key = None::<String>;
    match x {
        JsonValue::Null => assert(json_ops(x, key) == Some(seq![JsonOp::SetNull { key }])),
        JsonValue::Bool(b) => assert(json_ops(x, key) == Some(seq![JsonOp::SetBool { key, value: b }])),
        JsonValue::Int(i) => assert(json_ops(x, key) == Some(seq![JsonOp::SetInt64 { key, value: i }])),
        JsonValue::Float(f) => assert(json_ops(x, key) == Some(seq![JsonOp::SetF64 { key, bits: f }])),
        JsonValue::Str(t) => if !has_nul(t@) {
            assert(json_ops(x, key) == Some(seq![JsonOp::SetString { key, text: t }]));
        },
        _ => {},
    }
}

} // verus!
