use vstd::prelude::*;
use crate::builder::{build_step, frames_after, lemma_frames_track_nesting, lemma_place_keeps_depth};
use crate::jbl::{iter_rc, JblIter, JblValue};
use crate::value::{lemma_steps_push, steps, value_delta, value_depth, ValueInstr, ValueStep};
use crate::nesting::{balanced, lemma_balanced_concat, lemma_balanced_empty, lemma_balanced_single, lemma_wrap, nesting};

verus! {

/// Why reading a JBL container fails.
#[derive(Debug, Clone, Copy, PartialEq, Eq)]
pub enum ReadFailure {
    /// `jbl_create_iterator_holder`, or else `jbl_iterator_init`, returned this code.
    Code(u64),
    /// A key does not fit the 256-byte key buffer (with a NUL left in it).
    KeyTooLong,
}

/// The key bytes are copied into a zeroed buffer of 256 bytes and read back up to the first NUL:
/// that is defined when the key fits with a NUL left in the buffer.
pub open spec fn key_fits(raw: Seq<u8>) -> bool {
    raw.len() < 256 || (raw.len() == 256 && raw.contains(0u8))
}

/// The bytes of `raw` before its first NUL (all of them when it has none).
pub open spec fn before_nul(raw: Seq<u8>) -> Seq<u8>
    decreases raw.len(),
{
    if raw.len() == 0 {
        raw
    } else if raw[0] == 0u8 {
        Seq::empty()
    } else {
        seq![raw[0]] + before_nul(raw.drop_first())
    }
}

/// The steps for one value, or why reading it fails: a bool is true when its integer is not 0;
/// null values and values of no type read here give no step.
pub open spec fn value_py(v: JblValue) -> Result<Seq<ValueStep>, ReadFailure>
    decreases v, 2int,
{
    match v {
        JblValue::Bool(i) => Ok(seq![ValueStep::Bool(i != 0i32)]),
        JblValue::I64(i) => Ok(seq![ValueStep::Int(i)]),
        JblValue::F64(b) => Ok(seq![ValueStep::Float(b)]),
        JblValue::Str(s) => Ok(seq![ValueStep::Str(s@)]),
        JblValue::Object(it) => object_py(it),
        JblValue::Array(it) => array_py(it),
        _ => Ok(Seq::empty()),
    }
}

/// The steps for the entries of an object (`keyed`: each value preceded by its key, which must
/// fit the key buffer) or of an array (keys not read). The first entry that fails, in order,
/// gives the failure; a key is read before its value.
pub open spec fn entries_py(es: Seq<(Vec<u8>, JblValue)>, keyed: bool) -> Result<Seq<ValueStep>, ReadFailure>
    decreases es, 0int,
{
    if es.len() == 0 {
        Ok(Seq::empty())
    } else {
        let e = es.last();
        match entries_py(es.drop_last(), keyed) {
            Err(f) => Err(f),
            Ok(a) => if keyed && !key_fits(e.0@) {
                Err(ReadFailure::KeyTooLong)
            } else {
                match value_py(e.1) {
                    Err(f) => Err(f),
                    Ok(b) => if keyed {
                        Ok(a + seq![ValueStep::Key(before_nul(e.0@))] + b)
                    } else {
                        Ok(a + b)
                    },
                }
            },
        }
    }
}

/// The steps for an object: a dict of its entries, or the code of the iterator call that failed.
pub open spec fn object_py(it: JblIter) -> Result<Seq<ValueStep>, ReadFailure>
    decreases it, 1int,
{
    if iter_rc(it) != 0 {
        Err(ReadFailure::Code(iter_rc(it)))
    } else {
        match entries_py(it.entries@, true) {
            Ok(b) => Ok(seq![ValueStep::BeginDict] + b + seq![ValueStep::End]),
            Err(f) => Err(f),
        }
    }
}

/// The steps for an array: a list of its items, or the code of the iterator call that failed.
pub open spec fn array_py(it: JblIter) -> Result<Seq<ValueStep>, ReadFailure>
    decreases it, 1int,
{
    if iter_rc(it) != 0 {
        Err(ReadFailure::Code(iter_rc(it)))
    } else {
        match entries_py(it.entries@, false) {
            Ok(b) => Ok(seq![ValueStep::BeginList] + b + seq![ValueStep::End]),
            Err(f) => Err(f),
        }
    }
}

proof fn lemma_before_nul_prefix(raw: Seq<u8>, i: int)
    requires
        0 <= i <= raw.len(),
        forall|j: int| 0 <= j < i ==> raw[j] != 0u8,
        i == raw.len() || raw[i] == 0u8,
    ensures
        before_nul(raw) == raw.take(i),
    decreases raw.len(),
{
    if raw.len() == 0 {
        assert(raw.take(i) =~= raw);
    } else if raw[0] == 0u8 {
        assert(i == 0);
        assert(raw.take(i) =~= Seq::<u8>::empty());
    } else {
        let rest = raw.drop_first();
        assert forall|j: int| 0 <= j < i - 1 implies rest[j] != 0u8 by {
            assert(rest[j] == raw[j + 1]);
        }
        lemma_before_nul_prefix(rest, i - 1);
        assert(seq![raw[0]] + rest.take(i - 1) =~= raw.take(i));
    }
}

/// The key as the binding reads it back from its buffer: the bytes before the first NUL.
fn key_bytes(raw: &Vec<u8>) -> (k: Vec<u8>)
    ensures
        k@ == before_nul(raw@),
{
    let mut k: Vec<u8> = Vec::new();
    let n = raw.len();
    let mut i: usize = 0;
    while i < n && raw[i] != 0u8
        invariant
            n == raw@.len(),
            0 <= i <= n,
            forall|j: int| 0 <= j < i ==> raw@[j] != 0u8,
            k@ == raw@.take(i as int),
        decreases n - i,
    {
        k.push(raw[i]);
        assert(k@ =~= raw@.take(i + 1));
        i = i + 1;
    }
    proof {
        lemma_before_nul_prefix(raw@, i as int);
    }
    k
}

fn fits_buffer(raw: &Vec<u8>) -> (r: bool)
    ensures
        r == key_fits(raw@),
{
    let n = raw.len();
    if n < 256 {
        return true;
    }
    if n > 256 {
        return false;
    }
    let mut i: usize = 0;
    while i < n
        invariant
            n == raw@.len(),
            n == 256,
            0 <= i <= n,
            forall|j: int| 0 <= j < i ==> raw@[j] != 0u8,
        decreases n - i,
    {
        if raw[i] == 0u8 {
            assert(raw@[i as int] == 0u8);
            assert(raw@.contains(0u8));
            return true;
        }
        i = i + 1;
    }
    false
}

/// Once a prefix of the entries fails, every longer prefix fails the same way.
proof fn lemma_entries_failure_persists(es: Seq<(Vec<u8>, JblValue)>, keyed: bool, i: int, j: int, f: ReadFailure)
    requires
        0 <= i <= j <= es.len(),
        entries_py(es.take(i), keyed) == Err::<Seq<ValueStep>, ReadFailure>(f),
    ensures
        entries_py(es.take(j), keyed) == Err::<Seq<ValueStep>, ReadFailure>(f),
    decreases j - i,
{
    if j > i {
        lemma_entries_failure_persists(es, keyed, i, j - 1, f);
        assert(es.take(j).drop_last() =~= es.take(j - 1));
    }
}

fn push_value_py(v: &JblValue, out: &mut Vec<ValueInstr>) -> (r: Result<(), ReadFailure>)
    ensures
        r matches Err(f) ==> value_py(*v) == Err::<Seq<ValueStep>, ReadFailure>(f),
        r is Ok ==> (value_py(*v) is Ok && steps(final(out)@) == steps(old(out)@) + value_py(*v)->Ok_0),
    decreases v, 2int,
{
    let ghost before = out@;
    let x = match v {
        JblValue::Bool(i) => ValueInstr::Bool(*i != 0i32),
        JblValue::I64(i) => ValueInstr::Int(*i),
        JblValue::F64(b) => ValueInstr::Float(*b),
        JblValue::Str(s) => ValueInstr::Str(s.clone()),
        JblValue::Object(it) => {
            return from_jbl_object(it, out);
        },
        JblValue::Array(it) => {
            return from_jbl_array(it, out);
        },
        _ => {
            assert(steps(out@) =~= steps(old(out)@) + value_py(*v)->Ok_0);
            return Ok(());
        },
    };
    out.push(x);
    proof {
        lemma_steps_push(before, x);
        assert(steps(out@) =~= steps(old(out)@) + value_py(*v)->Ok_0);
    }
    Ok(())
}

fn push_entries_py(es: &Vec<(Vec<u8>, JblValue)>, keyed: bool, out: &mut Vec<ValueInstr>) -> (r: Result<(), ReadFailure>)
    ensures
        r matches Err(f) ==> entries_py(es@, keyed) == Err::<Seq<ValueStep>, ReadFailure>(f),
        r is Ok ==> (entries_py(es@, keyed) is Ok && steps(final(out)@) == steps(old(out)@) + entries_py(es@, keyed)->Ok_0),
    decreases es, 0int,
{
    let n = es.len();
    let mut i: usize = 0;
    assert(es@.take(0) =~= Seq::<(Vec<u8>, JblValue)>::empty());
    while i < n
        invariant
            n == es@.len(),
            0 <= i <= n,
            entries_py(es@.take(i as int), keyed) is Ok,
            steps(out@) == steps(old(out)@) + entries_py(es@.take(i as int), keyed)->Ok_0,
        decreases n - i,
    {
        assert(es@.take(i + 1).drop_last() =~= es@.take(i as int));
        assert(es@.take(i + 1).last() == es@[i as int]);
        let entry = &es[i];
        let ghost mid0 = out@;
        if keyed {
            if !fits_buffer(&entry.0) {
                proof {
                    lemma_entries_failure_persists(es@, keyed, i + 1, n as int, ReadFailure::KeyTooLong);
                    assert(es@.take(n as int) =~= es@);
                }
                return Err(ReadFailure::KeyTooLong);
            }
            let k = ValueInstr::Key(key_bytes(&entry.0));
            out.push(k);
            proof {
                lemma_steps_push(mid0, k);
            }
        }
        match push_value_py(&entry.1, out) {
            Err(f) => {
                proof {
                    lemma_entries_failure_persists(es@, keyed, i + 1, n as int, f);
                    assert(es@.take(n as int) =~= es@);
                }
                return Err(f);
            },
            Ok(()) => {},
        }
        assert(steps(out@) =~= steps(old(out)@) + entries_py(es@.take(i + 1), keyed)->Ok_0);
        i = i + 1;
    }
    assert(es@.take(n as int) =~= es@);
    Ok(())
}

/// Reads an object into the steps that build its dict. When `jbl_create_iterator_holder` fails
/// its code is the error, else when `jbl_iterator_init` fails its code is; failures inside
/// come back as they are.
fn from_jbl_object(it: &JblIter, out: &mut Vec<ValueInstr>) -> (r: Result<(), ReadFailure>)
    ensures
        it.holder_rc != 0 ==> r == Err::<(), ReadFailure>(ReadFailure::Code(it.holder_rc)),
        it.holder_rc == 0 && it.init_rc != 0 ==> r == Err::<(), ReadFailure>(ReadFailure::Code(it.init_rc)),
        r matches Err(f) ==> object_py(*it) == Err::<Seq<ValueStep>, ReadFailure>(f),
        r is Ok ==> (object_py(*it) is Ok && steps(final(out)@) == steps(old(out)@) + object_py(*it)->Ok_0),
    decreases it, 1int,
{
    if it.holder_rc != 0 {
        return Err(ReadFailure::Code(it.holder_rc));
    }
    if it.init_rc != 0 {
        return Err(ReadFailure::Code(it.init_rc));
    }
    let ghost before = out@;
    out.push(ValueInstr::BeginDict);
    proof { lemma_steps_push(before, ValueInstr::BeginDict); }
    match push_entries_py(&it.entries, true, out) {
        Err(f) => {
            return Err(f);
        },
        Ok(()) => {},
    }
    let ghost mid = out@;
    out.push(ValueInstr::End);
    proof {
        lemma_steps_push(mid, ValueInstr::End);
        assert(steps(out@) =~= steps(old(out)@) + object_py(*it)->Ok_0);
    }
    Ok(())
}

/// Reads an array into the steps that build its list, failing as `from_jbl_object` does.
fn from_jbl_array(it: &JblIter, out: &mut Vec<ValueInstr>) -> (r: Result<(), ReadFailure>)
    ensures
        it.holder_rc != 0 ==> r == Err::<(), ReadFailure>(ReadFailure::Code(it.holder_rc)),
        it.holder_rc == 0 && it.init_rc != 0 ==> r == Err::<(), ReadFailure>(ReadFailure::Code(it.init_rc)),
        r matches Err(f) ==> array_py(*it) == Err::<Seq<ValueStep>, ReadFailure>(f),
        r is Ok ==> (array_py(*it) is Ok && steps(final(out)@) == steps(old(out)@) + array_py(*it)->Ok_0),
    decreases it, 1int,
{
    if it.holder_rc != 0 {
        return Err(ReadFailure::Code(it.holder_rc));
    }
    if it.init_rc != 0 {
        return Err(ReadFailure::Code(it.init_rc));
    }
    let ghost before = out@;
    out.push(ValueInstr::BeginList);
    proof { lemma_steps_push(before, ValueInstr::BeginList); }
    match push_entries_py(&it.entries, false, out) {
        Err(f) => {
            return Err(f);
        },
        Ok(()) => {},
    }
    let ghost mid = out@;
    out.push(ValueInstr::End);
    proof {
        lemma_steps_push(mid, ValueInstr::End);
        assert(steps(out@) =~= steps(old(out)@) + array_py(*it)->Ok_0);
    }
    Ok(())
}

/// True when `from_jbl` accepts the value's type at all: objects and arrays.
pub open spec fn is_jbl_container(v: JblValue) -> bool {
    v is Object || v is Array
}

/// The steps that build the Python object for a JBL object or array, or why reading fails
/// (`Code(0)` for anything else, which `from_jbl` refuses with 0).
pub open spec fn py_plan(v: JblValue) -> Result<Seq<ValueStep>, ReadFailure> {
    match v {
        JblValue::Object(it) => object_py(it),
        JblValue::Array(it) => array_py(it),
        _ => Err(ReadFailure::Code(0)),
    }
}

/// Why reading a container fails, where the binding panics (through `unwrap`, which shows the
/// failing code) or reads past its key buffer; `None` when it does not.
pub open spec fn from_jbl_failure_of(v: JblValue) -> Option<ReadFailure> {
    if is_jbl_container(v) {
        match py_plan(v) {
            Err(f) => Some(f),
            Ok(_) => None,
        }
    } else {
        None
    }
}

/// The binding panics, or reads past its key buffer, exactly when reading fails.
pub open spec fn from_jbl_panics(v: JblValue) -> bool {
    from_jbl_failure_of(v) is Some
}

/// Why reading `value` fails inside the container, where the binding panics.
pub fn from_jbl_failure(value: &JblValue) -> (r: Option<ReadFailure>)
    ensures
        r == from_jbl_failure_of(*value),
{
    let mut scratch: Vec<ValueInstr> = Vec::new();
    let read = match value {
        JblValue::Object(it) => from_jbl_object(it, &mut scratch),
        JblValue::Array(it) => from_jbl_array(it, &mut scratch),
        _ => {
            return None;
        },
    };
    match read {
        Err(f) => Some(f),
        Ok(()) => None,
    }
}

/// Converts a JBL document into the instructions that build its Python object:
/// `Err(0)` for anything but an object or an array.
pub fn from_jbl(value: &JblValue) -> (r: Result<Vec<ValueInstr>, u64>)
    requires
        !from_jbl_panics(*value),
    ensures
        !is_jbl_container(*value) ==> r == Err::<Vec<ValueInstr>, u64>(0),
        is_jbl_container(*value) ==> (r matches Ok(p) && steps(p@) == py_plan(*value)->Ok_0),
{
    let mut out: Vec<ValueInstr> = Vec::new();
    let read = match value {
        JblValue::Object(it) => from_jbl_object(it, &mut out),
        JblValue::Array(it) => from_jbl_array(it, &mut out),
        _ => {
            return Err(0);
        },
    };
    assert(read is Ok);
    assert(steps(Seq::<ValueInstr>::empty()) =~= Seq::<ValueStep>::empty());
    assert(steps(out@) =~= py_plan(*value)->Ok_0);
    Ok(out)
}

/// Null values, and values of no type the bindings read, leave no trace in an array.
pub proof fn lemma_array_skips_nulls(es: Seq<(Vec<u8>, JblValue)>, key: Vec<u8>, v: JblValue)
    requires
        v is Null || v is NoneValue || v is Other,
    ensures
        entries_py(es.push((key, v)), false) == entries_py(es, false),
{
    assert(es.push((key, v)).drop_last() =~= es);
    assert(es.push((key, v)).last() == (key, v));
    assert(value_py(v) == Ok::<Seq<ValueStep>, ReadFailure>(Seq::<ValueStep>::empty()));
    let r = entries_py(es, false);
    if r is Ok {
        assert(r->Ok_0 + Seq::<ValueStep>::empty() =~= r->Ok_0);
    }
}

/// In an object, such a value leaves only its key, which no value follows.
pub proof fn lemma_object_keeps_only_key_of_null(es: Seq<(Vec<u8>, JblValue)>, key: Vec<u8>, v: JblValue)
    requires
        v is Null || v is NoneValue || v is Other,
        key_fits(key@),
        entries_py(es, true) is Ok,
    ensures
        entries_py(es.push((key, v)), true) == Ok::<Seq<ValueStep>, ReadFailure>(
            entries_py(es, true)->Ok_0 + seq![ValueStep::Key(before_nul(key@))],
        ),
{
    assert(es.push((key, v)).drop_last() =~= es);
    assert(es.push((key, v)).last() == (key, v));
    assert(value_py(v) == Ok::<Seq<ValueStep>, ReadFailure>(Seq::<ValueStep>::empty()));
    assert(entries_py(es, true)->Ok_0 + seq![ValueStep::Key(before_nul(key@))] + Seq::<ValueStep>::empty()
        =~= entries_py(es, true)->Ok_0 + seq![ValueStep::Key(before_nul(key@))]);
}

/// A key is read up to its first NUL: what follows is ignored.
pub proof fn lemma_key_ends_at_nul(raw: Seq<u8>, i: int)
    requires
        0 <= i < raw.len(),
        raw[i] == 0u8,
        forall|j: int| 0 <= j < i ==> raw[j] != 0u8,
    ensures
        before_nul(raw) == raw.take(i),
{
    lemma_before_nul_prefix(raw, i);
}

proof fn lemma_value_py_balanced(v: JblValue)
    requires
        value_py(v) is Ok,
    ensures
        balanced(value_py(v)->Ok_0, value_depth()),
    decreases v, 2int,
{
    match v {
        JblValue::Object(it) => lemma_object_py_balanced(it),
        JblValue::Array(it) => lemma_array_py_balanced(it),
        JblValue::Bool(_) | JblValue::I64(_) | JblValue::F64(_) | JblValue::Str(_) => {
            let x = value_py(v)->Ok_0[0];
            lemma_balanced_single(x, value_depth());
            assert(seq![x] =~= value_py(v)->Ok_0);
        },
        _ => lemma_balanced_empty(value_depth()),
    }
}

proof fn lemma_entries_py_balanced(es: Seq<(Vec<u8>, JblValue)>, keyed: bool)
    requires
        entries_py(es, keyed) is Ok,
    ensures
        balanced(entries_py(es, keyed)->Ok_0, value_depth()),
    decreases es, 0int,
{
    if es.len() == 0 {
        lemma_balanced_empty(value_depth());
    } else {
        let e = es.last();
        lemma_entries_py_balanced(es.drop_last(), keyed);
        lemma_value_py_balanced(e.1);
        let a = entries_py(es.drop_last(), keyed)->Ok_0;
        let b = value_py(e.1)->Ok_0;
        if keyed {
            let k = seq![ValueStep::Key(before_nul(e.0@))];
            lemma_balanced_single(ValueStep::Key(before_nul(e.0@)), value_depth());
            lemma_balanced_concat(a, k, value_depth());
            lemma_balanced_concat(a + k, b, value_depth());
        } else {
            lemma_balanced_concat(a, b, value_depth());
        }
    }
}

proof fn lemma_object_py_balanced(it: JblIter)
    requires
        object_py(it) is Ok,
    ensures
        balanced(object_py(it)->Ok_0, value_depth()),
        forall|i: int| 1 <= i < object_py(it)->Ok_0.len() ==> nesting(#[trigger] object_py(it)->Ok_0.take(i), value_depth()) >= 1,
    decreases it, 1int,
{
    lemma_entries_py_balanced(it.entries@, true);
    lemma_wrap(ValueStep::BeginDict, entries_py(it.entries@, true)->Ok_0, ValueStep::End, value_depth());
}

proof fn lemma_array_py_balanced(it: JblIter)
    requires
        array_py(it) is Ok,
    ensures
        balanced(array_py(it)->Ok_0, value_depth()),
        forall|i: int| 1 <= i < array_py(it)->Ok_0.len() ==> nesting(#[trigger] array_py(it)->Ok_0.take(i), value_depth()) >= 1,
    decreases it, 1int,
{
    lemma_entries_py_balanced(it.entries@, false);
    lemma_wrap(ValueStep::BeginList, entries_py(it.entries@, false)->Ok_0, ValueStep::End, value_depth());
}

/// The steps for an object or array build exactly one Python object: they open its container
/// first, close it last, and stay inside it in between, closing whatever they open there.
pub proof fn lemma_py_plan_single_root(v: JblValue)
    requires
        is_jbl_container(v),
        !from_jbl_panics(v),
    ensures
        balanced(py_plan(v)->Ok_0, value_depth()),
        forall|i: int| 1 <= i < py_plan(v)->Ok_0.len() ==> nesting(#[trigger] py_plan(v)->Ok_0.take(i), value_depth()) >= 1,
{
    match v {
        JblValue::Object(it) => lemma_object_py_balanced(it),
        JblValue::Array(it) => lemma_array_py_balanced(it),
        _ => {},
    }
}

/// Replaying the steps read from an object or array, the builder holds as many open
/// containers as the steps have opened and not closed.
pub proof fn lemma_replay_depth(v: JblValue)
    requires
        is_jbl_container(v),
        !from_jbl_panics(v),
    ensures
        forall|i: int| 0 <= i <= py_plan(v)->Ok_0.len() ==>
            (#[trigger] frames_after(py_plan(v)->Ok_0.take(i))).len() == nesting(py_plan(v)->Ok_0.take(i), value_depth()),
{
    let p = py_plan(v)->Ok_0;
    lemma_py_plan_single_root(v);
    assert forall|i: int| 0 <= i <= p.len() implies (#[trigger] frames_after(p.take(i))).len() == nesting(p.take(i), value_depth()) by {
        lemma_frames_track_nesting(p, i);
    }
}

/// Replaying the steps read from an object or array, no `End` comes with no container open,
/// and only the last one, closing the outermost container, hands out the result.
pub proof fn lemma_replay_closes(v: JblValue)
    requires
        is_jbl_container(v),
        !from_jbl_panics(v),
    ensures
        forall|i: int| 0 <= i < py_plan(v)->Ok_0.len() && py_plan(v)->Ok_0[i] is End ==> {
            let a = build_step(frames_after(py_plan(v)->Ok_0.take(i)), py_plan(v)->Ok_0[i]).0;
            &&& a is Close
            &&& (a->Close_0 is Root <==> i == py_plan(v)->Ok_0.len() - 1)
        },
{
    let p = py_plan(v)->Ok_0;
    lemma_py_plan_single_root(v);
    assert(p.take(p.len() as int) =~= p);
    assert forall|i: int| 0 <= i < p.len() && p[i] is End implies ({
        let a = build_step(frames_after(p.take(i)), p[i]).0;
        &&& a is Close
        &&& (a->Close_0 is Root <==> i == p.len() - 1)
    }) by {
        lemma_frames_track_nesting(p, i);
        lemma_frames_track_nesting(p, i + 1);
        assert(p.take(i + 1).drop_last() =~= p.take(i));
        assert(p.take(i + 1).last() == p[i]);
        let fr = frames_after(p.take(i));
        assert(nesting(p.take(i + 1), value_depth()) == nesting(p.take(i), value_depth()) - 1);
        lemma_place_keeps_depth(fr.drop_last());
        if i + 1 < p.len() {
            assert(nesting(p.take(i + 1), value_depth()) >= 1);
        }
    }
}

/// Replaying the steps read from an object or array, every scalar goes into a container,
/// never out as the result.
pub proof fn lemma_replay_places_scalars(v: JblValue)
    requires
        is_jbl_container(v),
        !from_jbl_panics(v),
    ensures
        forall|i: int| 0 <= i < py_plan(v)->Ok_0.len() && (py_plan(v)->Ok_0[i] is Bool || py_plan(v)->Ok_0[i] is Int
            || py_plan(v)->Ok_0[i] is Float || py_plan(v)->Ok_0[i] is Str) ==> {
            let a = build_step(frames_after(py_plan(v)->Ok_0.take(i)), py_plan(v)->Ok_0[i]).0;
            &&& a is Place
            &&& !(a->Place_0 is Root)
        },
{
    let p = py_plan(v)->Ok_0;
    lemma_py_plan_single_root(v);
    assert forall|i: int| 0 <= i < p.len() && (p[i] is Bool || p[i] is Int || p[i] is Float || p[i] is Str) implies ({
        let a = build_step(frames_after(p.take(i)), p[i]).0;
        &&& a is Place
        &&& !(a->Place_0 is Root)
    }) by {
        lemma_frames_track_nesting(p, i);
        let fr = frames_after(p.take(i));
        lemma_place_keeps_depth(fr);
        if i == 0 {
            assert(p[0] is BeginDict || p[0] is BeginList);
        } else {
            assert(nesting(p.take(i), value_depth()) >= 1);
        }
    }
}


/// A float member of an object is read as exactly the float `jbl_get_f64` gave, sign and all:
/// it adds its key (up to the first NUL) and a float of the same IEEE-754 bits after what the
/// members before it add.
pub proof fn lemma_float_member_read(es: Seq<(Vec<u8>, JblValue)>, k: Vec<u8>, b: u64)
    requires
        key_fits(k@),
    ensures
        entries_py(es.push((k, JblValue::F64(b))), true) == (match entries_py(es, true) {
            Ok(a) => Ok(a + seq![ValueStep::Key(before_nul(k@)), ValueStep::Float(b)]),
            Err(f) => Err::<Seq<ValueStep>, ReadFailure>(f),
        }),
{
    let e = (k, JblValue::F64(b));
    assert(es.push(e).drop_last() =~= es);
    assert(es.push(e).last() == e);
    assert(value_py(JblValue::F64(b)) == Ok::<Seq<ValueStep>, ReadFailure>(seq![ValueStep::Float(b)]));
    if let Ok(a) = entries_py(es, true) {
        assert(a + seq![ValueStep::Key(before_nul(k@))] + seq![ValueStep::Float(b)]
            =~= a + seq![ValueStep::Key(before_nul(k@)), ValueStep::Float(b)]);
    }
}

/// A float item of an array is read as exactly the float `jbl_get_f64` gave, sign and all.
pub proof fn lemma_float_item_read(es: Seq<(Vec<u8>, JblValue)>, k: Vec<u8>, b: u64)
    ensures
        entries_py(es.push((k, JblValue::F64(b))), false) == (match entries_py(es, false) {
            Ok(a) => Ok(a + seq![ValueStep::Float(b)]),
            Err(f) => Err::<Seq<ValueStep>, ReadFailure>(f),
        }),
{
    let e = (k, JblValue::F64(b));
    assert(es.push(e).drop_last() =~= es);
    assert(es.push(e).last() == e);
    assert(value_py(JblValue::F64(b)) == Ok::<Seq<ValueStep>, ReadFailure>(seq![ValueStep::Float(b)]));
}

} // verus!
