use vstd::prelude::*;
use crate::builder::{build_step, place_in, BuildActionView, PlacementView};
use crate::value::ValueStep;

verus! {

/// A value as building it gives it: a scalar step, a dict of the values placed under each key
/// (a later value under a key replaces an earlier one), or a list of the values appended, in order.
pub enum Built {
    Scalar(ValueStep),
    Dict(Map<Seq<u8>, Built>),
    List(Seq<Built>),
}

/// A container being filled: a dict (with its pending key) or a list, and what it holds so far.
pub struct Partial {
    pub dict: bool,
    pub key: Option<Seq<u8>>,
    pub members: Map<Seq<u8>, Built>,
    pub items: Seq<Built>,
}

/// The state of building a value by doing what the builder says: the containers being filled,
/// innermost last, the finished value if any, and whether every step could apply.
pub struct Replay {
    pub open: Seq<Partial>,
    pub result: Option<Built>,
    pub ok: bool,
}

/// The builder's frames of the containers being filled.
pub open spec fn frames(open: Seq<Partial>) -> Seq<(bool, Option<Seq<u8>>)> {
    open.map_values(|p: Partial| (p.dict, p.key))
}

/// The state before the first step.
pub open spec fn initial() -> Replay {
    Replay { open: Seq::empty(), result: None, ok: true }
}

/// An empty container.
pub open spec fn empty_partial(dict: bool) -> Partial {
    Partial { dict, key: None, members: Map::empty(), items: Seq::empty() }
}

/// A filled container as a value.
pub open spec fn finished(p: Partial) -> Built {
    if p.dict {
        Built::Dict(p.members)
    } else {
        Built::List(p.items)
    }
}

/// Stores a finished value where a placement says: under its key in the innermost dict (the
/// key is then used up), appended to the innermost list, nowhere, or as the result.
pub open spec fn put(st: Replay, pl: PlacementView, b: Built) -> Replay {
    let top = st.open.last();
    match pl {
        PlacementView::Under(k) => Replay {
            open: st.open.drop_last().push(
                Partial { dict: top.dict, key: None, members: top.members.insert(k, b), items: top.items },
            ),
            result: st.result,
            ok: st.ok,
        },
        PlacementView::Append => Replay {
            open: st.open.drop_last().push(
                Partial { dict: top.dict, key: top.key, members: top.members, items: top.items.push(b) },
            ),
            result: st.result,
            ok: st.ok,
        },
        PlacementView::Discard => st,
        PlacementView::Root => Replay { open: st.open, result: Some(b), ok: st.ok },
    }
}

/// Stores a finished value where the builder places the next value.
pub open spec fn place_value(st: Replay, b: Built) -> Replay {
    put(st, place_in(frames(st.open)).0, b)
}

/// One step, done as `build_step` says: open a container, note a key, place a scalar, close
/// and place the innermost container; a step that cannot apply spoils the state.
pub open spec fn apply(st: Replay, x: ValueStep) -> Replay {
    if !st.ok {
        st
    } else {
        match build_step(frames(st.open), x).0 {
            BuildActionView::OpenDict => Replay { open: st.open.push(empty_partial(true)), result: st.result, ok: true },
            BuildActionView::OpenList => Replay { open: st.open.push(empty_partial(false)), result: st.result, ok: true },
            BuildActionView::KeyNoted => match x {
                ValueStep::Key(k) => {
                    let top = st.open.last();
                    Replay {
                        open: st.open.drop_last().push(
                            Partial { dict: top.dict, key: Some(k), members: top.members, items: top.items },
                        ),
                        result: st.result,
                        ok: true,
                    }
                },
                _ => st,
            },
            BuildActionView::Place(pl) => put(st, pl, Built::Scalar(x)),
            BuildActionView::Close(pl) => put(
                Replay { open: st.open.drop_last(), result: st.result, ok: true },
                pl,
                finished(st.open.last()),
            ),
            BuildActionView::Invalid => Replay { open: st.open, result: st.result, ok: false },
        }
    }
}

/// The state after doing the steps in order.
pub open spec fn run(st: Replay, s: Seq<ValueStep>) -> Replay
    decreases s.len(),
{
    if s.len() == 0 {
        st
    } else {
        apply(run(st, s.drop_last()), s.last())
    }
}

/// Doing two runs of steps one after the other is doing their concatenation.
pub proof fn lemma_run_concat(st: Replay, a: Seq<ValueStep>, b: Seq<ValueStep>)
    ensures
        run(st, a + b) == run(run(st, a), b),
    decreases b.len(),
{
    if b.len() == 0 {
        assert(a + b =~= a);
    } else {
        lemma_run_concat(st, a, b.drop_last());
        assert((a + b).drop_last() =~= a + b.drop_last());
        assert((a + b).last() == b.last());
    }
}

pub proof fn lemma_run_single(st: Replay, x: ValueStep)
    ensures
        run(st, seq![x]) == apply(st, x),
{
    assert(seq![x].drop_last() =~= Seq::<ValueStep>::empty());
    assert(run(st, Seq::<ValueStep>::empty()) == st);
}

pub proof fn lemma_frames_push(open: Seq<Partial>, p: Partial)
    ensures
        frames(open.push(p)) == frames(open).push((p.dict, p.key)),
{
    assert(frames(open.push(p)) =~= frames(open).push((p.dict, p.key)));
}

pub proof fn lemma_frames_drop_last(open: Seq<Partial>)
    requires
        open.len() > 0,
    ensures
        frames(open.drop_last()) == frames(open).drop_last(),
        frames(open).last() == (open.last().dict, open.last().key),
{
    assert(frames(open.drop_last()) =~= frames(open).drop_last());
}

/// A container opened, filled and closed: opening it and closing it again places what it
/// holds where the builder places the next value, the state below it unchanged.
pub proof fn lemma_open_close(st: Replay, dict: bool, fill: Seq<ValueStep>, filled: Partial)
    requires
        st.ok,
        filled.dict == dict,
        run(Replay { open: st.open.push(empty_partial(dict)), result: st.result, ok: true }, fill)
            == (Replay { open: st.open.push(filled), result: st.result, ok: true }),
    ensures
        run(st, seq![if dict { ValueStep::BeginDict } else { ValueStep::BeginList }] + fill + seq![ValueStep::End])
            == place_value(st, finished(filled)),
{
    let open_step = if dict { ValueStep::BeginDict } else { ValueStep::BeginList };
    let opened = Replay { open: st.open.push(empty_partial(dict)), result: st.result, ok: true };
    lemma_run_single(st, open_step);
    assert(apply(st, open_step) == opened);
    lemma_run_concat(st, seq![open_step], fill);
    let done = Replay { open: st.open.push(filled), result: st.result, ok: true };
    lemma_run_concat(st, seq![open_step] + fill, seq![ValueStep::End]);
    lemma_run_single(done, ValueStep::End);
    lemma_frames_drop_last(done.open);
    assert(done.open.drop_last() =~= st.open);
}

} // verus!
