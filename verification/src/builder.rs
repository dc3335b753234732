use vstd::prelude::*;
use crate::value::{value_delta, value_depth, ValueInstr, ValueStep};
use crate::nesting::nesting;

verus! {

/// A container being built: a dict (a Python dict or a JSON object) (with the key its next value goes under, if one is
/// pending) or a list.
#[derive(Debug, PartialEq, Eq)]
pub struct Frame {
    pub dict: bool,
    pub key: Option<Vec<u8>>,
}

/// The abstract content of a frame.
pub open spec fn frame_view(f: Frame) -> (bool, Option<Seq<u8>>) {
    (f.dict, match f.key {
        Some(k) => Some(k@),
        None => None,
    })
}

/// Where a finished value goes: into the innermost dict under the given key, appended to the
/// innermost list, nowhere (a dict with no key pending), or it is the result.
#[derive(Debug, PartialEq, Eq)]
pub enum Placement {
    Under(Vec<u8>),
    Append,
    Discard,
    Root,
}

pub enum PlacementView {
    Under(Seq<u8>),
    Append,
    Discard,
    Root,
}

impl View for Placement {
    type V = PlacementView;

    open spec fn view(&self) -> PlacementView {
        match self {
            Placement::Under(k) => PlacementView::Under(k@),
            Placement::Append => PlacementView::Append,
            Placement::Discard => PlacementView::Discard,
            Placement::Root => PlacementView::Root,
        }
    }
}

/// What the builder of a value does for one instruction: open a dict or a list, note
/// the key of the next entry (which must decode), place the instruction's scalar, close the
/// innermost container and place it, or nothing, for an instruction that cannot apply.
#[derive(Debug, PartialEq, Eq)]
pub enum BuildAction {
    OpenDict,
    OpenList,
    KeyNoted,
    Place(Placement),
    Close(Placement),
    Invalid,
}

pub enum BuildActionView {
    OpenDict,
    OpenList,
    KeyNoted,
    Place(PlacementView),
    Close(PlacementView),
    Invalid,
}

impl View for BuildAction {
    type V = BuildActionView;

    open spec fn view(&self) -> BuildActionView {
        match self {
            BuildAction::OpenDict => BuildActionView::OpenDict,
            BuildAction::OpenList => BuildActionView::OpenList,
            BuildAction::KeyNoted => BuildActionView::KeyNoted,
            BuildAction::Place(p) => BuildActionView::Place(p@),
            BuildAction::Close(p) => BuildActionView::Close(p@),
            BuildAction::Invalid => BuildActionView::Invalid,
        }
    }
}

/// The containers open while a value is built, innermost last.
pub struct ValueBuilder {
    frames: Vec<Frame>,
}

impl View for ValueBuilder {
    type V = Seq<(bool, Option<Seq<u8>>)>;

    closed spec fn view(&self) -> Seq<(bool, Option<Seq<u8>>)> {
        self.frames@.map_values(|f: Frame| frame_view(f))
    }
}

/// Where a value finished now goes, and the frames after placing it: a pending key is used up.
pub open spec fn place_in(fr: Seq<(bool, Option<Seq<u8>>)>) -> (PlacementView, Seq<(bool, Option<Seq<u8>>)>) {
    if fr.len() == 0 {
        (PlacementView::Root, fr)
    } else if fr.last().0 {
        match fr.last().1 {
            Some(k) => (PlacementView::Under(k), fr.drop_last().push((true, None))),
            None => (PlacementView::Discard, fr),
        }
    } else {
        (PlacementView::Append, fr)
    }
}

/// The action for one step and the frames after it.
pub open spec fn build_step(fr: Seq<(bool, Option<Seq<u8>>)>, x: ValueStep) -> (BuildActionView, Seq<(bool, Option<Seq<u8>>)>) {
    match x {
        ValueStep::BeginDict => (BuildActionView::OpenDict, fr.push((true, None))),
        ValueStep::BeginList => (BuildActionView::OpenList, fr.push((false, None))),
        ValueStep::Key(k) => if fr.len() > 0 && fr.last().0 {
            (BuildActionView::KeyNoted, fr.drop_last().push((true, Some(k))))
        } else {
            (BuildActionView::Invalid, fr)
        },
        ValueStep::End => if fr.len() == 0 {
            (BuildActionView::Invalid, fr)
        } else {
            (BuildActionView::Close(place_in(fr.drop_last()).0), place_in(fr.drop_last()).1)
        },
        _ => (BuildActionView::Place(place_in(fr).0), place_in(fr).1),
    }
}

impl ValueBuilder {
    /// A builder with no container open.
    pub fn new() -> (b: ValueBuilder)
        ensures
            b@ == Seq::<(bool, Option<Seq<u8>>)>::empty(),
    {
        let b = ValueBuilder { frames: Vec::new() };
        assert(b@ =~= Seq::<(bool, Option<Seq<u8>>)>::empty());
        b
    }

    /// How many containers are open.
    pub fn depth(&self) -> (n: usize)
        ensures
            n == self@.len(),
    {
        self.frames.len()
    }

    fn place(&mut self) -> (p: Placement)
        ensures
            p@ == place_in(old(self)@).0,
            final(self)@ == place_in(old(self)@).1,
    {
        let n = self.frames.len();
        if n == 0 {
            return Placement::Root;
        }
        if !self.frames[n - 1].dict {
            return Placement::Append;
        }
        let ghost before = self.frames@;
        let top = self.frames.pop().unwrap();
        assert(before.drop_last() =~= self.frames@);
        assert(before.last() == top);
        match top.key {
            Some(k) => {
                self.frames.push(Frame { dict: true, key: None });
                proof {
                    assert(self@ =~= place_in(old(self)@).1);
                }
                Placement::Under(k)
            },
            None => {
                self.frames.push(Frame { dict: true, key: None });
                proof {
                    assert(self.frames@ =~= before);
                    assert(self@ =~= old(self)@);
                }
                Placement::Discard
            },
        }
    }

    /// Takes one instruction and says what to do with it.
    pub fn step(&mut self, instr: &ValueInstr) -> (a: BuildAction)
        ensures
            a@ == build_step(old(self)@, instr@).0,
            final(self)@ == build_step(old(self)@, instr@).1,
    {
        match instr {
            ValueInstr::BeginDict => {
                self.frames.push(Frame { dict: true, key: None });
                assert(self@ =~= old(self)@.push((true, None::<Seq<u8>>)));
                BuildAction::OpenDict
            },
            ValueInstr::BeginList => {
                self.frames.push(Frame { dict: false, key: None });
                assert(self@ =~= old(self)@.push((false, None::<Seq<u8>>)));
                BuildAction::OpenList
            },
            ValueInstr::Key(k) => {
                let n = self.frames.len();
                if n == 0 || !self.frames[n - 1].dict {
                    return BuildAction::Invalid;
                }
                let ghost before = self.frames@;
                let kk = k.clone();
                assert(kk@ =~= k@);
                self.frames.pop();
                self.frames.push(Frame { dict: true, key: Some(kk) });
                assert(self@ =~= old(self)@.drop_last().push((true, Some(k@))));
                BuildAction::KeyNoted
            },
            ValueInstr::End => {
                if self.frames.len() == 0 {
                    return BuildAction::Invalid;
                }
                let ghost before = self@;
                self.frames.pop();
                assert(self@ =~= before.drop_last());
                BuildAction::Close(self.place())
            },
            _ => BuildAction::Place(self.place()),
        }
    }
}

/// Building never changes the number of open containers by other than what the step opens or
/// closes, except for an instruction that cannot apply.
pub proof fn lemma_step_depth(fr: Seq<(bool, Option<Seq<u8>>)>, x: ValueStep)
    requires
        !(build_step(fr, x).0 is Invalid),
    ensures
        build_step(fr, x).1.len() == fr.len() + value_delta(x),
{
}

/// The frames after building the given steps from no open container.
pub open spec fn frames_after(s: Seq<ValueStep>) -> Seq<(bool, Option<Seq<u8>>)>
    decreases s.len(),
{
    if s.len() == 0 {
        Seq::empty()
    } else {
        build_step(frames_after(s.drop_last()), s.last()).1
    }
}

pub proof fn lemma_place_keeps_depth(fr: Seq<(bool, Option<Seq<u8>>)>)
    ensures
        place_in(fr).1.len() == fr.len(),
        place_in(fr).0 is Root <==> fr.len() == 0,
{
}

pub proof fn lemma_frames_track_nesting(p: Seq<ValueStep>, i: int)
    requires
        0 <= i <= p.len(),
        forall|j: int| 0 <= j <= p.len() ==> nesting(#[trigger] p.take(j), value_depth()) >= 0,
    ensures
        frames_after(p.take(i)).len() == nesting(p.take(i), value_depth()),
    decreases i,
{
    if i > 0 {
        lemma_frames_track_nesting(p, i - 1);
        assert(p.take(i).drop_last() =~= p.take(i - 1));
        assert(p.take(i).last() == p[i - 1]);
        let fr = frames_after(p.take(i - 1));
        lemma_place_keeps_depth(fr);
        if fr.len() > 0 {
            lemma_place_keeps_depth(fr.drop_last());
        }
        assert(nesting(p.take(i), value_depth()) >= 0);
    }
}

} // verus!
