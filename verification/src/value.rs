use vstd::prelude::*;

verus! {

/// One step of building a value (a Python object or a JSON value): `BeginDict`/`BeginList` open
/// a container, `End` closes the innermost one and places it like a scalar. `Key(k)` names the
/// entry that the next value, if any comes before the next `Key` or `End`, goes under.
#[derive(Debug, PartialEq, Eq)]
pub enum ValueInstr {
    BeginDict,
    BeginList,
    End,
    Key(Vec<u8>),
    /// A null (JSON only: Python reading skips nulls).
    Null,
    Bool(bool),
    Int(i64),
    Float(u64),
    Str(String),
}

/// The abstract content of a `ValueInstr`.
pub enum ValueStep {
    BeginDict,
    BeginList,
    End,
    Key(Seq<u8>),
    Null,
    Bool(bool),
    Int(i64),
    Float(u64),
    Str(Seq<char>),
}

impl View for ValueInstr {
    type V = ValueStep;

    open spec fn view(&self) -> ValueStep {
        match self {
            ValueInstr::BeginDict => ValueStep::BeginDict,
            ValueInstr::BeginList => ValueStep::BeginList,
            ValueInstr::End => ValueStep::End,
            ValueInstr::Key(k) => ValueStep::Key(k@),
            ValueInstr::Null => ValueStep::Null,
            ValueInstr::Bool(b) => ValueStep::Bool(*b),
            ValueInstr::Int(i) => ValueStep::Int(*i),
            ValueInstr::Float(b) => ValueStep::Float(*b),
            ValueInstr::Str(s) => ValueStep::Str(s@),
        }
    }
}

/// The abstract contents of a sequence of instructions.
pub open spec fn steps(s: Seq<ValueInstr>) -> Seq<ValueStep> {
    s.map_values(|x: ValueInstr| x@)
}

pub proof fn lemma_steps_push(a: Seq<ValueInstr>, x: ValueInstr)
    ensures
        steps(a.push(x)) == steps(a).push(x@),
{
    assert(steps(a.push(x)) =~= steps(a).push(x@));
}

pub proof fn lemma_steps_add(a: Seq<ValueInstr>, b: Seq<ValueInstr>)
    ensures
        steps(a + b) == steps(a) + steps(b),
{
    assert(steps(a + b) =~= steps(a) + steps(b));
}

/// What a step opens (+1) or closes (-1) of the containers being built.
pub open spec fn value_delta(x: ValueStep) -> int {
    match x {
        ValueStep::BeginDict => 1,
        ValueStep::BeginList => 1,
        ValueStep::End => -1,
        _ => 0,
    }
}

pub open spec fn value_depth() -> spec_fn(ValueStep) -> int {
    |x: ValueStep| value_delta(x)
}

} // verus!
