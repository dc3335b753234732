use vstd::prelude::*;

verus! {

/// A JBL value as the bindings read it through `jbl_type` and the `jbl_get_*` getters.
#[derive(Debug, PartialEq, Eq)]
pub enum JblValue {
    NoneValue,
    Null,
    /// `jbl_get_i32` of a boolean node.
    Bool(i32),
    I64(i64),
    /// The IEEE-754 bits of `jbl_get_f64`.
    F64(u64),
    Str(String),
    Object(JblIter),
    Array(JblIter),
    /// A type code outside the ones the bindings read.
    Other(u32),
}

/// What iterating over an object or array with `jbl_iterator_next` gives: the return codes of
/// `jbl_create_iterator_holder` and `jbl_iterator_init`, then each key (its `klen` bytes) and value.
#[derive(Debug, PartialEq, Eq)]
pub struct JblIter {
    pub holder_rc: u64,
    pub init_rc: u64,
    pub entries: Vec<(Vec<u8>, JblValue)>,
}

/// The code of the iterator calls of a container: that of `jbl_create_iterator_holder` when it
/// failed, else that of `jbl_iterator_init` (0 when both succeeded).
pub open spec fn iter_rc(it: JblIter) -> u64 {
    if it.holder_rc != 0 {
        it.holder_rc
    } else {
        it.init_rc
    }
}

} // verus!
