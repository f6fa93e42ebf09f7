use vstd::prelude::*;

verus! {

/// Why a generation request was refused.
#[derive(Clone, Copy, Debug, PartialEq, Eq, Structural)]
pub enum GenError {
    /// A weighted or uniform selection had no eligible candidate.
    EmptyChoiceSet,
    /// No value strictly beyond the reference exists in its domain.
    DomainExhausted,
    /// A table without columns, or a row whose length differs from the
    /// table's column count.
    MalformedInput,
}

} // verus!
