use vstd::prelude::*;

verus! {

/// The reasons for which a value cannot be written as ROSMSG.
#[derive(Debug, PartialEq, Eq)]
pub enum Error {
    /// `char` has no ROSMSG representation; one-character strings stand in for it.
    UnsupportedCharType,
    /// Enums of any kind, `Option` included, have no ROSMSG representation.
    UnsupportedEnumType,
    /// A sequence did not announce its length before its elements.
    VariableArraySizeAnnotation,
    /// The value's own `Serialize` implementation failed with this message.
    Message(String),
}

} // verus!
