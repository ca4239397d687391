//! Audio input source identifiers.

use vstd::prelude::*;

verus! {

/// Why a byte or string failed to decode as a `SourceId`.
#[derive(Clone, Debug, PartialEq, Eq)]
pub enum SourceIdError {
    /// The value is outside `[1, 6]`.
    OutOfRange(u8),
    /// The given text is not a decimal number at all.
    ParseFailure { value: String },
}

/// An audio input source, numbered 1 through 6.
#[derive(Copy, Clone, Debug, PartialEq, Eq, Structural, Hash)]
pub struct SourceId(u8);

impl SourceId {
    /// The source number this id carries.
    pub closed spec fn spec_to_byte(self) -> u8 {
        self.0
    }

    /// A `SourceId` is well formed when its number is within `[1, 6]`.
    pub open spec fn wf(self) -> bool {
        1 <= self.spec_to_byte() <= 6
    }

    /// Two source ids with the same number are the same id.
    pub proof fn lemma_byte_injective(self, other: SourceId)
        ensures
            self.spec_to_byte() == other.spec_to_byte() <==> self == other,
    {
    }

    /// Accept a source number, validating its range.
    pub fn from_byte(value: u8) -> (r: Result<SourceId, SourceIdError>)
        ensures
            1 <= value <= 6 ==> (r matches Ok(s) && s.spec_to_byte() == value),
            !(1 <= value <= 6) ==> r == Err::<SourceId, SourceIdError>(
                SourceIdError::OutOfRange(value),
            ),
            r matches Ok(s) ==> s.wf(),
    {
        if 1 <= value && value <= 6 {
            Ok(SourceId(value))
        } else {
            Err(SourceIdError::OutOfRange(value))
        }
    }

    /// The source number as a byte.
    pub fn to_byte(&self) -> (r: u8)
        ensures
            r == self.spec_to_byte(),
    {
        self.0
    }

    /// All six source ids, in ascending order.
    pub fn all() -> (r: Vec<SourceId>)
        ensures
            r@.len() == 6,
            forall|i: int| 0 <= i < 6 ==> (#[trigger] r@[i]).spec_to_byte() == i + 1,
            forall|i: int| 0 <= i < 6 ==> (#[trigger] r@[i]).wf(),
    {
        vec![SourceId(1), SourceId(2), SourceId(3), SourceId(4), SourceId(5), SourceId(6)]
    }
}

} // verus!
