use vstd::prelude::*;

verus! {

/// When a recording starts a new output segment: after a span of seconds, or
/// past a size in bytes; one or the other, never both.
#[derive(Clone, Copy, Debug, PartialEq, Eq, Structural)]
pub enum Segmentation {
    Time(u64),
    Size(u64),
}

/// The policy a recording uses unless told otherwise: a new segment every
/// sixty seconds.
pub fn default_segmentation() -> (r: Segmentation)
    ensures
        r == Segmentation::Time(60),
{
    Segmentation::Time(60)
}

impl Segmentation {
    /// The rotation period in seconds, under the time policy.
    pub fn seconds(&self) -> (r: Option<u64>)
        ensures
            r == match *self {
                Segmentation::Time(s) => Some(s),
                Segmentation::Size(_) => None,
            },
    {
        match *self {
            Segmentation::Time(s) => Some(s),
            Segmentation::Size(_) => None,
        }
    }

    /// The size limit in bytes, under the size policy.
    pub fn bytes(&self) -> (r: Option<u64>)
        ensures
            r == match *self {
                Segmentation::Time(_) => None,
                Segmentation::Size(b) => Some(b),
            },
    {
        match *self {
            Segmentation::Time(_) => None,
            Segmentation::Size(b) => Some(b),
        }
    }
}

} // verus!
