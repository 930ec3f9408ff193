//! An optional value for a slot of a rendering pipeline.

use vstd::prelude::*;

verus! {

/// A value that may be absent until the pipeline actually needs it.
///
/// Reading it is only allowed once it is present.
#[derive(Clone, Debug, Eq, Hash, PartialEq)]
pub struct PipelineOption<T>(pub Option<T>);

impl<T> PipelineOption<T> {
    /// The value held, which must be present.
    pub fn unwrap_as_ref(&self) -> (inner: &T)
        requires
            self.0 is Some,
        ensures
            Some(*inner) == self.0,
    {
        match &self.0 {
            Some(inner) => inner,
            None => unreached(),
        }
    }

    /// The value held, which must be present, for writing.
    pub fn unwrap_as_ref_mut(&mut self) -> (inner: &mut T)
        requires
            old(self).0 is Some,
        ensures
            Some(*inner) == old(self).0,
            final(self).0 == Some(*final(inner)),
    {
        match &mut self.0 {
            Some(inner) => inner,
            None => unreached(),
        }
    }
}

} // verus!
