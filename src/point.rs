use crate::errors::TransformError;
use crate::time::Timestamp;
use crate::transform::{Rigid, Transform};
use vstd::prelude::*;

verus! {

/// Data that can be carried from a transform's child frame into its parent
/// frame.
pub trait Transformable<P> {
    /// What a call of `transform` promises of `before`, the value after it,
    /// the transform and the result; an implementation states its own.
    open spec fn transformed(
        before: &Self,
        after: &Self,
        t: &Transform<P>,
        r: Result<(), TransformError>,
    ) -> bool {
        true
    }

    /// Rewrites `self`, expressed in `transform.child`, into
    /// `transform.parent`.
    fn transform(&mut self, transform: &Transform<P>) -> (r: Result<(), TransformError>)
        ensures
            Self::transformed(old(self), final(self), transform, r),
    ;
}

/// A located and oriented point in a named frame at an instant.
#[derive(Debug, Clone, PartialEq)]
pub struct Point<P> {
    pub pose: P,
    pub timestamp: Timestamp,
    pub frame: String,
}

impl<P: Rigid> Transformable<P> for Point<P> {
    /// The point fails, unchanged, with `IncompatibleFrames` where its frame
    /// is not `t.child`, and with `TimestampMismatch` where its stamp is not
    /// `t`'s; otherwise its pose becomes `t.pose` composed with it, its frame
    /// `t.parent`, and its stamp stays.
    open spec fn transformed(
        before: &Self,
        after: &Self,
        t: &Transform<P>,
        r: Result<(), TransformError>,
    ) -> bool {
        if before.frame@ != t.child@ {
            r == Err::<(), TransformError>(TransformError::IncompatibleFrames) && *after == *before
        } else if before.timestamp != t.timestamp {
            r == Err::<(), TransformError>(
                TransformError::TimestampMismatch(before.timestamp, t.timestamp),
            ) && *after == *before
        } else {
            &&& r is Ok
            &&& after.pose == t.pose.composed(&before.pose)
            &&& after.frame@ == t.parent@
            &&& after.timestamp == before.timestamp
        }
    }

    fn transform(&mut self, t: &Transform<P>) -> (r: Result<(), TransformError>) {
        if self.frame != t.child {
            return Err(TransformError::IncompatibleFrames);
        }
        if self.timestamp.nanoseconds != t.timestamp.nanoseconds {
            return Err(TransformError::TimestampMismatch(self.timestamp, t.timestamp));
        }
        self.pose = t.pose.compose(&self.pose);
        self.frame = t.parent.clone();
        Ok(())
    }
}

} // verus!
