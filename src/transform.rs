use crate::errors::{QuaternionError, TransformError};
use crate::time::Timestamp;
use vstd::prelude::*;

verus! {

/// The rigid motion a transform carries: a translation and a unit rotation.
///
/// Implementations supply the arithmetic (Hamilton products, rotation of
/// vectors, slerp); everything about frames and time is decided by
/// [`Transform`], whatever the implementation. The spec functions name what
/// each operation returns; each operation's result depends on its arguments
/// alone.
pub trait Rigid: Sized + Copy {
    /// What `identity` returns.
    spec fn unit() -> Self;

    /// What `compose` returns.
    spec fn composed(&self, other: &Self) -> Self;

    /// What `inverse` returns: `None` where the rotation's norm is below
    /// machine epsilon.
    spec fn inverted(&self) -> Option<Self>;

    /// What `interpolate` returns.
    spec fn blended(&self, other: &Self, elapsed: u128, span: u128) -> Self;

    /// The motion that moves nothing.
    fn identity() -> (r: Self)
        ensures
            r == Self::unit(),
    ;

    /// `self` after `other`: translation `R_self * t_other + t_self`,
    /// rotation `R_self * R_other`.
    fn compose(&self, other: &Self) -> (r: Self)
        ensures
            r == self.composed(other),
    ;

    /// The motion that undoes `self`, after normalising its rotation; `None`
    /// where the rotation's norm is below machine epsilon.
    fn inverse(&self) -> (r: Option<Self>)
        ensures
            r == self.inverted(),
    ;

    /// The blend from `self` to `other` at ratio `elapsed / span`, with
    /// `0 <= elapsed <= span` and `span > 0`: translations linearly,
    /// rotations by slerp.
    fn interpolate(&self, other: &Self, elapsed: u128, span: u128) -> (r: Self)
        ensures
            r == self.blended(other, elapsed, span),
    ;
}

/// The frames and stamp of a transform, without its motion.
pub struct Link {
    pub parent: Seq<char>,
    pub child: Seq<char>,
    pub stamp: u128,
}

/// The link of a transform's inverse: parent and child swapped.
pub open spec fn inverse_link(a: Link) -> Link {
    Link { parent: a.child, child: a.parent, stamp: a.stamp }
}

/// What composing `a ⊗ b` yields for frames and stamps: the stamps must
/// coincide, the children differ, and the frames be adjacent.
pub open spec fn compose_link(a: Link, b: Link) -> Result<Link, TransformError> {
    if a.stamp != b.stamp {
        Err(
            TransformError::TimestampMismatch(
                Timestamp { nanoseconds: a.stamp },
                Timestamp { nanoseconds: b.stamp },
            ),
        )
    } else if a.child == b.child {
        Err(TransformError::SameFrameMultiplication)
    } else if a.child != b.parent && a.parent != b.child {
        Err(TransformError::IncompatibleFrames)
    } else {
        Ok(Link { parent: a.parent, child: b.child, stamp: a.stamp })
    }
}

/// What interpolating between `from` and `to` at `at` yields for frames and
/// stamps.
pub open spec fn interpolate_link(from: Link, to: Link, at: u128) -> Result<Link, TransformError> {
    if from.stamp > to.stamp || at < from.stamp || at > to.stamp {
        Err(
            TransformError::TimestampMismatch(
                Timestamp { nanoseconds: to.stamp },
                Timestamp { nanoseconds: from.stamp },
            ),
        )
    } else if from.child != to.child || from.parent != to.parent {
        Err(TransformError::IncompatibleFrames)
    } else {
        Ok(Link { parent: from.parent, child: from.child, stamp: at })
    }
}

/// Associativity of composition, for frames and stamps: where the stamps
/// coincide and `a`, `b`, `c` chain child to parent with distinct children,
/// both groupings succeed and agree.
pub proof fn lemma_compose_associative(a: Link, b: Link, c: Link)
    requires
        a.stamp == b.stamp && b.stamp == c.stamp,
        a.child == b.parent && b.child == c.parent,
        a.child != b.child && b.child != c.child && a.child != c.child,
    ensures
        compose_link(a, b) is Ok && compose_link(b, c) is Ok,
        compose_link(compose_link(a, b)->Ok_0, c) is Ok,
        compose_link(compose_link(a, b)->Ok_0, c) == compose_link(a, compose_link(b, c)->Ok_0),
{
}

/// Interpolation endpoints, for frames and stamps: between two transforms
/// of the same frames, interpolating at either stamp yields that endpoint's
/// frames and stamp.
pub proof fn lemma_interpolation_endpoints(from: Link, to: Link)
    requires
        from.stamp <= to.stamp,
        from.parent == to.parent && from.child == to.child,
    ensures
        interpolate_link(from, to, from.stamp) == Ok::<Link, TransformError>(from),
        interpolate_link(from, to, to.stamp) == Ok::<Link, TransformError>(to),
{
}

/// The pose of frame `child` within frame `parent` at `timestamp`.
#[derive(Debug, Clone, PartialEq)]
pub struct Transform<P> {
    pub pose: P,
    pub timestamp: Timestamp,
    pub parent: String,
    pub child: String,
}

impl<P> Transform<P> {
    /// The frames and stamp of this transform.
    pub open spec fn link(self) -> Link {
        Link { parent: self.parent@, child: self.child@, stamp: self.timestamp.nanoseconds }
    }
}

/// Whether a result carries a transform with the given link, or the given
/// error.
pub open spec fn outcome_matches<P>(
    r: Result<Transform<P>, TransformError>,
    expected: Result<Link, TransformError>,
) -> bool {
    match expected {
        Ok(l) => r is Ok && r->Ok_0.link() == l,
        Err(e) => r == Err::<Transform<P>, TransformError>(e),
    }
}

/// What `Transform::compose(a, b)` returns.
pub open spec fn composed_spec<P: Rigid>(a: Transform<P>, b: Transform<P>) -> Result<
    Transform<P>,
    TransformError,
> {
    match compose_link(a.link(), b.link()) {
        Err(e) => Err(e),
        Ok(_) => Ok(
            Transform {
                pose: a.pose.composed(&b.pose),
                timestamp: a.timestamp,
                parent: a.parent,
                child: b.child,
            },
        ),
    }
}

/// What `Transform::interpolate(from, to, at)` returns.
pub open spec fn interpolated_spec<P: Rigid>(
    from: Transform<P>,
    to: Transform<P>,
    at: Timestamp,
) -> Result<Transform<P>, TransformError> {
    match interpolate_link(from.link(), to.link(), at.nanoseconds) {
        Err(e) => Err(e),
        Ok(_) => if from.timestamp == to.timestamp {
            Ok(from)
        } else {
            Ok(
                Transform {
                    pose: from.pose.blended(
                        &to.pose,
                        (at.nanoseconds - from.timestamp.nanoseconds) as u128,
                        (to.timestamp.nanoseconds - from.timestamp.nanoseconds) as u128,
                    ),
                    timestamp: at,
                    parent: from.parent,
                    child: from.child,
                },
            )
        },
    }
}

/// What `t.inverse()` returns.
pub open spec fn inverse_spec<P: Rigid>(t: Transform<P>) -> Result<Transform<P>, TransformError> {
    match t.pose.inverted() {
        Some(pose) => Ok(
            Transform { pose, timestamp: t.timestamp, parent: t.child, child: t.parent },
        ),
        None => Err(TransformError::QuaternionError(QuaternionError::ZeroLengthNormalization)),
    }
}

impl<P: Rigid> Transform<P> {
    /// A field-for-field copy.
    pub fn copied(&self) -> (r: Self)
        ensures
            r == *self,
    {
        Transform {
            pose: self.pose,
            timestamp: self.timestamp,
            parent: self.parent.clone(),
            child: self.child.clone(),
        }
    }

    /// The pose of `child` within `parent` at `timestamp`.
    pub fn new(pose: P, timestamp: Timestamp, parent: &str, child: &str) -> (r: Self)
        ensures
            r.pose == pose,
            r.link() == (Link { parent: parent@, child: child@, stamp: timestamp.nanoseconds }),
    {
        Transform { pose, timestamp, parent: parent.to_owned(), child: child.to_owned() }
    }

    /// The identity transform: no motion, stamp zero, empty frame names.
    pub fn identity() -> (r: Self)
        ensures
            r.link() == (Link { parent: Seq::empty(), child: Seq::empty(), stamp: 0 }),
            r.pose == P::unit(),
    {
        Transform {
            pose: P::identity(),
            timestamp: Timestamp { nanoseconds: 0 },
            parent: String::new(),
            child: String::new(),
        }
    }

    /// The transform between `from` and `to` at instant `at`.
    ///
    /// Requires `from.timestamp <= at <= to.timestamp` and identical frames.
    /// Where the two stamps coincide `from` comes back unchanged; otherwise
    /// the motion is blended at ratio `(at - from) / (to - from)`.
    pub fn interpolate(from: Self, to: Self, at: Timestamp) -> (r: Result<Self, TransformError>)
        ensures
            r == interpolated_spec(from, to, at),
            outcome_matches(r, interpolate_link(from.link(), to.link(), at.nanoseconds)),
    {
        if from.timestamp.nanoseconds > to.timestamp.nanoseconds || at.nanoseconds
            < from.timestamp.nanoseconds || at.nanoseconds > to.timestamp.nanoseconds {
            return Err(TransformError::TimestampMismatch(to.timestamp, from.timestamp));
        }
        if from.child != to.child || from.parent != to.parent {
            return Err(TransformError::IncompatibleFrames);
        }
        let span = to.timestamp.nanoseconds - from.timestamp.nanoseconds;
        if span == 0 {
            return Ok(from);
        }
        let elapsed = at.nanoseconds - from.timestamp.nanoseconds;
        let pose = from.pose.interpolate(&to.pose, elapsed, span);
        Ok(Transform { pose, timestamp: at, parent: from.parent, child: from.child })
    }

    /// `self ⊗ rhs`: the pose of `rhs.child` within `self.parent`.
    ///
    /// The stamps must coincide, the children differ, and either
    /// `self.child == rhs.parent` or `self.parent == rhs.child`.
    pub fn compose(self, rhs: Self) -> (r: Result<Self, TransformError>)
        ensures
            r == composed_spec(self, rhs),
            outcome_matches(r, compose_link(self.link(), rhs.link())),
    {
        if self.timestamp.nanoseconds != rhs.timestamp.nanoseconds {
            return Err(TransformError::TimestampMismatch(self.timestamp, rhs.timestamp));
        }
        if self.child == rhs.child {
            return Err(TransformError::SameFrameMultiplication);
        }
        if self.child != rhs.parent && self.parent != rhs.child {
            return Err(TransformError::IncompatibleFrames);
        }
        let pose = self.pose.compose(&rhs.pose);
        Ok(Transform { pose, timestamp: self.timestamp, parent: self.parent, child: rhs.child })
    }

    /// The transform that undoes `self`: parent and child swapped, same
    /// stamp. Fails, with `ZeroLengthNormalization`, exactly where the
    /// rotation cannot be normalised.
    pub fn inverse(&self) -> (r: Result<Self, TransformError>)
        ensures
            r == inverse_spec(*self),
            r is Ok <==> self.pose.inverted() is Some,
            r is Ok ==> r->Ok_0.link() == inverse_link(self.link()),
    {
        match self.pose.inverse() {
            Some(pose) => Ok(
                Transform {
                    pose,
                    timestamp: self.timestamp,
                    parent: self.child.clone(),
                    child: self.parent.clone(),
                },
            ),
            None => Err(TransformError::QuaternionError(QuaternionError::ZeroLengthNormalization)),
        }
    }
}

} // verus!
