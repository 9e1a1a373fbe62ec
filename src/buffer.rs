use crate::errors::{BufferError, TransformError};
use crate::time::{Duration, Timestamp};
use crate::transform::{interpolate_link, interpolated_spec, Rigid, Transform};
use vstd::prelude::*;

verus! {

/// Whether the stamps of `s` strictly increase.
pub open spec fn stamps_increasing<P>(s: Seq<Transform<P>>) -> bool {
    forall|i: int, j: int|
        0 <= i < j < s.len() ==> #[trigger] s[i].timestamp.nanoseconds
            < #[trigger] s[j].timestamp.nanoseconds
}

/// Whether some entry of `s` is stamped `at`.
pub open spec fn stamped_at<P>(s: Seq<Transform<P>>, at: u128) -> bool {
    exists|i: int| 0 <= i < s.len() && #[trigger] s[i].timestamp.nanoseconds == at
}

/// The entry of `s` stamped `at` (meaningful where `stamped_at(s, at)`).
pub open spec fn entry_at<P>(s: Seq<Transform<P>>, at: u128) -> Transform<P> {
    s[choose|i: int| 0 <= i < s.len() && #[trigger] s[i].timestamp.nanoseconds == at]
}

/// Whether two neighbouring entries of `s` lie strictly on either side of `at`.
pub open spec fn bracketed<P>(s: Seq<Transform<P>>, at: u128) -> bool {
    exists|i: int|
        0 <= i && i + 1 < s.len() && #[trigger] s[i].timestamp.nanoseconds < at && at < s[i
            + 1].timestamp.nanoseconds
}

/// The index of the earlier of the two neighbours around `at` (meaningful
/// where `bracketed(s, at)`).
pub open spec fn bracket_index<P>(s: Seq<Transform<P>>, at: u128) -> int {
    choose|i: int|
        0 <= i && i + 1 < s.len() && #[trigger] s[i].timestamp.nanoseconds < at && at < s[i
            + 1].timestamp.nanoseconds
}

/// What a lookup at `at` yields, or `None` where it fails: in static mode
/// the zero-stamped entry; otherwise the entry stamped `at`, or the
/// interpolation between the two neighbours around `at`.
pub open spec fn sample_at<P: Rigid>(s: Seq<Transform<P>>, is_static: bool, at: u128) -> Option<
    Transform<P>,
> {
    if is_static {
        if stamped_at(s, 0) {
            Some(entry_at(s, 0))
        } else {
            None
        }
    } else if stamped_at(s, at) {
        Some(entry_at(s, at))
    } else if bracketed(s, at) {
        let i = bracket_index(s, at);
        match interpolated_spec(s[i], s[i + 1], Timestamp { nanoseconds: at }) {
            Ok(t) => Some(t),
            Err(_) => None,
        }
    } else {
        None
    }
}

/// The oldest stamp that survives eviction after inserting a transform
/// stamped `stamp` at wall-clock `now`: entries strictly older than
/// `now - max_age` go, unless the insertion is static or the difference
/// would fall before the epoch.
pub open spec fn retention_cutoff(stamp: u128, now: u128, max_age: u128) -> u128 {
    if stamp == 0 || now < max_age {
        0
    } else {
        (now - max_age) as u128
    }
}

/// Whether `after` holds exactly the entries of `before` with `t` stored
/// over any entry of the same stamp, less those older than `cutoff`.
pub open spec fn inserted<P>(
    before: Seq<Transform<P>>,
    after: Seq<Transform<P>>,
    t: Transform<P>,
    cutoff: u128,
) -> bool {
    forall|x: Transform<P>|
        #[trigger] after.contains(x) <==> (x.timestamp.nanoseconds >= cutoff && (x == t || (
        before.contains(x) && x.timestamp != t.timestamp)))
}

/// The time-ordered transforms of one child frame.
pub struct Buffer<P> {
    entries: Vec<Transform<P>>,
    max_age: Duration,
    is_static: bool,
}

impl<P> View for Buffer<P> {
    type V = Seq<Transform<P>>;

    closed spec fn view(&self) -> Seq<Transform<P>> {
        self.entries@
    }
}

impl<P> Buffer<P> {
    /// Whether the most recent insertion was stamped zero.
    pub closed spec fn spec_is_static(&self) -> bool {
        self.is_static
    }

    /// The retention window.
    pub closed spec fn spec_max_age(&self) -> Duration {
        self.max_age
    }

    /// The buffer's invariant: entries in strictly increasing time order.
    pub open spec fn wf(&self) -> bool {
        stamps_increasing(self@)
    }

}

impl<P: Rigid> Buffer<P> {
    /// What `get(at)` yields.
    pub open spec fn sample(&self, at: u128) -> Option<Transform<P>> {
        sample_at(self@, self.spec_is_static(), at)
    }
}

proof fn lemma_stamped_unique<P>(s: Seq<Transform<P>>, k: int)
    requires
        stamps_increasing(s),
        0 <= k < s.len(),
    ensures
        stamped_at(s, s[k].timestamp.nanoseconds),
        entry_at(s, s[k].timestamp.nanoseconds) == s[k],
{
    let at = s[k].timestamp.nanoseconds;
    assert(0 <= k < s.len() && s[k].timestamp.nanoseconds == at);
    let j = choose|i: int| 0 <= i < s.len() && #[trigger] s[i].timestamp.nanoseconds == at;
    if j < k {
        assert(s[j].timestamp.nanoseconds < s[k].timestamp.nanoseconds);
    } else if k < j {
        assert(s[k].timestamp.nanoseconds < s[j].timestamp.nanoseconds);
    }
}

proof fn lemma_bracket_unique<P>(s: Seq<Transform<P>>, k: int, at: u128)
    requires
        stamps_increasing(s),
        0 <= k && k + 1 < s.len(),
        s[k].timestamp.nanoseconds < at < s[k + 1].timestamp.nanoseconds,
    ensures
        bracketed(s, at),
        bracket_index(s, at) == k,
        !stamped_at(s, at),
{
    assert(s[k].timestamp.nanoseconds < at);
    let j = bracket_index(s, at);
    if j < k {
        assert(s[j + 1].timestamp.nanoseconds <= s[k].timestamp.nanoseconds) by {
            if j + 1 < k {
                assert(s[j + 1].timestamp.nanoseconds < s[k].timestamp.nanoseconds);
            }
        }
    } else if k < j {
        assert(s[k + 1].timestamp.nanoseconds <= s[j].timestamp.nanoseconds) by {
            if k + 1 < j {
                assert(s[k + 1].timestamp.nanoseconds < s[j].timestamp.nanoseconds);
            }
        }
    }
    if stamped_at(s, at) {
        let i = choose|i: int| 0 <= i < s.len() && #[trigger] s[i].timestamp.nanoseconds == at;
        if i <= k {
            if i < k {
                assert(s[i].timestamp.nanoseconds < s[k].timestamp.nanoseconds);
            }
        } else {
            if k + 1 < i {
                assert(s[k + 1].timestamp.nanoseconds < s[i].timestamp.nanoseconds);
            }
        }
    }
}

/// Retention: after an insertion stamped other than zero at wall-clock
/// `now`, with `now - max_age` not before the epoch, no entry older than
/// `now - max_age` remains, and every earlier entry at least that young
/// remains unless the new transform took its stamp.
pub proof fn lemma_retention<P>(
    before: Seq<Transform<P>>,
    after: Seq<Transform<P>>,
    t: Transform<P>,
    now: u128,
    max_age: u128,
)
    requires
        inserted(before, after, t, retention_cutoff(t.timestamp.nanoseconds, now, max_age)),
        t.timestamp.nanoseconds != 0,
        max_age <= now,
    ensures
        forall|x: Transform<P>| #[trigger]
            after.contains(x) ==> x.timestamp.nanoseconds >= now - max_age,
        forall|x: Transform<P>|
            #[trigger] before.contains(x) && x.timestamp.nanoseconds >= now - max_age
                && x.timestamp != t.timestamp ==> after.contains(x),
{
}

/// Static stickiness: once a zero-stamped transform `t` is inserted, a
/// lookup at any instant yields `t` itself, until the next insertion.
pub proof fn lemma_static_sticks<P: Rigid>(
    before: Buffer<P>,
    after: Buffer<P>,
    t: Transform<P>,
    now: u128,
    at: u128,
)
    requires
        after.wf(),
        after.spec_is_static() == (t.timestamp.nanoseconds == 0),
        inserted(
            before@,
            after@,
            t,
            retention_cutoff(t.timestamp.nanoseconds, now, before.spec_max_age().nanoseconds),
        ),
        t.timestamp.nanoseconds == 0,
    ensures
        after.spec_is_static(),
        stamped_at(after@, 0),
        entry_at(after@, 0) == t,
        after.sample(at) == Some(t),
{
    assert(after@.contains(t));
    let k = choose|k: int| 0 <= k < after@.len() && after@[k] == t;
    lemma_stamped_unique(after@, k);
}

impl<P: Rigid> Buffer<P> {
    /// An empty, non-static buffer whose entries expire after `max_age`.
    pub fn new(max_age: Duration) -> (r: Self)
        ensures
            r.wf(),
            r@ == Seq::<Transform<P>>::empty(),
            !r.spec_is_static(),
            r.spec_max_age() == max_age,
    {
        Buffer { entries: Vec::new(), max_age, is_static: false }
    }

    /// Stores `t` under its stamp, reading the wall clock for eviction.
    ///
    /// The buffer becomes static exactly when `t` is stamped zero; otherwise
    /// entries older than `now - max_age` are dropped.
    pub fn insert(&mut self, t: Transform<P>)
        requires
            old(self).wf(),
        ensures
            final(self).wf(),
            final(self).spec_is_static() == (t.timestamp.nanoseconds == 0),
            final(self).spec_max_age() == old(self).spec_max_age(),
            exists|now: u128|
                inserted(
                    old(self)@,
                    final(self)@,
                    t,
                    retention_cutoff(
                        t.timestamp.nanoseconds,
                        now,
                        old(self).spec_max_age().nanoseconds,
                    ),
                ),
    {
        let now = Timestamp::now();
        self.insert_at(t, now);
    }

    /// Stores `t` under its stamp, with `now` as the wall-clock reading for
    /// eviction.
    pub fn insert_at(&mut self, t: Transform<P>, now: Timestamp)
        requires
            old(self).wf(),
        ensures
            final(self).wf(),
            final(self).spec_is_static() == (t.timestamp.nanoseconds == 0),
            final(self).spec_max_age() == old(self).spec_max_age(),
            inserted(
                old(self)@,
                final(self)@,
                t,
                retention_cutoff(
                    t.timestamp.nanoseconds,
                    now.nanoseconds,
                    old(self).spec_max_age().nanoseconds,
                ),
            ),
    {
        let ghost before = self.entries@;
        self.is_static = t.timestamp.nanoseconds == 0;
        let stamp = t.timestamp.nanoseconds;
        let len = self.entries.len();
        let mut i: usize = 0;
        while i < len && self.entries[i].timestamp.nanoseconds < stamp
            invariant
                len == self.entries.len(),
                self.entries@ == before,
                0 <= i <= len,
                forall|j: int| 0 <= j < i ==> #[trigger] before[j].timestamp.nanoseconds < stamp,
            decreases len - i,
        {
            i = i + 1;
        }
        let ghost t_copy = t;
        if i < len && self.entries[i].timestamp.nanoseconds == stamp {
            self.entries.remove(i);
            self.entries.insert(i, t);
            proof {
                let s = self.entries@;
                assert(s =~= before.update(i as int, t_copy));
                assert forall|a: int, b: int|
                    0 <= a < b < s.len() implies #[trigger] s[a].timestamp.nanoseconds
                    < #[trigger] s[b].timestamp.nanoseconds by {
                    if a != i && b != i {
                        assert(before[a].timestamp.nanoseconds < before[b].timestamp.nanoseconds);
                    } else if a == i {
                        assert(before[a].timestamp.nanoseconds < before[b].timestamp.nanoseconds);
                    } else {
                        assert(before[a].timestamp.nanoseconds < before[b].timestamp.nanoseconds);
                    }
                }
                assert forall|x: Transform<P>|
                    #[trigger] s.contains(x) <==> (x == t_copy || (before.contains(x)
                        && x.timestamp != t_copy.timestamp)) by {
                    if s.contains(x) {
                        let k = choose|k: int| 0 <= k < s.len() && s[k] == x;
                        if k != i {
                            assert(before[k] == x);
                            if k < i {
                                assert(before[k].timestamp.nanoseconds
                                    < before[i as int].timestamp.nanoseconds);
                            } else {
                                assert(before[i as int].timestamp.nanoseconds
                                    < before[k].timestamp.nanoseconds);
                            }
                        }
                    }
                    if x == t_copy {
                        assert(s[i as int] == x);
                    } else if before.contains(x) && x.timestamp != t_copy.timestamp {
                        let k = choose|k: int| 0 <= k < before.len() && before[k] == x;
                        assert(k != i);
                        assert(s[k] == x);
                    }
                }
            }
        } else {
            self.entries.insert(i, t);
            proof {
                let s = self.entries@;
                assert(s =~= before.insert(i as int, t_copy));
                assert forall|a: int, b: int|
                    0 <= a < b < s.len() implies #[trigger] s[a].timestamp.nanoseconds
                    < #[trigger] s[b].timestamp.nanoseconds by {
                    if b < i {
                        assert(before[a].timestamp.nanoseconds < before[b].timestamp.nanoseconds);
                    } else if b == i {
                    } else if a == i {
                        assert(before[b - 1].timestamp.nanoseconds >= stamp);
                        if i < b - 1 {
                            assert(before[i as int].timestamp.nanoseconds < before[b
                                - 1].timestamp.nanoseconds);
                        }
                    } else if a < i {
                        assert(before[b - 1].timestamp.nanoseconds >= stamp) by {
                            if i < b - 1 {
                                assert(before[i as int].timestamp.nanoseconds < before[b
                                    - 1].timestamp.nanoseconds);
                            }
                        }
                    } else {
                        assert(before[a - 1].timestamp.nanoseconds < before[b
                            - 1].timestamp.nanoseconds);
                    }
                }
                assert forall|x: Transform<P>|
                    #[trigger] s.contains(x) <==> (x == t_copy || (before.contains(x)
                        && x.timestamp != t_copy.timestamp)) by {
                    if s.contains(x) {
                        let k = choose|k: int| 0 <= k < s.len() && s[k] == x;
                        if k < i {
                            assert(before[k] == x);
                        } else if k > i {
                            assert(before[k - 1] == x);
                            assert(before[k - 1].timestamp.nanoseconds > stamp) by {
                                if i < k - 1 {
                                    assert(before[i as int].timestamp.nanoseconds < before[k
                                        - 1].timestamp.nanoseconds);
                                }
                            }
                        }
                    }
                    if x == t_copy {
                        assert(s[i as int] == x);
                    } else if before.contains(x) && x.timestamp != t_copy.timestamp {
                        let k = choose|k: int| 0 <= k < before.len() && before[k] == x;
                        if k < i {
                            assert(s[k] == x);
                        } else {
                            assert(s[k + 1] == x);
                        }
                    }
                }
            }
        }
        let ghost placed = self.entries@;
        let cutoff: u128 = if self.is_static || now.nanoseconds < self.max_age.nanoseconds {
            0
        } else {
            now.nanoseconds - self.max_age.nanoseconds
        };
        if !self.is_static {
            self.evict_before(cutoff);
        }
        proof {
            let s = self.entries@;
            assert forall|x: Transform<P>|
                #[trigger] s.contains(x) <==> (x.timestamp.nanoseconds >= cutoff && (x == t_copy
                    || (before.contains(x) && x.timestamp != t_copy.timestamp))) by {
                if self.is_static {
                    if placed.contains(x) {
                        assert(x.timestamp.nanoseconds >= 0);
                    }
                } else {
                    assert(placed.contains(x) == (x == t_copy || (before.contains(x)
                        && x.timestamp != t_copy.timestamp)));
                }
            }
        }
    }

    /// Drops every entry stamped strictly before `cutoff`.
    fn evict_before(&mut self, cutoff: u128)
        requires
            old(self).wf(),
        ensures
            final(self).wf(),
            final(self).is_static == old(self).is_static,
            final(self).max_age == old(self).max_age,
            forall|x: Transform<P>|
                #[trigger] final(self)@.contains(x) <==> (old(self)@.contains(x)
                    && x.timestamp.nanoseconds >= cutoff),
    {
        let ghost before = self.entries@;
        let len = self.entries.len();
        let mut k: usize = 0;
        while k < len && self.entries[k].timestamp.nanoseconds < cutoff
            invariant
                len == self.entries.len(),
                self.entries@ == before,
                0 <= k <= len,
                forall|j: int| 0 <= j < k ==> #[trigger] before[j].timestamp.nanoseconds < cutoff,
            decreases len - k,
        {
            k = k + 1;
        }
        let kept = self.entries.split_off(k);
        self.entries = kept;
        proof {
            let s = self.entries@;
            assert(s =~= before.subrange(k as int, len as int));
            assert forall|x: Transform<P>|
                #[trigger] s.contains(x) <==> (before.contains(x) && x.timestamp.nanoseconds
                    >= cutoff) by {
                if s.contains(x) {
                    let j = choose|j: int| 0 <= j < s.len() && s[j] == x;
                    assert(before[j + k] == x);
                    if k < len && j > 0 {
                        assert(before[k as int].timestamp.nanoseconds < before[j
                            + k].timestamp.nanoseconds);
                    }
                }
                if before.contains(x) && x.timestamp.nanoseconds >= cutoff {
                    let j = choose|j: int| 0 <= j < before.len() && before[j] == x;
                    assert(j >= k);
                    assert(s[j - k] == x);
                }
            }
        }
    }

    /// The index of the first entry stamped at or after `at`; the length
    /// where there is none.
    fn first_at_or_after(&self, at: &Timestamp) -> (k: usize)
        requires
            self.wf(),
        ensures
            k <= self@.len(),
            forall|j: int| 0 <= j < k ==> #[trigger] self@[j].timestamp.nanoseconds < at.nanoseconds,
            k < self@.len() ==> self@[k as int].timestamp.nanoseconds >= at.nanoseconds,
    {
        let len = self.entries.len();
        let mut k: usize = 0;
        while k < len && self.entries[k].timestamp.nanoseconds < at.nanoseconds
            invariant
                len == self.entries.len(),
                0 <= k <= len,
                forall|j: int| 0 <= j < k ==> #[trigger] self@[j].timestamp.nanoseconds < at.nanoseconds,
            decreases len - k,
        {
            k = k + 1;
        }
        k
    }

    /// The nearest entries at or before and at or after `at`, each with its
    /// stamp; where an entry is stamped `at`, both are that entry.
    pub fn get_nearest(&self, at: &Timestamp) -> (r: (
        Option<(Timestamp, Transform<P>)>,
        Option<(Timestamp, Transform<P>)>,
    ))
        requires
            self.wf(),
        ensures
            r.0 is None <==> forall|i: int|
                0 <= i < self@.len() ==> #[trigger] self@[i].timestamp.nanoseconds > at.nanoseconds,
            r.0 is Some ==> ({
                let (stamp, t) = r.0->Some_0;
                &&& self@.contains(t)
                &&& stamp == t.timestamp
                &&& stamp.nanoseconds <= at.nanoseconds
                &&& forall|i: int|
                    0 <= i < self@.len() && #[trigger] self@[i].timestamp.nanoseconds
                        <= at.nanoseconds ==> self@[i].timestamp.nanoseconds <= stamp.nanoseconds
            }),
            r.1 is None <==> forall|i: int|
                0 <= i < self@.len() ==> #[trigger] self@[i].timestamp.nanoseconds < at.nanoseconds,
            r.1 is Some ==> ({
                let (stamp, t) = r.1->Some_0;
                &&& self@.contains(t)
                &&& stamp == t.timestamp
                &&& stamp.nanoseconds >= at.nanoseconds
                &&& forall|i: int|
                    0 <= i < self@.len() && #[trigger] self@[i].timestamp.nanoseconds
                        >= at.nanoseconds ==> self@[i].timestamp.nanoseconds >= stamp.nanoseconds
            }),
    {
        let ghost s = self@;
        let len = self.entries.len();
        let k = self.first_at_or_after(at);
        if k < len && self.entries[k].timestamp.nanoseconds == at.nanoseconds {
            let t = self.entries[k].copied();
            proof {
                assert(s[k as int] == t);
                assert forall|i: int|
                    0 <= i < s.len() && #[trigger] s[i].timestamp.nanoseconds
                        <= at.nanoseconds implies s[i].timestamp.nanoseconds <= t.timestamp.nanoseconds by {
                    if i > k {
                        assert(s[k as int].timestamp.nanoseconds < s[i].timestamp.nanoseconds);
                    }
                }
                assert forall|i: int|
                    0 <= i < s.len() && #[trigger] s[i].timestamp.nanoseconds
                        >= at.nanoseconds implies s[i].timestamp.nanoseconds >= t.timestamp.nanoseconds by {
                }
            }
            let t2 = t.copied();
            return (Some((t.timestamp, t)), Some((t2.timestamp, t2)));
        }
        let before = if k > 0 {
            let t = self.entries[k - 1].copied();
            proof {
                assert(s[k - 1] == t);
                assert forall|i: int|
                    0 <= i < s.len() && #[trigger] s[i].timestamp.nanoseconds
                        <= at.nanoseconds implies s[i].timestamp.nanoseconds <= t.timestamp.nanoseconds by {
                    if i > k - 1 {
                        if i > k {
                            assert(s[k as int].timestamp.nanoseconds < s[i].timestamp.nanoseconds);
                        }
                    } else if i < k - 1 {
                        assert(s[i].timestamp.nanoseconds < s[k - 1].timestamp.nanoseconds);
                    }
                }
            }
            Some((t.timestamp, t))
        } else {
            proof {
                assert forall|i: int| 0 <= i < s.len() implies #[trigger] s[i].timestamp.nanoseconds
                    > at.nanoseconds by {
                    if i > 0 {
                        assert(s[0].timestamp.nanoseconds < s[i].timestamp.nanoseconds);
                    }
                }
            }
            None
        };
        let after = if k < len {
            let t = self.entries[k].copied();
            proof {
                assert(s[k as int] == t);
                assert forall|i: int|
                    0 <= i < s.len() && #[trigger] s[i].timestamp.nanoseconds
                        >= at.nanoseconds implies s[i].timestamp.nanoseconds >= t.timestamp.nanoseconds by {
                    if i > k {
                        assert(s[k as int].timestamp.nanoseconds < s[i].timestamp.nanoseconds);
                    }
                }
            }
            Some((t.timestamp, t))
        } else {
            None
        };
        proof {
            if k > 0 {
                assert(s[k - 1].timestamp.nanoseconds <= at.nanoseconds);
            }
            if k < len {
                assert(s[k as int].timestamp.nanoseconds >= at.nanoseconds);
            }
        }
        (before, after)
    }

    /// The transform at instant `at`.
    ///
    /// In static mode, the zero-stamped entry whatever `at` is. Otherwise the
    /// entry stamped `at`, or the interpolation between the nearest entries
    /// on either side of it; `NoTransformAvailable` where one side is empty.
    pub fn get(&self, at: &Timestamp) -> (r: Result<Transform<P>, BufferError>)
        requires
            self.wf(),
        ensures
            r is Ok <==> self.sample(at.nanoseconds) is Some,
            r is Ok ==> r->Ok_0 == self.sample(at.nanoseconds)->Some_0,
            self.spec_is_static() && stamped_at(self@, 0) ==> r == Ok::<
                Transform<P>,
                BufferError,
            >(entry_at(self@, 0)),
            !self.spec_is_static() && stamped_at(self@, at.nanoseconds) ==> r == Ok::<
                Transform<P>,
                BufferError,
            >(entry_at(self@, at.nanoseconds)),
            r is Err ==> (r == Err::<Transform<P>, BufferError>(BufferError::NoTransformAvailable)
                || r == Err::<Transform<P>, BufferError>(
                BufferError::TransformError(TransformError::IncompatibleFrames),
            )),
            r == Err::<Transform<P>, BufferError>(
                BufferError::TransformError(TransformError::IncompatibleFrames),
            ) <==> (!self.spec_is_static() && !stamped_at(self@, at.nanoseconds) && bracketed(
                self@,
                at.nanoseconds,
            ) && interpolate_link(
                self@[bracket_index(self@, at.nanoseconds)].link(),
                self@[bracket_index(self@, at.nanoseconds) + 1].link(),
                at.nanoseconds,
            ) is Err),
    {
        let s = Ghost(self.entries@);
        let len = self.entries.len();
        if self.is_static {
            if len > 0 && self.entries[0].timestamp.nanoseconds == 0 {
                proof {
                    lemma_stamped_unique(s@, 0);
                }
                return Ok(self.entries[0].copied());
            }
            proof {
                if stamped_at(s@, 0) {
                    let i = choose|i: int| 0 <= i < s@.len() && #[trigger] s@[i].timestamp.nanoseconds == 0;
                    if i > 0 {
                        assert(s@[0].timestamp.nanoseconds < s@[i].timestamp.nanoseconds);
                    }
                }
            }
            return Err(BufferError::NoTransformAvailable);
        }
        let k = self.first_at_or_after(at);
        if k < len && self.entries[k].timestamp.nanoseconds == at.nanoseconds {
            proof {
                lemma_stamped_unique(s@, k as int);
            }
            return Ok(self.entries[k].copied());
        }
        if k == 0 || k == len {
            proof {
                if stamped_at(s@, at.nanoseconds) {
                    let i = choose|i: int| 0 <= i < s@.len() && #[trigger] s@[i].timestamp.nanoseconds == at.nanoseconds;
                    if k < len && i > k {
                        assert(s@[k as int].timestamp.nanoseconds < s@[i].timestamp.nanoseconds);
                    }
                }
                if bracketed(s@, at.nanoseconds) {
                    let i = bracket_index(s@, at.nanoseconds);
                    if k == 0 && i > 0 {
                        assert(s@[0].timestamp.nanoseconds < s@[i].timestamp.nanoseconds);
                    }
                    if k == len {
                        assert(s@[i + 1].timestamp.nanoseconds < at.nanoseconds);
                    }
                }
            }
            return Err(BufferError::NoTransformAvailable);
        }
        proof {
            lemma_bracket_unique(s@, k - 1, at.nanoseconds);
        }
        let before = self.entries[k - 1].copied();
        let after = self.entries[k].copied();
        match Transform::interpolate(before, after, *at) {
            Ok(t) => Ok(t),
            Err(e) => Err(BufferError::TransformError(e)),
        }
    }
}

} // verus!
