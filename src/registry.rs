use crate::buffer::{entry_at, inserted, retention_cutoff, stamped_at, stamps_increasing, Buffer};
use crate::errors::{BufferError, QuaternionError, TransformError};
use crate::frame_index::{frame_slots, FrameIndex};
use crate::time::{Duration, Timestamp};
use crate::transform::{composed_spec, inverse_spec, Rigid, Transform};
use vstd::prelude::*;

verus! {

/// The walk from frame `current` toward frame `to` along parent links at
/// instant `at`: one transform per frame whose buffer answers, stopping where
/// `to` is reached, where a frame has no buffer or its lookup fails, or
/// after `fuel` hops.
pub open spec fn walk<P: Rigid>(
    frames: Map<Seq<char>, Buffer<P>>,
    current: Seq<char>,
    to: Seq<char>,
    at: u128,
    fuel: nat,
) -> Seq<Transform<P>>
    decreases fuel,
{
    if fuel == 0 || !frames.contains_key(current) {
        Seq::empty()
    } else {
        match frames[current].sample(at) {
            None => Seq::empty(),
            Some(t) => if t.parent@ == to {
                seq![t]
            } else {
                seq![t] + walk(frames, t.parent@, to, at, (fuel - 1) as nat)
            },
        }
    }
}

/// Whether some transform of `s` has parent `p`.
pub open spec fn has_parent<P>(s: Seq<Transform<P>>, p: Seq<char>) -> bool {
    exists|j: int| 0 <= j < s.len() && #[trigger] s[j].parent@ == p
}

/// `s` up to and including its first transform whose parent is also a
/// parent in `others`; all of `s` where there is none.
pub open spec fn cut_at_shared<P>(s: Seq<Transform<P>>, others: Seq<Transform<P>>) -> Seq<
    Transform<P>,
>
    decreases s.len(),
{
    if s.len() == 0 {
        s
    } else if has_parent(others, s[0].parent@) {
        seq![s[0]]
    } else {
        seq![s[0]] + cut_at_shared(s.drop_first(), others)
    }
}

/// Whether every motion of `s` can be inverted.
pub open spec fn all_invertible<P: Rigid>(s: Seq<Transform<P>>) -> bool {
    forall|i: int| 0 <= i < s.len() ==> (#[trigger] s[i]).pose.inverted() is Some
}

/// The inverses of `s`, last first (meaningful where `all_invertible(s)`).
pub open spec fn reversed_inverses<P: Rigid>(s: Seq<Transform<P>>) -> Seq<Transform<P>> {
    Seq::new(s.len(), |k: int| inverse_spec(s[s.len() - 1 - k])->Ok_0)
}

/// Folding `c` with composition: the first transform is the accumulator and
/// each later transform `x` replaces it with `x ⊗ accumulator`; the first
/// failing step's error stops the fold.
pub open spec fn fold_transforms<P: Rigid>(c: Seq<Transform<P>>) -> Result<
    Transform<P>,
    TransformError,
>
    decreases c.len(),
{
    if c.len() == 0 {
        Err(TransformError::TransformTreeEmpty)
    } else if c.len() == 1 {
        Ok(c[0])
    } else {
        match fold_transforms(c.drop_last()) {
            Ok(acc) => composed_spec(c.last(), acc),
            Err(e) => Err(e),
        }
    }
}

/// The inverse of a fold's result; errors pass through.
pub open spec fn finish<P: Rigid>(r: Result<Transform<P>, TransformError>) -> Result<
    Transform<P>,
    TransformError,
> {
    match r {
        Ok(t) => inverse_spec(t),
        Err(e) => Err(e),
    }
}

/// What a lookup yields, given the walks from either end: both truncated at
/// their common ancestor (the walk from the far end first), the far walk
/// reversed and inverted, the near walk and it folded, and the fold
/// inverted.
pub open spec fn combined<P: Rigid>(from_chain: Seq<Transform<P>>, to_chain: Seq<Transform<P>>) -> Result<
    Transform<P>,
    TransformError,
> {
    let to_kept = cut_at_shared(to_chain, from_chain);
    let from_kept = cut_at_shared(from_chain, to_kept);
    if all_invertible(to_kept) {
        finish(fold_transforms(from_kept + reversed_inverses(to_kept)))
    } else {
        Err(TransformError::QuaternionError(QuaternionError::ZeroLengthNormalization))
    }
}

/// Whether `after` is `before` with `t` inserted into the buffer of
/// `t.child` (created with window `max_age` where absent) at wall-clock
/// `now`, every other buffer unchanged.
pub open spec fn added<P>(
    before: Map<Seq<char>, Buffer<P>>,
    after: Map<Seq<char>, Buffer<P>>,
    t: Transform<P>,
    now: u128,
    max_age: Duration,
) -> bool {
    let name = t.child@;
    let old_entries = if before.contains_key(name) {
        before[name]@
    } else {
        Seq::empty()
    };
    &&& after.dom() == before.dom().insert(name)
    &&& forall|n: Seq<char>| #[trigger]
        before.contains_key(n) && n != name ==> after[n] == before[n]
    &&& after[name].wf()
    &&& after[name].spec_is_static() == (t.timestamp.nanoseconds == 0)
    &&& after[name].spec_max_age() == max_age
    &&& inserted(
        old_entries,
        after[name]@,
        t,
        retention_cutoff(t.timestamp.nanoseconds, now, max_age.nanoseconds),
    )
}

/// The buffers of all child frames, keyed by frame name.
pub struct Registry<P> {
    index: FrameIndex,
    buffers: Vec<Buffer<P>>,
    max_age: Duration,
}

impl<P> Registry<P> {
    /// The buffer of each child frame that has received a transform.
    pub closed spec fn frames(&self) -> Map<Seq<char>, Buffer<P>> {
        Map::new(
            |n: Seq<char>| frame_slots(self.index).contains_key(n),
            |n: Seq<char>| self.buffers@[frame_slots(self.index)[n] as int],
        )
    }

    /// The retention window given to every new buffer.
    pub closed spec fn spec_max_age(&self) -> Duration {
        self.max_age
    }

    /// How many buffers the registry holds: the bound on a walk's length.
    pub closed spec fn frame_count(&self) -> nat {
        self.buffers@.len()
    }

    /// The registry's invariant: every name maps to its own slot, and every
    /// buffer is well formed and has the registry's window.
    pub closed spec fn wf(&self) -> bool {
        let slots = frame_slots(self.index);
        &&& forall|n: Seq<char>| #[trigger]
            slots.contains_key(n) ==> slots[n] < self.buffers@.len()
        &&& forall|n1: Seq<char>, n2: Seq<char>|
            #[trigger] slots.contains_key(n1) && #[trigger] slots.contains_key(n2) && slots[n1]
                == slots[n2] ==> n1 == n2
        &&& forall|i: int|
            0 <= i < self.buffers@.len() ==> (#[trigger] self.buffers@[i]).wf()
                && self.buffers@[i].spec_max_age() == self.max_age
    }

    /// Whether `self` is `before` after `t` was added at wall-clock `now`.
    pub open spec fn after_adding(&self, before: &Self, t: Transform<P>, now: u128) -> bool {
        &&& self.wf()
        &&& self.spec_max_age() == before.spec_max_age()
        &&& self.frame_count() == before.frame_count() + if before.frames().contains_key(t.child@) {
            0int
        } else {
            1int
        }
        &&& added(before.frames(), self.frames(), t, now, before.spec_max_age())
    }

}

impl<P: Rigid> Registry<P> {
    /// The walks of a lookup from `from` to `to` at `at`, from either end.
    pub open spec fn walks(&self, from: Seq<char>, to: Seq<char>, at: u128) -> (
        Seq<Transform<P>>,
        Seq<Transform<P>>,
    ) {
        (
            walk(self.frames(), from, to, at, self.frame_count()),
            walk(self.frames(), to, from, at, self.frame_count()),
        )
    }

    /// What a lookup from `from` to `to` at `at` yields, where some walk is
    /// not empty.
    pub open spec fn resolution(&self, from: Seq<char>, to: Seq<char>, at: u128) -> Result<
        Transform<P>,
        TransformError,
    > {
        let (fc, tc) = self.walks(from, to, at);
        combined(fc, tc)
    }
}

proof fn lemma_cut_prefix<P>(s: Seq<Transform<P>>, others: Seq<Transform<P>>, i: int)
    requires
        0 <= i <= s.len(),
        forall|k: int| 0 <= k < i ==> !has_parent(others, #[trigger] s[k].parent@),
    ensures
        i == s.len() ==> cut_at_shared(s, others) == s,
        i < s.len() && has_parent(others, s[i].parent@) ==> cut_at_shared(s, others) == s.take(
            i + 1,
        ),
    decreases i,
{
    if s.len() > 0 && i > 0 {
        let t = s.drop_first();
        assert forall|k: int| 0 <= k < i - 1 implies !has_parent(others, #[trigger] t[k].parent@) by {
            assert(t[k] == s[k + 1]);
        }
        lemma_cut_prefix(t, others, i - 1);
        assert(!has_parent(others, s[0].parent@));
        if i == s.len() {
            assert(seq![s[0]] + t =~= s);
        }
        if i < s.len() && has_parent(others, s[i].parent@) {
            assert(t[i - 1] == s[i]);
            assert(seq![s[0]] + t.take(i) =~= s.take(i + 1));
        }
    } else if s.len() > 0 && i == 0 && has_parent(others, s[0].parent@) {
        assert(seq![s[0]] =~= s.take(1));
    }
}

proof fn lemma_fold_error_persists<P: Rigid>(c: Seq<Transform<P>>, i: int, e: TransformError)
    requires
        1 <= i <= c.len(),
        fold_transforms(c.take(i)) == Err::<Transform<P>, TransformError>(e),
    ensures
        fold_transforms(c) == Err::<Transform<P>, TransformError>(e),
    decreases c.len() - i,
{
    if i < c.len() {
        let next = c.take(i + 1);
        assert(next.drop_last() =~= c.take(i));
        lemma_fold_error_persists(c, i + 1, e);
    } else {
        assert(c.take(i) =~= c);
    }
}

proof fn lemma_only_entry<P>(s: Seq<Transform<P>>, t: Transform<P>)
    requires
        stamps_increasing(s),
        forall|x: Transform<P>| #[trigger] s.contains(x) <==> x == t,
    ensures
        s == seq![t],
{
    assert(s.contains(t));
    if s.len() >= 2 {
        assert(s.contains(s[0]) && s.contains(s[1]));
        assert(s[0].timestamp.nanoseconds < s[1].timestamp.nanoseconds);
    }
    assert(s =~= seq![t]);
}

/// The walk from `t.child` in a registry holding `t` alone reaches
/// `t.parent` in one hop, at `t`'s stamp.
proof fn lemma_single_walk<P: Rigid>(before: Registry<P>, after: Registry<P>, t: Transform<P>, now: u128)
    requires
        before.frames() == Map::<Seq<char>, Buffer<P>>::empty(),
        before.frame_count() == 0,
        after.after_adding(&before, t, now),
        t.parent@ != t.child@,
        retention_cutoff(t.timestamp.nanoseconds, now, before.spec_max_age().nanoseconds)
            <= t.timestamp.nanoseconds,
    ensures
        after.frame_count() == 1,
        walk(after.frames(), t.child@, t.parent@, t.timestamp.nanoseconds, 1) == seq![t],
        walk(after.frames(), t.parent@, t.child@, t.timestamp.nanoseconds, 1) == Seq::<
            Transform<P>,
        >::empty(),
{
    let frames = after.frames();
    let b = frames[t.child@];
    assert(!before.frames().contains_key(t.child@));
    assert forall|x: Transform<P>| #[trigger] b@.contains(x) <==> x == t by {
        assert(!Seq::<Transform<P>>::empty().contains(x));
    }
    lemma_only_entry(b@, t);
    assert(b@[0] == t);
    if t.timestamp.nanoseconds == 0 {
        assert(stamped_at(b@, 0));
        assert(entry_at(b@, 0) == t);
    } else {
        assert(stamped_at(b@, t.timestamp.nanoseconds));
        assert(entry_at(b@, t.timestamp.nanoseconds) == t);
    }
    assert(b.sample(t.timestamp.nanoseconds) == Some(t));
    assert(frames.dom() =~= set![t.child@]);
    assert(!frames.contains_key(t.parent@));
}

/// Registry round trip: in a new registry holding the single transform `t`
/// (still inside the retention window), the lookup from `t.child` to
/// `t.parent` at `t`'s stamp yields exactly `t.inverse()`, and the lookup
/// from `t.parent` to `t.child` yields the inverse of `t.inverse()`: where
/// it succeeds, `t`'s frames and stamp, with the motion inverted twice.
pub proof fn lemma_round_trip<P: Rigid>(before: Registry<P>, after: Registry<P>, t: Transform<P>, now: u128)
    requires
        before.frames() == Map::<Seq<char>, Buffer<P>>::empty(),
        before.frame_count() == 0,
        after.after_adding(&before, t, now),
        t.parent@ != t.child@,
        retention_cutoff(t.timestamp.nanoseconds, now, before.spec_max_age().nanoseconds)
            <= t.timestamp.nanoseconds,
    ensures
        after.walks(t.child@, t.parent@, t.timestamp.nanoseconds).0.len() != 0,
        after.resolution(t.child@, t.parent@, t.timestamp.nanoseconds) == inverse_spec(t),
        after.walks(t.parent@, t.child@, t.timestamp.nanoseconds).1.len() != 0,
        after.resolution(t.parent@, t.child@, t.timestamp.nanoseconds) == (match inverse_spec(t) {
            Ok(i) => inverse_spec(i),
            Err(e) => Err(e),
        }),
        after.resolution(t.parent@, t.child@, t.timestamp.nanoseconds) is Ok ==> after.resolution(
            t.parent@,
            t.child@,
            t.timestamp.nanoseconds,
        )->Ok_0.link() == t.link(),
{
    lemma_single_walk(before, after, t, now);
    let one = seq![t];
    let none = Seq::<Transform<P>>::empty();
    assert(!has_parent(none, t.parent@));
    assert(cut_at_shared(one.drop_first(), none) == one.drop_first());
    assert(cut_at_shared(one, none) =~= one);
    assert(cut_at_shared(none, one) == none);
    assert(none + one =~= one);
    assert(all_invertible(none));
    assert(reversed_inverses(none) =~= none);
    if t.pose.inverted() is Some {
        assert(all_invertible(one));
        assert(reversed_inverses(one) =~= seq![inverse_spec(t)->Ok_0]);
        assert(none + seq![inverse_spec(t)->Ok_0] =~= seq![inverse_spec(t)->Ok_0]);
    } else {
        assert(!all_invertible(one)) by {
            assert(one[0] == t);
        }
    }
}

proof fn lemma_fold_chain<P: Rigid>(c: Seq<Transform<P>>, at: u128)
    requires
        c.len() >= 1,
        forall|k: int| 0 <= k < c.len() ==> (#[trigger] c[k]).timestamp.nanoseconds == at,
        forall|k: int| 0 <= k < c.len() - 1 ==> (#[trigger] c[k + 1]).child@ == c[k].parent@,
        forall|k: int| 0 < k < c.len() ==> (#[trigger] c[k]).child@ != c[0].child@,
    ensures
        fold_transforms(c) is Ok,
        fold_transforms(c)->Ok_0.parent == c.last().parent,
        fold_transforms(c)->Ok_0.child == c[0].child,
        fold_transforms(c)->Ok_0.timestamp.nanoseconds == at,
    decreases c.len(),
{
    if c.len() > 1 {
        let d = c.drop_last();
        assert forall|k: int| 0 <= k < d.len() - 1 implies (#[trigger] d[k + 1]).child@ == d[k].parent@ by {
            assert(d[k + 1] == c[k + 1] && d[k] == c[k]);
        }
        assert forall|k: int| 0 < k < d.len() implies (#[trigger] d[k]).child@ != d[0].child@ by {
            assert(d[k] == c[k]);
        }
        assert forall|k: int| 0 <= k < d.len() implies (#[trigger] d[k]).timestamp.nanoseconds == at by {
            assert(d[k] == c[k]);
        }
        lemma_fold_chain(d, at);
        assert(c.last() == c[c.len() - 1]);
        let k = c.len() - 2;
        assert(c[k + 1].child@ == c[k].parent@);
        assert(c[k + 1].child@ != c[0].child@);
        assert(d.last() == c[c.len() - 2]);
    }
}

/// A lookup between connected frames: where the walk from `from` climbs,
/// hop by hop and all stamped `at`, to `to` through frames other than
/// `from`, and nothing is above `to`, the lookup succeeds exactly where the
/// composed motion can be inverted, and then has parent `from`, child `to`
/// and stamp `at`.
pub proof fn lemma_connected<P: Rigid>(reg: Registry<P>, from: Seq<char>, to: Seq<char>, at: u128)
    requires
        ({
            let (fc, tc) = reg.walks(from, to, at);
            &&& tc.len() == 0
            &&& fc.len() >= 1
            &&& fc[0].child@ == from
            &&& fc.last().parent@ == to
            &&& forall|k: int| 0 <= k < fc.len() ==> (#[trigger] fc[k]).timestamp.nanoseconds == at
            &&& forall|k: int| 0 <= k < fc.len() - 1 ==> (#[trigger] fc[k + 1]).child@ == fc[k].parent@
            &&& forall|k: int| 0 < k < fc.len() ==> (#[trigger] fc[k]).child@ != from
        }),
    ensures
        ({
            let (fc, tc) = reg.walks(from, to, at);
            reg.resolution(from, to, at) is Ok <==> fold_transforms(fc)->Ok_0.pose.inverted() is Some
        }),
        reg.resolution(from, to, at) is Ok ==> reg.resolution(from, to, at)->Ok_0.parent@ == from
            && reg.resolution(from, to, at)->Ok_0.child@ == to
            && reg.resolution(from, to, at)->Ok_0.timestamp.nanoseconds == at,
{
    let (fc, tc) = reg.walks(from, to, at);
    lemma_fold_chain(fc, at);
    let none = Seq::<Transform<P>>::empty();
    assert(tc =~= none);
    assert(cut_at_shared(none, fc) == none);
    lemma_cut_prefix(fc, none, fc.len() as int);
    assert(all_invertible(none));
    assert(reversed_inverses(none) =~= none);
    assert(fc + none =~= fc);
}

impl<P: Rigid> Registry<P> {
    /// An empty registry whose buffers keep entries for `max_age`.
    pub fn new(max_age: Duration) -> (r: Self)
        ensures
            r.wf(),
            r.frames() == Map::<Seq<char>, Buffer<P>>::empty(),
            r.frame_count() == 0,
            r.spec_max_age() == max_age,
    {
        let r = Registry { index: FrameIndex::new(), buffers: Vec::new(), max_age };
        assert(r.frames() =~= Map::<Seq<char>, Buffer<P>>::empty());
        r
    }

    /// Stores `t` in the buffer of `t.child`, creating that buffer where
    /// absent, and reads the wall clock for eviction. Never fails.
    pub fn add_transform(&mut self, t: Transform<P>) -> (r: Result<(), BufferError>)
        requires
            old(self).wf(),
        ensures
            r is Ok,
            exists|now: u128| final(self).after_adding(old(self), t, now),
    {
        let now = Timestamp::now();
        self.add_transform_at(t, now)
    }

    /// Stores `t` in the buffer of `t.child` with `now` as the wall-clock
    /// reading for eviction. Never fails.
    pub fn add_transform_at(&mut self, t: Transform<P>, now: Timestamp) -> (r: Result<(), BufferError>)
        requires
            old(self).wf(),
        ensures
            r is Ok,
            final(self).after_adding(old(self), t, now.nanoseconds),
    {
        let ghost before = self.frames();
        let ghost name = t.child@;
        match self.index.get(t.child.as_str()) {
            Some(slot) => {
                self.buffers[slot].insert_at(t, now);
                proof {
                    let slots = frame_slots(self.index);
                    assert forall|n: Seq<char>| #[trigger]
                        before.contains_key(n) && n != name implies self.frames()[n] == before[n] by {
                        assert(slots[n] != slots[name]);
                    }
                    assert(self.frames().dom() =~= before.dom().insert(name));
                }
            },
            None => {
                let mut b = Buffer::new(self.max_age);
                let key = t.child.clone();
                b.insert_at(t, now);
                let slot = self.buffers.len();
                self.index.insert(key, slot);
                self.buffers.push(b);
                proof {
                    let slots = frame_slots(self.index);
                    assert forall|n: Seq<char>| #[trigger]
                        before.contains_key(n) && n != name implies self.frames()[n] == before[n] by {
                        assert(slots[n] < slot);
                    }
                    assert(self.frames().dom() =~= before.dom().insert(name));
                }
            },
        }
        Ok(())
    }

    /// The transform whose parent is `from` and whose child is `to`, at
    /// instant `at`, composed along the frame tree and interpolated at every
    /// hop.
    ///
    /// Walks from each end toward the other, truncates both walks at their
    /// common ancestor, composes the near walk with the far walk reversed and
    /// inverted, and inverts the result. `NotFound` where neither walk finds
    /// anything.
    pub fn get_transform(&self, from: &str, to: &str, at: Timestamp) -> (r: Result<
        Transform<P>,
        TransformError,
    >)
        requires
            self.wf(),
        ensures
            ({
                let (fc, tc) = self.walks(from@, to@, at.nanoseconds);
                fc.len() == 0 && tc.len() == 0
            }) ==> (r is Err && r->Err_0 is NotFound && r->Err_0->NotFound_0@ == from@
                && r->Err_0->NotFound_1@ == to@),
            ({
                let (fc, tc) = self.walks(from@, to@, at.nanoseconds);
                fc.len() != 0 || tc.len() != 0
            }) ==> r == self.resolution(from@, to@, at.nanoseconds),
    {
        let mut from_chain = self.chain(from, to, at);
        let mut to_chain = self.chain(to, from, at);
        if from_chain.len() == 0 && to_chain.len() == 0 {
            return Err(TransformError::NotFound(from.to_owned(), to.to_owned()));
        }
        truncate_at_common_parent(&mut from_chain, &mut to_chain);
        let inverted = match reverse_and_invert(&to_chain) {
            Ok(v) => v,
            Err(e) => return Err(e),
        };
        combine(from_chain, inverted)
    }

    /// The transforms met walking from `from` toward `to` at `at`.
    fn chain(&self, from: &str, to: &str, at: Timestamp) -> (r: Vec<Transform<P>>)
        requires
            self.wf(),
        ensures
            r@ == walk(self.frames(), from@, to@, at.nanoseconds, self.frame_count()),
    {
        let ghost frames = self.frames();
        let ghost whole = walk(frames, from@, to@, at.nanoseconds, self.frame_count());
        let target = to.to_owned();
        let mut out: Vec<Transform<P>> = Vec::new();
        let mut current: String = from.to_owned();
        let mut fuel: usize = self.buffers.len();
        assert(out@ + walk(frames, current@, to@, at.nanoseconds, fuel as nat) =~= whole);
        while fuel > 0
            invariant
                self.wf(),
                frames == self.frames(),
                target@ == to@,
                out@ + walk(frames, current@, to@, at.nanoseconds, fuel as nat) == whole,
            decreases fuel,
        {
            let ghost prev = out@;
            match self.index.get(current.as_str()) {
                None => {
                    fuel = 0;
                },
                Some(slot) => {
                    assert(frames[current@] == self.buffers@[slot as int]);
                    match self.buffers[slot].get(&at) {
                        Err(_) => {
                            fuel = 0;
                        },
                        Ok(t) => {
                            let reached = t.parent == target;
                            current = t.parent.clone();
                            let ghost tt = t;
                            out.push(t);
                            assert(out@ =~= prev.push(tt));
                            if reached {
                                fuel = 0;
                            } else {
                                fuel = fuel - 1;
                            }
                        },
                    }
                },
            }
        }
        assert(out@ =~= out@ + Seq::<Transform<P>>::empty());
        out
    }
}

/// Whether some transform of `others` has parent `parent`.
fn shares_parent<P>(others: &Vec<Transform<P>>, parent: &String) -> (r: bool)
    ensures
        r == has_parent(others@, parent@),
{
    let mut j: usize = 0;
    while j < others.len()
        invariant
            0 <= j <= others.len(),
            forall|k: int| 0 <= k < j ==> (#[trigger] others@[k]).parent@ != parent@,
        decreases others.len() - j,
    {
        if others[j].parent == *parent {
            assert(others@[j as int].parent@ == parent@);
            return true;
        }
        j = j + 1;
    }
    false
}

/// Keeps `chain` up to and including its first transform whose parent is
/// also a parent in `others`.
fn cut_chain<P>(chain: &mut Vec<Transform<P>>, others: &Vec<Transform<P>>)
    ensures
        final(chain)@ == cut_at_shared(old(chain)@, others@),
{
    let ghost s = chain@;
    let n = chain.len();
    let mut i: usize = 0;
    while i < n && !shares_parent(others, &chain[i].parent)
        invariant
            n == chain.len(),
            s == chain@,
            0 <= i <= n,
            forall|k: int| 0 <= k < i ==> !has_parent(others@, #[trigger] s[k].parent@),
        decreases n - i,
    {
        i = i + 1;
    }
    proof {
        lemma_cut_prefix(s, others@, i as int);
    }
    let keep: usize = if i < n {
        i + 1
    } else {
        n
    };
    chain.truncate(keep);
    assert(chain@ =~= s.take(keep as int));
}

/// Truncates both walks at their common ancestor: first the walk from the
/// far end, then the walk from the near end against what is left of it.
fn truncate_at_common_parent<P>(from_chain: &mut Vec<Transform<P>>, to_chain: &mut Vec<Transform<P>>)
    ensures
        final(to_chain)@ == cut_at_shared(old(to_chain)@, old(from_chain)@),
        final(from_chain)@ == cut_at_shared(old(from_chain)@, final(to_chain)@),
{
    cut_chain(to_chain, from_chain);
    cut_chain(from_chain, to_chain);
}

/// The inverses of `chain`, last first; `ZeroLengthNormalization` exactly
/// where some motion cannot be inverted.
fn reverse_and_invert<P: Rigid>(chain: &Vec<Transform<P>>) -> (r: Result<Vec<Transform<P>>, TransformError>)
    ensures
        r is Ok <==> all_invertible(chain@),
        r is Ok ==> r->Ok_0@ == reversed_inverses(chain@),
        r is Err ==> r->Err_0 == TransformError::QuaternionError(
            QuaternionError::ZeroLengthNormalization,
        ),
{
    let n = chain.len();
    let mut out: Vec<Transform<P>> = Vec::new();
    let mut k: usize = n;
    while k > 0
        invariant
            0 <= k <= n,
            n == chain.len(),
            out@.len() == n - k,
            forall|j: int| k <= j < n ==> (#[trigger] chain@[j]).pose.inverted() is Some,
            forall|j: int|
                0 <= j < n - k ==> #[trigger] out@[j] == inverse_spec(chain@[n - 1 - j])->Ok_0,
        decreases k,
    {
        match chain[k - 1].inverse() {
            Ok(t) => out.push(t),
            Err(e) => {
                assert(!all_invertible(chain@)) by {
                    assert(chain@[k - 1].pose.inverted() is None);
                }
                return Err(e);
            },
        }
        k = k - 1;
    }
    assert(out@ =~= reversed_inverses(chain@));
    Ok(out)
}

/// Folds `from_chain` followed by `to_chain` with composition, then inverts.
fn combine<P: Rigid>(from_chain: Vec<Transform<P>>, to_chain: Vec<Transform<P>>) -> (r: Result<
    Transform<P>,
    TransformError,
>)
    ensures
        r == finish(fold_transforms(from_chain@ + to_chain@)),
{
    let ghost c = from_chain@ + to_chain@;
    let mut all = from_chain;
    let mut rest = to_chain;
    all.append(&mut rest);
    assert(all@ =~= c);
    let n = all.len();
    if n == 0 {
        return Err(TransformError::TransformTreeEmpty);
    }
    let mut acc = all[0].copied();
    assert(c.take(1) =~= seq![c[0]]);
    let mut i: usize = 1;
    while i < n
        invariant
            1 <= i <= n,
            n == all.len(),
            all@ == c,
            c == from_chain@ + to_chain@,
            fold_transforms(c.take(i as int)) == Ok::<Transform<P>, TransformError>(acc),
        decreases n - i,
    {
        let next = all[i].copied();
        let ghost prev = acc;
        assert(c.take(i + 1).drop_last() =~= c.take(i as int));
        assert(c.take(i + 1).last() == c[i as int]);
        match next.compose(acc) {
            Ok(t) => acc = t,
            Err(e) => {
                proof {
                    assert(fold_transforms(c.take(i + 1)) == composed_spec(c[i as int], prev));
                    lemma_fold_error_persists(c, i + 1, e);
                }
                return Err(e);
            },
        }
        i = i + 1;
    }
    assert(c.take(n as int) =~= c);
    acc.inverse()
}

} // verus!
