use vstd::prelude::*;

verus! {

/// A hash map from frame name to the slot of that frame's buffer.
#[verifier::external_body]
pub struct FrameIndex {
    map: hashbrown::HashMap<String, usize>,
}

/// The name-to-slot pairs that a `FrameIndex` holds.
pub uninterp spec fn frame_slots(ix: FrameIndex) -> Map<Seq<char>, usize>;

impl FrameIndex {
    /// Relies on hashbrown::HashMap::new: a map with no entries.
    #[verifier::external_body]
    pub(crate) fn new() -> (r: FrameIndex)
        ensures
            frame_slots(r).dom() == Set::<Seq<char>>::empty(),
    {
        FrameIndex { map: hashbrown::HashMap::new() }
    }

    /// Relies on hashbrown::HashMap::get: the value stored under the key, if
    /// any (keys compare as strings).
    #[verifier::external_body]
    pub(crate) fn get(&self, name: &str) -> (r: Option<usize>)
        ensures
            r == (if frame_slots(*self).contains_key(name@) {
                Some(frame_slots(*self)[name@])
            } else {
                None::<usize>
            }),
    {
        self.map.get(name).copied()
    }

    /// Relies on hashbrown::HashMap::insert: stores the value under the key,
    /// replacing any value already there.
    #[verifier::external_body]
    pub(crate) fn insert(&mut self, name: String, slot: usize)
        ensures
            frame_slots(*final(self)) == frame_slots(*old(self)).insert(name@, slot),
    {
        self.map.insert(name, slot);
    }
}

} // verus!
