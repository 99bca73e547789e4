//! The bones that a layer leaves alone.

use vstd::prelude::*;
use fxhash::FxHashSet;
use crate::pool::{lemma_key_injective, Handle};
use crate::pose::{KeyMap, Pose, Transform};

verus! {

/// `fxhash::FxHasher`, the hasher of the sets of excluded bones and of the
/// maps that hold poses. Nothing is claimed of it here; what is claimed of
/// the sets and maps that hash with it stands with the functions named
/// `key_set_..` in this file and `key_map_..` here and beside the poses.
#[verifier::external_type_specification]
#[verifier::external_body]
pub struct ExFxHasher(fxhash::FxHasher);

/// `std::hash::BuildHasherDefault`, which makes a hasher by `Default`; it
/// stands in the types `fxhash::FxHashSet` and `fxhash::FxHashMap`. Nothing
/// is claimed of it.
#[verifier::external_type_specification]
#[verifier::external_body]
#[verifier::reject_recursive_types(H)]
pub struct ExBuildHasherDefault<H>(core::hash::BuildHasherDefault<H>);

/// `FxHashSet::default()`: a set of integers hashed by `fxhash::FxHasher`,
/// with nothing in it.
#[verifier::external_body]
fn key_set_new() -> (r: FxHashSet<u64>)
    ensures
        r@ == Set::<u64>::empty(),
{
    FxHashSet::default()
}

/// `HashSet::insert` on a set hashed by `fxhash::FxHasher`: the hasher maps
/// equal integers to equal hashes, so the set gains `key` and the result
/// says whether it was new.
#[verifier::external_body]
fn key_set_insert(set: &mut FxHashSet<u64>, key: u64) -> (r: bool)
    ensures
        final(set)@ == old(set)@.insert(key),
        r == !old(set)@.contains(key),
{
    set.insert(key)
}

/// `HashSet::contains` on a set hashed by `fxhash::FxHasher`: whether `key`
/// is in the set.
#[verifier::external_body]
fn key_set_contains(set: &FxHashSet<u64>, key: u64) -> (r: bool)
    ensures
        r == set@.contains(key),
{
    set.contains(&key)
}

/// `HashSet::clone` on a set hashed by `fxhash::FxHasher`: a set with the
/// same integers.
#[verifier::external_body]
fn key_set_clone(set: &FxHashSet<u64>) -> (r: FxHashSet<u64>)
    ensures
        r@ == set@,
{
    set.clone()
}

/// `HashMap::retain` on a map hashed by `fxhash::FxHasher`, with a closure
/// that asks `mask` of each key: the map keeps the keys that `mask` does
/// not hold, with their values, and loses the others.
#[verifier::external_body]
fn key_map_retain_animated(map: &mut KeyMap<Transform>, mask: &LayerMask)
    ensures
        final(map)@ == old(map)@.remove_keys(mask@),
{
    map.retain(|key, _| mask.animates_key(*key));
}

/// The bones excluded from a layer's pose, by the keys of their handles.
#[derive(Debug, PartialEq, Eq)]
pub struct LayerMask {
    pub excluded_bones: FxHashSet<u64>,
}

/// `pose` without the bones whose keys are in `excluded`.
pub open spec fn masked(pose: Map<Handle, Transform>, excluded: Set<u64>) -> Map<
    Handle,
    Transform,
> {
    Map::new(
        |b: Handle| pose.dom().contains(b) && !excluded.contains(b.key_spec()),
        |b: Handle| pose[b],
    )
}

impl From<FxHashSet<u64>> for LayerMask {
    /// A mask that excludes the bones whose keys are in `set`.
    fn from(set: FxHashSet<u64>) -> (r: Self) {
        LayerMask { excluded_bones: set }
    }
}

impl vstd::std_specs::convert::FromSpecImpl<FxHashSet<u64>> for LayerMask {
    open spec fn obeys_from_spec() -> bool {
        true
    }

    open spec fn from_spec(set: FxHashSet<u64>) -> Self {
        LayerMask { excluded_bones: set }
    }
}

impl Default for LayerMask {
    /// A mask that excludes nothing.
    fn default() -> (r: Self)
        ensures
            r@ == Set::<u64>::empty(),
    {
        LayerMask { excluded_bones: key_set_new() }
    }
}

impl Clone for LayerMask {
    fn clone(&self) -> (r: Self)
        ensures
            r@ == self@,
    {
        LayerMask { excluded_bones: key_set_clone(&self.excluded_bones) }
    }
}

impl LayerMask {
    /// The keys of the excluded bones.
    pub open spec fn view(&self) -> Set<u64> {
        self.excluded_bones@
    }

    /// Whether the layer animates `node`.
    pub open spec fn should_animate_spec(&self, node: Handle) -> bool {
        !self@.contains(node.key_spec())
    }

    /// A mask that excludes nothing.
    pub fn new() -> (r: Self)
        ensures
            r@ == Set::<u64>::empty(),
    {
        LayerMask { excluded_bones: key_set_new() }
    }

    /// Excludes `node`; every other bone stays as it was.
    pub fn exclude_from_animation(&mut self, node: Handle)
        ensures
            final(self)@ == old(self)@.insert(node.key_spec()),
            !final(self).should_animate_spec(node),
            forall|other: Handle|
                other != node ==> final(self).should_animate_spec(other) == old(
                    self,
                ).should_animate_spec(other),
    {
        let _ = key_set_insert(&mut self.excluded_bones, node.key());
        proof {
            assert forall|other: Handle| other != node implies self.should_animate_spec(other)
                == old(self).should_animate_spec(other) by {
                lemma_key_injective(other, node);
            }
        }
    }

    /// Whether the layer animates the bone whose handle has the key `key`.
    pub fn animates_key(&self, key: u64) -> (r: bool)
        ensures
            r == !self@.contains(key),
    {
        !key_set_contains(&self.excluded_bones, key)
    }

    pub fn should_animate(&self, node: Handle) -> (r: bool)
        ensures
            r == self.should_animate_spec(node),
    {
        !key_set_contains(&self.excluded_bones, node.key())
    }

    pub fn inner(&self) -> (r: &FxHashSet<u64>)
        ensures
            r@ == self@,
    {
        &self.excluded_bones
    }

    pub fn inner_mut(&mut self) -> (r: &mut FxHashSet<u64>)
        ensures
            r@ == old(self)@,
            final(self)@ == final(r)@,
    {
        &mut self.excluded_bones
    }

    pub fn into_inner(self) -> (r: FxHashSet<u64>)
        ensures
            r@ == self@,
    {
        self.excluded_bones
    }

    /// Takes the bones that this mask excludes out of `pose`.
    pub fn retain_animated(&self, pose: &mut Pose)
        ensures
            final(pose)@ == masked(old(pose)@, self@),
    {
        key_map_retain_animated(&mut pose.entries, self);
        assert(pose@ =~= masked(old(pose)@, self@));
    }

    /// `pose` without the bones that this mask excludes.
    pub fn apply(&self, pose: &Pose) -> (r: Pose)
        ensures
            r@ == masked(pose@, self@),
    {
        let mut out = pose.duplicate();
        self.retain_animated(&mut out);
        out
    }
}

} // verus!
