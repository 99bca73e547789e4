//! Poses and the one blending primitive: a weighted sum of poses, bone by
//! bone, divided by a common divisor.

use vstd::prelude::*;
use fxhash::FxHashMap;
use crate::pool::{lemma_key_injective, lemma_key_of_handle, Handle};

verus! {

/// The weight that stands for one.
pub const WEIGHT_ONE: u64 = 1_000_000;

pub open spec fn clamp(x: int, lo: int, hi: int) -> int {
    if x < lo {
        lo
    } else if x > hi {
        hi
    } else {
        x
    }
}

/// A running sum after one more term `weight * value`, held within `i128`.
pub open spec fn accumulate_spec(sum: int, weight: int, value: int) -> int {
    clamp(sum + weight * value, i128::MIN as int, i128::MAX as int)
}

/// Division that rounds towards zero.
pub open spec fn div_toward_zero(a: int, d: int) -> int
    recommends
        d > 0,
{
    if a >= 0 {
        a / d
    } else {
        -((-a) / d)
    }
}

/// A sum divided by `divisor`, rounded towards zero and held within `i32`.
pub open spec fn normalize_spec(sum: int, divisor: int) -> int
    recommends
        divisor > 0,
{
    clamp(div_toward_zero(sum, divisor), i32::MIN as int, i32::MAX as int)
}

pub fn accumulate(sum: i128, weight: u64, value: i32) -> (r: i128)
    ensures
        r == accumulate_spec(sum as int, weight as int, value as int),
{
    let w: i128 = weight as i128;
    let v: i128 = value as i128;
    assert(-0x8000_0000_0000_0000_0000_0000 <= w * v <= 0x8000_0000_0000_0000_0000_0000)
        by (nonlinear_arith)
        requires
            0 <= w <= 0xffff_ffff_ffff_ffff,
            -0x8000_0000 <= v <= 0x7fff_ffff,
    ;
    let term: i128 = w * v;
    if term >= 0 {
        if sum > i128::MAX - term {
            i128::MAX
        } else {
            sum + term
        }
    } else {
        if sum < i128::MIN - term {
            i128::MIN
        } else {
            sum + term
        }
    }
}

pub fn normalize(sum: i128, divisor: u64) -> (r: i32)
    requires
        divisor > 0,
    ensures
        r == normalize_spec(sum as int, divisor as int),
{
    let d: u128 = divisor as u128;
    if sum >= 0 {
        let q: u128 = (sum as u128) / d;
        if q > 0x7fff_ffff {
            i32::MAX
        } else {
            q as i32
        }
    } else {
        let magnitude: u128 = ((-(sum + 1)) as u128) + 1;
        assert(magnitude == -(sum as int));
        let q: u128 = magnitude / d;
        if q >= 0x8000_0000 {
            i32::MIN
        } else {
            let small: i64 = q as i64;
            (-small) as i32
        }
    }
}

/// The local transform of one bone: position, rotation (a quaternion) and
/// scale, each channel a fixed-point number. Blending is linear in every
/// channel.
#[derive(Clone, Copy, Debug, PartialEq, Eq, Structural)]
pub struct Transform {
    pub position_x: i32,
    pub position_y: i32,
    pub position_z: i32,
    pub rotation_x: i32,
    pub rotation_y: i32,
    pub rotation_z: i32,
    pub rotation_w: i32,
    pub scale_x: i32,
    pub scale_y: i32,
    pub scale_z: i32,
}

/// Weighted sums of the channels of transforms.
#[derive(Clone, Copy, Debug, PartialEq, Eq, Structural)]
pub struct TransformSum {
    pub position_x: i128,
    pub position_y: i128,
    pub position_z: i128,
    pub rotation_x: i128,
    pub rotation_y: i128,
    pub rotation_z: i128,
    pub rotation_w: i128,
    pub scale_x: i128,
    pub scale_y: i128,
    pub scale_z: i128,
}

impl TransformSum {
    pub open spec fn zero_spec() -> TransformSum {
        TransformSum {
            position_x: 0,
            position_y: 0,
            position_z: 0,
            rotation_x: 0,
            rotation_y: 0,
            rotation_z: 0,
            rotation_w: 0,
            scale_x: 0,
            scale_y: 0,
            scale_z: 0,
        }
    }

    /// The sums after one more term `weight * t`.
    pub open spec fn add_weighted_spec(self, t: Transform, weight: u64) -> TransformSum {
        let w = weight as int;
        TransformSum {
            position_x: accumulate_spec(self.position_x as int, w, t.position_x as int) as i128,
            position_y: accumulate_spec(self.position_y as int, w, t.position_y as int) as i128,
            position_z: accumulate_spec(self.position_z as int, w, t.position_z as int) as i128,
            rotation_x: accumulate_spec(self.rotation_x as int, w, t.rotation_x as int) as i128,
            rotation_y: accumulate_spec(self.rotation_y as int, w, t.rotation_y as int) as i128,
            rotation_z: accumulate_spec(self.rotation_z as int, w, t.rotation_z as int) as i128,
            rotation_w: accumulate_spec(self.rotation_w as int, w, t.rotation_w as int) as i128,
            scale_x: accumulate_spec(self.scale_x as int, w, t.scale_x as int) as i128,
            scale_y: accumulate_spec(self.scale_y as int, w, t.scale_y as int) as i128,
            scale_z: accumulate_spec(self.scale_z as int, w, t.scale_z as int) as i128,
        }
    }

    /// The transform whose channels are the sums divided by `divisor`.
    pub open spec fn normalized_spec(self, divisor: u64) -> Transform
        recommends
            divisor > 0,
    {
        let d = divisor as int;
        Transform {
            position_x: normalize_spec(self.position_x as int, d) as i32,
            position_y: normalize_spec(self.position_y as int, d) as i32,
            position_z: normalize_spec(self.position_z as int, d) as i32,
            rotation_x: normalize_spec(self.rotation_x as int, d) as i32,
            rotation_y: normalize_spec(self.rotation_y as int, d) as i32,
            rotation_z: normalize_spec(self.rotation_z as int, d) as i32,
            rotation_w: normalize_spec(self.rotation_w as int, d) as i32,
            scale_x: normalize_spec(self.scale_x as int, d) as i32,
            scale_y: normalize_spec(self.scale_y as int, d) as i32,
            scale_z: normalize_spec(self.scale_z as int, d) as i32,
        }
    }

    pub fn zero() -> (r: TransformSum)
        ensures
            r == TransformSum::zero_spec(),
    {
        TransformSum {
            position_x: 0,
            position_y: 0,
            position_z: 0,
            rotation_x: 0,
            rotation_y: 0,
            rotation_z: 0,
            rotation_w: 0,
            scale_x: 0,
            scale_y: 0,
            scale_z: 0,
        }
    }

    pub fn add_weighted(&self, t: &Transform, weight: u64) -> (r: TransformSum)
        ensures
            r == self.add_weighted_spec(*t, weight),
    {
        TransformSum {
            position_x: accumulate(self.position_x, weight, t.position_x),
            position_y: accumulate(self.position_y, weight, t.position_y),
            position_z: accumulate(self.position_z, weight, t.position_z),
            rotation_x: accumulate(self.rotation_x, weight, t.rotation_x),
            rotation_y: accumulate(self.rotation_y, weight, t.rotation_y),
            rotation_z: accumulate(self.rotation_z, weight, t.rotation_z),
            rotation_w: accumulate(self.rotation_w, weight, t.rotation_w),
            scale_x: accumulate(self.scale_x, weight, t.scale_x),
            scale_y: accumulate(self.scale_y, weight, t.scale_y),
            scale_z: accumulate(self.scale_z, weight, t.scale_z),
        }
    }

    pub fn normalized(&self, divisor: u64) -> (r: Transform)
        requires
            divisor > 0,
        ensures
            r == self.normalized_spec(divisor),
    {
        Transform {
            position_x: normalize(self.position_x, divisor),
            position_y: normalize(self.position_y, divisor),
            position_z: normalize(self.position_z, divisor),
            rotation_x: normalize(self.rotation_x, divisor),
            rotation_y: normalize(self.rotation_y, divisor),
            rotation_z: normalize(self.rotation_z, divisor),
            rotation_w: normalize(self.rotation_w, divisor),
            scale_x: normalize(self.scale_x, divisor),
            scale_y: normalize(self.scale_y, divisor),
            scale_z: normalize(self.scale_z, divisor),
        }
    }
}


/// Whether some entry of `s` is for `bone`.
pub open spec fn seq_has<V>(s: Seq<(Handle, V)>, bone: Handle) -> bool {
    exists|i: int| 0 <= i < s.len() && (#[trigger] s[i]).0 == bone
}

/// The place of an entry of `s` for `bone`.
pub open spec fn seq_index<V>(s: Seq<(Handle, V)>, bone: Handle) -> int {
    choose|i: int| 0 <= i < s.len() && (#[trigger] s[i]).0 == bone
}

/// No bone has two entries.
pub open spec fn seq_distinct<V>(s: Seq<(Handle, V)>) -> bool {
    forall|i: int, j: int| 0 <= i < j < s.len() ==> (#[trigger] s[i]).0 != (#[trigger] s[j]).0
}

/// The mapping that the entries of `s` spell out.
pub open spec fn seq_map<V>(s: Seq<(Handle, V)>) -> Map<Handle, V> {
    Map::new(|b: Handle| seq_has(s, b), |b: Handle| s[seq_index(s, b)].1)
}

pub proof fn lemma_seq_entry<V>(s: Seq<(Handle, V)>, i: int)
    requires
        seq_distinct(s),
        0 <= i < s.len(),
    ensures
        seq_has(s, s[i].0),
        seq_index(s, s[i].0) == i,
        seq_map(s).dom().contains(s[i].0),
        seq_map(s)[s[i].0] == s[i].1,
{
    let k = seq_index(s, s[i].0);
    assert(0 <= k < s.len() && s[k].0 == s[i].0);
    if k < i {
        assert(s[k].0 != s[i].0);
    } else if i < k {
        assert(s[i].0 != s[k].0);
    }
}

pub proof fn lemma_seq_push<V>(s: Seq<(Handle, V)>, bone: Handle, value: V)
    requires
        seq_distinct(s),
        !seq_has(s, bone),
    ensures
        seq_distinct(s.push((bone, value))),
        seq_map(s.push((bone, value))) == seq_map(s).insert(bone, value),
{
    let t = s.push((bone, value));
    assert(seq_distinct(t)) by {
        assert forall|i: int, j: int| 0 <= i < j < t.len() implies (#[trigger] t[i]).0 != (
        #[trigger] t[j]).0 by {
            if j < s.len() {
                assert(s[i].0 != s[j].0);
            } else {
                assert(s[i].0 != bone);
            }
        }
    }
    assert forall|b: Handle| seq_has(t, b) == (b == bone || seq_has(s, b)) by {
        if seq_has(t, b) {
            let k = seq_index(t, b);
            if k < s.len() {
                assert(s[k].0 == b);
            }
        }
        if b == bone {
            assert(t[s.len() as int].0 == b);
        }
        if seq_has(s, b) {
            let k = seq_index(s, b);
            assert(t[k].0 == b);
        }
    }
    assert forall|b: Handle| seq_has(t, b) implies #[trigger] seq_map(t)[b] == seq_map(s).insert(
        bone,
        value,
    )[b] by {
        let k = seq_index(t, b);
        lemma_seq_entry(t, k);
        if k < s.len() {
            lemma_seq_entry(s, k);
        }
    }
    assert(seq_map(t) =~= seq_map(s).insert(bone, value));
}

/// Taking one more entry of a list adds that entry's bone to its mapping.
pub proof fn lemma_seq_take_step<V>(s: Seq<(Handle, V)>, j: int)
    requires
        seq_distinct(s),
        0 <= j < s.len(),
    ensures
        seq_distinct(s.take(j)),
        !seq_has(s.take(j), s[j].0),
        seq_map(s.take(j + 1)) == seq_map(s.take(j)).insert(s[j].0, s[j].1),
{
    let a = s.take(j);
    assert(seq_distinct(a)) by {
        assert forall|x: int, y: int| 0 <= x < y < a.len() implies (#[trigger] a[x]).0 != (
        #[trigger] a[y]).0 by {
            assert(s[x].0 != s[y].0);
        }
    }
    if seq_has(a, s[j].0) {
        let k = seq_index(a, s[j].0);
        assert(s[k].0 != s[j].0);
    }
    assert(s.take(j + 1) =~= a.push(s[j]));
    lemma_seq_push(a, s[j].0, s[j].1);
}

/// No key occurs twice in `s`.
pub open spec fn keys_distinct<V>(s: Seq<(u64, V)>) -> bool {
    forall|i: int, j: int| 0 <= i < j < s.len() ==> (#[trigger] s[i]).0 != (#[trigger] s[j]).0
}

/// A hash map from the keys of handles, hashed by `fxhash::FxHasher`.
pub type KeyMap<V> = FxHashMap<u64, V>;

/// `FxHashMap::default()`: a map from integers, hashed by
/// `fxhash::FxHasher`, with nothing in it.
#[verifier::external_body]
fn key_map_new<V>() -> (r: KeyMap<V>)
    ensures
        r@.dom() == Set::<u64>::empty(),
{
    FxHashMap::default()
}

/// `HashMap::len` on a map hashed by `fxhash::FxHasher`: the number of its
/// keys.
#[verifier::external_body]
fn key_map_len<V>(map: &KeyMap<V>) -> (r: usize)
    ensures
        r == map@.dom().len(),
{
    map.len()
}

/// `HashMap::is_empty` on a map hashed by `fxhash::FxHasher`: whether the
/// map has no key.
#[verifier::external_body]
fn key_map_is_empty<V>(map: &KeyMap<V>) -> (r: bool)
    ensures
        r == (map@.dom() =~= Set::<u64>::empty()),
{
    map.is_empty()
}

/// `HashMap::get` on a map hashed by `fxhash::FxHasher`, with the value
/// copied out: the value under `key`, if the map has that key.
#[verifier::external_body]
fn key_map_get<V: Copy>(map: &KeyMap<V>, key: u64) -> (r: Option<V>)
    ensures
        r == if map@.dom().contains(key) {
            Some(map@[key])
        } else {
            None
        },
{
    map.get(&key).copied()
}

/// `HashMap::insert` on a map hashed by `fxhash::FxHasher`: the hasher maps
/// equal integers to equal hashes, so the map has `value` under `key`
/// afterwards and is otherwise as it was.
#[verifier::external_body]
fn key_map_insert<V>(map: &mut KeyMap<V>, key: u64, value: V)
    ensures
        final(map)@ == old(map)@.insert(key, value),
{
    map.insert(key, value);
}

/// `HashMap::iter` on a map hashed by `fxhash::FxHasher`, with each pair
/// copied out: every key of the map once, with its value, in an order that
/// is the map's own affair.
#[verifier::external_body]
fn key_map_items<V: Copy>(map: &KeyMap<V>) -> (r: Vec<(u64, V)>)
    ensures
        keys_distinct(r@),
        forall|i: int|
            0 <= i < r@.len() ==> map@.dom().contains((#[trigger] r@[i]).0) && map@[r@[i].0]
                == r@[i].1,
        forall|k: u64|
            map@.dom().contains(k) ==> exists|i: int| 0 <= i < r@.len() && (#[trigger] r@[i]).0 == k,
{
    map.iter().map(|(k, v)| (*k, *v)).collect()
}

/// A mapping from bones to values, kept in a hash map under the keys of
/// the bones' handles.
#[derive(Clone, Debug, PartialEq, Eq)]
pub struct BoneMap<V> {
    pub entries: KeyMap<V>,
}

/// One frame's local transform for each bone that is animated.
pub type Pose = BoneMap<Transform>;

/// Weighted sums of poses, bone by bone.
pub type PoseSum = BoneMap<TransformSum>;

impl<V: Copy> BoneMap<V> {
    pub open spec fn view(&self) -> Map<Handle, V> {
        Map::new(
            |h: Handle| self.entries@.dom().contains(h.key_spec()),
            |h: Handle| self.entries@[h.key_spec()],
        )
    }

    pub fn new() -> (r: Self)
        ensures
            r@ == Map::<Handle, V>::empty(),
            r.entries@ == Map::<u64, V>::empty(),
    {
        let r = BoneMap { entries: key_map_new() };
        assert(r.entries@ =~= Map::<u64, V>::empty());
        assert(r@ =~= Map::<Handle, V>::empty());
        r
    }

    /// Number of bones.
    pub fn len(&self) -> (r: usize)
        ensures
            r == self.entries@.dom().len(),
    {
        key_map_len(&self.entries)
    }

    /// Whether there is no bone.
    pub fn is_empty(&self) -> (r: bool)
        ensures
            r == (self@ == Map::<Handle, V>::empty()),
    {
        let r = key_map_is_empty(&self.entries);
        proof {
            if r {
                assert(self@ =~= Map::<Handle, V>::empty());
            } else {
                let k = choose|k: u64| self.entries@.dom().contains(k);
                assert(self.entries@.dom().contains(k));
                lemma_key_of_handle(k);
                assert(self@.dom().contains(Handle::from_key_spec(k)));
            }
        }
        r
    }

    /// The value for `bone`, if it has one.
    pub fn get(&self, bone: Handle) -> (r: Option<V>)
        ensures
            r is Some <==> self@.dom().contains(bone),
            r is Some ==> r->0 == self@[bone],
    {
        key_map_get(&self.entries, bone.key())
    }

    /// Gives `bone` the value `value`, whether or not it had one.
    pub fn insert(&mut self, bone: Handle, value: V)
        ensures
            final(self)@ == old(self)@.insert(bone, value),
    {
        key_map_insert(&mut self.entries, bone.key(), value);
        proof {
            assert forall|h: Handle| h != bone implies h.key_spec() != bone.key_spec() by {
                lemma_key_injective(h, bone);
            }
            assert(self@ =~= old(self)@.insert(bone, value));
        }
    }

    /// A copy with the same bones and values.
    pub fn duplicate(&self) -> (r: Self)
        ensures
            r.entries@ == self.entries@,
            r@ == self@,
    {
        BoneMap { entries: self.entries.clone() }
    }

    /// The bones with their values, each bone once, in an order that is the
    /// hash map's own affair.
    pub fn entries(&self) -> (r: Vec<(Handle, V)>)
        ensures
            seq_distinct(r@),
            seq_map(r@) == self@,
    {
        let items = key_map_items(&self.entries);
        let n: usize = items.len();
        let mut out: Vec<(Handle, V)> = Vec::new();
        let mut i: usize = 0;
        while i < n
            invariant
                n == items@.len(),
                i <= n,
                out@.len() == i,
                forall|j: int|
                    0 <= j < i ==> (#[trigger] out@[j]).0.key_spec() == items@[j].0 && out@[j].1
                        == items@[j].1,
            decreases n - i,
        {
            let e = items[i];
            out.push((Handle::from_key(e.0), e.1));
            i += 1;
        }
        proof {
            let s = out@;
            assert forall|x: int, y: int| 0 <= x < y < s.len() implies (#[trigger] s[x]).0 != (
            #[trigger] s[y]).0 by {
                assert(items@[x].0 != items@[y].0);
            }
            assert forall|h: Handle| seq_has(s, h) == self@.dom().contains(h) by {
                if seq_has(s, h) {
                    let k = seq_index(s, h);
                    assert(self.entries@.dom().contains(items@[k].0));
                }
                if self@.dom().contains(h) {
                    let k = choose|k: int| 0 <= k < items@.len() && (#[trigger] items@[k]).0
                        == h.key_spec();
                    lemma_key_injective(s[k].0, h);
                    assert(s[k].0 == h);
                }
            }
            assert forall|h: Handle| seq_has(s, h) implies #[trigger] seq_map(s)[h] == self@[h] by {
                let k = seq_index(s, h);
                lemma_seq_entry(s, k);
                assert(self.entries@[items@[k].0] == items@[k].1);
            }
            assert(seq_map(s) =~= self@);
        }
        out
    }
}

/// The sums `acc` after one more term `weight * p`: a bone absent from
/// `acc` starts from zero, a bone absent from `p` adds nothing.
pub open spec fn add_weighted_map(
    acc: Map<Handle, TransformSum>,
    p: Map<Handle, Transform>,
    weight: u64,
) -> Map<Handle, TransformSum> {
    Map::new(
        |b: Handle| acc.dom().contains(b) || p.dom().contains(b),
        |b: Handle|
            if p.dom().contains(b) {
                (if acc.dom().contains(b) {
                    acc[b]
                } else {
                    TransformSum::zero_spec()
                }).add_weighted_spec(p[b], weight)
            } else {
                acc[b]
            },
    )
}

/// The pose whose transforms are the sums of `acc` divided by `divisor`.
pub open spec fn normalized_map(acc: Map<Handle, TransformSum>, divisor: u64) -> Map<
    Handle,
    Transform,
> {
    Map::new(|b: Handle| acc.dom().contains(b), |b: Handle| acc[b].normalized_spec(divisor))
}

impl BoneMap<TransformSum> {
    /// Adds `weight * pose` to the sums.
    pub fn add_pose(&mut self, pose: &Pose, weight: u64)
        ensures
            final(self)@ == add_weighted_map(old(self)@, pose@, weight),
    {
        let items = pose.entries();
        let n: usize = items.len();
        let mut j: usize = 0;
        assert(self@ =~= add_weighted_map(old(self)@, seq_map(items@.take(0)), weight));
        while j < n
            invariant
                n == items@.len(),
                j <= n,
                seq_distinct(items@),
                self@ == add_weighted_map(old(self)@, seq_map(items@.take(j as int)), weight),
            decreases n - j,
        {
            let bone = items[j].0;
            let transform = items[j].1;
            proof {
                lemma_seq_take_step(items@, j as int);
            }
            let current = match self.get(bone) {
                Some(sum) => sum,
                None => TransformSum::zero(),
            };
            let next = current.add_weighted(&transform, weight);
            self.insert(bone, next);
            assert(self@ =~= add_weighted_map(
                old(self)@,
                seq_map(items@.take(j as int + 1)),
                weight,
            ));
            j += 1;
        }
        assert(items@.take(n as int) =~= items@);
    }

    /// The pose of the sums divided by `divisor`.
    pub fn normalized(&self, divisor: u64) -> (r: Pose)
        requires
            divisor > 0,
        ensures
            r@ == normalized_map(self@, divisor),
    {
        let items = self.entries();
        let n: usize = items.len();
        let mut out: Pose = BoneMap::new();
        let mut i: usize = 0;
        assert(out@ =~= normalized_map(seq_map(items@.take(0)), divisor));
        while i < n
            invariant
                n == items@.len(),
                i <= n,
                divisor > 0,
                seq_distinct(items@),
                out@ == normalized_map(seq_map(items@.take(i as int)), divisor),
            decreases n - i,
        {
            let e = items[i];
            proof {
                lemma_seq_take_step(items@, i as int);
            }
            out.insert(e.0, e.1.normalized(divisor));
            assert(out@ =~= normalized_map(seq_map(items@.take(i as int + 1)), divisor));
            i += 1;
        }
        assert(items@.take(n as int) =~= items@);
        out
    }
}

} // verus!
