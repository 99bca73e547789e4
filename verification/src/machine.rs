//! The machine: shared parameters and an ordered list of layers.

use vstd::prelude::*;
use crate::event::Event;
use crate::layer::{MachineLayer, EVENT_LIMIT};
use crate::node::AnimationContainer;
use crate::parameter::{Parameter, ParameterContainer};
use crate::pool::Handle;
use crate::pose::{add_weighted_map, normalized_map, BoneMap, Pose, PoseSum, Transform, TransformSum, WEIGHT_ONE};

verus! {

/// The sum of the poses of the first `k` layers, each times its layer's
/// weight.
pub open spec fn layers_sum(layers: Seq<MachineLayer>, k: nat) -> Map<Handle, TransformSum>
    decreases k,
{
    if k == 0 {
        Map::empty()
    } else {
        add_weighted_map(
            layers_sum(layers, (k - 1) as nat),
            layers[k - 1].final_pose@,
            layers[k - 1].weight,
        )
    }
}

/// The sum of the first `k` layers depends on those layers only.
pub proof fn lemma_layers_sum_prefix(a: Seq<MachineLayer>, b: Seq<MachineLayer>, k: nat)
    requires
        k <= a.len(),
        k <= b.len(),
        forall|j: int| 0 <= j < k ==> a[j] == b[j],
    ensures
        layers_sum(a, k) == layers_sum(b, k),
    decreases k,
{
    if k > 0 {
        lemma_layers_sum_prefix(a, b, (k - 1) as nat);
    }
}

/// An animation blending state machine.
#[derive(Clone, Debug, PartialEq, Eq)]
pub struct Machine {
    pub parameters: ParameterContainer,
    pub layers: Vec<MachineLayer>,
    pub final_pose: Pose,
}

impl Default for Machine {
    /// A machine without layers and without parameters.
    fn default() -> (r: Self)
        ensures
            r.wf(),
            r.layers@.len() == 0,
            forall|n: Seq<char>| r.parameters.value_of(n) is None,
            r.final_pose@ == Map::<Handle, Transform>::empty(),
    {
        Machine { parameters: ParameterContainer::new(), layers: Vec::new(), final_pose: BoneMap::new() }
    }
}

impl Machine {
    /// Every layer is well formed.
    pub open spec fn wf(&self) -> bool {
        forall|i: int| 0 <= i < self.layers@.len() ==> (#[trigger] self.layers@[i]).wf()
    }

    /// The pose of the machine for the poses that its layers hold: the sum
    /// of the layers' poses, each times its layer's weight, in units of
    /// `WEIGHT_ONE`.
    pub open spec fn composed_pose(&self) -> Map<Handle, Transform> {
        normalized_map(layers_sum(self.layers@, self.layers@.len()), WEIGHT_ONE)
    }

    /// Whether the machine is well formed: what `evaluate_pose` asks of it.
    pub fn is_wf(&self) -> (r: bool)
        ensures
            r == self.wf(),
    {
        let n: usize = self.layers.len();
        let mut i: usize = 0;
        while i < n
            invariant
                n == self.layers@.len(),
                i <= n,
                forall|j: int| 0 <= j < i ==> (#[trigger] self.layers@[j]).wf(),
            decreases n - i,
        {
            if !self.layers[i].is_wf() {
                return false;
            }
            i += 1;
        }
        true
    }

    /// A machine with no parameters and one layer: a layer without nodes,
    /// states or transitions, with weight one, an empty mask and room for
    /// `EVENT_LIMIT` events.
    pub fn new() -> (r: Self)
        ensures
            r.wf(),
            r.layers@.len() == 1,
            r.layers@[0].wf(),
            r.layers@[0].is_idle(),
            r.layers@[0].entry_state.is_none_spec(),
            r.layers@[0].weight == WEIGHT_ONE,
            r.layers@[0].mask@ == Set::<u64>::empty(),
            r.layers@[0].events@ == Seq::<Event>::empty(),
            r.layers@[0].events.limit == EVENT_LIMIT,
            r.layers@[0].final_pose@ == Map::<Handle, Transform>::empty(),
            r.layers@[0].name@ == Seq::<char>::empty(),
            !r.layers@[0].debug,
            r.layers@[0].nodes.capacity_spec() == 0,
            r.layers@[0].states.capacity_spec() == 0,
            r.layers@[0].transitions.capacity_spec() == 0,
            forall|h: Handle| !r.layers@[0].nodes.contains(h),
            forall|h: Handle| !r.layers@[0].states.contains(h),
            forall|h: Handle| !r.layers@[0].transitions.contains(h),
            forall|n: Seq<char>| r.parameters.value_of(n) is None,
            r.final_pose@ == Map::<Handle, Transform>::empty(),
    {
        let mut layers: Vec<MachineLayer> = Vec::new();
        layers.push(MachineLayer::new());
        Machine { parameters: ParameterContainer::new(), layers, final_pose: BoneMap::new() }
    }

    /// Gives parameter `id` the value `new_value`, whether or not it had
    /// one. Hands the machine back, so that calls can be chained.
    pub fn set_parameter(&mut self, id: &str, new_value: Parameter) -> (r: &mut Self)
        ensures
            r.layers == old(self).layers,
            r.final_pose == old(self).final_pose,
            forall|n: Seq<char>| #[trigger]
                r.parameters.value_of(n) == if n == id@ {
                    Some(new_value)
                } else {
                    old(self).parameters.value_of(n)
                },
            *final(self) == *final(r),
    {
        self.parameters.set(id, new_value);
        self
    }

    pub fn parameters(&self) -> (r: &ParameterContainer)
        ensures
            *r == self.parameters,
    {
        &self.parameters
    }

    /// The parameters, for changing them in place.
    pub fn parameters_mut(&mut self) -> (r: &mut ParameterContainer)
        ensures
            *r == old(self).parameters,
            *final(self) == (Machine { parameters: *final(r), ..*old(self) }),
    {
        &mut self.parameters
    }

    /// Appends `layer` to the list of layers.
    pub fn add_layer(&mut self, layer: MachineLayer)
        ensures
            final(self).layers@ == old(self).layers@.push(layer),
            final(self).parameters == old(self).parameters,
            final(self).final_pose == old(self).final_pose,
    {
        self.layers.push(layer)
    }

    /// Takes the layer at `index` out of the list.
    pub fn remove_layer(&mut self, index: usize) -> (r: MachineLayer)
        requires
            index < old(self).layers@.len(),
        ensures
            r == old(self).layers@[index as int],
            final(self).layers@ == old(self).layers@.remove(index as int),
            final(self).parameters == old(self).parameters,
            final(self).final_pose == old(self).final_pose,
    {
        self.layers.remove(index)
    }

    /// Puts `layer` into the list at `index`.
    pub fn insert_layer(&mut self, index: usize, layer: MachineLayer)
        requires
            index <= old(self).layers@.len(),
        ensures
            final(self).layers@ == old(self).layers@.insert(index as int, layer),
            final(self).parameters == old(self).parameters,
            final(self).final_pose == old(self).final_pose,
    {
        self.layers.insert(index, layer)
    }

    /// Takes the last layer out of the list.
    pub fn pop_layer(&mut self) -> (r: Option<MachineLayer>)
        ensures
            old(self).layers@.len() == 0 ==> r is None && final(self).layers@ == old(self).layers@,
            old(self).layers@.len() > 0 ==> r == Some(old(self).layers@.last()) && final(self).layers@ == old(self).layers@.drop_last(),
            final(self).parameters == old(self).parameters,
            final(self).final_pose == old(self).final_pose,
    {
        self.layers.pop()
    }

    pub fn layers(&self) -> (r: &[MachineLayer])
        ensures
            r@ == self.layers@,
    {
        self.layers.as_slice()
    }

    /// The list of layers, for changing it in place.
    pub fn layers_mut(&mut self) -> (r: &mut Vec<MachineLayer>)
        ensures
            *r == old(self).layers,
            *final(self) == (Machine { layers: *final(r), ..*old(self) }),
    {
        &mut self.layers
    }

    /// The pose that the last frame computed.
    pub fn pose(&self) -> (r: &Pose)
        ensures
            *r == self.final_pose,
    {
        &self.final_pose
    }

    /// Puts the machine into the condition in which a saved machine is
    /// loaded: the parameters and, in every layer, names, nodes, states,
    /// transitions, cursor, weight and mask stay; every cached pose and
    /// every queue of events is emptied and every transition is back at
    /// zero.
    pub fn clear_transients(&mut self)
        requires
            old(self).wf(),
        ensures
            final(self).wf(),
            final(self).parameters == old(self).parameters,
            final(self).final_pose@ == Map::<Handle, Transform>::empty(),
            final(self).layers@.len() == old(self).layers@.len(),
            forall|i: int|
                0 <= i < old(self).layers@.len() ==> (#[trigger] old(self).layers@[i]).cleared(
                    final(self).layers@[i],
                ),
    {
        let n: usize = self.layers.len();
        let mut i: usize = 0;
        while i < n
            invariant
                n == old(self).layers@.len(),
                n == self.layers@.len(),
                i <= n,
                old(self).wf(),
                self.parameters == old(self).parameters,
                forall|j: int|
                    0 <= j < i ==> (#[trigger] old(self).layers@[j]).cleared(self.layers@[j]),
                forall|j: int| i <= j < n ==> self.layers@[j] == old(self).layers@[j],
            decreases n - i,
        {
            let layer = &mut self.layers[i];
            layer.clear_transients();
            i += 1;
        }
        self.final_pose = BoneMap::new();
        proof {
            assert forall|j: int| 0 <= j < self.layers@.len() implies (
            #[trigger] self.layers@[j]).wf() by {
                assert(old(self).layers@[j].cleared(self.layers@[j]));
            }
        }
    }

    /// Advances every layer by one frame of `dt` ticks, in list order, and
    /// computes the pose of the machine from the poses of the layers.
    pub fn evaluate_pose(&mut self, animations: &AnimationContainer, dt: u64) -> (r: &Pose)
        requires
            old(self).wf(),
            animations.wf(),
        ensures
            final(self).wf(),
            final(self).parameters == old(self).parameters,
            final(self).layers@.len() == old(self).layers@.len(),
            forall|i: int|
                0 <= i < old(self).layers@.len() ==> (#[trigger] old(self).layers@[i]).stepped(
                    final(self).layers@[i],
                    old(self).parameters,
                    *animations,
                    dt,
                ),
            final(self).final_pose@ == final(self).composed_pose(),
            *r == final(self).final_pose,
    {
        let n: usize = self.layers.len();
        let mut sum: PoseSum = BoneMap::new();
        let mut i: usize = 0;
        while i < n
            invariant
                n == old(self).layers@.len(),
                n == self.layers@.len(),
                i <= n,
                animations.wf(),
                old(self).wf(),
                self.parameters == old(self).parameters,
                self.final_pose == old(self).final_pose,
                forall|j: int|
                    0 <= j < i ==> (#[trigger] old(self).layers@[j]).stepped(
                        self.layers@[j],
                        old(self).parameters,
                        *animations,
                        dt,
                    ),
                forall|j: int| i <= j < n ==> self.layers@[j] == old(self).layers@[j],
                sum@ == layers_sum(self.layers@, i as nat),
            decreases n - i,
        {
            let ghost before = self.layers@;
            let layer = &mut self.layers[i];
            let weight = layer.weight();
            let pose = layer.evaluate_pose(animations, &self.parameters, dt);
            sum.add_pose(pose, weight);
            proof {
                lemma_layers_sum_prefix(before, self.layers@, i as nat);
            }
            i += 1;
        }
        self.final_pose = sum.normalized(WEIGHT_ONE);
        proof {
            assert forall|j: int| 0 <= j < self.layers@.len() implies (
            #[trigger] self.layers@[j]).wf() by {
                assert(old(self).layers@[j].stepped(
                    self.layers@[j],
                    old(self).parameters,
                    *animations,
                    dt,
                ));
            }
        }
        &self.final_pose
    }
}

} // verus!
