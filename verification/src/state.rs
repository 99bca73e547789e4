//! Named states, each backed by a node of the pose graph.

use vstd::prelude::*;
use crate::node::{evaluate_node, graph_valid, node_pose, AnimationContainer, PoseNode};
use crate::parameter::ParameterContainer;
use crate::pool::{Handle, Pool};
use crate::pose::{BoneMap, Pose};

verus! {

/// A behaviour mode of a layer: a name, the node that yields its pose, and
/// the pose that node last yielded.
#[derive(Clone, Debug, PartialEq, Eq)]
pub struct State {
    pub name: String,
    pub root: Handle,
    pub pose: Pose,
}

impl State {
    /// This state with `pose` as its cached pose.
    pub open spec fn with_pose(self, pose: Pose) -> State {
        State { name: self.name, root: self.root, pose }
    }

    /// A state called `name` whose pose comes from node `root`.
    pub fn new(name: &str, root: Handle) -> (r: State)
        ensures
            r.name@ == name@,
            r.root == root,
            r.pose@ == Map::<Handle, crate::pose::Transform>::empty(),
    {
        State { name: name.to_owned(), root, pose: BoneMap::new() }
    }

    pub fn name(&self) -> (r: &str)
        ensures
            r@ == self.name@,
    {
        self.name.as_str()
    }

    pub fn root(&self) -> (r: Handle)
        ensures
            r == self.root,
    {
        self.root
    }

    /// The pose cached at the last update.
    pub fn pose(&self) -> (r: &Pose)
        ensures
            *r == self.pose,
    {
        &self.pose
    }

    /// Evaluates the root node and caches its pose.
    pub fn update(
        &mut self,
        nodes: &Pool<PoseNode>,
        params: &ParameterContainer,
        animations: &AnimationContainer,
    )
        requires
            nodes.wf(),
            nodes.contains(old(self).root),
            graph_valid(*nodes),
            animations.wf(),
        ensures
            final(self).name == old(self).name,
            final(self).root == old(self).root,
            final(self).pose@ == node_pose(
                *nodes,
                old(self).root,
                *params,
                *animations,
                nodes.capacity_spec(),
            ),
    {
        self.pose = evaluate_node(nodes, self.root, params, animations, nodes.capacity());
    }
}

} // verus!
