//! The graph of pose nodes behind the states of a layer, and its evaluation.

use vstd::prelude::*;
use crate::parameter::ParameterContainer;
use crate::pool::{Handle, Pool};
use crate::pose::{add_weighted_map, normalized_map, BoneMap, Pose, PoseSum, Transform, TransformSum};

verus! {

/// The poses that the host has sampled from its animation clips for the
/// current frame, by clip handle.
#[derive(Clone, Debug, PartialEq, Eq)]
pub struct AnimationContainer {
    pub clips: Pool<Pose>,
}

impl AnimationContainer {
    /// The pool of clips is well formed.
    pub open spec fn wf(&self) -> bool {
        self.clips.wf()
    }

    /// The sampled pose of clip `h`; the empty pose where there is no such
    /// clip.
    pub open spec fn pose_spec(&self, h: Handle) -> Map<Handle, Transform> {
        if self.clips.contains(h) {
            self.clips.get(h)@
        } else {
            Map::empty()
        }
    }

    /// Whether the pool of clips is well formed.
    pub fn is_wf(&self) -> (r: bool)
        ensures
            r == self.wf(),
    {
        self.clips.is_wf()
    }

    pub fn new() -> (r: Self)
        ensures
            r.wf(),
            r.clips.capacity_spec() == 0,
            forall|h: Handle| !r.clips.contains(h),
    {
        AnimationContainer { clips: Pool::new() }
    }

    /// Adds a clip with its sampled pose.
    pub fn add(&mut self, pose: Pose) -> (r: Handle)
        requires
            old(self).wf(),
            old(self).clips.has_room(),
        ensures
            final(self).wf(),
            old(self).clips.spawned(final(self).clips, pose, r),
            final(self).pose_spec(r) == pose@,
            forall|h: Handle| h != r ==> final(self).pose_spec(h) == old(self).pose_spec(h),
    {
        self.clips.spawn(pose)
    }

    /// Replaces the sampled pose of clip `clip`, which must exist.
    pub fn set_pose(&mut self, clip: Handle, pose: Pose)
        requires
            old(self).wf(),
            old(self).clips.contains(clip),
        ensures
            final(self).wf(),
            final(self).pose_spec(clip) == pose@,
            forall|h: Handle| final(self).clips.contains(h) == old(self).clips.contains(h),
            forall|h: Handle| h != clip ==> final(self).pose_spec(h) == old(self).pose_spec(h),
    {
        let _ = self.clips.replace(clip, pose);
    }
}

/// Where a blend input takes its weight from.
#[derive(Clone, Debug, PartialEq, Eq)]
pub enum PoseWeight {
    /// A fixed weight.
    Constant(u64),
    /// The weight parameter of that name.
    Parameter(String),
}

/// A leaf: the sampled pose of one clip.
#[derive(Clone, Debug, PartialEq, Eq)]
pub struct PlayAnimation {
    pub animation: Handle,
}

/// One weighted input of a blend.
#[derive(Clone, Debug, PartialEq, Eq)]
pub struct BlendPose {
    pub weight: PoseWeight,
    pub pose_source: Handle,
}

/// The weighted mean of the poses of its inputs.
#[derive(Clone, Debug, PartialEq, Eq)]
pub struct BlendAnimations {
    pub pose_sources: Vec<BlendPose>,
}

/// One input of a blend by index.
#[derive(Clone, Debug, PartialEq, Eq)]
pub struct IndexedBlendInput {
    pub pose_source: Handle,
}

/// The pose of the one input that an index parameter selects. A change of
/// the index takes effect at once.
#[derive(Clone, Debug, PartialEq, Eq)]
pub struct BlendAnimationsByIndex {
    pub index_parameter: String,
    pub inputs: Vec<IndexedBlendInput>,
}

/// A node of the pose graph.
#[derive(Clone, Debug, PartialEq, Eq)]
pub enum PoseNode {
    PlayAnimation(PlayAnimation),
    BlendAnimations(BlendAnimations),
    BlendAnimationsByIndex(BlendAnimationsByIndex),
}

impl PlayAnimation {
    pub fn new(animation: Handle) -> (r: Self)
        ensures
            r.animation == animation,
    {
        PlayAnimation { animation }
    }
}

impl BlendPose {
    pub fn new(weight: PoseWeight, pose_source: Handle) -> (r: Self)
        ensures
            r.weight == weight,
            r.pose_source == pose_source,
    {
        BlendPose { weight, pose_source }
    }
}

impl BlendAnimations {
    pub fn new(pose_sources: Vec<BlendPose>) -> (r: Self)
        ensures
            r.pose_sources == pose_sources,
    {
        BlendAnimations { pose_sources }
    }
}

impl IndexedBlendInput {
    pub fn new(pose_source: Handle) -> (r: Self)
        ensures
            r.pose_source == pose_source,
    {
        IndexedBlendInput { pose_source }
    }
}

impl BlendAnimationsByIndex {
    pub fn new(index_parameter: &str, inputs: Vec<IndexedBlendInput>) -> (r: Self)
        ensures
            r.index_parameter@ == index_parameter@,
            r.inputs == inputs,
    {
        BlendAnimationsByIndex { index_parameter: index_parameter.to_owned(), inputs }
    }
}

/// The weight that `w` stands for under `params`.
pub open spec fn weight_of(w: PoseWeight, params: ParameterContainer) -> u64 {
    match w {
        PoseWeight::Constant(c) => c,
        PoseWeight::Parameter(name) => params.weight_spec(name@),
    }
}

/// The sum of two weights, held within `u64`.
pub open spec fn weight_sum(a: u64, b: u64) -> u64 {
    if a + b > u64::MAX {
        u64::MAX
    } else {
        (a + b) as u64
    }
}

/// The sum of the weights of the first `k` inputs.
pub open spec fn total_weight(sources: Seq<BlendPose>, params: ParameterContainer, k: nat) -> u64
    decreases k,
{
    if k == 0 {
        0
    } else {
        weight_sum(
            total_weight(sources, params, (k - 1) as nat),
            weight_of(sources[k - 1].weight, params),
        )
    }
}

/// The input that `index` selects among `n`: the nearest one in range;
/// none where there is no index or no input.
pub open spec fn selected_input(index: Option<i32>, n: nat) -> Option<int> {
    match index {
        Some(i) => if n == 0 {
            None
        } else if i < 0 {
            Some(0int)
        } else if i >= n {
            Some(n - 1)
        } else {
            Some(i as int)
        },
        None => None,
    }
}

/// Whether every input of `node` names a node of `nodes`.
pub open spec fn inputs_valid(nodes: Pool<PoseNode>, node: PoseNode) -> bool {
    match node {
        PoseNode::PlayAnimation(_) => true,
        PoseNode::BlendAnimations(b) => forall|i: int|
            0 <= i < b.pose_sources@.len() ==> nodes.contains(
                (#[trigger] b.pose_sources@[i]).pose_source,
            ),
        PoseNode::BlendAnimationsByIndex(b) => forall|i: int|
            0 <= i < b.inputs@.len() ==> #[trigger] nodes.contains(b.inputs@[i].pose_source),
    }
}

/// Whether every input of every node of `nodes` names a node of `nodes`.
pub open spec fn graph_valid(nodes: Pool<PoseNode>) -> bool {
    forall|h: Handle| nodes.contains(h) ==> inputs_valid(nodes, #[trigger] nodes.get(h))
}

/// The pose of node `h`, walking at most `depth` nodes down from it.
///
/// A clip leaf gives the sampled pose of its clip. A blend gives, bone by
/// bone, the sum of its inputs' transforms times their weights, divided by
/// the sum of the weights; a bone that an input lacks counts as nothing
/// from that input, and a blend whose weights sum to zero gives the empty
/// pose. A blend by index gives the pose of the selected input. Below
/// `depth` nodes the pose is empty, which only a graph with a cycle
/// reaches when `depth` is the number of slots of the pool.
pub open spec fn node_pose(
    nodes: Pool<PoseNode>,
    h: Handle,
    params: ParameterContainer,
    animations: AnimationContainer,
    depth: nat,
) -> Map<Handle, Transform>
    decreases depth, 0nat,
{
    if depth == 0 || !nodes.contains(h) {
        Map::empty()
    } else {
        match nodes.get(h) {
            PoseNode::PlayAnimation(p) => animations.pose_spec(p.animation),
            PoseNode::BlendAnimations(b) => {
                let total = total_weight(b.pose_sources@, params, b.pose_sources@.len());
                if total == 0 {
                    Map::empty()
                } else {
                    normalized_map(
                        blend_sum(
                            nodes,
                            b.pose_sources@,
                            b.pose_sources@.len(),
                            params,
                            animations,
                            (depth - 1) as nat,
                        ),
                        total,
                    )
                }
            },
            PoseNode::BlendAnimationsByIndex(b) => match selected_input(
                params.index_spec(b.index_parameter@),
                b.inputs@.len(),
            ) {
                Some(i) => node_pose(
                    nodes,
                    b.inputs@[i].pose_source,
                    params,
                    animations,
                    (depth - 1) as nat,
                ),
                None => Map::empty(),
            },
        }
    }
}

/// The weighted sum of the poses of the first `k` inputs.
pub open spec fn blend_sum(
    nodes: Pool<PoseNode>,
    sources: Seq<BlendPose>,
    k: nat,
    params: ParameterContainer,
    animations: AnimationContainer,
    depth: nat,
) -> Map<Handle, TransformSum>
    decreases depth, k + 1,
{
    if k == 0 {
        Map::empty()
    } else {
        add_weighted_map(
            blend_sum(nodes, sources, (k - 1) as nat, params, animations, depth),
            node_pose(nodes, sources[k - 1].pose_source, params, animations, depth),
            weight_of(sources[k - 1].weight, params),
        )
    }
}

/// Whether every input of `node` names a node of `nodes`.
pub fn inputs_are_valid(nodes: &Pool<PoseNode>, node: &PoseNode) -> (r: bool)
    ensures
        r == inputs_valid(*nodes, *node),
{
    match node {
        PoseNode::PlayAnimation(_) => true,
        PoseNode::BlendAnimations(b) => {
            let n: usize = b.pose_sources.len();
            let mut i: usize = 0;
            while i < n
                invariant
                    n == b.pose_sources@.len(),
                    i <= n,
                    *node == PoseNode::BlendAnimations(*b),
                    forall|j: int|
                        0 <= j < i ==> nodes.contains((#[trigger] b.pose_sources@[j]).pose_source),
                decreases n - i,
            {
                if !nodes.is_valid_handle(b.pose_sources[i].pose_source) {
                    assert(!nodes.contains(b.pose_sources@[i as int].pose_source));
                    return false;
                }
                i += 1;
            }
            true
        },
        PoseNode::BlendAnimationsByIndex(b) => {
            let n: usize = b.inputs.len();
            let mut i: usize = 0;
            while i < n
                invariant
                    n == b.inputs@.len(),
                    i <= n,
                    *node == PoseNode::BlendAnimationsByIndex(*b),
                    forall|j: int|
                        0 <= j < i ==> #[trigger] nodes.contains(b.inputs@[j].pose_source),
                decreases n - i,
            {
                if !nodes.is_valid_handle(b.inputs[i].pose_source) {
                    assert(!nodes.contains(b.inputs@[i as int].pose_source));
                    assert(PoseNode::BlendAnimationsByIndex(*b)->BlendAnimationsByIndex_0 == *b);
                    return false;
                }
                i += 1;
            }
            true
        },
    }
}

/// Whether every input of every node of `nodes` names a node of `nodes`.
pub fn graph_is_valid(nodes: &Pool<PoseNode>) -> (r: bool)
    requires
        nodes.wf(),
    ensures
        r == graph_valid(*nodes),
{
    let n: u32 = nodes.capacity();
    let mut i: u32 = 0;
    while i < n
        invariant
            n == nodes.records@.len(),
            i <= n,
            nodes.wf(),
            forall|j: int|
                0 <= j < i && nodes.occupied(j) ==> inputs_valid(
                    *nodes,
                    (#[trigger] nodes.records@[j]).payload->0,
                ),
        decreases n - i,
    {
        let handle = nodes.handle_from_index(i);
        if handle.is_some() {
            if !inputs_are_valid(nodes, nodes.borrow(handle)) {
                return false;
            }
        }
        i += 1;
    }
    proof {
        assert forall|h: Handle| nodes.contains(h) implies inputs_valid(
            *nodes,
            #[trigger] nodes.get(h),
        ) by {
            assert(inputs_valid(*nodes, nodes.records@[h.index as int].payload->0));
        }
    }
    true
}

/// The weight that `w` stands for under `params`.
pub fn resolve_weight(w: &PoseWeight, params: &ParameterContainer) -> (r: u64)
    ensures
        r == weight_of(*w, *params),
{
    match w {
        PoseWeight::Constant(c) => *c,
        PoseWeight::Parameter(name) => params.weight(name.as_str()),
    }
}

/// The pose of node `handle`, walking at most `depth` nodes down from it.
pub fn evaluate_node(
    nodes: &Pool<PoseNode>,
    handle: Handle,
    params: &ParameterContainer,
    animations: &AnimationContainer,
    depth: u32,
) -> (r: Pose)
    requires
        nodes.contains(handle),
        graph_valid(*nodes),
        animations.wf(),
    ensures
        r@ == node_pose(*nodes, handle, *params, *animations, depth as nat),
    decreases depth,
{
    if depth == 0 {
        return BoneMap::new();
    }
    match nodes.borrow(handle) {
        PoseNode::PlayAnimation(p) => {
            match animations.clips.try_borrow(p.animation) {
                Some(pose) => pose.duplicate(),
                None => BoneMap::new(),
            }
        },
        PoseNode::BlendAnimations(b) => {
            let n: usize = b.pose_sources.len();
            let mut sum: PoseSum = BoneMap::new();
            let mut total: u64 = 0;
            let mut k: usize = 0;
            while k < n
                invariant
                    n == b.pose_sources@.len(),
                    k <= n,
                    depth > 0,
                    graph_valid(*nodes),
                    animations.wf(),
                    inputs_valid(*nodes, PoseNode::BlendAnimations(*b)),
                    sum@ == blend_sum(
                        *nodes,
                        b.pose_sources@,
                        k as nat,
                        *params,
                        *animations,
                        (depth - 1) as nat,
                    ),
                    total == total_weight(b.pose_sources@, *params, k as nat),
                decreases n - k,
            {
                let source = &b.pose_sources[k];
                let weight = resolve_weight(&source.weight, params);
                let pose = evaluate_node(nodes, source.pose_source, params, animations, depth - 1);
                sum.add_pose(&pose, weight);
                total = total.saturating_add(weight);
                k += 1;
            }
            if total == 0 {
                BoneMap::new()
            } else {
                sum.normalized(total)
            }
        },
        PoseNode::BlendAnimationsByIndex(b) => {
            let n: usize = b.inputs.len();
            match params.index(b.index_parameter.as_str()) {
                Some(i) => {
                    if n == 0 {
                        BoneMap::new()
                    } else {
                        let at: usize = if i < 0 {
                            0
                        } else if i as usize >= n {
                            n - 1
                        } else {
                            i as usize
                        };
                        evaluate_node(
                            nodes,
                            b.inputs[at].pose_source,
                            params,
                            animations,
                            depth - 1,
                        )
                    }
                },
                None => BoneMap::new(),
            }
        },
    }
}

} // verus!
