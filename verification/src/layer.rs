//! A layer: one state graph with its cursor, mask, weight and events.

use vstd::prelude::*;
use crate::event::{pushed, Event, LimitedEventQueue};
use crate::mask::{masked, LayerMask};
use crate::node::{graph_valid, inputs_valid, node_pose, AnimationContainer, PoseNode};
use crate::parameter::{Parameter, ParameterContainer};
use crate::pool::{Handle, Pool};
use crate::pose::{add_weighted_map, normalized_map, BoneMap, Pose, PoseSum, Transform, TransformSum};
use crate::state::State;
use crate::transition::{advance_spec, Transition};

verus! {

/// Number of events that a new layer keeps.
pub const EVENT_LIMIT: u32 = 2048;

/// A state graph of its own: pools of nodes, states and transitions, the
/// active state or the active transition, a mask, a weight and a queue of
/// events.
#[derive(Clone, Debug, PartialEq, Eq)]
pub struct MachineLayer {
    pub name: String,
    pub nodes: Pool<PoseNode>,
    pub transitions: Pool<Transition>,
    pub states: Pool<State>,
    pub active_state: Handle,
    pub entry_state: Handle,
    pub active_transition: Handle,
    pub weight: u64,
    pub mask: LayerMask,
    pub final_pose: Pose,
    pub events: LimitedEventQueue,
    pub debug: bool,
}

/// Whether transition `t` may start while `active` is the active state: it
/// leaves that state for another one, and its rule parameter is a rule
/// whose value differs from `invert_rule`. An absent parameter, or one of
/// another kind, starts nothing.
pub open spec fn fires(t: Transition, active: Handle, params: ParameterContainer) -> bool {
    &&& t.source == active
    &&& t.dest != active
    &&& match params.value_of(t.rule@) {
        Some(Parameter::Rule(b)) => b != t.invert_rule,
        _ => false,
    }
}

/// The pose between the poses of two states under a transition: the sum of
/// the source's pose times the time left and the destination's pose times
/// the time elapsed, divided by the length.
pub open spec fn transition_pose(
    t: Transition,
    source: Map<Handle, Transform>,
    dest: Map<Handle, Transform>,
) -> Map<Handle, Transform> {
    normalized_map(
        add_weighted_map(
            add_weighted_map(Map::<Handle, TransformSum>::empty(), source, t.source_weight()),
            dest,
            t.dest_weight(),
        ),
        t.blend_divisor(),
    )
}

/// Whether slot `i` holds a transition that may start while `active` is the
/// active state.
pub open spec fn fires_at(
    transitions: Pool<Transition>,
    active: Handle,
    i: int,
    params: ParameterContainer,
) -> bool {
    transitions.occupied(i) && fires(transitions.records@[i].payload->0, active, params)
}

/// Whether slot `i` is the first that holds a transition that may start.
pub open spec fn is_first_firing(
    transitions: Pool<Transition>,
    active: Handle,
    i: int,
    params: ParameterContainer,
) -> bool {
    fires_at(transitions, active, i, params) && forall|j: int|
        0 <= j < i ==> !fires_at(transitions, active, j, params)
}

/// The first transition in slot order that may start while `active` is the
/// active state; none where none may.
pub open spec fn first_firing(
    transitions: Pool<Transition>,
    active: Handle,
    params: ParameterContainer,
) -> Handle {
    if exists|i: int| is_first_firing(transitions, active, i, params) {
        transitions.handle_at(choose|i: int| is_first_firing(transitions, active, i, params))
    } else {
        Handle::none_spec()
    }
}

/// If slot `i` is the first whose transition may start, that transition is
/// the first that may start; if no slot's transition may start, none is.
pub proof fn lemma_first_firing(
    transitions: Pool<Transition>,
    active: Handle,
    i: int,
    params: ParameterContainer,
)
    ensures
        is_first_firing(transitions, active, i, params) ==> first_firing(
            transitions,
            active,
            params,
        ) == transitions.handle_at(i),
        (forall|j: int| !fires_at(transitions, active, j, params)) ==> first_firing(
            transitions,
            active,
            params,
        ).is_none_spec(),
{
    if is_first_firing(transitions, active, i, params) {
        let c = choose|c: int| is_first_firing(transitions, active, c, params);
        assert(is_first_firing(transitions, active, c, params));
        if c < i {
            assert(!fires_at(transitions, active, c, params));
        } else if i < c {
            assert(!fires_at(transitions, active, i, params));
        }
    }
}

/// The first transition of `transitions` in slot order that may start
/// while `active` is the active state; none where none may.
pub fn find_transition(
    transitions: &Pool<Transition>,
    active: Handle,
    params: &ParameterContainer,
) -> (r: Handle)
    requires
        transitions.wf(),
    ensures
        r == first_firing(*transitions, active, *params),
        !r.is_none_spec() ==> transitions.contains(r) && fires(
            transitions.get(r),
            active,
            *params,
        ),
{
    let n: u32 = transitions.capacity();
    let mut i: u32 = 0;
    while i < n
        invariant
            n == transitions.records@.len(),
            i <= n,
            transitions.wf(),
            forall|j: int| 0 <= j < i ==> !fires_at(*transitions, active, j, *params),
        decreases n - i,
    {
        let handle = transitions.handle_from_index(i);
        if handle.is_some() {
            let t = transitions.borrow(handle);
            if t.source() == active && t.dest() != active {
                match params.get(t.rule()) {
                    Some(Parameter::Rule(value)) => {
                        if value != t.is_invert_rule() {
                            proof {
                                assert(is_first_firing(*transitions, active, i as int, *params));
                                lemma_first_firing(*transitions, active, i as int, *params);
                            }
                            return handle;
                        }
                    },
                    _ => {},
                }
            }
        }
        i += 1;
    }
    proof {
        lemma_first_firing(*transitions, active, 0, *params);
    }
    Handle::none()
}

/// The slots of `new` hold the states of `old` under the same handles,
/// the first `upto` of them with freshly evaluated poses.
pub open spec fn states_refreshed(
    old_states: Pool<State>,
    new_states: Pool<State>,
    upto: int,
    nodes: Pool<PoseNode>,
    params: ParameterContainer,
    animations: AnimationContainer,
) -> bool {
    &&& new_states.records@.len() == old_states.records@.len()
    &&& forall|j: int|
        0 <= j < old_states.records@.len() ==> {
            let o = #[trigger] old_states.records@[j];
            let n = new_states.records@[j];
            &&& n.generation == o.generation
            &&& (n.payload is Some) == (o.payload is Some)
            &&& o.payload is Some ==> {
                &&& n.payload->0.name == o.payload->0.name
                &&& n.payload->0.root == o.payload->0.root
                &&& if j < upto {
                    n.payload->0.pose@ == node_pose(
                        nodes,
                        o.payload->0.root,
                        params,
                        animations,
                        nodes.capacity_spec(),
                    )
                } else {
                    n.payload->0.pose == o.payload->0.pose
                }
            }
        }
}

impl MachineLayer {
    /// Every handle held by the layer names what it should: the inputs of
    /// nodes are nodes, the roots of states are nodes, the ends of
    /// transitions are states, and the cursor names a state or a
    /// transition where it names anything.
    pub open spec fn wf(&self) -> bool {
        &&& self.nodes.wf()
        &&& self.states.wf()
        &&& self.transitions.wf()
        &&& graph_valid(self.nodes)
        &&& self.events.wf()
        &&& forall|h: Handle|
            self.states.contains(h) ==> self.nodes.contains((#[trigger] self.states.get(h)).root)
        &&& forall|h: Handle|
            self.transitions.contains(h) ==> {
                let t = #[trigger] self.transitions.get(h);
                t.wf() && self.states.contains(t.source) && self.states.contains(t.dest)
            }
        &&& (self.active_state.is_none_spec() || self.states.contains(self.active_state))
        &&& (self.entry_state.is_none_spec() || self.states.contains(self.entry_state))
        &&& (self.active_transition.is_none_spec() || self.transitions.contains(
            self.active_transition,
        ))
    }

    /// Neither a state nor a transition is active.
    pub open spec fn is_idle(&self) -> bool {
        self.active_state.is_none_spec() && self.active_transition.is_none_spec()
    }

    /// The pose of state `h`, evaluated now.
    pub open spec fn fresh_pose(
        &self,
        h: Handle,
        params: ParameterContainer,
        animations: AnimationContainer,
    ) -> Map<Handle, Transform> {
        node_pose(
            self.nodes,
            self.states.get(h).root,
            params,
            animations,
            self.nodes.capacity_spec(),
        )
    }

    /// The transition that is under way once this frame has looked for one:
    /// the active transition, or else the first in slot order that may
    /// start, or else none.
    pub open spec fn started(&self, params: ParameterContainer) -> Handle {
        if !self.active_transition.is_none_spec() {
            self.active_transition
        } else if self.is_idle() {
            Handle::none_spec()
        } else {
            first_firing(self.transitions, self.active_state, params)
        }
    }

    /// Whether this frame starts a transition.
    pub open spec fn starts(&self, params: ParameterContainer) -> bool {
        self.active_transition.is_none_spec() && !self.started(params).is_none_spec()
    }

    /// Whether the transition under way ends with this frame.
    pub open spec fn completes(&self, params: ParameterContainer, dt: u64) -> bool {
        let t = self.transitions.get(self.started(params));
        !self.started(params).is_none_spec() && advance_spec(
            t.elapsed_time,
            t.transition_time,
            dt,
        ) >= t.transition_time
    }

    /// The active state after this frame.
    pub open spec fn next_active_state(&self, params: ParameterContainer, dt: u64) -> Handle {
        if self.completes(params, dt) {
            self.transitions.get(self.started(params)).dest
        } else if self.starts(params) {
            Handle::none_spec()
        } else {
            self.active_state
        }
    }

    /// The active transition after this frame.
    pub open spec fn next_active_transition(&self, params: ParameterContainer, dt: u64) -> Handle {
        if self.completes(params, dt) {
            Handle::none_spec()
        } else {
            self.started(params)
        }
    }

    /// The transition under way as this frame leaves it: reset where it
    /// ended, advanced by `dt` where it did not.
    pub open spec fn next_transition(&self, params: ParameterContainer, dt: u64) -> Transition {
        let t = self.transitions.get(self.started(params));
        if self.completes(params, dt) {
            t.with_elapsed(0)
        } else {
            t.with_elapsed(advance_spec(t.elapsed_time, t.transition_time, dt))
        }
    }

    /// The queue of events after this frame.
    pub open spec fn next_events(&self, params: ParameterContainer, dt: u64) -> Seq<Event> {
        let limit = self.events.limit as nat;
        let h = self.started(params);
        let t = self.transitions.get(h);
        let q0 = self.events@;
        let q1 = if self.starts(params) {
            pushed(
                pushed(
                    pushed(q0, limit, Event::StateLeave(self.active_state)),
                    limit,
                    Event::StateEnter(t.source),
                ),
                limit,
                Event::ActiveTransitionChanged(h),
            )
        } else {
            q0
        };
        if self.completes(params, dt) {
            pushed(
                pushed(q1, limit, Event::ActiveTransitionChanged(Handle::none_spec())),
                limit,
                Event::ActiveStateChanged(t.dest),
            )
        } else {
            q1
        }
    }

    /// The pose of this frame before the mask: empty for an idle layer; the
    /// pose of the active state where no transition is under way or the
    /// transition ends with this frame; else the pose between the
    /// transition's two states at the time elapsed before this frame.
    pub open spec fn unmasked_pose(
        &self,
        params: ParameterContainer,
        animations: AnimationContainer,
        dt: u64,
    ) -> Map<Handle, Transform> {
        let h = self.started(params);
        let t = self.transitions.get(h);
        if self.is_idle() {
            Map::empty()
        } else if h.is_none_spec() {
            self.fresh_pose(self.active_state, params, animations)
        } else if self.completes(params, dt) {
            self.fresh_pose(t.dest, params, animations)
        } else {
            transition_pose(
                t,
                self.fresh_pose(t.source, params, animations),
                self.fresh_pose(t.dest, params, animations),
            )
        }
    }

    /// The pose of this frame: the unmasked pose without the bones that
    /// the mask excludes.
    pub open spec fn next_pose(
        &self,
        params: ParameterContainer,
        animations: AnimationContainer,
        dt: u64,
    ) -> Map<Handle, Transform> {
        masked(self.unmasked_pose(params, animations, dt), self.mask@)
    }

    /// Whether `next` is this layer as a save and a load leave it: names,
    /// nodes, states, transitions, cursor, entry state, weight and mask are
    /// the same; cached poses and events are gone, every transition is
    /// back at zero and the debug flag is off.
    pub open spec fn cleared(&self, next: MachineLayer) -> bool {
        &&& next.wf()
        &&& next.name == self.name
        &&& next.nodes == self.nodes
        &&& next.active_state == self.active_state
        &&& next.entry_state == self.entry_state
        &&& next.active_transition == self.active_transition
        &&& next.weight == self.weight
        &&& next.mask == self.mask
        &&& !next.debug
        &&& next.final_pose@ == Map::<Handle, Transform>::empty()
        &&& next.events@ == Seq::<Event>::empty()
        &&& next.events.limit == self.events.limit
        &&& transitions_reset(
            self.transitions,
            next.transitions,
            self.transitions.records@.len() as int,
        )
        &&& states_cleared(self.states, next.states, self.states.records@.len() as int)
    }

    /// Whether `next` is this layer one frame of `dt` ticks later.
    pub open spec fn stepped(
        &self,
        next: MachineLayer,
        params: ParameterContainer,
        animations: AnimationContainer,
        dt: u64,
    ) -> bool {
        let h = self.started(params);
        &&& next.wf()
        &&& next.name == self.name
        &&& next.nodes == self.nodes
        &&& next.entry_state == self.entry_state
        &&& next.weight == self.weight
        &&& next.mask == self.mask
        &&& next.debug == self.debug
        &&& next.events.limit == self.events.limit
        &&& next.active_state == self.next_active_state(params, dt)
        &&& next.active_transition == self.next_active_transition(params, dt)
        &&& next.events@ == self.next_events(params, dt)
        &&& next.final_pose@ == self.next_pose(params, animations, dt)
        &&& if self.is_idle() {
            next.states == self.states
        } else {
            states_refreshed(
                self.states,
                next.states,
                self.states.records@.len() as int,
                self.nodes,
                params,
                animations,
            )
        }
        &&& if h.is_none_spec() {
            next.transitions == self.transitions
        } else {
            next.transitions.records@ == self.transitions.records@.update(
                h.index as int,
                crate::pool::PoolRecord {
                    generation: h.generation,
                    payload: Some(self.next_transition(params, dt)),
                },
            )
        }
    }
}


/// Evaluates the pose of every state of `states` anew.
pub fn refresh_states(
    states: &mut Pool<State>,
    nodes: &Pool<PoseNode>,
    params: &ParameterContainer,
    animations: &AnimationContainer,
)
    requires
        old(states).wf(),
        nodes.wf(),
        graph_valid(*nodes),
        animations.wf(),
        forall|h: Handle|
            old(states).contains(h) ==> nodes.contains((#[trigger] old(states).get(h)).root),
    ensures
        final(states).wf(),
        states_refreshed(
            *old(states),
            *final(states),
            old(states).records@.len() as int,
            *nodes,
            *params,
            *animations,
        ),
{
    let n: u32 = states.capacity();
    let mut i: u32 = 0;
    while i < n
        invariant
            n == old(states).records@.len(),
            i <= n,
            states.wf(),
            nodes.wf(),
            graph_valid(*nodes),
            animations.wf(),
            old(states).wf(),
            forall|h: Handle|
                old(states).contains(h) ==> nodes.contains((#[trigger] old(states).get(h)).root),
            states_refreshed(*old(states), *states, i as int, *nodes, *params, *animations),
        decreases n - i,
    {
        let ghost before = *states;
        let handle = states.handle_from_index(i);
        if handle.is_some() {
            proof {
                let o = old(states).records@[i as int];
                assert(o.payload is Some);
                let oh = old(states).handle_at(i as int);
                assert(old(states).contains(oh));
                assert(nodes.contains(old(states).get(oh).root));
            }
            let state = states.borrow_mut(handle);
            state.update(nodes, params, animations);
        }
        proof {
            assert forall|j: int| 0 <= j < old(states).records@.len() implies {
                let o = #[trigger] old(states).records@[j];
                let n = states.records@[j];
                &&& n.generation == o.generation
                &&& (n.payload is Some) == (o.payload is Some)
                &&& o.payload is Some ==> {
                    &&& n.payload->0.name == o.payload->0.name
                    &&& n.payload->0.root == o.payload->0.root
                        &&& if j < i + 1 {
                        n.payload->0.pose@ == node_pose(
                            *nodes,
                            o.payload->0.root,
                            *params,
                            *animations,
                            nodes.capacity_spec(),
                        )
                    } else {
                        n.payload->0.pose == o.payload->0.pose
                    }
                }
            } by {
                let o = old(states).records@[j];
                let b = before.records@[j];
                assert(b.generation == o.generation);
                if o.payload is Some {
                    let oh = old(states).handle_at(j);
                    assert(old(states).contains(oh));
                }
            }
            assert forall|j: int| 0 <= j < states.records@.len() implies (
            #[trigger] states.records@[j]).generation >= 1 by {
                assert(old(states).records@[j].generation >= 1);
            }
        }
        i += 1;
    }
}

impl MachineLayer {
    /// A layer without nodes, states or transitions, with weight one, an
    /// empty mask and room for `EVENT_LIMIT` events.
    pub fn new() -> (r: Self)
        ensures
            r.wf(),
            r.is_idle(),
            r.entry_state.is_none_spec(),
            r.weight == crate::pose::WEIGHT_ONE,
            r.mask@ == Set::<u64>::empty(),
            r.events@ == Seq::<Event>::empty(),
            r.events.limit == EVENT_LIMIT,
            r.final_pose@ == Map::<Handle, Transform>::empty(),
            r.name@ == Seq::<char>::empty(),
            !r.debug,
            r.nodes.capacity_spec() == 0,
            r.states.capacity_spec() == 0,
            r.transitions.capacity_spec() == 0,
            forall|h: Handle| !r.nodes.contains(h),
            forall|h: Handle| !r.states.contains(h),
            forall|h: Handle| !r.transitions.contains(h),
    {
        MachineLayer {
            name: String::new(),
            nodes: Pool::new(),
            transitions: Pool::new(),
            states: Pool::new(),
            active_state: Handle::none(),
            entry_state: Handle::none(),
            active_transition: Handle::none(),
            weight: crate::pose::WEIGHT_ONE,
            mask: LayerMask::new(),
            final_pose: BoneMap::new(),
            events: LimitedEventQueue::new(EVENT_LIMIT),
            debug: false,
        }
    }

    /// Whether every state holds a well-formed pose and has a node of this
    /// layer as its root.
    fn states_are_valid(&self) -> (r: bool)
        requires
            self.states.wf(),
        ensures
            r == forall|h: Handle|
                self.states.contains(h) ==> self.nodes.contains((#[trigger] self.states.get(h)).root),
    {
        let n: u32 = self.states.capacity();
        let mut i: u32 = 0;
        while i < n
            invariant
                n == self.states.records@.len(),
                i <= n,
                self.states.wf(),
                forall|j: int|
                    0 <= j < i && self.states.occupied(j) ==> {
                        let s = (#[trigger] self.states.records@[j]).payload->0;
                        self.nodes.contains(s.root)
                    },
            decreases n - i,
        {
            let handle = self.states.handle_from_index(i);
            if handle.is_some() {
                let s = self.states.borrow(handle);
                if !self.nodes.is_valid_handle(s.root) {
                    return false;
                }
            }
            i += 1;
        }
        proof {
            assert forall|h: Handle| self.states.contains(h) implies self.nodes.contains((#[trigger] self.states.get(h)).root) by {
                let s = self.states.records@[h.index as int].payload->0;
            }
        }
        true
    }

    /// Whether every transition is well formed and runs between states of
    /// this layer.
    fn transitions_are_valid(&self) -> (r: bool)
        requires
            self.transitions.wf(),
        ensures
            r == forall|h: Handle|
                self.transitions.contains(h) ==> {
                    let t = #[trigger] self.transitions.get(h);
                    t.wf() && self.states.contains(t.source) && self.states.contains(t.dest)
                },
    {
        let n: u32 = self.transitions.capacity();
        let mut i: u32 = 0;
        while i < n
            invariant
                n == self.transitions.records@.len(),
                i <= n,
                self.transitions.wf(),
                forall|j: int|
                    0 <= j < i && self.transitions.occupied(j) ==> {
                        let t = (#[trigger] self.transitions.records@[j]).payload->0;
                        t.wf() && self.states.contains(t.source) && self.states.contains(t.dest)
                    },
            decreases n - i,
        {
            let handle = self.transitions.handle_from_index(i);
            if handle.is_some() {
                let t = self.transitions.borrow(handle);
                if t.elapsed_time() > t.transition_time() || !self.states.is_valid_handle(
                    t.source(),
                ) || !self.states.is_valid_handle(t.dest()) {
                    return false;
                }
            }
            i += 1;
        }
        proof {
            assert forall|h: Handle| self.transitions.contains(h) implies ({
                let t = #[trigger] self.transitions.get(h);
                t.wf() && self.states.contains(t.source) && self.states.contains(t.dest)
            }) by {
                let t = self.transitions.records@[h.index as int].payload->0;
                assert(t.wf());
            }
        }
        true
    }

    /// Whether the layer is well formed: what `evaluate_pose` asks of it.
    pub fn is_wf(&self) -> (r: bool)
        ensures
            r == self.wf(),
    {
        if !self.nodes.is_wf() || !self.states.is_wf() || !self.transitions.is_wf() {
            return false;
        }
        if !crate::node::graph_is_valid(&self.nodes) {
            return false;
        }
        if self.events.len() > self.events.limit() as usize {
            return false;
        }
        if !self.states_are_valid() || !self.transitions_are_valid() {
            return false;
        }
        (self.active_state.is_none() || self.states.is_valid_handle(self.active_state)) && (
        self.entry_state.is_none() || self.states.is_valid_handle(self.entry_state)) && (
        self.active_transition.is_none() || self.transitions.is_valid_handle(
            self.active_transition,
        ))
    }

    pub fn set_name(&mut self, name: &str)
        ensures
            final(self).name@ == name@,
            *final(self) == (MachineLayer { name: final(self).name, ..*old(self) }),
    {
        self.name = name.to_owned();
    }

    pub fn name(&self) -> (r: &str)
        ensures
            r@ == self.name@,
    {
        self.name.as_str()
    }

    /// Adds a node whose inputs are nodes of this layer.
    pub fn add_node(&mut self, node: PoseNode) -> (r: Handle)
        requires
            old(self).wf(),
            old(self).nodes.has_room(),
            inputs_valid(old(self).nodes, node),
        ensures
            final(self).wf(),
            *final(self) == (MachineLayer { nodes: final(self).nodes, ..*old(self) }),
            old(self).nodes.spawned(final(self).nodes, node, r),
    {
        let r = self.nodes.spawn(node);
        proof {
            assert forall|h: Handle| self.nodes.contains(h) implies inputs_valid(
                self.nodes,
                #[trigger] self.nodes.get(h),
            ) by {
                if h != r {
                    assert(old(self).nodes.contains(h));
                    assert(inputs_valid(old(self).nodes, old(self).nodes.get(h)));
                }
                lemma_inputs_stay_valid(old(self).nodes, self.nodes, self.nodes.get(h));
            }
            assert forall|h: Handle| self.states.contains(h) implies self.nodes.contains(
                (#[trigger] self.states.get(h)).root,
            ) by {
                assert(old(self).nodes.contains(old(self).states.get(h).root));
            }
        }
        r
    }

    /// Makes `entry_state`, a state of this layer or none, the entry state
    /// and the active state.
    pub fn set_entry_state(&mut self, entry_state: Handle)
        requires
            old(self).wf(),
            entry_state.is_none_spec() || old(self).states.contains(entry_state),
        ensures
            final(self).wf(),
            *final(self) == (MachineLayer {
                active_state: entry_state,
                entry_state: entry_state,
                ..*old(self)
            }),
    {
        self.active_state = entry_state;
        self.entry_state = entry_state;
    }

    pub fn entry_state(&self) -> (r: Handle)
        ensures
            r == self.entry_state,
    {
        self.entry_state
    }

    /// Sets the flag that asks for a report of every change; the queue of
    /// events is that report.
    pub fn debug(&mut self, state: bool)
        ensures
            *final(self) == (MachineLayer { debug: state, ..*old(self) }),
    {
        self.debug = state;
    }

    /// Adds a state whose root is a node of this layer. The first state
    /// added becomes the active state.
    pub fn add_state(&mut self, state: State) -> (r: Handle)
        requires
            old(self).wf(),
            old(self).states.has_room(),
            old(self).nodes.contains(state.root),
        ensures
            final(self).wf(),
            *final(self) == (MachineLayer {
                states: final(self).states,
                active_state: final(self).active_state,
                ..*old(self)
            }),
            final(self).active_state == if old(self).active_state.is_none_spec() {
                r
            } else {
                old(self).active_state
            },
            old(self).states.spawned(final(self).states, state, r),
    {
        let r = self.states.spawn(state);
        if self.active_state.is_none() {
            self.active_state = r;
        }
        proof {
            assert forall|h: Handle| self.states.contains(h) implies self.nodes.contains((#[trigger] self.states.get(h)).root) by {
                if h != r {
                }
            }
            assert forall|h: Handle| self.transitions.contains(h) implies ({
                let t = #[trigger] self.transitions.get(h);
                t.wf() && self.states.contains(t.source) && self.states.contains(t.dest)
            }) by {
                let o = old(self).transitions.get(h);
                assert(old(self).states.contains(o.source));
                assert(old(self).states.contains(o.dest));
            }
        }
        r
    }

    /// Adds a transition between two states of this layer.
    pub fn add_transition(&mut self, transition: Transition) -> (r: Handle)
        requires
            old(self).wf(),
            old(self).transitions.has_room(),
            transition.wf(),
            old(self).states.contains(transition.source),
            old(self).states.contains(transition.dest),
        ensures
            final(self).wf(),
            *final(self) == (MachineLayer { transitions: final(self).transitions, ..*old(self) }),
            old(self).transitions.spawned(final(self).transitions, transition, r),
    {
        let r = self.transitions.spawn(transition);
        proof {
            assert forall|h: Handle| self.transitions.contains(h) implies ({
                let t = #[trigger] self.transitions.get(h);
                t.wf() && self.states.contains(t.source) && self.states.contains(t.dest)
            }) by {
                if h != r {
                    let o = old(self).transitions.get(h);
                    assert(o.wf());
                }
            }
        }
        r
    }

    /// The state that `state` names, which must be a state of this layer.
    pub fn get_state(&self, state: Handle) -> (r: &State)
        requires
            self.states.contains(state),
        ensures
            *r == self.states.get(state),
    {
        self.states.borrow(state)
    }

    /// The transition that `transition` names, which must be a transition
    /// of this layer.
    pub fn get_transition(&self, transition: Handle) -> (r: &Transition)
        requires
            self.transitions.contains(transition),
        ensures
            *r == self.transitions.get(transition),
    {
        self.transitions.borrow(transition)
    }

    /// Takes the oldest event out of the queue.
    pub fn pop_event(&mut self) -> (r: Option<Event>)
        ensures
            old(self).wf() ==> final(self).wf(),
            *final(self) == (MachineLayer { events: final(self).events, ..*old(self) }),
            final(self).events.limit == old(self).events.limit,
            old(self).events@.len() == 0 ==> r is None && final(self).events@ == old(self).events@,
            old(self).events@.len() > 0 ==> r == Some(old(self).events@[0]) && final(self).events@
                == old(self).events@.skip(1),
    {
        self.events.pop()
    }

    /// Sets the elapsed time of every transition back to zero and makes the
    /// entry state the active state.
    pub fn reset(&mut self)
        requires
            old(self).transitions.wf(),
        ensures
            old(self).wf() ==> final(self).wf(),
            *final(self) == (MachineLayer {
                transitions: final(self).transitions,
                active_state: old(self).entry_state,
                ..*old(self)
            }),
            transitions_reset(
                old(self).transitions,
                final(self).transitions,
                old(self).transitions.records@.len() as int,
            ),
    {
        reset_transitions(&mut self.transitions);
        self.active_state = self.entry_state;
        proof {
            if old(self).wf() {
                assert forall|h: Handle| self.transitions.contains(h) implies ({
                    let t = #[trigger] self.transitions.get(h);
                    t.wf() && self.states.contains(t.source) && self.states.contains(t.dest)
                }) by {
                    let o = old(self).transitions.records@[h.index as int];
                    assert(old(self).transitions.contains(h));
                    assert(old(self).transitions.get(h).wf());
                }
            }
        }
    }

    /// Puts the layer into the condition in which a saved layer is loaded:
    /// names, nodes, states, transitions, cursor, entry state, weight and
    /// mask stay; the cached poses and the queue of events are emptied,
    /// every transition is back at zero and the debug flag is off.
    pub fn clear_transients(&mut self)
        requires
            old(self).wf(),
        ensures
            old(self).cleared(*final(self)),
    {
        reset_transitions(&mut self.transitions);
        clear_states(&mut self.states);
        self.final_pose = BoneMap::new();
        self.events = LimitedEventQueue::new(self.events.limit());
        self.debug = false;
        proof {
            assert forall|h: Handle| self.states.contains(h) == old(self).states.contains(h) by {
                if 0 <= h.index < old(self).states.records@.len() {
                    let o = old(self).states.records@[h.index as int];
                }
            }
            assert forall|h: Handle| self.states.contains(h) implies self.nodes.contains((#[trigger] self.states.get(h)).root) by {
                let o = old(self).states.records@[h.index as int];
                assert(old(self).states.contains(h));
                assert(old(self).nodes.contains(old(self).states.get(h).root));
            }
            assert forall|h: Handle| self.transitions.contains(h) implies ({
                let t = #[trigger] self.transitions.get(h);
                t.wf() && self.states.contains(t.source) && self.states.contains(t.dest)
            }) by {
                let o = old(self).transitions.records@[h.index as int];
                assert(old(self).transitions.contains(h));
                let t = old(self).transitions.get(h);
                assert(t.wf());
                assert(old(self).states.contains(t.source));
                assert(old(self).states.contains(t.dest));
            }
        }
    }

    /// The node that `handle` names, which must be a node of this layer.
    pub fn node(&self, handle: Handle) -> (r: &PoseNode)
        requires
            self.nodes.contains(handle),
        ensures
            *r == self.nodes.get(handle),
    {
        self.nodes.borrow(handle)
    }

    /// The node that `handle` names, for changing it in place; it must be
    /// a node of this layer.
    pub fn node_mut(&mut self, handle: Handle) -> (r: &mut PoseNode)
        requires
            old(self).nodes.contains(handle),
        ensures
            *r == old(self).nodes.get(handle),
            final(self).nodes.records@ == old(self).nodes.records@.update(
                handle.index as int,
                crate::pool::PoolRecord { generation: handle.generation, payload: Some(*final(r)) },
            ),
            *final(self) == (MachineLayer { nodes: final(self).nodes, ..*old(self) }),
    {
        self.nodes.borrow_mut(handle)
    }

    /// The pool of nodes, for changing it in place.
    pub fn nodes_mut(&mut self) -> (r: &mut Pool<PoseNode>)
        ensures
            *r == old(self).nodes,
            *final(self) == (MachineLayer { nodes: *final(r), ..*old(self) }),
    {
        &mut self.nodes
    }

    pub fn nodes(&self) -> (r: &Pool<PoseNode>)
        ensures
            *r == self.nodes,
    {
        &self.nodes
    }

    pub fn active_state(&self) -> (r: Handle)
        ensures
            r == self.active_state,
    {
        self.active_state
    }

    pub fn active_transition(&self) -> (r: Handle)
        ensures
            r == self.active_transition,
    {
        self.active_transition
    }

    /// The transition that `handle` names, which must be a transition of
    /// this layer.
    pub fn transition(&self, handle: Handle) -> (r: &Transition)
        requires
            self.transitions.contains(handle),
        ensures
            *r == self.transitions.get(handle),
    {
        self.transitions.borrow(handle)
    }

    /// The transition that `handle` names, for changing it in place; it
    /// must be a transition of this layer.
    pub fn transition_mut(&mut self, handle: Handle) -> (r: &mut Transition)
        requires
            old(self).transitions.contains(handle),
        ensures
            *r == old(self).transitions.get(handle),
            final(self).transitions.records@ == old(self).transitions.records@.update(
                handle.index as int,
                crate::pool::PoolRecord { generation: handle.generation, payload: Some(*final(r)) },
            ),
            *final(self) == (MachineLayer { transitions: final(self).transitions, ..*old(self) }),
    {
        self.transitions.borrow_mut(handle)
    }

    /// The pool of transitions, for changing it in place.
    pub fn transitions_mut(&mut self) -> (r: &mut Pool<Transition>)
        ensures
            *r == old(self).transitions,
            *final(self) == (MachineLayer { transitions: *final(r), ..*old(self) }),
    {
        &mut self.transitions
    }

    pub fn transitions(&self) -> (r: &Pool<Transition>)
        ensures
            *r == self.transitions,
    {
        &self.transitions
    }

    /// The state that `handle` names, which must be a state of this layer.
    pub fn state(&self, handle: Handle) -> (r: &State)
        requires
            self.states.contains(handle),
        ensures
            *r == self.states.get(handle),
    {
        self.states.borrow(handle)
    }

    /// The state that `handle` names, for changing it in place; it must
    /// be a state of this layer.
    pub fn state_mut(&mut self, handle: Handle) -> (r: &mut State)
        requires
            old(self).states.contains(handle),
        ensures
            *r == old(self).states.get(handle),
            final(self).states.records@ == old(self).states.records@.update(
                handle.index as int,
                crate::pool::PoolRecord { generation: handle.generation, payload: Some(*final(r)) },
            ),
            *final(self) == (MachineLayer { states: final(self).states, ..*old(self) }),
    {
        self.states.borrow_mut(handle)
    }

    /// The pool of states, for changing it in place.
    pub fn states_mut(&mut self) -> (r: &mut Pool<State>)
        ensures
            *r == old(self).states,
            *final(self) == (MachineLayer { states: *final(r), ..*old(self) }),
    {
        &mut self.states
    }

    pub fn states(&self) -> (r: &Pool<State>)
        ensures
            *r == self.states,
    {
        &self.states
    }

    pub fn set_weight(&mut self, weight: u64)
        ensures
            *final(self) == (MachineLayer { weight: weight, ..*old(self) }),
    {
        self.weight = weight;
    }

    pub fn weight(&self) -> (r: u64)
        ensures
            r == self.weight,
    {
        self.weight
    }

    /// Puts `mask` in place of the layer's mask and hands the old one back.
    pub fn set_mask(&mut self, mask: LayerMask) -> (r: LayerMask)
        ensures
            r == old(self).mask,
            *final(self) == (MachineLayer { mask: mask, ..*old(self) }),
    {
        let mut incoming = mask;
        core::mem::swap(&mut self.mask, &mut incoming);
        incoming
    }

    pub fn mask(&self) -> (r: &LayerMask)
        ensures
            *r == self.mask,
    {
        &self.mask
    }

    /// The pose that the last frame computed.
    pub fn pose(&self) -> (r: &Pose)
        ensures
            *r == self.final_pose,
    {
        &self.final_pose
    }

    /// Advances the layer by one frame of `dt` ticks and computes its pose.
    pub fn evaluate_pose(
        &mut self,
        animations: &AnimationContainer,
        parameters: &ParameterContainer,
        dt: u64,
    ) -> (r: &Pose)
        requires
            old(self).wf(),
            animations.wf(),
        ensures
            old(self).stepped(*final(self), *parameters, *animations, dt),
            *r == final(self).final_pose,
    {
        if self.active_state.is_none() && self.active_transition.is_none() {
            self.final_pose = BoneMap::new();
            assert(self.final_pose@ =~= old(self).next_pose(*parameters, *animations, dt));
            return &self.final_pose;
        }
        refresh_states(&mut self.states, &self.nodes, parameters, animations);
        proof {
            lemma_refreshed_contains(
                old(self).states,
                self.states,
                self.nodes,
                *parameters,
                *animations,
            );
        }
        if self.active_transition.is_none() {
            let found = find_transition(&self.transitions, self.active_state, parameters);
            if found.is_some() {
                let source = self.transitions.borrow(found).source();
                self.events.push(Event::StateLeave(self.active_state));
                self.events.push(Event::StateEnter(source));
                self.active_state = Handle::none();
                self.active_transition = found;
                self.events.push(Event::ActiveTransitionChanged(found));
            }
        }
        assert(self.active_transition == old(self).started(*parameters));
        if self.active_transition.is_some() {
            let handle = self.active_transition;
            let t = self.transitions.borrow(handle);
            let source = t.source();
            let dest = t.dest();
            let mut sum: PoseSum = BoneMap::new();
            sum.add_pose(self.states.borrow(source).pose(), t.source_weight_value());
            sum.add_pose(self.states.borrow(dest).pose(), t.dest_weight_value());
            let blended = sum.normalized(t.blend_divisor_value());
            let t = self.transitions.borrow_mut(handle);
            t.update(dt);
            let done = t.is_done();
            if done {
                t.reset();
            }
            if done {
                self.active_transition = Handle::none();
                self.events.push(Event::ActiveTransitionChanged(Handle::none()));
                self.active_state = dest;
                self.events.push(Event::ActiveStateChanged(dest));
                self.final_pose = self.mask.apply(self.states.borrow(dest).pose());
            } else {
                self.final_pose = self.mask.apply(&blended);
            }
        } else {
            self.final_pose = self.mask.apply(self.states.borrow(self.active_state).pose());
        }
        proof {
            assert forall|h: Handle| self.transitions.contains(h) implies ({
                let t = #[trigger] self.transitions.get(h);
                t.wf() && self.states.contains(t.source) && self.states.contains(t.dest)
            }) by {
                assert(old(self).transitions.contains(h));
                let o = old(self).transitions.get(h);
                assert(old(self).states.contains(o.source));
                assert(old(self).states.contains(o.dest));
                assert(self.states.contains(o.source));
                assert(self.states.contains(o.dest));
            }
        }
        &self.final_pose
    }
}

/// The slots of `new` hold the transitions of `old` under the same handles,
/// the first `upto` of them with no time elapsed.
pub open spec fn transitions_reset(
    old_transitions: Pool<Transition>,
    new_transitions: Pool<Transition>,
    upto: int,
) -> bool {
    &&& new_transitions.records@.len() == old_transitions.records@.len()
    &&& forall|j: int|
        0 <= j < old_transitions.records@.len() ==> {
            let o = #[trigger] old_transitions.records@[j];
            let n = new_transitions.records@[j];
            &&& n.generation == o.generation
            &&& if j < upto && o.payload is Some {
                n.payload == Some(o.payload->0.with_elapsed(0))
            } else {
                n.payload == o.payload
            }
        }
}

/// The slots of `new` hold the states of `old` under the same handles, the
/// first `upto` of them with an empty pose.
pub open spec fn states_cleared(old_states: Pool<State>, new_states: Pool<State>, upto: int) -> bool {
    &&& new_states.records@.len() == old_states.records@.len()
    &&& forall|j: int|
        0 <= j < old_states.records@.len() ==> {
            let o = #[trigger] old_states.records@[j];
            let n = new_states.records@[j];
            &&& n.generation == o.generation
            &&& (n.payload is Some) == (o.payload is Some)
            &&& o.payload is Some ==> {
                &&& n.payload->0.name == o.payload->0.name
                &&& n.payload->0.root == o.payload->0.root
                &&& if j < upto {
                    n.payload->0.pose@ == Map::<Handle, Transform>::empty()
                } else {
                    n.payload->0.pose == o.payload->0.pose
                }
            }
        }
}

/// Sets the elapsed time of every transition of `transitions` back to zero.
pub fn reset_transitions(transitions: &mut Pool<Transition>)
    requires
        old(transitions).wf(),
    ensures
        final(transitions).wf(),
        transitions_reset(
            *old(transitions),
            *final(transitions),
            old(transitions).records@.len() as int,
        ),
{
    let n: u32 = transitions.capacity();
    let mut i: u32 = 0;
    while i < n
        invariant
            n == old(transitions).records@.len(),
            i <= n,
            transitions.wf(),
            transitions_reset(*old(transitions), *transitions, i as int),
        decreases n - i,
    {
        let ghost before = *transitions;
        let handle = transitions.handle_from_index(i);
        if handle.is_some() {
            let t = transitions.borrow_mut(handle);
            t.reset();
        }
        proof {
            assert forall|j: int| 0 <= j < transitions.records@.len() implies (
            #[trigger] transitions.records@[j]).generation >= 1 by {
                assert(before.records@[j].generation >= 1);
            }
        }
        i += 1;
    }
}

/// Empties the cached pose of every state of `states`.
pub fn clear_states(states: &mut Pool<State>)
    requires
        old(states).wf(),
    ensures
        final(states).wf(),
        states_cleared(*old(states), *final(states), old(states).records@.len() as int),
{
    let n: u32 = states.capacity();
    let mut i: u32 = 0;
    while i < n
        invariant
            n == old(states).records@.len(),
            i <= n,
            states.wf(),
            states_cleared(*old(states), *states, i as int),
        decreases n - i,
    {
        let ghost before = *states;
        let handle = states.handle_from_index(i);
        if handle.is_some() {
            let state = states.borrow_mut(handle);
            state.pose = BoneMap::new();
        }
        proof {
            assert forall|j: int| 0 <= j < states.records@.len() implies (
            #[trigger] states.records@[j]).generation >= 1 by {
                assert(before.records@[j].generation >= 1);
            }
        }
        i += 1;
    }
}

/// Inputs that name nodes of a pool name nodes of a pool that has kept
/// those nodes.
pub proof fn lemma_inputs_stay_valid(before: Pool<PoseNode>, after: Pool<PoseNode>, node: PoseNode)
    requires
        inputs_valid(before, node),
        forall|h: Handle| before.contains(h) ==> after.contains(h),
    ensures
        inputs_valid(after, node),
{
    match node {
        PoseNode::PlayAnimation(_) => {},
        PoseNode::BlendAnimations(b) => {
            assert forall|i: int| 0 <= i < b.pose_sources@.len() implies after.contains(
                (#[trigger] b.pose_sources@[i]).pose_source,
            ) by {
                assert(before.contains(b.pose_sources@[i].pose_source));
            }
        },
        PoseNode::BlendAnimationsByIndex(b) => {
            assert forall|i: int| 0 <= i < b.inputs@.len() implies #[trigger] after.contains(
                b.inputs@[i].pose_source,
            ) by {
                assert(before.contains(b.inputs@[i].pose_source));
            }
        },
    }
}

/// Refreshed states keep their handles.
pub proof fn lemma_refreshed_contains(
    old_states: Pool<State>,
    new_states: Pool<State>,
    nodes: Pool<PoseNode>,
    params: ParameterContainer,
    animations: AnimationContainer,
)
    requires
        states_refreshed(
            old_states,
            new_states,
            old_states.records@.len() as int,
            nodes,
            params,
            animations,
        ),
    ensures
        forall|h: Handle| new_states.contains(h) == old_states.contains(h),
        forall|h: Handle| #[trigger]
            new_states.contains(h) ==> {
                &&& new_states.get(h).name == old_states.get(h).name
                &&& new_states.get(h).root == old_states.get(h).root
                &&& new_states.get(h).pose@ == node_pose(
                    nodes,
                    old_states.get(h).root,
                    params,
                    animations,
                    nodes.capacity_spec(),
                )
            },
{
    assert forall|h: Handle| new_states.contains(h) == old_states.contains(h) by {
        if 0 <= h.index < old_states.records@.len() {
            let o = old_states.records@[h.index as int];
        }
    }
    assert forall|h: Handle| #[trigger] new_states.contains(h) implies {
        &&& new_states.get(h).name == old_states.get(h).name
        &&& new_states.get(h).root == old_states.get(h).root
        &&& new_states.get(h).pose@ == node_pose(
            nodes,
            old_states.get(h).root,
            params,
            animations,
            nodes.capacity_spec(),
        )
    } by {
        let o = old_states.records@[h.index as int];
    }
}

} // verus!
