//! What holds of the machine for all inputs.

use vstd::prelude::*;
use crate::layer::{
    fires, fires_at, is_first_firing, lemma_first_firing, transition_pose, MachineLayer,
};
use crate::event::{pushed, Event};
use crate::mask::masked;
use crate::node::{
    blend_sum, graph_valid, inputs_valid, node_pose, selected_input, total_weight, weight_of,
    AnimationContainer, BlendAnimations, BlendPose, PoseNode,
};
use crate::parameter::{Parameter, ParameterContainer};
use crate::pool::{Handle, Pool};
use crate::pose::{
    accumulate_spec, add_weighted_map, normalize_spec, normalized_map, Transform, TransformSum,
    WEIGHT_ONE,
};
use crate::transition::{advance_spec, advance_steps, progress_spec, Transition};

verus! {

/// A layer without transitions whose active state is set shows the pose of
/// that state, less the masked bones, and stays as it is: the next frame
/// starts from the same cursor, the same states and the same graph.
pub proof fn law_layer_without_transitions(
    layer: MachineLayer,
    next: MachineLayer,
    params: ParameterContainer,
    animations: AnimationContainer,
    dt: u64,
)
    requires
        layer.wf(),
        !layer.active_state.is_none_spec(),
        layer.active_transition.is_none_spec(),
        forall|h: Handle| !layer.transitions.contains(h),
        layer.stepped(next, params, animations, dt),
    ensures
        next.final_pose@ == masked(
            layer.fresh_pose(layer.active_state, params, animations),
            layer.mask@,
        ),
        layer.mask@ == Set::<u64>::empty() ==> next.final_pose@ == layer.fresh_pose(
            layer.active_state,
            params,
            animations,
        ),
        next.active_state == layer.active_state,
        next.active_transition.is_none_spec(),
        next.events@ == layer.events@,
        next.transitions == layer.transitions,
        next.fresh_pose(next.active_state, params, animations) == layer.fresh_pose(
            layer.active_state,
            params,
            animations,
        ),
{
    assert forall|j: int| !fires_at(layer.transitions, layer.active_state, j, params) by {
        if layer.transitions.occupied(j) {
            assert(layer.transitions.contains(layer.transitions.handle_at(j)));
        }
    }
    lemma_first_firing(layer.transitions, layer.active_state, 0, params);
    assert(layer.started(params).is_none_spec());
    let p = layer.fresh_pose(layer.active_state, params, animations);
    if layer.mask@ == Set::<u64>::empty() {
        assert(masked(p, layer.mask@) =~= p);
    }
    assert(layer.states.contains(layer.active_state));
    let o = layer.states.records@[layer.active_state.index as int];
    assert(next.states.get(next.active_state).root == layer.states.get(layer.active_state).root);
}

/// A layer with neither an active state nor an active transition shows the
/// empty pose and stays as it is.
pub proof fn law_idle_layer(
    layer: MachineLayer,
    next: MachineLayer,
    params: ParameterContainer,
    animations: AnimationContainer,
    dt: u64,
)
    requires
        layer.is_idle(),
        layer.stepped(next, params, animations, dt),
    ensures
        next.final_pose@ == Map::<Handle, Transform>::empty(),
        next.is_idle(),
        next.states == layer.states,
        next.transitions == layer.transitions,
        next.events@ == layer.events@,
{
    assert(next.final_pose@ =~= Map::<Handle, Transform>::empty());
}

/// With the same parameters and the same sampled clips, a layer without
/// transitions shows the same pose in two frames in a row.
pub proof fn law_steady_pose(
    layer: MachineLayer,
    next: MachineLayer,
    after: MachineLayer,
    params: ParameterContainer,
    animations: AnimationContainer,
    dt: u64,
    dt_after: u64,
)
    requires
        layer.wf(),
        !layer.active_state.is_none_spec(),
        layer.active_transition.is_none_spec(),
        forall|h: Handle| !layer.transitions.contains(h),
        layer.stepped(next, params, animations, dt),
        next.stepped(after, params, animations, dt_after),
    ensures
        after.final_pose@ == next.final_pose@,
{
    law_layer_without_transitions(layer, next, params, animations, dt);
    law_layer_without_transitions(next, after, params, animations, dt_after);
}

/// With the same parameters and the same sampled clips, a layer without
/// transitions shows the same pose after every frame, and its active
/// state stays.
pub proof fn law_steady_pose_over_frames(
    layers: Seq<MachineLayer>,
    params: ParameterContainer,
    animations: AnimationContainer,
    dt: u64,
    k: nat,
)
    requires
        1 <= k < layers.len(),
        layers[0].wf(),
        !layers[0].active_state.is_none_spec(),
        layers[0].active_transition.is_none_spec(),
        forall|h: Handle| !layers[0].transitions.contains(h),
        consecutive_frames(layers, params, animations, dt),
    ensures
        layers[k as int].wf(),
        layers[k as int].active_state == layers[0].active_state,
        layers[k as int].active_transition.is_none_spec(),
        layers[k as int].transitions == layers[0].transitions,
        layers[k as int].final_pose@ == masked(
            layers[0].fresh_pose(layers[0].active_state, params, animations),
            layers[0].mask@,
        ),
        layers[k as int].fresh_pose(layers[k as int].active_state, params, animations)
            == layers[0].fresh_pose(layers[0].active_state, params, animations),
        layers[k as int].mask == layers[0].mask,
    decreases k,
{
    let j = (k - 1) as nat;
    assert(layers[j as int].stepped(layers[j as int + 1], params, animations, dt));
    if j > 0 {
        law_steady_pose_over_frames(layers, params, animations, dt, j);
    }
    law_layer_without_transitions(layers[j as int], layers[k as int], params, animations, dt);
}

/// After `k` steps of `dt` ticks a transition that started at zero has
/// `k * dt` ticks behind it, or its whole length if that is less.
pub proof fn lemma_advance_steps(duration: u64, dt: u64, k: nat)
    ensures
        advance_steps(0, duration, dt, k) == if k * dt >= duration {
            duration as int
        } else {
            k * dt
        },
    decreases k,
{
    if k > 0 {
        lemma_advance_steps(duration, dt, (k - 1) as nat);
        assert(k * dt == (k - 1) * dt + dt) by (nonlinear_arith);
        assert((k - 1) * dt >= 0) by (nonlinear_arith)
            requires
                k >= 1,
                dt >= 0,
        ;
    }
}

/// Steps of `dt` ticks that add up to the length of a transition: the
/// elapsed time grows with every step, the transition is under way before
/// the last step and done with it, and progress goes from zero to one.
pub proof fn law_progress(duration: u64, dt: u64, steps: nat, k: nat)
    requires
        dt > 0,
        steps * dt == duration,
        k < steps,
    ensures
        advance_steps(0, duration, dt, k) < advance_steps(0, duration, dt, k + 1),
        advance_steps(0, duration, dt, k) < duration,
        advance_steps(0, duration, dt, steps) == duration,
        progress_spec(advance_steps(0, duration, dt, 0), duration) == 0,
        progress_spec(advance_steps(0, duration, dt, k), duration) < WEIGHT_ONE,
        progress_spec(advance_steps(0, duration, dt, steps), duration) == WEIGHT_ONE,
{
    lemma_advance_steps(duration, dt, k);
    lemma_advance_steps(duration, dt, k + 1);
    lemma_advance_steps(duration, dt, steps);
    assert(k * dt < steps * dt) by (nonlinear_arith)
        requires
            k < steps,
            dt > 0,
    ;
    assert((k + 1) * dt <= steps * dt) by (nonlinear_arith)
        requires
            k + 1 <= steps,
            dt > 0,
    ;
    assert((k + 1) * dt == k * dt + dt) by (nonlinear_arith);
    let e = advance_steps(0, duration, dt, k);
    assert(e * WEIGHT_ONE / (duration as int) < WEIGHT_ONE) by (nonlinear_arith)
        requires
            0 <= e < duration,
            WEIGHT_ONE == 1_000_000,
    ;
    assert(0 * WEIGHT_ONE / (duration as int) == 0) by (nonlinear_arith)
        requires
            duration > 0,
    ;
}

/// A frame with a transition under way: where the elapsed time reaches the
/// length, the destination becomes the active state, no transition is
/// active and the transition is back at zero; where it does not, the
/// transition stays active with `dt` more ticks behind it.
pub proof fn law_completion(
    layer: MachineLayer,
    next: MachineLayer,
    params: ParameterContainer,
    animations: AnimationContainer,
    dt: u64,
)
    requires
        layer.wf(),
        !layer.active_transition.is_none_spec(),
        layer.stepped(next, params, animations, dt),
    ensures
        ({
            let h = layer.active_transition;
            let t = layer.transitions.get(h);
            let elapsed = advance_spec(t.elapsed_time, t.transition_time, dt);
            &&& next.transitions.contains(h)
            &&& elapsed >= t.transition_time ==> {
                &&& next.active_state == t.dest
                &&& next.active_transition.is_none_spec()
                &&& next.transitions.get(h) == t.with_elapsed(0)
            }
            &&& elapsed < t.transition_time ==> {
                &&& next.active_state == layer.active_state
                &&& next.active_transition == h
                &&& next.transitions.get(h) == t.with_elapsed(elapsed)
            }
        }),
{
}

/// Whether each layer of `layers` is the one before it one frame of `dt`
/// ticks later.
pub open spec fn consecutive_frames(
    layers: Seq<MachineLayer>,
    params: ParameterContainer,
    animations: AnimationContainer,
    dt: u64,
) -> bool {
    forall|k: int|
        0 <= k < layers.len() - 1 ==> (#[trigger] layers[k]).stepped(
            layers[k + 1],
            params,
            animations,
            dt,
        )
}

/// A transition that is under way at zero and whose length is `steps`
/// frames of `dt` ticks: after `k` frames, for `k` below `steps`, it is
/// still the active transition, with `k * dt` ticks behind it; after
/// `steps` frames no transition is active, its destination is the active
/// state and it is back at zero.
pub proof fn law_transition_runs_its_length(
    layers: Seq<MachineLayer>,
    h: Handle,
    params: ParameterContainer,
    animations: AnimationContainer,
    dt: u64,
    steps: nat,
    k: nat,
)
    requires
        layers.len() == steps + 1,
        layers[0].wf(),
        !h.is_none_spec(),
        layers[0].active_transition == h,
        layers[0].transitions.get(h).elapsed_time == 0,
        dt > 0,
        steps * dt == layers[0].transitions.get(h).transition_time,
        consecutive_frames(layers, params, animations, dt),
        k <= steps,
    ensures
        layers[k as int].wf(),
        layers[k as int].transitions.contains(h),
        layers[k as int].transitions.get(h) == layers[0].transitions.get(h).with_elapsed(
            if k < steps {
                (k * dt) as u64
            } else {
                0
            },
        ),
        k < steps ==> layers[k as int].active_transition == h && layers[k as int].active_state
            == layers[0].active_state,
        k == steps && steps > 0 ==> layers[k as int].active_transition.is_none_spec()
            && layers[k as int].active_state == layers[0].transitions.get(h).dest,
    decreases k,
{
    let t = layers[0].transitions.get(h);
    if k == 0 {
        assert(0 * dt == 0) by (nonlinear_arith);
        assert(t == t.with_elapsed(0));
        if steps == 0 {
            assert(steps * dt == 0) by (nonlinear_arith)
                requires
                    steps == 0,
            ;
        }
    } else {
        let j = (k - 1) as nat;
        law_transition_runs_its_length(layers, h, params, animations, dt, steps, j);
        let before = layers[j as int];
        let after = layers[k as int];
        assert(layers[j as int].stepped(layers[j as int + 1], params, animations, dt));
        law_completion(before, after, params, animations, dt);
        assert(k * dt == j * dt + dt) by (nonlinear_arith)
            requires
                k == j + 1,
        ;
        assert(j * dt >= 0) by (nonlinear_arith)
            requires
                j >= 0,
                dt >= 0,
        ;
        if k < steps {
            assert(k * dt < steps * dt) by (nonlinear_arith)
                requires
                    k < steps,
                    dt > 0,
            ;
        } else {
            assert(k * dt == steps * dt);
        }
    }
}

/// A transition that may not start, and is not under way, is not the
/// active transition after the frame, whatever time passes.
pub proof fn law_unfired_stays_inactive(
    layer: MachineLayer,
    next: MachineLayer,
    h: Handle,
    params: ParameterContainer,
    animations: AnimationContainer,
    dt: u64,
)
    requires
        layer.wf(),
        layer.transitions.contains(h),
        layer.active_transition != h,
        !fires(layer.transitions.get(h), layer.active_state, params),
        layer.stepped(next, params, animations, dt),
    ensures
        layer.started(params) != h,
        next.active_transition != h,
        next.transitions.contains(h),
        next.transitions.get(h) == layer.transitions.get(h),
{
    if layer.active_transition.is_none_spec() && !layer.is_idle() {
        if exists|i: int| is_first_firing(layer.transitions, layer.active_state, i, params) {
            let c = choose|i: int|
                is_first_firing(layer.transitions, layer.active_state, i, params);
            if layer.transitions.handle_at(c) == h {
                assert(c == h.index);
            }
        }
    }
    let s = layer.started(params);
    if !s.is_none_spec() {
        assert(layer.transitions.contains(s));
        assert(s.index != h.index);
    }
}

/// A transition that is not inverted and whose rule is false, absent or of
/// another kind is never the active transition after a frame in which it
/// was not under way, and the frame leaves it as it was, so that the same
/// holds of the next frame.
pub proof fn law_false_rule_never_activates(
    layer: MachineLayer,
    next: MachineLayer,
    h: Handle,
    params: ParameterContainer,
    animations: AnimationContainer,
    dt: u64,
)
    requires
        layer.wf(),
        layer.transitions.contains(h),
        layer.active_transition != h,
        !layer.transitions.get(h).invert_rule,
        !params.rule_spec(layer.transitions.get(h).rule@),
        layer.stepped(next, params, animations, dt),
    ensures
        next.active_transition != h,
        next.transitions.contains(h),
        next.transitions.get(h) == layer.transitions.get(h),
{
    law_unmet_rule(layer.transitions.get(h), layer.active_state, params);
    law_unfired_stays_inactive(layer, next, h, params, animations, dt);
}

/// While the parameters stay as they are, a transition that is not
/// inverted and whose rule is false, absent or of another kind is not the
/// active transition after any number of frames, if it was not at first.
pub proof fn law_false_rule_never_activates_over_frames(
    layers: Seq<MachineLayer>,
    h: Handle,
    params: ParameterContainer,
    animations: AnimationContainer,
    dt: u64,
    k: nat,
)
    requires
        k < layers.len(),
        layers[0].wf(),
        layers[0].transitions.contains(h),
        layers[0].active_transition != h,
        !layers[0].transitions.get(h).invert_rule,
        !params.rule_spec(layers[0].transitions.get(h).rule@),
        consecutive_frames(layers, params, animations, dt),
    ensures
        layers[k as int].wf(),
        layers[k as int].active_transition != h,
        layers[k as int].transitions.contains(h),
        layers[k as int].transitions.get(h) == layers[0].transitions.get(h),
    decreases k,
{
    if k > 0 {
        let j = (k - 1) as nat;
        law_false_rule_never_activates_over_frames(layers, h, params, animations, dt, j);
        assert(layers[j as int].stepped(layers[j as int + 1], params, animations, dt));
        law_false_rule_never_activates(
            layers[j as int],
            layers[k as int],
            h,
            params,
            animations,
            dt,
        );
    }
}

/// An inverted transition whose rule is true is never the active
/// transition after a frame in which it was not under way.
pub proof fn law_inverted_true_rule_suppresses(
    layer: MachineLayer,
    next: MachineLayer,
    h: Handle,
    params: ParameterContainer,
    animations: AnimationContainer,
    dt: u64,
)
    requires
        layer.wf(),
        layer.transitions.contains(h),
        layer.active_transition != h,
        layer.transitions.get(h).invert_rule,
        params.value_of(layer.transitions.get(h).rule@) == Some(Parameter::Rule(true)),
        layer.stepped(next, params, animations, dt),
    ensures
        next.active_transition != h,
        next.transitions.contains(h),
        next.transitions.get(h) == layer.transitions.get(h),
{
    law_inverted_rule(layer.transitions.get(h), layer.active_state, params);
    law_unfired_stays_inactive(layer, next, h, params, animations, dt);
}

/// A transition that may start, in a layer with no transition under way
/// and none that may start in a slot before it, starts, and the same frame
/// lets `dt` ticks pass for it: where that does not reach its length it is
/// the active transition, no state is active and the three events of a
/// start are queued; where it does, it has ended at once, its destination
/// is the active state and the two events of an end follow those three.
pub proof fn law_first_to_fire_starts(
    layer: MachineLayer,
    next: MachineLayer,
    h: Handle,
    params: ParameterContainer,
    animations: AnimationContainer,
    dt: u64,
)
    requires
        layer.wf(),
        layer.transitions.contains(h),
        layer.active_transition.is_none_spec(),
        fires(layer.transitions.get(h), layer.active_state, params),
        forall|j: int| 0 <= j < h.index ==> !fires_at(
            layer.transitions,
            layer.active_state,
            j,
            params,
        ),
        layer.stepped(next, params, animations, dt),
    ensures
        layer.started(params) == h,
        next.active_transition == h || (next.active_transition.is_none_spec() && next.active_state
            == layer.transitions.get(h).dest),
        next.transitions.contains(h),
        ({
            let t = layer.transitions.get(h);
            let limit = layer.events.limit as nat;
            let elapsed = advance_spec(t.elapsed_time, t.transition_time, dt);
            let started = pushed(
                pushed(
                    pushed(layer.events@, limit, Event::StateLeave(layer.active_state)),
                    limit,
                    Event::StateEnter(t.source),
                ),
                limit,
                Event::ActiveTransitionChanged(h),
            );
            &&& elapsed < t.transition_time ==> {
                &&& next.active_transition == h
                &&& next.active_state.is_none_spec()
                &&& next.transitions.get(h) == t.with_elapsed(elapsed)
                &&& next.events@ == started
            }
            &&& elapsed >= t.transition_time ==> {
                &&& next.active_transition.is_none_spec()
                &&& next.active_state == t.dest
                &&& next.transitions.get(h) == t.with_elapsed(0)
                &&& next.events@ == pushed(
                    pushed(started, limit, Event::ActiveTransitionChanged(Handle::none_spec())),
                    limit,
                    Event::ActiveStateChanged(t.dest),
                )
            }
        }),
{
    assert(is_first_firing(layer.transitions, layer.active_state, h.index as int, params));
    lemma_first_firing(layer.transitions, layer.active_state, h.index as int, params);
    assert(layer.states.contains(layer.transitions.get(h).source));
}

/// A layer at rest in the source of a transition that is at zero, may
/// start and is the first that may, and frames of `dt` ticks of which
/// `steps` make up the length of the transition: the first frame starts
/// it; after `k` frames, for `k` from one to below `steps`, it is the
/// active transition, no state is active, `k * dt` ticks are behind it,
/// more than after the frame before, and its progress is `k` parts in
/// `steps`, below one; after `steps` frames, and not earlier, no
/// transition is active, its destination is the active state and it is
/// back at zero.
pub proof fn law_transition_from_rest(
    layers: Seq<MachineLayer>,
    h: Handle,
    params: ParameterContainer,
    animations: AnimationContainer,
    dt: u64,
    steps: nat,
    k: nat,
)
    requires
        layers.len() == steps + 1,
        layers[0].wf(),
        layers[0].transitions.contains(h),
        layers[0].active_transition.is_none_spec(),
        layers[0].transitions.get(h).elapsed_time == 0,
        fires(layers[0].transitions.get(h), layers[0].active_state, params),
        forall|j: int| 0 <= j < h.index ==> !fires_at(
            layers[0].transitions,
            layers[0].active_state,
            j,
            params,
        ),
        dt > 0,
        steps * dt == layers[0].transitions.get(h).transition_time,
        consecutive_frames(layers, params, animations, dt),
        1 <= k <= steps,
    ensures
        layers[k as int].wf(),
        layers[k as int].transitions.contains(h),
        layers[k as int].transitions.get(h) == layers[0].transitions.get(h).with_elapsed(
            if k < steps {
                (k * dt) as u64
            } else {
                0
            },
        ),
        k < steps ==> {
            &&& layers[k as int].active_transition == h
            &&& layers[k as int].active_state.is_none_spec()
            &&& (k - 1) * dt < k * dt < layers[0].transitions.get(h).transition_time
            &&& progress_spec((k * dt) as u64, layers[0].transitions.get(h).transition_time) == k
                * WEIGHT_ONE / (steps as int)
            &&& progress_spec((k * dt) as u64, layers[0].transitions.get(h).transition_time)
                < WEIGHT_ONE
        },
        k == steps ==> layers[k as int].active_transition.is_none_spec()
            && layers[k as int].active_state == layers[0].transitions.get(h).dest,
    decreases k,
{
    let t = layers[0].transitions.get(h);
    let d = t.transition_time;
    assert(k * dt == (k - 1) * dt + dt) by (nonlinear_arith);
    assert((k - 1) * dt >= 0) by (nonlinear_arith)
        requires
            k >= 1,
            dt >= 0,
    ;
    if k < steps {
        assert(k * dt < steps * dt) by (nonlinear_arith)
            requires
                k < steps,
                dt > 0,
        ;
        let e = k * dt;
        assert(e * WEIGHT_ONE / (d as int) < WEIGHT_ONE) by (nonlinear_arith)
            requires
                0 <= e < d,
                WEIGHT_ONE == 1_000_000,
        ;
        vstd::arithmetic::div_mod::lemma_div_multiples_vanish_quotient(
            dt as int,
            k * WEIGHT_ONE,
            steps as int,
        );
        assert(dt * (k * WEIGHT_ONE) == (k * dt) * WEIGHT_ONE) by (nonlinear_arith);
        assert(dt * steps == steps * dt) by (nonlinear_arith);
    }
    assert(layers[0].states.contains(t.source));
    if k == 1 {
        assert(layers[0].stepped(layers[1], params, animations, dt));
        law_first_to_fire_starts(layers[0], layers[1], h, params, animations, dt);
        if steps == 1 {
            assert(steps * dt == dt) by (nonlinear_arith)
                requires
                    steps == 1,
            ;
        }
    } else {
        let j = (k - 1) as nat;
        law_transition_from_rest(layers, h, params, animations, dt, steps, j);
        assert(layers[j as int].stepped(layers[j as int + 1], params, animations, dt));
        law_completion(layers[j as int], layers[k as int], params, animations, dt);
        assert(j * dt == (j - 1) * dt + dt) by (nonlinear_arith);
        if k == steps {
            assert(k * dt == steps * dt);
        }
    }
}

/// An inverted transition whose rule is false starts from its source for
/// another state, where no transition is under way and none in a slot
/// before it may start.
pub proof fn law_inverted_false_rule_triggers(
    layer: MachineLayer,
    next: MachineLayer,
    h: Handle,
    params: ParameterContainer,
    animations: AnimationContainer,
    dt: u64,
)
    requires
        layer.wf(),
        layer.transitions.contains(h),
        layer.active_transition.is_none_spec(),
        layer.transitions.get(h).invert_rule,
        params.value_of(layer.transitions.get(h).rule@) == Some(Parameter::Rule(false)),
        layer.transitions.get(h).source == layer.active_state,
        layer.transitions.get(h).dest != layer.active_state,
        forall|j: int| 0 <= j < h.index ==> !fires_at(
            layer.transitions,
            layer.active_state,
            j,
            params,
        ),
        layer.stepped(next, params, animations, dt),
    ensures
        layer.started(params) == h,
        next.active_transition == h || (next.active_transition.is_none_spec() && next.active_state
            == layer.transitions.get(h).dest),
{
    law_inverted_rule(layer.transitions.get(h), layer.active_state, params);
    law_first_to_fire_starts(layer, next, h, params, animations, dt);
}

/// A transition from a state to itself is never the active transition
/// after a frame in which it was not under way.
pub proof fn law_self_transition_never_taken(
    layer: MachineLayer,
    next: MachineLayer,
    h: Handle,
    params: ParameterContainer,
    animations: AnimationContainer,
    dt: u64,
)
    requires
        layer.wf(),
        layer.transitions.contains(h),
        layer.active_transition != h,
        layer.transitions.get(h).source == layer.transitions.get(h).dest,
        layer.stepped(next, params, animations, dt),
    ensures
        next.active_transition != h,
        next.transitions.contains(h),
        next.transitions.get(h) == layer.transitions.get(h),
{
    law_self_transition(layer.transitions.get(h), layer.active_state, params);
    law_unfired_stays_inactive(layer, next, h, params, animations, dt);
}

/// A transition whose rule is false or absent does not start unless it is
/// inverted, and one whose rule is absent or of another kind does not
/// start at all.
pub proof fn law_unmet_rule(t: Transition, active: Handle, params: ParameterContainer)
    ensures
        !t.invert_rule && !params.rule_spec(t.rule@) ==> !fires(t, active, params),
        !(params.value_of(t.rule@) matches Some(Parameter::Rule(_))) ==> !fires(t, active, params),
{
}

/// An inverted transition does not start while its rule is true, and
/// starts from its source, for another state, while its rule is false.
pub proof fn law_inverted_rule(t: Transition, active: Handle, params: ParameterContainer)
    requires
        t.invert_rule,
    ensures
        params.value_of(t.rule@) == Some(Parameter::Rule(true)) ==> !fires(t, active, params),
        params.value_of(t.rule@) == Some(Parameter::Rule(false)) && t.source == active && t.dest
            != active ==> fires(t, active, params),
{
}

/// A transition from a state to itself never starts.
pub proof fn law_self_transition(t: Transition, active: Handle, params: ParameterContainer)
    requires
        t.source == t.dest,
    ensures
        !fires(t, active, params),
{
}

/// Two terms over one value, with weights that are not both zero, average
/// to that value.
pub proof fn lemma_blend_of_equal_channels(w1: u64, w2: u64, v: i32)
    requires
        0 < w1 + w2 <= u64::MAX,
    ensures
        normalize_spec(
            accumulate_spec(accumulate_spec(0, w1 as int, v as int), w2 as int, v as int),
            w1 + w2,
        ) == v,
{
    let a = w1 as int;
    let b = w2 as int;
    let vi = v as int;
    assert(-0x8000_0000_0000_0000_0000_0000 <= a * vi <= 0x8000_0000_0000_0000_0000_0000)
        by (nonlinear_arith)
        requires
            0 <= a <= 0xffff_ffff_ffff_ffff,
            -0x8000_0000 <= vi <= 0x7fff_ffff,
    ;
    assert(-0x8000_0000_0000_0000_0000_0000 <= b * vi <= 0x8000_0000_0000_0000_0000_0000)
        by (nonlinear_arith)
        requires
            0 <= b <= 0xffff_ffff_ffff_ffff,
            -0x8000_0000 <= vi <= 0x7fff_ffff,
    ;
    let s = a * vi + b * vi;
    assert(accumulate_spec(accumulate_spec(0, a, vi), b, vi) == s);
    let d = a + b;
    if vi >= 0 {
        assert(s >= 0 && s / d == vi) by (nonlinear_arith)
            requires
                s == a * vi + b * vi,
                d == a + b,
                a >= 0,
                b >= 0,
                d > 0,
                vi >= 0,
        ;
    } else {
        assert(s < 0 && (-s) / d == -vi) by (nonlinear_arith)
            requires
                s == a * vi + b * vi,
                d == a + b,
                a >= 0,
                b >= 0,
                d > 0,
                vi < 0,
        ;
    }
}

/// Two terms over one transform, with weights that are not both zero,
/// average to that transform.
pub proof fn lemma_blend_of_equal_transforms(w1: u64, w2: u64, t: Transform)
    requires
        0 < w1 + w2 <= u64::MAX,
    ensures
        TransformSum::zero_spec().add_weighted_spec(t, w1).add_weighted_spec(t, w2).normalized_spec(
            (w1 + w2) as u64,
        ) == t,
{
    lemma_blend_of_equal_channels(w1, w2, t.position_x);
    lemma_blend_of_equal_channels(w1, w2, t.position_y);
    lemma_blend_of_equal_channels(w1, w2, t.position_z);
    lemma_blend_of_equal_channels(w1, w2, t.rotation_x);
    lemma_blend_of_equal_channels(w1, w2, t.rotation_y);
    lemma_blend_of_equal_channels(w1, w2, t.rotation_z);
    lemma_blend_of_equal_channels(w1, w2, t.rotation_w);
    lemma_blend_of_equal_channels(w1, w2, t.scale_x);
    lemma_blend_of_equal_channels(w1, w2, t.scale_y);
    lemma_blend_of_equal_channels(w1, w2, t.scale_z);
}

/// The blend of a pose with itself is that pose, whatever the two weights,
/// if they are not both zero and their sum is a weight: in particular
/// under two equal weights.
pub proof fn law_blend_of_equal_poses(w1: u64, w2: u64, p: Map<Handle, Transform>)
    requires
        0 < w1 + w2 <= u64::MAX,
    ensures
        normalized_map(
            add_weighted_map(
                add_weighted_map(Map::<Handle, TransformSum>::empty(), p, w1),
                p,
                w2,
            ),
            (w1 + w2) as u64,
        ) == p,
{
    let r = normalized_map(
        add_weighted_map(add_weighted_map(Map::<Handle, TransformSum>::empty(), p, w1), p, w2),
        (w1 + w2) as u64,
    );
    assert forall|b: Handle| p.dom().contains(b) implies #[trigger] r[b] == p[b] by {
        lemma_blend_of_equal_transforms(w1, w2, p[b]);
    }
    assert(r =~= p);
}

/// A blend node with two inputs whose poses are equal has that pose,
/// whatever the two weights, if they are not both zero and their sum is a
/// weight: in particular under two equal weights.
pub proof fn law_blend_node_of_equal_poses(
    nodes: Pool<PoseNode>,
    h: Handle,
    b: BlendAnimations,
    params: ParameterContainer,
    animations: AnimationContainer,
    depth: nat,
)
    requires
        depth > 0,
        nodes.contains(h),
        nodes.get(h) == PoseNode::BlendAnimations(b),
        b.pose_sources@.len() == 2,
        0 < weight_of(b.pose_sources@[0].weight, params) + weight_of(
            b.pose_sources@[1].weight,
            params,
        ) <= u64::MAX,
        node_pose(nodes, b.pose_sources@[0].pose_source, params, animations, (depth - 1) as nat)
            == node_pose(
            nodes,
            b.pose_sources@[1].pose_source,
            params,
            animations,
            (depth - 1) as nat,
        ),
    ensures
        node_pose(nodes, h, params, animations, depth) == node_pose(
            nodes,
            b.pose_sources@[0].pose_source,
            params,
            animations,
            (depth - 1) as nat,
        ),
{
    let s = b.pose_sources@;
    let d = (depth - 1) as nat;
    let p = node_pose(nodes, s[0].pose_source, params, animations, d);
    let w1 = weight_of(s[0].weight, params);
    let w2 = weight_of(s[1].weight, params);
    assert(total_weight(s, params, 0) == 0);
    assert(total_weight(s, params, 1) == w1);
    assert(total_weight(s, params, 2) == w1 + w2);
    assert(blend_sum(nodes, s, 0, params, animations, d) == Map::<Handle, TransformSum>::empty());
    assert(blend_sum(nodes, s, 1, params, animations, d) == add_weighted_map(
        Map::<Handle, TransformSum>::empty(),
        p,
        w1,
    ));
    assert(blend_sum(nodes, s, 2, params, animations, d) == add_weighted_map(
        add_weighted_map(Map::<Handle, TransformSum>::empty(), p, w1),
        p,
        w2,
    ));
    law_blend_of_equal_poses(w1, w2, p);
}

/// A transition between two states that show the same pose shows that pose
/// all the way.
pub proof fn law_transition_between_equal_poses(t: Transition, p: Map<Handle, Transform>)
    requires
        t.wf(),
    ensures
        transition_pose(t, p, p) == p,
{
    law_blend_of_equal_poses(t.source_weight(), t.dest_weight(), p);
}

/// Whether every input of `node` has a rank below `bound`.
pub open spec fn inputs_rank_below(node: PoseNode, rank: Map<Handle, nat>, bound: nat) -> bool {
    match node {
        PoseNode::PlayAnimation(_) => true,
        PoseNode::BlendAnimations(b) => forall|i: int|
            0 <= i < b.pose_sources@.len() ==> rank.dom().contains(
                (#[trigger] b.pose_sources@[i]).pose_source,
            ) && rank[b.pose_sources@[i].pose_source] < bound,
        PoseNode::BlendAnimationsByIndex(b) => forall|i: int|
            0 <= i < b.inputs@.len() ==> #[trigger] rank.dom().contains(b.inputs@[i].pose_source)
                && rank[b.inputs@[i].pose_source] < bound,
    }
}

/// Whether `rank` gives every node of `nodes` a rank above the ranks of its
/// inputs. A graph has such a ranking just when it has no cycle.
pub open spec fn ranked(nodes: Pool<PoseNode>, rank: Map<Handle, nat>) -> bool {
    forall|h: Handle|
        nodes.contains(h) ==> rank.dom().contains(h) && inputs_rank_below(
            #[trigger] nodes.get(h),
            rank,
            rank[h],
        )
}

/// In a ranked graph the pose of a node is the same at every depth above
/// its rank: the bound on the depth of a walk cuts nothing off.
pub proof fn law_depth_above_rank(
    nodes: Pool<PoseNode>,
    h: Handle,
    params: ParameterContainer,
    animations: AnimationContainer,
    rank: Map<Handle, nat>,
    d1: nat,
    d2: nat,
)
    requires
        graph_valid(nodes),
        ranked(nodes, rank),
        nodes.contains(h),
        d1 > rank[h],
        d2 > rank[h],
    ensures
        node_pose(nodes, h, params, animations, d1) == node_pose(nodes, h, params, animations, d2),
    decreases rank[h] + 1, 0nat,
{
    let node = nodes.get(h);
    assert(inputs_valid(nodes, node));
    assert(inputs_rank_below(node, rank, rank[h]));
    match node {
        PoseNode::PlayAnimation(_) => {},
        PoseNode::BlendAnimations(b) => {
            lemma_blend_sum_depth(
                nodes,
                b.pose_sources@,
                b.pose_sources@.len(),
                params,
                animations,
                rank,
                rank[h],
                (d1 - 1) as nat,
                (d2 - 1) as nat,
            );
        },
        PoseNode::BlendAnimationsByIndex(b) => {
            assert(node->BlendAnimationsByIndex_0 == b);
            match selected_input(params.index_spec(b.index_parameter@), b.inputs@.len()) {
                Some(i) => {
                    let c = b.inputs@[i].pose_source;
                    assert(nodes.contains(c));
                    assert(rank.dom().contains(c) && rank[c] < rank[h]);
                    law_depth_above_rank(
                        nodes,
                        c,
                        params,
                        animations,
                        rank,
                        (d1 - 1) as nat,
                        (d2 - 1) as nat,
                    );
                },
                None => {},
            }
        },
    }
}

/// The ranking of the nodes of a pool by the index of their slot.
pub open spec fn rank_by_index(nodes: Pool<PoseNode>) -> Map<Handle, nat> {
    Map::new(|h: Handle| nodes.contains(h), |h: Handle| h.index as nat)
}

/// In a graph in which every input lies in a slot before its consumer, as
/// in one built inputs first, the walk that a frame makes, to the depth of
/// the number of slots, gives the pose that a walk of any greater depth
/// gives.
pub proof fn law_frame_depth_suffices(
    nodes: Pool<PoseNode>,
    h: Handle,
    params: ParameterContainer,
    animations: AnimationContainer,
    depth: nat,
)
    requires
        graph_valid(nodes),
        ranked(nodes, rank_by_index(nodes)),
        nodes.contains(h),
        depth >= nodes.capacity_spec(),
    ensures
        node_pose(nodes, h, params, animations, nodes.capacity_spec()) == node_pose(
            nodes,
            h,
            params,
            animations,
            depth,
        ),
{
    law_depth_above_rank(
        nodes,
        h,
        params,
        animations,
        rank_by_index(nodes),
        nodes.capacity_spec(),
        depth,
    );
}

/// In a ranked graph the weighted sum of the poses of inputs that rank
/// below `bound` is the same at every depth from `bound` on.
pub proof fn lemma_blend_sum_depth(
    nodes: Pool<PoseNode>,
    sources: Seq<BlendPose>,
    k: nat,
    params: ParameterContainer,
    animations: AnimationContainer,
    rank: Map<Handle, nat>,
    bound: nat,
    d1: nat,
    d2: nat,
)
    requires
        graph_valid(nodes),
        ranked(nodes, rank),
        k <= sources.len(),
        forall|i: int|
            0 <= i < sources.len() ==> nodes.contains((#[trigger] sources[i]).pose_source)
                && rank.dom().contains(sources[i].pose_source) && rank[sources[i].pose_source]
                < bound,
        d1 >= bound,
        d2 >= bound,
    ensures
        blend_sum(nodes, sources, k, params, animations, d1) == blend_sum(
            nodes,
            sources,
            k,
            params,
            animations,
            d2,
        ),
    decreases bound, k + 1,
{
    if k > 0 {
        lemma_blend_sum_depth(
            nodes,
            sources,
            (k - 1) as nat,
            params,
            animations,
            rank,
            bound,
            d1,
            d2,
        );
        let c = sources[k - 1].pose_source;
        assert(nodes.contains(c) && rank[c] < bound);
        law_depth_above_rank(nodes, c, params, animations, rank, d1, d2);
    }
}

/// A bone that the mask of a layer excludes is absent from the pose of
/// the layer, and the layer adds nothing for it to the sums of a machine.
pub proof fn law_masked_bone_absent(
    layer: MachineLayer,
    next: MachineLayer,
    params: ParameterContainer,
    animations: AnimationContainer,
    dt: u64,
    bone: Handle,
    sums: Map<Handle, TransformSum>,
)
    requires
        layer.stepped(next, params, animations, dt),
        !layer.mask.should_animate_spec(bone),
    ensures
        !next.final_pose@.dom().contains(bone),
        add_weighted_map(sums, next.final_pose@, next.weight).dom().contains(bone)
            == sums.dom().contains(bone),
        sums.dom().contains(bone) ==> add_weighted_map(sums, next.final_pose@, next.weight)[bone]
            == sums[bone],
{
}

} // verus!
