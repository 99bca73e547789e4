use absm::event::Event;
use absm::layer::MachineLayer;
use absm::machine::Machine;
use absm::mask::LayerMask;
use absm::node::{
    AnimationContainer, BlendAnimations, BlendAnimationsByIndex, BlendPose, IndexedBlendInput,
    PlayAnimation, PoseNode, PoseWeight,
};
use absm::parameter::Parameter;
use absm::pool::Handle;
use absm::pose::{Pose, Transform, WEIGHT_ONE};
use absm::state::State;
use absm::transition::Transition;

fn transform(v: i32) -> Transform {
    Transform {
        position_x: v,
        position_y: 2 * v,
        position_z: -v,
        rotation_x: 0,
        rotation_y: 0,
        rotation_z: 0,
        rotation_w: 1000,
        scale_x: 1000,
        scale_y: 1000,
        scale_z: 1000,
    }
}

fn bone(i: u32) -> Handle {
    Handle::new(i, 1)
}

fn pose_of(entries: &[(u32, i32)]) -> Pose {
    let mut pose = Pose::new();
    for (b, v) in entries {
        pose.insert(bone(*b), transform(*v));
    }
    pose
}

struct Rig {
    machine: Machine,
    clips: AnimationContainer,
    idle: Handle,
    walk: Handle,
    idle_to_walk: Handle,
}

fn idle_walk_rig() -> Rig {
    let mut clips = AnimationContainer::new();
    let idle_clip = clips.add(pose_of(&[(1, 0), (2, 100)]));
    let walk_clip = clips.add(pose_of(&[(1, 1000), (2, 300)]));
    let mut machine = Machine::new();
    let layer = &mut machine.layers_mut()[0];
    let idle_node = layer.add_node(PoseNode::PlayAnimation(PlayAnimation::new(idle_clip)));
    let walk_node = layer.add_node(PoseNode::PlayAnimation(PlayAnimation::new(walk_clip)));
    let idle = layer.add_state(State::new("Idle", idle_node));
    let walk = layer.add_state(State::new("Walk", walk_node));
    layer.set_entry_state(idle);
    let idle_to_walk = layer.add_transition(Transition::new("Idle->Walk", idle, walk, 1000, "Go"));
    Rig { machine, clips, idle, walk, idle_to_walk }
}

#[test]
fn idle_to_walk_in_two_half_steps() {
    let mut rig = idle_walk_rig();
    rig.machine.set_parameter("Go", Parameter::Rule(true));

    let first = rig.machine.evaluate_pose(&rig.clips, 500).duplicate();
    assert_eq!(first.get(bone(1)), Some(transform(0)));
    {
        let layer = &mut rig.machine.layers_mut()[0];
        assert_eq!(layer.active_transition(), rig.idle_to_walk);
        assert!(layer.active_state().is_none());
        assert_eq!(layer.transition(rig.idle_to_walk).blend_factor(), WEIGHT_ONE / 2);
        assert_eq!(layer.pop_event(), Some(Event::StateLeave(rig.idle)));
        assert_eq!(layer.pop_event(), Some(Event::StateEnter(rig.idle)));
        assert_eq!(layer.pop_event(), Some(Event::ActiveTransitionChanged(rig.idle_to_walk)));
        assert_eq!(layer.pop_event(), None);
    }

    let second = rig.machine.evaluate_pose(&rig.clips, 500).duplicate();
    assert_eq!(second.get(bone(1)), Some(transform(1000)));
    assert_eq!(second.get(bone(2)), Some(transform(300)));
    let layer = &mut rig.machine.layers_mut()[0];
    assert!(layer.active_transition().is_none());
    assert_eq!(layer.active_state(), rig.walk);
    assert_eq!(layer.transition(rig.idle_to_walk).elapsed_time(), 0);
    assert_eq!(layer.pop_event(), Some(Event::ActiveTransitionChanged(Handle::none())));
    assert_eq!(layer.pop_event(), Some(Event::ActiveStateChanged(rig.walk)));
    assert_eq!(layer.pop_event(), None);
}

#[test]
fn transition_blends_by_elapsed_time() {
    let mut rig = idle_walk_rig();
    rig.machine.set_parameter("Go", Parameter::Rule(true));
    rig.machine.evaluate_pose(&rig.clips, 250);
    let pose = rig.machine.evaluate_pose(&rig.clips, 250).duplicate();
    // A quarter of the way: (750 * 0 + 250 * 1000) / 1000 and (750 * 100 + 250 * 300) / 1000.
    assert_eq!(pose.get(bone(1)).unwrap().position_x, 250);
    assert_eq!(pose.get(bone(1)).unwrap().position_y, 500);
    assert_eq!(pose.get(bone(1)).unwrap().position_z, -250);
    assert_eq!(pose.get(bone(2)).unwrap().position_x, 150);
    assert_eq!(pose.get(bone(2)).unwrap().scale_x, 1000);
    assert_eq!(rig.machine.layers()[0].transition(rig.idle_to_walk).blend_factor(), WEIGHT_ONE / 2);
}

#[test]
fn layer_without_transitions_keeps_showing_the_active_state() {
    let mut clips = AnimationContainer::new();
    let clip = clips.add(pose_of(&[(1, 7), (3, 9)]));
    let mut machine = Machine::new();
    let layer = &mut machine.layers_mut()[0];
    let node = layer.add_node(PoseNode::PlayAnimation(PlayAnimation::new(clip)));
    let state = layer.add_state(State::new("Only", node));
    for dt in [0u64, 16, 1000, u64::MAX] {
        let pose = machine.evaluate_pose(&clips, dt).duplicate();
        assert_eq!(pose.len(), 2);
        assert_eq!(pose.get(bone(1)), Some(transform(7)));
        assert_eq!(pose.get(bone(3)), Some(transform(9)));
        assert_eq!(machine.layers()[0].active_state(), state);
        assert!(machine.layers()[0].active_transition().is_none());
    }
    assert_eq!(machine.layers_mut()[0].pop_event(), None);
}

#[test]
fn empty_layer_gives_the_empty_pose() {
    let clips = AnimationContainer::new();
    let mut machine = Machine::new();
    assert!(machine.evaluate_pose(&clips, 10).is_empty());
    assert!(machine.layers()[0].active_state().is_none());
}

#[test]
fn progress_grows_with_every_step_and_completes_once() {
    let mut rig = idle_walk_rig();
    rig.machine.set_parameter("Go", Parameter::Rule(true));
    let mut last = 0u64;
    for step in 1..=4u64 {
        rig.machine.evaluate_pose(&rig.clips, 250);
        let layer = &rig.machine.layers()[0];
        if step < 4 {
            assert_eq!(layer.active_transition(), rig.idle_to_walk);
            let progress = layer.transition(rig.idle_to_walk).blend_factor();
            assert_eq!(progress, step * 250_000);
            assert!(progress > last);
            last = progress;
        } else {
            assert!(layer.active_transition().is_none());
            assert_eq!(layer.active_state(), rig.walk);
        }
    }
    // The rule still holds, but nothing leaves Walk: the machine stays there.
    rig.machine.evaluate_pose(&rig.clips, 250);
    let layer = &mut rig.machine.layers_mut()[0];
    assert_eq!(layer.active_state(), rig.walk);
    let mut changes = 0;
    while let Some(event) = layer.pop_event() {
        if event == Event::ActiveStateChanged(rig.walk) {
            changes += 1;
        }
    }
    assert_eq!(changes, 1);
}

#[test]
fn false_or_absent_rule_never_starts_a_transition() {
    let mut rig = idle_walk_rig();
    for _ in 0..5 {
        rig.machine.evaluate_pose(&rig.clips, 10_000);
        assert_eq!(rig.machine.layers()[0].active_state(), rig.idle);
    }
    rig.machine.set_parameter("Go", Parameter::Rule(false));
    for _ in 0..5 {
        rig.machine.evaluate_pose(&rig.clips, 10_000);
        assert_eq!(rig.machine.layers()[0].active_state(), rig.idle);
        assert!(rig.machine.layers()[0].active_transition().is_none());
    }
    rig.machine.set_parameter("Go", Parameter::Index(1));
    rig.machine.evaluate_pose(&rig.clips, 10_000);
    assert_eq!(rig.machine.layers()[0].active_state(), rig.idle);
    assert_eq!(rig.machine.layers_mut()[0].pop_event(), None);
}

#[test]
fn inverted_rule_flips_activation() {
    let mut rig = idle_walk_rig();
    rig.machine.layers_mut()[0].transition_mut(rig.idle_to_walk).set_invert_rule(true);
    rig.machine.set_parameter("Go", Parameter::Rule(true));
    rig.machine.evaluate_pose(&rig.clips, 100);
    assert!(rig.machine.layers()[0].active_transition().is_none());
    assert_eq!(rig.machine.layers()[0].active_state(), rig.idle);
    rig.machine.set_parameter("Go", Parameter::Rule(false));
    rig.machine.evaluate_pose(&rig.clips, 100);
    assert_eq!(rig.machine.layers()[0].active_transition(), rig.idle_to_walk);
}

#[test]
fn inverted_rule_with_absent_parameter_does_not_start() {
    let mut rig = idle_walk_rig();
    rig.machine.layers_mut()[0].transition_mut(rig.idle_to_walk).set_invert_rule(true);
    rig.machine.evaluate_pose(&rig.clips, 100);
    assert!(rig.machine.layers()[0].active_transition().is_none());
}

#[test]
fn self_transition_is_never_taken() {
    let mut rig = idle_walk_rig();
    let layer = &mut rig.machine.layers_mut()[0];
    let looped = layer.add_transition(Transition::new("Idle->Idle", rig.idle, rig.idle, 10, "Loop"));
    rig.machine.set_parameter("Loop", Parameter::Rule(true));
    for _ in 0..3 {
        rig.machine.evaluate_pose(&rig.clips, 100);
        assert_ne!(rig.machine.layers()[0].active_transition(), looped);
        assert_eq!(rig.machine.layers()[0].active_state(), rig.idle);
    }
}

#[test]
fn first_matching_transition_in_slot_order_wins() {
    let mut rig = idle_walk_rig();
    let layer = &mut rig.machine.layers_mut()[0];
    let second = layer.add_transition(Transition::new("Again", rig.idle, rig.walk, 5, "Go"));
    rig.machine.set_parameter("Go", Parameter::Rule(true));
    rig.machine.evaluate_pose(&rig.clips, 1);
    assert_eq!(rig.machine.layers()[0].active_transition(), rig.idle_to_walk);
    assert_ne!(rig.idle_to_walk, second);
}

#[test]
fn zero_length_transition_completes_in_its_first_frame() {
    let mut rig = idle_walk_rig();
    let layer = &mut rig.machine.layers_mut()[0];
    layer.transitions_mut().free(rig.idle_to_walk);
    let instant = layer.add_transition(Transition::new("Now", rig.idle, rig.walk, 0, "Go"));
    assert_eq!(instant.index(), rig.idle_to_walk.index());
    assert_eq!(instant.generation(), rig.idle_to_walk.generation() + 1);
    rig.machine.set_parameter("Go", Parameter::Rule(true));
    let pose = rig.machine.evaluate_pose(&rig.clips, 0).duplicate();
    assert_eq!(pose.get(bone(1)), Some(transform(1000)));
    assert_eq!(rig.machine.layers()[0].active_state(), rig.walk);
}

fn blend_rig(weights: [PoseWeight; 2], left: Pose, right: Pose) -> (Machine, AnimationContainer) {
    let mut clips = AnimationContainer::new();
    let a = clips.add(left);
    let b = clips.add(right);
    let mut machine = Machine::new();
    let layer = &mut machine.layers_mut()[0];
    let na = layer.add_node(PoseNode::PlayAnimation(PlayAnimation::new(a)));
    let nb = layer.add_node(PoseNode::PlayAnimation(PlayAnimation::new(b)));
    let [wa, wb] = weights;
    let blend = layer.add_node(PoseNode::BlendAnimations(BlendAnimations::new(vec![
        BlendPose::new(wa, na),
        BlendPose::new(wb, nb),
    ])));
    layer.add_state(State::new("Blend", blend));
    (machine, clips)
}

#[test]
fn balanced_blend_of_identical_poses_is_that_pose() {
    let pose = pose_of(&[(1, 333), (2, -7), (9, i32::MAX / 2), (4, i32::MIN / 2)]);
    let half = WEIGHT_ONE / 2;
    let (mut machine, clips) = blend_rig(
        [PoseWeight::Constant(half), PoseWeight::Constant(half)],
        pose.duplicate(),
        pose.duplicate(),
    );
    let out = machine.evaluate_pose(&clips, 16).duplicate();
    assert_eq!(out.len(), 4);
    for b in [1u32, 2, 9, 4] {
        assert_eq!(out.get(bone(b)), pose.get(bone(b)));
    }
}

#[test]
fn blend_is_the_weighted_mean() {
    let (mut machine, clips) = blend_rig(
        [PoseWeight::Constant(750_000), PoseWeight::Parameter("Aim".to_string())],
        pose_of(&[(1, 400), (2, 40)]),
        pose_of(&[(1, 800)]),
    );
    machine.set_parameter("Aim", Parameter::Weight(250_000));
    let out = machine.evaluate_pose(&clips, 16).duplicate();
    // (0.75 * 400 + 0.25 * 800) / 1.0
    assert_eq!(out.get(bone(1)).unwrap().position_x, 500);
    assert_eq!(out.get(bone(1)).unwrap().position_z, -500);
    // The second input lacks bone 2: 0.75 * 40 / 1.0
    assert_eq!(out.get(bone(2)).unwrap().position_x, 30);
    assert_eq!(out.get(bone(2)).unwrap().rotation_w, 750);
}

#[test]
fn blend_weight_parameter_of_another_kind_counts_as_zero() {
    let (mut machine, clips) = blend_rig(
        [PoseWeight::Constant(10), PoseWeight::Parameter("Aim".to_string())],
        pose_of(&[(1, 400)]),
        pose_of(&[(1, 800)]),
    );
    machine.set_parameter("Aim", Parameter::Rule(true));
    let out = machine.evaluate_pose(&clips, 16).duplicate();
    assert_eq!(out.get(bone(1)), Some(transform(400)));
}

#[test]
fn blend_with_zero_total_weight_is_empty() {
    let (mut machine, clips) = blend_rig(
        [PoseWeight::Constant(0), PoseWeight::Parameter("Missing".to_string())],
        pose_of(&[(1, 400)]),
        pose_of(&[(1, 800)]),
    );
    assert!(machine.evaluate_pose(&clips, 16).is_empty());
}

#[test]
fn blend_rounds_towards_zero() {
    let (mut machine, clips) = blend_rig(
        [PoseWeight::Constant(1), PoseWeight::Constant(2)],
        pose_of(&[(1, 1)]),
        pose_of(&[(1, 0)]),
    );
    let out = machine.evaluate_pose(&clips, 16).duplicate();
    let t = out.get(bone(1)).unwrap();
    // (1 * 1 + 2 * 0) / 3, (1 * 2 + 2 * 0) / 3 and (1 * -1 + 2 * 0) / 3
    assert_eq!(t.position_x, 0);
    assert_eq!(t.position_y, 0);
    assert_eq!(t.position_z, 0);
    assert_eq!(t.rotation_w, 1000);
}

fn index_rig() -> (Machine, AnimationContainer) {
    let mut clips = AnimationContainer::new();
    let mut machine = Machine::new();
    let layer = &mut machine.layers_mut()[0];
    let mut inputs = Vec::new();
    for v in [10, 20, 30] {
        let clip = clips.add(pose_of(&[(1, v)]));
        let node = layer.add_node(PoseNode::PlayAnimation(PlayAnimation::new(clip)));
        inputs.push(IndexedBlendInput::new(node));
    }
    let select = layer.add_node(PoseNode::BlendAnimationsByIndex(BlendAnimationsByIndex::new(
        "Which", inputs,
    )));
    layer.add_state(State::new("Select", select));
    (machine, clips)
}

#[test]
fn blend_by_index_selects_one_input_and_clamps() {
    let (mut machine, clips) = index_rig();
    assert!(machine.evaluate_pose(&clips, 1).is_empty());
    for (index, expected) in [(0, 10), (1, 20), (2, 30), (3, 30), (i32::MAX, 30), (-1, 10), (i32::MIN, 10)] {
        machine.set_parameter("Which", Parameter::Index(index));
        let out = machine.evaluate_pose(&clips, 1).duplicate();
        assert_eq!(out.get(bone(1)), Some(transform(expected)));
    }
    machine.set_parameter("Which", Parameter::Weight(1));
    assert!(machine.evaluate_pose(&clips, 1).is_empty());
}

#[test]
fn masked_bone_is_absent_from_the_final_pose() {
    let mut rig = idle_walk_rig();
    let mut mask = LayerMask::new();
    assert!(mask.should_animate(bone(2)));
    mask.exclude_from_animation(bone(2));
    assert!(!mask.should_animate(bone(2)));
    assert!(mask.should_animate(bone(1)));
    assert!(mask.should_animate(Handle::new(2, 2)));
    assert_eq!(mask.inner().len(), 1);
    let previous = rig.machine.layers_mut()[0].set_mask(mask);
    assert!(previous.into_inner().is_empty());

    let pose = rig.machine.evaluate_pose(&rig.clips, 10).duplicate();
    assert_eq!(pose.get(bone(2)), None);
    assert_eq!(pose.get(bone(1)), Some(transform(0)));

    rig.machine.set_parameter("Go", Parameter::Rule(true));
    rig.machine.evaluate_pose(&rig.clips, 10);
    let pose = rig.machine.evaluate_pose(&rig.clips, 10).duplicate();
    assert_eq!(pose.len(), 1);
    assert_eq!(pose.get(bone(2)), None);
    assert!(!rig.machine.layers()[0].mask().should_animate(bone(2)));
}

#[test]
fn mask_from_a_set_excludes_its_keys() {
    let mut set = fxhash::FxHashSet::default();
    set.insert(bone(5).key());
    let mut mask = LayerMask::from(set);
    assert!(!mask.should_animate(bone(5)));
    assert!(mask.should_animate(bone(6)));
    mask.inner_mut().insert(bone(6).key());
    assert!(!mask.should_animate(bone(6)));
    let whole = pose_of(&[(4, 1), (5, 2), (6, 3), (7, 4)]);
    let pose = mask.apply(&whole);
    assert_eq!(whole.len(), 4);
    assert_eq!(pose.len(), 2);
    assert_eq!(pose.get(bone(4)), Some(transform(1)));
    assert_eq!(pose.get(bone(7)), Some(transform(4)));
    assert_eq!(pose.get(bone(5)), None);
    let mut in_place = whole.duplicate();
    mask.retain_animated(&mut in_place);
    assert_eq!(in_place, pose);
    assert!(mask.animates_key(bone(4).key()));
    assert!(!mask.animates_key(bone(5).key()));
}

#[test]
fn layers_add_up_by_weight() {
    let mut rig = idle_walk_rig();
    let mut upper = MachineLayer::new();
    upper.set_name("Upper");
    assert_eq!(upper.name(), "Upper");
    assert_eq!(upper.weight(), WEIGHT_ONE);
    let clip = rig.clips.add(pose_of(&[(2, 1000), (3, 50)]));
    let node = upper.add_node(PoseNode::PlayAnimation(PlayAnimation::new(clip)));
    upper.add_state(State::new("Aim", node));
    upper.set_weight(WEIGHT_ONE / 2);
    rig.machine.add_layer(upper);
    let pose = rig.machine.evaluate_pose(&rig.clips, 10).duplicate();
    assert_eq!(pose.get(bone(1)), Some(transform(0)));
    // 1.0 * 100 + 0.5 * 1000
    assert_eq!(pose.get(bone(2)).unwrap().position_x, 600);
    assert_eq!(pose.get(bone(2)).unwrap().scale_x, 1500);
    // 0.5 * 50
    assert_eq!(pose.get(bone(3)).unwrap().position_x, 25);
    assert_eq!(pose.len(), 3);
    assert_eq!(rig.machine.pose().len(), 3);
}

#[test]
fn layer_sums_stay_within_range() {
    let mut clips = AnimationContainer::new();
    let clip = clips.add(pose_of(&[(1, i32::MAX / 2)]));
    let mut machine = Machine::new();
    for _ in 0..2 {
        let mut layer = MachineLayer::new();
        let node = layer.add_node(PoseNode::PlayAnimation(PlayAnimation::new(clip)));
        layer.add_state(State::new("S", node));
        layer.set_weight(u64::MAX);
        machine.add_layer(layer);
    }
    let pose = machine.evaluate_pose(&clips, 1).duplicate();
    assert_eq!(pose.get(bone(1)).unwrap().position_x, i32::MAX);
    assert_eq!(pose.get(bone(1)).unwrap().position_z, i32::MIN);
}

#[test]
fn layer_list_operations() {
    let mut machine = Machine::new();
    assert_eq!(machine.layers().len(), 1);
    let mut a = MachineLayer::new();
    a.set_name("a");
    let mut b = MachineLayer::new();
    b.set_name("b");
    machine.add_layer(a);
    machine.insert_layer(0, b);
    assert_eq!(machine.layers()[0].name(), "b");
    assert_eq!(machine.layers()[1].name(), "");
    assert_eq!(machine.layers()[2].name(), "a");
    assert_eq!(machine.remove_layer(1).name(), "");
    assert_eq!(machine.pop_layer().unwrap().name(), "a");
    assert_eq!(machine.pop_layer().unwrap().name(), "b");
    assert!(machine.pop_layer().is_none());
}

#[test]
fn reset_returns_to_the_entry_state() {
    let mut rig = idle_walk_rig();
    rig.machine.set_parameter("Go", Parameter::Rule(true));
    rig.machine.evaluate_pose(&rig.clips, 400);
    let layer = &mut rig.machine.layers_mut()[0];
    assert_eq!(layer.transition(rig.idle_to_walk).elapsed_time(), 400);
    layer.reset();
    assert_eq!(layer.transition(rig.idle_to_walk).elapsed_time(), 0);
    assert_eq!(layer.active_state(), rig.idle);
    assert_eq!(layer.entry_state(), rig.idle);
    assert_eq!(layer.get_state(rig.idle).name(), "Idle");
    assert_eq!(layer.get_transition(rig.idle_to_walk).name(), "Idle->Walk");
    assert_eq!(layer.get_transition(rig.idle_to_walk).rule(), "Go");
    assert_eq!(layer.state(rig.walk).name(), "Walk");
}

#[test]
fn first_state_added_becomes_active() {
    let mut layer = MachineLayer::new();
    let mut clips = AnimationContainer::new();
    let clip = clips.add(Pose::new());
    let node = layer.add_node(PoseNode::PlayAnimation(PlayAnimation::new(clip)));
    assert!(layer.active_state().is_none());
    let first = layer.add_state(State::new("First", node));
    let second = layer.add_state(State::new("Second", node));
    assert_eq!(layer.active_state(), first);
    assert_ne!(first, second);
    assert!(layer.entry_state().is_none());
    assert!(matches!(layer.node(node), PoseNode::PlayAnimation(_)));
    assert_eq!(layer.states().capacity(), 2);
    assert_eq!(layer.nodes().capacity(), 1);
    assert_eq!(layer.transitions().capacity(), 0);
    layer.debug(true);
    assert!(layer.debug);
}

#[test]
fn missing_clip_gives_the_empty_pose() {
    let clips = AnimationContainer::new();
    let mut machine = Machine::new();
    let layer = &mut machine.layers_mut()[0];
    let node = layer.add_node(PoseNode::PlayAnimation(PlayAnimation::new(Handle::new(3, 1))));
    layer.add_state(State::new("S", node));
    assert!(machine.evaluate_pose(&clips, 1).is_empty());
}

#[test]
fn sampled_pose_can_be_replaced_between_frames() {
    let mut rig = idle_walk_rig();
    let clip = match rig.machine.layers()[0].node(rig.machine.layers()[0].state(rig.idle).root()) {
        PoseNode::PlayAnimation(p) => p.animation,
        _ => unreachable!(),
    };
    rig.clips.set_pose(clip, pose_of(&[(1, 42)]));
    let pose = rig.machine.evaluate_pose(&rig.clips, 1).duplicate();
    assert_eq!(pose.len(), 1);
    assert_eq!(pose.get(bone(1)), Some(transform(42)));
    assert_eq!(rig.machine.layers()[0].state(rig.idle).pose().len(), 1);
}

#[test]
fn set_parameter_calls_chain() {
    let mut machine = Machine::new();
    machine
        .set_parameter("Run", Parameter::Rule(true))
        .set_parameter("Jump", Parameter::Rule(false))
        .set_parameter("Run", Parameter::Weight(3));
    assert_eq!(machine.parameters().get("Run"), Some(Parameter::Weight(3)));
    assert_eq!(machine.parameters().get("Jump"), Some(Parameter::Rule(false)));
}

#[test]
fn well_formedness_is_checked_at_run_time() {
    let mut rig = idle_walk_rig();
    assert!(rig.machine.is_wf());
    assert!(rig.clips.is_wf());
    assert!(rig.machine.layers()[0].is_wf());
    rig.machine.set_parameter("Go", Parameter::Rule(true));
    rig.machine.evaluate_pose(&rig.clips, 10);
    assert!(rig.machine.is_wf());

    // A state whose root is gone.
    let mut broken = idle_walk_rig();
    let root = broken.machine.layers()[0].state(broken.walk).root();
    broken.machine.layers_mut()[0].nodes_mut().free(root);
    assert!(!broken.machine.layers()[0].is_wf());
    assert!(!broken.machine.is_wf());

    // A transition whose destination is gone.
    let mut broken = idle_walk_rig();
    broken.machine.layers_mut()[0].states_mut().free(broken.walk);
    assert!(!broken.machine.is_wf());

    // A blend input that names nothing.
    let mut broken = idle_walk_rig();
    let layer = &mut broken.machine.layers_mut()[0];
    let dangling = PoseNode::BlendAnimations(BlendAnimations::new(vec![BlendPose::new(
        PoseWeight::Constant(1),
        Handle::new(77, 1),
    )]));
    assert!(!absm::node::inputs_are_valid(layer.nodes(), &dangling));
    layer.nodes_mut().spawn(dangling);
    assert!(!absm::node::graph_is_valid(layer.nodes()));
    assert!(!layer.is_wf());

    // A transition past its end, and a cursor that names nothing.
    let mut broken = idle_walk_rig();
    broken.machine.layers_mut()[0].transition_mut(broken.idle_to_walk).elapsed_time = 1001;
    assert!(!broken.machine.is_wf());
    let mut broken = idle_walk_rig();
    broken.machine.layers_mut()[0].active_state = Handle::new(9, 9);
    assert!(!broken.machine.is_wf());
}

#[test]
fn clear_transients_keeps_the_configuration_and_empties_the_caches() {
    let mut rig = idle_walk_rig();
    let mut mask = LayerMask::new();
    mask.exclude_from_animation(bone(2));
    rig.machine.layers_mut()[0].set_mask(mask);
    rig.machine.layers_mut()[0].set_weight(123);
    rig.machine.layers_mut()[0].debug(true);
    rig.machine.set_parameter("Go", Parameter::Rule(true));
    rig.machine.evaluate_pose(&rig.clips, 400);
    let before = rig.machine.clone();
    assert_eq!(before, rig.machine);

    rig.machine.clear_transients();

    assert_eq!(rig.machine.parameters(), before.parameters());
    assert!(rig.machine.pose().is_empty());
    let layer = &mut rig.machine.layers_mut()[0];
    let old = &before.layers()[0];
    assert_eq!(layer.nodes(), old.nodes());
    assert_eq!(layer.name(), old.name());
    assert_eq!(layer.weight(), 123);
    assert_eq!(layer.mask(), old.mask());
    assert_eq!(layer.active_state(), old.active_state());
    assert_eq!(layer.active_transition(), rig.idle_to_walk);
    assert_eq!(layer.entry_state(), rig.idle);
    assert_eq!(layer.transition(rig.idle_to_walk).elapsed_time(), 0);
    assert_eq!(layer.transition(rig.idle_to_walk).transition_time(), 1000);
    assert_eq!(layer.state(rig.idle).name(), "Idle");
    assert_eq!(layer.state(rig.idle).root(), old.state(rig.idle).root());
    assert!(layer.state(rig.idle).pose().is_empty());
    assert!(layer.state(rig.walk).pose().is_empty());
    assert!(layer.pose().is_empty());
    assert!(!layer.debug);
    assert_eq!(layer.pop_event(), None);
    assert!(layer.is_wf());

    // Doing it again changes nothing.
    let once = rig.machine.clone();
    rig.machine.clear_transients();
    assert_eq!(once, rig.machine);
}

#[test]
fn walk_of_a_graph_with_a_cycle_ends() {
    let mut clips = AnimationContainer::new();
    let clip = clips.add(pose_of(&[(1, 5)]));
    let mut machine = Machine::new();
    let layer = &mut machine.layers_mut()[0];
    let node = layer.add_node(PoseNode::PlayAnimation(PlayAnimation::new(clip)));
    layer.add_state(State::new("Loop", node));
    *layer.node_mut(node) = PoseNode::BlendAnimationsByIndex(BlendAnimationsByIndex::new(
        "Which",
        vec![IndexedBlendInput::new(node)],
    ));
    assert!(machine.is_wf());
    machine.set_parameter("Which", Parameter::Index(0));
    assert!(machine.evaluate_pose(&clips, 1).is_empty());
}

#[test]
fn node_walk_stops_at_the_given_depth() {
    let (machine, clips) = index_rig();
    let mut params = absm::parameter::ParameterContainer::new();
    params.set("Which", Parameter::Index(1));
    let layer = &machine.layers()[0];
    let root = layer.state(layer.active_state()).root();
    let full = absm::node::evaluate_node(layer.nodes(), root, &params, &clips, 2);
    assert_eq!(full.get(bone(1)), Some(transform(20)));
    let cut = absm::node::evaluate_node(layer.nodes(), root, &params, &clips, 1);
    assert!(cut.is_empty());
    assert!(absm::node::evaluate_node(layer.nodes(), root, &params, &clips, 0).is_empty());
    assert_eq!(absm::node::resolve_weight(&PoseWeight::Constant(7), &params), 7);
    assert_eq!(
        absm::node::resolve_weight(&PoseWeight::Parameter("Which".to_string()), &params),
        0
    );
}

#[test]
fn transition_search_goes_by_slot_order() {
    let rig = idle_walk_rig();
    let layer = &rig.machine.layers()[0];
    let mut params = absm::parameter::ParameterContainer::new();
    let find = |p: &absm::parameter::ParameterContainer, active| {
        absm::layer::find_transition(layer.transitions(), active, p)
    };
    assert!(find(&params, rig.idle).is_none());
    params.set("Go", Parameter::Rule(true));
    assert_eq!(find(&params, rig.idle), rig.idle_to_walk);
    assert!(find(&params, rig.walk).is_none());
    assert!(find(&params, Handle::none()).is_none());
}
