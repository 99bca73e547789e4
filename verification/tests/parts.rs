use absm::dependency::{DependencyViewer, MessageData, UiMessage, ViewerAction};
use absm::event::{Event, LimitedEventQueue};
use absm::parameter::{Parameter, ParameterContainer};
use absm::pool::{Handle, Pool};
use absm::pose::{accumulate, normalize, Pose, PoseSum, Transform, TransformSum};
use absm::terrain::{
    AddTerrainLayerCommand, DeleteTerrainLayerCommand, Layer, Terrain, TextureResource,
};
use absm::transition::Transition;
use absm::machine::Machine;

#[test]
fn parameter_set_replaces_and_add_keeps() {
    let mut params = ParameterContainer::new();
    assert_eq!(params.get("Run"), None);
    params.add("Run", Parameter::Rule(true));
    assert_eq!(params.get("Run"), Some(Parameter::Rule(true)));
    params.add("Run", Parameter::Rule(false));
    assert_eq!(params.get("Run"), Some(Parameter::Rule(true)));
    params.set("Run", Parameter::Index(3));
    assert_eq!(params.get("Run"), Some(Parameter::Index(3)));
    params.set("Speed", Parameter::Weight(5));
    assert_eq!(params.get("Speed"), Some(Parameter::Weight(5)));
    assert_eq!(params.get("Run"), Some(Parameter::Index(3)));
    assert_eq!(params.get("run"), None);
    assert_eq!(params.entries.len(), 2);
}

#[test]
fn parameter_readers_fail_soft_on_another_kind() {
    let mut params = ParameterContainer::new();
    params.set("R", Parameter::Rule(true));
    params.set("W", Parameter::Weight(9));
    params.set("I", Parameter::Index(-4));
    assert!(params.rule("R"));
    assert!(!params.rule("W"));
    assert!(!params.rule("Missing"));
    assert_eq!(params.weight("W"), 9);
    assert_eq!(params.weight("R"), 0);
    assert_eq!(params.weight("Missing"), 0);
    assert_eq!(params.index("I"), Some(-4));
    assert_eq!(params.index("W"), None);
    assert_eq!(params.index("Missing"), None);
}

#[test]
fn parameter_get_mut_changes_in_place() {
    let mut params = ParameterContainer::new();
    assert!(params.get_mut("A").is_none());
    params.set("A", Parameter::Rule(false));
    params.set("B", Parameter::Rule(false));
    *params.get_mut("A").unwrap() = Parameter::Weight(3);
    assert_eq!(params.get("A"), Some(Parameter::Weight(3)));
    assert_eq!(params.get("B"), Some(Parameter::Rule(false)));
}

#[test]
fn machine_parameters_are_shared_and_upserted() {
    let mut machine = Machine::new();
    machine.set_parameter("Run", Parameter::Rule(true));
    machine.set_parameter("Jump", Parameter::Rule(false));
    machine.set_parameter("Run", Parameter::Rule(false));
    assert_eq!(machine.parameters().get("Run"), Some(Parameter::Rule(false)));
    assert_eq!(machine.parameters().get("Jump"), Some(Parameter::Rule(false)));
    machine.parameters_mut().set("Jump", Parameter::Rule(true));
    assert_eq!(machine.parameters().get("Jump"), Some(Parameter::Rule(true)));
}

#[test]
fn pool_handles_are_generational() {
    let mut pool: Pool<u32> = Pool::new();
    let a = pool.spawn(10);
    let b = pool.spawn(20);
    assert_eq!((a.index(), a.generation()), (0, 1));
    assert_eq!((b.index(), b.generation()), (1, 1));
    assert!(pool.is_valid_handle(a));
    assert_eq!(pool.free(a), Some(10));
    assert!(!pool.is_valid_handle(a));
    assert_eq!(pool.free(a), None);
    assert_eq!(*pool.borrow(b), 20);
    assert_eq!(pool.try_borrow(a), None);
    let c = pool.spawn(30);
    assert_eq!((c.index(), c.generation()), (0, 2));
    assert!(!pool.is_valid_handle(a));
    assert_eq!(pool.try_borrow(c), Some(&30));
    assert_eq!(pool.replace(c, 31), 30);
    *pool.borrow_mut(b) += 1;
    assert_eq!(*pool.borrow(b), 21);
    assert_eq!(*pool.borrow(c), 31);
    assert_eq!(pool.capacity(), 2);
    assert_eq!(pool.handle_from_index(0), c);
    assert!(pool.handle_from_index(5).is_none());
    assert!(!pool.is_valid_handle(Handle::none()));
}

#[test]
fn handle_keys_tell_handles_apart() {
    assert_eq!(Handle::new(1, 2).key(), (1u64 << 32) + 2);
    assert_eq!(Handle::from_key((1u64 << 32) + 2), Handle::new(1, 2));
    assert_eq!(Handle::from_key(u64::MAX), Handle::new(u32::MAX, u32::MAX));
    assert_eq!(Handle::from_key(0), Handle::none());
    assert_eq!(Handle::new(u32::MAX, u32::MAX).key(), u64::MAX);
    assert_ne!(Handle::new(1, 2).key(), Handle::new(2, 1).key());
    assert!(Handle::none().is_none());
    assert!(Handle::new(0, 1).is_some());
}

#[test]
fn event_queue_drops_the_oldest_when_full() {
    let mut queue = LimitedEventQueue::new(2);
    let h = |i| Handle::new(i, 1);
    queue.push(Event::StateEnter(h(1)));
    queue.push(Event::StateEnter(h(2)));
    queue.push(Event::StateEnter(h(3)));
    assert_eq!(queue.len(), 2);
    assert_eq!(queue.limit(), 2);
    assert_eq!(queue.pop(), Some(Event::StateEnter(h(2))));
    assert_eq!(queue.pop(), Some(Event::StateEnter(h(3))));
    assert_eq!(queue.pop(), None);
    let mut none = LimitedEventQueue::new(0);
    none.push(Event::StateLeave(h(1)));
    assert_eq!(none.pop(), None);
}

#[test]
fn transition_progress_and_weights() {
    let a = Handle::new(0, 1);
    let b = Handle::new(1, 1);
    let mut t = Transition::new("t", a, b, 300, "Rule");
    assert_eq!(t.blend_factor(), 0);
    assert!(!t.is_done());
    assert!(!t.is_invert_rule());
    t.update(100);
    assert_eq!(t.elapsed_time(), 100);
    assert_eq!(t.blend_factor(), 333_333);
    assert_eq!((t.source_weight_value(), t.dest_weight_value(), t.blend_divisor_value()), (200, 100, 300));
    t.update(u64::MAX);
    assert_eq!(t.elapsed_time(), 300);
    assert!(t.is_done());
    assert_eq!(t.blend_factor(), 1_000_000);
    t.reset();
    assert_eq!(t.elapsed_time(), 0);
    assert_eq!((t.source(), t.dest(), t.transition_time()), (a, b, 300));
    let instant = Transition::new("now", a, b, 0, "Rule");
    assert!(instant.is_done());
    assert_eq!((instant.source_weight_value(), instant.dest_weight_value(), instant.blend_divisor_value()), (0, 1, 1));
}

#[test]
fn channel_arithmetic_saturates_and_rounds_towards_zero() {
    assert_eq!(accumulate(5, 3, -4), -7);
    assert_eq!(accumulate(i128::MAX, 1, 1), i128::MAX);
    assert_eq!(accumulate(i128::MIN, 1, -1), i128::MIN);
    assert_eq!(accumulate(0, u64::MAX, i32::MIN), -(u64::MAX as i128) * (1i128 << 31));
    assert_eq!(normalize(7, 2), 3);
    assert_eq!(normalize(-7, 2), -3);
    assert_eq!(normalize(i128::MAX, 1), i32::MAX);
    assert_eq!(normalize(i128::MIN, 1), i32::MIN);
    assert_eq!(normalize(i128::MIN, u64::MAX), i32::MIN);
    assert_eq!(normalize(-(1i128 << 31), 1), i32::MIN);
    assert_eq!(normalize((1i128 << 31) - 1, 1), i32::MAX);
    assert_eq!(normalize(0, 9), 0);
}

#[test]
fn pose_sum_adds_weighted_poses_bone_by_bone() {
    let t = |v: i32| Transform {
        position_x: v,
        position_y: 0,
        position_z: 0,
        rotation_x: 0,
        rotation_y: 0,
        rotation_z: 0,
        rotation_w: 0,
        scale_x: 0,
        scale_y: 0,
        scale_z: 0,
    };
    let mut a = Pose::new();
    a.insert(Handle::new(1, 1), t(10));
    a.insert(Handle::new(2, 1), t(20));
    a.insert(Handle::new(1, 1), t(11));
    assert_eq!(a.len(), 2);
    assert_eq!(a.get(Handle::new(1, 1)), Some(t(11)));
    let mut listed = a.entries();
    listed.sort_by_key(|e| e.0.key());
    assert_eq!(listed, vec![(Handle::new(1, 1), t(11)), (Handle::new(2, 1), t(20))]);
    assert!(!a.is_empty());
    assert!(Pose::new().is_empty());
    assert_eq!(Pose::new().len(), 0);
    assert_eq!(a.duplicate(), a);
    let mut b = Pose::new();
    b.insert(Handle::new(2, 1), t(-5));
    b.insert(Handle::new(3, 1), t(7));
    let mut sum = PoseSum::new();
    sum.add_pose(&a, 2);
    sum.add_pose(&b, 3);
    assert_eq!(sum.get(Handle::new(1, 1)).unwrap().position_x, 22);
    assert_eq!(sum.get(Handle::new(2, 1)).unwrap().position_x, 25);
    assert_eq!(sum.get(Handle::new(3, 1)).unwrap().position_x, 21);
    let pose = sum.normalized(5);
    assert_eq!(pose.get(Handle::new(1, 1)), Some(t(4)));
    assert_eq!(pose.get(Handle::new(2, 1)), Some(t(5)));
    assert_eq!(pose.get(Handle::new(3, 1)), Some(t(4)));
    assert_eq!(TransformSum::zero().add_weighted(&t(3), 4).normalized(2), t(6));
}

fn layer(material: u64) -> Layer {
    Layer { material, mask_property_name: "maskTexture".to_string() }
}

#[test]
fn add_terrain_layer_command_does_and_undoes() {
    let mut terrain = Terrain::new();
    terrain.add_layer(layer(1), vec![TextureResource { id: 10 }]);
    let mut command = AddTerrainLayerCommand::new(Handle::new(4, 1), layer(2));
    assert_eq!(command.name(), "Add Terrain Layer");
    assert_eq!(command.terrain, Handle::new(4, 1));
    command.execute(&mut terrain);
    assert_eq!(terrain.layers.len(), 2);
    assert_eq!(terrain.layers[1].layer.material, 2);
    assert!(terrain.layers[1].masks.is_empty());
    assert!(command.layer.is_none());
    terrain.layers[1].masks.push(TextureResource { id: 20 });
    command.revert(&mut terrain);
    assert_eq!(terrain.layers.len(), 1);
    assert_eq!(command.layer.as_ref().unwrap().material, 2);
    assert_eq!(command.masks, vec![TextureResource { id: 20 }]);
    command.execute(&mut terrain);
    assert_eq!(terrain.layers[1].masks, vec![TextureResource { id: 20 }]);
}

#[test]
fn delete_terrain_layer_command_does_and_undoes() {
    let mut terrain = Terrain::new();
    for m in 1..=3u64 {
        terrain.add_layer(layer(m), vec![TextureResource { id: m * 10 }]);
    }
    let mut command = DeleteTerrainLayerCommand::new(Handle::new(4, 1), 1);
    assert_eq!(command.name(), "Delete Terrain Layer");
    assert!(command.layer.is_none());
    command.execute(&mut terrain);
    assert_eq!(terrain.layers.len(), 2);
    assert_eq!(terrain.layers[0].layer.material, 1);
    assert_eq!(terrain.layers[1].layer.material, 3);
    assert_eq!(command.layer.as_ref().unwrap().material, 2);
    assert_eq!(command.masks, vec![TextureResource { id: 20 }]);
    command.revert(&mut terrain);
    assert_eq!(terrain.layers.len(), 3);
    assert_eq!(terrain.layers[1].layer.material, 2);
    assert_eq!(terrain.layers[1].masks, vec![TextureResource { id: 20 }]);
    assert_eq!(terrain.layers[2].layer.material, 3);
    assert!(command.layer.is_none());
    let top = terrain.pop_layer().unwrap();
    assert_eq!(top.layer.material, 3);
    assert_eq!(terrain.remove_layer(0).layer.material, 1);
    terrain.insert_layer(layer(9), Vec::new(), 0);
    assert_eq!(terrain.layers[0].layer.material, 9);
}

#[test]
fn dependency_viewer_decides_what_the_host_does() {
    let h = |i| Handle::new(i, 1);
    let mut viewer = DependencyViewer::new(h(1), h(2), h(3), h(4));
    let click = |destination| UiMessage { destination, data: MessageData::ButtonClick };
    assert_eq!(viewer.handle_ui_message(&click(h(4))), ViewerAction::Nothing);
    assert_eq!(
        viewer.open("model.fbx\n  texture.png".to_string()),
        ViewerAction::OpenWindow { window: h(1), tree_root: h(2) }
    );
    assert_eq!(
        viewer.handle_ui_message(&click(h(4))),
        ViewerAction::CopyToClipboard("model.fbx\n  texture.png".to_string())
    );
    assert_eq!(viewer.handle_ui_message(&click(h(9))), ViewerAction::Nothing);
    assert_eq!(
        viewer.handle_ui_message(&UiMessage { destination: h(3), data: MessageData::Other }),
        ViewerAction::Nothing
    );
    assert!(viewer.resource_graph.is_some());
    assert_eq!(viewer.handle_ui_message(&click(h(3))), ViewerAction::CloseWindow(h(1)));
    assert!(viewer.resource_graph.is_some());
    assert_eq!(
        viewer.handle_ui_message(&UiMessage { destination: h(7), data: MessageData::WindowClose }),
        ViewerAction::Nothing
    );
    assert_eq!(viewer.resource_graph, None);
    assert_eq!(viewer.handle_ui_message(&click(h(4))), ViewerAction::Nothing);
}

#[test]
fn default_machine_has_no_layers() {
    let mut machine = Machine::default();
    assert!(machine.layers().is_empty());
    assert!(machine.is_wf());
    let clips = absm::node::AnimationContainer::new();
    assert!(machine.evaluate_pose(&clips, 5).is_empty());
    let mask = absm::mask::LayerMask::default();
    assert!(mask.should_animate(Handle::new(1, 1)));
    assert!(mask.inner().is_empty());
    assert_eq!(mask.clone(), mask);
}

#[test]
fn brush_commands_skip_their_first_execute() {
    let terrain = Handle::new(4, 1);
    let mut height = absm::terrain::ModifyTerrainHeightCommand::new(terrain);
    assert_eq!(height.name(), "Modify Terrain Height");
    assert!(!height.execute());
    assert!(!height.skip_first_execute);
    assert!(height.revert());
    assert!(height.execute());
    assert!(height.execute());
    assert_eq!(height.terrain, terrain);

    let mut holes = absm::terrain::ModifyTerrainHolesCommand::new(terrain);
    assert_eq!(holes.name(), "Modify Terrain Holes");
    assert!(holes.revert());
    assert!(holes.skip_first_execute);
    assert!(!holes.execute());
    assert!(holes.execute());

    let mut mask = absm::terrain::ModifyTerrainLayerMaskCommand::new(terrain, 3);
    assert_eq!(mask.name(), "Modify Terrain Layer Mask");
    assert_eq!(mask.layer, 3);
    assert!(!mask.execute());
    assert!(mask.revert());
    assert!(mask.execute());
    assert_eq!(mask.layer, 3);
}

#[test]
fn material_texture_binding_defaults_to_no_texture() {
    let binding = absm::material::MaterialTextureBinding::default();
    assert_eq!(binding.value, None);
    let bound = absm::material::MaterialTextureBinding { value: Some(TextureResource { id: 7 }) };
    assert_eq!(bound.clone().value, Some(TextureResource { id: 7 }));
    assert_ne!(bound, binding);
}
