use render_flow::flow::{
    DrawCommand, DrawingNodeBuilder, DrawingNodeOutput, FlowError, GridAction, InputSource, OutputDestination,
    RenderFlowBuilder,
};
use render_flow::grid::{
    AbstractGrid, AbstractGridGroup, AbstractGridID, GridError, GridKind, GridPurpose, Instance, StartOperation,
};
use render_flow::shader::{
    ComponentType, DataType, FragmentShader, FragmentShaderVariable, FragmentShaderVariableType, GraphicsPipeline,
    LinkFailure, PrimitiveTopology, ShaderPair, VertexShader, VertexShaderVariable, VertexShaderVariableType,
};

fn color_grid() -> AbstractGrid {
    AbstractGrid { kind: GridKind::Color, start_operation: StartOperation::Clear, purpose: GridPurpose::Display }
}

fn pipeline(outputs: &[&str]) -> GraphicsPipeline {
    GraphicsPipeline { outputs: outputs.iter().map(|s| s.to_string()).collect(), topology: PrimitiveTopology::Triangles }
}

fn out(destination: OutputDestination, name: &str) -> DrawingNodeOutput {
    DrawingNodeOutput { destination, shader_variable_name: name.to_string() }
}

fn node(inputs: Vec<InputSource>, outputs: Vec<DrawingNodeOutput>) -> DrawingNodeBuilder {
    DrawingNodeBuilder { pipeline: pipeline(&["outputColor"]), sequential: false, inputs, outputs }
}

fn pass(outputs: Vec<DrawingNodeOutput>) -> DrawingNodeBuilder {
    DrawingNodeBuilder { pipeline: pipeline(&["outputColor"]), sequential: true, inputs: vec![], outputs }
}

fn group_with(n: usize) -> (AbstractGridGroup, Vec<AbstractGridID>) {
    let mut group = Instance::new().create_abstract_grid_group();
    let ids = (0..n).map(|_| group.register(color_grid())).collect();
    (group, ids)
}

fn vertex(vars: Vec<(&str, DataType, VertexShaderVariableType)>) -> VertexShader {
    VertexShader {
        name: "v".to_string(),
        main_method: String::new(),
        extra: String::new(),
        variables: vars
            .into_iter()
            .map(|(n, data_type, kind)| VertexShaderVariable { name: n.to_string(), data_type, kind })
            .collect(),
        uniforms: vec![],
    }
}

fn fragment(vars: Vec<(&str, DataType, FragmentShaderVariableType)>) -> FragmentShader {
    FragmentShader {
        name: "f".to_string(),
        main_method: String::new(),
        extra: String::new(),
        variables: vars
            .into_iter()
            .map(|(n, data_type, kind)| FragmentShaderVariable { name: n.to_string(), data_type, kind })
            .collect(),
        uniforms: vec![],
    }
}

#[test]
fn registry_assigns_indices_and_rejects_foreign_ids() {
    let mut instance = Instance::new();
    let _first = instance.create_abstract_grid_group();
    let mut group = instance.create_abstract_grid_group();
    assert_eq!(group.tag(), 1);
    let a = group.register(color_grid());
    let b = group.register(AbstractGrid {
        kind: GridKind::DepthStencil,
        start_operation: StartOperation::Load,
        purpose: GridPurpose::Nothing,
    });
    assert_eq!(a, AbstractGridID { group: 1, index: 0 });
    assert_eq!(b, AbstractGridID { group: 1, index: 1 });
    assert_eq!(group.resolve(a), Ok(color_grid()));
    let foreign = AbstractGridID { group: 4, index: 0 };
    assert_eq!(group.resolve(foreign), Err(GridError::UnknownGridID(foreign)));
    let beyond = AbstractGridID { group: 1, index: 2 };
    assert_eq!(group.resolve(beyond), Err(GridError::UnknownGridID(beyond)));
}

#[test]
fn link_matching_vec2_succeeds() {
    let v = vertex(vec![(
        "passPosition",
        DataType::new(ComponentType::Float, 2),
        VertexShaderVariableType::SmoothFragmentOutput,
    )]);
    let f = fragment(vec![(
        "passPosition",
        DataType::new(ComponentType::Float, 2),
        FragmentShaderVariableType::SmoothVertexInput,
    )]);
    assert!(ShaderPair::link_by_attribute_names(v, f).is_ok());
}

#[test]
fn link_vec4_against_vec2_names_variable() {
    let v = vertex(vec![(
        "passPosition",
        DataType::new(ComponentType::Float, 2),
        VertexShaderVariableType::SmoothFragmentOutput,
    )]);
    let f = fragment(vec![(
        "passPosition",
        DataType::new(ComponentType::Float, 4),
        FragmentShaderVariableType::SmoothVertexInput,
    )]);
    let e = ShaderPair::link_by_attribute_names(v, f).err().unwrap();
    assert_eq!(e.variable, "passPosition");
    assert_eq!(e.reason, LinkFailure::TypeMismatch);
}

#[test]
fn link_missing_output_is_case_sensitive() {
    let v = vertex(vec![(
        "passposition",
        DataType::new(ComponentType::Float, 2),
        VertexShaderVariableType::SmoothFragmentOutput,
    )]);
    let f = fragment(vec![
        ("outputColor", DataType::new(ComponentType::Float, 4), FragmentShaderVariableType::ColorOutput),
        ("passPosition", DataType::new(ComponentType::Float, 2), FragmentShaderVariableType::SmoothVertexInput),
    ]);
    let e = ShaderPair::link_by_attribute_names(v, f).err().unwrap();
    assert_eq!(e.variable, "passPosition");
    assert_eq!(e.reason, LinkFailure::MissingOutput);
}

#[test]
fn link_ignores_vertex_inputs_and_order() {
    let v = vertex(vec![
        ("b", DataType::new(ComponentType::Int, 1), VertexShaderVariableType::SmoothFragmentOutput),
        ("a", DataType::new(ComponentType::Float, 3), VertexShaderVariableType::VertexInput),
        ("a", DataType::new(ComponentType::Float, 3), VertexShaderVariableType::SmoothFragmentOutput),
    ]);
    let f = fragment(vec![
        ("a", DataType::new(ComponentType::Float, 3), FragmentShaderVariableType::SmoothVertexInput),
        ("b", DataType::new(ComponentType::Int, 1), FragmentShaderVariableType::SmoothVertexInput),
    ]);
    assert!(ShaderPair::link_by_attribute_names(v, f).is_ok());
}

#[test]
fn pipeline_binds_fragment_targets_only() {
    let v = vertex(vec![]);
    let f = fragment(vec![
        ("outputColor", DataType::new(ComponentType::Float, 4), FragmentShaderVariableType::ColorOutput),
        ("depth", DataType::new(ComponentType::Float, 1), FragmentShaderVariableType::DepthStencilOutput),
    ]);
    let pair = ShaderPair::link_by_attribute_names(v, f).ok().unwrap();
    let (group, _) = group_with(0);
    let p = group.create_graphics_pipeline(&pair, PrimitiveTopology::Lines);
    assert_eq!(p.outputs, vec!["outputColor".to_string(), "depth".to_string()]);
    assert_eq!(p.topology, PrimitiveTopology::Lines);
}

#[test]
fn producers_come_first_and_ties_keep_insertion_order() {
    let (group, ids) = group_with(2);
    let mut b = RenderFlowBuilder::new();
    b.add_grid_node(ids[0]);
    b.add_grid_node(ids[1]);
    // node 2 reads node 4; node 3 is independent; node 4 writes grid 1 read by nothing
    b.add_drawing_node(node(vec![InputSource::NodeOutput(4)], vec![out(OutputDestination::External(ids[0]), "outputColor")]));
    b.add_drawing_node(node(vec![], vec![]));
    b.add_drawing_node(node(vec![], vec![out(OutputDestination::External(ids[1]), "outputColor")]));
    let flow = group.create_render_flow(b).ok().unwrap();
    assert_eq!(flow.order(), &vec![3, 4, 2]);
}

#[test]
fn shared_grid_orders_writer_before_reader() {
    let (group, ids) = group_with(1);
    let mut b = RenderFlowBuilder::new();
    b.add_grid_node(ids[0]);
    b.add_drawing_node(node(vec![InputSource::External(ids[0])], vec![]));
    b.add_drawing_node(node(vec![], vec![out(OutputDestination::External(ids[0]), "outputColor")]));
    let flow = group.create_render_flow(b).ok().unwrap();
    assert_eq!(flow.order(), &vec![2, 1]);
}

#[test]
fn node_input_destination_orders_sender_first() {
    let (group, _) = group_with(0);
    let mut b = RenderFlowBuilder::new();
    b.add_drawing_node(node(vec![], vec![]));
    b.add_drawing_node(node(vec![], vec![out(OutputDestination::NodeInput(0), "outputColor")]));
    let flow = group.create_render_flow(b).ok().unwrap();
    assert_eq!(flow.order(), &vec![1, 0]);
}

#[test]
fn resolving_twice_gives_same_order() {
    let (group, ids) = group_with(1);
    let build = || {
        let mut b = RenderFlowBuilder::new();
        b.add_grid_node(ids[0]);
        b.add_drawing_node(node(vec![InputSource::NodeOutput(3)], vec![]));
        b.add_drawing_node(node(vec![], vec![]));
        b.add_drawing_node(node(vec![], vec![out(OutputDestination::External(ids[0]), "outputColor")]));
        b
    };
    let first = group.create_render_flow(build()).ok().unwrap();
    let second = group.create_render_flow(build()).ok().unwrap();
    assert_eq!(first.order(), second.order());
    assert_eq!(first.order(), &vec![2, 3, 1]);
}

#[test]
fn mutual_consumers_are_cyclic() {
    let (group, _) = group_with(0);
    let mut b = RenderFlowBuilder::new();
    b.add_drawing_node(node(vec![InputSource::NodeOutput(1)], vec![]));
    b.add_drawing_node(node(vec![InputSource::NodeOutput(0)], vec![]));
    assert_eq!(group.create_render_flow(b).err(), Some(FlowError::CyclicRenderGraph));
}

#[test]
fn cycle_is_reported_before_other_errors() {
    let (group, _) = group_with(0);
    let stray = AbstractGridID { group: 9, index: 9 };
    let mut b = RenderFlowBuilder::new();
    b.add_drawing_node(node(vec![InputSource::NodeOutput(1)], vec![out(OutputDestination::External(stray), "nope")]));
    b.add_drawing_node(node(vec![InputSource::NodeOutput(0)], vec![]));
    assert_eq!(group.create_render_flow(b).err(), Some(FlowError::CyclicRenderGraph));
}

#[test]
fn output_to_unregistered_grid_fails() {
    let (group, ids) = group_with(2);
    let mut b = RenderFlowBuilder::new();
    b.add_grid_node(ids[0]);
    b.add_drawing_node(node(vec![], vec![out(OutputDestination::External(ids[1]), "outputColor")]));
    assert_eq!(group.create_render_flow(b).err(), Some(FlowError::UnregisteredGrid(ids[1])));
}

#[test]
fn input_from_unregistered_grid_fails() {
    let (group, ids) = group_with(1);
    let mut b = RenderFlowBuilder::new();
    b.add_drawing_node(node(vec![InputSource::External(ids[0])], vec![]));
    assert_eq!(group.create_render_flow(b).err(), Some(FlowError::UnregisteredGrid(ids[0])));
}

#[test]
fn grid_node_outside_group_fails() {
    let (group, _) = group_with(1);
    let foreign = AbstractGridID { group: 8, index: 0 };
    let mut b = RenderFlowBuilder::new();
    b.add_grid_node(foreign);
    assert_eq!(group.create_render_flow(b).err(), Some(FlowError::UnknownGridID(foreign)));
}

#[test]
fn reference_to_missing_node_fails() {
    let (group, ids) = group_with(1);
    let mut b = RenderFlowBuilder::new();
    b.add_grid_node(ids[0]);
    b.add_drawing_node(node(vec![InputSource::NodeOutput(0)], vec![]));
    assert_eq!(group.create_render_flow(b).err(), Some(FlowError::UnknownNode(0)));
    let mut c = RenderFlowBuilder::new();
    c.add_drawing_node(node(vec![], vec![out(OutputDestination::NodeInput(5), "outputColor")]));
    assert_eq!(group.create_render_flow(c).err(), Some(FlowError::UnknownNode(5)));
}

#[test]
fn unknown_shader_output_fails() {
    let (group, ids) = group_with(1);
    let mut b = RenderFlowBuilder::new();
    b.add_grid_node(ids[0]);
    b.add_drawing_node(node(vec![], vec![
        out(OutputDestination::External(ids[0]), "outputColor"),
        out(OutputDestination::External(ids[0]), "outputcolor"),
    ]));
    assert_eq!(
        group.create_render_flow(b).err(),
        Some(FlowError::UnboundShaderOutput { node: 1, output: 1 })
    );
}

#[test]
fn two_writers_of_one_grid_conflict() {
    let (group, ids) = group_with(1);
    let mut b = RenderFlowBuilder::new();
    b.add_grid_node(ids[0]);
    b.add_drawing_node(node(vec![], vec![out(OutputDestination::External(ids[0]), "outputColor")]));
    b.add_drawing_node(node(vec![], vec![out(OutputDestination::External(ids[0]), "outputColor")]));
    assert_eq!(group.create_render_flow(b).err(), Some(FlowError::ConflictingGridWrite(ids[0])));
}

#[test]
fn empty_builder_resolves_to_empty_flow() {
    let (group, _) = group_with(0);
    let b = group.create_render_flow_builder();
    let flow = group.create_render_flow(b).ok().unwrap();
    assert!(flow.order().is_empty());
    assert!(flow.actions().is_empty());
    assert_eq!(flow.execute(&vec![]), Ok(vec![]));
}

#[test]
fn execute_without_binding_fails() {
    let (group, ids) = group_with(2);
    let mut b = RenderFlowBuilder::new();
    b.add_grid_node(ids[0]);
    b.add_grid_node(ids[1]);
    b.add_drawing_node(node(vec![], vec![out(OutputDestination::External(ids[0]), "outputColor")]));
    let flow = group.create_render_flow(b).ok().unwrap();
    assert_eq!(flow.execute(&vec![ids[0]]), Err(FlowError::MissingGridBinding(ids[1])));
    assert_eq!(flow.execute(&vec![]), Err(FlowError::MissingGridBinding(ids[0])));
}

#[test]
fn end_to_end_single_pass() {
    let mut group = Instance::new().create_abstract_grid_group();
    let color = group.register(color_grid());
    let mut b = group.create_render_flow_builder();
    b.add_grid_node(color);
    let id = b.add_drawing_node(node(vec![], vec![out(OutputDestination::External(color), "outputColor")]));
    let flow = group.create_render_flow(b).ok().unwrap();
    assert_eq!(flow.order(), &vec![id]);
    assert_eq!(flow.actions(), &vec![GridAction { grid: color, start: StartOperation::Clear, store: true }]);
    let concrete = group.create_concrete(800, 500);
    let cmds = flow.execute(&concrete.grids).ok().unwrap();
    assert_eq!(cmds, vec![DrawCommand { node: id }]);
}

#[test]
fn sequential_passes_share_a_grid_in_insertion_order() {
    let (group, ids) = group_with(1);
    let mut b = RenderFlowBuilder::new();
    b.add_grid_node(ids[0]);
    b.add_drawing_node(node(vec![InputSource::External(ids[0])], vec![]));
    b.add_drawing_node(pass(vec![out(OutputDestination::External(ids[0]), "outputColor")]));
    b.add_drawing_node(pass(vec![out(OutputDestination::External(ids[0]), "outputColor")]));
    let flow = group.create_render_flow(b).ok().unwrap();
    assert_eq!(flow.order(), &vec![2, 3, 1]);
}

#[test]
fn sequential_pass_beside_plain_writer_conflicts() {
    let (group, ids) = group_with(1);
    let mut b = RenderFlowBuilder::new();
    b.add_grid_node(ids[0]);
    b.add_drawing_node(pass(vec![out(OutputDestination::External(ids[0]), "outputColor")]));
    b.add_drawing_node(node(vec![], vec![out(OutputDestination::External(ids[0]), "outputColor")]));
    assert_eq!(group.create_render_flow(b).err(), Some(FlowError::ConflictingGridWrite(ids[0])));
}

#[test]
fn groups_of_one_instance_reject_each_others_ids() {
    let mut instance = Instance::new();
    let mut first = instance.create_abstract_grid_group();
    let mut second = instance.create_abstract_grid_group();
    let a = first.register(color_grid());
    let b = second.register(color_grid());
    assert_eq!(second.resolve(a), Err(GridError::UnknownGridID(a)));
    assert_eq!(first.resolve(b), Err(GridError::UnknownGridID(b)));
    assert_eq!(first.resolve(a), Ok(color_grid()));
}
