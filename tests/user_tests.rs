use render_flow::flow::{FlowError, FlowNode, GridAction, OutputDestination};
use render_flow::grid::{AbstractGridID, GridError, GridPurpose, Instance, StartOperation};
use render_flow::shader::{PrimitiveTopology, ShaderPair};
use render_flow::user::{
    build_scene, create_abstract_grid_group, create_fragment_shader, create_render_flow, create_shader_pair,
    create_vertex_shader,
};

#[test]
fn example_group_has_color_and_depth_stencil() {
    let mut instance = Instance::new();
    let (group, color, depth) = create_abstract_grid_group(&mut instance);
    assert_eq!(group.len(), 2);
    assert_eq!(color, AbstractGridID { group: 0, index: 0 });
    assert_eq!(depth, AbstractGridID { group: 0, index: 1 });
    assert_eq!(group.resolve(color).unwrap().purpose, GridPurpose::Display);
    assert_eq!(group.resolve(depth).unwrap().purpose, GridPurpose::Nothing);
}

#[test]
fn example_ids_do_not_resolve_in_another_group() {
    let mut instance = Instance::new();
    let (_group, color, _depth) = create_abstract_grid_group(&mut instance);
    let (other, _, _) = create_abstract_grid_group(&mut instance);
    assert_eq!(other.tag(), 1);
    let mut single = instance.create_abstract_grid_group();
    single.register(other.resolve(AbstractGridID { group: 1, index: 0 }).unwrap());
    assert_eq!(single.resolve(color), Err(GridError::UnknownGridID(color)));
}

#[test]
fn example_shaders_link() {
    let vertex = create_vertex_shader();
    assert_eq!(vertex.name, "TheVertexShader");
    assert_eq!(vertex.extra, "");
    assert!(vertex.main_method.contains("gl_Position = vec4(position, 0.0, 1.0);"));
    let fragment = create_fragment_shader();
    assert_eq!(fragment.name, "TheFragmentShader");
    assert!(ShaderPair::link_by_attribute_names(vertex, fragment).is_ok());
    let pair = create_shader_pair().ok().unwrap();
    assert_eq!(pair.vertex().variables[1].name, "passPosition");
    assert_eq!(pair.fragment().variables[1].name, "outputColor");
}

#[test]
fn example_flow_draws_once() {
    let mut instance = Instance::new();
    let (group, concrete, flow) = build_scene(&mut instance);
    assert_eq!(group.tag(), 0);
    assert_eq!((concrete.width, concrete.height), (800, 500));
    let flow = flow.ok().unwrap();
    assert_eq!(flow.order(), &vec![2]);
    assert_eq!(
        flow.actions(),
        &vec![
            GridAction { grid: AbstractGridID { group: 0, index: 0 }, start: StartOperation::Clear, store: true },
            GridAction { grid: AbstractGridID { group: 0, index: 1 }, start: StartOperation::Clear, store: false },
        ]
    );
    let cmds = flow.execute(&concrete.grids).ok().unwrap();
    assert_eq!(cmds.len(), 1);
    match &flow.nodes()[cmds[0].node] {
        FlowNode::Drawing(d) => {
            assert_eq!(d.outputs.len(), 1);
            assert_eq!(d.outputs[0].destination, OutputDestination::External(AbstractGridID { group: 0, index: 0 }));
            assert_eq!(d.outputs[0].shader_variable_name, "outputColor");
        },
        FlowNode::Grid(_) => panic!("a draw command names a grid node"),
    }
}

#[test]
fn example_flow_needs_output_color() {
    let mut instance = Instance::new();
    let (group, color, depth) = create_abstract_grid_group(&mut instance);
    let pair = create_shader_pair().ok().unwrap();
    let pipeline = group.create_graphics_pipeline(&pair, PrimitiveTopology::Triangles);
    assert!(create_render_flow(&group, &pipeline, color, depth).is_ok());
    let mut bare = pipeline.duplicate();
    bare.outputs.clear();
    assert_eq!(
        create_render_flow(&group, &bare, color, depth).err(),
        Some(FlowError::UnboundShaderOutput { node: 2, output: 0 })
    );
    let foreign = AbstractGridID { group: 9, index: 0 };
    assert_eq!(
        create_render_flow(&group, &pipeline, foreign, depth).err(),
        Some(FlowError::UnknownGridID(foreign))
    );
}
