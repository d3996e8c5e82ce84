use vstd::prelude::*;
use crate::flow::{
    action_for, conflict, error_present, grid_nodes, has_topo_order, is_drawing, lemma_resolution_deterministic,
    node_has_error, node_valid, output_error, registered, resolved_order, topo_order, DrawingNodeBuilder,
    DrawingNodeOutput, FlowError, FlowNode, GridAction, OutputDestination, RenderFlow,
};
use crate::grid::{
    AbstractGrid, AbstractGridGroup, AbstractGridID, ConcreteGridGroup, GridKind, GridPurpose, Instance, StartOperation,
};
use crate::shader::{
    ComponentType, DataType, FragmentShader, FragmentShaderVariable, FragmentShaderVariableType, GraphicsPipeline,
    LinkError, PrimitiveTopology, ShaderPair, target_named, VertexShader, VertexShaderVariable, VertexShaderVariableType, unmatched,
};

verus! {

pub open spec fn example_grids() -> Seq<AbstractGrid> {
    seq![
        AbstractGrid { kind: GridKind::Color, start_operation: StartOperation::Clear, purpose: GridPurpose::Display },
        AbstractGrid { kind: GridKind::DepthStencil, start_operation: StartOperation::Clear, purpose: GridPurpose::Nothing },
    ]
}

/// The variables of the example vertex shader.
pub open spec fn example_vertex_variables(v: Seq<VertexShaderVariable>) -> bool {
    &&& v.len() == 2
    &&& v[0].name@ == "position"@
    &&& v[0].data_type == (DataType { component: ComponentType::Float, arity: 2 })
    &&& v[0].kind == VertexShaderVariableType::VertexInput
    &&& v[1].name@ == "passPosition"@
    &&& v[1].data_type == (DataType { component: ComponentType::Float, arity: 2 })
    &&& v[1].kind == VertexShaderVariableType::SmoothFragmentOutput
}

/// The variables of the example fragment shader.
pub open spec fn example_fragment_variables(f: Seq<FragmentShaderVariable>) -> bool {
    &&& f.len() == 2
    &&& f[0].name@ == "passPosition"@
    &&& f[0].data_type == (DataType { component: ComponentType::Float, arity: 2 })
    &&& f[0].kind == FragmentShaderVariableType::SmoothVertexInput
    &&& f[1].name@ == "outputColor"@
    &&& f[1].data_type == (DataType { component: ComponentType::Float, arity: 4 })
    &&& f[1].kind == FragmentShaderVariableType::ColorOutput
}

/// The example vertex shader in full.
pub open spec fn example_vertex(r: VertexShader) -> bool {
    &&& r.name@ == "TheVertexShader"@
    &&& r.main_method@ == "\n        passPosition = position;\n        gl_Position = vec4(position, 0.0, 1.0);\n    "@
    &&& r.extra@ == ""@
    &&& example_vertex_variables(r.variables@)
    &&& r.uniforms@.len() == 0
}

/// The example fragment shader in full.
pub open spec fn example_fragment(r: FragmentShader) -> bool {
    &&& r.name@ == "TheFragmentShader"@
    &&& r.main_method@ == "\n        outputColor = vec4(passPosition.x, passPosition.y, 1.0, 1.0);\n    "@
    &&& r.extra@ == ""@
    &&& example_fragment_variables(r.variables@)
    &&& r.uniforms@.len() == 0
}

/// A new group of `instance` with one color grid (cleared, displayed) and one
/// depth-stencil grid (cleared, used for nothing afterwards), with their identifiers.
pub fn create_abstract_grid_group(instance: &mut Instance) -> (r: (AbstractGridGroup, AbstractGridID, AbstractGridID))
    requires
        old(instance).next_tag_spec() < u64::MAX,
    ensures
        final(instance).next_tag_spec() == old(instance).next_tag_spec() + 1,
        r.0.tag_spec() == old(instance).next_tag_spec(),
        r.0.grids_spec() == seq![
            AbstractGrid { kind: GridKind::Color, start_operation: StartOperation::Clear, purpose: GridPurpose::Display },
            AbstractGrid {
                kind: GridKind::DepthStencil,
                start_operation: StartOperation::Clear,
                purpose: GridPurpose::Nothing,
            },
        ],
        r.1 == (AbstractGridID { group: r.0.tag_spec(), index: 0 }),
        r.2 == (AbstractGridID { group: r.0.tag_spec(), index: 1 }),
{
    let mut group = instance.create_abstract_grid_group();
    let color = group.register(
        AbstractGrid { kind: GridKind::Color, start_operation: StartOperation::Clear, purpose: GridPurpose::Display },
    );
    let depth_stencil = group.register(
        AbstractGrid { kind: GridKind::DepthStencil, start_operation: StartOperation::Clear, purpose: GridPurpose::Nothing },
    );
    (group, color, depth_stencil)
}

/// A vertex shader that passes its 2D position on to the fragment stage.
pub fn create_vertex_shader() -> (r: VertexShader)
    ensures
        example_vertex(r),
{
    let main_method = "\n        passPosition = position;\n        gl_Position = vec4(position, 0.0, 1.0);\n    ";
    let mut variables: Vec<VertexShaderVariable> = Vec::new();
    variables.push(
        VertexShaderVariable {
            name: "position".to_owned(),
            data_type: DataType::new(ComponentType::Float, 2),
            kind: VertexShaderVariableType::VertexInput,
        },
    );
    variables.push(
        VertexShaderVariable {
            name: "passPosition".to_owned(),
            data_type: DataType::new(ComponentType::Float, 2),
            kind: VertexShaderVariableType::SmoothFragmentOutput,
        },
    );
    VertexShader {
        name: "TheVertexShader".to_owned(),
        main_method: main_method.to_owned(),
        extra: "".to_owned(),
        variables,
        uniforms: Vec::new(),
    }
}

/// A fragment shader that colors each fragment by its interpolated position.
pub fn create_fragment_shader() -> (r: FragmentShader)
    ensures
        example_fragment(r),
{
    let main_method = "\n        outputColor = vec4(passPosition.x, passPosition.y, 1.0, 1.0);\n    ";
    let mut variables: Vec<FragmentShaderVariable> = Vec::new();
    variables.push(
        FragmentShaderVariable {
            name: "passPosition".to_owned(),
            data_type: DataType::new(ComponentType::Float, 2),
            kind: FragmentShaderVariableType::SmoothVertexInput,
        },
    );
    variables.push(
        FragmentShaderVariable {
            name: "outputColor".to_owned(),
            data_type: DataType::new(ComponentType::Float, 4),
            kind: FragmentShaderVariableType::ColorOutput,
        },
    );
    FragmentShader {
        name: "TheFragmentShader".to_owned(),
        main_method: main_method.to_owned(),
        extra: "".to_owned(),
        variables,
        uniforms: Vec::new(),
    }
}

/// The two shaders above, linked; their interfaces agree, so linking succeeds.
pub fn create_shader_pair() -> (r: Result<ShaderPair, LinkError>)
    ensures
        r is Ok,
        example_vertex(r->Ok_0.vertex_spec()),
        example_fragment(r->Ok_0.fragment_spec()),
{
    let vertex = create_vertex_shader();
    let fragment = create_fragment_shader();
    assert(fragment.variables@[0].name@ == vertex.variables@[1].name@);
    assert forall|j: int| 0 <= j < fragment.variables@.len() implies !unmatched(vertex.variables@, #[trigger] fragment.variables@[j]) by {
        if j == 0 {
            assert(vertex.variables@[1].name@ == fragment.variables@[0].name@);
        }
    }
    ShaderPair::link_by_attribute_names(vertex, fragment)
}

/// The drawing node of the example: `pipeline`, no inputs, and one output that
/// writes the shader variable `outputColor` into the grid `color`.
pub open spec fn example_pass(d: DrawingNodeBuilder, pipeline: GraphicsPipeline, color: AbstractGridID) -> bool {
    &&& d.pipeline.outputs@ == pipeline.outputs@
    &&& d.pipeline.topology == pipeline.topology
    &&& !d.sequential
    &&& d.inputs@.len() == 0
    &&& d.outputs@.len() == 1
    &&& d.outputs@[0].destination == OutputDestination::External(color)
    &&& d.outputs@[0].shader_variable_name@ == "outputColor"@
}

/// Builds and resolves the flow: the color and depth-stencil grids as grid nodes,
/// and one drawing node with `pipeline` writing `outputColor` into the color grid.
pub fn create_render_flow(
    group: &AbstractGridGroup,
    pipeline: &GraphicsPipeline,
    color: AbstractGridID,
    depth_stencil: AbstractGridID,
) -> (r: Result<RenderFlow, FlowError>)
    ensures
        r is Ok <==> group.owns(color) && group.owns(depth_stencil) && pipeline.binds("outputColor"@),
        r is Ok ==> r->Ok_0.order_spec() == seq![2usize],
        r is Ok ==> r->Ok_0.actions_spec() == seq![action_for(*group, color), action_for(*group, depth_stencil)],
        r is Ok ==> r->Ok_0.nodes_spec().len() == 3,
        r is Ok ==> r->Ok_0.nodes_spec()[0] == FlowNode::Grid(color),
        r is Ok ==> r->Ok_0.nodes_spec()[1] == FlowNode::Grid(depth_stencil),
        r is Ok ==> r->Ok_0.nodes_spec()[2] is Drawing && example_pass(r->Ok_0.nodes_spec()[2]->Drawing_0, *pipeline, color),
        group.owns(color) && group.owns(depth_stencil) && !pipeline.binds("outputColor"@) ==> r
            == Err::<RenderFlow, FlowError>(FlowError::UnboundShaderOutput { node: 2, output: 0 }),
        r is Err ==> r->Err_0 is UnknownGridID || r->Err_0 is UnboundShaderOutput,
{
    let mut builder = group.create_render_flow_builder();
    builder.add_grid_node(color);
    builder.add_grid_node(depth_stencil);
    let mut outputs: Vec<DrawingNodeOutput> = Vec::new();
    outputs.push(
        DrawingNodeOutput { destination: OutputDestination::External(color), shader_variable_name: "outputColor".to_owned() },
    );
    let node = DrawingNodeBuilder { pipeline: pipeline.duplicate(), sequential: false, inputs: Vec::new(), outputs };
    let ghost d = node;
    builder.add_drawing_node(node);
    let ghost nodes = builder.nodes_spec();
    proof {
        assert(nodes =~= seq![FlowNode::Grid(color), FlowNode::Grid(depth_stencil), FlowNode::Drawing(d)]);
        assert(d.pipeline.binds("outputColor"@) == pipeline.binds("outputColor"@));
        let o = seq![2usize];
        assert forall|n: int| is_drawing(nodes, n) implies #[trigger] o.contains(n as usize) by {
            assert(n == 2);
            assert(o[0] == 2usize);
        }
        assert(topo_order(nodes, o));
        assert(o.take(0) =~= Seq::<usize>::empty());
        assert(resolved_order(nodes, o));
        assert(has_topo_order(nodes));
        assert(registered(nodes, color)) by {
            assert(nodes[0] == FlowNode::Grid(color));
        }
        assert(output_error(nodes, 2, 0) == if pipeline.binds("outputColor"@) {
            None::<FlowError>
        } else {
            Some(FlowError::UnboundShaderOutput { node: 2, output: 0 })
        });
        assert forall|g: AbstractGridID| !#[trigger] conflict(nodes, g) by {}
        if pipeline.binds("outputColor"@) {
            assert forall|k: int| 0 <= k < d.outputs@.len() implies #[trigger] output_error(nodes, 2, k) is None by {
                assert(k == 0);
            }
            assert(node_valid(nodes, 2));
        } else {
            assert(!node_valid(nodes, 2));
        }
        if group.owns(color) && group.owns(depth_stencil) {
            assert forall|i: int| 0 <= i < nodes.len() && nodes[i] is Grid implies group.owns(#[trigger] nodes[i]->Grid_0) by {}
        } else {
            if !group.owns(color) {
                assert(nodes[0] is Grid && !group.owns(nodes[0]->Grid_0));
            } else {
                assert(nodes[1] is Grid && !group.owns(nodes[1]->Grid_0));
            }
        }
        reveal_with_fuel(grid_nodes, 4);
        assert(nodes.drop_last() =~= seq![FlowNode::Grid(color), FlowNode::Grid(depth_stencil)]);
        assert(nodes.drop_last().drop_last() =~= seq![FlowNode::Grid(color)]);
        assert(nodes.drop_last().drop_last().drop_last() =~= Seq::<FlowNode>::empty());
        assert(grid_nodes(nodes) =~= seq![color, depth_stencil]);
    }
    let r = group.create_render_flow(builder);
    proof {
        let o = seq![2usize];
        if r is Err {
            let e = r->Err_0;
            assert(has_topo_order(nodes));
            if e is UnknownNode || e is UnregisteredGrid {
                assert(error_present(*group, nodes, e));
                let c = choose|c: int| is_drawing(nodes, c) && #[trigger] node_has_error(nodes, c, e);
                assert(c == 2);
                if exists|k: int| 0 <= k < d.outputs@.len() && #[trigger] output_error(nodes, 2, k) == Some(e) {
                    let k = choose|k: int| 0 <= k < d.outputs@.len() && #[trigger] output_error(nodes, 2, k) == Some(e);
                    assert(k == 0);
                }
            }
            if e is ConflictingGridWrite {
                assert(error_present(*group, nodes, e));
            }
        }
        if r is Ok {
            lemma_resolution_deterministic(nodes, o, r->Ok_0.order_spec());
            assert(r->Ok_0.actions_spec() =~= seq![action_for(*group, color), action_for(*group, depth_stencil)]);
        }
        if group.owns(color) && group.owns(depth_stencil) && !pipeline.binds("outputColor"@) {
            let e = r->Err_0;
            assert(error_present(*group, nodes, e));
            if e is UnknownGridID {
                let g = e->UnknownGridID_0;
                let i = choose|i: int| 0 <= i < nodes.len() && #[trigger] nodes[i] == FlowNode::Grid(g);
            } else if e is ConflictingGridWrite {
            } else if e is CyclicRenderGraph {
            } else if e is MissingGridBinding {
            } else {
                assert(node_has_error(nodes, 2, e));
                if exists|k: int| 0 <= k < d.outputs@.len() && #[trigger] output_error(nodes, 2, k) == Some(e) {
                    let k = choose|k: int| 0 <= k < d.outputs@.len() && #[trigger] output_error(nodes, 2, k) == Some(e);
                    assert(k == 0);
                }
            }
        }
    }
    r
}

/// Everything the example frame needs: the abstract grids, their concrete
/// binding at 800 by 500, and the resolved flow of its single pass.
pub fn build_scene(instance: &mut Instance) -> (r: (AbstractGridGroup, ConcreteGridGroup, Result<RenderFlow, FlowError>))
    requires
        old(instance).next_tag_spec() < u64::MAX,
    ensures
        final(instance).next_tag_spec() == old(instance).next_tag_spec() + 1,
        r.0.tag_spec() == old(instance).next_tag_spec(),
        r.0.grids_spec() == example_grids(),
        r.1.width == 800 && r.1.height == 500,
        r.1.grids@ == seq![AbstractGridID { group: r.0.tag_spec(), index: 0 }, AbstractGridID { group: r.0.tag_spec(), index: 1 }],
        r.2 is Ok,
        r.2->Ok_0.nodes_spec().len() == 3,
        r.2->Ok_0.nodes_spec()[2] is Drawing,
        r.2->Ok_0.nodes_spec()[2]->Drawing_0.pipeline.binds("outputColor"@),
        r.2->Ok_0.nodes_spec()[2]->Drawing_0.pipeline.topology == PrimitiveTopology::Triangles,
        r.2->Ok_0.nodes_spec()[2]->Drawing_0.outputs@.len() == 1,
        r.2->Ok_0.nodes_spec()[2]->Drawing_0.outputs@[0].destination == OutputDestination::External(
            AbstractGridID { group: r.0.tag_spec(), index: 0 },
        ),
        r.2->Ok_0.nodes_spec()[2]->Drawing_0.outputs@[0].shader_variable_name@ == "outputColor"@,
        r.2->Ok_0.order_spec() == seq![2usize],
        r.2->Ok_0.actions_spec() == seq![
            GridAction { grid: AbstractGridID { group: r.0.tag_spec(), index: 0 }, start: StartOperation::Clear, store: true },
            GridAction { grid: AbstractGridID { group: r.0.tag_spec(), index: 1 }, start: StartOperation::Clear, store: false },
        ],
{
    let pair = match create_shader_pair() {
        Ok(pair) => pair,
        Err(_) => {
            // unreachable: the two shaders link
            proof {
                assert(false);
            }
            return (
                instance.create_abstract_grid_group(),
                ConcreteGridGroup { width: 0, height: 0, grids: Vec::new() },
                Err(FlowError::CyclicRenderGraph),
            );
        },
    };
    let ghost tag = instance.next_tag_spec();
    let (group, color, depth_stencil) = create_abstract_grid_group(instance);
    assert(group.grids_spec() =~= example_grids());
    let pipeline = group.create_graphics_pipeline(&pair, PrimitiveTopology::Triangles);
    assert(pipeline.binds("outputColor"@)) by {
        assert(target_named(pair.fragment_spec().variables@, 2, pair.fragment_spec().variables@[1].name@));
    }
    let width: u32 = 800;
    let height: u32 = 500;
    let concrete = group.create_concrete(width, height);
    assert(concrete.grids@ =~= seq![AbstractGridID { group: tag, index: 0 }, AbstractGridID { group: tag, index: 1 }]);
    let flow = create_render_flow(&group, &pipeline, color, depth_stencil);
    (group, concrete, flow)
}

} // verus!
