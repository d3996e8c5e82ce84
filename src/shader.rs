use vstd::prelude::*;
use crate::grid::AbstractGridGroup;

verus! {

#[derive(Clone, Copy, Debug, PartialEq, Eq, Structural)]
pub enum ComponentType {
    Float,
    Double,
    Int,
    UInt,
    Bool,
}

/// A component type and a number of components (1 for a scalar, 2 for a vec2, ...).
#[derive(Clone, Copy, Debug, PartialEq, Eq, Structural)]
pub struct DataType {
    pub component: ComponentType,
    pub arity: u8,
}

impl DataType {
    pub fn new(component: ComponentType, arity: u8) -> (r: DataType)
        ensures
            r == (DataType { component, arity }),
    {
        DataType { component, arity }
    }
}

#[derive(Clone, Copy, Debug, PartialEq, Eq, Structural)]
pub enum VertexShaderVariableType {
    VertexInput,
    SmoothFragmentOutput,
}

#[derive(Clone, Copy, Debug, PartialEq, Eq, Structural)]
pub enum FragmentShaderVariableType {
    SmoothVertexInput,
    ColorOutput,
    DepthStencilOutput,
}

#[derive(Clone, Debug)]
pub struct VertexShaderVariable {
    pub name: String,
    pub data_type: DataType,
    pub kind: VertexShaderVariableType,
}

#[derive(Clone, Debug)]
pub struct FragmentShaderVariable {
    pub name: String,
    pub data_type: DataType,
    pub kind: FragmentShaderVariableType,
}

#[derive(Clone, Debug)]
pub struct VertexShader {
    pub name: String,
    pub main_method: String,
    pub extra: String,
    pub variables: Vec<VertexShaderVariable>,
    /// Names of the shader's uniform variables.
    pub uniforms: Vec<String>,
}

#[derive(Clone, Debug)]
pub struct FragmentShader {
    pub name: String,
    pub main_method: String,
    pub extra: String,
    pub variables: Vec<FragmentShaderVariable>,
    /// Names of the shader's uniform variables.
    pub uniforms: Vec<String>,
}

/// A vertex shader and a fragment shader whose interfaces agree; only
/// linking makes one.
#[derive(Debug)]
pub struct ShaderPair {
    vertex: VertexShader,
    fragment: FragmentShader,
}

#[derive(Clone, Copy, Debug, PartialEq, Eq, Structural)]
pub enum LinkFailure {
    /// No smooth vertex output carries the name.
    MissingOutput,
    /// Smooth vertex outputs carry the name, none with the same data type.
    TypeMismatch,
}

/// Why two shaders could not be linked, and the fragment variable at fault.
#[derive(Clone, Debug)]
pub struct LinkError {
    pub variable: String,
    pub reason: LinkFailure,
}

#[derive(Clone, Copy, Debug, PartialEq, Eq, Structural)]
pub enum PrimitiveTopology {
    Points,
    Lines,
    Triangles,
}

/// A shader pair bound to a primitive topology; `outputs` are the names of the
/// fragment stage's color and depth-stencil outputs.
#[derive(Clone, Debug)]
pub struct GraphicsPipeline {
    pub outputs: Vec<String>,
    pub topology: PrimitiveTopology,
}

/// Some smooth vertex output is called `name`.
pub open spec fn has_output_named(v: Seq<VertexShaderVariable>, name: Seq<char>) -> bool {
    exists|i: int|
        0 <= i < v.len() && v[i].kind == VertexShaderVariableType::SmoothFragmentOutput
            && #[trigger] v[i].name@ == name
}

/// Some smooth vertex output has the name and the data type of `f`.
pub open spec fn has_matching_output(v: Seq<VertexShaderVariable>, f: FragmentShaderVariable) -> bool {
    exists|i: int|
        0 <= i < v.len() && v[i].kind == VertexShaderVariableType::SmoothFragmentOutput
            && #[trigger] v[i].name@ == f.name@ && v[i].data_type == f.data_type
}

/// `f` is a smooth input that no vertex output serves.
pub open spec fn unmatched(v: Seq<VertexShaderVariable>, f: FragmentShaderVariable) -> bool {
    f.kind == FragmentShaderVariableType::SmoothVertexInput && !has_matching_output(v, f)
}

/// Every smooth fragment input is served by a smooth vertex output of the same name and type.
pub open spec fn links(v: Seq<VertexShaderVariable>, f: Seq<FragmentShaderVariable>) -> bool {
    forall|j: int| 0 <= j < f.len() ==> !unmatched(v, #[trigger] f[j])
}

/// The error that reports `f` as unserved.
pub open spec fn link_error_for(v: Seq<VertexShaderVariable>, f: FragmentShaderVariable, e: LinkError) -> bool {
    &&& e.variable@ == f.name@
    &&& e.reason == if has_output_named(v, f.name@) {
        LinkFailure::TypeMismatch
    } else {
        LinkFailure::MissingOutput
    }
}

pub open spec fn is_target_output(kind: FragmentShaderVariableType) -> bool {
    kind == FragmentShaderVariableType::ColorOutput || kind == FragmentShaderVariableType::DepthStencilOutput
}

/// Some string of `s` reads `name`.
pub open spec fn has_name(s: Seq<String>, name: Seq<char>) -> bool {
    exists|i: int| 0 <= i < s.len() && #[trigger] s[i]@ == name
}

/// Some fragment variable before `upto` is a color or depth-stencil output called `name`.
pub open spec fn target_named(f: Seq<FragmentShaderVariable>, upto: int, name: Seq<char>) -> bool {
    exists|k: int| 0 <= k < upto && is_target_output(f[k].kind) && #[trigger] f[k].name@ == name
}

impl GraphicsPipeline {
    /// The pipeline can bind a drawing output to the shader variable `name`.
    pub open spec fn binds(&self, name: Seq<char>) -> bool {
        has_name(self.outputs@, name)
    }

    /// The pipeline for `pair`: it binds exactly the fragment color and depth-stencil outputs.
    pub fn new(pair: &ShaderPair, topology: PrimitiveTopology) -> (r: GraphicsPipeline)
        ensures
            r.topology == topology,
            forall|name: Seq<char>|
                #[trigger] r.binds(name) <==> target_named(
                pair.fragment_spec().variables@,
                pair.fragment_spec().variables@.len() as int,
                name,
            ),
    {
        let vars = &pair.fragment.variables;
        let mut outputs: Vec<String> = Vec::new();
        let mut j: usize = 0;
        while j < vars.len()
            invariant
                j <= vars@.len(),
                forall|name: Seq<char>| #[trigger] has_name(outputs@, name) <==> target_named(vars@, j as int, name),
            decreases vars@.len() - j,
        {
            let ghost before = outputs@;
            if vars[j].kind == FragmentShaderVariableType::ColorOutput
                || vars[j].kind == FragmentShaderVariableType::DepthStencilOutput {
                outputs.push(vars[j].name.clone());
                assert forall|name: Seq<char>| #[trigger] has_name(outputs@, name) <==> target_named(vars@, j + 1, name) by {
                    assert(has_name(before, name) == target_named(vars@, j as int, name));
                    if exists|i: int| 0 <= i < outputs@.len() && #[trigger] outputs@[i]@ == name {
                        let i = choose|i: int| 0 <= i < outputs@.len() && #[trigger] outputs@[i]@ == name;
                        if i < before.len() {
                            assert(before[i]@ == name);
                        } else {
                            assert(vars@[j as int].name@ == name);
                        }
                    }
                    if exists|k: int| 0 <= k < j + 1 && is_target_output(vars@[k].kind) && #[trigger] vars@[k].name@ == name {
                        let k = choose|k: int| 0 <= k < j + 1 && is_target_output(vars@[k].kind) && #[trigger] vars@[k].name@ == name;
                        if k < j {
                            assert(target_named(vars@, j as int, name));
                            let i = choose|i: int| 0 <= i < before.len() && #[trigger] before[i]@ == name;
                            assert(outputs@[i]@ == name);
                        } else {
                            assert(outputs@[before.len() as int]@ == name);
                        }
                    }
                }
            } else {
                assert forall|name: Seq<char>| #[trigger] has_name(outputs@, name) <==> target_named(vars@, j + 1, name) by {
                    assert(has_name(before, name) == target_named(vars@, j as int, name));
                    if target_named(vars@, j + 1, name) {
                        let k = choose|k: int| 0 <= k < j + 1 && is_target_output(vars@[k].kind) && #[trigger] vars@[k].name@ == name;
                        assert(k < j);
                        assert(target_named(vars@, j as int, name));
                    }
                    if target_named(vars@, j as int, name) {
                        let k = choose|k: int| 0 <= k < j && is_target_output(vars@[k].kind) && #[trigger] vars@[k].name@ == name;
                        assert(vars@[k].name@ == name);
                    }
                }
            }
            j = j + 1;
        }
        GraphicsPipeline { outputs, topology }
    }
}

impl GraphicsPipeline {
    /// A second handle on the same pipeline.
    pub fn duplicate(&self) -> (r: GraphicsPipeline)
        ensures
            r.outputs@ == self.outputs@,
            r.topology == self.topology,
    {
        let mut outputs: Vec<String> = Vec::new();
        let mut i: usize = 0;
        while i < self.outputs.len()
            invariant
                i <= self.outputs@.len(),
                outputs@ == self.outputs@.take(i as int),
            decreases self.outputs@.len() - i,
        {
            outputs.push(self.outputs[i].clone());
            assert(self.outputs@.take(i + 1) =~= self.outputs@.take(i as int).push(self.outputs@[i as int]));
            i = i + 1;
        }
        assert(self.outputs@.take(self.outputs@.len() as int) =~= self.outputs@);
        GraphicsPipeline { outputs, topology: self.topology }
    }
}

impl AbstractGridGroup {
    /// A pipeline for `pair` that draws into this group's grids.
    pub fn create_graphics_pipeline(&self, pair: &ShaderPair, topology: PrimitiveTopology) -> (r: GraphicsPipeline)
        ensures
            r.topology == topology,
            forall|name: Seq<char>|
                #[trigger] r.binds(name) <==> target_named(
                    pair.fragment_spec().variables@,
                    pair.fragment_spec().variables@.len() as int,
                    name,
                ),
    {
        GraphicsPipeline::new(pair, topology)
    }
}

/// Whether some smooth vertex output is called like `f`, and whether one also has its type.
fn find_output(v: &Vec<VertexShaderVariable>, f: &FragmentShaderVariable) -> (r: (bool, bool))
    ensures
        r.0 == has_output_named(v@, f.name@),
        r.1 == has_matching_output(v@, *f),
{
    let mut named = false;
    let mut matching = false;
    let mut i: usize = 0;
    while i < v.len()
        invariant
            i <= v@.len(),
            named == exists|k: int|
                0 <= k < i && v@[k].kind == VertexShaderVariableType::SmoothFragmentOutput
                    && #[trigger] v@[k].name@ == f.name@,
            matching == exists|k: int|
                0 <= k < i && v@[k].kind == VertexShaderVariableType::SmoothFragmentOutput
                    && #[trigger] v@[k].name@ == f.name@ && v@[k].data_type == f.data_type,
        decreases v@.len() - i,
    {
        if v[i].kind == VertexShaderVariableType::SmoothFragmentOutput && v[i].name == f.name {
            named = true;
            if v[i].data_type == f.data_type {
                matching = true;
            }
        }
        i = i + 1;
    }
    (named, matching)
}

impl ShaderPair {
    #[verifier::type_invariant]
    spec fn linked(&self) -> bool {
        links(self.vertex.variables@, self.fragment.variables@)
    }

    pub closed spec fn vertex_spec(&self) -> VertexShader {
        self.vertex
    }

    pub closed spec fn fragment_spec(&self) -> FragmentShader {
        self.fragment
    }

    /// The vertex stage; every smooth fragment input finds its output here.
    pub fn vertex(&self) -> (r: &VertexShader)
        ensures
            *r == self.vertex_spec(),
            links(r.variables@, self.fragment_spec().variables@),
    {
        proof {
            use_type_invariant(self);
        }
        &self.vertex
    }

    pub fn fragment(&self) -> (r: &FragmentShader)
        ensures
            *r == self.fragment_spec(),
            links(self.vertex_spec().variables@, r.variables@),
    {
        proof {
            use_type_invariant(self);
        }
        &self.fragment
    }

    /// Links the two stages: every smooth fragment input needs a smooth vertex output
    /// of the same name and data type. On failure the error names the first
    /// fragment variable, in declaration order, that is not served.
    pub fn link_by_attribute_names(vertex: VertexShader, fragment: FragmentShader) -> (r: Result<ShaderPair, LinkError>)
        ensures
            r is Ok <==> links(vertex.variables@, fragment.variables@),
            r is Ok ==> r->Ok_0.vertex_spec() == vertex && r->Ok_0.fragment_spec() == fragment,
            r is Err ==> exists|j: int|
                0 <= j < fragment.variables@.len()
                    && unmatched(vertex.variables@, #[trigger] fragment.variables@[j])
                    && (forall|k: int| 0 <= k < j ==> !unmatched(vertex.variables@, #[trigger] fragment.variables@[k]))
                    && link_error_for(vertex.variables@, fragment.variables@[j], r->Err_0),
    {
        let mut j: usize = 0;
        while j < fragment.variables.len()
            invariant
                j <= fragment.variables@.len(),
                forall|k: int| 0 <= k < j ==> !unmatched(vertex.variables@, #[trigger] fragment.variables@[k]),
            decreases fragment.variables@.len() - j,
        {
            let f = &fragment.variables[j];
            if f.kind == FragmentShaderVariableType::SmoothVertexInput {
                let (named, matching) = find_output(&vertex.variables, f);
                if !matching {
                    let reason = if named {
                        LinkFailure::TypeMismatch
                    } else {
                        LinkFailure::MissingOutput
                    };
                    let e = LinkError { variable: f.name.clone(), reason };
                    assert(unmatched(vertex.variables@, fragment.variables@[j as int]));
                    return Err(e);
                }
            }
            j = j + 1;
        }
        Ok(ShaderPair { vertex, fragment })
    }
}

} // verus!
