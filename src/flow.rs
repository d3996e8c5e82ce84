use vstd::prelude::*;
use vstd::set_lib::{lemma_int_range, lemma_len_subset, set_int_range};
use crate::grid::{AbstractGridGroup, AbstractGridID, GridPurpose, StartOperation};
use crate::shader::GraphicsPipeline;

verus! {

/// Where a drawing node reads from.
#[derive(Clone, Copy, Debug, PartialEq, Eq, Structural)]
pub enum InputSource {
    /// A grid outside the flow's nodes, by identifier.
    External(AbstractGridID),
    /// What another node of the same builder writes, by local identifier.
    NodeOutput(usize),
}

/// Where a drawing node's output goes.
#[derive(Clone, Copy, Debug, PartialEq, Eq, Structural)]
pub enum OutputDestination {
    External(AbstractGridID),
    NodeInput(usize),
}

#[derive(Clone, Debug)]
pub struct DrawingNodeOutput {
    pub destination: OutputDestination,
    pub shader_variable_name: String,
}

/// One pipeline invocation with its inputs and outputs.
#[derive(Clone, Debug)]
pub struct DrawingNodeBuilder {
    pub pipeline: GraphicsPipeline,
    /// Marks the node as one of several passes over the same grids; such passes
    /// may write one grid together and run in insertion order.
    pub sequential: bool,
    pub inputs: Vec<InputSource>,
    pub outputs: Vec<DrawingNodeOutput>,
}

/// An entry of a builder; its local identifier is its position.
#[derive(Clone, Debug)]
pub enum FlowNode {
    Grid(AbstractGridID),
    Drawing(DrawingNodeBuilder),
}

/// Errors of flow resolution and execution.
#[derive(Clone, Copy, Debug, PartialEq, Eq, Structural)]
pub enum FlowError {
    CyclicRenderGraph,
    UnknownGridID(AbstractGridID),
    UnknownNode(usize),
    UnregisteredGrid(AbstractGridID),
    UnboundShaderOutput { node: usize, output: usize },
    ConflictingGridWrite(AbstractGridID),
    MissingGridBinding(AbstractGridID),
}

/// Mutable plan of a frame: grid nodes and drawing nodes, in insertion order.
pub struct RenderFlowBuilder {
    nodes: Vec<FlowNode>,
}

/// The load and store behaviour of one grid of a compiled flow.
#[derive(Clone, Copy, Debug, PartialEq, Eq, Structural)]
pub struct GridAction {
    pub grid: AbstractGridID,
    pub start: StartOperation,
    pub store: bool,
}

/// One draw operation, naming the drawing node by local identifier.
#[derive(Clone, Copy, Debug, PartialEq, Eq, Structural)]
pub struct DrawCommand {
    pub node: usize,
}

/// A resolved flow: drawing nodes in execution order and the actions of its grids.
pub struct RenderFlow {
    nodes: Vec<FlowNode>,
    order: Vec<usize>,
    actions: Vec<GridAction>,
}

pub open spec fn is_drawing(nodes: Seq<FlowNode>, i: int) -> bool {
    0 <= i < nodes.len() && nodes[i] is Drawing
}

pub open spec fn drawing(nodes: Seq<FlowNode>, i: int) -> DrawingNodeBuilder {
    nodes[i]->Drawing_0
}

/// Node `c` reads the grid `g`.
pub open spec fn reads_grid(nodes: Seq<FlowNode>, c: int, g: AbstractGridID) -> bool {
    exists|k: int|
        0 <= k < drawing(nodes, c).inputs@.len() && #[trigger] drawing(nodes, c).inputs@[k] == InputSource::External(g)
}

/// Node `p` writes the grid `g`.
pub open spec fn writes_grid(nodes: Seq<FlowNode>, p: int, g: AbstractGridID) -> bool {
    exists|k: int|
        0 <= k < drawing(nodes, p).outputs@.len()
            && #[trigger] drawing(nodes, p).outputs@[k].destination == OutputDestination::External(g)
}

/// Node `c` reads what node `p` writes, by naming it among its inputs.
pub open spec fn reads_node(nodes: Seq<FlowNode>, c: int, p: int) -> bool {
    exists|k: int|
        0 <= k < drawing(nodes, c).inputs@.len() && #[trigger] drawing(nodes, c).inputs@[k] == InputSource::NodeOutput(p as usize)
}

/// Node `p` sends an output to node `c`.
pub open spec fn feeds_node(nodes: Seq<FlowNode>, p: int, c: int) -> bool {
    exists|k: int|
        0 <= k < drawing(nodes, p).outputs@.len()
            && #[trigger] drawing(nodes, p).outputs@[k].destination == OutputDestination::NodeInput(c as usize)
}

/// Node `p` shares a grid with node `c`: it writes what `c` reads.
pub open spec fn shares_grid(nodes: Seq<FlowNode>, p: int, c: int) -> bool {
    exists|g: AbstractGridID| #[trigger] writes_grid(nodes, p, g) && reads_grid(nodes, c, g)
}

pub open spec fn sequential(nodes: Seq<FlowNode>, i: int) -> bool {
    drawing(nodes, i).sequential
}

/// Nodes `p` and `c` write a common grid.
pub open spec fn writes_common(nodes: Seq<FlowNode>, p: int, c: int) -> bool {
    exists|g: AbstractGridID| #[trigger] writes_grid(nodes, p, g) && writes_grid(nodes, c, g)
}

/// `p` and `c` are sequential passes over a common grid, `p` inserted first.
pub open spec fn sequenced(nodes: Seq<FlowNode>, p: int, c: int) -> bool {
    p < c && sequential(nodes, p) && sequential(nodes, c) && writes_common(nodes, p, c)
}

/// Drawing node `c` must run after drawing node `p`: it consumes what `p`
/// produces, or both are sequential passes over a grid and `p` came first.
pub open spec fn edge(nodes: Seq<FlowNode>, p: int, c: int) -> bool {
    &&& p != c
    &&& is_drawing(nodes, p)
    &&& is_drawing(nodes, c)
    &&& (reads_node(nodes, c, p) || feeds_node(nodes, p, c) || shares_grid(nodes, p, c) || sequenced(nodes, p, c))
}

/// `ord` lists every drawing node once, each consumer after all its producers.
pub open spec fn topo_order(nodes: Seq<FlowNode>, ord: Seq<usize>) -> bool {
    &&& ord.no_duplicates()
    &&& forall|i: int| 0 <= i < ord.len() ==> is_drawing(nodes, #[trigger] ord[i] as int)
    &&& forall|n: int| is_drawing(nodes, n) ==> #[trigger] ord.contains(n as usize)
    &&& forall|i: int, j: int|
        0 <= i < ord.len() && 0 <= j < ord.len() && #[trigger] edge(nodes, ord[i] as int, ord[j] as int) ==> i < j
}

pub open spec fn has_topo_order(nodes: Seq<FlowNode>) -> bool {
    exists|ord: Seq<usize>| topo_order(nodes, ord)
}

/// All producers of `m` are among `placed`.
pub open spec fn ready(nodes: Seq<FlowNode>, placed: Seq<usize>, m: int) -> bool {
    forall|p: int| #[trigger] edge(nodes, p, m) ==> placed.contains(p as usize)
}

/// Ties are broken by insertion order: at each position stands the lowest drawing
/// node that is not yet placed and whose producers all are.
pub open spec fn stable(nodes: Seq<FlowNode>, ord: Seq<usize>) -> bool {
    forall|k: int, m: int|
        0 <= k < ord.len() && is_drawing(nodes, m) && !ord.take(k).contains(m as usize)
            && #[trigger] ready(nodes, ord.take(k), m) ==> ord[k] as int <= m
}

/// The execution order that resolution computes.
pub open spec fn resolved_order(nodes: Seq<FlowNode>, ord: Seq<usize>) -> bool {
    topo_order(nodes, ord) && stable(nodes, ord)
}

fn node_reads_grid(d: &DrawingNodeBuilder, g: AbstractGridID) -> (r: bool)
    ensures
        r == exists|k: int| 0 <= k < d.inputs@.len() && #[trigger] d.inputs@[k] == InputSource::External(g),
{
    let mut k: usize = 0;
    while k < d.inputs.len()
        invariant
            k <= d.inputs@.len(),
            forall|j: int| 0 <= j < k ==> #[trigger] d.inputs@[j] != InputSource::External(g),
        decreases d.inputs@.len() - k,
    {
        if d.inputs[k] == InputSource::External(g) {
            return true;
        }
        k = k + 1;
    }
    false
}

fn node_writes_grid(d: &DrawingNodeBuilder, g: AbstractGridID) -> (r: bool)
    ensures
        r == exists|k: int|
            0 <= k < d.outputs@.len() && #[trigger] d.outputs@[k].destination == OutputDestination::External(g),
{
    let mut k: usize = 0;
    while k < d.outputs.len()
        invariant
            k <= d.outputs@.len(),
            forall|j: int| 0 <= j < k ==> #[trigger] d.outputs@[j].destination != OutputDestination::External(g),
        decreases d.outputs@.len() - k,
    {
        if d.outputs[k].destination == OutputDestination::External(g) {
            return true;
        }
        k = k + 1;
    }
    false
}

fn node_reads_node(d: &DrawingNodeBuilder, p: usize) -> (r: bool)
    ensures
        r == exists|k: int| 0 <= k < d.inputs@.len() && #[trigger] d.inputs@[k] == InputSource::NodeOutput(p),
{
    let mut k: usize = 0;
    while k < d.inputs.len()
        invariant
            k <= d.inputs@.len(),
            forall|j: int| 0 <= j < k ==> #[trigger] d.inputs@[j] != InputSource::NodeOutput(p),
        decreases d.inputs@.len() - k,
    {
        if d.inputs[k] == InputSource::NodeOutput(p) {
            return true;
        }
        k = k + 1;
    }
    false
}

fn node_feeds_node(d: &DrawingNodeBuilder, c: usize) -> (r: bool)
    ensures
        r == exists|k: int|
            0 <= k < d.outputs@.len() && #[trigger] d.outputs@[k].destination == OutputDestination::NodeInput(c),
{
    let mut k: usize = 0;
    while k < d.outputs.len()
        invariant
            k <= d.outputs@.len(),
            forall|j: int| 0 <= j < k ==> #[trigger] d.outputs@[j].destination != OutputDestination::NodeInput(c),
        decreases d.outputs@.len() - k,
    {
        if d.outputs[k].destination == OutputDestination::NodeInput(c) {
            return true;
        }
        k = k + 1;
    }
    false
}

fn node_shares_grid(nodes: &Vec<FlowNode>, p: usize, c: usize) -> (r: bool)
    requires
        is_drawing(nodes@, p as int),
        is_drawing(nodes@, c as int),
    ensures
        r == shares_grid(nodes@, p as int, c as int),
{
    let dp = match &nodes[p] {
        FlowNode::Drawing(d) => d,
        FlowNode::Grid(_) => { return false; },
    };
    let dc = match &nodes[c] {
        FlowNode::Drawing(d) => d,
        FlowNode::Grid(_) => { return false; },
    };
    let mut k: usize = 0;
    while k < dp.outputs.len()
        invariant
            k <= dp.outputs@.len(),
            *dp == drawing(nodes@, p as int),
            *dc == drawing(nodes@, c as int),
            forall|j: int|
                0 <= j < k && (#[trigger] dp.outputs@[j]).destination is External
                    ==> !reads_grid(nodes@, c as int, dp.outputs@[j].destination->External_0),
        decreases dp.outputs@.len() - k,
    {
        if let OutputDestination::External(g) = dp.outputs[k].destination {
            if node_reads_grid(dc, g) {
                assert(writes_grid(nodes@, p as int, g));
                return true;
            }
        }
        k = k + 1;
    }
    proof {
        if shares_grid(nodes@, p as int, c as int) {
            let g = choose|g: AbstractGridID| #[trigger] writes_grid(nodes@, p as int, g) && reads_grid(nodes@, c as int, g);
            let j = choose|j: int| 0 <= j < dp.outputs@.len() && #[trigger] dp.outputs@[j].destination == OutputDestination::External(g);
            assert(false);
        }
    }
    false
}

fn node_writes_common(nodes: &Vec<FlowNode>, p: usize, c: usize) -> (r: bool)
    requires
        is_drawing(nodes@, p as int),
        is_drawing(nodes@, c as int),
    ensures
        r == writes_common(nodes@, p as int, c as int),
{
    let dp = match &nodes[p] {
        FlowNode::Drawing(d) => d,
        FlowNode::Grid(_) => { return false; },
    };
    let dc = match &nodes[c] {
        FlowNode::Drawing(d) => d,
        FlowNode::Grid(_) => { return false; },
    };
    let mut k: usize = 0;
    while k < dp.outputs.len()
        invariant
            k <= dp.outputs@.len(),
            *dp == drawing(nodes@, p as int),
            *dc == drawing(nodes@, c as int),
            forall|j: int|
                0 <= j < k && (#[trigger] dp.outputs@[j]).destination is External
                    ==> !writes_grid(nodes@, c as int, dp.outputs@[j].destination->External_0),
        decreases dp.outputs@.len() - k,
    {
        if let OutputDestination::External(g) = dp.outputs[k].destination {
            if node_writes_grid(dc, g) {
                assert(writes_grid(nodes@, p as int, g));
                return true;
            }
        }
        k = k + 1;
    }
    proof {
        if writes_common(nodes@, p as int, c as int) {
            let g = choose|g: AbstractGridID| #[trigger] writes_grid(nodes@, p as int, g) && writes_grid(nodes@, c as int, g);
            let j = choose|j: int| 0 <= j < dp.outputs@.len() && #[trigger] dp.outputs@[j].destination == OutputDestination::External(g);
            assert(false);
        }
    }
    false
}

/// Whether drawing node `c` must run after node `p`.
fn has_edge(nodes: &Vec<FlowNode>, p: usize, c: usize) -> (r: bool)
    requires
        c < nodes@.len(),
        p < nodes@.len(),
    ensures
        r == edge(nodes@, p as int, c as int),
{
    if p == c {
        return false;
    }
    match (&nodes[p], &nodes[c]) {
        (FlowNode::Drawing(dp), FlowNode::Drawing(dc)) => {
            node_reads_node(dc, p) || node_feeds_node(dp, c) || node_shares_grid(nodes, p, c) || (p < c
                && dp.sequential && dc.sequential && node_writes_common(nodes, p, c))
        },
        _ => false,
    }
}

/// A sequence of distinct indices below `n` has at most `n` elements.
proof fn lemma_distinct_below(s: Seq<usize>, n: int)
    requires
        s.no_duplicates(),
        0 <= n,
        forall|i: int| 0 <= i < s.len() ==> (#[trigger] s[i] as int) < n,
    ensures
        s.len() <= n,
{
    let si = s.map_values(|x: usize| x as int);
    assert forall|i: int, j: int| 0 <= i < si.len() && 0 <= j < si.len() && i != j implies si[i] != si[j] by {
        assert(s[i] != s[j]);
    }
    assert(si.no_duplicates());
    si.unique_seq_to_set();
    lemma_int_range(0, n);
    assert forall|x: int| si.to_set().contains(x) implies set_int_range(0, n).contains(x) by {
        let i = choose|i: int| 0 <= i < si.len() && si[i] == x;
        assert(s[i] as int == x);
    }
    lemma_len_subset(si.to_set(), set_int_range(0, n));
}

/// When no unplaced drawing node is ready and one is unplaced, no order exists.
proof fn lemma_stuck_is_cyclic(nodes: Seq<FlowNode>, placed: Seq<usize>, u: int)
    requires
        nodes.len() <= usize::MAX,
        is_drawing(nodes, u),
        !placed.contains(u as usize),
        forall|x: int| is_drawing(nodes, x) && !placed.contains(x as usize) ==> !#[trigger] ready(nodes, placed, x),
    ensures
        !has_topo_order(nodes),
{
    if has_topo_order(nodes) {
        let t = choose|t: Seq<usize>| topo_order(nodes, t);
        assert(t.contains(u as usize));
        let q = choose|q: int| 0 <= q < t.len() && t[q] == u as usize;
        lemma_order_placed(nodes, placed, t, q);
    }
}

proof fn lemma_order_placed(nodes: Seq<FlowNode>, placed: Seq<usize>, t: Seq<usize>, pos: int)
    requires
        nodes.len() <= usize::MAX,
        topo_order(nodes, t),
        0 <= pos < t.len(),
        forall|x: int| is_drawing(nodes, x) && !placed.contains(x as usize) ==> !#[trigger] ready(nodes, placed, x),
    ensures
        placed.contains(t[pos]),
    decreases pos,
{
    let m = t[pos] as int;
    assert(is_drawing(nodes, m));
    if !placed.contains(m as usize) {
        assert(!ready(nodes, placed, m));
        let p = choose|p: int| #[trigger] edge(nodes, p, m) && !placed.contains(p as usize);
        assert(t.contains(p as usize));
        assert(is_drawing(nodes, p));
        let q = choose|q: int| 0 <= q < t.len() && t[q] == p as usize;
        assert(t[q] as int == p);
        assert(edge(nodes, t[q] as int, t[pos] as int));
        lemma_order_placed(nodes, placed, t, q);
    }
}

/// Whether every producer of `m` is placed.
fn is_ready(nodes: &Vec<FlowNode>, placed: &Vec<bool>, m: usize, Ghost(ord): Ghost<Seq<usize>>) -> (r: bool)
    requires
        m < nodes@.len(),
        placed@.len() == nodes@.len(),
        forall|p: int| 0 <= p < nodes@.len() ==> (placed@[p] <==> ord.contains(p as usize)),
    ensures
        r == ready(nodes@, ord, m as int),
{
    let mut p: usize = 0;
    while p < nodes.len()
        invariant
            p <= nodes@.len(),
            m < nodes@.len(),
            placed@.len() == nodes@.len(),
            forall|x: int| 0 <= x < nodes@.len() ==> (placed@[x] <==> ord.contains(x as usize)),
            forall|x: int| 0 <= x < p && #[trigger] edge(nodes@, x, m as int) ==> ord.contains(x as usize),
        decreases nodes@.len() - p,
    {
        if has_edge(nodes, p, m) && !placed[p] {
            return false;
        }
        p = p + 1;
    }
    true
}

/// The lowest unplaced drawing node that is ready, if any.
fn find_ready(nodes: &Vec<FlowNode>, placed: &Vec<bool>, Ghost(ord): Ghost<Seq<usize>>) -> (r: Option<usize>)
    requires
        placed@.len() == nodes@.len(),
        forall|p: int| 0 <= p < nodes@.len() ==> (placed@[p] <==> ord.contains(p as usize)),
    ensures
        r is Some ==> {
            let m = r->Some_0 as int;
            is_drawing(nodes@, m) && !ord.contains(m as usize) && ready(nodes@, ord, m)
                && forall|x: int| 0 <= x < m && is_drawing(nodes@, x) && !ord.contains(x as usize) ==> !#[trigger] ready(nodes@, ord, x)
        },
        r is None ==> forall|x: int| is_drawing(nodes@, x) && !ord.contains(x as usize) ==> !#[trigger] ready(nodes@, ord, x),
{
    let mut m: usize = 0;
    while m < nodes.len()
        invariant
            m <= nodes@.len(),
            placed@.len() == nodes@.len(),
            forall|p: int| 0 <= p < nodes@.len() ==> (placed@[p] <==> ord.contains(p as usize)),
            forall|x: int| 0 <= x < m && is_drawing(nodes@, x) && !ord.contains(x as usize) ==> !#[trigger] ready(nodes@, ord, x),
        decreases nodes@.len() - m,
    {
        let d = match &nodes[m] {
            FlowNode::Drawing(_) => true,
            FlowNode::Grid(_) => false,
        };
        if d && !placed[m] && is_ready(nodes, placed, m, Ghost(ord)) {
            return Some(m);
        }
        m = m + 1;
    }
    None
}

/// The first unplaced drawing node, if any.
fn find_unplaced(nodes: &Vec<FlowNode>, placed: &Vec<bool>, Ghost(ord): Ghost<Seq<usize>>) -> (r: Option<usize>)
    requires
        placed@.len() == nodes@.len(),
        forall|p: int| 0 <= p < nodes@.len() ==> (placed@[p] <==> ord.contains(p as usize)),
    ensures
        r is Some ==> is_drawing(nodes@, r->Some_0 as int) && !ord.contains(r->Some_0),
        r is None ==> forall|x: int| is_drawing(nodes@, x) ==> ord.contains(x as usize),
{
    let mut m: usize = 0;
    while m < nodes.len()
        invariant
            m <= nodes@.len(),
            placed@.len() == nodes@.len(),
            forall|p: int| 0 <= p < nodes@.len() ==> (placed@[p] <==> ord.contains(p as usize)),
            forall|x: int| 0 <= x < m && is_drawing(nodes@, x) ==> ord.contains(x as usize),
        decreases nodes@.len() - m,
    {
        let d = match &nodes[m] {
            FlowNode::Drawing(_) => true,
            FlowNode::Grid(_) => false,
        };
        if d && !placed[m] {
            return Some(m);
        }
        m = m + 1;
    }
    None
}

/// Orders the drawing nodes: producers first, ties by insertion order.
/// `None` when the graph has a cycle.
fn sort_nodes(nodes: &Vec<FlowNode>) -> (r: Option<Vec<usize>>)
    ensures
        r is Some ==> resolved_order(nodes@, r->Some_0@),
        r is None ==> !has_topo_order(nodes@),
{
    let n = nodes.len();
    let mut placed: Vec<bool> = Vec::new();
    let mut i: usize = 0;
    while i < n
        invariant
            i <= n,
            placed@.len() == i,
            forall|x: int| 0 <= x < i ==> !placed@[x],
        decreases n - i,
    {
        placed.push(false);
        i = i + 1;
    }
    let mut ord: Vec<usize> = Vec::new();
    loop
        invariant
            n == nodes@.len(),
            placed@.len() == n,
            ord@.len() <= n,
            ord@.no_duplicates(),
            forall|i: int| 0 <= i < ord@.len() ==> is_drawing(nodes@, #[trigger] ord@[i] as int),
            forall|p: int| 0 <= p < n ==> (placed@[p] <==> ord@.contains(p as usize)),
            forall|i: int, j: int|
                0 <= i < ord@.len() && 0 <= j < ord@.len() && #[trigger] edge(nodes@, ord@[i] as int, ord@[j] as int) ==> i < j,
            forall|j: int| 0 <= j < ord@.len() ==> #[trigger] ready(nodes@, ord@, ord@[j] as int),
            stable(nodes@, ord@),
        decreases n - ord@.len(),
    {
        match find_ready(nodes, &placed, Ghost(ord@)) {
            Some(c) => {
                let ghost before = ord@;
                proof {
                    lemma_distinct_below(before.push(c), n as int);
                }
                ord.push(c);
                placed.set(c, true);
                assert forall|p: int| 0 <= p < n implies (placed@[p] <==> ord@.contains(p as usize)) by {
                    assert(ord@[before.len() as int] == c);
                    if ord@.contains(p as usize) && p != c {
                        let q = choose|q: int| 0 <= q < ord@.len() && ord@[q] == p as usize;
                        assert(before[q] == p as usize);
                    }
                    if before.contains(p as usize) {
                        let q = choose|q: int| 0 <= q < before.len() && before[q] == p as usize;
                        assert(ord@[q] == p as usize);
                    }
                }
                assert forall|j: int| 0 <= j < ord@.len() implies #[trigger] ready(nodes@, ord@, ord@[j] as int) by {
                    if j < before.len() {
                        assert(ready(nodes@, before, before[j] as int));
                    }
                    assert forall|p: int| #[trigger] edge(nodes@, p, ord@[j] as int) implies ord@.contains(p as usize) by {
                        if j < before.len() {
                            assert(before.contains(p as usize));
                            let q = choose|q: int| 0 <= q < before.len() && before[q] == p as usize;
                            assert(ord@[q] == p as usize);
                        } else {
                            assert(before.contains(p as usize));
                            let q = choose|q: int| 0 <= q < before.len() && before[q] == p as usize;
                            assert(ord@[q] == p as usize);
                        }
                    }
                }
                assert forall|i: int, j: int|
                    0 <= i < ord@.len() && 0 <= j < ord@.len() && #[trigger] edge(nodes@, ord@[i] as int, ord@[j] as int) implies i < j by {
                    if i == before.len() && j < before.len() {
                        assert(ready(nodes@, before, before[j] as int));
                        assert(edge(nodes@, c as int, before[j] as int));
                        assert(before.contains(c));
                    }
                    if i == before.len() && j == before.len() {
                        assert(!edge(nodes@, c as int, c as int));
                    }
                    if i < before.len() && j < before.len() {
                        assert(edge(nodes@, before[i] as int, before[j] as int));
                    }
                }
                assert forall|k: int, m: int|
                    0 <= k < ord@.len() && is_drawing(nodes@, m) && !ord@.take(k).contains(m as usize)
                        && #[trigger] ready(nodes@, ord@.take(k), m) implies ord@[k] as int <= m by {
                    if k < before.len() {
                        assert(ord@.take(k) =~= before.take(k));
                    } else {
                        assert(ord@.take(k) =~= before);
                    }
                }
                assert(ord@.no_duplicates());
            },
            None => {
                match find_unplaced(nodes, &placed, Ghost(ord@)) {
                    Some(u) => {
                        proof {
                            lemma_stuck_is_cyclic(nodes@, ord@, u as int);
                        }
                        return None;
                    },
                    None => {
                        return Some(ord);
                    },
                }
            },
        }
    }
}

/// Some grid node of the builder names `g`.
pub open spec fn registered(nodes: Seq<FlowNode>, g: AbstractGridID) -> bool {
    exists|i: int| 0 <= i < nodes.len() && #[trigger] nodes[i] == FlowNode::Grid(g)
}

/// What is wrong with an input, if anything.
pub open spec fn input_error(nodes: Seq<FlowNode>, inp: InputSource) -> Option<FlowError> {
    match inp {
        InputSource::NodeOutput(k) => if is_drawing(nodes, k as int) {
            None
        } else {
            Some(FlowError::UnknownNode(k))
        },
        InputSource::External(g) => if registered(nodes, g) {
            None
        } else {
            Some(FlowError::UnregisteredGrid(g))
        },
    }
}

/// What is wrong with output `k` of drawing node `c`, if anything.
pub open spec fn output_error(nodes: Seq<FlowNode>, c: int, k: int) -> Option<FlowError> {
    let o = drawing(nodes, c).outputs@[k];
    match o.destination {
        OutputDestination::NodeInput(t) if !is_drawing(nodes, t as int) => Some(FlowError::UnknownNode(t)),
        OutputDestination::External(g) if !registered(nodes, g) => Some(FlowError::UnregisteredGrid(g)),
        _ => if drawing(nodes, c).pipeline.binds(o.shader_variable_name@) {
            None
        } else {
            Some(FlowError::UnboundShaderOutput { node: c as usize, output: k as usize })
        },
    }
}

/// Drawing node `c` has an input or an output with the error `e`.
pub open spec fn node_has_error(nodes: Seq<FlowNode>, c: int, e: FlowError) -> bool {
    ||| exists|k: int|
        0 <= k < drawing(nodes, c).inputs@.len() && input_error(nodes, #[trigger] drawing(nodes, c).inputs@[k]) == Some(e)
    ||| exists|k: int| 0 <= k < drawing(nodes, c).outputs@.len() && #[trigger] output_error(nodes, c, k) == Some(e)
}

pub open spec fn node_valid(nodes: Seq<FlowNode>, c: int) -> bool {
    &&& forall|k: int|
        0 <= k < drawing(nodes, c).inputs@.len() ==> input_error(nodes, #[trigger] drawing(nodes, c).inputs@[k]) is None
    &&& forall|k: int| 0 <= k < drawing(nodes, c).outputs@.len() ==> #[trigger] output_error(nodes, c, k) is None
}

/// Two drawing nodes, not both sequential, write the grid `g`.
pub open spec fn conflict(nodes: Seq<FlowNode>, g: AbstractGridID) -> bool {
    exists|a: int, b: int|
        a != b && is_drawing(nodes, a) && is_drawing(nodes, b) && #[trigger] writes_grid(nodes, a, g)
            && #[trigger] writes_grid(nodes, b, g) && !(sequential(nodes, a) && sequential(nodes, b))
}

/// Some grid node names `g`, which the group does not own.
pub open spec fn foreign_grid(group: AbstractGridGroup, nodes: Seq<FlowNode>, g: AbstractGridID) -> bool {
    registered(nodes, g) && !group.owns(g)
}

/// Every reference resolves, every output binds, and no grid has two writers
/// unless both are sequential passes.
pub open spec fn flow_valid(group: AbstractGridGroup, nodes: Seq<FlowNode>) -> bool {
    &&& forall|i: int| 0 <= i < nodes.len() && nodes[i] is Grid ==> group.owns(#[trigger] nodes[i]->Grid_0)
    &&& forall|c: int| is_drawing(nodes, c) ==> #[trigger] node_valid(nodes, c)
    &&& forall|g: AbstractGridID| !#[trigger] conflict(nodes, g)
}

/// The builder shows the error `e`.
pub open spec fn error_present(group: AbstractGridGroup, nodes: Seq<FlowNode>, e: FlowError) -> bool {
    match e {
        FlowError::CyclicRenderGraph => !has_topo_order(nodes),
        FlowError::UnknownGridID(g) => foreign_grid(group, nodes, g),
        FlowError::ConflictingGridWrite(g) => conflict(nodes, g),
        FlowError::MissingGridBinding(_) => false,
        _ => exists|c: int| is_drawing(nodes, c) && #[trigger] node_has_error(nodes, c, e),
    }
}

/// The grids of the builder's grid nodes, in insertion order.
pub open spec fn grid_nodes(nodes: Seq<FlowNode>) -> Seq<AbstractGridID>
    decreases nodes.len(),
{
    if nodes.len() == 0 {
        Seq::empty()
    } else {
        let rest = grid_nodes(nodes.drop_last());
        match nodes.last() {
            FlowNode::Grid(g) => rest.push(g),
            FlowNode::Drawing(_) => rest,
        }
    }
}

/// A grid starts as its descriptor says, and is stored unless nothing uses it afterwards.
pub open spec fn action_for(group: AbstractGridGroup, g: AbstractGridID) -> GridAction {
    GridAction {
        grid: g,
        start: group.grid_of(g).start_operation,
        store: group.grid_of(g).purpose != GridPurpose::Nothing,
    }
}

impl RenderFlowBuilder {
    pub closed spec fn nodes_spec(&self) -> Seq<FlowNode> {
        self.nodes@
    }

    pub fn new() -> (r: Self)
        ensures
            r.nodes_spec() == Seq::<FlowNode>::empty(),
    {
        RenderFlowBuilder { nodes: Vec::new() }
    }

    pub fn len(&self) -> (r: usize)
        ensures
            r == self.nodes_spec().len(),
    {
        self.nodes.len()
    }

    /// Adds a grid node; the result is its local identifier.
    pub fn add_grid_node(&mut self, grid: AbstractGridID) -> (r: usize)
        ensures
            final(self).nodes_spec() == old(self).nodes_spec().push(FlowNode::Grid(grid)),
            r == old(self).nodes_spec().len(),
    {
        let r = self.nodes.len();
        self.nodes.push(FlowNode::Grid(grid));
        r
    }

    /// Adds a drawing node; the result is its local identifier. References are
    /// checked when the flow is resolved.
    pub fn add_drawing_node(&mut self, node: DrawingNodeBuilder) -> (r: usize)
        ensures
            final(self).nodes_spec() == old(self).nodes_spec().push(FlowNode::Drawing(node)),
            r == old(self).nodes_spec().len(),
    {
        let r = self.nodes.len();
        self.nodes.push(FlowNode::Drawing(node));
        r
    }
}

fn is_registered(nodes: &Vec<FlowNode>, g: AbstractGridID) -> (r: bool)
    ensures
        r == registered(nodes@, g),
{
    let mut i: usize = 0;
    while i < nodes.len()
        invariant
            i <= nodes@.len(),
            forall|j: int| 0 <= j < i ==> #[trigger] nodes@[j] != FlowNode::Grid(g),
        decreases nodes@.len() - i,
    {
        if let FlowNode::Grid(h) = &nodes[i] {
            if *h == g {
                return true;
            }
        }
        i = i + 1;
    }
    false
}

fn is_drawing_node(nodes: &Vec<FlowNode>, k: usize) -> (r: bool)
    ensures
        r == is_drawing(nodes@, k as int),
{
    if k < nodes.len() {
        match &nodes[k] {
            FlowNode::Drawing(_) => true,
            FlowNode::Grid(_) => false,
        }
    } else {
        false
    }
}

fn pipeline_binds(p: &GraphicsPipeline, name: &String) -> (r: bool)
    ensures
        r == p.binds(name@),
{
    let mut i: usize = 0;
    while i < p.outputs.len()
        invariant
            i <= p.outputs@.len(),
            forall|j: int| 0 <= j < i ==> #[trigger] p.outputs@[j]@ != name@,
        decreases p.outputs@.len() - i,
    {
        if p.outputs[i] == *name {
            return true;
        }
        i = i + 1;
    }
    false
}

/// The first grid node that the group does not own.
fn check_grids_known(group: &AbstractGridGroup, nodes: &Vec<FlowNode>) -> (r: Option<AbstractGridID>)
    ensures
        r is None ==> forall|i: int| 0 <= i < nodes@.len() && nodes@[i] is Grid ==> group.owns(#[trigger] nodes@[i]->Grid_0),
        r is Some ==> foreign_grid(*group, nodes@, r->Some_0),
{
    let mut i: usize = 0;
    while i < nodes.len()
        invariant
            i <= nodes@.len(),
            forall|j: int| 0 <= j < i && nodes@[j] is Grid ==> group.owns(#[trigger] nodes@[j]->Grid_0),
        decreases nodes@.len() - i,
    {
        if let FlowNode::Grid(g) = &nodes[i] {
            if group.resolve(*g).is_err() {
                assert(nodes@[i as int] == FlowNode::Grid(*g));
                return Some(*g);
            }
        }
        i = i + 1;
    }
    None
}

/// The first error among the inputs and outputs of drawing node `c`.
fn check_node(nodes: &Vec<FlowNode>, c: usize) -> (r: Option<FlowError>)
    requires
        is_drawing(nodes@, c as int),
    ensures
        r is None ==> node_valid(nodes@, c as int),
        r is Some ==> node_has_error(nodes@, c as int, r->Some_0),
{
    let d = match &nodes[c] {
        FlowNode::Drawing(d) => d,
        FlowNode::Grid(_) => { return None; },
    };
    assert(*d == drawing(nodes@, c as int));
    let mut k: usize = 0;
    while k < d.inputs.len()
        invariant
            k <= d.inputs@.len(),
            *d == drawing(nodes@, c as int),
            forall|j: int| 0 <= j < k ==> input_error(nodes@, #[trigger] d.inputs@[j]) is None,
        decreases d.inputs@.len() - k,
    {
        let e = match d.inputs[k] {
            InputSource::NodeOutput(t) => if is_drawing_node(nodes, t) {
                None
            } else {
                Some(FlowError::UnknownNode(t))
            },
            InputSource::External(g) => if is_registered(nodes, g) {
                None
            } else {
                Some(FlowError::UnregisteredGrid(g))
            },
        };
        if e.is_some() {
            assert(input_error(nodes@, d.inputs@[k as int]) == e);
            return e;
        }
        k = k + 1;
    }
    let mut k: usize = 0;
    while k < d.outputs.len()
        invariant
            k <= d.outputs@.len(),
            *d == drawing(nodes@, c as int),
            forall|j: int| 0 <= j < d.inputs@.len() ==> input_error(nodes@, #[trigger] d.inputs@[j]) is None,
            forall|j: int| 0 <= j < k ==> #[trigger] output_error(nodes@, c as int, j) is None,
        decreases d.outputs@.len() - k,
    {
        let o = &d.outputs[k];
        let e = match o.destination {
            OutputDestination::NodeInput(t) if !is_drawing_node(nodes, t) => Some(FlowError::UnknownNode(t)),
            OutputDestination::External(g) if !is_registered(nodes, g) => Some(FlowError::UnregisteredGrid(g)),
            _ => if pipeline_binds(&d.pipeline, &o.shader_variable_name) {
                None
            } else {
                Some(FlowError::UnboundShaderOutput { node: c, output: k })
            },
        };
        assert(output_error(nodes@, c as int, k as int) == e);
        if e.is_some() {
            return e;
        }
        k = k + 1;
    }
    None
}

proof fn lemma_node_error(nodes: Seq<FlowNode>, c: int, e: FlowError)
    requires
        node_has_error(nodes, c, e),
    ensures
        !node_valid(nodes, c),
        e is UnknownNode || e is UnregisteredGrid || e is UnboundShaderOutput,
{
    if exists|k: int|
        0 <= k < drawing(nodes, c).inputs@.len() && input_error(nodes, #[trigger] drawing(nodes, c).inputs@[k]) == Some(e) {
        let k = choose|k: int|
            0 <= k < drawing(nodes, c).inputs@.len() && input_error(nodes, #[trigger] drawing(nodes, c).inputs@[k]) == Some(e);
        assert(input_error(nodes, drawing(nodes, c).inputs@[k]) is Some);
    } else {
        let k = choose|k: int| 0 <= k < drawing(nodes, c).outputs@.len() && #[trigger] output_error(nodes, c, k) == Some(e);
        assert(output_error(nodes, c, k) is Some);
    }
}

/// Whether a drawing node after `a` writes `g`, the two not both sequential.
fn written_after(nodes: &Vec<FlowNode>, a: usize, seq_a: bool, g: AbstractGridID) -> (r: bool)
    requires
        is_drawing(nodes@, a as int),
        seq_a == sequential(nodes@, a as int),
    ensures
        r == exists|b: int|
            a < b && is_drawing(nodes@, b) && #[trigger] writes_grid(nodes@, b, g) && !(seq_a && sequential(nodes@, b)),
{
    let mut b: usize = a;
    while b < nodes.len()
        invariant
            a <= b,
            forall|x: int|
                a < x && x <= b && is_drawing(nodes@, x) && #[trigger] writes_grid(nodes@, x, g) ==> seq_a && sequential(nodes@, x),
        decreases nodes@.len() - b,
    {
        b = b + 1;
        if b < nodes.len() {
            if let FlowNode::Drawing(d) = &nodes[b] {
                if node_writes_grid(d, g) && !(seq_a && d.sequential) {
                    assert(writes_grid(nodes@, b as int, g));
                    return true;
                }
            }
        }
    }
    false
}

/// A grid that two drawing nodes write, if any.
fn check_conflicts(nodes: &Vec<FlowNode>) -> (r: Option<AbstractGridID>)
    ensures
        r is None ==> forall|g: AbstractGridID| !#[trigger] conflict(nodes@, g),
        r is Some ==> conflict(nodes@, r->Some_0),
{
    let mut a: usize = 0;
    while a < nodes.len()
        invariant
            a <= nodes@.len(),
            forall|x: int, y: int, g: AbstractGridID|
                0 <= x < a && x < y && is_drawing(nodes@, x) && is_drawing(nodes@, y) && #[trigger] writes_grid(nodes@, x, g)
                    && #[trigger] writes_grid(nodes@, y, g) ==> sequential(nodes@, x) && sequential(nodes@, y),
        decreases nodes@.len() - a,
    {
        if let FlowNode::Drawing(d) = &nodes[a] {
            assert(*d == drawing(nodes@, a as int));
            let mut k: usize = 0;
            while k < d.outputs.len()
                invariant
                    k <= d.outputs@.len(),
                    a < nodes@.len(),
                    is_drawing(nodes@, a as int),
                    *d == drawing(nodes@, a as int),
                    forall|x: int, y: int, g: AbstractGridID|
                        0 <= x < a && x < y && is_drawing(nodes@, x) && is_drawing(nodes@, y) && #[trigger] writes_grid(nodes@, x, g)
                            && #[trigger] writes_grid(nodes@, y, g) ==> sequential(nodes@, x) && sequential(nodes@, y),
                    forall|j: int, y: int|
                        0 <= j < k && d.outputs@[j].destination is External && a < y && is_drawing(nodes@, y)
                            && #[trigger] writes_grid(nodes@, y, d.outputs@[j].destination->External_0)
                            ==> d.sequential && sequential(nodes@, y),
                decreases d.outputs@.len() - k,
            {
                if let OutputDestination::External(g) = d.outputs[k].destination {
                    if written_after(nodes, a, d.sequential, g) {
                        assert(writes_grid(nodes@, a as int, g));
                        proof {
                            let b = choose|b: int|
                                a < b && is_drawing(nodes@, b) && #[trigger] writes_grid(nodes@, b, g) && !(d.sequential
                                    && sequential(nodes@, b));
                            assert(a as int != b);
                            assert(is_drawing(nodes@, a as int));
                            assert(conflict(nodes@, g));
                        }
                        return Some(g);
                    }
                }
                k = k + 1;
            }
            assert forall|x: int, y: int, g: AbstractGridID|
                0 <= x < a + 1 && x < y && is_drawing(nodes@, x) && is_drawing(nodes@, y) && #[trigger] writes_grid(nodes@, x, g)
                    && #[trigger] writes_grid(nodes@, y, g) implies sequential(nodes@, x) && sequential(nodes@, y) by {
                if x == a {
                    let j = choose|j: int| 0 <= j < d.outputs@.len()
                        && #[trigger] d.outputs@[j].destination == OutputDestination::External(g);
                    assert(d.outputs@[j].destination is External);
                    assert(d.outputs@[j].destination->External_0 == g);
                }
            }
        }
        a = a + 1;
    }
    assert forall|g: AbstractGridID| !#[trigger] conflict(nodes@, g) by {
        if conflict(nodes@, g) {
            let (x, y) = choose|x: int, y: int|
                x != y && is_drawing(nodes@, x) && is_drawing(nodes@, y) && #[trigger] writes_grid(nodes@, x, g)
                    && #[trigger] writes_grid(nodes@, y, g) && !(sequential(nodes@, x) && sequential(nodes@, y));
            if x < y {
                assert(writes_grid(nodes@, y, g));
            } else {
                assert(writes_grid(nodes@, x, g));
            }
        }
    }
    None
}

/// The actions of the builder's grids, in insertion order.
fn grid_actions(group: &AbstractGridGroup, nodes: &Vec<FlowNode>) -> (r: Vec<GridAction>)
    requires
        forall|i: int| 0 <= i < nodes@.len() && nodes@[i] is Grid ==> group.owns(#[trigger] nodes@[i]->Grid_0),
    ensures
        r@.len() == grid_nodes(nodes@).len(),
        forall|k: int| 0 <= k < r@.len() ==> #[trigger] r@[k] == action_for(*group, grid_nodes(nodes@)[k]),
{
    let mut r: Vec<GridAction> = Vec::new();
    let mut i: usize = 0;
    while i < nodes.len()
        invariant
            i <= nodes@.len(),
            forall|j: int| 0 <= j < nodes@.len() && nodes@[j] is Grid ==> group.owns(#[trigger] nodes@[j]->Grid_0),
            r@.len() == grid_nodes(nodes@.take(i as int)).len(),
            forall|k: int| 0 <= k < r@.len() ==> #[trigger] r@[k] == action_for(*group, grid_nodes(nodes@.take(i as int))[k]),
        decreases nodes@.len() - i,
    {
        assert(nodes@.take(i + 1).drop_last() =~= nodes@.take(i as int));
        assert(nodes@.take(i + 1).last() == nodes@[i as int]);
        if let FlowNode::Grid(g) = &nodes[i] {
            let grid = match group.resolve(*g) {
                Ok(grid) => grid,
                Err(_) => { return r; },
            };
            r.push(GridAction {
                grid: *g,
                start: grid.start_operation,
                store: grid.purpose != GridPurpose::Nothing,
            });
        }
        i = i + 1;
    }
    assert(nodes@.take(nodes@.len() as int) =~= nodes@);
    r
}

impl AbstractGridGroup {
    /// A builder for a flow over this group's grids.
    pub fn create_render_flow_builder(&self) -> (r: RenderFlowBuilder)
        ensures
            r.nodes_spec() == Seq::<FlowNode>::empty(),
    {
        RenderFlowBuilder::new()
    }

    /// Resolves a builder into a flow: drawing nodes ordered producers first, ties
    /// by insertion order, and a load/store action for each grid node.
    /// A cycle is reported before any other error.
    pub fn create_render_flow(&self, builder: RenderFlowBuilder) -> (r: Result<RenderFlow, FlowError>)
        ensures
            r is Ok ==> r->Ok_0.nodes_spec() == builder.nodes_spec(),
            r is Ok <==> has_topo_order(builder.nodes_spec()) && flow_valid(*self, builder.nodes_spec()),
            (r == Err::<RenderFlow, FlowError>(FlowError::CyclicRenderGraph)) <==> !has_topo_order(builder.nodes_spec()),
            r is Err ==> error_present(*self, builder.nodes_spec(), r->Err_0),
            r is Ok ==> resolved_order(builder.nodes_spec(), r->Ok_0.order_spec()),
            r is Ok ==> r->Ok_0.actions_spec().len() == grid_nodes(builder.nodes_spec()).len(),
            r is Ok ==> forall|k: int|
                0 <= k < r->Ok_0.actions_spec().len() ==> #[trigger] r->Ok_0.actions_spec()[k] == action_for(
                    *self,
                    grid_nodes(builder.nodes_spec())[k],
                ),
    {
        let nodes = &builder.nodes;
        let order = match sort_nodes(nodes) {
            Some(order) => order,
            None => { return Err(FlowError::CyclicRenderGraph); },
        };
        assert(topo_order(nodes@, order@));
        assert(has_topo_order(nodes@));
        if let Some(g) = check_grids_known(self, nodes) {
            return Err(FlowError::UnknownGridID(g));
        }
        let mut c: usize = 0;
        while c < nodes.len()
            invariant
                c <= nodes@.len(),
                nodes@ == builder.nodes_spec(),
                has_topo_order(nodes@),
                resolved_order(nodes@, order@),
                forall|i: int| 0 <= i < nodes@.len() && nodes@[i] is Grid ==> self.owns(#[trigger] nodes@[i]->Grid_0),
                forall|x: int| 0 <= x < c && is_drawing(nodes@, x) ==> #[trigger] node_valid(nodes@, x),
            decreases nodes@.len() - c,
        {
            if is_drawing_node(nodes, c) {
                if let Some(e) = check_node(nodes, c) {
                    proof {
                        lemma_node_error(nodes@, c as int, e);
                    }
                    return Err(e);
                }
            }
            c = c + 1;
        }
        if let Some(g) = check_conflicts(nodes) {
            return Err(FlowError::ConflictingGridWrite(g));
        }
        let actions = grid_actions(self, nodes);
        Ok(RenderFlow { nodes: builder.nodes, order, actions })
    }
}

impl RenderFlow {
    /// The builder's nodes; draw commands name them by position.
    pub closed spec fn nodes_spec(&self) -> Seq<FlowNode> {
        self.nodes@
    }

    pub fn nodes(&self) -> (r: &Vec<FlowNode>)
        ensures
            r@ == self.nodes_spec(),
    {
        &self.nodes
    }

    pub closed spec fn order_spec(&self) -> Seq<usize> {
        self.order@
    }

    pub closed spec fn actions_spec(&self) -> Seq<GridAction> {
        self.actions@
    }

    /// The drawing nodes, by local identifier, in execution order.
    pub fn order(&self) -> (r: &Vec<usize>)
        ensures
            r@ == self.order_spec(),
    {
        &self.order
    }

    /// The load and store actions of the flow's grids.
    pub fn actions(&self) -> (r: &Vec<GridAction>)
        ensures
            r@ == self.actions_spec(),
    {
        &self.actions
    }

    /// Every grid of the flow has a binding in `bound`.
    pub open spec fn all_bound(&self, bound: Seq<AbstractGridID>) -> bool {
        forall|k: int| 0 <= k < self.actions_spec().len() ==> bound.contains(#[trigger] self.actions_spec()[k].grid)
    }

    /// Replays the flow against the grids in `bound`: one draw operation per
    /// drawing node, in order. Fails with `MissingGridBinding` naming the first
    /// grid of the flow that has no binding.
    pub fn execute(&self, bound: &Vec<AbstractGridID>) -> (r: Result<Vec<DrawCommand>, FlowError>)
        ensures
            r is Ok <==> self.all_bound(bound@),
            r is Ok ==> r->Ok_0@.len() == self.order_spec().len() && forall|k: int|
                0 <= k < self.order_spec().len() ==> #[trigger] r->Ok_0@[k] == (DrawCommand { node: self.order_spec()[k] }),
            r is Err ==> exists|k: int|
                0 <= k < self.actions_spec().len() && !bound@.contains(#[trigger] self.actions_spec()[k].grid)
                    && r->Err_0 == FlowError::MissingGridBinding(self.actions_spec()[k].grid),
    {
        let mut k: usize = 0;
        while k < self.actions.len()
            invariant
                k <= self.actions@.len(),
                forall|j: int| 0 <= j < k ==> bound@.contains(#[trigger] self.actions@[j].grid),
            decreases self.actions@.len() - k,
        {
            let g = self.actions[k].grid;
            let mut i: usize = 0;
            let mut found = false;
            while i < bound.len()
                invariant
                    i <= bound@.len(),
                    found == exists|j: int| 0 <= j < i && bound@[j] == g,
                decreases bound@.len() - i,
            {
                if bound[i] == g {
                    found = true;
                }
                i = i + 1;
            }
            if !found {
                return Err(FlowError::MissingGridBinding(g));
            }
            k = k + 1;
        }
        let mut cmds: Vec<DrawCommand> = Vec::new();
        let mut i: usize = 0;
        while i < self.order.len()
            invariant
                i <= self.order@.len(),
                cmds@.len() == i,
                forall|j: int| 0 <= j < i ==> #[trigger] cmds@[j] == (DrawCommand { node: self.order@[j] }),
            decreases self.order@.len() - i,
        {
            cmds.push(DrawCommand { node: self.order[i] });
            i = i + 1;
        }
        Ok(cmds)
    }
}

/// In a topological order, the node at position `k` is ready after the nodes
/// before it, and is not among them.
proof fn lemma_ready_at(nodes: Seq<FlowNode>, o: Seq<usize>, k: int)
    requires
        nodes.len() <= usize::MAX,
        topo_order(nodes, o),
        0 <= k < o.len(),
    ensures
        ready(nodes, o.take(k), o[k] as int),
        !o.take(k).contains(o[k]),
        is_drawing(nodes, o[k] as int),
{
    assert forall|p: int| #[trigger] edge(nodes, p, o[k] as int) implies o.take(k).contains(p as usize) by {
        assert(is_drawing(nodes, p));
        assert(o.contains(p as usize));
        let q = choose|q: int| 0 <= q < o.len() && o[q] == p as usize;
        assert(o[q] as int == p);
        assert(edge(nodes, o[q] as int, o[k] as int));
        assert(o.take(k)[q] == p as usize);
    }
    if o.take(k).contains(o[k]) {
        let q = choose|q: int| 0 <= q < k && o.take(k)[q] == o[k];
        assert(o[q] == o[k]);
    }
}

proof fn lemma_prefixes_agree(nodes: Seq<FlowNode>, o1: Seq<usize>, o2: Seq<usize>, k: int)
    requires
        nodes.len() <= usize::MAX,
        resolved_order(nodes, o1),
        resolved_order(nodes, o2),
        0 <= k <= o1.len(),
        k <= o2.len(),
    ensures
        o1.take(k) == o2.take(k),
    decreases k,
{
    if k == 0 {
        assert(o1.take(0) =~= o2.take(0));
    } else {
        lemma_prefixes_agree(nodes, o1, o2, k - 1);
        let x = o1[k - 1];
        let y = o2[k - 1];
        lemma_ready_at(nodes, o1, k - 1);
        lemma_ready_at(nodes, o2, k - 1);
        assert(ready(nodes, o1.take(k - 1), y as int));
        assert(ready(nodes, o2.take(k - 1), x as int));
        assert(x as int <= y as int);
        assert(y as int <= x as int);
        assert(o1.take(k) =~= o1.take(k - 1).push(x));
        assert(o2.take(k) =~= o2.take(k - 1).push(y));
    }
}

/// Resolution is deterministic: a builder has one resolved order, so resolving it
/// twice yields the same order.
pub proof fn lemma_resolution_deterministic(nodes: Seq<FlowNode>, o1: Seq<usize>, o2: Seq<usize>)
    requires
        nodes.len() <= usize::MAX,
        resolved_order(nodes, o1),
        resolved_order(nodes, o2),
    ensures
        o1 == o2,
{
    if o1.len() < o2.len() {
        lemma_prefixes_agree(nodes, o1, o2, o1.len() as int);
        let l = o1.len() as int;
        assert(o1.take(l) =~= o1);
        assert(is_drawing(nodes, o2[l] as int));
        assert(o1.contains((o2[l] as int) as usize));
        let q = choose|q: int| 0 <= q < l && o1[q] == o2[l];
        assert(o2.take(l)[q] == o2[q]);
    } else if o2.len() < o1.len() {
        lemma_prefixes_agree(nodes, o1, o2, o2.len() as int);
        let l = o2.len() as int;
        assert(o2.take(l) =~= o2);
        assert(is_drawing(nodes, o1[l] as int));
        assert(o2.contains((o1[l] as int) as usize));
        let q = choose|q: int| 0 <= q < l && o2[q] == o1[l];
        assert(o1.take(l)[q] == o1[q]);
    } else {
        lemma_prefixes_agree(nodes, o1, o2, o1.len() as int);
        assert(o1.take(o1.len() as int) =~= o1);
        assert(o2.take(o2.len() as int) =~= o2);
    }
}

/// In a resolved order every consumer appears after each of its producers.
pub proof fn lemma_consumer_after_producer(nodes: Seq<FlowNode>, ord: Seq<usize>, p: int, c: int)
    requires
        nodes.len() <= usize::MAX,
        resolved_order(nodes, ord),
        edge(nodes, p, c),
    ensures
        exists|i: int, j: int| 0 <= i < j < ord.len() && ord[i] as int == p && ord[j] as int == c,
{
    assert(ord.contains(p as usize));
    assert(ord.contains(c as usize));
    let i = choose|i: int| 0 <= i < ord.len() && ord[i] == p as usize;
    let j = choose|j: int| 0 <= j < ord.len() && ord[j] == c as usize;
    assert(edge(nodes, ord[i] as int, ord[j] as int));
}

/// Two drawing nodes that each consume what the other produces form a cycle:
/// no order exists, so resolution fails with `CyclicRenderGraph`.
pub proof fn lemma_mutual_consumers_cyclic(nodes: Seq<FlowNode>, a: int, b: int)
    requires
        nodes.len() <= usize::MAX,
        edge(nodes, a, b),
        edge(nodes, b, a),
    ensures
        !has_topo_order(nodes),
{
    if has_topo_order(nodes) {
        let t = choose|t: Seq<usize>| topo_order(nodes, t);
        assert(t.contains(a as usize));
        assert(t.contains(b as usize));
        let i = choose|i: int| 0 <= i < t.len() && t[i] == a as usize;
        let j = choose|j: int| 0 <= j < t.len() && t[j] == b as usize;
        assert(edge(nodes, t[i] as int, t[j] as int));
        assert(edge(nodes, t[j] as int, t[i] as int));
    }
}

} // verus!
