//! The color node editor's dataflow graph and its evaluator: typed nodes
//! connected by directed links from output pins to input pins, recomputed in
//! dependency order by a post-order walk with per-pass markers, so that
//! downstream nodes see up-to-date upstream values and cycles cannot recurse
//! without bound.

use vstd::prelude::*;

use crate::value::{
    spec_add, spec_mul, spec_sin_times_pi, spec_time_value, Value, FRACTION_ONE,
};
use crate::{AttributeId, IdentifierGenerator, InputPinId, LinkId, NodeId, OutputPinId};

verus! {

/// The fallback for an output channel whose input pin has no incoming link:
/// the raw bits of 0.1.
pub const DEFAULT_CHANNEL_BITS: i32 = 6554;

/// Pins of an addition node.
#[derive(Debug, Clone, Copy, PartialEq, Eq, Structural)]
pub struct AddData {
    /// The single input pin.
    pub input: InputPinId,
    /// The output pin.
    pub output: OutputPinId,
}

/// Pins of a multiplication node.
#[derive(Debug, Clone, Copy, PartialEq, Eq, Structural)]
pub struct MultData {
    /// The single input pin.
    pub input: InputPinId,
    /// The output pin.
    pub output: OutputPinId,
}

/// Pins and channel values of the designated output node.
#[derive(Debug, Clone, Copy, PartialEq, Eq, Structural)]
pub struct OutData {
    /// The input pin feeding the red channel.
    pub input_red: InputPinId,
    /// The input pin feeding the green channel.
    pub input_green: InputPinId,
    /// The input pin feeding the blue channel.
    pub input_blue: InputPinId,
    /// The red channel value.
    pub red: Value,
    /// The green channel value.
    pub green: Value,
    /// The blue channel value.
    pub blue: Value,
}

/// Pins of a sine node.
#[derive(Debug, Clone, Copy, PartialEq, Eq, Structural)]
pub struct SineData {
    /// The single input pin.
    pub input: InputPinId,
    /// The output pin.
    pub output: OutputPinId,
}

/// Pins of a time node.
#[derive(Debug, Clone, Copy, PartialEq, Eq, Structural)]
pub struct TimeData {
    /// The output pin.
    pub output: OutputPinId,
}

/// Pins of a constant node, whose value is set by the user.
#[derive(Debug, Clone, Copy, PartialEq, Eq, Structural)]
pub struct ConstData {
    /// The output pin.
    pub output: OutputPinId,
    /// The attribute carrying the user's slider.
    pub attribute: AttributeId,
}

/// The kind of a node, with its pins.
#[derive(Debug, Clone, Copy, PartialEq, Eq, Structural)]
pub enum NodeType {
    /// Sum of all predecessor values; 0.0 with no predecessor.
    Add(AddData),
    /// Product of all predecessor values; 1.0 with no predecessor.
    Multiply(MultData),
    /// The terminal sink: three input channels, no output pin.
    Output(OutData),
    /// Sine of the first predecessor value times pi; 0.0 with no predecessor.
    Sine(SineData),
    /// The current time as a sawtooth in [0.0, 1.0) with a one-second period.
    Time(TimeData),
    /// A value set by the user; the evaluator never changes it.
    Constant(ConstData),
}

/// A node of the dataflow graph.
#[derive(Debug, Clone, Copy, PartialEq, Eq, Structural)]
pub struct Node {
    /// The node's identity.
    pub id: NodeId,
    /// The node's kind and pins.
    pub typ: NodeType,
    /// The node's current scalar value.
    pub value: Value,
    /// The per-pass marker that prevents unbounded recursion on cycles.
    pub updated: bool,
}

/// A directed edge of the dataflow graph, from an output pin to an input pin.
#[derive(Debug, Clone, Copy, PartialEq, Eq, Structural)]
pub struct Link {
    /// The link's identity.
    pub id: LinkId,
    /// The output pin where the link starts.
    pub start: OutputPinId,
    /// The input pin where the link ends.
    pub end: InputPinId,
}

/// The dataflow graph: all nodes and all links.
#[derive(Debug, Clone, PartialEq, Eq)]
pub struct Graph {
    /// The nodes, in insertion order.
    pub nodes: Vec<Node>,
    /// The links, in insertion order.
    pub links: Vec<Link>,
}

/// The input pins of a node.
pub open spec fn spec_inputs(n: Node) -> Seq<InputPinId> {
    match n.typ {
        NodeType::Add(d) => seq![d.input],
        NodeType::Multiply(d) => seq![d.input],
        NodeType::Sine(d) => seq![d.input],
        NodeType::Output(d) => seq![d.input_red, d.input_green, d.input_blue],
        NodeType::Time(_) => seq![],
        NodeType::Constant(_) => seq![],
    }
}

/// Whether a node owns the given output pin.
pub open spec fn spec_has_output(n: Node, out: OutputPinId) -> bool {
    match n.typ {
        NodeType::Add(d) => d.output == out,
        NodeType::Multiply(d) => d.output == out,
        NodeType::Sine(d) => d.output == out,
        NodeType::Time(d) => d.output == out,
        NodeType::Constant(d) => d.output == out,
        NodeType::Output(_) => false,
    }
}

/// The index of the first node at or after position `k` owning the given
/// output pin.
pub open spec fn first_owner_from(ns: Seq<Node>, pin: OutputPinId, k: int) -> Option<int>
    decreases ns.len() - k,
{
    if k < 0 || k >= ns.len() {
        None
    } else if spec_has_output(ns[k], pin) {
        Some(k)
    } else {
        first_owner_from(ns, pin, k + 1)
    }
}

/// The index of the first node owning the given output pin.
pub open spec fn first_owner(ns: Seq<Node>, pin: OutputPinId) -> Option<int> {
    first_owner_from(ns, pin, 0)
}

/// The predecessors contributed by the first `k` links: for each link, in
/// order, that ends at one of node `i`'s input pins, the index of the first
/// node owning the pin where the link starts, if there is one.
pub open spec fn preds_upto(ns: Seq<Node>, ls: Seq<Link>, i: int, k: int) -> Seq<int>
    decreases k,
{
    if k <= 0 {
        Seq::empty()
    } else {
        let rest = preds_upto(ns, ls, i, k - 1);
        if spec_inputs(ns[i]).contains(ls[k - 1].end) {
            match first_owner(ns, ls[k - 1].start) {
                Some(j) => rest.push(j),
                None => rest,
            }
        } else {
            rest
        }
    }
}

/// The predecessor node indices of node `i`, in link order.
pub open spec fn preds(ns: Seq<Node>, ls: Seq<Link>, i: int) -> Seq<int> {
    preds_upto(ns, ls, i, ls.len() as int)
}

/// The raw values of the nodes at the given indices.
pub open spec fn pred_values(ns: Seq<Node>, ps: Seq<int>) -> Seq<int> {
    ps.map_values(|j: int| ns[j].value@)
}

/// The saturating sum of a sequence of values, folded from the left,
/// starting from 0.0.
pub open spec fn sum_fold(vals: Seq<int>) -> int
    decreases vals.len(),
{
    if vals.len() == 0 {
        0
    } else {
        spec_add(sum_fold(vals.drop_last()), vals.last())
    }
}

/// The saturating product of a sequence of values, folded from the left,
/// starting from 1.0.
pub open spec fn product_fold(vals: Seq<int>) -> int
    decreases vals.len(),
{
    if vals.len() == 0 {
        FRACTION_ONE as int
    } else {
        spec_mul(product_fold(vals.drop_last()), vals.last())
    }
}

/// The value a node takes from its kind, its predecessors' values, and the
/// time sample of the pass. Constant and Output nodes keep their own value.
pub open spec fn combine(n: Node, vals: Seq<int>, t: int) -> int {
    match n.typ {
        NodeType::Add(_) => sum_fold(vals),
        NodeType::Multiply(_) => product_fold(vals),
        NodeType::Sine(_) => if vals.len() == 0 {
            0
        } else {
            spec_sin_times_pi(vals[0])
        },
        NodeType::Time(_) => t,
        NodeType::Constant(_) => n.value@,
        NodeType::Output(_) => n.value@,
    }
}

impl Node {
    /// Whether this node owns the given output pin.
    pub fn has_output(&self, out: OutputPinId) -> (r: bool)
        ensures
            r == spec_has_output(*self, out),
    {
        match self.typ {
            NodeType::Add(AddData { output, .. }) => output == out,
            NodeType::Multiply(MultData { output, .. }) => output == out,
            NodeType::Sine(SineData { output, .. }) => output == out,
            NodeType::Time(TimeData { output, .. }) => output == out,
            NodeType::Constant(ConstData { output, .. }) => output == out,
            NodeType::Output(_) => false,
        }
    }

    /// This node's input pins.
    pub fn get_inputs(&self) -> (r: Vec<InputPinId>)
        ensures
            r@ == spec_inputs(*self),
    {
        match self.typ {
            NodeType::Add(AddData { input, .. }) => {
                let mut v: Vec<InputPinId> = Vec::new();
                v.push(input);
                proof {
                    assert(v@ =~= spec_inputs(*self));
                }
                v
            }
            NodeType::Multiply(MultData { input, .. }) => {
                let mut v: Vec<InputPinId> = Vec::new();
                v.push(input);
                proof {
                    assert(v@ =~= spec_inputs(*self));
                }
                v
            }
            NodeType::Sine(SineData { input, .. }) => {
                let mut v: Vec<InputPinId> = Vec::new();
                v.push(input);
                proof {
                    assert(v@ =~= spec_inputs(*self));
                }
                v
            }
            NodeType::Output(OutData { input_red, input_green, input_blue, .. }) => {
                let mut v: Vec<InputPinId> = Vec::new();
                v.push(input_red);
                v.push(input_green);
                v.push(input_blue);
                proof {
                    assert(v@ =~= spec_inputs(*self));
                }
                v
            }
            NodeType::Time(_) => {
                let v: Vec<InputPinId> = Vec::new();
                proof {
                    assert(v@ =~= spec_inputs(*self));
                }
                v
            }
            NodeType::Constant(_) => {
                let v: Vec<InputPinId> = Vec::new();
                proof {
                    assert(v@ =~= spec_inputs(*self));
                }
                v
            }
        }
    }
}

/// The index of the first node owning the given output pin, if any.
fn find_output_owner(graph: &Graph, pin: OutputPinId) -> (r: Option<usize>)
    ensures
        match r {
            Some(j) => first_owner(graph.nodes@, pin) == Some(j as int) && j < graph.nodes.len(),
            None => first_owner(graph.nodes@, pin) is None,
        },
{
    let n = graph.nodes.len();
    let mut j: usize = 0;
    while j < n
        invariant
            j <= n,
            n == graph.nodes.len(),
            first_owner(graph.nodes@, pin) == first_owner_from(graph.nodes@, pin, j as int),
        decreases n - j,
    {
        if graph.nodes[j].has_output(pin) {
            return Some(j);
        }
        j = j + 1;
    }
    None
}


/// The nodes with node `i` marked as updated.
pub open spec fn mark(ns: Seq<Node>, i: int) -> Seq<Node> {
    ns.update(i, Node { id: ns[i].id, typ: ns[i].typ, value: ns[i].value, updated: true })
}

/// The nodes with node `i`'s value replaced by the given raw bits.
pub open spec fn set_value_bits(ns: Seq<Node>, i: int, b: int) -> Seq<Node> {
    ns.update(
        i,
        Node { id: ns[i].id, typ: ns[i].typ, value: (Value { bits: b as i32 }), updated: ns[i].updated },
    )
}

/// The nodes with every marker reset.
pub open spec fn clear_marks(ns: Seq<Node>) -> Seq<Node> {
    Seq::new(ns.len(), |j: int| Node { id: ns[j].id, typ: ns[j].typ, value: ns[j].value, updated: false })
}

/// How many nodes are not yet marked as updated.
pub open spec fn unmarked_count(ns: Seq<Node>) -> nat
    decreases ns.len(),
{
    if ns.len() == 0 {
        0
    } else {
        unmarked_count(ns.drop_last()) + if ns.last().updated {
            0nat
        } else {
            1nat
        }
    }
}

/// Whether two node sequences agree on everything the traversal reads:
/// length, identities and kinds (with their pins).
pub open spec fn static_same(a: Seq<Node>, b: Seq<Node>) -> bool {
    &&& a.len() == b.len()
    &&& forall|j: int| 0 <= j < a.len() ==> a[j].typ == b[j].typ && a[j].id == b[j].id
}

/// One evaluation of node `i`: nothing happens if the index is out of range
/// or the node is already marked; otherwise the node is marked at entry (so
/// that cycles terminate), its unmarked predecessors are evaluated in link
/// order, and its value is then computed from its kind and its predecessors'
/// values. The fuel only serves to found the recursion; one more than the
/// number of unmarked nodes is always enough.
pub open spec fn eval_node(ns: Seq<Node>, ls: Seq<Link>, i: int, t: int, fuel: nat) -> Seq<Node>
    decreases fuel, 0nat,
{
    if fuel == 0 {
        ns
    } else if !(0 <= i < ns.len()) || ns[i].updated {
        ns
    } else {
        let marked = mark(ns, i);
        let ps = preds(marked, ls, i);
        let after = eval_list(marked, ls, ps, t, (fuel - 1) as nat);
        set_value_bits(after, i, combine(after[i], pred_values(after, ps), t))
    }
}

/// Evaluation of a list of node indices, left to right.
pub open spec fn eval_list(ns: Seq<Node>, ls: Seq<Link>, ps: Seq<int>, t: int, fuel: nat) -> Seq<Node>
    decreases fuel, ps.len() + 1,
{
    if ps.len() == 0 {
        ns
    } else {
        eval_list(eval_node(ns, ls, ps[0], t, fuel), ls, ps.drop_first(), t, fuel)
    }
}

/// The first node index, searching the links from position `k` on, that a
/// link ending at the given pin resolves to.
pub open spec fn find_src_from(ns: Seq<Node>, ls: Seq<Link>, pin: InputPinId, k: int) -> Option<int>
    decreases ls.len() - k,
{
    if k < 0 || k >= ls.len() {
        None
    } else if ls[k].end == pin {
        match first_owner(ns, ls[k].start) {
            Some(j) => Some(j),
            None => find_src_from(ns, ls, pin, k + 1),
        }
    } else {
        find_src_from(ns, ls, pin, k + 1)
    }
}

/// One output-channel sub-pass: find the node feeding the given input pin;
/// if there is one, reset every marker and evaluate it, yielding its value;
/// otherwise fall back to the default channel value.
pub open spec fn eval_channel(ns: Seq<Node>, ls: Seq<Link>, pin: InputPinId, t: int) -> (Seq<Node>, int) {
    match find_src_from(ns, ls, pin, 0) {
        None => (ns, DEFAULT_CHANNEL_BITS as int),
        Some(j) => {
            let after = eval_node(clear_marks(ns), ls, j, t, (ns.len() + 1) as nat);
            (after, after[j].value@)
        }
    }
}

/// A whole evaluation request for the output node: reset every marker, then
/// evaluate the red, green and blue channels as independent sub-passes, each
/// with its own time sample, and record the three results in the output
/// node's channel fields.
pub open spec fn update_output_model(
    ns: Seq<Node>,
    ls: Seq<Link>,
    oi: int,
    t1: int,
    t2: int,
    t3: int,
) -> Seq<Node> {
    let c = clear_marks(ns);
    if !(0 <= oi < ns.len()) {
        c
    } else {
        match c[oi].typ {
            NodeType::Output(d) => output_pass(c, ls, oi, d, t1, t2, t3),
            _ => c,
        }
    }
}

/// The three values one output pass delivers to the channels: each channel
/// sub-pass runs on the state the previous one left.
pub open spec fn pass_values(
    c: Seq<Node>,
    ls: Seq<Link>,
    dd: OutData,
    t1: int,
    t2: int,
    t3: int,
) -> (int, int, int) {
    let (ns1, red) = eval_channel(c, ls, dd.input_red, t1);
    let (ns2, green) = eval_channel(ns1, ls, dd.input_green, t2);
    let (ns3, blue) = eval_channel(ns2, ls, dd.input_blue, t3);
    (red, green, blue)
}

/// One full output pass over an already-reset graph: the three channel
/// sub-passes, then the three results recorded on the output node.
pub open spec fn output_pass(
    c: Seq<Node>,
    ls: Seq<Link>,
    oi: int,
    dd: OutData,
    t1: int,
    t2: int,
    t3: int,
) -> Seq<Node> {
    let (ns1, red) = eval_channel(c, ls, dd.input_red, t1);
    let (ns2, green) = eval_channel(ns1, ls, dd.input_green, t2);
    let (ns3, blue) = eval_channel(ns2, ls, dd.input_blue, t3);
    ns3.update(
        oi,
        Node {
            id: ns3[oi].id,
            typ: NodeType::Output(
                OutData {
                    input_red: dd.input_red,
                    input_green: dd.input_green,
                    input_blue: dd.input_blue,
                    red: (Value { bits: red as i32 }),
                    green: (Value { bits: green as i32 }),
                    blue: (Value { bits: blue as i32 }),
                },
            ),
            value: ns3[oi].value,
            updated: ns3[oi].updated,
        },
    )
}


/// Updating one node changes the unmarked count exactly by the change in
/// that node's marker.
proof fn lemma_count_update(ns: Seq<Node>, i: int, nd: Node)
    requires
        0 <= i < ns.len(),
    ensures
        unmarked_count(ns.update(i, nd)) + (if !ns[i].updated { 1nat } else { 0nat })
            == unmarked_count(ns) + (if !nd.updated { 1nat } else { 0nat }),
    decreases ns.len(),
{
    let m = ns.update(i, nd);
    if i == ns.len() - 1 {
        assert(m.drop_last() =~= ns.drop_last());
    } else {
        assert(m.drop_last() =~= ns.drop_last().update(i, nd));
        lemma_count_update(ns.drop_last(), i, nd);
    }
}

/// The unmarked count never exceeds the number of nodes.
proof fn lemma_count_le_len(ns: Seq<Node>)
    ensures
        unmarked_count(ns) <= ns.len(),
    decreases ns.len(),
{
    if ns.len() > 0 {
        lemma_count_le_len(ns.drop_last());
    }
}

/// Frame facts about one node evaluation: the length, identities and kinds
/// are untouched; nodes already marked are untouched entirely; markers only
/// grow; and the unmarked count cannot rise — it strictly falls when the
/// evaluated node was unmarked.
proof fn lemma_eval_node_frame(ns: Seq<Node>, ls: Seq<Link>, i: int, t: int, fuel: nat)
    ensures
        ({
            let r = eval_node(ns, ls, i, t, fuel);
            &&& r.len() == ns.len()
            &&& static_same(ns, r)
            &&& forall|j: int| 0 <= j < ns.len() && ns[j].updated ==> r[j] == ns[j]
            &&& forall|j: int| 0 <= j < ns.len() && ns[j].updated ==> r[j].updated
            &&& unmarked_count(r) <= unmarked_count(ns)
            &&& (fuel > 0 && 0 <= i < ns.len() && !ns[i].updated ==> unmarked_count(r)
                < unmarked_count(ns) && r[i].updated)
        }),
    decreases fuel, 0nat,
{
    if fuel == 0 || !(0 <= i < ns.len()) || ns[i].updated {
    } else {
        let marked = mark(ns, i);
        let ps = preds(marked, ls, i);
        lemma_count_update(ns, i, marked[i]);
        lemma_eval_list_frame(marked, ls, ps, t, (fuel - 1) as nat);
        let after = eval_list(marked, ls, ps, t, (fuel - 1) as nat);
        lemma_count_update(after, i, set_value_bits(after, i, combine(after[i], pred_values(after, ps), t))[i]);
    }
}

/// Frame facts about evaluating a list of node indices.
proof fn lemma_eval_list_frame(ns: Seq<Node>, ls: Seq<Link>, ps: Seq<int>, t: int, fuel: nat)
    ensures
        ({
            let r = eval_list(ns, ls, ps, t, fuel);
            &&& r.len() == ns.len()
            &&& static_same(ns, r)
            &&& forall|j: int| 0 <= j < ns.len() && ns[j].updated ==> r[j] == ns[j]
            &&& forall|j: int| 0 <= j < ns.len() && ns[j].updated ==> r[j].updated
            &&& unmarked_count(r) <= unmarked_count(ns)
        }),
    decreases fuel, ps.len() + 1,
{
    if ps.len() == 0 {
    } else {
        lemma_eval_node_frame(ns, ls, ps[0], t, fuel);
        lemma_eval_list_frame(eval_node(ns, ls, ps[0], t, fuel), ls, ps.drop_first(), t, fuel);
    }
}

/// Any fuel beyond the number of unmarked nodes gives the same evaluation.
proof fn lemma_eval_node_fuel(ns: Seq<Node>, ls: Seq<Link>, i: int, t: int, f1: nat, f2: nat)
    requires
        f1 >= unmarked_count(ns) + 1,
        f2 >= unmarked_count(ns) + 1,
    ensures
        eval_node(ns, ls, i, t, f1) == eval_node(ns, ls, i, t, f2),
    decreases f1 + f2, 0nat,
{
    if !(0 <= i < ns.len()) || ns[i].updated {
    } else {
        let marked = mark(ns, i);
        let ps = preds(marked, ls, i);
        lemma_count_update(ns, i, marked[i]);
        lemma_eval_list_fuel(marked, ls, ps, t, (f1 - 1) as nat, (f2 - 1) as nat);
    }
}

/// Any fuel beyond the number of unmarked nodes gives the same evaluation of
/// a list of node indices.
proof fn lemma_eval_list_fuel(ns: Seq<Node>, ls: Seq<Link>, ps: Seq<int>, t: int, f1: nat, f2: nat)
    requires
        f1 >= unmarked_count(ns) + 1,
        f2 >= unmarked_count(ns) + 1,
    ensures
        eval_list(ns, ls, ps, t, f1) == eval_list(ns, ls, ps, t, f2),
    decreases f1 + f2, ps.len() + 1,
{
    if ps.len() == 0 {
    } else {
        lemma_eval_node_fuel(ns, ls, ps[0], t, f1, f2);
        lemma_eval_node_frame(ns, ls, ps[0], t, f1);
        lemma_eval_list_fuel(eval_node(ns, ls, ps[0], t, f1), ls, ps.drop_first(), t, f1, f2);
    }
}


/// A sequence of machine indices, seen as mathematical integers.
pub open spec fn idxs(v: Seq<usize>) -> Seq<int> {
    v.map_values(|x: usize| x as int)
}

/// Whether the given pin is one of the node's input pins.
fn node_has_input(n: &Node, pin: InputPinId) -> (r: bool)
    ensures
        r == spec_inputs(*n).contains(pin),
{
    match n.typ {
        NodeType::Add(AddData { input, .. }) => {
            proof {
                if input == pin {
                    assert(spec_inputs(*n)[0] == pin);
                }
            }
            input == pin
        }
        NodeType::Multiply(MultData { input, .. }) => {
            proof {
                if input == pin {
                    assert(spec_inputs(*n)[0] == pin);
                }
            }
            input == pin
        }
        NodeType::Sine(SineData { input, .. }) => {
            proof {
                if input == pin {
                    assert(spec_inputs(*n)[0] == pin);
                }
            }
            input == pin
        }
        NodeType::Output(OutData { input_red, input_green, input_blue, .. }) => {
            proof {
                if input_red == pin {
                    assert(spec_inputs(*n)[0] == pin);
                }
                if input_green == pin {
                    assert(spec_inputs(*n)[1] == pin);
                }
                if input_blue == pin {
                    assert(spec_inputs(*n)[2] == pin);
                }
            }
            input_red == pin || input_green == pin || input_blue == pin
        }
        NodeType::Time(_) => false,
        NodeType::Constant(_) => false,
    }
}

/// The indices of the nodes feeding node `node_idx`, in link order: for each
/// link ending at one of its input pins, the first node owning the pin where
/// the link starts.
fn predecessor_indices(graph: &Graph, node_idx: usize) -> (r: Vec<usize>)
    requires
        node_idx < graph.nodes.len(),
    ensures
        idxs(r@) == preds(graph.nodes@, graph.links@, node_idx as int),
        forall|k: int| 0 <= k < r@.len() ==> r@[k] < graph.nodes.len(),
{
    let nlinks = graph.links.len();
    let mut r: Vec<usize> = Vec::new();
    let mut k: usize = 0;
    while k < nlinks
        invariant
            k <= nlinks,
            nlinks == graph.links.len(),
            node_idx < graph.nodes.len(),
            idxs(r@) == preds_upto(graph.nodes@, graph.links@, node_idx as int, k as int),
            forall|m: int| 0 <= m < r@.len() ==> r@[m] < graph.nodes.len(),
        decreases nlinks - k,
    {
        let link = graph.links[k];
        if node_has_input(&graph.nodes[node_idx], link.end) {
            match find_output_owner(graph, link.start) {
                Some(j) => {
                    r.push(j);
                    proof {
                        assert(idxs(r@) =~= preds_upto(
                            graph.nodes@,
                            graph.links@,
                            node_idx as int,
                            k + 1,
                        ));
                    }
                }
                None => {
                    proof {
                        assert(idxs(r@) =~= preds_upto(
                            graph.nodes@,
                            graph.links@,
                            node_idx as int,
                            k + 1,
                        ));
                    }
                }
            }
        } else {
            proof {
                assert(idxs(r@) =~= preds_upto(
                    graph.nodes@,
                    graph.links@,
                    node_idx as int,
                    k + 1,
                ));
            }
        }
        k = k + 1;
    }
    r
}

/// The values of the nodes at the given positions, in order.
fn get_predecessor_values(graph: &Graph, predecessors: &Vec<usize>) -> (r: Vec<Value>)
    requires
        forall|k: int| 0 <= k < predecessors@.len() ==> predecessors@[k] < graph.nodes.len(),
    ensures
        r@.map_values(|v: Value| v@) == pred_values(graph.nodes@, idxs(predecessors@)),
{
    let n = predecessors.len();
    let mut r: Vec<Value> = Vec::new();
    let mut k: usize = 0;
    while k < n
        invariant
            k <= n,
            n == predecessors@.len(),
            r@.len() == k,
            forall|m: int| 0 <= m < predecessors@.len() ==> predecessors@[m] < graph.nodes.len(),
            forall|j: int| 0 <= j < k ==> r@[j]@ == graph.nodes@[predecessors@[j] as int].value@,
        decreases n - k,
    {
        r.push(graph.nodes[predecessors[k]].value);
        k = k + 1;
    }
    proof {
        let m = r@.map_values(|v: Value| v@);
        let tgt = pred_values(graph.nodes@, idxs(predecessors@));
        assert forall|j: int| 0 <= j < n implies m[j] == tgt[j] by {
            assert(m[j] == r@[j]@);
            assert(idxs(predecessors@)[j] == predecessors@[j] as int);
            assert(tgt[j] == graph.nodes@[predecessors@[j] as int].value@);
        }
        assert(m =~= tgt);
    }
    r
}

/// The saturating sum of the given values, folded from the left.
fn sum_values(vals: &Vec<Value>) -> (r: Value)
    ensures
        r@ == sum_fold(vals@.map_values(|v: Value| v@)),
{
    let ghost all = vals@.map_values(|v: Value| v@);
    let n = vals.len();
    let mut acc = Value::zero();
    let mut k: usize = 0;
    while k < n
        invariant
            k <= n,
            n == vals@.len(),
            all == vals@.map_values(|v: Value| v@),
            acc@ == sum_fold(all.take(k as int)),
        decreases n - k,
    {
        acc = acc.saturating_add(vals[k]);
        proof {
            assert(all.take(k + 1).drop_last() =~= all.take(k as int));
            assert(all.take(k + 1).last() == all[k as int]);
        }
        k = k + 1;
    }
    proof {
        assert(all.take(n as int) =~= all);
    }
    acc
}

/// The saturating product of the given values, folded from the left.
fn product_values(vals: &Vec<Value>) -> (r: Value)
    ensures
        r@ == product_fold(vals@.map_values(|v: Value| v@)),
{
    let ghost all = vals@.map_values(|v: Value| v@);
    let n = vals.len();
    let mut acc = Value::one();
    let mut k: usize = 0;
    while k < n
        invariant
            k <= n,
            n == vals@.len(),
            all == vals@.map_values(|v: Value| v@),
            acc@ == product_fold(all.take(k as int)),
        decreases n - k,
    {
        acc = acc.saturating_mul(vals[k]);
        proof {
            assert(all.take(k + 1).drop_last() =~= all.take(k as int));
            assert(all.take(k + 1).last() == all[k as int]);
        }
        k = k + 1;
    }
    proof {
        assert(all.take(n as int) =~= all);
    }
    acc
}

/// Resets every node's marker, as happens at the start of every pass.
fn clear_all_marks(graph: &mut Graph)
    ensures
        final(graph).nodes@ == clear_marks(old(graph).nodes@),
        final(graph).links@ == old(graph).links@,
{
    let n = graph.nodes.len();
    let mut k: usize = 0;
    while k < n
        invariant
            k <= n,
            n == graph.nodes.len(),
            graph.links@ == old(graph).links@,
            graph.nodes@.len() == old(graph).nodes@.len(),
            forall|j: int| 0 <= j < k ==> graph.nodes@[j] == clear_marks(old(graph).nodes@)[j],
            forall|j: int| k <= j < n ==> graph.nodes@[j] == old(graph).nodes@[j],
        decreases n - k,
    {
        let node = graph.nodes[k];
        graph.nodes[k] = Node { id: node.id, typ: node.typ, value: node.value, updated: false };
        k = k + 1;
    }
    proof {
        assert(graph.nodes@ =~= clear_marks(old(graph).nodes@));
    }
}

/// The node feeding the given input pin, if any: the first link ending at
/// the pin that resolves to a node owning its start pin.
fn find_channel_source(graph: &Graph, pin: InputPinId) -> (r: Option<usize>)
    ensures
        match r {
            Some(j) => find_src_from(graph.nodes@, graph.links@, pin, 0) == Some(j as int) && j
                < graph.nodes.len(),
            None => find_src_from(graph.nodes@, graph.links@, pin, 0) is None,
        },
{
    let nlinks = graph.links.len();
    let mut k: usize = 0;
    while k < nlinks
        invariant
            k <= nlinks,
            nlinks == graph.links.len(),
            find_src_from(graph.nodes@, graph.links@, pin, 0) == find_src_from(
                graph.nodes@,
                graph.links@,
                pin,
                k as int,
            ),
        decreases nlinks - k,
    {
        let link = graph.links[k];
        if link.end == pin {
            match find_output_owner(graph, link.start) {
                Some(j) => {
                    return Some(j);
                }
                None => {}
            }
        }
        k = k + 1;
    }
    None
}


/// Evaluating a list extended on the right is evaluating the list, then
/// evaluating the new index on the outcome.
proof fn lemma_eval_list_snoc(ns: Seq<Node>, ls: Seq<Link>, ps: Seq<int>, p: int, t: int, fuel: nat)
    ensures
        eval_list(ns, ls, ps.push(p), t, fuel) == eval_node(
            eval_list(ns, ls, ps, t, fuel),
            ls,
            p,
            t,
            fuel,
        ),
    decreases ps.len(),
{
    if ps.len() == 0 {
        let single = ps.push(p);
        assert(single[0] == p);
        assert(single.drop_first() =~= Seq::<int>::empty());
        assert(eval_list(ns, ls, single, t, fuel) == eval_list(
            eval_node(ns, ls, p, t, fuel),
            ls,
            single.drop_first(),
            t,
            fuel,
        ));
        assert(eval_list(eval_node(ns, ls, p, t, fuel), ls, single.drop_first(), t, fuel)
            == eval_node(ns, ls, p, t, fuel));
        assert(eval_list(ns, ls, ps, t, fuel) == ns);
    } else {
        assert(ps.push(p)[0] == ps[0]);
        assert(ps.push(p).drop_first() =~= ps.drop_first().push(p));
        lemma_eval_list_snoc(eval_node(ns, ls, ps[0], t, fuel), ls, ps.drop_first(), p, t, fuel);
    }
}

/// Recomputes the value of one node for the given time sample: the node is
/// marked at entry, its not-yet-marked predecessors are evaluated first, in
/// link order, and its value is then computed from its kind and its
/// predecessors' values. A node already marked in this pass, or an index out
/// of range, is left untouched.
#[verifier::loop_isolation(false)]
pub fn update_node_recursive_at(graph: &mut Graph, node_idx: usize, time: Value)
    ensures
        final(graph).nodes@ == eval_node(
            old(graph).nodes@,
            old(graph).links@,
            node_idx as int,
            time@,
            old(graph).nodes@.len() + 1,
        ),
        final(graph).links@ == old(graph).links@,
    decreases unmarked_count(graph.nodes@),
{
    let ghost ns0 = graph.nodes@;
    let ghost ls = graph.links@;
    let n = graph.nodes.len();
    if node_idx >= n {
        return;
    }
    let node = graph.nodes[node_idx];
    if node.updated {
        return;
    }
    graph.nodes[node_idx] = Node { id: node.id, typ: node.typ, value: node.value, updated: true };
    let ghost marked = graph.nodes@;
    proof {
        assert(marked =~= mark(ns0, node_idx as int));
        lemma_count_update(ns0, node_idx as int, marked[node_idx as int]);
        lemma_count_le_len(ns0);
    }
    let preds_vec = predecessor_indices(graph, node_idx);
    let ghost ps = preds(marked, ls, node_idx as int);
    let np = preds_vec.len();
    let mut k: usize = 0;
    while k < np
        invariant
            k <= np,
            np == preds_vec@.len(),
            idxs(preds_vec@) == ps,
            forall|m: int| 0 <= m < preds_vec@.len() ==> preds_vec@[m] < n,
            graph.nodes@.len() == n,
            graph.links@ == ls,
            n == ns0.len(),
            node_idx < n,
            marked == mark(ns0, node_idx as int),
            ps == preds(marked, ls, node_idx as int),
            unmarked_count(marked) < unmarked_count(ns0),
            unmarked_count(ns0) <= n,
            graph.nodes@ == eval_list(marked, ls, ps.take(k as int), time@, n as nat),
            unmarked_count(graph.nodes@) <= unmarked_count(marked),
        decreases np - k,
    {
        let p = preds_vec[k];
        let ghost cur = graph.nodes@;
        update_node_recursive_at(graph, p, time);
        proof {
            lemma_eval_node_fuel(cur, ls, p as int, time@, (n + 1) as nat, n as nat);
            lemma_eval_list_snoc(marked, ls, ps.take(k as int), p as int, time@, n as nat);
            assert(ps[k as int] == p as int);
            assert(ps.take(k + 1) =~= ps.take(k as int).push(p as int));
            lemma_eval_list_frame(marked, ls, ps.take(k + 1), time@, n as nat);
        }
        k = k + 1;
    }
    proof {
        assert(ps.take(np as int) =~= ps);
    }
    let ghost after = graph.nodes@;
    proof {
        lemma_eval_list_frame(marked, ls, ps, time@, n as nat);
        assert(marked[node_idx as int].updated);
        assert(after[node_idx as int] == marked[node_idx as int]);
    }
    let vals = get_predecessor_values(graph, &preds_vec);
    let ghost pv = pred_values(after, ps);
    proof {
        assert(vals@.map_values(|v: Value| v@) == pv);
    }
    let new_value: Value;
    match node.typ {
        NodeType::Add(_) => {
            new_value = sum_values(&vals);
        }
        NodeType::Multiply(_) => {
            new_value = product_values(&vals);
        }
        NodeType::Sine(_) => {
            if vals.len() > 0 {
                proof {
                    assert(pv[0] == vals@.map_values(|v: Value| v@)[0]);
                    assert(pv[0] == vals@[0]@);
                }
                new_value = vals[0].sin_times_pi();
            } else {
                new_value = Value::zero();
            }
        }
        NodeType::Time(_) => {
            new_value = time;
        }
        NodeType::Constant(_) => {
            new_value = graph.nodes[node_idx].value;
        }
        NodeType::Output(_) => {
            new_value = graph.nodes[node_idx].value;
        }
    }
    let ghost c = combine(after[node_idx as int], pv, time@);
    proof {
        assert(after[node_idx as int].typ == node.typ);
        assert(new_value@ == c);
        assert(new_value.bits as int == c);
    }
    graph.nodes[node_idx] = Node { id: node.id, typ: node.typ, value: new_value, updated: true };
    proof {
        assert(graph.nodes@ =~= set_value_bits(after, node_idx as int, c));
        assert(graph.nodes@ == eval_node(ns0, ls, node_idx as int, time@, (n + 1) as nat));
    }
}

/// Recomputes the value of one node, sampling the clock for any time node
/// reached in this pass.
pub fn update_node_recursive(graph: &mut Graph, node_idx: usize)
    ensures
        exists|t: int|
            0 <= t < FRACTION_ONE as int && final(graph).nodes@ == #[trigger] eval_node(
                old(graph).nodes@,
                old(graph).links@,
                node_idx as int,
                t,
                old(graph).nodes@.len() + 1,
            ),
        final(graph).links@ == old(graph).links@,
{
    let time = Value::time_sample();
    update_node_recursive_at(graph, node_idx, time);
    proof {
        let t = time@;
        assert(0 <= t < FRACTION_ONE as int && graph.nodes@ == eval_node(
            old(graph).nodes@,
            old(graph).links@,
            node_idx as int,
            t,
            old(graph).nodes@.len() + 1,
        ));
    }
}


/// One output-channel sub-pass: find the node feeding the pin; if there is
/// one, reset every marker, evaluate it, and hand back its value; otherwise
/// hand back the default channel value.
fn eval_channel_exec(graph: &mut Graph, pin: InputPinId, t: Value) -> (r: Value)
    ensures
        ({
            let (ns2, v) = eval_channel(old(graph).nodes@, old(graph).links@, pin, t@);
            &&& final(graph).nodes@ == ns2
            &&& r@ == v
            &&& final(graph).links@ == old(graph).links@
        }),
{
    match find_channel_source(graph, pin) {
        Some(idx) => {
            clear_all_marks(graph);
            let ghost cleared = graph.nodes@;
            update_node_recursive_at(graph, idx, t);
            proof {
                lemma_eval_node_frame(cleared, graph.links@, idx as int, t@, cleared.len() + 1);
            }
            graph.nodes[idx].value
        }
        None => Value::from_bits(DEFAULT_CHANNEL_BITS),
    }
}

/// A whole evaluation request for the output node: reset every marker, then
/// evaluate the red, green and blue channels as independent sub-passes, each
/// with the given time sample, and record the three results in the output
/// node's channel fields. An index out of range, or one naming a node of
/// another kind, leaves the graph with only its markers reset.
pub fn update_output_node_at(
    graph: &mut Graph,
    output_node_idx: usize,
    t_red: Value,
    t_green: Value,
    t_blue: Value,
)
    ensures
        final(graph).nodes@ == update_output_model(
            old(graph).nodes@,
            old(graph).links@,
            output_node_idx as int,
            t_red@,
            t_green@,
            t_blue@,
        ),
        final(graph).links@ == old(graph).links@,
{
    let ghost ns0 = graph.nodes@;
    let ghost ls = graph.links@;
    clear_all_marks(graph);
    let n = graph.nodes.len();
    if output_node_idx >= n {
        return;
    }
    let node = graph.nodes[output_node_idx];
    let data: OutData;
    match node.typ {
        NodeType::Output(d) => {
            data = d;
        }
        _ => {
            return;
        }
    }
    let ghost c = graph.nodes@;
    let red = eval_channel_exec(graph, data.input_red, t_red);
    proof {
        lemma_eval_channel_len(c, ls, data.input_red, t_red@);
    }
    let green = eval_channel_exec(graph, data.input_green, t_green);
    proof {
        lemma_eval_channel_len(graph.nodes@, ls, data.input_green, t_green@);
        lemma_eval_channel_len(eval_channel(c, ls, data.input_red, t_red@).0, ls, data.input_green, t_green@);
    }
    let blue = eval_channel_exec(graph, data.input_blue, t_blue);
    proof {
        lemma_eval_channel_len(
            eval_channel(eval_channel(c, ls, data.input_red, t_red@).0, ls, data.input_green, t_green@).0,
            ls,
            data.input_blue,
            t_blue@,
        );
    }
    let cur = graph.nodes[output_node_idx];
    graph.nodes[output_node_idx] = Node {
        id: cur.id,
        typ: NodeType::Output(
            OutData {
                input_red: data.input_red,
                input_green: data.input_green,
                input_blue: data.input_blue,
                red,
                green,
                blue,
            },
        ),
        value: cur.value,
        updated: cur.updated,
    };
    proof {
        assert(graph.nodes@ =~= update_output_model(
            ns0,
            ls,
            output_node_idx as int,
            t_red@,
            t_green@,
            t_blue@,
        ));
    }
}

/// A whole evaluation request for the output node, sampling the clock anew
/// for each channel sub-pass.
pub fn update_output_node(graph: &mut Graph, output_node_idx: usize)
    ensures
        exists|t1: int, t2: int, t3: int|
            0 <= t1 < FRACTION_ONE as int && 0 <= t2 < FRACTION_ONE as int && 0 <= t3
                < FRACTION_ONE as int && final(graph).nodes@ == #[trigger] update_output_model(
                old(graph).nodes@,
                old(graph).links@,
                output_node_idx as int,
                t1,
                t2,
                t3,
            ),
        final(graph).links@ == old(graph).links@,
{
    let t_red = Value::time_sample();
    let t_green = Value::time_sample();
    let t_blue = Value::time_sample();
    update_output_node_at(graph, output_node_idx, t_red, t_green, t_blue);
    proof {
        assert(0 <= t_red@ < FRACTION_ONE as int && 0 <= t_green@ < FRACTION_ONE as int && 0
            <= t_blue@ < FRACTION_ONE as int && graph.nodes@ == update_output_model(
            old(graph).nodes@,
            old(graph).links@,
            output_node_idx as int,
            t_red@,
            t_green@,
            t_blue@,
        ));
    }
}

impl Graph {
    /// The starting graph of the color editor: an output node whose red
    /// channel is fed by one constant node holding 0.4.
    pub fn new(id_gen: &mut IdentifierGenerator) -> (r: Self)
        requires
            old(id_gen).node_counter() + 2 <= i32::MAX,
            old(id_gen).pin_counter() + 5 <= i32::MAX,
            old(id_gen).link_counter() + 1 <= i32::MAX,
        ensures
            r.nodes@.len() == 2,
            r.links@.len() == 1,
            r.nodes@[0].id.raw() == old(id_gen).node_counter(),
            r.nodes@[1].id.raw() == old(id_gen).node_counter() + 1,
            (match r.nodes@[0].typ {
                NodeType::Output(d) => {
                    &&& d.input_red.raw() == old(id_gen).pin_counter()
                    &&& d.input_green.raw() == old(id_gen).pin_counter() + 2
                    &&& d.input_blue.raw() == old(id_gen).pin_counter() + 3
                    &&& d.red@ == DEFAULT_CHANNEL_BITS as int
                    &&& d.green@ == DEFAULT_CHANNEL_BITS as int
                    &&& d.blue@ == DEFAULT_CHANNEL_BITS as int
                },
                _ => false,
            }),
            (match r.nodes@[1].typ {
                NodeType::Constant(d) => {
                    &&& d.output.raw() == old(id_gen).pin_counter() + 1
                    &&& d.attribute.raw() == old(id_gen).pin_counter() + 4
                },
                _ => false,
            }),
            r.nodes@[0].value@ == 0,
            r.nodes@[1].value@ == crate::value::spec_from_ratio(2, 5),
            !r.nodes@[0].updated && !r.nodes@[1].updated,
            r.links@[0].id.raw() == old(id_gen).link_counter(),
            r.links@[0].start.raw() == old(id_gen).pin_counter() + 1,
            r.links@[0].end.raw() == old(id_gen).pin_counter(),
            final(id_gen).node_counter() == old(id_gen).node_counter() + 2,
            final(id_gen).pin_counter() == old(id_gen).pin_counter() + 5,
            final(id_gen).link_counter() == old(id_gen).link_counter() + 1,
    {
        let output = id_gen.next_node();
        let red = id_gen.next_input_pin();
        let constant = id_gen.next_output_pin();
        let default_channel = Value::from_bits(DEFAULT_CHANNEL_BITS);
        let output_node = Node {
            id: output,
            value: Value::zero(),
            typ: NodeType::Output(
                OutData {
                    input_red: red,
                    input_green: id_gen.next_input_pin(),
                    input_blue: id_gen.next_input_pin(),
                    red: default_channel,
                    green: default_channel,
                    blue: default_channel,
                },
            ),
            updated: false,
        };
        let constant_node = Node {
            id: id_gen.next_node(),
            typ: NodeType::Constant(ConstData { output: constant, attribute: id_gen.next_attribute() }),
            value: Value::from_ratio(2, 5),
            updated: false,
        };
        let mut nodes: Vec<Node> = Vec::new();
        nodes.push(output_node);
        nodes.push(constant_node);
        let mut links: Vec<Link> = Vec::new();
        links.push(Link { id: id_gen.next_link(), start: constant, end: red });
        Graph { nodes, links }
    }

    /// Records a link created by the user.
    pub fn add_link(&mut self, link: Link)
        ensures
            final(self).nodes@ == old(self).nodes@,
            final(self).links@ == old(self).links@.push(link),
    {
        self.links.push(link);
    }

    /// Removes the link with the given identity, as happens when the user
    /// detaches it; every other link stays, in order.
    pub fn remove_link(&mut self, id: LinkId)
        ensures
            final(self).nodes@ == old(self).nodes@,
            final(self).links@ == old(self).links@.filter(|l: Link| l.id != id),
    {
        let ghost ls0 = self.links@;
        let n = self.links.len();
        let mut kept: Vec<Link> = Vec::new();
        let mut k: usize = 0;
        while k < n
            invariant
                k <= n,
                n == ls0.len(),
                self.links@ == ls0,
                kept@ == ls0.take(k as int).filter(|l: Link| l.id != id),
            decreases n - k,
        {
            let link = self.links[k];
            proof {
                reveal_with_fuel(Seq::filter, 2);
                assert(ls0.take(k + 1).drop_last() =~= ls0.take(k as int));
                assert(ls0.take(k + 1).last() == ls0[k as int]);
            }
            if link.id != id {
                kept.push(link);
            }
            k = k + 1;
        }
        proof {
            assert(ls0.take(n as int) =~= ls0);
        }
        self.links = kept;
    }
}


/// A channel sub-pass does not change how many nodes there are.
proof fn lemma_eval_channel_len(ns: Seq<Node>, ls: Seq<Link>, pin: InputPinId, t: int)
    ensures
        eval_channel(ns, ls, pin, t).0.len() == ns.len(),
{
    match find_src_from(ns, ls, pin, 0) {
        None => {}
        Some(j) => {
            lemma_eval_node_frame(clear_marks(ns), ls, j, t, ns.len() + 1);
        }
    }
}


/// A small tag telling the six node kinds apart.
pub open spec fn kind_tag(n: Node) -> int {
    match n.typ {
        NodeType::Add(_) => 0,
        NodeType::Multiply(_) => 1,
        NodeType::Output(_) => 2,
        NodeType::Sine(_) => 3,
        NodeType::Time(_) => 4,
        NodeType::Constant(_) => 5,
    }
}

/// Whether two nodes look the same to the traversal and to the combining
/// rule: same kind, same input pins, same output-pin ownership. The values
/// an output node's channels hold may differ.
pub open spec fn node_shape_same(x: Node, y: Node) -> bool {
    &&& kind_tag(x) == kind_tag(y)
    &&& spec_inputs(x) == spec_inputs(y)
    &&& forall|p: OutputPinId| spec_has_output(x, p) == spec_has_output(y, p)
}

/// Whether two node sequences agree on every node's shape.
pub open spec fn shape_same(a: Seq<Node>, b: Seq<Node>) -> bool {
    &&& a.len() == b.len()
    &&& forall|j: int| 0 <= j < a.len() ==> node_shape_same(a[j], b[j])
}

/// Sequences that agree on kinds agree on shapes.
proof fn lemma_static_implies_shape(a: Seq<Node>, b: Seq<Node>)
    requires
        static_same(a, b),
    ensures
        shape_same(a, b),
{
    assert forall|j: int| 0 <= j < a.len() implies node_shape_same(a[j], b[j]) by {
        assert(a[j].typ == b[j].typ);
    }
}

/// The owner search reads only node shapes.
proof fn lemma_first_owner_shape(a: Seq<Node>, b: Seq<Node>, pin: OutputPinId, k: int)
    requires
        shape_same(a, b),
    ensures
        first_owner_from(a, pin, k) == first_owner_from(b, pin, k),
    decreases a.len() - k,
{
    if 0 <= k < a.len() {
        lemma_first_owner_shape(a, b, pin, k + 1);
    }
}

/// The predecessor relation reads only node shapes.
proof fn lemma_preds_shape(a: Seq<Node>, b: Seq<Node>, ls: Seq<Link>, i: int, k: int)
    requires
        shape_same(a, b),
        0 <= i < a.len(),
    ensures
        preds_upto(a, ls, i, k) == preds_upto(b, ls, i, k),
    decreases k,
{
    if k > 0 {
        lemma_preds_shape(a, b, ls, i, k - 1);
        if spec_inputs(a[i]).contains(ls[k - 1].end) {
            lemma_first_owner_shape(a, b, ls[k - 1].start, 0);
        }
    }
}

/// The channel-source search reads only node shapes.
proof fn lemma_find_src_shape(a: Seq<Node>, b: Seq<Node>, ls: Seq<Link>, pin: InputPinId, k: int)
    requires
        shape_same(a, b),
    ensures
        find_src_from(a, ls, pin, k) == find_src_from(b, ls, pin, k),
    decreases ls.len() - k,
{
    if 0 <= k < ls.len() {
        if ls[k].end == pin {
            lemma_first_owner_shape(a, b, ls[k].start, 0);
        }
        lemma_find_src_shape(a, b, ls, pin, k + 1);
    }
}

/// An owner the search finds is a position in the sequence.
proof fn lemma_first_owner_in_range(ns: Seq<Node>, pin: OutputPinId, k: int)
    ensures
        (match first_owner_from(ns, pin, k) {
            Some(j) => k <= j < ns.len(),
            None => true,
        }),
    decreases ns.len() - k,
{
    if 0 <= k < ns.len() {
        lemma_first_owner_in_range(ns, pin, k + 1);
    }
}

/// Every predecessor index is a position in the sequence.
proof fn lemma_preds_valid(ns: Seq<Node>, ls: Seq<Link>, i: int, k: int)
    ensures
        forall|m: int| 0 <= m < preds_upto(ns, ls, i, k).len() ==> 0 <= #[trigger] preds_upto(
            ns,
            ls,
            i,
            k,
        )[m] < ns.len(),
    decreases k,
{
    if k > 0 {
        lemma_preds_valid(ns, ls, i, k - 1);
        let rest = preds_upto(ns, ls, i, k - 1);
        let cur = preds_upto(ns, ls, i, k);
        if spec_inputs(ns[i]).contains(ls[k - 1].end) {
            lemma_first_owner_in_range(ns, ls[k - 1].start, 0);
        }
        assert forall|m: int| 0 <= m < cur.len() implies 0 <= #[trigger] cur[m] < ns.len() by {
            if m < rest.len() {
                assert(cur[m] == rest[m]);
            }
        }
    }
}

/// Whether node `i`'s value agrees with what its kind computes from its
/// predecessors' values, for the given time sample.
pub open spec fn consistent_at(ns: Seq<Node>, ls: Seq<Link>, i: int, t: int) -> bool {
    ns[i].value@ == combine(ns[i], pred_values(ns, preds(ns, ls, i)), t)
}

/// Whether every node of the set is in range and consistent.
pub open spec fn consistent_on(ns: Seq<Node>, ls: Seq<Link>, d: Set<int>, t: int) -> bool {
    forall|i: int| d.contains(i) ==> 0 <= i < ns.len() && consistent_at(ns, ls, i, t)
}

/// Whether the set contains the predecessors of each of its members.
pub open spec fn closed_preds(ns: Seq<Node>, ls: Seq<Link>, d: Set<int>) -> bool {
    forall|i: int, k: int|
        d.contains(i) && 0 <= k < preds(ns, ls, i).len() ==> d.contains(
            #[trigger] preds(ns, ls, i)[k],
        )
}

/// Whether every marked node belongs to one of the two sets.
pub open spec fn marks_within(ns: Seq<Node>, d: Set<int>, stk: Set<int>) -> bool {
    forall|j: int| 0 <= j < ns.len() && ns[j].updated ==> d.contains(j) || stk.contains(j)
}

/// A rank function witnessing that the graph has no cycles: every link goes
/// from a lower-ranked node to a higher-ranked one.
pub open spec fn ranked(ns: Seq<Node>, ls: Seq<Link>, rank: Map<int, int>) -> bool {
    forall|i: int, k: int|
        0 <= i < ns.len() && 0 <= k < preds(ns, ls, i).len() ==> rank[#[trigger] preds(
            ns,
            ls,
            i,
        )[k]] < rank[i]
}

/// Whether the graph has no cycles: some rank function orders it.
pub open spec fn acyclic(ns: Seq<Node>, ls: Seq<Link>) -> bool {
    exists|rank: Map<int, int>| ranked(ns, ls, rank)
}

/// Whether the graph has no time node, whose value is intentionally
/// time-varying.
pub open spec fn no_time_node(ns: Seq<Node>) -> bool {
    forall|j: int| 0 <= j < ns.len() ==> kind_tag(#[trigger] ns[j]) != 4
}

/// Consistency and closedness carry over to any sequence of the same shape
/// whose members of the set hold the same values.
proof fn lemma_transport_consistent(a: Seq<Node>, b: Seq<Node>, ls: Seq<Link>, d: Set<int>, t: int)
    requires
        shape_same(a, b),
        consistent_on(a, ls, d, t),
        closed_preds(a, ls, d),
        forall|j: int| d.contains(j) ==> a[j].value == b[j].value,
    ensures
        consistent_on(b, ls, d, t),
        closed_preds(b, ls, d),
{
    assert forall|i: int| d.contains(i) implies 0 <= i < b.len() && consistent_at(b, ls, i, t) by {
        lemma_preds_shape(a, b, ls, i, ls.len() as int);
        let ps = preds(a, ls, i);
        assert(pred_values(b, ps) =~= pred_values(a, ps)) by {
            assert forall|k: int| 0 <= k < ps.len() implies pred_values(b, ps)[k] == pred_values(
                a,
                ps,
            )[k] by {
                assert(d.contains(ps[k]));
                assert(b[ps[k]].value == a[ps[k]].value);
            }
        }
        assert(combine(b[i], pred_values(b, ps), t) == combine(a[i], pred_values(a, ps), t));
    }
    assert forall|i: int, k: int|
        d.contains(i) && 0 <= k < preds(b, ls, i).len() implies d.contains(
        #[trigger] preds(b, ls, i)[k],
    ) by {
        lemma_preds_shape(a, b, ls, i, ls.len() as int);
    }
}


/// Whether two node sequences hold the same value at every position.
pub open spec fn values_same(a: Seq<Node>, b: Seq<Node>) -> bool {
    &&& a.len() == b.len()
    &&& forall|j: int| 0 <= j < a.len() ==> a[j].value == b[j].value
}

/// A rank function still orders any sequence of the same shape.
proof fn lemma_ranked_transport(a: Seq<Node>, b: Seq<Node>, ls: Seq<Link>, rank: Map<int, int>)
    requires
        shape_same(a, b),
        ranked(a, ls, rank),
    ensures
        ranked(b, ls, rank),
{
    assert forall|i: int, k: int|
        0 <= i < b.len() && 0 <= k < preds(b, ls, i).len() implies rank[#[trigger] preds(
        b,
        ls,
        i,
    )[k]] < rank[i] by {
        lemma_preds_shape(a, b, ls, i, ls.len() as int);
        assert(preds(a, ls, i)[k] == preds(b, ls, i)[k]);
    }
}

/// The value a node's kind computes always fits the 32-bit representation,
/// for a time sample that fits it.
proof fn lemma_combine_in_range(n: Node, vals: Seq<int>, t: int)
    requires
        i32::MIN <= t <= i32::MAX,
    ensures
        i32::MIN <= combine(n, vals, t) <= i32::MAX,
{
    match n.typ {
        NodeType::Add(_) => {
            if vals.len() > 0 {
                assert(sum_fold(vals) == spec_add(sum_fold(vals.drop_last()), vals.last()));
            }
        }
        NodeType::Multiply(_) => {
            if vals.len() > 0 {
                assert(product_fold(vals) == spec_mul(product_fold(vals.drop_last()), vals.last()));
            }
        }
        _ => {}
    }
}

/// What one evaluation preserves on a graph ordered by `rank`: a set `d` of
/// nodes already consistent with their predecessors (and closed under them)
/// stays consistent and only grows; every value in `d` is untouched; nodes
/// outside the grown set and the recursion stack `stk` are untouched
/// entirely; and when the evaluated node is already in `d`, no value in the
/// whole graph changes.
proof fn lemma_eval_node_preserves(
    ns: Seq<Node>,
    ls: Seq<Link>,
    i: int,
    t: int,
    fuel: nat,
    rank: Map<int, int>,
    stk: Set<int>,
    d: Set<int>,
) -> (d2: Set<int>)
    requires
        fuel >= unmarked_count(ns) + 1,
        i32::MIN <= t <= i32::MAX,
        ranked(ns, ls, rank),
        consistent_on(ns, ls, d, t),
        closed_preds(ns, ls, d),
        marks_within(ns, d, stk),
        forall|s: int| stk.contains(s) ==> 0 <= s < ns.len() && ns[s].updated,
        forall|s: int| 0 <= i < ns.len() && stk.contains(s) ==> rank[s] > rank[i],
    ensures
        ({
            let r = eval_node(ns, ls, i, t, fuel);
            &&& d.subset_of(d2)
            &&& (0 <= i < ns.len() && !stk.contains(i) ==> d2.contains(i))
            &&& consistent_on(r, ls, d2, t)
            &&& closed_preds(r, ls, d2)
            &&& marks_within(r, d2, stk)
            &&& (forall|j: int| d.contains(j) ==> r[j].value == ns[j].value)
            &&& (forall|j: int|
                0 <= j < ns.len() && !d2.contains(j) && !stk.contains(j) ==> r[j] == ns[j])
            &&& (!(0 <= i < ns.len()) || ns[i].updated || d.contains(i) ==> values_same(ns, r))
        }),
    decreases fuel, 0nat,
{
    let r = eval_node(ns, ls, i, t, fuel);
    lemma_eval_node_frame(ns, ls, i, t, fuel);
    if !(0 <= i < ns.len()) || ns[i].updated {
        d
    } else {
        let marked = mark(ns, i);
        let ps = preds(marked, ls, i);
        lemma_count_update(ns, i, marked[i]);
        assert(static_same(ns, marked));
        lemma_static_implies_shape(ns, marked);
        assert(forall|j: int| 0 <= j < ns.len() ==> marked[j].value == #[trigger] ns[j].value);
        lemma_transport_consistent(ns, marked, ls, d, t);
        lemma_ranked_transport(ns, marked, ls, rank);
        lemma_preds_valid(marked, ls, i, ls.len() as int);
        lemma_preds_shape(ns, marked, ls, i, ls.len() as int);
        let stk2 = stk.insert(i);
        assert forall|k: int, s: int|
            0 <= k < ps.len() && #[trigger] stk2.contains(s) implies rank[s] > rank[#[trigger] ps[k]] by {
            assert(preds(ns, ls, i)[k] == ps[k]);
            assert(rank[ps[k]] < rank[i]);
        }
        let d_a = lemma_eval_list_preserves(marked, ls, ps, t, (fuel - 1) as nat, rank, stk2, d);
        let after = eval_list(marked, ls, ps, t, (fuel - 1) as nat);
        lemma_eval_list_frame(marked, ls, ps, t, (fuel - 1) as nat);
        assert(after[i] == marked[i]);
        lemma_static_implies_shape(marked, after);
        lemma_preds_shape(marked, after, ls, i, ls.len() as int);
        assert(preds(after, ls, i) == ps);
        let pv = pred_values(after, ps);
        let c = combine(after[i], pv, t);
        lemma_combine_in_range(after[i], pv, t);
        let r2 = set_value_bits(after, i, c);
        assert(r == r2);
        assert(static_same(after, r2));
        lemma_static_implies_shape(after, r2);
        // the node is never its own predecessor, so its predecessors' values
        // are the same in r2 as in after
        assert(!ps.contains(i)) by {
            if ps.contains(i) {
                let k = choose|k: int| 0 <= k < ps.len() && ps[k] == i;
                assert(rank[ps[k]] < rank[i]);
            }
        }
        assert(pred_values(r2, ps) =~= pv) by {
            assert forall|k: int| 0 <= k < ps.len() implies pred_values(r2, ps)[k] == pv[k] by {
                assert(ps[k] != i);
                assert(r2[ps[k]] == after[ps[k]]);
            }
        }
        lemma_preds_shape(after, r2, ls, i, ls.len() as int);
        assert(combine(r2[i], pred_values(r2, preds(r2, ls, i)), t) == c) by {
            assert(kind_tag(r2[i]) == kind_tag(after[i]));
            if kind_tag(after[i]) == 5 || kind_tag(after[i]) == 2 {
                // a constant or output node keeps its own value
                assert(c == after[i].value@);
                assert(r2[i].value@ == (c as i32) as int);
            }
        }
        if d_a.contains(i) {
            // the node was already consistent, so it writes back its own value
            assert(consistent_at(after, ls, i, t));
            assert(c == after[i].value@);
            assert(r2 =~= after);
            d_a
        } else {
            let d2 = d_a.insert(i);
            assert(forall|j: int| d_a.contains(j) ==> r2[j].value == #[trigger] after[j].value);
            lemma_transport_consistent(after, r2, ls, d_a, t);
            assert(consistent_at(r2, ls, i, t)) by {
                assert(r2[i].value@ == (c as i32) as int);
            }
            assert(consistent_on(r2, ls, d2, t));
            assert(closed_preds(r2, ls, d2)) by {
                assert forall|m: int, k: int|
                    d2.contains(m) && 0 <= k < preds(r2, ls, m).len() implies d2.contains(
                    #[trigger] preds(r2, ls, m)[k],
                ) by {
                    lemma_preds_shape(after, r2, ls, m, ls.len() as int);
                    if m == i {
                        assert(preds(r2, ls, i) == ps);
                        assert(d_a.contains(ps[k]));
                    }
                }
            }
            d2
        }
    }
}

/// What evaluating a list of node indices preserves; see
/// [`lemma_eval_node_preserves`].
proof fn lemma_eval_list_preserves(
    ns: Seq<Node>,
    ls: Seq<Link>,
    ps: Seq<int>,
    t: int,
    fuel: nat,
    rank: Map<int, int>,
    stk: Set<int>,
    d: Set<int>,
) -> (d2: Set<int>)
    requires
        fuel >= unmarked_count(ns) + 1,
        i32::MIN <= t <= i32::MAX,
        ranked(ns, ls, rank),
        consistent_on(ns, ls, d, t),
        closed_preds(ns, ls, d),
        marks_within(ns, d, stk),
        forall|s: int| stk.contains(s) ==> 0 <= s < ns.len() && ns[s].updated,
        forall|k: int| 0 <= k < ps.len() ==> 0 <= #[trigger] ps[k] < ns.len(),
        forall|k: int, s: int|
            0 <= k < ps.len() && #[trigger] stk.contains(s) ==> rank[s] > rank[#[trigger] ps[k]],
    ensures
        ({
            let r = eval_list(ns, ls, ps, t, fuel);
            &&& d.subset_of(d2)
            &&& (forall|k: int| 0 <= k < ps.len() ==> d2.contains(#[trigger] ps[k]))
            &&& consistent_on(r, ls, d2, t)
            &&& closed_preds(r, ls, d2)
            &&& marks_within(r, d2, stk)
            &&& (forall|j: int| d.contains(j) ==> r[j].value == ns[j].value)
            &&& (forall|j: int|
                0 <= j < ns.len() && !d2.contains(j) && !stk.contains(j) ==> r[j] == ns[j])
            &&& ((forall|k: int| 0 <= k < ps.len() ==> d.contains(#[trigger] ps[k])) ==> values_same(
                ns,
                r,
            ))
        }),
    decreases fuel, ps.len() + 1,
{
    if ps.len() == 0 {
        d
    } else {
        let p = ps[0];
        assert(!stk.contains(p)) by {
            if stk.contains(p) {
                assert(rank[p] > rank[p]);
            }
        }
        let d1 = lemma_eval_node_preserves(ns, ls, p, t, fuel, rank, stk, d);
        let mid = eval_node(ns, ls, p, t, fuel);
        lemma_eval_node_frame(ns, ls, p, t, fuel);
        lemma_static_implies_shape(ns, mid);
        lemma_ranked_transport(ns, mid, ls, rank);
        let tail = ps.drop_first();
        assert(forall|k: int| 0 <= k < tail.len() ==> #[trigger] tail[k] == ps[k + 1]);
        let d2 = lemma_eval_list_preserves(mid, ls, tail, t, fuel, rank, stk, d1);
        let r = eval_list(ns, ls, ps, t, fuel);
        assert(r == eval_list(mid, ls, tail, t, fuel));
        assert forall|k: int| 0 <= k < ps.len() implies d2.contains(#[trigger] ps[k]) by {
            if k == 0 {
                assert(d1.contains(p));
            } else {
                assert(tail[k - 1] == ps[k]);
            }
        }
        assert forall|j: int|
            0 <= j < ns.len() && !d2.contains(j) && !stk.contains(j) implies r[j] == ns[j] by {
            assert(mid[j] == ns[j]);
        }
        if forall|k: int| 0 <= k < ps.len() ==> d.contains(#[trigger] ps[k]) {
            assert(d.contains(p));
            assert(values_same(ns, mid));
            assert(forall|k: int| 0 <= k < tail.len() ==> d1.contains(#[trigger] tail[k]));
            assert(values_same(mid, r));
        }
        d2
    }
}


/// A channel source the search finds is a position in the node sequence.
proof fn lemma_find_src_in_range(ns: Seq<Node>, ls: Seq<Link>, pin: InputPinId, k: int)
    ensures
        (match find_src_from(ns, ls, pin, k) {
            Some(j) => 0 <= j < ns.len(),
            None => true,
        }),
    decreases ls.len() - k,
{
    if 0 <= k < ls.len() {
        if ls[k].end == pin {
            lemma_first_owner_in_range(ns, ls[k].start, 0);
        }
        lemma_find_src_in_range(ns, ls, pin, k + 1);
    }
}

/// What one channel sub-pass preserves on a graph ordered by `rank`: the
/// consistent, predecessor-closed set grows to cover the channel's source;
/// values in the set are untouched; and when the source is already in the
/// set, no value in the graph changes at all.
proof fn lemma_channel_preserves(
    ns: Seq<Node>,
    ls: Seq<Link>,
    pin: InputPinId,
    t: int,
    rank: Map<int, int>,
    d: Set<int>,
) -> (d2: Set<int>)
    requires
        i32::MIN <= t <= i32::MAX,
        ranked(ns, ls, rank),
        consistent_on(ns, ls, d, t),
        closed_preds(ns, ls, d),
    ensures
        ({
            let (r, v) = eval_channel(ns, ls, pin, t);
            &&& d.subset_of(d2)
            &&& r.len() == ns.len()
            &&& shape_same(ns, r)
            &&& (forall|j: int| 0 <= j < ns.len() ==> r[j].typ == ns[j].typ)
            &&& ranked(r, ls, rank)
            &&& consistent_on(r, ls, d2, t)
            &&& closed_preds(r, ls, d2)
            &&& (forall|j: int| d.contains(j) ==> r[j].value == ns[j].value)
            &&& (match find_src_from(ns, ls, pin, 0) {
                Some(j) => d2.contains(j) && v == r[j].value@ && 0 <= j < ns.len(),
                None => v == DEFAULT_CHANNEL_BITS as int && r == ns,
            })
            &&& ((match find_src_from(ns, ls, pin, 0) {
                Some(j) => d.contains(j),
                None => true,
            }) ==> values_same(ns, r))
        }),
{
    lemma_find_src_in_range(ns, ls, pin, 0);
    match find_src_from(ns, ls, pin, 0) {
        None => d,
        Some(j) => {
            let c = clear_marks(ns);
            assert(static_same(ns, c));
            lemma_static_implies_shape(ns, c);
            assert(forall|m: int| 0 <= m < ns.len() ==> c[m].value == #[trigger] ns[m].value);
            lemma_transport_consistent(ns, c, ls, d, t);
            lemma_ranked_transport(ns, c, ls, rank);
            lemma_count_le_len(c);
            let fuel = (ns.len() + 1) as nat;
            let d2 = lemma_eval_node_preserves(c, ls, j, t, fuel, rank, Set::empty(), d);
            let after = eval_node(c, ls, j, t, fuel);
            lemma_eval_node_frame(c, ls, j, t, fuel);
            lemma_static_implies_shape(c, after);
            assert(shape_same(ns, after)) by {
                assert forall|m: int| 0 <= m < ns.len() implies node_shape_same(ns[m], after[m]) by {
                    assert(node_shape_same(ns[m], c[m]));
                    assert(node_shape_same(c[m], after[m]));
                }
            }
            lemma_ranked_transport(c, after, ls, rank);
            assert(forall|m: int| 0 <= m < ns.len() ==> after[m].typ == #[trigger] ns[m].typ);
            if d.contains(j) {
                assert(values_same(c, after));
                assert(values_same(ns, after));
            }
            d2
        }
    }
}

/// On a graph without time nodes, consistency carries over to any later
/// state of the same shape that kept the set's values, at any time sample.
proof fn lemma_consistent_time_irrelevant_shape(
    a: Seq<Node>,
    b: Seq<Node>,
    ls: Seq<Link>,
    d: Set<int>,
    t: int,
    t2: int,
)
    requires
        consistent_on(b, ls, d, t),
        no_time_node(a),
        shape_same(a, b),
    ensures
        consistent_on(b, ls, d, t2),
{
    assert forall|i: int| d.contains(i) implies 0 <= i < b.len() && consistent_at(b, ls, i, t2) by {
        assert(consistent_at(b, ls, i, t));
        assert(node_shape_same(a[i], b[i]));
        assert(kind_tag(a[i]) != 4);
    }
}


/// A sequence of the same shape has a time node exactly where the other has.
proof fn lemma_no_time_transport(a: Seq<Node>, b: Seq<Node>)
    requires
        no_time_node(a),
        shape_same(a, b),
    ensures
        no_time_node(b),
{
    assert forall|j: int| 0 <= j < b.len() implies kind_tag(#[trigger] b[j]) != 4 by {
        assert(node_shape_same(a[j], b[j]));
        assert(kind_tag(a[j]) != 4);
    }
}

/// What the three channel sub-passes of one output evaluation preserve
/// together, on an acyclic graph without time nodes; see
/// [`lemma_channel_preserves`].
#[verifier::rlimit(60)]
#[verifier::spinoff_prover]
proof fn lemma_three_channels(
    ns0: Seq<Node>,
    ls: Seq<Link>,
    dd: OutData,
    t1: int,
    t2: int,
    t3: int,
    rank: Map<int, int>,
    d: Set<int>,
) -> (d2: Set<int>)
    requires
        i32::MIN <= t1 <= i32::MAX,
        i32::MIN <= t2 <= i32::MAX,
        i32::MIN <= t3 <= i32::MAX,
        ranked(ns0, ls, rank),
        no_time_node(ns0),
        consistent_on(ns0, ls, d, t1),
        closed_preds(ns0, ls, d),
    ensures
        ({
            let (ca, v1) = eval_channel(ns0, ls, dd.input_red, t1);
            let (cb, v2) = eval_channel(ca, ls, dd.input_green, t2);
            let (cc, v3) = eval_channel(cb, ls, dd.input_blue, t3);
            let s1 = find_src_from(ns0, ls, dd.input_red, 0);
            let s2 = find_src_from(ns0, ls, dd.input_green, 0);
            let s3 = find_src_from(ns0, ls, dd.input_blue, 0);
            &&& d.subset_of(d2)
            &&& cc.len() == ns0.len()
            &&& shape_same(ns0, cc)
            &&& (forall|j: int| 0 <= j < ns0.len() ==> cc[j].typ == ns0[j].typ)
            &&& ranked(cc, ls, rank)
            &&& consistent_on(cc, ls, d2, t3)
            &&& closed_preds(cc, ls, d2)
            &&& (forall|j: int| d.contains(j) ==> cc[j].value == ns0[j].value)
            &&& (match s1 {
                Some(j) => d2.contains(j) && v1 == cc[j].value@ && 0 <= j < ns0.len(),
                None => v1 == DEFAULT_CHANNEL_BITS as int,
            })
            &&& (match s2 {
                Some(j) => d2.contains(j) && v2 == cc[j].value@ && 0 <= j < ns0.len(),
                None => v2 == DEFAULT_CHANNEL_BITS as int,
            })
            &&& (match s3 {
                Some(j) => d2.contains(j) && v3 == cc[j].value@ && 0 <= j < ns0.len(),
                None => v3 == DEFAULT_CHANNEL_BITS as int,
            })
            &&& ((match s1 {
                Some(j) => d.contains(j),
                None => true,
            } && match s2 {
                Some(j) => d.contains(j),
                None => true,
            } && match s3 {
                Some(j) => d.contains(j),
                None => true,
            }) ==> values_same(ns0, cc))
        }),
{
    let da = lemma_channel_preserves(ns0, ls, dd.input_red, t1, rank, d);
    let (ca, v1) = eval_channel(ns0, ls, dd.input_red, t1);
    lemma_consistent_time_irrelevant_shape(ns0, ca, ls, da, t1, t2);
    lemma_find_src_shape(ns0, ca, ls, dd.input_green, 0);
    let db = lemma_channel_preserves(ca, ls, dd.input_green, t2, rank, da);
    let (cb, v2) = eval_channel(ca, ls, dd.input_green, t2);
    assert(shape_same(ns0, cb)) by {
        assert forall|m: int| 0 <= m < ns0.len() implies node_shape_same(ns0[m], cb[m]) by {
            assert(node_shape_same(ns0[m], ca[m]));
            assert(node_shape_same(ca[m], cb[m]));
        }
    }
    lemma_consistent_time_irrelevant_shape(ns0, cb, ls, db, t2, t3);
    lemma_find_src_shape(ns0, cb, ls, dd.input_blue, 0);
    let dc = lemma_channel_preserves(cb, ls, dd.input_blue, t3, rank, db);
    let (cc, v3) = eval_channel(cb, ls, dd.input_blue, t3);
    assert(shape_same(ns0, cc)) by {
        assert forall|m: int| 0 <= m < ns0.len() implies node_shape_same(ns0[m], cc[m]) by {
            assert(node_shape_same(ns0[m], cb[m]));
            assert(node_shape_same(cb[m], cc[m]));
        }
    }
    match find_src_from(ns0, ls, dd.input_red, 0) {
        Some(j) => {
            assert(v1 == ca[j].value@);
            assert(cb[j].value == ca[j].value);
            assert(cc[j].value == cb[j].value);
        }
        None => {}
    }
    match find_src_from(ns0, ls, dd.input_green, 0) {
        Some(j) => {
            assert(cc[j].value == cb[j].value);
        }
        None => {}
    }
    dc
}


/// What one full output pass preserves on an acyclic graph without time
/// nodes, starting from a reset state `c`: the consistent set grows to cover
/// the three channel sources; values in it, and every node's kind except the
/// output node's channel fields, are untouched; the recorded channels equal
/// the sources' final values; and when all three sources were already in the
/// set, no value in the whole graph changes.
#[verifier::rlimit(100)]
#[verifier::spinoff_prover]
proof fn lemma_full_pass(
    c: Seq<Node>,
    ls: Seq<Link>,
    oi: int,
    dd: OutData,
    t1: int,
    t2: int,
    t3: int,
    rank: Map<int, int>,
    d: Set<int>,
) -> (d2: Set<int>)
    requires
        i32::MIN <= t1 <= i32::MAX,
        i32::MIN <= t2 <= i32::MAX,
        i32::MIN <= t3 <= i32::MAX,
        ranked(c, ls, rank),
        no_time_node(c),
        consistent_on(c, ls, d, t1),
        closed_preds(c, ls, d),
        0 <= oi < c.len(),
        c[oi].typ == NodeType::Output(dd),
    ensures
        ({
            let g = output_pass(c, ls, oi, dd, t1, t2, t3);
            let (v1, v2, v3) = pass_values(c, ls, dd, t1, t2, t3);
            let s1 = find_src_from(c, ls, dd.input_red, 0);
            let s2 = find_src_from(c, ls, dd.input_green, 0);
            let s3 = find_src_from(c, ls, dd.input_blue, 0);
            &&& d.subset_of(d2)
            &&& g.len() == c.len()
            &&& shape_same(c, g)
            &&& ranked(g, ls, rank)
            &&& no_time_node(g)
            &&& consistent_on(g, ls, d2, t3)
            &&& closed_preds(g, ls, d2)
            &&& (forall|j: int| d.contains(j) ==> g[j].value == c[j].value)
            &&& (forall|j: int| 0 <= j < c.len() && j != oi ==> g[j].typ == c[j].typ)
            &&& g[oi].typ == NodeType::Output(
                OutData {
                    input_red: dd.input_red,
                    input_green: dd.input_green,
                    input_blue: dd.input_blue,
                    red: (Value { bits: v1 as i32 }),
                    green: (Value { bits: v2 as i32 }),
                    blue: (Value { bits: v3 as i32 }),
                },
            )
            &&& (match s1 {
                Some(j) => d2.contains(j) && g[j].value@ == v1,
                None => v1 == DEFAULT_CHANNEL_BITS as int,
            })
            &&& (match s2 {
                Some(j) => d2.contains(j) && g[j].value@ == v2,
                None => v2 == DEFAULT_CHANNEL_BITS as int,
            })
            &&& (match s3 {
                Some(j) => d2.contains(j) && g[j].value@ == v3,
                None => v3 == DEFAULT_CHANNEL_BITS as int,
            })
            &&& ((match s1 {
                Some(j) => d.contains(j),
                None => true,
            } && match s2 {
                Some(j) => d.contains(j),
                None => true,
            } && match s3 {
                Some(j) => d.contains(j),
                None => true,
            }) ==> values_same(c, g))
        }),
{
    let d2 = lemma_three_channels(c, ls, dd, t1, t2, t3, rank, d);
    let (ca, v1) = eval_channel(c, ls, dd.input_red, t1);
    let (cb, v2) = eval_channel(ca, ls, dd.input_green, t2);
    let (cc, v3) = eval_channel(cb, ls, dd.input_blue, t3);
    let g = output_pass(c, ls, oi, dd, t1, t2, t3);
    assert(g == cc.update(
        oi,
        Node {
            id: cc[oi].id,
            typ: NodeType::Output(
                OutData {
                    input_red: dd.input_red,
                    input_green: dd.input_green,
                    input_blue: dd.input_blue,
                    red: (Value { bits: v1 as i32 }),
                    green: (Value { bits: v2 as i32 }),
                    blue: (Value { bits: v3 as i32 }),
                },
            ),
            value: cc[oi].value,
            updated: cc[oi].updated,
        },
    ));
    assert(shape_same(cc, g)) by {
        assert forall|m: int| 0 <= m < cc.len() implies node_shape_same(cc[m], g[m]) by {
            if m == oi {
                assert(node_shape_same(c[oi], cc[oi]));
                assert(kind_tag(cc[oi]) == 2 && kind_tag(g[oi]) == 2);
                assert(spec_inputs(c[oi]) == seq![dd.input_red, dd.input_green, dd.input_blue]);
                assert(spec_inputs(cc[oi]) =~= spec_inputs(g[oi]));
            }
        }
    }
    assert(shape_same(c, g)) by {
        assert forall|m: int| 0 <= m < c.len() implies node_shape_same(c[m], g[m]) by {
            assert(node_shape_same(c[m], cc[m]));
            assert(node_shape_same(cc[m], g[m]));
        }
    }
    assert(forall|m: int| 0 <= m < cc.len() ==> g[m].value == #[trigger] cc[m].value);
    lemma_transport_consistent(cc, g, ls, d2, t3);
    lemma_ranked_transport(cc, g, ls, rank);
    lemma_no_time_transport(c, g);
    assert forall|j: int| 0 <= j < c.len() && j != oi implies g[j].typ == c[j].typ by {
        assert(g[j].typ == cc[j].typ);
    }
    d2
}

/// Law: evaluating the output node twice in succession, with no mutation of
/// the graph between the two requests, gives identical node values and
/// identical node kinds — including the output node's three recorded
/// channels — for every graph that has no cycles (as witnessed by a rank
/// ordering) and no time node. A time node's value is intentionally
/// time-varying, and a cyclic graph resolves its cycles with whatever stale
/// values the pass order leaves, so neither is covered. The executable pass,
/// [`update_output_node_at`], produces exactly this model's result, so the
/// law carries over to it.
#[verifier::rlimit(100)]
#[verifier::spinoff_prover]
pub proof fn lemma_update_output_idempotent(
    ns: Seq<Node>,
    ls: Seq<Link>,
    oi: int,
    t1: int,
    t2: int,
    t3: int,
    u1: int,
    u2: int,
    u3: int,
)
    requires
        acyclic(ns, ls),
        no_time_node(ns),
        i32::MIN <= t1 <= i32::MAX,
        i32::MIN <= t2 <= i32::MAX,
        i32::MIN <= t3 <= i32::MAX,
        i32::MIN <= u1 <= i32::MAX,
        i32::MIN <= u2 <= i32::MAX,
        i32::MIN <= u3 <= i32::MAX,
    ensures
        ({
            let g1 = update_output_model(ns, ls, oi, t1, t2, t3);
            let g2 = update_output_model(g1, ls, oi, u1, u2, u3);
            &&& values_same(g1, g2)
            &&& g1.len() == g2.len()
            &&& (forall|j: int| 0 <= j < g1.len() ==> g1[j].typ == g2[j].typ)
        }),
{
    let rank = choose|rank: Map<int, int>| ranked(ns, ls, rank);
    let c = clear_marks(ns);
    assert(static_same(ns, c));
    lemma_static_implies_shape(ns, c);
    lemma_ranked_transport(ns, c, ls, rank);
    lemma_no_time_transport(ns, c);
    let g1 = update_output_model(ns, ls, oi, t1, t2, t3);
    if !(0 <= oi < ns.len()) {
        let g2 = update_output_model(g1, ls, oi, u1, u2, u3);
        assert(g1 == c);
        assert(clear_marks(g1) =~= g1);
        assert(g2 == clear_marks(g1));
        assert(values_same(g1, g2));
        return;
    }
    match c[oi].typ {
        NodeType::Output(dd) => {
            let e0: Set<int> = Set::empty();
            let dc = lemma_full_pass(c, ls, oi, dd, t1, t2, t3, rank, e0);
            assert(g1 == output_pass(c, ls, oi, dd, t1, t2, t3));
            // the graph the second request sees, with its markers reset
            let c2 = clear_marks(g1);
            assert(static_same(g1, c2));
            lemma_static_implies_shape(g1, c2);
            assert(shape_same(c, c2)) by {
                assert forall|m: int| 0 <= m < c.len() implies node_shape_same(c[m], c2[m]) by {
                    assert(node_shape_same(c[m], g1[m]));
                    assert(node_shape_same(g1[m], c2[m]));
                }
            }
            assert(forall|m: int| 0 <= m < g1.len() ==> c2[m].value == #[trigger] g1[m].value);
            lemma_transport_consistent(g1, c2, ls, dc, t3);
            lemma_ranked_transport(g1, c2, ls, rank);
            lemma_no_time_transport(g1, c2);
            lemma_consistent_time_irrelevant_shape(c, c2, ls, dc, t3, u1);
            let (v1, v2, v3) = pass_values(c, ls, dd, t1, t2, t3);
            let dd2 = OutData {
                input_red: dd.input_red,
                input_green: dd.input_green,
                input_blue: dd.input_blue,
                red: (Value { bits: v1 as i32 }),
                green: (Value { bits: v2 as i32 }),
                blue: (Value { bits: v3 as i32 }),
            };
            assert(c2[oi].typ == NodeType::Output(dd2));
            let dz = lemma_full_pass(c2, ls, oi, dd2, u1, u2, u3, rank, dc);
            let g2 = update_output_model(g1, ls, oi, u1, u2, u3);
            assert(g2 == output_pass(c2, ls, oi, dd2, u1, u2, u3));
            let (w1, w2, w3) = pass_values(c2, ls, dd2, u1, u2, u3);
            // the second pass finds the same sources
            lemma_find_src_shape(c2, c, ls, dd.input_red, 0);
            lemma_find_src_shape(c2, c, ls, dd.input_green, 0);
            lemma_find_src_shape(c2, c, ls, dd.input_blue, 0);
            // every source was consistent after the first pass, so the second
            // pass changes no value and records the same channels
            assert(values_same(c2, g2));
            assert(w1 == v1) by {
                match find_src_from(c, ls, dd.input_red, 0) {
                    Some(j) => {
                        assert(g1[j].value@ == v1);
                        assert(c2[j].value == g1[j].value);
                        assert(g2[j].value == c2[j].value);
                    }
                    None => {}
                }
            }
            assert(w2 == v2) by {
                match find_src_from(c, ls, dd.input_green, 0) {
                    Some(j) => {
                        assert(g1[j].value@ == v2);
                        assert(c2[j].value == g1[j].value);
                        assert(g2[j].value == c2[j].value);
                    }
                    None => {}
                }
            }
            assert(w3 == v3) by {
                match find_src_from(c, ls, dd.input_blue, 0) {
                    Some(j) => {
                        assert(g1[j].value@ == v3);
                        assert(c2[j].value == g1[j].value);
                        assert(g2[j].value == c2[j].value);
                    }
                    None => {}
                }
            }
            assert(values_same(g1, g2)) by {
                assert(values_same(g1, c2));
            }
            assert forall|j: int| 0 <= j < g1.len() implies g1[j].typ == g2[j].typ by {
                if j != oi {
                    assert(g2[j].typ == c2[j].typ);
                    assert(c2[j].typ == g1[j].typ);
                } else {
                    assert(g1[oi].typ == NodeType::Output(dd2));
                    assert(g2[oi].typ == NodeType::Output(
                        OutData {
                            input_red: dd.input_red,
                            input_green: dd.input_green,
                            input_blue: dd.input_blue,
                            red: (Value { bits: w1 as i32 }),
                            green: (Value { bits: w2 as i32 }),
                            blue: (Value { bits: w3 as i32 }),
                        },
                    ));
                }
            }
        }
        _ => {
            let g2 = update_output_model(g1, ls, oi, u1, u2, u3);
            assert(g1 == c);
            assert(clear_marks(g1) =~= g1);
            assert(g2 == clear_marks(g1));
            assert(values_same(g1, g2));
        }
    }
}


/// Where no link ends at any of node `i`'s input pins, the node has no
/// predecessors.
proof fn lemma_preds_empty(ns: Seq<Node>, ls: Seq<Link>, i: int, k: int)
    requires
        k <= ls.len(),
        forall|m: int| 0 <= m < ls.len() ==> !spec_inputs(ns[i]).contains(#[trigger] ls[m].end),
    ensures
        preds_upto(ns, ls, i, k).len() == 0,
    decreases k,
{
    if k > 0 {
        lemma_preds_empty(ns, ls, i, k - 1);
    }
}

/// Law: a node with no incoming link falls back to its kind's identity value
/// when it is evaluated: 0.0 for an addition or a sine node, 1.0 for a
/// multiplication node.
pub proof fn lemma_no_predecessor_fallback(ns: Seq<Node>, ls: Seq<Link>, i: int, t: int)
    requires
        0 <= i < ns.len(),
        !ns[i].updated,
        forall|m: int| 0 <= m < ls.len() ==> !spec_inputs(ns[i]).contains(#[trigger] ls[m].end),
    ensures
        ({
            let r = eval_node(ns, ls, i, t, ns.len() + 1);
            &&& (kind_tag(ns[i]) == 0 ==> r[i].value@ == 0)
            &&& (kind_tag(ns[i]) == 1 ==> r[i].value@ == FRACTION_ONE as int)
            &&& (kind_tag(ns[i]) == 3 ==> r[i].value@ == 0)
        }),
{
    let fuel = (ns.len() + 1) as nat;
    let marked = mark(ns, i);
    lemma_count_update(ns, i, marked[i]);
    lemma_count_le_len(ns);
    let ps = preds(marked, ls, i);
    assert(spec_inputs(marked[i]) == spec_inputs(ns[i]));
    lemma_preds_empty(marked, ls, i, ls.len() as int);
    assert(ps.len() == 0);
    let after = eval_list(marked, ls, ps, t, (fuel - 1) as nat);
    assert(after == marked);
    assert(pred_values(after, ps) =~= Seq::<int>::empty());
    let r = eval_node(ns, ls, i, t, fuel);
    assert(r == set_value_bits(after, i, combine(after[i], pred_values(after, ps), t)));
}

/// Law: removing the only link that fed a node leaves it with no incoming
/// link, so its next evaluation falls back to its kind's identity value.
pub proof fn lemma_removed_sole_input_fallback(
    ns: Seq<Node>,
    ls: Seq<Link>,
    i: int,
    removed: LinkId,
    t: int,
)
    requires
        0 <= i < ns.len(),
        !ns[i].updated,
        forall|k: int|
            0 <= k < ls.len() && spec_inputs(ns[i]).contains(#[trigger] ls[k].end) ==> ls[k].id
                == removed,
    ensures
        ({
            let kept = ls.filter(|l: Link| l.id != removed);
            let r = eval_node(ns, kept, i, t, ns.len() + 1);
            &&& (kind_tag(ns[i]) == 0 ==> r[i].value@ == 0)
            &&& (kind_tag(ns[i]) == 1 ==> r[i].value@ == FRACTION_ONE as int)
            &&& (kind_tag(ns[i]) == 3 ==> r[i].value@ == 0)
        }),
{
    let kept = ls.filter(|l: Link| l.id != removed);
    lemma_filter_subset(ls, |l: Link| l.id != removed);
    assert forall|m: int| 0 <= m < kept.len() implies !spec_inputs(ns[i]).contains(
        #[trigger] kept[m].end,
    ) by {
        ls.filter_lemma(|l: Link| l.id != removed);
        assert(kept[m].id != removed);
        assert(ls.contains(kept[m]));
        let k = choose|k: int| 0 <= k < ls.len() && ls[k] == kept[m];
        if spec_inputs(ns[i]).contains(kept[m].end) {
            assert(ls[k].id == removed);
        }
    }
    lemma_no_predecessor_fallback(ns, kept, i, t);
}

/// Every member of a filtered sequence is a member of the sequence.
proof fn lemma_filter_subset(ls: Seq<Link>, pred: spec_fn(Link) -> bool)
    ensures
        forall|m: int|
            0 <= m < ls.filter(pred).len() ==> ls.contains(#[trigger] ls.filter(pred)[m]),
    decreases ls.len(),
{
    reveal(Seq::filter);
    if ls.len() > 0 {
        lemma_filter_subset(ls.drop_last(), pred);
        let out = ls.filter(pred);
        let sub = ls.drop_last().filter(pred);
        assert forall|m: int| 0 <= m < out.len() implies ls.contains(#[trigger] out[m]) by {
            if m < sub.len() {
                assert(out[m] == sub[m]);
                assert(ls.drop_last().contains(sub[m]));
                let j = choose|j: int|
                    0 <= j < ls.drop_last().len() && ls.drop_last()[j] == sub[m];
                assert(ls[j] == sub[m]);
            } else {
                assert(out[m] == ls.last());
                assert(ls[ls.len() - 1] == ls.last());
            }
        }
    }
}


/// The color editor's whole application state.
#[derive(Debug)]
pub struct State {
    /// The editor context of this workspace.
    pub editor_context: crate::context::EditorContext,
    id_gen: IdentifierGenerator,
    /// The dataflow graph being edited.
    pub graph: Graph,
    /// The editor's visual style.
    pub style: crate::styling::Style,
}

impl State {
    /// The graph, visible to specifications.
    pub closed spec fn spec_graph(self) -> Graph {
        self.graph
    }

    /// The style, visible to specifications.
    pub closed spec fn spec_style(self) -> crate::styling::Style {
        self.style
    }

    /// The identifier generator's counters, visible to specifications.
    pub closed spec fn spec_counters(self) -> (int, int, int) {
        (self.id_gen.node_counter(), self.id_gen.pin_counter(), self.id_gen.link_counter())
    }

    /// A fresh color editor: the starting graph of [`Graph::new`] and the
    /// default style.
    pub fn new(context: &crate::context::Context) -> (r: Self)
        ensures
            r.spec_graph().nodes@.len() == 2,
            r.spec_graph().links@.len() == 1,
            r.spec_graph().nodes@[0].id.raw() == 0,
            r.spec_graph().nodes@[1].id.raw() == 1,
            (match r.spec_graph().nodes@[0].typ {
                NodeType::Output(d) => {
                    &&& d.input_red.raw() == 0
                    &&& d.input_green.raw() == 2
                    &&& d.input_blue.raw() == 3
                    &&& d.red@ == DEFAULT_CHANNEL_BITS as int
                    &&& d.green@ == DEFAULT_CHANNEL_BITS as int
                    &&& d.blue@ == DEFAULT_CHANNEL_BITS as int
                },
                _ => false,
            }),
            (match r.spec_graph().nodes@[1].typ {
                NodeType::Constant(d) => d.output.raw() == 1 && d.attribute.raw() == 4,
                _ => false,
            }),
            r.spec_graph().nodes@[1].value@ == crate::value::spec_from_ratio(2, 5),
            !r.spec_graph().nodes@[0].updated && !r.spec_graph().nodes@[1].updated,
            r.spec_graph().links@[0].start.raw() == 1,
            r.spec_graph().links@[0].end.raw() == 0,
            crate::styling::style_is_default(r.spec_style()),
            r.spec_counters() == (2int, 5int, 1int),
    {
        let editor_context = context.create_editor();
        let mut id_gen = editor_context.new_identifier_generator();
        let graph = Graph::new(&mut id_gen);
        State { id_gen, editor_context, graph, style: crate::styling::Style::new_default() }
    }

    /// The graph, shared for evaluation and drawing.
    pub fn graph(&self) -> (r: &Graph)
        ensures
            r == self.spec_graph(),
    {
        &self.graph
    }

    /// Records a link the user created; it draws a fresh link identifier.
    pub fn handle_created_link(&mut self, created: crate::Link)
        requires
            old(self).spec_counters().2 < i32::MAX,
        ensures
            ({
                let added = final(self).spec_graph().links@.last();
                &&& final(self).spec_graph().links@ == old(self).spec_graph().links@.push(added)
                &&& added.id.raw() == old(self).spec_counters().2
                &&& added.start == created.start_pin
                &&& added.end == created.end_pin
                &&& final(self).spec_graph().nodes@ == old(self).spec_graph().nodes@
                &&& final(self).spec_counters() == (
                    old(self).spec_counters().0,
                    old(self).spec_counters().1,
                    old(self).spec_counters().2 + 1,
                )
            }),
            final(self).spec_style() == old(self).spec_style(),
    {
        let id = self.id_gen.next_link();
        self.graph.add_link(Link { id, start: created.start_pin, end: created.end_pin });
    }

    /// Drops the link the user destroyed.
    pub fn handle_destroyed_link(&mut self, destroyed: LinkId)
        ensures
            final(self).spec_graph().links@ == old(self).spec_graph().links@.filter(
                |l: Link| l.id != destroyed,
            ),
            final(self).spec_graph().nodes@ == old(self).spec_graph().nodes@,
            final(self).spec_counters() == old(self).spec_counters(),
            final(self).spec_style() == old(self).spec_style(),
    {
        self.graph.remove_link(destroyed);
    }
}


/// Which kind of node the user picked from the add-node menu.
#[derive(Debug, Clone, Copy, PartialEq, Eq, Structural)]
pub enum NewNodeKind {
    /// An addition node.
    Add,
    /// A multiplication node.
    Multiply,
    /// A sine node.
    Sine,
    /// A time node.
    Time,
    /// A constant node.
    Constant,
}

impl State {
    /// Adds a node of the picked kind with value 0.0, minting its node
    /// identifier and its pin and attribute identifiers in order.
    pub fn add_node(&mut self, kind: NewNodeKind)
        requires
            old(self).spec_counters().0 < i32::MAX,
            old(self).spec_counters().1 + 2 <= i32::MAX,
        ensures
            ({
                let added = final(self).spec_graph().nodes@.last();
                let pin0 = old(self).spec_counters().1;
                &&& final(self).spec_graph().nodes@ == old(self).spec_graph().nodes@.push(added)
                &&& added.id.raw() == old(self).spec_counters().0
                &&& added.value@ == 0
                &&& !added.updated
                &&& (match (kind, added.typ) {
                    (NewNodeKind::Add, NodeType::Add(d)) => d.input.raw() == pin0
                        && d.output.raw() == pin0 + 1,
                    (NewNodeKind::Multiply, NodeType::Multiply(d)) => d.input.raw() == pin0
                        && d.output.raw() == pin0 + 1,
                    (NewNodeKind::Sine, NodeType::Sine(d)) => d.input.raw() == pin0
                        && d.output.raw() == pin0 + 1,
                    (NewNodeKind::Time, NodeType::Time(d)) => d.output.raw() == pin0,
                    (NewNodeKind::Constant, NodeType::Constant(d)) => d.output.raw() == pin0
                        && d.attribute.raw() == pin0 + 1,
                    _ => false,
                })
                &&& final(self).spec_graph().links@ == old(self).spec_graph().links@
                &&& final(self).spec_counters().0 == old(self).spec_counters().0 + 1
                &&& final(self).spec_counters().2 == old(self).spec_counters().2
            }),
            final(self).spec_style() == old(self).spec_style(),
    {
        let id = self.id_gen.next_node();
        let typ: NodeType;
        match kind {
            NewNodeKind::Add => {
                let input = self.id_gen.next_input_pin();
                let output = self.id_gen.next_output_pin();
                typ = NodeType::Add(AddData { input, output });
            }
            NewNodeKind::Multiply => {
                let input = self.id_gen.next_input_pin();
                let output = self.id_gen.next_output_pin();
                typ = NodeType::Multiply(MultData { input, output });
            }
            NewNodeKind::Sine => {
                let input = self.id_gen.next_input_pin();
                let output = self.id_gen.next_output_pin();
                typ = NodeType::Sine(SineData { input, output });
            }
            NewNodeKind::Time => {
                let output = self.id_gen.next_output_pin();
                typ = NodeType::Time(TimeData { output });
            }
            NewNodeKind::Constant => {
                let output = self.id_gen.next_output_pin();
                let attribute = self.id_gen.next_attribute();
                typ = NodeType::Constant(ConstData { output, attribute });
            }
        }
        self.graph.nodes.push(Node { id, typ, value: Value::zero(), updated: false });
    }

    /// Sets a constant node's value, as the user's slider does; the
    /// evaluator itself never changes it.
    pub fn set_constant_value(&mut self, index: usize, value: Value)
        requires
            index < old(self).spec_graph().nodes@.len(),
        ensures
            final(self).spec_graph().nodes@ == old(self).spec_graph().nodes@.update(
                index as int,
                (Node { value, ..old(self).spec_graph().nodes@[index as int] }),
            ),
            final(self).spec_graph().links@ == old(self).spec_graph().links@,
            final(self).spec_counters() == old(self).spec_counters(),
            final(self).spec_style() == old(self).spec_style(),
    {
        let node = self.graph.nodes[index];
        self.graph.nodes[index] = Node { value, ..node };
    }
}

} // verus!
