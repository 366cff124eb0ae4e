use imnodes::color_editor::{
    AddData, ConstData, Graph, MultData, NewNodeKind, Node, NodeType, OutData, SineData, State,
    DEFAULT_CHANNEL_BITS,
};
use imnodes::context::Context;
use imnodes::value::{Value, FRACTION_ONE};
use imnodes::{InputPinId, Link as UiLink, LinkId, NodeId, OutputPinId};

struct Ids {
    gen: imnodes::IdentifierGenerator,
}

impl Ids {
    fn new() -> Ids {
        let context = Context::new();
        let editor = context.create_editor();
        Ids { gen: editor.new_identifier_generator() }
    }

    fn node(&mut self) -> NodeId {
        self.gen.next_node()
    }

    fn input(&mut self) -> InputPinId {
        self.gen.next_input_pin()
    }

    fn output(&mut self) -> OutputPinId {
        self.gen.next_output_pin()
    }

    fn link(&mut self) -> LinkId {
        self.gen.next_link()
    }
}

fn constant(id: NodeId, output: OutputPinId, attr: imnodes::AttributeId, v: Value) -> Node {
    Node {
        id,
        typ: NodeType::Constant(ConstData { output, attribute: attr }),
        value: v,
        updated: false,
    }
}

fn add_node(id: NodeId, input: InputPinId, output: OutputPinId) -> Node {
    Node { id, typ: NodeType::Add(AddData { input, output }), value: Value::zero(), updated: false }
}

fn t0() -> Value {
    Value::zero()
}

#[test]
fn add_node_sums_predecessors() {
    let mut ids = Ids::new();
    let c1_out = ids.output();
    let c2_out = ids.output();
    let a_in = ids.input();
    let a_out = ids.output();
    let attr1 = ids.gen.next_attribute();
    let attr2 = ids.gen.next_attribute();
    let mut graph = Graph {
        nodes: vec![
            constant(ids.node(), c1_out, attr1, Value::from_int(2)),
            constant(ids.node(), c2_out, attr2, Value::from_int(3)),
            add_node(ids.node(), a_in, a_out),
        ],
        links: vec![
            imnodes::color_editor::Link { id: ids.link(), start: c1_out, end: a_in },
            imnodes::color_editor::Link { id: ids.link(), start: c2_out, end: a_in },
        ],
    };
    imnodes::color_editor::update_node_recursive_at(&mut graph, 2, t0());
    assert_eq!(graph.nodes[2].value.to_bits(), 5 * 65536);
}

#[test]
fn add_node_without_predecessors_is_zero() {
    let mut ids = Ids::new();
    let a_in = ids.input();
    let a_out = ids.output();
    let mut graph = Graph {
        nodes: vec![Node {
            id: ids.node(),
            typ: NodeType::Add(AddData { input: a_in, output: a_out }),
            value: Value::from_int(9),
            updated: false,
        }],
        links: vec![],
    };
    imnodes::color_editor::update_node_recursive_at(&mut graph, 0, t0());
    assert_eq!(graph.nodes[0].value.to_bits(), 0);
}

#[test]
fn multiply_node_multiplies_predecessors() {
    let mut ids = Ids::new();
    let c1_out = ids.output();
    let c2_out = ids.output();
    let m_in = ids.input();
    let m_out = ids.output();
    let attr1 = ids.gen.next_attribute();
    let attr2 = ids.gen.next_attribute();
    let mut graph = Graph {
        nodes: vec![
            constant(ids.node(), c1_out, attr1, Value::from_int(2)),
            constant(ids.node(), c2_out, attr2, Value::from_int(3)),
            Node {
                id: ids.node(),
                typ: NodeType::Multiply(MultData { input: m_in, output: m_out }),
                value: Value::zero(),
                updated: false,
            },
        ],
        links: vec![
            imnodes::color_editor::Link { id: ids.link(), start: c1_out, end: m_in },
            imnodes::color_editor::Link { id: ids.link(), start: c2_out, end: m_in },
        ],
    };
    imnodes::color_editor::update_node_recursive_at(&mut graph, 2, t0());
    assert_eq!(graph.nodes[2].value.to_bits(), 6 * 65536);
}

#[test]
fn multiply_node_without_predecessors_is_one() {
    let mut ids = Ids::new();
    let m_in = ids.input();
    let m_out = ids.output();
    let mut graph = Graph {
        nodes: vec![Node {
            id: ids.node(),
            typ: NodeType::Multiply(MultData { input: m_in, output: m_out }),
            value: Value::zero(),
            updated: false,
        }],
        links: vec![],
    };
    imnodes::color_editor::update_node_recursive_at(&mut graph, 0, t0());
    assert_eq!(graph.nodes[0].value.to_bits(), FRACTION_ONE);
}

#[test]
fn sine_node_computes_sine_of_pi_times_input() {
    let mut ids = Ids::new();
    let c_out = ids.output();
    let s_in = ids.input();
    let s_out = ids.output();
    let attr = ids.gen.next_attribute();
    let mut graph = Graph {
        nodes: vec![
            constant(ids.node(), c_out, attr, Value::from_ratio(1, 2)),
            Node {
                id: ids.node(),
                typ: NodeType::Sine(SineData { input: s_in, output: s_out }),
                value: Value::zero(),
                updated: false,
            },
        ],
        links: vec![imnodes::color_editor::Link { id: ids.link(), start: c_out, end: s_in }],
    };
    imnodes::color_editor::update_node_recursive_at(&mut graph, 1, t0());
    let got = graph.nodes[1].value.to_bits() as f64 / FRACTION_ONE as f64;
    assert!((got - 1.0).abs() < 0.01, "sine node produced {got}");
}

#[test]
fn sine_node_without_predecessor_is_zero() {
    let mut ids = Ids::new();
    let s_in = ids.input();
    let s_out = ids.output();
    let mut graph = Graph {
        nodes: vec![Node {
            id: ids.node(),
            typ: NodeType::Sine(SineData { input: s_in, output: s_out }),
            value: Value::from_int(4),
            updated: false,
        }],
        links: vec![],
    };
    imnodes::color_editor::update_node_recursive_at(&mut graph, 0, t0());
    assert_eq!(graph.nodes[0].value.to_bits(), 0);
}

/// Builds the output-node scenario: red unconnected, green fed by a constant
/// holding 0.7, blue fed by an addition of 0.1 and 0.2.
fn color_scenario(ids: &mut Ids) -> Graph {
    let red = ids.input();
    let green = ids.input();
    let blue = ids.input();
    let out_node = Node {
        id: ids.node(),
        typ: NodeType::Output(OutData {
            input_red: red,
            input_green: green,
            input_blue: blue,
            red: Value::zero(),
            green: Value::zero(),
            blue: Value::zero(),
        }),
        value: Value::zero(),
        updated: false,
    };
    let cg_out = ids.output();
    let c1_out = ids.output();
    let c2_out = ids.output();
    let a_in = ids.input();
    let a_out = ids.output();
    let ag = ids.gen.next_attribute();
    let a1 = ids.gen.next_attribute();
    let a2 = ids.gen.next_attribute();
    Graph {
        nodes: vec![
            out_node,
            constant(ids.node(), cg_out, ag, Value::from_ratio(7, 10)),
            constant(ids.node(), c1_out, a1, Value::from_ratio(1, 10)),
            constant(ids.node(), c2_out, a2, Value::from_ratio(2, 10)),
            add_node(ids.node(), a_in, a_out),
        ],
        links: vec![
            imnodes::color_editor::Link { id: ids.link(), start: cg_out, end: green },
            imnodes::color_editor::Link { id: ids.link(), start: c1_out, end: a_in },
            imnodes::color_editor::Link { id: ids.link(), start: c2_out, end: a_in },
            imnodes::color_editor::Link { id: ids.link(), start: a_out, end: blue },
        ],
    }
}

#[test]
fn output_node_channels_with_default_fallback() {
    let mut ids = Ids::new();
    let mut graph = color_scenario(&mut ids);
    imnodes::color_editor::update_output_node_at(&mut graph, 0, t0(), t0(), t0());
    match graph.nodes[0].typ {
        NodeType::Output(d) => {
            assert_eq!(d.red.to_bits(), DEFAULT_CHANNEL_BITS);
            assert_eq!(d.green.to_bits(), Value::from_ratio(7, 10).to_bits());
            assert_eq!(d.blue.to_bits(), Value::from_ratio(3, 10).to_bits());
        }
        _ => panic!("node 0 must stay the output node"),
    }
}

#[test]
fn evaluating_twice_gives_identical_values() {
    let mut ids = Ids::new();
    let mut graph = color_scenario(&mut ids);
    imnodes::color_editor::update_output_node_at(&mut graph, 0, t0(), t0(), t0());
    let first = graph.clone();
    imnodes::color_editor::update_output_node_at(&mut graph, 0, t0(), t0(), t0());
    for (a, b) in first.nodes.iter().zip(graph.nodes.iter()) {
        assert_eq!(a.value, b.value);
        assert_eq!(a.typ, b.typ);
    }
}

#[test]
fn two_node_cycle_terminates_with_finite_values() {
    let mut ids = Ids::new();
    let a_in = ids.input();
    let a_out = ids.output();
    let b_in = ids.input();
    let b_out = ids.output();
    let mut graph = Graph {
        nodes: vec![
            add_node(ids.node(), a_in, a_out),
            add_node(ids.node(), b_in, b_out),
        ],
        links: vec![
            imnodes::color_editor::Link { id: ids.link(), start: a_out, end: b_in },
            imnodes::color_editor::Link { id: ids.link(), start: b_out, end: a_in },
        ],
    };
    imnodes::color_editor::update_node_recursive_at(&mut graph, 0, t0());
    // the pass ends, both nodes carry a defined value
    assert_eq!(graph.nodes[0].value.to_bits(), 0);
    assert_eq!(graph.nodes[1].value.to_bits(), 0);
    assert!(graph.nodes[0].updated && graph.nodes[1].updated);
}

#[test]
fn removing_sole_input_falls_back_to_identity() {
    let mut ids = Ids::new();
    let c_out = ids.output();
    let a_in = ids.input();
    let a_out = ids.output();
    let attr = ids.gen.next_attribute();
    let link_id = ids.link();
    let mut graph = Graph {
        nodes: vec![
            constant(ids.node(), c_out, attr, Value::from_int(2)),
            add_node(ids.node(), a_in, a_out),
        ],
        links: vec![imnodes::color_editor::Link { id: link_id, start: c_out, end: a_in }],
    };
    imnodes::color_editor::update_node_recursive_at(&mut graph, 1, t0());
    assert_eq!(graph.nodes[1].value.to_bits(), 2 * 65536);
    // the user detaches the only link feeding the addition node
    graph.remove_link(link_id);
    assert!(graph.links.is_empty());
    // reset the pass markers, as every evaluation request does
    for node in graph.nodes.iter_mut() {
        node.updated = false;
    }
    imnodes::color_editor::update_node_recursive_at(&mut graph, 1, t0());
    assert_eq!(graph.nodes[1].value.to_bits(), 0);
}

#[test]
fn starting_graph_feeds_red_from_constant() {
    let context = Context::new();
    let mut state = State::new(&context);
    assert_eq!(state.graph.nodes.len(), 2);
    assert_eq!(state.graph.links.len(), 1);
    assert_eq!(state.graph.nodes[1].value.to_bits(), Value::from_ratio(2, 5).to_bits());
    imnodes::color_editor::update_output_node_at(
        &mut state.graph,
        0,
        t0(),
        t0(),
        t0(),
    );
    match state.graph.nodes[0].typ {
        NodeType::Output(d) => {
            // red is fed by the constant 0.4; green and blue fall back
            assert_eq!(d.red.to_bits(), Value::from_ratio(2, 5).to_bits());
            assert_eq!(d.green.to_bits(), DEFAULT_CHANNEL_BITS);
            assert_eq!(d.blue.to_bits(), DEFAULT_CHANNEL_BITS);
        }
        _ => panic!("node 0 must be the output node"),
    }
}

#[test]
fn state_records_created_and_destroyed_links() {
    let context = Context::new();
    let mut state = State::new(&context);
    let mut ids = Ids::new();
    let start_node = ids.node();
    let end_node = ids.node();
    let start_pin = ids.output();
    let end_pin = ids.input();
    state.handle_created_link(UiLink {
        start_node,
        end_node,
        start_pin,
        end_pin,
        created_from_snap: false,
    });
    assert_eq!(state.graph.links.len(), 2);
    let added = state.graph.links[1];
    assert_eq!(added.start, start_pin);
    assert_eq!(added.end, end_pin);
    state.handle_destroyed_link(added.id);
    assert_eq!(state.graph.links.len(), 1);
}

#[test]
fn popup_menu_adds_each_node_kind() {
    let context = Context::new();
    let mut state = State::new(&context);
    let before = state.graph.nodes.len();
    state.add_node(NewNodeKind::Add);
    state.add_node(NewNodeKind::Multiply);
    state.add_node(NewNodeKind::Sine);
    state.add_node(NewNodeKind::Time);
    state.add_node(NewNodeKind::Constant);
    assert_eq!(state.graph.nodes.len(), before + 5);
    assert!(matches!(state.graph.nodes[before].typ, NodeType::Add(_)));
    assert!(matches!(state.graph.nodes[before + 1].typ, NodeType::Multiply(_)));
    assert!(matches!(state.graph.nodes[before + 2].typ, NodeType::Sine(_)));
    assert!(matches!(state.graph.nodes[before + 3].typ, NodeType::Time(_)));
    assert!(matches!(state.graph.nodes[before + 4].typ, NodeType::Constant(_)));
    // every new node starts at 0.0 and unmarked
    for node in &state.graph.nodes[before..] {
        assert_eq!(node.value.to_bits(), 0);
        assert!(!node.updated);
    }
}

#[test]
fn slider_change_feeds_the_next_evaluation() {
    let context = Context::new();
    let mut state = State::new(&context);
    // the starting graph: node 1 is the constant feeding the red channel
    state.set_constant_value(1, Value::from_ratio(3, 4));
    imnodes::color_editor::update_output_node_at(&mut state.graph, 0, t0(), t0(), t0());
    match state.graph.nodes[0].typ {
        NodeType::Output(d) => {
            assert_eq!(d.red.to_bits(), Value::from_ratio(3, 4).to_bits());
        }
        _ => panic!("node 0 must be the output node"),
    }
}

#[test]
fn chained_nodes_evaluate_in_dependency_order() {
    let mut ids = Ids::new();
    let c1_out = ids.output();
    let c2_out = ids.output();
    let a_in = ids.input();
    let a_out = ids.output();
    let s_in = ids.input();
    let s_out = ids.output();
    let attr1 = ids.gen.next_attribute();
    let attr2 = ids.gen.next_attribute();
    // sine(pi * (0.25 + 0.25)) == 1
    let mut graph = Graph {
        nodes: vec![
            constant(ids.node(), c1_out, attr1, Value::from_ratio(1, 4)),
            constant(ids.node(), c2_out, attr2, Value::from_ratio(1, 4)),
            add_node(ids.node(), a_in, a_out),
            Node {
                id: ids.node(),
                typ: NodeType::Sine(SineData { input: s_in, output: s_out }),
                value: Value::zero(),
                updated: false,
            },
        ],
        links: vec![
            imnodes::color_editor::Link { id: ids.link(), start: c1_out, end: a_in },
            imnodes::color_editor::Link { id: ids.link(), start: c2_out, end: a_in },
            imnodes::color_editor::Link { id: ids.link(), start: a_out, end: s_in },
        ],
    };
    imnodes::color_editor::update_node_recursive_at(&mut graph, 3, t0());
    assert_eq!(graph.nodes[2].value.to_bits(), Value::from_ratio(1, 2).to_bits());
    let got = graph.nodes[3].value.to_bits() as f64 / FRACTION_ONE as f64;
    assert!((got - 1.0).abs() < 0.01, "chained sine produced {got}");
}

#[test]
fn sampling_entry_points_run_to_completion() {
    let context = Context::new();
    let mut state = State::new(&context);
    // the clock-sampling entry points, on a graph without time nodes
    imnodes::color_editor::update_output_node(&mut state.graph, 0);
    match state.graph.nodes[0].typ {
        NodeType::Output(d) => {
            assert_eq!(d.red.to_bits(), Value::from_ratio(2, 5).to_bits());
        }
        _ => panic!("node 0 must be the output node"),
    }
    imnodes::color_editor::update_node_recursive(&mut state.graph, 1);
    assert_eq!(state.graph.nodes[1].value.to_bits(), Value::from_ratio(2, 5).to_bits());
}

#[test]
fn time_node_value_stays_within_one_second() {
    let mut ids = Ids::new();
    let t_out = ids.output();
    let mut graph = Graph {
        nodes: vec![Node {
            id: ids.node(),
            typ: NodeType::Time(imnodes::color_editor::TimeData { output: t_out }),
            value: Value::from_int(7),
            updated: false,
        }],
        links: vec![],
    };
    imnodes::color_editor::update_node_recursive(&mut graph, 0);
    let bits = graph.nodes[0].value.to_bits();
    assert!(0 <= bits && bits < FRACTION_ONE, "time node produced {bits}");
}

#[test]
fn evaluation_tolerates_empty_and_out_of_range_graphs() {
    let mut graph = Graph { nodes: vec![], links: vec![] };
    imnodes::color_editor::update_node_recursive_at(&mut graph, 0, t0());
    imnodes::color_editor::update_output_node_at(&mut graph, 3, t0(), t0(), t0());
    assert!(graph.nodes.is_empty());
    // an index past the end, and one naming a node of another kind,
    // leave the values alone and only reset the pass markers
    let mut ids = Ids::new();
    let c_out = ids.output();
    let attr = ids.gen.next_attribute();
    let mut graph = Graph {
        nodes: vec![constant(ids.node(), c_out, attr, Value::from_int(5))],
        links: vec![],
    };
    imnodes::color_editor::update_output_node_at(&mut graph, 0, t0(), t0(), t0());
    assert_eq!(graph.nodes[0].value.to_bits(), 5 * 65536);
    assert!(!graph.nodes[0].updated);
}
