use imnodes::context::{Context, FrameEvents};
use imnodes::scopes::{editor, DrawCommand};
use imnodes::styling::{MiniMapLocation, PinShape};
use imnodes::Hoverable;

#[test]
fn hello_world_frame_emits_expected_commands() {
    let context = Context::new();
    let mut editor_context = context.create_editor();
    let mut id_gen = editor_context.new_identifier_generator();
    let node = id_gen.next_node();
    let input = id_gen.next_input_pin();
    let output = id_gen.next_output_pin();
    let outer = editor(&mut editor_context, |scope| {
        scope.add_node(node, |n| {
            n.add_titlebar()
                .add_input(input, PinShape::Circle)
                .add_output(output, PinShape::QuadFilled)
        })
    });
    let cmds = outer.commands();
    assert_eq!(
        cmds.as_slice(),
        &[
            DrawCommand::BeginNodeEditor,
            DrawCommand::BeginNode(0),
            DrawCommand::BeginNodeTitleBar,
            DrawCommand::EndNodeTitleBar,
            DrawCommand::BeginInputAttribute(0, 0),
            DrawCommand::EndInputAttribute,
            DrawCommand::BeginOutputAttribute(1, 5),
            DrawCommand::EndOutputAttribute,
            DrawCommand::EndNode,
            DrawCommand::EndNodeEditor,
        ]
    );
}

#[test]
fn every_begin_is_matched_before_the_frame_closes() {
    let context = Context::new();
    let mut editor_context = context.create_editor();
    let mut id_gen = editor_context.new_identifier_generator();
    let a = id_gen.next_node();
    let b = id_gen.next_node();
    let pin_out = id_gen.next_output_pin();
    let pin_in = id_gen.next_input_pin();
    let link = id_gen.next_link();
    let outer = editor(&mut editor_context, |scope| {
        let scope = scope.add_node(a, |n| n.add_output(pin_out, PinShape::Circle));
        let scope = scope.add_node(b, |n| n.add_input(pin_in, PinShape::Triangle));
        let scope = scope.add_link(link, pin_in, pin_out);
        scope.add_mini_map(MiniMapLocation::BottomLeft)
    });
    let cmds = outer.commands();
    let begins = cmds
        .iter()
        .filter(|c| matches!(c, DrawCommand::BeginNode(_)))
        .count();
    let ends = cmds.iter().filter(|c| matches!(c, DrawCommand::EndNode)).count();
    assert_eq!(begins, 2);
    assert_eq!(begins, ends);
    assert_eq!(cmds.first(), Some(&DrawCommand::BeginNodeEditor));
    assert_eq!(cmds.last(), Some(&DrawCommand::EndNodeEditor));
    assert!(cmds.contains(&DrawCommand::Link(0, 0, 1)));
    assert!(cmds.contains(&DrawCommand::MiniMap(MiniMapLocation::BottomLeft)));
}

#[test]
fn frame_reports_the_events_the_host_handed_in() {
    let context = Context::new();
    let mut editor_context = context.create_editor();
    let mut id_gen = editor_context.new_identifier_generator();
    let start_node = id_gen.next_node();
    let end_node = id_gen.next_node();
    let hovered = id_gen.next_node();
    let start_pin = id_gen.next_output_pin();
    let end_pin = id_gen.next_input_pin();
    let destroyed = id_gen.next_link();
    let created = imnodes::Link {
        start_node,
        end_node,
        start_pin,
        end_pin,
        created_from_snap: true,
    };
    let mut events = FrameEvents::empty();
    events.created_link = Some(created);
    events.destroyed_link = Some(destroyed);
    events.hovered_node = Some(hovered);
    events.link_started_from = Some(start_pin.pin_id());
    events.selected_nodes = vec![start_node, end_node];
    events.editor_hovered = true;
    editor_context.set_frame_events(events);
    let mut saw_hover = false;
    let outer = editor(&mut editor_context, |scope| {
        saw_hover = scope.is_hovered();
        scope
    });
    assert!(saw_hover);
    assert_eq!(outer.links_created(), Some(created));
    assert_eq!(outer.get_destroyed_link(), Some(destroyed));
    assert!(destroyed.is_removed(&outer));
    assert!(outer.is_hovered(hovered));
    assert!(!outer.is_hovered(start_node));
    assert!(outer.link_started_at(start_pin.pin_id()));
    assert!(start_pin.pin_id().is_start_of_link(&outer));
    assert_eq!(outer.num_selected_nodes(), 2);
    assert_eq!(outer.num_selected_links(), 0);
    assert_eq!(outer.selected_nodes().as_slice(), &[start_node, end_node]);
    // the frame consumed the pending events; the next one reports nothing
    let outer2 = editor(&mut editor_context, |scope| scope);
    assert_eq!(outer2.links_created(), None);
    assert_eq!(outer2.get_destroyed_link(), None);
    assert_eq!(outer2.num_selected_nodes(), 0);
}

#[test]
fn identifier_generator_counters_are_independent() {
    let context = Context::new();
    let editor_context = context.create_editor();
    let mut id_gen = editor_context.new_identifier_generator();
    let n0 = id_gen.next_node();
    let p0 = id_gen.next_input_pin();
    let p1 = id_gen.next_output_pin();
    let a2 = id_gen.next_attribute();
    let l0 = id_gen.next_link();
    let n1 = id_gen.next_node();
    assert_eq!(n0.into_raw(), 0);
    assert_eq!(n1.into_raw(), 1);
    // input pins, output pins and attributes share one counter
    assert_eq!(p0.into_raw(), 0);
    assert_eq!(p1.into_raw(), 1);
    assert_eq!(a2.into_raw(), 2);
    assert_eq!(l0.into_raw(), 0);
    assert_ne!(p0.into_raw(), p1.into_raw());
}
