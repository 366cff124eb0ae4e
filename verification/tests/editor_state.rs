use imnodes::context::{CanvasVec2, Context};
use imnodes::multi_editor::MultiEditState;
use imnodes::save_load::{SaveLoadState, Status};
use imnodes::styling::{
    create_imnodes_style, AttributeFlags, ColorStyle, Style, StyleFlags, StyleVar,
};
use imnodes::value::Value;
use imnodes::Link as UiLink;

#[test]
fn default_style_holds_documented_dimensions() {
    let style = Style::new_default();
    assert_eq!(style.grid_spacing, 240);
    assert_eq!(style.node_corner_rounding, 40);
    assert_eq!(style.node_padding, (80, 80));
    assert_eq!(style.link_thickness, 30);
    assert_eq!(style.flags, StyleFlags::NodeOutline.bits() | StyleFlags::GridLines.bits());
    assert_eq!(style.colors.len(), 29);
    let legacy = create_imnodes_style();
    assert_eq!(style, legacy);
    assert_eq!(style, Style::default());
}

#[test]
fn theme_setters_replace_the_palette() {
    let context = Context::new();
    let editor_context = context.create_editor();
    let mut style = Style::new_default();
    let dark = style.colors;
    editor_context.set_style_colors_classic(&mut style);
    let classic = style.colors;
    editor_context.set_style_colors_light(&mut style);
    let light = style.colors;
    editor_context.set_style_colors_dark(&mut style);
    assert_eq!(style.colors, dark);
    assert_ne!(classic, dark);
    assert_ne!(light, dark);
    assert_ne!(light, classic);
    // the title bar entry distinguishes the palettes
    let title = ColorStyle::TitleBar.index();
    assert_ne!(dark[title], classic[title]);
}

#[test]
fn style_stacks_balance_through_tokens() {
    let context = Context::new();
    let mut editor_context = context.create_editor();
    let background = ColorStyle::GridBackground.push_color(0xFF00_1122, &mut editor_context);
    let title = ColorStyle::TitleBar.push_color(0xFF33_4455, &mut editor_context);
    let spacing = StyleVar::GridSpacing.push_scalar(120, &mut editor_context);
    let padding = StyleVar::NodePadding.push_pair(40, 40, &mut editor_context);
    let on_snap =
        editor_context.push_attribute_flag(AttributeFlags::EnableLinkCreationOnSnap);
    let detach =
        editor_context.push_attribute_flag(AttributeFlags::EnableLinkDetachWithDragClick);
    detach.pop(&mut editor_context);
    on_snap.pop(&mut editor_context);
    padding.pop(1, &mut editor_context);
    spacing.pop(1, &mut editor_context);
    title.pop(&mut editor_context);
    background.pop(&mut editor_context);
}

#[test]
fn style_var_token_pops_several_entries_at_once() {
    let context = Context::new();
    let mut editor_context = context.create_editor();
    let _first = StyleVar::GridSpacing.push_scalar(100, &mut editor_context);
    let second = StyleVar::LinkThickness.push_scalar(20, &mut editor_context);
    second.pop(2, &mut editor_context);
    // both entries are gone: new pushes start at depth one again
    let third = StyleVar::PinOffset.push_scalar(0, &mut editor_context);
    third.pop(1, &mut editor_context);
}

#[test]
fn save_load_adds_and_removes_nodes() {
    let context = Context::new();
    let mut state = SaveLoadState::new(&context);
    assert_eq!(state.status(), Status::Ready);
    state.add_node(Some(CanvasVec2 { x: 10, y: 20 }));
    state.add_node(None);
    assert_eq!(state.nodes().len(), 2);
    assert_eq!(state.nodes()[0].pos, CanvasVec2 { x: 10, y: 20 });
    // with no position given, the node lands offset from the panning origin
    assert_eq!(state.nodes()[1].pos, CanvasVec2 { x: 100, y: 100 });
    let first = state.nodes()[0];
    match state.status() {
        Status::AddedNode(_) => {}
        other => panic!("unexpected status {other:?}"),
    }
    // select and remove the first node
    state.set_selection(vec![first.id], vec![]);
    state.remove_selected_nodes();
    assert_eq!(state.nodes().len(), 1);
    assert_eq!(state.status(), Status::RemovedNodes(1));
    // removing with nothing selected only reports
    state.remove_selected_nodes();
    assert_eq!(state.nodes().len(), 1);
    assert_eq!(state.status(), Status::NoNodesSelected);
}

#[test]
fn save_load_links_are_deduplicated_and_removed_with_nodes() {
    let context = Context::new();
    let mut state = SaveLoadState::new(&context);
    state.add_node(None);
    state.add_node(None);
    let a = state.nodes()[0];
    let b = state.nodes()[1];
    let ui_link = UiLink {
        start_node: a.id,
        end_node: b.id,
        start_pin: a.output,
        end_pin: b.input,
        created_from_snap: false,
    };
    state.handle_created_link(ui_link);
    assert_eq!(state.links().len(), 1);
    // the same pins again: no duplicate is recorded
    state.handle_created_link(ui_link);
    assert_eq!(state.links().len(), 1);
    let link_id = state.links()[0].id;
    // destroying an unknown link changes nothing
    state.handle_destroyed_link(link_id);
    assert_eq!(state.links().len(), 0);
    assert_eq!(state.status(), Status::RemovedLink(link_id));
    // links touching a removed node's pins disappear with it
    state.handle_created_link(ui_link);
    state.set_selection(vec![b.id], vec![]);
    state.remove_selected_nodes();
    assert_eq!(state.nodes().len(), 1);
    assert_eq!(state.links().len(), 0);
}

#[test]
fn multi_editor_tracks_nodes_and_links() {
    let context = Context::new();
    let mut state = MultiEditState::new(&context);
    state.add_node();
    state.add_node();
    assert_eq!(state.nodes().len(), 2);
    assert_eq!(state.nodes()[0].id.into_raw(), 0);
    assert_eq!(state.nodes()[1].id.into_raw(), 1);
    state.set_value(1, Value::from_ratio(9, 2));
    assert_eq!(state.nodes()[1].value.to_bits(), Value::from_ratio(9, 2).to_bits());
    let start = state.nodes()[0].output;
    let end = state.nodes()[1].input;
    state.handle_created_link(start, end);
    assert_eq!(state.links().len(), 1);
    let id = state.links()[0].id;
    state.handle_destroyed_link(id);
    assert_eq!(state.links().len(), 0);
}

#[test]
fn panning_and_selection_live_on_the_context() {
    let context = Context::new();
    let mut editor_context = context.create_editor();
    assert_eq!(editor_context.get_panning(), CanvasVec2 { x: 0, y: 0 });
    editor_context.reset_panning(CanvasVec2 { x: -7, y: 40 });
    assert_eq!(editor_context.get_panning(), CanvasVec2 { x: -7, y: 40 });
    editor_context.clear_node_selection();
    editor_context.clear_link_selection();
}
