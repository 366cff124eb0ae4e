//! The editor contexts: the process-wide context that owns the node-editor
//! machinery, and one editor context per workspace, carrying the workspace's
//! panning, its style stacks, and the user-interaction events of the current
//! frame that the host hands in before the frame is built.

use vstd::prelude::*;

use crate::styling::{AttributeFlags, PushedColor, PushedStyleVar};
use crate::{AttributeId, IdentifierGenerator, Link, LinkId, NodeId, PinId};

verus! {

/// A position or offset on the editor canvas, in whole pixels.
#[derive(Debug, Clone, Copy, PartialEq, Eq, Structural)]
pub struct CanvasVec2 {
    /// The horizontal component.
    pub x: i32,
    /// The vertical component.
    pub y: i32,
}

/// The user-interaction events of one frame, as the host observed them:
/// what was created, destroyed, hovered, selected or dragged.
#[derive(Debug, Clone, PartialEq, Eq)]
pub struct FrameEvents {
    /// A link the user finished creating this frame.
    pub created_link: Option<Link>,
    /// A link the user destroyed this frame.
    pub destroyed_link: Option<LinkId>,
    /// The node under the mouse cursor.
    pub hovered_node: Option<NodeId>,
    /// The pin under the mouse cursor.
    pub hovered_pin: Option<PinId>,
    /// The link under the mouse cursor.
    pub hovered_link: Option<LinkId>,
    /// The attribute whose widget is being interacted with.
    pub active_attribute: Option<AttributeId>,
    /// The pin a new link drag started from this frame.
    pub link_started_from: Option<PinId>,
    /// The pin a freshly dragged link was dropped from without connecting.
    pub link_dropped_from: Option<PinId>,
    /// As above, also counting links detached from an existing connection.
    pub link_dropped_from_including_detached: Option<PinId>,
    /// The currently selected nodes.
    pub selected_nodes: Vec<NodeId>,
    /// The currently selected links.
    pub selected_links: Vec<LinkId>,
    /// Whether the editor canvas itself is hovered.
    pub editor_hovered: bool,
}

/// Whether a frame-event record reports nothing at all.
pub open spec fn events_empty(ev: FrameEvents) -> bool {
    &&& ev.created_link is None
    &&& ev.destroyed_link is None
    &&& ev.hovered_node is None
    &&& ev.hovered_pin is None
    &&& ev.hovered_link is None
    &&& ev.active_attribute is None
    &&& ev.link_started_from is None
    &&& ev.link_dropped_from is None
    &&& ev.link_dropped_from_including_detached is None
    &&& ev.selected_nodes@ =~= Seq::<NodeId>::empty()
    &&& ev.selected_links@ =~= Seq::<LinkId>::empty()
    &&& !ev.editor_hovered
}

impl FrameEvents {
    /// A frame in which nothing happened.
    pub fn empty() -> (r: FrameEvents)
        ensures
            events_empty(r),
    {
        FrameEvents {
            created_link: None,
            destroyed_link: None,
            hovered_node: None,
            hovered_pin: None,
            hovered_link: None,
            active_attribute: None,
            link_started_from: None,
            link_dropped_from: None,
            link_dropped_from_including_detached: None,
            selected_nodes: Vec::new(),
            selected_links: Vec::new(),
            editor_hovered: false,
        }
    }
}

impl Default for FrameEvents {
    /// A frame in which nothing happened.
    fn default() -> (r: FrameEvents)
        ensures
            events_empty(r),
    {
        FrameEvents::empty()
    }
}

/// An editor context corresponds to a set of nodes in a single workspace.
/// Creating one context per editor allows several independent editors.
#[derive(Debug)]
pub struct EditorContext {
    pub(crate) events: FrameEvents,
    pub(crate) color_stack: Vec<PushedColor>,
    pub(crate) style_var_stack: Vec<PushedStyleVar>,
    pub(crate) attribute_flag_stack: Vec<AttributeFlags>,
    pub(crate) panning: CanvasVec2,
}

impl EditorContext {
    /// The frame events the host handed in, visible to specifications.
    pub closed spec fn spec_events(self) -> FrameEvents {
        self.events
    }

    /// The pushed color-style entries, innermost last.
    pub closed spec fn spec_color_stack(self) -> Seq<PushedColor> {
        self.color_stack@
    }

    /// The pushed style-variable entries, innermost last.
    pub closed spec fn spec_style_var_stack(self) -> Seq<PushedStyleVar> {
        self.style_var_stack@
    }

    /// The pushed attribute flags, innermost last.
    pub closed spec fn spec_attribute_flag_stack(self) -> Seq<AttributeFlags> {
        self.attribute_flag_stack@
    }

    /// The current panning offset of the editor canvas.
    pub closed spec fn spec_panning(self) -> CanvasVec2 {
        self.panning
    }

    /// Creates a new identifier generator associated with this editor
    /// context: all of its counters start at zero.
    pub fn new_identifier_generator(&self) -> (r: IdentifierGenerator)
        ensures
            r.node_counter() == 0,
            r.pin_counter() == 0,
            r.link_counter() == 0,
    {
        IdentifierGenerator::new()
    }

    /// Hands this frame's user-interaction events to the editor; the next
    /// frame built on this context reports them.
    pub fn set_frame_events(&mut self, ev: FrameEvents)
        ensures
            final(self).spec_events() == ev,
            final(self).spec_color_stack() == old(self).spec_color_stack(),
            final(self).spec_style_var_stack() == old(self).spec_style_var_stack(),
            final(self).spec_attribute_flag_stack() == old(self).spec_attribute_flag_stack(),
            final(self).spec_panning() == old(self).spec_panning(),
    {
        self.events = ev;
    }

    /// Takes this frame's events out, leaving an empty record behind.
    pub(crate) fn take_frame_events(&mut self) -> (r: FrameEvents)
        ensures
            r == old(self).spec_events(),
            events_empty(final(self).spec_events()),
            final(self).spec_color_stack() == old(self).spec_color_stack(),
            final(self).spec_style_var_stack() == old(self).spec_style_var_stack(),
            final(self).spec_attribute_flag_stack() == old(self).spec_attribute_flag_stack(),
            final(self).spec_panning() == old(self).spec_panning(),
    {
        let mut taken = FrameEvents::empty();
        core::mem::swap(&mut taken, &mut self.events);
        taken
    }

    /// Gets the current panning offset of the editor canvas.
    pub fn get_panning(&self) -> (r: CanvasVec2)
        ensures
            r == self.spec_panning(),
    {
        self.panning
    }

    /// Sets the panning offset of the editor canvas.
    pub fn reset_panning(&mut self, pos: CanvasVec2)
        ensures
            final(self).spec_panning() == pos,
            final(self).spec_events() == old(self).spec_events(),
            final(self).spec_color_stack() == old(self).spec_color_stack(),
            final(self).spec_style_var_stack() == old(self).spec_style_var_stack(),
            final(self).spec_attribute_flag_stack() == old(self).spec_attribute_flag_stack(),
    {
        self.panning = pos;
    }

    /// Clears the current selection of nodes.
    pub fn clear_node_selection(&mut self)
        ensures
            final(self).spec_events().selected_nodes@ =~= Seq::<NodeId>::empty(),
            final(self).spec_events().selected_links == old(self).spec_events().selected_links,
            final(self).spec_color_stack() == old(self).spec_color_stack(),
            final(self).spec_style_var_stack() == old(self).spec_style_var_stack(),
            final(self).spec_attribute_flag_stack() == old(self).spec_attribute_flag_stack(),
            final(self).spec_panning() == old(self).spec_panning(),
    {
        self.events.selected_nodes = Vec::new();
    }

    /// Clears the current selection of links.
    pub fn clear_link_selection(&mut self)
        ensures
            final(self).spec_events().selected_links@ =~= Seq::<LinkId>::empty(),
            final(self).spec_events().selected_nodes == old(self).spec_events().selected_nodes,
            final(self).spec_color_stack() == old(self).spec_color_stack(),
            final(self).spec_style_var_stack() == old(self).spec_style_var_stack(),
            final(self).spec_attribute_flag_stack() == old(self).spec_attribute_flag_stack(),
            final(self).spec_panning() == old(self).spec_panning(),
    {
        self.events.selected_links = Vec::new();
    }
}

/// The process-wide node-editor context. Create exactly one at startup;
/// editor contexts for individual workspaces come from it.
#[derive(Debug)]
pub struct Context {}

impl Context {
    /// Creates the process-wide context.
    pub fn new() -> (r: Self)
    {
        Context {  }
    }

    /// Creates an editor context for one workspace: no pending events, empty
    /// style stacks, and the canvas at its origin.
    pub fn create_editor(&self) -> (r: EditorContext)
        ensures
            events_empty(r.spec_events()),
            r.spec_color_stack() =~= Seq::<PushedColor>::empty(),
            r.spec_style_var_stack() =~= Seq::<PushedStyleVar>::empty(),
            r.spec_attribute_flag_stack() =~= Seq::<AttributeFlags>::empty(),
            r.spec_panning() == (CanvasVec2 { x: 0, y: 0 }),
    {
        EditorContext {
            events: FrameEvents::empty(),
            color_stack: Vec::new(),
            style_var_stack: Vec::new(),
            attribute_flag_stack: Vec::new(),
            panning: CanvasVec2 { x: 0, y: 0 },
        }
    }
}

impl Default for Context {
    /// Creates the process-wide context.
    fn default() -> (r: Self)
    {
        Context::new()
    }
}


/// Ties an editor context's specification views to its fields, for the
/// crate's other modules, whose proofs cannot see the view bodies.
pub(crate) proof fn lemma_context_views(c: EditorContext)
    ensures
        c.spec_events() == c.events,
        c.spec_color_stack() == c.color_stack@,
        c.spec_style_var_stack() == c.style_var_stack@,
        c.spec_attribute_flag_stack() == c.attribute_flag_stack@,
        c.spec_panning() == c.panning,
{
}

} // verus!
