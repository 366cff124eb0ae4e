//! A node-editor support library: unique identifier generation for nodes,
//! pins and links, a model of the editor's draw-list call protocol enforced
//! by scope guards, and a dataflow evaluator that recomputes node values in
//! dependency order.

use vstd::prelude::*;

pub mod color_editor;
pub mod context;
pub mod multi_editor;
pub mod save_load;
pub mod scopes;
pub mod styling;
pub mod value;

verus! {

/// Used to generate unique identifiers for elements.
///
/// Input pins, output pins and attributes draw from one shared counter, so a
/// pin identifier alone determines the element it names; node and link
/// identifiers come from independent counters.
#[derive(Debug)]
pub struct IdentifierGenerator {
    current_node: i32,
    current_pin: i32,
    current_link: i32,
}

impl IdentifierGenerator {
    /// The node counter, visible to specifications.
    pub closed spec fn node_counter(self) -> int {
        self.current_node as int
    }

    /// The shared pin/attribute counter, visible to specifications.
    pub closed spec fn pin_counter(self) -> int {
        self.current_pin as int
    }

    /// The link counter, visible to specifications.
    pub closed spec fn link_counter(self) -> int {
        self.current_link as int
    }

    /// create
    pub(crate) fn new() -> (r: Self)
        ensures
            r.node_counter() == 0,
            r.pin_counter() == 0,
            r.link_counter() == 0,
    {
        Self { current_node: 0, current_pin: 0, current_link: 0 }
    }

    /// Id for a Node
    pub fn next_node(&mut self) -> (r: NodeId)
        requires
            old(self).node_counter() < i32::MAX,
        ensures
            r.raw() == old(self).node_counter(),
            final(self).node_counter() == old(self).node_counter() + 1,
            final(self).pin_counter() == old(self).pin_counter(),
            final(self).link_counter() == old(self).link_counter(),
    {
        let id = self.current_node;
        self.current_node = self.current_node + 1;
        NodeId { id }
    }

    /// Id for an input pin
    pub fn next_input_pin(&mut self) -> (r: InputPinId)
        requires
            old(self).pin_counter() < i32::MAX,
        ensures
            r.raw() == old(self).pin_counter(),
            final(self).pin_counter() == old(self).pin_counter() + 1,
            final(self).node_counter() == old(self).node_counter(),
            final(self).link_counter() == old(self).link_counter(),
    {
        let id = self.current_pin;
        self.current_pin = self.current_pin + 1;
        InputPinId { id }
    }

    /// Id for an output pin
    pub fn next_output_pin(&mut self) -> (r: OutputPinId)
        requires
            old(self).pin_counter() < i32::MAX,
        ensures
            r.raw() == old(self).pin_counter(),
            final(self).pin_counter() == old(self).pin_counter() + 1,
            final(self).node_counter() == old(self).node_counter(),
            final(self).link_counter() == old(self).link_counter(),
    {
        let id = self.current_pin;
        self.current_pin = self.current_pin + 1;
        OutputPinId { id }
    }

    /// Id for an attribute in a Node
    pub fn next_attribute(&mut self) -> (r: AttributeId)
        requires
            old(self).pin_counter() < i32::MAX,
        ensures
            r.raw() == old(self).pin_counter(),
            final(self).pin_counter() == old(self).pin_counter() + 1,
            final(self).node_counter() == old(self).node_counter(),
            final(self).link_counter() == old(self).link_counter(),
    {
        let id = self.current_pin;
        self.current_pin = self.current_pin + 1;
        AttributeId { id }
    }

    /// Id for a link
    pub fn next_link(&mut self) -> (r: LinkId)
        requires
            old(self).link_counter() < i32::MAX,
        ensures
            r.raw() == old(self).link_counter(),
            final(self).link_counter() == old(self).link_counter() + 1,
            final(self).node_counter() == old(self).node_counter(),
            final(self).pin_counter() == old(self).pin_counter(),
    {
        let id = self.current_link;
        self.current_link = self.current_link + 1;
        LinkId { id }
    }
}

/// Identifier for a Node
#[derive(Debug, Copy, Clone, Hash, Eq, PartialEq, Structural)]
pub struct NodeId {
    id: i32,
}

impl NodeId {
    /// The raw integer behind this identifier.
    pub closed spec fn raw(self) -> int {
        self.id as int
    }

    /// The raw integer behind this identifier.
    pub fn into_raw(self) -> (r: i32)
        ensures
            r == self.raw(),
    {
        self.id
    }
}

/// Identifier for attributes in nodes; drawn from the same counter as pins.
#[derive(Debug, Copy, Clone, Hash, Eq, PartialEq, Structural)]
pub struct AttributeId {
    id: i32,
}

impl AttributeId {
    /// The raw integer behind this identifier.
    pub closed spec fn raw(self) -> int {
        self.id as int
    }

    /// The raw integer behind this identifier.
    pub fn into_raw(self) -> (r: i32)
        ensures
            r == self.raw(),
    {
        self.id
    }
}

/// Either an input or an output pin.
#[derive(Debug, Copy, Clone, Hash, Eq, PartialEq, Structural)]
pub struct PinId {
    id: i32,
}

impl PinId {
    /// The raw integer behind this identifier.
    pub closed spec fn raw(self) -> int {
        self.id as int
    }

    /// The raw integer behind this identifier.
    pub fn into_raw(self) -> (r: i32)
        ensures
            r == self.raw(),
    {
        self.id
    }
}

/// Id for an input pin.
#[derive(Debug, Copy, Clone, Hash, Eq, PartialEq, Structural)]
pub struct InputPinId {
    id: i32,
}

impl InputPinId {
    /// The raw integer behind this identifier.
    pub closed spec fn raw(self) -> int {
        self.id as int
    }

    /// The raw integer behind this identifier.
    pub fn into_raw(self) -> (r: i32)
        ensures
            r == self.raw(),
    {
        self.id
    }

    /// This pin, seen as a pin of either direction.
    pub fn pin_id(self) -> (r: PinId)
        ensures
            r.raw() == self.raw(),
    {
        PinId { id: self.id }
    }
}

/// Id for an output pin.
#[derive(Debug, Copy, Clone, Hash, Eq, PartialEq, Structural)]
pub struct OutputPinId {
    id: i32,
}

impl OutputPinId {
    /// The raw integer behind this identifier.
    pub closed spec fn raw(self) -> int {
        self.id as int
    }

    /// The raw integer behind this identifier.
    pub fn into_raw(self) -> (r: i32)
        ensures
            r == self.raw(),
    {
        self.id
    }

    /// This pin, seen as a pin of either direction.
    pub fn pin_id(self) -> (r: PinId)
        ensures
            r.raw() == self.raw(),
    {
        PinId { id: self.id }
    }
}

/// Id for a link.
#[derive(Debug, Copy, Clone, Hash, Eq, PartialEq, Structural)]
pub struct LinkId {
    id: i32,
}

impl LinkId {
    /// The raw integer behind this identifier.
    pub closed spec fn raw(self) -> int {
        self.id as int
    }

    /// The raw integer behind this identifier.
    pub fn into_raw(self) -> (r: i32)
        ensures
            r == self.raw(),
    {
        self.id
    }
}

/// A link created by the user this frame, as reported by the editor:
/// a directed edge from an output pin on one node to an input pin on another.
#[derive(Debug, Copy, Clone, Hash, Eq, PartialEq, Structural)]
pub struct Link {
    /// The node owning the output pin where the link starts.
    pub start_node: NodeId,
    /// The node owning the input pin where the link ends.
    pub end_node: NodeId,
    /// The output pin where the link starts.
    pub start_pin: OutputPinId,
    /// The input pin where the link ends.
    pub end_pin: InputPinId,
    /// Whether the link was created by snapping onto a pin.
    pub created_from_snap: bool,
}


/// An element the mouse can hover: a node, a pin or a link.
pub trait Hoverable: Sized {
    /// Whether this element is the hovered one in the given frame.
    spec fn spec_hovered(self, scope: crate::scopes::OuterScope) -> bool;

    /// Whether this element is the hovered one in the given frame.
    fn is_hovered_in(&self, scope: &crate::scopes::OuterScope) -> (r: bool)
        ensures
            r == self.spec_hovered(*scope),
    ;
}

impl Hoverable for NodeId {
    open spec fn spec_hovered(self, scope: crate::scopes::OuterScope) -> bool {
        scope.spec_events().hovered_node == Some(self)
    }

    fn is_hovered_in(&self, scope: &crate::scopes::OuterScope) -> (r: bool)
    {
        match scope.get_hovered_node() {
            Some(n) => n == *self,
            None => false,
        }
    }
}

impl Hoverable for InputPinId {
    open spec fn spec_hovered(self, scope: crate::scopes::OuterScope) -> bool {
        match scope.spec_events().hovered_pin {
            Some(p) => p.raw() == self.raw(),
            None => false,
        }
    }

    fn is_hovered_in(&self, scope: &crate::scopes::OuterScope) -> (r: bool)
    {
        match scope.get_hovered_pin() {
            Some(p) => p == self.pin_id(),
            None => false,
        }
    }
}

impl Hoverable for OutputPinId {
    open spec fn spec_hovered(self, scope: crate::scopes::OuterScope) -> bool {
        match scope.spec_events().hovered_pin {
            Some(p) => p.raw() == self.raw(),
            None => false,
        }
    }

    fn is_hovered_in(&self, scope: &crate::scopes::OuterScope) -> (r: bool)
    {
        match scope.get_hovered_pin() {
            Some(p) => p == self.pin_id(),
            None => false,
        }
    }
}

impl Hoverable for LinkId {
    open spec fn spec_hovered(self, scope: crate::scopes::OuterScope) -> bool {
        scope.spec_events().hovered_link == Some(self)
    }

    fn is_hovered_in(&self, scope: &crate::scopes::OuterScope) -> (r: bool)
    {
        match scope.get_hovered_link() {
            Some(l) => l == *self,
            None => false,
        }
    }
}

impl PinId {
    /// Whether the user started dragging a new link from this pin this
    /// frame.
    pub fn is_start_of_link(&self, scope: &crate::scopes::OuterScope) -> (r: bool)
        ensures
            r == (scope.spec_events().link_started_from == Some(*self)),
    {
        scope.link_started_at(*self)
    }

    /// Whether the user dropped a link dragged from this pin without
    /// attaching it; with `including_detached_links`, links detached from an
    /// existing connection count too.
    pub fn dropped_link(&self, including_detached_links: bool, scope: &crate::scopes::OuterScope) -> (r:
        bool)
        ensures
            r == (if including_detached_links {
                scope.spec_events().link_dropped_from_including_detached == Some(*self)
            } else {
                scope.spec_events().link_dropped_from == Some(*self)
            }),
    {
        scope.link_dropped_from(*self, including_detached_links)
    }
}

impl LinkId {
    /// Whether this link was destroyed by the user this frame.
    pub fn is_removed(&self, scope: &crate::scopes::OuterScope) -> (r: bool)
        ensures
            r == (scope.spec_events().destroyed_link == Some(*self)),
    {
        match scope.get_destroyed_link() {
            Some(l) => l == *self,
            None => false,
        }
    }
}

} // verus!
