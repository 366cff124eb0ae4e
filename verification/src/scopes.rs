//! The scopes for building one frame of the node editor.
//!
//! The native editor demands a strict nesting of its calls: an editor block,
//! nodes only inside it, and title bars and attributes only inside a node.
//! Here that protocol is a state machine over the frame's draw commands, and
//! each nesting level is a distinct guard type offering only the operations
//! legal at that level, so an ill-nested frame cannot be built at all; the
//! commands every frame produces are proved to be accepted by the protocol.

use vstd::prelude::*;

use crate::context::{EditorContext, FrameEvents};
use crate::styling::{MiniMapLocation, PinShape};
use crate::{AttributeId, InputPinId, Link, LinkId, NodeId, OutputPinId, PinId};

verus! {

/// One call into the native editor's draw list.
#[derive(Debug, Clone, Copy, PartialEq, Eq, Structural)]
pub enum DrawCommand {
    /// Open the editor block.
    BeginNodeEditor,
    /// Close the editor block.
    EndNodeEditor,
    /// Open a node, by its raw identifier.
    BeginNode(i32),
    /// Close the open node.
    EndNode,
    /// Open the open node's title bar.
    BeginNodeTitleBar,
    /// Close the title bar.
    EndNodeTitleBar,
    /// Open an input attribute: raw pin identifier and pin-shape index.
    BeginInputAttribute(i32, i32),
    /// Close the input attribute.
    EndInputAttribute,
    /// Open an output attribute: raw pin identifier and pin-shape index.
    BeginOutputAttribute(i32, i32),
    /// Close the output attribute.
    EndOutputAttribute,
    /// Open a static attribute, by its raw identifier.
    BeginStaticAttribute(i32),
    /// Close the static attribute.
    EndStaticAttribute,
    /// Draw a link: raw link, output-pin and input-pin identifiers.
    Link(i32, i32, i32),
    /// Draw the minimap overlay in the given corner.
    MiniMap(MiniMapLocation),
}

/// The nesting level the protocol is in after a prefix of the frame.
#[derive(Debug, Clone, Copy, PartialEq, Eq, Structural)]
pub enum Nesting {
    /// Before the editor block opens or after it closes.
    Outside,
    /// Inside the editor block.
    Editing,
    /// Inside a node.
    NodeEditing,
    /// Inside the open node's title bar.
    TitleBar,
    /// Inside an input attribute.
    InputAttribute,
    /// Inside an output attribute.
    OutputAttribute,
    /// Inside a static attribute.
    StaticAttribute,
}

/// The protocol's transition: which command is legal in which nesting level,
/// and where it leads.
pub open spec fn protocol_step(s: Nesting, c: DrawCommand) -> Option<Nesting> {
    match (s, c) {
        (Nesting::Outside, DrawCommand::BeginNodeEditor) => Some(Nesting::Editing),
        (Nesting::Editing, DrawCommand::EndNodeEditor) => Some(Nesting::Outside),
        (Nesting::Editing, DrawCommand::BeginNode(_)) => Some(Nesting::NodeEditing),
        (Nesting::NodeEditing, DrawCommand::EndNode) => Some(Nesting::Editing),
        (Nesting::Editing, DrawCommand::Link(_, _, _)) => Some(Nesting::Editing),
        (Nesting::Editing, DrawCommand::MiniMap(_)) => Some(Nesting::Editing),
        (Nesting::NodeEditing, DrawCommand::BeginNodeTitleBar) => Some(Nesting::TitleBar),
        (Nesting::TitleBar, DrawCommand::EndNodeTitleBar) => Some(Nesting::NodeEditing),
        (Nesting::NodeEditing, DrawCommand::BeginInputAttribute(_, _)) => Some(
            Nesting::InputAttribute,
        ),
        (Nesting::InputAttribute, DrawCommand::EndInputAttribute) => Some(Nesting::NodeEditing),
        (Nesting::NodeEditing, DrawCommand::BeginOutputAttribute(_, _)) => Some(
            Nesting::OutputAttribute,
        ),
        (Nesting::OutputAttribute, DrawCommand::EndOutputAttribute) => Some(Nesting::NodeEditing),
        (Nesting::NodeEditing, DrawCommand::BeginStaticAttribute(_)) => Some(
            Nesting::StaticAttribute,
        ),
        (Nesting::StaticAttribute, DrawCommand::EndStaticAttribute) => Some(Nesting::NodeEditing),
        _ => None,
    }
}

/// Runs the protocol over a command sequence from the given nesting level:
/// the level it reaches, or nothing if some command is illegal where it
/// stands.
pub open spec fn protocol_run(s: Nesting, cmds: Seq<DrawCommand>) -> Option<Nesting>
    decreases cmds.len(),
{
    if cmds.len() == 0 {
        Some(s)
    } else {
        match protocol_step(s, cmds[0]) {
            Some(s1) => protocol_run(s1, cmds.drop_first()),
            None => None,
        }
    }
}

/// Whether a whole frame is legal: starting outside, every command is legal
/// where it stands, and the frame ends outside again.
pub open spec fn frame_complete(cmds: Seq<DrawCommand>) -> bool {
    protocol_run(Nesting::Outside, cmds) == Some(Nesting::Outside)
}

/// Running a concatenation runs the two parts in turn.
proof fn lemma_protocol_run_concat(s: Nesting, a: Seq<DrawCommand>, b: Seq<DrawCommand>)
    ensures
        protocol_run(s, a + b) == (match protocol_run(s, a) {
            Some(s1) => protocol_run(s1, b),
            None => None::<Nesting>,
        }),
    decreases a.len(),
{
    if a.len() == 0 {
        assert(a + b =~= b);
    } else {
        assert((a + b)[0] == a[0]);
        match protocol_step(s, a[0]) {
            Some(s1) => {
                assert((a + b).drop_first() =~= a.drop_first() + b);
                lemma_protocol_run_concat(s1, a.drop_first(), b);
            }
            None => {}
        }
    }
}

/// Running one more command steps the level the prefix reached.
proof fn lemma_protocol_run_snoc(s: Nesting, a: Seq<DrawCommand>, c: DrawCommand)
    ensures
        protocol_run(s, a.push(c)) == (match protocol_run(s, a) {
            Some(s1) => protocol_step(s1, c),
            None => None::<Nesting>,
        }),
{
    assert(a.push(c) =~= a + seq![c]);
    lemma_protocol_run_concat(s, a, seq![c]);
    assert(seq![c].drop_first() =~= Seq::<DrawCommand>::empty());
    match protocol_run(s, a) {
        Some(s1) => {
            match protocol_step(s1, c) {
                Some(s2) => {
                    assert(protocol_run(s2, seq![c].drop_first()) == Some(s2));
                    assert(protocol_run(s1, seq![c]) == Some(s2));
                }
                None => {
                    assert(protocol_run(s1, seq![c]) is None);
                }
            }
        }
        None => {}
    }
}

/// How many commands of the sequence the given test accepts.
pub open spec fn count_matching(cmds: Seq<DrawCommand>, pred: spec_fn(DrawCommand) -> bool) -> int
    decreases cmds.len(),
{
    if cmds.len() == 0 {
        0
    } else {
        count_matching(cmds.drop_first(), pred) + if pred(cmds[0]) {
            1int
        } else {
            0int
        }
    }
}

/// Which nesting scopes a command opens or closes: the editor block, a
/// node, the title bar, or an input, output or static attribute.
#[derive(Debug, Clone, Copy, PartialEq, Eq, Structural)]
pub enum ScopeKind {
    /// The editor block.
    Editor,
    /// A node.
    Node,
    /// The open node's title bar.
    TitleBarScope,
    /// An input attribute.
    InputScope,
    /// An output attribute.
    OutputScope,
    /// A static attribute.
    StaticScope,
}

/// Whether a command opens a scope of the given kind.
pub open spec fn opens(k: ScopeKind, c: DrawCommand) -> bool {
    match k {
        ScopeKind::Editor => c is BeginNodeEditor,
        ScopeKind::Node => c is BeginNode,
        ScopeKind::TitleBarScope => c is BeginNodeTitleBar,
        ScopeKind::InputScope => c is BeginInputAttribute,
        ScopeKind::OutputScope => c is BeginOutputAttribute,
        ScopeKind::StaticScope => c is BeginStaticAttribute,
    }
}

/// Whether a command closes a scope of the given kind.
pub open spec fn closes(k: ScopeKind, c: DrawCommand) -> bool {
    match k {
        ScopeKind::Editor => c is EndNodeEditor,
        ScopeKind::Node => c is EndNode,
        ScopeKind::TitleBarScope => c is EndNodeTitleBar,
        ScopeKind::InputScope => c is EndInputAttribute,
        ScopeKind::OutputScope => c is EndOutputAttribute,
        ScopeKind::StaticScope => c is EndStaticAttribute,
    }
}

/// How deep inside scopes of the given kind a nesting level stands.
pub open spec fn scope_depth(k: ScopeKind, s: Nesting) -> int {
    match k {
        ScopeKind::Editor => if s is Outside {
            0
        } else {
            1
        },
        ScopeKind::Node => match s {
            Nesting::Outside => 0,
            Nesting::Editing => 0,
            _ => 1,
        },
        ScopeKind::TitleBarScope => if s is TitleBar {
            1
        } else {
            0
        },
        ScopeKind::InputScope => if s is InputAttribute {
            1
        } else {
            0
        },
        ScopeKind::OutputScope => if s is OutputAttribute {
            1
        } else {
            0
        },
        ScopeKind::StaticScope => if s is StaticAttribute {
            1
        } else {
            0
        },
    }
}

/// How many commands of the sequence open a scope of the given kind.
pub open spec fn open_count(k: ScopeKind, cmds: Seq<DrawCommand>) -> int {
    count_matching(cmds, |c: DrawCommand| opens(k, c))
}

/// How many commands of the sequence close a scope of the given kind.
pub open spec fn close_count(k: ScopeKind, cmds: Seq<DrawCommand>) -> int {
    count_matching(cmds, |c: DrawCommand| closes(k, c))
}

/// Over any legal run, the surplus of openings over closings of each scope
/// kind is exactly the change in that kind's depth.
proof fn lemma_balance_invariant(k: ScopeKind, s: Nesting, cmds: Seq<DrawCommand>)
    requires
        protocol_run(s, cmds) is Some,
    ensures
        ({
            let s2 = protocol_run(s, cmds)->Some_0;
            count_matching(cmds, |c: DrawCommand| opens(k, c)) - count_matching(
                cmds,
                |c: DrawCommand| closes(k, c),
            ) == scope_depth(k, s2) - scope_depth(k, s)
        }),
    decreases cmds.len(),
{
    if cmds.len() > 0 {
        let s1 = protocol_step(s, cmds[0])->Some_0;
        lemma_balance_invariant(k, s1, cmds.drop_first());
    }
}

/// Law: in every complete frame, each of the six scope kinds — the editor
/// block, nodes, title bars, and input, output and static attributes — opens
/// exactly as often as it closes. Together with the protocol run accepting
/// the frame, every opening is closed before the scope enclosing it closes.
pub proof fn lemma_frame_balanced(cmds: Seq<DrawCommand>)
    requires
        frame_complete(cmds),
    ensures
        forall|k: ScopeKind| #[trigger] open_count(k, cmds) == close_count(k, cmds),
{
    assert forall|k: ScopeKind| #[trigger] open_count(k, cmds) == close_count(k, cmds) by {
        lemma_balance_invariant(k, Nesting::Outside, cmds);
    }
}

/// The scope outside the editor block: what one finished frame reports.
/// Holds the frame's draw commands — always a complete, legal frame — and
/// the user-interaction events the host handed in for the frame.
#[derive(Debug)]
pub struct OuterScope {
    cmds: Vec<DrawCommand>,
    events: FrameEvents,
}

impl OuterScope {
    /// The frame's draw commands, visible to specifications.
    pub closed spec fn spec_commands(self) -> Seq<DrawCommand> {
        self.cmds@
    }

    /// The frame's events, visible to specifications.
    pub closed spec fn spec_events(self) -> FrameEvents {
        self.events
    }

    #[verifier::type_invariant]
    spec fn wf(self) -> bool {
        frame_complete(self.cmds@)
    }

    /// The frame's draw commands, for the host to replay against the native
    /// editor: always a complete, legal frame.
    pub fn commands(&self) -> (r: &Vec<DrawCommand>)
        ensures
            r@ == self.spec_commands(),
            frame_complete(r@),
    {
        proof {
            use_type_invariant(self);
        }
        &self.cmds
    }

    /// The link the user finished creating this frame, if any.
    #[must_use]
    pub fn links_created(&self) -> (r: Option<Link>)
        ensures
            r == self.spec_events().created_link,
    {
        self.events.created_link
    }

    /// The link the user destroyed this frame, if any.
    #[must_use]
    pub fn get_destroyed_link(&self) -> (r: Option<LinkId>)
        ensures
            r == self.spec_events().destroyed_link,
    {
        self.events.destroyed_link
    }

    /// The node currently hovered, if any.
    #[must_use]
    pub fn get_hovered_node(&self) -> (r: Option<NodeId>)
        ensures
            r == self.spec_events().hovered_node,
    {
        self.events.hovered_node
    }

    /// The pin currently hovered, if any.
    #[must_use]
    pub fn get_hovered_pin(&self) -> (r: Option<PinId>)
        ensures
            r == self.spec_events().hovered_pin,
    {
        self.events.hovered_pin
    }

    /// The link currently hovered, if any.
    #[must_use]
    pub fn get_hovered_link(&self) -> (r: Option<LinkId>)
        ensures
            r == self.spec_events().hovered_link,
    {
        self.events.hovered_link
    }

    /// The attribute whose widget is being interacted with, if any.
    #[must_use]
    pub fn get_active_attribute(&self) -> (r: Option<AttributeId>)
        ensures
            r == self.spec_events().active_attribute,
    {
        self.events.active_attribute
    }

    /// The pin a new link drag started from this frame, if any.
    #[must_use]
    pub fn from_where_link_started(&self) -> (r: Option<PinId>)
        ensures
            r == self.spec_events().link_started_from,
    {
        self.events.link_started_from
    }

    /// The pin a dragged link was dropped from without connecting, if any;
    /// with `including_detached_links`, links detached from an existing
    /// connection count too.
    #[must_use]
    pub fn from_where_link_dropped(&self, including_detached_links: bool) -> (r: Option<PinId>)
        ensures
            r == (if including_detached_links {
                self.spec_events().link_dropped_from_including_detached
            } else {
                self.spec_events().link_dropped_from
            }),
    {
        if including_detached_links {
            self.events.link_dropped_from_including_detached
        } else {
            self.events.link_dropped_from
        }
    }

    /// Whether the user started dragging a new link from the given pin.
    #[must_use]
    pub fn link_started_at(&self, id: PinId) -> (r: bool)
        ensures
            r == (self.spec_events().link_started_from == Some(id)),
    {
        match self.events.link_started_from {
            Some(p) => p == id,
            None => false,
        }
    }

    /// Whether the user dropped a link dragged from the given pin without
    /// connecting it.
    #[must_use]
    pub fn link_dropped_from(&self, id: PinId, including_detached_links: bool) -> (r: bool)
        ensures
            r == (if including_detached_links {
                self.spec_events().link_dropped_from_including_detached == Some(id)
            } else {
                self.spec_events().link_dropped_from == Some(id)
            }),
    {
        let dropped = self.from_where_link_dropped(including_detached_links);
        match dropped {
            Some(p) => p == id,
            None => false,
        }
    }

    /// How many nodes are selected, saturated at the counter's width.
    #[must_use]
    pub fn num_selected_nodes(&self) -> (r: u32)
        ensures
            r as int == (if self.spec_events().selected_nodes@.len() > u32::MAX {
                u32::MAX as int
            } else {
                self.spec_events().selected_nodes@.len() as int
            }),
    {
        let n = self.events.selected_nodes.len();
        if n > u32::MAX as usize {
            u32::MAX
        } else {
            n as u32
        }
    }

    /// How many links are selected, saturated at the counter's width.
    #[must_use]
    pub fn num_selected_links(&self) -> (r: u32)
        ensures
            r as int == (if self.spec_events().selected_links@.len() > u32::MAX {
                u32::MAX as int
            } else {
                self.spec_events().selected_links@.len() as int
            }),
    {
        let n = self.events.selected_links.len();
        if n > u32::MAX as usize {
            u32::MAX
        } else {
            n as u32
        }
    }

    /// The identities of all currently selected nodes.
    #[must_use]
    pub fn selected_nodes(&self) -> (r: &Vec<NodeId>)
        ensures
            r@ == self.spec_events().selected_nodes@,
    {
        &self.events.selected_nodes
    }

    /// The identities of all currently selected links.
    #[must_use]
    pub fn selected_links(&self) -> (r: &Vec<LinkId>)
        ensures
            r@ == self.spec_events().selected_links@,
    {
        &self.events.selected_links
    }

    /// Whether the given element is hovered.
    #[must_use]
    pub fn is_hovered<H: crate::Hoverable>(&self, id: H) -> (r: bool)
        ensures
            r == id.spec_hovered(*self),
    {
        id.is_hovered_in(self)
    }
}

/// The scope inside the editor block: nodes, links and the minimap may be
/// added here. Every operation consumes the scope and hands it back, so the
/// block's commands stay legal by construction.
#[derive(Debug)]
pub struct EditorScope {
    cmds: Vec<DrawCommand>,
    editor_hovered: bool,
    active_attribute: Option<AttributeId>,
}

impl EditorScope {
    /// The commands of the frame so far, visible to specifications.
    pub closed spec fn spec_commands(self) -> Seq<DrawCommand> {
        self.cmds@
    }

    /// Whether the editor canvas is hovered this frame.
    pub closed spec fn spec_editor_hovered(self) -> bool {
        self.editor_hovered
    }

    /// The active attribute this frame, if any.
    pub closed spec fn spec_active_attribute(self) -> Option<AttributeId> {
        self.active_attribute
    }

    #[verifier::type_invariant]
    spec fn wf(self) -> bool {
        protocol_run(Nesting::Outside, self.cmds@) == Some(Nesting::Editing)
    }

    /// Adds a node with the given identity; the closure receives the node's
    /// scope and must hand it back, having added the node's content through
    /// it.
    pub fn add_node<F: FnOnce(NodeScope) -> NodeScope>(self, id: NodeId, f: F) -> (r: EditorScope)
        requires
            forall|ns: NodeScope| #[trigger] call_requires(f, (ns,)),
        ensures
            exists|ns_in: NodeScope, ns_out: NodeScope|
                {
                    &&& ns_in.spec_commands() == self.spec_commands().push(
                        DrawCommand::BeginNode(id.raw() as i32),
                    )
                    &&& #[trigger] call_ensures(f, (ns_in,), ns_out)
                    &&& r.spec_commands() == ns_out.spec_commands().push(DrawCommand::EndNode)
                },
            r.spec_editor_hovered() == self.spec_editor_hovered(),
            r.spec_active_attribute() == self.spec_active_attribute(),
    {
        proof {
            use_type_invariant(&self);
        }
        let EditorScope { cmds: mut cmds, editor_hovered, active_attribute } = self;
        let raw = id.into_raw();
        cmds.push(DrawCommand::BeginNode(raw));
        proof {
            lemma_protocol_run_snoc(
                Nesting::Outside,
                cmds@.drop_last(),
                DrawCommand::BeginNode(raw),
            );
            assert(cmds@.drop_last() =~= self.spec_commands());
        }
        let node_scope = NodeScope { cmds };
        let ghost ns_in = node_scope;
        let node_scope_out = f(node_scope);
        proof {
            use_type_invariant(&node_scope_out);
        }
        let NodeScope { cmds: mut cmds2 } = node_scope_out;
        cmds2.push(DrawCommand::EndNode);
        proof {
            lemma_protocol_run_snoc(Nesting::Outside, cmds2@.drop_last(), DrawCommand::EndNode);
            assert(cmds2@.drop_last() =~= node_scope_out.spec_commands());
        }
        let r = EditorScope { cmds: cmds2, editor_hovered, active_attribute };
        proof {
            assert(call_ensures(f, (ns_in,), node_scope_out));
        }
        r
    }

    /// Draws a link between an output pin and an input pin.
    pub fn add_link(self, id: LinkId, input_pin_id: InputPinId, output_pin_id: OutputPinId) -> (r:
        EditorScope)
        ensures
            r.spec_commands() == self.spec_commands().push(
                DrawCommand::Link(
                    id.raw() as i32,
                    output_pin_id.raw() as i32,
                    input_pin_id.raw() as i32,
                ),
            ),
            r.spec_editor_hovered() == self.spec_editor_hovered(),
            r.spec_active_attribute() == self.spec_active_attribute(),
    {
        proof {
            use_type_invariant(&self);
        }
        let EditorScope { cmds: mut cmds, editor_hovered, active_attribute } = self;
        let cmd = DrawCommand::Link(id.into_raw(), output_pin_id.into_raw(), input_pin_id.into_raw());
        cmds.push(cmd);
        proof {
            lemma_protocol_run_snoc(Nesting::Outside, cmds@.drop_last(), cmd);
            assert(cmds@.drop_last() =~= self.spec_commands());
        }
        EditorScope { cmds, editor_hovered, active_attribute }
    }

    /// Draws the minimap overlay in the given corner.
    pub fn add_mini_map(self, location: MiniMapLocation) -> (r: EditorScope)
        ensures
            r.spec_commands() == self.spec_commands().push(DrawCommand::MiniMap(location)),
            r.spec_editor_hovered() == self.spec_editor_hovered(),
            r.spec_active_attribute() == self.spec_active_attribute(),
    {
        proof {
            use_type_invariant(&self);
        }
        let EditorScope { cmds: mut cmds, editor_hovered, active_attribute } = self;
        cmds.push(DrawCommand::MiniMap(location));
        proof {
            lemma_protocol_run_snoc(
                Nesting::Outside,
                cmds@.drop_last(),
                DrawCommand::MiniMap(location),
            );
            assert(cmds@.drop_last() =~= self.spec_commands());
        }
        EditorScope { cmds, editor_hovered, active_attribute }
    }

    /// Whether the editor canvas itself is hovered.
    #[must_use]
    pub fn is_hovered(&self) -> (r: bool)
        ensures
            r == self.spec_editor_hovered(),
    {
        self.editor_hovered
    }

    /// The attribute whose widget is being interacted with, if any.
    #[must_use]
    pub fn get_active_attribute(&self) -> (r: Option<AttributeId>)
        ensures
            r == self.spec_active_attribute(),
    {
        self.active_attribute
    }
}

/// The scope inside one node: its title bar, pins and static attributes may
/// be added here, and nothing that belongs to the editor level.
#[derive(Debug)]
pub struct NodeScope {
    cmds: Vec<DrawCommand>,
}

impl NodeScope {
    /// The commands of the frame so far, visible to specifications.
    pub closed spec fn spec_commands(self) -> Seq<DrawCommand> {
        self.cmds@
    }

    #[verifier::type_invariant]
    spec fn wf(self) -> bool {
        protocol_run(Nesting::Outside, self.cmds@) == Some(Nesting::NodeEditing)
    }

    /// Adds the node's title bar. The host draws the title's content between
    /// the two commands this emits.
    pub fn add_titlebar(self) -> (r: NodeScope)
        ensures
            r.spec_commands() == self.spec_commands().push(DrawCommand::BeginNodeTitleBar).push(
                DrawCommand::EndNodeTitleBar,
            ),
    {
        self.push_pair(DrawCommand::BeginNodeTitleBar, DrawCommand::EndNodeTitleBar)
    }

    /// Adds an input pin with the given shape. The host draws the
    /// attribute's content between the two commands this emits.
    pub fn add_input(self, id: InputPinId, shape: PinShape) -> (r: NodeScope)
        ensures
            r.spec_commands() == self.spec_commands().push(
                DrawCommand::BeginInputAttribute(
                    id.raw() as i32,
                    crate::styling::pin_shape_index(shape) as i32,
                ),
            ).push(DrawCommand::EndInputAttribute),
    {
        let begin = DrawCommand::BeginInputAttribute(id.into_raw(), shape.index());
        self.push_pair(begin, DrawCommand::EndInputAttribute)
    }

    /// Adds an output pin with the given shape. The host draws the
    /// attribute's content between the two commands this emits.
    pub fn add_output(self, id: OutputPinId, shape: PinShape) -> (r: NodeScope)
        ensures
            r.spec_commands() == self.spec_commands().push(
                DrawCommand::BeginOutputAttribute(
                    id.raw() as i32,
                    crate::styling::pin_shape_index(shape) as i32,
                ),
            ).push(DrawCommand::EndOutputAttribute),
    {
        let begin = DrawCommand::BeginOutputAttribute(id.into_raw(), shape.index());
        self.push_pair(begin, DrawCommand::EndOutputAttribute)
    }

    /// Adds a static attribute, which cannot be linked. The host draws the
    /// attribute's content between the two commands this emits.
    pub fn add_static_attribute(self, id: AttributeId) -> (r: NodeScope)
        ensures
            r.spec_commands() == self.spec_commands().push(
                DrawCommand::BeginStaticAttribute(id.raw() as i32),
            ).push(DrawCommand::EndStaticAttribute),
    {
        let begin = DrawCommand::BeginStaticAttribute(id.into_raw());
        self.push_pair(begin, DrawCommand::EndStaticAttribute)
    }

    /// Emits one begin/end pair that opens an inner scope of the node and
    /// closes it again.
    fn push_pair(self, begin: DrawCommand, end: DrawCommand) -> (r: NodeScope)
        requires
            protocol_step(Nesting::NodeEditing, begin) is Some,
            protocol_step(protocol_step(Nesting::NodeEditing, begin)->Some_0, end) == Some(
                Nesting::NodeEditing,
            ),
        ensures
            r.spec_commands() == self.spec_commands().push(begin).push(end),
    {
        proof {
            use_type_invariant(&self);
        }
        let NodeScope { cmds: mut cmds } = self;
        cmds.push(begin);
        proof {
            lemma_protocol_run_snoc(Nesting::Outside, cmds@.drop_last(), begin);
            assert(cmds@.drop_last() =~= self.spec_commands());
        }
        cmds.push(end);
        proof {
            lemma_protocol_run_snoc(Nesting::Outside, cmds@.drop_last(), end);
            assert(cmds@.drop_last() =~= self.spec_commands().push(begin));
        }
        NodeScope { cmds }
    }
}

/// Builds one frame of the node editor: opens the editor block, lets the
/// closure add the frame's content through the editor scope, closes the
/// block, and reports the frame's commands and events. The commands of every
/// frame built this way are a complete, legal protocol run, however the
/// closure behaves.
pub fn editor<F: FnOnce(EditorScope) -> EditorScope>(context: &mut EditorContext, f: F) -> (r:
    OuterScope)
    requires
        forall|es: EditorScope| #[trigger] call_requires(f, (es,)),
    ensures
        frame_complete(r.spec_commands()),
        r.spec_events() == old(context).spec_events(),
        crate::context::events_empty(final(context).spec_events()),
        final(context).spec_color_stack() == old(context).spec_color_stack(),
        final(context).spec_style_var_stack() == old(context).spec_style_var_stack(),
        final(context).spec_attribute_flag_stack() == old(context).spec_attribute_flag_stack(),
        final(context).spec_panning() == old(context).spec_panning(),
        exists|es_in: EditorScope, es_out: EditorScope|
            {
                &&& es_in.spec_commands() == seq![DrawCommand::BeginNodeEditor]
                &&& es_in.spec_editor_hovered() == old(context).spec_events().editor_hovered
                &&& es_in.spec_active_attribute() == old(context).spec_events().active_attribute
                &&& #[trigger] call_ensures(f, (es_in,), es_out)
                &&& r.spec_commands() == es_out.spec_commands().push(DrawCommand::EndNodeEditor)
            },
{
    let events = context.take_frame_events();
    let mut cmds: Vec<DrawCommand> = Vec::new();
    cmds.push(DrawCommand::BeginNodeEditor);
    proof {
        assert(cmds@ =~= seq![DrawCommand::BeginNodeEditor]);
        assert(cmds@.drop_first() =~= Seq::<DrawCommand>::empty());
        assert(protocol_run(Nesting::Editing, cmds@.drop_first()) == Some(Nesting::Editing));
        assert(protocol_run(Nesting::Outside, cmds@) == Some(Nesting::Editing));
    }
    let scope = EditorScope {
        cmds,
        editor_hovered: events.editor_hovered,
        active_attribute: events.active_attribute,
    };
    let ghost es_in = scope;
    let scope_out = f(scope);
    proof {
        use_type_invariant(&scope_out);
    }
    let EditorScope { cmds: mut cmds2, .. } = scope_out;
    cmds2.push(DrawCommand::EndNodeEditor);
    proof {
        lemma_protocol_run_snoc(Nesting::Outside, cmds2@.drop_last(), DrawCommand::EndNodeEditor);
        assert(cmds2@.drop_last() =~= scope_out.spec_commands());
        assert(call_ensures(f, (es_in,), scope_out));
    }
    OuterScope { cmds: cmds2, events }
}

} // verus!
