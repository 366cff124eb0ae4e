//! The save/load editor's application state: plain nodes with one input and
//! one output pin, links between them, the current selection, and the
//! decisions taken on the user's actions — adding and removing nodes,
//! recording created links without duplicates, and dropping destroyed ones.

use vstd::prelude::*;

use crate::context::{CanvasVec2, Context, EditorContext};
use crate::{IdentifierGenerator, InputPinId, Link, LinkId, NodeId, OutputPinId};

verus! {

/// A node of the save/load editor: one input pin and one output pin.
#[derive(Debug, Clone, Copy, PartialEq, Eq, Structural)]
pub struct AppNode {
    /// The node's identity.
    pub id: NodeId,
    /// Its input pin.
    pub input: InputPinId,
    /// Its output pin.
    pub output: OutputPinId,
    /// Where the node sits on the canvas.
    pub pos: CanvasVec2,
}

/// A link of the save/load editor.
#[derive(Debug, Clone, Copy, PartialEq, Eq, Structural)]
pub struct AppLink {
    /// The link's identity.
    pub id: LinkId,
    /// The output pin where the link starts.
    pub start_pin: OutputPinId,
    /// The input pin where the link ends.
    pub end_pin: InputPinId,
}

/// What the last user action amounted to.
#[derive(Debug, Clone, Copy, PartialEq, Eq, Structural)]
pub enum Status {
    /// Nothing has happened yet.
    Ready,
    /// A node was added.
    AddedNode(NodeId),
    /// This many nodes were removed.
    RemovedNodes(usize),
    /// Removal was requested with nothing selected.
    NoNodesSelected,
    /// A link was created between these pins.
    CreatedLink(OutputPinId, InputPinId),
    /// This link was removed.
    RemovedLink(LinkId),
}

/// The save/load editor's whole application state.
#[derive(Debug)]
pub struct SaveLoadState {
    /// The editor context of this workspace.
    pub editor_context: EditorContext,
    id_gen: IdentifierGenerator,
    nodes: Vec<AppNode>,
    links: Vec<AppLink>,
    status: Status,
    last_selected_nodes: Vec<NodeId>,
    last_selected_links: Vec<LinkId>,
}

/// Whether a link touches a pin of a node from the given selection.
pub open spec fn link_dead(ns: Seq<AppNode>, sel: Seq<NodeId>, l: AppLink) -> bool {
    exists|m: int|
        0 <= m < ns.len() && sel.contains((#[trigger] ns[m]).id) && (ns[m].input == l.end_pin
            || ns[m].output == l.start_pin)
}

/// The nodes that survive removing the given selection.
pub open spec fn kept_nodes_of(ns: Seq<AppNode>, sel: Seq<NodeId>) -> Seq<AppNode> {
    ns.filter(|n: AppNode| !sel.contains(n.id))
}

/// The links that survive removing the given selection of nodes.
pub open spec fn kept_links_of(ns: Seq<AppNode>, sel: Seq<NodeId>, ls: Seq<AppLink>) -> Seq<
    AppLink,
> {
    ls.filter(|l: AppLink| !link_dead(ns, sel, l))
}

/// The links that survive removing the one with the given identity.
pub open spec fn links_without(ls: Seq<AppLink>, id: LinkId) -> Seq<AppLink> {
    ls.filter(|l: AppLink| l.id != id)
}

/// Whether a list of links already holds one between the given pins.
pub open spec fn has_link_between(
    links: Seq<AppLink>,
    start: OutputPinId,
    end: InputPinId,
) -> bool {
    exists|k: int| 0 <= k < links.len() && (#[trigger] links[k]).start_pin == start && links[k].end_pin == end
}

impl SaveLoadState {
    /// The nodes, visible to specifications.
    pub closed spec fn spec_nodes(self) -> Seq<AppNode> {
        self.nodes@
    }

    /// The links, visible to specifications.
    pub closed spec fn spec_links(self) -> Seq<AppLink> {
        self.links@
    }

    /// The last reported action, visible to specifications.
    pub closed spec fn spec_status(self) -> Status {
        self.status
    }

    /// The selection remembered from the last frame.
    pub closed spec fn spec_selected_nodes(self) -> Seq<NodeId> {
        self.last_selected_nodes@
    }

    /// The link selection remembered from the last frame.
    pub closed spec fn spec_selected_links(self) -> Seq<LinkId> {
        self.last_selected_links@
    }

    /// The editor context, visible to specifications.
    pub closed spec fn spec_context(self) -> EditorContext {
        self.editor_context
    }

    /// The identifier generator's counters, visible to specifications.
    pub closed spec fn spec_counters(self) -> (int, int, int) {
        (self.id_gen.node_counter(), self.id_gen.pin_counter(), self.id_gen.link_counter())
    }

    /// A fresh save/load editor: no nodes, no links, nothing selected.
    pub fn new(context: &Context) -> (r: Self)
        ensures
            r.spec_nodes() =~= Seq::<AppNode>::empty(),
            r.spec_links() =~= Seq::<AppLink>::empty(),
            r.spec_status() == Status::Ready,
            r.spec_selected_nodes() =~= Seq::<NodeId>::empty(),
            r.spec_selected_links() =~= Seq::<LinkId>::empty(),
            r.spec_counters() == (0int, 0int, 0int),
    {
        let editor_context = context.create_editor();
        let id_gen = editor_context.new_identifier_generator();
        SaveLoadState {
            editor_context,
            id_gen,
            nodes: Vec::new(),
            links: Vec::new(),
            status: Status::Ready,
            last_selected_nodes: Vec::new(),
            last_selected_links: Vec::new(),
        }
    }

    /// Adds a node: at the given position, or near the visible corner of the
    /// canvas, offset from the current panning. The node draws one node
    /// identifier and two pin identifiers.
    pub fn add_node(&mut self, position: Option<CanvasVec2>)
        requires
            old(self).spec_counters().0 < i32::MAX,
            old(self).spec_counters().1 + 2 <= i32::MAX,
        ensures
            ({
                let added = final(self).spec_nodes().last();
                &&& final(self).spec_nodes() == old(self).spec_nodes().push(added)
                &&& added.id.raw() == old(self).spec_counters().0
                &&& added.input.raw() == old(self).spec_counters().1
                &&& added.output.raw() == old(self).spec_counters().1 + 1
                &&& added.pos == (match position {
                    Some(p) => p,
                    None => (CanvasVec2 {
                        x: crate::value::clamp_bits(
                            old(self).spec_context().spec_panning().x + 100,
                        ) as i32,
                        y: crate::value::clamp_bits(
                            old(self).spec_context().spec_panning().y + 100,
                        ) as i32,
                    }),
                })
                &&& final(self).spec_status() == Status::AddedNode(added.id)
                &&& final(self).spec_links() == old(self).spec_links()
                &&& final(self).spec_counters() == (
                    old(self).spec_counters().0 + 1,
                    old(self).spec_counters().1 + 2,
                    old(self).spec_counters().2,
                )
            }),
    {
        let node_id = self.id_gen.next_node();
        let input = self.id_gen.next_input_pin();
        let output = self.id_gen.next_output_pin();
        let pos: CanvasVec2;
        match position {
            Some(p) => {
                pos = p;
            }
            None => {
                let pan = self.editor_context.get_panning();
                let x: i64 = pan.x as i64 + 100;
                let y: i64 = pan.y as i64 + 100;
                pos = CanvasVec2 { x: clamp_coord(x), y: clamp_coord(y) };
            }
        }
        let new_node = AppNode { id: node_id, input, output, pos };
        self.nodes.push(new_node);
        self.status = Status::AddedNode(node_id);
    }

    /// Remembers the selection the last frame reported.
    pub fn set_selection(&mut self, nodes: Vec<NodeId>, links: Vec<LinkId>)
        ensures
            final(self).spec_selected_nodes() == nodes@,
            final(self).spec_selected_links() == links@,
            final(self).spec_nodes() == old(self).spec_nodes(),
            final(self).spec_links() == old(self).spec_links(),
            final(self).spec_status() == old(self).spec_status(),
            final(self).spec_counters() == old(self).spec_counters(),
    {
        self.last_selected_nodes = nodes;
        self.last_selected_links = links;
    }

    /// Removes every selected node together with the links touching its
    /// pins, and clears the node selection; with nothing selected, only the
    /// status changes.
    pub fn remove_selected_nodes(&mut self)
        ensures
            ({
                let sel = old(self).spec_selected_nodes();
                if sel.len() == 0 {
                    &&& final(self).spec_nodes() == old(self).spec_nodes()
                    &&& final(self).spec_links() == old(self).spec_links()
                    &&& final(self).spec_status() == Status::NoNodesSelected
                    &&& final(self).spec_selected_nodes() == sel
                } else {
                    let kept = kept_nodes_of(old(self).spec_nodes(), sel);
                    &&& final(self).spec_nodes() == kept
                    &&& final(self).spec_links() == kept_links_of(
                        old(self).spec_nodes(),
                        sel,
                        old(self).spec_links(),
                    )
                    &&& final(self).spec_status() == Status::RemovedNodes(
                        (old(self).spec_nodes().len() - kept.len()) as usize,
                    )
                    &&& final(self).spec_selected_nodes() =~= Seq::<NodeId>::empty()
                }
            }),
            final(self).spec_selected_links() == old(self).spec_selected_links(),
            final(self).spec_counters() == old(self).spec_counters(),
    {
        if self.last_selected_nodes.len() == 0 {
            self.status = Status::NoNodesSelected;
            return;
        }
        let ghost sel = self.last_selected_nodes@;
        let ghost ns0 = self.nodes@;
        let ghost ls0 = self.links@;
        let n = self.nodes.len();
        let mut kept_nodes: Vec<AppNode> = Vec::new();
        let mut k: usize = 0;
        while k < n
            invariant
                k <= n,
                n == ns0.len(),
                self.nodes@ == ns0,
                sel == self.last_selected_nodes@,
                kept_nodes@ == kept_nodes_of(ns0.take(k as int), sel),
                kept_nodes@.len() <= k,
            decreases n - k,
        {
            let node = self.nodes[k];
            proof {
                assert(ns0.take(k + 1).drop_last() =~= ns0.take(k as int));
                assert(ns0.take(k + 1).last() == ns0[k as int]);
                reveal_with_fuel(Seq::filter, 2);
            }
            if !id_list_contains(&self.last_selected_nodes, node.id) {
                kept_nodes.push(node);
            }
            k = k + 1;
        }
        proof {
            assert(ns0.take(n as int) =~= ns0);
        }
        let nl = self.links.len();
        let mut kept_links: Vec<AppLink> = Vec::new();
        let mut j: usize = 0;
        while j < nl
            invariant
                j <= nl,
                nl == ls0.len(),
                self.links@ == ls0,
                self.nodes@ == ns0,
                sel == self.last_selected_nodes@,
                kept_links@ == kept_links_of(ns0, sel, ls0.take(j as int)),
            decreases nl - j,
        {
            let link = self.links[j];
            proof {
                assert(ls0.take(j + 1).drop_last() =~= ls0.take(j as int));
                assert(ls0.take(j + 1).last() == ls0[j as int]);
                reveal_with_fuel(Seq::filter, 2);
            }
            let touches = self.link_touches_selected(link);
            if !touches {
                kept_links.push(link);
            }
            j = j + 1;
        }
        proof {
            assert(ls0.take(nl as int) =~= ls0);
        }
        let removed = n - kept_nodes.len();
        self.nodes = kept_nodes;
        self.links = kept_links;
        self.status = Status::RemovedNodes(removed);
        self.last_selected_nodes = Vec::new();
    }

    /// Whether the given link touches a pin of some selected node.
    fn link_touches_selected(&self, link: AppLink) -> (r: bool)
        ensures
            r == link_dead(self.spec_nodes(), self.spec_selected_nodes(), link),
    {
        let n = self.nodes.len();
        let mut m: usize = 0;
        while m < n
            invariant
                m <= n,
                n == self.spec_nodes().len(),
                forall|q: int|
                    0 <= q < m ==> !(self.spec_selected_nodes().contains(
                        (#[trigger] self.spec_nodes()[q]).id,
                    ) && (self.spec_nodes()[q].input == link.end_pin || self.spec_nodes()[q].output
                        == link.start_pin)),
            decreases n - m,
        {
            let node = self.nodes[m];
            if id_list_contains(&self.last_selected_nodes, node.id) && (node.input == link.end_pin
                || node.output == link.start_pin) {
                return true;
            }
            m = m + 1;
        }
        false
    }

    /// Records a link the user created, unless one between the same pins is
    /// already there; a recorded link draws a fresh link identifier.
    pub fn handle_created_link(&mut self, link: Link)
        requires
            old(self).spec_counters().2 < i32::MAX,
        ensures
            (if has_link_between(old(self).spec_links(), link.start_pin, link.end_pin) {
                &&& final(self).spec_links() == old(self).spec_links()
                &&& final(self).spec_status() == old(self).spec_status()
                &&& final(self).spec_counters() == old(self).spec_counters()
            } else {
                let added = final(self).spec_links().last();
                &&& final(self).spec_links() == old(self).spec_links().push(added)
                &&& added.id.raw() == old(self).spec_counters().2
                &&& added.start_pin == link.start_pin
                &&& added.end_pin == link.end_pin
                &&& final(self).spec_status() == Status::CreatedLink(link.start_pin, link.end_pin)
                &&& final(self).spec_counters() == (
                    old(self).spec_counters().0,
                    old(self).spec_counters().1,
                    old(self).spec_counters().2 + 1,
                )
            }),
            final(self).spec_nodes() == old(self).spec_nodes(),
            final(self).spec_selected_nodes() == old(self).spec_selected_nodes(),
            final(self).spec_selected_links() == old(self).spec_selected_links(),
    {
        let n = self.links.len();
        let mut k: usize = 0;
        while k < n
            invariant
                k <= n,
                n == self.spec_links().len(),
                forall|q: int|
                    0 <= q < k ==> !((#[trigger] self.spec_links()[q]).start_pin == link.start_pin
                        && self.spec_links()[q].end_pin == link.end_pin),
            decreases n - k,
        {
            let existing = self.links[k];
            if existing.start_pin == link.start_pin && existing.end_pin == link.end_pin {
                return;
            }
            k = k + 1;
        }
        let id = self.id_gen.next_link();
        self.links.push(AppLink { id, start_pin: link.start_pin, end_pin: link.end_pin });
        self.status = Status::CreatedLink(link.start_pin, link.end_pin);
    }

    /// Drops the link the user destroyed; the status reports the removal
    /// only where the link was actually recorded.
    pub fn handle_destroyed_link(&mut self, destroyed: LinkId)
        ensures
            final(self).spec_links() == links_without(old(self).spec_links(), destroyed),
            final(self).spec_status() == (if final(self).spec_links().len() < old(
                self,
            ).spec_links().len() {
                Status::RemovedLink(destroyed)
            } else {
                old(self).spec_status()
            }),
            final(self).spec_nodes() == old(self).spec_nodes(),
            final(self).spec_counters() == old(self).spec_counters(),
            final(self).spec_selected_nodes() == old(self).spec_selected_nodes(),
            final(self).spec_selected_links() == old(self).spec_selected_links(),
    {
        let ghost ls0 = self.links@;
        let n = self.links.len();
        let mut kept: Vec<AppLink> = Vec::new();
        let mut k: usize = 0;
        while k < n
            invariant
                k <= n,
                n == ls0.len(),
                self.links@ == ls0,
                kept@ == links_without(ls0.take(k as int), destroyed),
            decreases n - k,
        {
            let link = self.links[k];
            proof {
                assert(ls0.take(k + 1).drop_last() =~= ls0.take(k as int));
                assert(ls0.take(k + 1).last() == ls0[k as int]);
                reveal_with_fuel(Seq::filter, 2);
            }
            if link.id != destroyed {
                kept.push(link);
            }
            k = k + 1;
        }
        proof {
            assert(ls0.take(n as int) =~= ls0);
        }
        let shrunk = kept.len() < n;
        self.links = kept;
        if shrunk {
            self.status = Status::RemovedLink(destroyed);
        }
    }

    /// The nodes, for drawing the frame.
    pub fn nodes(&self) -> (r: &Vec<AppNode>)
        ensures
            r@ == self.spec_nodes(),
    {
        &self.nodes
    }

    /// The links, for drawing the frame.
    pub fn links(&self) -> (r: &Vec<AppLink>)
        ensures
            r@ == self.spec_links(),
    {
        &self.links
    }

    /// The last reported action.
    pub fn status(&self) -> (r: Status)
        ensures
            r == self.spec_status(),
    {
        self.status
    }
}

/// Whether the list holds the given node identifier.
fn id_list_contains(ids: &Vec<NodeId>, id: NodeId) -> (r: bool)
    ensures
        r == ids@.contains(id),
{
    let n = ids.len();
    let mut k: usize = 0;
    while k < n
        invariant
            k <= n,
            n == ids@.len(),
            forall|q: int| 0 <= q < k ==> ids@[q] != id,
        decreases n - k,
    {
        if ids[k] == id {
            return true;
        }
        k = k + 1;
    }
    false
}

/// Saturation of a widened coordinate back to the canvas range.
fn clamp_coord(x: i64) -> (r: i32)
    ensures
        r as int == crate::value::clamp_bits(x as int),
{
    if x > i32::MAX as i64 {
        i32::MAX
    } else if x < i32::MIN as i64 {
        i32::MIN
    } else {
        x as i32
    }
}

} // verus!
