//! The multi-editor example's application state: several independent editor
//! workspaces can hold nodes of one simple kind — one input pin, one output
//! pin, one slider attribute — connected by links.

use vstd::prelude::*;

use crate::context::{Context, EditorContext};
use crate::value::Value;
use crate::{AttributeId, IdentifierGenerator, InputPinId, LinkId, NodeId, OutputPinId};

verus! {

/// A node of the multi-editor: one input, one output, one slider.
#[derive(Debug, Clone, Copy, PartialEq, Eq, Structural)]
pub struct EditNode {
    /// The node's identity.
    pub id: NodeId,
    /// Its input pin.
    pub input: InputPinId,
    /// Its output pin.
    pub output: OutputPinId,
    /// Its slider attribute.
    pub attribute: AttributeId,
    /// The slider's value.
    pub value: Value,
}

/// A link of the multi-editor.
#[derive(Debug, Clone, Copy, PartialEq, Eq, Structural)]
pub struct EditLink {
    /// The link's identity.
    pub id: LinkId,
    /// The output pin where the link starts.
    pub start: OutputPinId,
    /// The input pin where the link ends.
    pub end: InputPinId,
}

/// The links that survive removing the one with the given identity.
pub open spec fn edit_links_without(ls: Seq<EditLink>, id: LinkId) -> Seq<EditLink> {
    ls.filter(|l: EditLink| l.id != id)
}

/// One editor workspace of the multi-editor.
#[derive(Debug)]
pub struct MultiEditState {
    /// The editor context of this workspace.
    pub editor_context: EditorContext,
    id_gen: IdentifierGenerator,
    nodes: Vec<EditNode>,
    links: Vec<EditLink>,
}

impl MultiEditState {
    /// The nodes, visible to specifications.
    pub closed spec fn spec_nodes(self) -> Seq<EditNode> {
        self.nodes@
    }

    /// The links, visible to specifications.
    pub closed spec fn spec_links(self) -> Seq<EditLink> {
        self.links@
    }

    /// The identifier generator's counters, visible to specifications.
    pub closed spec fn spec_counters(self) -> (int, int, int) {
        (self.id_gen.node_counter(), self.id_gen.pin_counter(), self.id_gen.link_counter())
    }

    /// A fresh workspace: no nodes and no links.
    pub fn new(context: &Context) -> (r: Self)
        ensures
            r.spec_nodes() =~= Seq::<EditNode>::empty(),
            r.spec_links() =~= Seq::<EditLink>::empty(),
            r.spec_counters() == (0int, 0int, 0int),
    {
        let editor_context = context.create_editor();
        let id_gen = editor_context.new_identifier_generator();
        MultiEditState { editor_context, id_gen, nodes: Vec::new(), links: Vec::new() }
    }

    /// Adds a node with value 0.0; it draws one node identifier and three
    /// pin/attribute identifiers.
    pub fn add_node(&mut self)
        requires
            old(self).spec_counters().0 < i32::MAX,
            old(self).spec_counters().1 + 3 <= i32::MAX,
        ensures
            ({
                let added = final(self).spec_nodes().last();
                &&& final(self).spec_nodes() == old(self).spec_nodes().push(added)
                &&& added.id.raw() == old(self).spec_counters().0
                &&& added.input.raw() == old(self).spec_counters().1
                &&& added.output.raw() == old(self).spec_counters().1 + 1
                &&& added.attribute.raw() == old(self).spec_counters().1 + 2
                &&& added.value@ == 0
                &&& final(self).spec_links() == old(self).spec_links()
                &&& final(self).spec_counters() == (
                    old(self).spec_counters().0 + 1,
                    old(self).spec_counters().1 + 3,
                    old(self).spec_counters().2,
                )
            }),
    {
        let id = self.id_gen.next_node();
        let input = self.id_gen.next_input_pin();
        let output = self.id_gen.next_output_pin();
        let attribute = self.id_gen.next_attribute();
        self.nodes.push(EditNode { id, input, output, attribute, value: Value::zero() });
    }

    /// Sets the slider value of the node at the given position.
    pub fn set_value(&mut self, index: usize, value: Value)
        requires
            index < old(self).spec_nodes().len(),
        ensures
            final(self).spec_nodes() == old(self).spec_nodes().update(
                index as int,
                (EditNode { value, ..old(self).spec_nodes()[index as int] }),
            ),
            final(self).spec_links() == old(self).spec_links(),
            final(self).spec_counters() == old(self).spec_counters(),
    {
        let node = self.nodes[index];
        self.nodes[index] = EditNode { value, ..node };
    }

    /// Records a link the user created; it draws a fresh link identifier.
    pub fn handle_created_link(&mut self, start: OutputPinId, end: InputPinId)
        requires
            old(self).spec_counters().2 < i32::MAX,
        ensures
            ({
                let added = final(self).spec_links().last();
                &&& final(self).spec_links() == old(self).spec_links().push(added)
                &&& added.id.raw() == old(self).spec_counters().2
                &&& added.start == start
                &&& added.end == end
                &&& final(self).spec_nodes() == old(self).spec_nodes()
                &&& final(self).spec_counters() == (
                    old(self).spec_counters().0,
                    old(self).spec_counters().1,
                    old(self).spec_counters().2 + 1,
                )
            }),
    {
        let id = self.id_gen.next_link();
        self.links.push(EditLink { id, start, end });
    }

    /// Drops the link the user destroyed.
    pub fn handle_destroyed_link(&mut self, destroyed: LinkId)
        ensures
            final(self).spec_links() == edit_links_without(old(self).spec_links(), destroyed),
            final(self).spec_nodes() == old(self).spec_nodes(),
            final(self).spec_counters() == old(self).spec_counters(),
    {
        let ghost ls0 = self.links@;
        let n = self.links.len();
        let mut kept: Vec<EditLink> = Vec::new();
        let mut k: usize = 0;
        while k < n
            invariant
                k <= n,
                n == ls0.len(),
                self.links@ == ls0,
                kept@ == edit_links_without(ls0.take(k as int), destroyed),
            decreases n - k,
        {
            let link = self.links[k];
            proof {
                assert(ls0.take(k + 1).drop_last() =~= ls0.take(k as int));
                assert(ls0.take(k + 1).last() == ls0[k as int]);
                reveal_with_fuel(Seq::filter, 2);
            }
            if link.id != destroyed {
                kept.push(link);
            }
            k = k + 1;
        }
        proof {
            assert(ls0.take(n as int) =~= ls0);
        }
        self.links = kept;
    }

    /// The nodes, for drawing the frame.
    pub fn nodes(&self) -> (r: &Vec<EditNode>)
        ensures
            r@ == self.spec_nodes(),
    {
        &self.nodes
    }

    /// The links, for drawing the frame.
    pub fn links(&self) -> (r: &Vec<EditLink>)
        ensures
            r@ == self.spec_links(),
    {
        &self.links
    }
}

} // verus!
