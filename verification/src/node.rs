//! Accessibility nodes, built with accesskit.
//!
//! A node is a bag of properties. The four that the dialogs set have a name each; the
//! functions here say what they do to all four.

use vstd::prelude::*;

verus! {

/// The accesskit node, carried through unopened.
#[verifier::external_type_specification]
#[verifier::external_body]
pub struct ExNode(accesskit::Node);

/// The roles of the shell's nodes: that of its dialogs, and that of a node that says nothing of
/// itself.
#[derive(Clone, Copy, Debug, PartialEq, Eq, Structural)]
pub enum NodeRole {
    Unknown,
    AlertDialog,
}

/// What `accesskit::Node::role` reads from a node.
pub uninterp spec fn node_role(node: accesskit::Node) -> NodeRole;

/// What `accesskit::Node::label` reads from a node.
pub uninterp spec fn node_label(node: accesskit::Node) -> Option<Seq<char>>;

/// What `accesskit::Node::description` reads from a node.
pub uninterp spec fn node_description(node: accesskit::Node) -> Option<Seq<char>>;

/// What `accesskit::Node::is_modal` reads from a node.
pub uninterp spec fn node_modal(node: accesskit::Node) -> bool;

/// `accesskit::Node::new`: a node of this role, with no label, no description and the
/// modal flag clear.
#[verifier::external_body]
pub(crate) fn new_node(role: NodeRole) -> (node: accesskit::Node)
    ensures
        node_role(node) == role,
        node_label(node) is None,
        node_description(node) is None,
        !node_modal(node),
{
    accesskit::Node::new(
        match role {
            NodeRole::Unknown => accesskit::Role::Unknown,
            NodeRole::AlertDialog => accesskit::Role::AlertDialog,
        },
    )
}

/// `accesskit::Node::set_label`: the label becomes this text, the rest stays.
#[verifier::external_body]
pub(crate) fn set_label(node: &mut accesskit::Node, label: &str)
    ensures
        node_label(*final(node)) == Some(label@),
        node_role(*final(node)) == node_role(*old(node)),
        node_description(*final(node)) == node_description(*old(node)),
        node_modal(*final(node)) == node_modal(*old(node)),
{
    node.set_label(label);
}

/// `accesskit::Node::set_description`: the description becomes this text, the rest stays.
#[verifier::external_body]
pub(crate) fn set_description(node: &mut accesskit::Node, description: &str)
    ensures
        node_description(*final(node)) == Some(description@),
        node_role(*final(node)) == node_role(*old(node)),
        node_label(*final(node)) == node_label(*old(node)),
        node_modal(*final(node)) == node_modal(*old(node)),
{
    node.set_description(description);
}

/// `accesskit::Node::set_modal`: the modal flag is up, the rest stays.
#[verifier::external_body]
pub(crate) fn set_modal(node: &mut accesskit::Node)
    ensures
        node_modal(*final(node)),
        node_role(*final(node)) == node_role(*old(node)),
        node_label(*final(node)) == node_label(*old(node)),
        node_description(*final(node)) == node_description(*old(node)),
{
    node.set_modal();
}

} // verus!
