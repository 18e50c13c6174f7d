use vstd::prelude::*;

verus! {

/// A change of the chain of nodes that a muscle is made of.
#[derive(Clone, Copy, Debug, PartialEq, Eq, Structural)]
pub enum NodeChange {
    /// A node is put in at a position.
    Add,
    /// The node at a position gets other values.
    Mod,
    /// The node at a position is taken out.
    Del,
}

/// Whether a chain of `nodes` nodes admits the change at position `pos`. A node
/// can be put in at every position up to the end of the chain; only a node of
/// the chain can be changed; and a node can be taken out only of a chain that
/// keeps two nodes at least.
pub open spec fn admits(change: NodeChange, pos: int, nodes: int) -> bool {
    match change {
        NodeChange::Add => pos <= nodes,
        NodeChange::Mod => pos < nodes,
        NodeChange::Del => pos < nodes && nodes >= 3,
    }
}

/// Decides whether a chain of `nodes` nodes admits the change at position `pos`.
pub fn change_allowed(change: NodeChange, pos: usize, nodes: usize) -> (r: bool)
    ensures
        r == admits(change, pos as int, nodes as int),
{
    match change {
        NodeChange::Add => pos <= nodes,
        NodeChange::Mod => pos < nodes,
        NodeChange::Del => pos < nodes && nodes >= 3,
    }
}

} // verus!
