//! Read-only views over reflected values.
//!
//! A value is described as a graph of nodes held in a `ValueGraph`. Each node
//! stands for one initialized value: the address it lives at, the name and
//! identity of its shape, and its structural classification. Children are
//! referred to by node index, so self-referential data is expressible.
use vstd::prelude::*;

verus! {

/// One field of a struct value.
pub struct PeekField {
    pub name: String,
    /// Set when the field is flagged sensitive: its value is never rendered.
    pub sensitive: bool,
    /// Index of the node that holds the field's value.
    pub value: usize,
}

/// Structural classification of a value.
pub enum PeekKind {
    /// A leaf value, with the text its Display and Debug hooks produce when
    /// the shape has them.
    Scalar { display: Option<String>, debug: Option<String> },
    Struct { fields: Vec<PeekField> },
    List { items: Vec<usize> },
    Dict,
    /// A classification the traversal does not know how to walk.
    Other,
}

/// A view over one initialized value.
pub struct PeekNode {
    /// Address of the value's data.
    pub addr: usize,
    /// The shape's type name.
    pub type_label: String,
    /// Hash of the shape's structural identity.
    pub shape_hash: u64,
    pub kind: PeekKind,
}

/// An arena of value views; children are referenced by index.
pub struct ValueGraph {
    pub nodes: Vec<PeekNode>,
}

/// Number of children of a node (fields of a struct, items of a list).
pub open spec fn child_count(n: PeekNode) -> nat {
    match n.kind {
        PeekKind::Struct { fields } => fields@.len(),
        PeekKind::List { items } => items@.len(),
        _ => 0,
    }
}

/// Every child reference of `n` is below `len`.
pub open spec fn node_wf(n: PeekNode, len: nat) -> bool {
    match n.kind {
        PeekKind::Struct { fields } => forall|i: int|
            0 <= i < fields@.len() ==> (#[trigger] fields@[i]).value < len,
        PeekKind::List { items } => forall|i: int| 0 <= i < items@.len() ==> #[trigger] items@[i] < len,
        _ => true,
    }
}

impl ValueGraph {
    /// Every child reference points at a node of the graph.
    pub open spec fn wf(&self) -> bool {
        forall|i: int| 0 <= i < self.nodes@.len() ==> node_wf(#[trigger] self.nodes@[i], self.nodes@.len())
    }

    /// The largest number of children of any node.
    pub open spec fn max_fanout(&self) -> nat {
        max_fanout_of(self.nodes@)
    }

    /// The set of addresses of the graph's nodes.
    pub open spec fn addrs(&self) -> Set<usize> {
        self.nodes@.map_values(|n: PeekNode| n.addr).to_set()
    }

    pub fn new() -> (r: ValueGraph)
        ensures
            r.nodes@.len() == 0,
    {
        ValueGraph { nodes: Vec::new() }
    }

    /// Adds a node and returns its index.
    pub fn add(&mut self, node: PeekNode) -> (r: usize)
        requires
            old(self).nodes@.len() < usize::MAX,
        ensures
            r == old(self).nodes@.len(),
            final(self).nodes@ == old(self).nodes@.push(node),
    {
        let r = self.nodes.len();
        self.nodes.push(node);
        r
    }
}

pub open spec fn max_fanout_of(s: Seq<PeekNode>) -> nat
    decreases s.len(),
{
    if s.len() == 0 {
        0
    } else {
        let m = max_fanout_of(s.drop_last());
        let c = child_count(s.last());
        if c > m { c } else { m }
    }
}

pub proof fn lemma_max_fanout(s: Seq<PeekNode>, i: int)
    requires
        0 <= i < s.len(),
    ensures
        child_count(s[i]) <= max_fanout_of(s),
    decreases s.len(),
{
    if i < s.len() - 1 {
        lemma_max_fanout(s.drop_last(), i);
    }
}

} // verus!
