use vstd::prelude::*;

use crate::shapes::Shape;

verus! {

/// A tree of shapes, grouped under nodes.
pub struct ShapeTree {
    root: ShapeTreeNode,
}

/// A child of a node: a node of its own, or a shape.
pub enum NodeOrShape {
    Node(ShapeTreeNode),
    Shape(Shape),
}

pub struct ShapeTreeNode {
    pub children: Vec<NodeOrShape>,
}

impl View for ShapeTree {
    type V = Seq<NodeOrShape>;

    /// The children of the root, in the order they were added.
    closed spec fn view(&self) -> Seq<NodeOrShape> {
        self.root.children@
    }
}

impl ShapeTree {
    pub fn new() -> (r: Self)
        ensures
            r@ == Seq::<NodeOrShape>::empty(),
    {
        Self { root: ShapeTreeNode::new() }
    }

    /// Adds `shape` under the root, after the children already there.
    pub fn add_shape(&mut self, shape: Shape)
        ensures
            final(self)@ == old(self)@.push(NodeOrShape::Shape(shape)),
    {
        self.root.add_shape(shape);
    }
}

impl ShapeTreeNode {
    pub fn new() -> (r: ShapeTreeNode)
        ensures
            r.children@ == Seq::<NodeOrShape>::empty(),
    {
        ShapeTreeNode { children: Vec::new() }
    }

    /// Adds `shape` after the children already there.
    pub fn add_shape(&mut self, shape: Shape)
        ensures
            final(self).children@ == old(self).children@.push(NodeOrShape::Shape(shape)),
    {
        let shape = NodeOrShape::Shape(shape);
        self.children.push(shape);
    }
}

} // verus!
