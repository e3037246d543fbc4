use vstd::prelude::*;

verus! {

/// A shape as the machine knows it.
#[derive(Debug, Clone, Copy, PartialEq, Eq, Structural)]
pub enum VmShape {
    Rect,
}

impl VmShape {
    /// The name of the shape.
    pub fn to_string(&self) -> (r: &'static str)
        ensures
            r@ == match self {
                VmShape::Rect => "Rect"@,
            },
    {
        match self {
            VmShape::Rect => "Rect",
        }
    }
}

} // verus!
