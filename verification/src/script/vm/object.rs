use vstd::prelude::*;

verus! {

/// A class of the running program.
#[derive(Debug)]
pub struct ObjClass {
    pub name: String,
}

impl ObjClass {
    pub fn new(name: String) -> (r: Self)
        ensures
            r.name == name,
    {
        Self { name }
    }
}

/// A string of the running program.
#[derive(Debug)]
pub struct ObjString {
    pub string: String,
}

impl ObjString {
    pub fn new(string: String) -> (r: ObjString)
        ensures
            r.string == string,
    {
        Self { string }
    }
}

} // verus!
