//! The description of what applets can call.

use vstd::prelude::*;

pub mod radio;

verus! {

/// The type of a parameter.
pub enum Type {
    /// A pointer to bytes that the callee may write through (`*mut u8`).
    Pointer,
    /// A function of the applet that takes these parameters.
    Function { params: Vec<Field> },
}

/// A named parameter or result.
pub struct Field {
    /// What the field is for, line by line.
    pub docs: Vec<&'static str>,
    /// The name of the field.
    pub name: &'static str,
    /// The type of the field.
    pub type_: Type,
}

/// A function that applets can call.
pub struct Fn {
    /// What the function does, line by line.
    pub docs: Vec<&'static str>,
    /// The name of the function.
    pub name: &'static str,
    /// The short name that the function is linked under.
    pub link: &'static str,
    /// The parameters, in order.
    pub params: Vec<Field>,
    /// The results, in order.
    pub results: Vec<Field>,
}

/// A group of items under one name.
pub struct Mod {
    /// What the group holds, line by line.
    pub docs: Vec<&'static str>,
    /// The name of the group.
    pub name: &'static str,
    /// The items of the group, in order.
    pub items: Vec<Item>,
}

/// A part of the description.
pub enum Item {
    /// A group of items.
    Mod(Mod),
    /// A function.
    Fn(Fn),
}

/// Whether `docs` holds exactly the lines `lines`, in their order.
pub open spec fn documented(docs: Seq<&'static str>, lines: Seq<Seq<char>>) -> bool {
    &&& docs.len() == lines.len()
    &&& forall|i: int| 0 <= i < docs.len() ==> (#[trigger] docs[i])@ == lines[i]
}

impl Field {
    /// Whether the field is called `name` and points to bytes.
    pub open spec fn is_pointer(self, name: Seq<char>) -> bool {
        self.name@ == name && self.type_ is Pointer
    }

    /// Whether the field is called `name` and is a function of the applet
    /// whose only parameter, called `param`, points to bytes.
    pub open spec fn is_callback(self, name: Seq<char>, param: Seq<char>) -> bool {
        &&& self.name@ == name
        &&& self.type_ matches Type::Function { params }
        &&& params@.len() == 1
        &&& params@[0].is_pointer(param)
    }
}

impl Item {
    /// Whether the item is a function called `name`, linked as `link`, with
    /// `params` parameters and no result.
    pub open spec fn is_procedure(self, name: Seq<char>, link: Seq<char>, params: nat) -> bool {
        &&& self matches Item::Fn(f)
        &&& f.name@ == name
        &&& f.link@ == link
        &&& f.params@.len() == params
        &&& f.results@.len() == 0
    }
}

} // verus!
