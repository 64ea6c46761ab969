//! Permissions: what a role can be granted, as a tree.

use vstd::prelude::*;

verus! {

/// A permission, and the one it stands under.
#[derive(Clone, Copy, Debug)]
pub struct Permission {
    pub name: &'static str,
    pub label: &'static str,
    pub parent: Option<&'static str>,
}

/// What a permission says: its name, its label and its parent's name.
pub type Grant = (Seq<char>, Seq<char>, Option<Seq<char>>);

impl View for Permission {
    type V = (Seq<char>, Seq<char>, Option<Seq<char>>);

    open spec fn view(&self) -> (Seq<char>, Seq<char>, Option<Seq<char>>) {
        (
            self.name@,
            self.label@,
            match self.parent {
                Some(p) => Some(p@),
                None => None,
            },
        )
    }
}

pub open spec fn grants(list: Seq<Permission>) -> Seq<Grant> {
    list.map_values(|p: Permission| p@)
}

impl Permission {
    /// The root of a tree.
    pub fn root(name: &'static str, label: &'static str) -> (r: Permission)
        ensures
            r@ == (name@, label@, None::<Seq<char>>),
    {
        Permission { name, label, parent: None }
    }

    /// A permission under another one.
    pub fn under(parent: &'static str, name: &'static str, label: &'static str) -> (r: Permission)
        ensures
            r@ == (name@, label@, Some(parent@)),
    {
        Permission { name, label, parent: Some(parent) }
    }
}

} // verus!
