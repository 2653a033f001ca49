//! Project descriptors and value-equality project scoping.
//!
//! While comparing two image objects, one must check that the two lie
//! under the same project.  A descriptor holds a project's identifier and
//! display name, and two images belong to the same project exactly when
//! their descriptors compare equal by value: both fields equal.  The check
//! is structural and independent of the hash machinery.

use vstd::prelude::*;

verus! {

/// A value that can describe itself with a display string.
pub trait Descriptive: Eq {
    /// What the description says.
    spec fn spec_describe(&self) -> Seq<char>;

    /// The value's description.
    fn describe(&self) -> (r: String)
        ensures
            r@ == self.spec_describe(),
    ;
}

/// The metadata of a project: a stable identifier and a display name.
#[derive(Eq)]
pub struct ProjectDescriptor {
    project_id: String,
    project_name: String,
}

impl ProjectDescriptor {
    /// The project's identifier.
    pub closed spec fn spec_id(&self) -> Seq<char> {
        self.project_id@
    }

    /// The project's display name.
    pub closed spec fn spec_name(&self) -> Seq<char> {
        self.project_name@
    }

    /// A descriptor from a project identifier and a display name.
    pub fn new(id: &str, name: &str) -> (r: Self)
        ensures
            r.spec_id() == id@,
            r.spec_name() == name@,
    {
        ProjectDescriptor { project_id: id.to_owned(), project_name: name.to_owned() }
    }
}

impl PartialEq for ProjectDescriptor {
    /// Two descriptors are equal by value: both fields equal.  Images
    /// scoped by equal descriptors belong to the same project.
    fn eq(&self, other: &Self) -> bool {
        self.project_id == other.project_id && self.project_name == other.project_name
    }
}

impl vstd::std_specs::cmp::PartialEqSpecImpl for ProjectDescriptor {
    open spec fn obeys_eq_spec() -> bool {
        true
    }

    open spec fn eq_spec(&self, other: &Self) -> bool {
        self.spec_id() == other.spec_id() && self.spec_name() == other.spec_name()
    }
}

impl Descriptive for ProjectDescriptor {
    /// A project describes itself by its display name.
    open spec fn spec_describe(&self) -> Seq<char> {
        self.spec_name()
    }

    fn describe(&self) -> (r: String) {
        self.project_name.clone()
    }
}

} // verus!
