use vstd::prelude::*;

verus! {

/// A wizard as the public listing shows it: an identifier and the three
/// descriptive fields, without the image reference.
#[derive(Debug)]
pub struct Wizard {
    pub id: i32,
    pub name: String,
    pub title: String,
    pub age: i32,
}

/// The fields a client supplies to create a wizard.
#[derive(Debug)]
pub struct CreateWizard {
    pub name: String,
    pub title: String,
    pub age: i32,
}

} // verus!
