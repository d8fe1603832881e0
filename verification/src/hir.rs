pub mod ir;
pub mod type_check;

use vstd::prelude::*;
use vstd::string::StringExecFns;
use self::ir::item::HirItem;
use self::ir::path::{HirPathIndexBinding, HirPathTree};

verus! {

/// The intermediate representation of a program: the tree of named places and the
/// items, each bound to its place in the tree.
#[derive(Clone, Debug, PartialEq)]
pub struct Hir {
    pub path_tree: HirPathTree,
    pub items: Vec<HirPathIndexBinding<HirItem>>,
}

/// An identifier of the intermediate representation: a name as written in the source.
#[derive(Clone, Debug, PartialEq)]
pub struct HirIdentifier(pub String);

impl View for HirIdentifier {
    type V = Seq<char>;

    open spec fn view(&self) -> Seq<char> {
        self.0@
    }
}

impl HirIdentifier {
    /// Builds an identifier holding a copy of the given text.
    pub fn from_str(value: &str) -> (id: HirIdentifier)
        ensures
            id@ == value@,
    {
        HirIdentifier(String::from_str(value))
    }

    /// Compares the names of two identifiers.
    pub fn same_as(&self, other: &HirIdentifier) -> (same: bool)
        ensures
            same == (self@ == other@),
    {
        self.0 == other.0
    }

    /// Copies the identifier.
    pub fn duplicate(&self) -> (id: HirIdentifier)
        ensures
            id == *self,
    {
        HirIdentifier(self.0.clone())
    }

    /// The name as an owned string.
    pub fn into_string(self) -> (s: String)
        ensures
            s == self.0,
    {
        self.0
    }
}

impl From<String> for HirIdentifier {
    fn from(value: String) -> (id: HirIdentifier) {
        HirIdentifier(value)
    }
}

impl vstd::std_specs::convert::FromSpecImpl<String> for HirIdentifier {
    open spec fn obeys_from_spec() -> bool {
        true
    }

    open spec fn from_spec(value: String) -> HirIdentifier {
        HirIdentifier(value)
    }
}

impl From<HirIdentifier> for String {
    fn from(value: HirIdentifier) -> (s: String) {
        value.0
    }
}

impl vstd::std_specs::convert::FromSpecImpl<HirIdentifier> for String {
    open spec fn obeys_from_spec() -> bool {
        true
    }

    open spec fn from_spec(value: HirIdentifier) -> String {
        value.0
    }
}

/// A value bound to an identifier.
#[derive(Clone, Debug, PartialEq)]
pub struct HirIdentifierBinding<T>(pub HirIdentifier, pub T);

impl<T> HirIdentifierBinding<T> {
    pub fn new(id: HirIdentifier, value: T) -> (binding: HirIdentifierBinding<T>)
        ensures
            binding.0 == id,
            binding.1 == value,
    {
        HirIdentifierBinding(id, value)
    }

    pub fn identifier(&self) -> (id: &HirIdentifier)
        ensures
            *id == self.0,
    {
        &self.0
    }

    pub fn value(&self) -> (value: &T)
        ensures
            *value == self.1,
    {
        &self.1
    }
}

#[derive(Clone, Debug, PartialEq)]
pub enum HirAccessibility {
    Private,
    Public,
    PublicInHako,
}

#[derive(Clone, Debug, PartialEq)]
pub enum HirMutability {
    Immutable,
    Mutable,
}

} // verus!
pub mod hirify;
pub mod hirify_laws;
