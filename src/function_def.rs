//! A function or method definition found in a source file.
use vstd::prelude::*;

use crate::names::{qualified, qualify};

verus! {

/// What a definition is, mathematically: its name, its file and its enclosing class.
pub struct FunctionId {
    pub name: Seq<char>,
    pub file: Seq<char>,
    pub class_name: Option<Seq<char>>,
}

impl FunctionId {
    /// `Class.name` for a method, `name` for a free function.
    pub open spec fn full_name(self) -> Seq<char> {
        qualified(self.class_name, self.name)
    }
}

/// A definition. Two definitions are the same when name, file and class all agree.
#[derive(Debug, Clone)]
pub struct FunctionDef {
    pub name: String,
    pub file: String,
    pub class_name: Option<String>,
}

impl View for FunctionDef {
    type V = FunctionId;

    open spec fn view(&self) -> FunctionId {
        FunctionId { name: self.name@, file: self.file@, class_name: self.class_name.deep_view() }
    }
}

impl DeepView for FunctionDef {
    type V = FunctionId;

    open spec fn deep_view(&self) -> FunctionId {
        self@
    }
}

/// Equality of two optional strings by their contents.
pub fn same_option(a: &Option<String>, b: &Option<String>) -> (r: bool)
    ensures
        r == (a.deep_view() == b.deep_view()),
{
    match (a, b) {
        (Some(x), Some(y)) => *x == *y,
        (None, None) => true,
        _ => false,
    }
}

/// A copy of an optional string.
pub fn copy_option(a: &Option<String>) -> (r: Option<String>)
    ensures
        r.deep_view() == a.deep_view(),
{
    match a {
        Some(x) => Some(x.clone()),
        None => None,
    }
}

impl PartialEq for FunctionDef {
    fn eq(&self, other: &FunctionDef) -> (r: bool) {
        self.name == other.name && self.file == other.file && same_option(
            &self.class_name,
            &other.class_name,
        )
    }
}

impl vstd::std_specs::cmp::PartialEqSpecImpl for FunctionDef {
    open spec fn obeys_eq_spec() -> bool {
        true
    }

    open spec fn eq_spec(&self, other: &FunctionDef) -> bool {
        self@ == other@
    }
}

impl FunctionDef {
    pub fn new(name: String, file: String, class_name: Option<String>) -> (r: Self)
        ensures
            r@ == (FunctionId { name: name@, file: file@, class_name: class_name.deep_view() }),
    {
        FunctionDef { name, file, class_name }
    }

    /// `Class.name` for a method, `name` for a free function.
    pub fn full_name(&self) -> (r: String)
        ensures
            r@ == self@.full_name(),
    {
        qualify(&self.class_name, &self.name)
    }

    /// A copy with the same name, file and class.
    pub fn duplicate(&self) -> (r: Self)
        ensures
            r@ == self@,
    {
        FunctionDef::new(self.name.clone(), self.file.clone(), copy_option(&self.class_name))
    }
}

} // verus!
