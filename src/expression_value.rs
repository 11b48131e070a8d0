//! The usage facts found in an expression, a statement or a whole project.
use vstd::prelude::*;

use crate::function_def::{FunctionDef, FunctionId};
use crate::lists::{
    append_new, extend_defs, extend_strings, insert_def, insert_string,
    lemma_append_new_distinct,
};

verus! {

/// Usage facts as values: each list holds no element twice and keeps the order in
/// which its elements were first met.
pub struct UsageFacts {
    /// Call targets: `f`, `prefix.method`, either behind an enclosing class.
    pub calls: Seq<Seq<char>>,
    /// Bare identifiers referenced.
    pub names: Seq<Seq<char>>,
    /// `base.attr` for attribute values whose base holds a bare name.
    pub attributes: Seq<Seq<char>>,
    /// Bare names that may denote a function passed as a value.
    pub possible: Seq<FunctionId>,
}

impl UsageFacts {
    pub open spec fn empty() -> UsageFacts {
        UsageFacts {
            calls: Seq::empty(),
            names: Seq::empty(),
            attributes: Seq::empty(),
            possible: Seq::empty(),
        }
    }

    /// The facts of `self` together with those of `other`: a union of each list.
    pub open spec fn join(self, other: UsageFacts) -> UsageFacts {
        UsageFacts {
            calls: append_new(self.calls, other.calls),
            names: append_new(self.names, other.names),
            attributes: append_new(self.attributes, other.attributes),
            possible: append_new(self.possible, other.possible),
        }
    }

    pub open spec fn well_formed(self) -> bool {
        &&& self.calls.no_duplicates()
        &&& self.names.no_duplicates()
        &&& self.attributes.no_duplicates()
        &&& self.possible.no_duplicates()
    }
}

/// The usage facts of a piece of source.
#[derive(Debug)]
pub struct ExpressionValue {
    pub used_functions: Vec<String>,
    pub used_names: Vec<String>,
    pub used_attributes: Vec<String>,
    pub possible_functions: Vec<FunctionDef>,
}

impl View for ExpressionValue {
    type V = UsageFacts;

    open spec fn view(&self) -> UsageFacts {
        UsageFacts {
            calls: self.used_functions.deep_view(),
            names: self.used_names.deep_view(),
            attributes: self.used_attributes.deep_view(),
            possible: self.possible_functions.deep_view(),
        }
    }
}

impl ExpressionValue {
    pub open spec fn wf(&self) -> bool {
        self@.well_formed()
    }

    pub fn new() -> (r: Self)
        ensures
            r@ == UsageFacts::empty(),
            r.wf(),
    {
        let r = ExpressionValue {
            used_functions: Vec::new(),
            used_names: Vec::new(),
            used_attributes: Vec::new(),
            possible_functions: Vec::new(),
        };
        assert(r.used_functions.deep_view() =~= Seq::<Seq<char>>::empty());
        assert(r.used_names.deep_view() =~= Seq::<Seq<char>>::empty());
        assert(r.used_attributes.deep_view() =~= Seq::<Seq<char>>::empty());
        assert(r.possible_functions.deep_view() =~= Seq::<FunctionId>::empty());
        r
    }

    /// Adds every fact of `expression_value` to `self`.
    pub fn merge_expression_result(&mut self, expression_value: ExpressionValue)
        requires
            old(self).wf(),
        ensures
            final(self)@ == old(self)@.join(expression_value@),
            final(self).wf(),
    {
        extend_strings(&mut self.used_functions, &expression_value.used_functions);
        extend_strings(&mut self.used_names, &expression_value.used_names);
        extend_strings(&mut self.used_attributes, &expression_value.used_attributes);
        extend_defs(&mut self.possible_functions, &expression_value.possible_functions);
        proof {
            lemma_append_new_distinct(old(self)@.calls, expression_value@.calls);
            lemma_append_new_distinct(old(self)@.names, expression_value@.names);
            lemma_append_new_distinct(old(self)@.attributes, expression_value@.attributes);
            lemma_append_new_distinct(old(self)@.possible, expression_value@.possible);
        }
    }

    /// Records a call target; returns whether it was new.
    pub fn insert(&mut self, value: String) -> (added: bool)
        requires
            old(self).wf(),
        ensures
            final(self)@ == (UsageFacts {
                calls: append_new(old(self)@.calls, seq![value@]),
                ..old(self)@
            }),
            added == !old(self)@.calls.contains(value@),
            final(self).wf(),
    {
        proof {
            lemma_append_new_distinct(self@.calls, seq![value@]);
        }
        insert_string(&mut self.used_functions, value)
    }

    /// Records a bare name; returns whether it was new.
    pub fn insert_name(&mut self, value: String) -> (added: bool)
        requires
            old(self).wf(),
        ensures
            final(self)@ == (UsageFacts {
                names: append_new(old(self)@.names, seq![value@]),
                ..old(self)@
            }),
            added == !old(self)@.names.contains(value@),
            final(self).wf(),
    {
        proof {
            lemma_append_new_distinct(self@.names, seq![value@]);
        }
        insert_string(&mut self.used_names, value)
    }

    /// Records an attribute reference `base.attr`; returns whether it was new.
    pub fn insert_attribute(&mut self, value: String) -> (added: bool)
        requires
            old(self).wf(),
        ensures
            final(self)@ == (UsageFacts {
                attributes: append_new(old(self)@.attributes, seq![value@]),
                ..old(self)@
            }),
            added == !old(self)@.attributes.contains(value@),
            final(self).wf(),
    {
        proof {
            lemma_append_new_distinct(self@.attributes, seq![value@]);
        }
        insert_string(&mut self.used_attributes, value)
    }

    /// Records a candidate function reference; returns whether it was new.
    pub fn insert_possible_function(&mut self, value: FunctionDef) -> (added: bool)
        requires
            old(self).wf(),
        ensures
            final(self)@ == (UsageFacts {
                possible: append_new(old(self)@.possible, seq![value@]),
                ..old(self)@
            }),
            added == !old(self)@.possible.contains(value@),
            final(self).wf(),
    {
        proof {
            lemma_append_new_distinct(self@.possible, seq![value@]);
        }
        insert_def(&mut self.possible_functions, value)
    }
}

} // verus!
