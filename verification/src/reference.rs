//! A reference to a constant, with the namespaces around it.

use vstd::prelude::*;
use vstd::std_specs::cmp::PartialEqSpecImpl;

verus! {

/// What a [`Reference`] states: the name referred to and the namespaces
/// that enclose the place of reference, innermost first.
pub struct ReferenceView {
    pub name: Seq<char>,
    pub nesting: Seq<Seq<char>>,
}

/// The fact that a file, at some lexical position, refers to a constant.
#[derive(Debug, Eq)]
pub struct Reference {
    name: String,
    // class Foo
    //   module Bar
    //     class Baz
    //       Boo
    //     end
    //   end
    // end
    // `Boo` stands in [Foo.Bar.Baz, Foo.Bar, Foo]
    module_nesting: Vec<String>,
}

impl View for Reference {
    type V = ReferenceView;

    closed spec fn view(&self) -> ReferenceView {
        ReferenceView { name: self.name@, nesting: self.module_nesting.deep_view() }
    }
}

impl DeepView for Reference {
    type V = ReferenceView;

    open spec fn deep_view(&self) -> ReferenceView {
        self.view()
    }
}

/// Whether two lists of strings hold the same text at every place.
pub fn same_names(left: &Vec<String>, right: &Vec<String>) -> (same: bool)
    ensures
        same == (left.deep_view() == right.deep_view()),
{
    if left.len() != right.len() {
        assert(left.deep_view().len() != right.deep_view().len());
        return false;
    }
    let mut i: usize = 0;
    while i < left.len()
        invariant
            i <= left.len(),
            left.len() == right.len(),
            forall|j: int| 0 <= j < i ==> left[j]@ == right[j]@,
        decreases left.len() - i,
    {
        if left[i] != right[i] {
            assert(left.deep_view()[i as int] != right.deep_view()[i as int]);
            return false;
        }
        i += 1;
    }
    assert(left.deep_view() =~= right.deep_view());
    true
}

/// A copy of a list of strings.
pub fn copy_names(names: &Vec<String>) -> (copy: Vec<String>)
    ensures
        copy.deep_view() == names.deep_view(),
{
    let mut copy: Vec<String> = Vec::new();
    let mut i: usize = 0;
    while i < names.len()
        invariant
            i <= names.len(),
            copy.len() == i,
            forall|j: int| 0 <= j < i ==> copy[j]@ == names[j]@,
        decreases names.len() - i,
    {
        copy.push(names[i].clone());
        i += 1;
    }
    copy
}

impl Reference {
    /// A reference to `name` from inside `module_nesting`, innermost first.
    pub fn new(name: String, module_nesting: Vec<String>) -> (reference: Reference)
        ensures
            reference@ == (ReferenceView { name: name@, nesting: module_nesting.deep_view() }),
    {
        Reference { name, module_nesting }
    }

    /// The dotted path of the constant referred to.
    pub fn name(&self) -> (name: &String)
        ensures
            name@ == self@.name,
    {
        &self.name
    }

    /// The namespaces that enclose the place of reference, innermost first.
    pub fn module_nesting(&self) -> (nesting: &Vec<String>)
        ensures
            nesting.deep_view() == self@.nesting,
    {
        &self.module_nesting
    }
}

impl Clone for Reference {
    fn clone(&self) -> (copy: Reference)
        ensures
            copy@ == self@,
    {
        Reference { name: self.name.clone(), module_nesting: copy_names(&self.module_nesting) }
    }
}

impl Default for Reference {
    fn default() -> (reference: Reference)
        ensures
            reference@ == (ReferenceView { name: Seq::empty(), nesting: Seq::empty() }),
    {
        let reference = Reference { name: String::default(), module_nesting: Vec::default() };
        assert(reference.module_nesting.deep_view() =~= Seq::<Seq<char>>::empty());
        reference
    }
}

impl PartialEq for Reference {
    fn eq(&self, other: &Reference) -> (equal: bool) {
        self.name == other.name && same_names(&self.module_nesting, &other.module_nesting)
    }
}

impl PartialEqSpecImpl for Reference {
    open spec fn obeys_eq_spec() -> bool {
        true
    }

    open spec fn eq_spec(&self, other: &Reference) -> bool {
        self@ == other@
    }
}

} // verus!
