use vstd::prelude::*;

verus! {

/// One collected value: the name of a field and what was entered for it.
#[derive(Debug, Clone, PartialEq, Eq)]
pub struct ContextLikeCollection {
    pub name: String,
    pub value: String,
}

impl View for ContextLikeCollection {
    type V = (Seq<char>, Seq<char>);

    open spec fn view(&self) -> (Seq<char>, Seq<char>) {
        (self.name@, self.value@)
    }
}

impl ContextLikeCollection {
    pub fn new(name: String, value: String) -> (c: ContextLikeCollection)
        ensures
            c.name == name,
            c.value == value,
    {
        ContextLikeCollection { name, value }
    }
}

/// What one step of a flow contributes: the step's name and its values.
#[derive(Debug, Clone, PartialEq, Eq)]
pub struct Collection {
    pub state_name: String,
    pub context_collections: Vec<ContextLikeCollection>,
}

/// The mathematical content of a [`Collection`].
pub struct CollectionView {
    pub state_name: Seq<char>,
    pub entries: Seq<(Seq<char>, Seq<char>)>,
}

impl View for Collection {
    type V = CollectionView;

    open spec fn view(&self) -> CollectionView {
        CollectionView {
            state_name: self.state_name@,
            entries: Seq::new(
                self.context_collections@.len(),
                |i: int| self.context_collections@[i]@,
            ),
        }
    }
}

impl Collection {
    pub fn new(name: String, context_collections: Vec<ContextLikeCollection>) -> (c: Collection)
        ensures
            c.state_name == name,
            c.context_collections == context_collections,
    {
        Collection { state_name: name, context_collections }
    }
}

} // verus!
