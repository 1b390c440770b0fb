use vstd::prelude::*;
use crate::error::LoadError;
use crate::serde_state::SerDeState;

verus! {

/// Where descriptions of steps come from. The graph asks a source for the
/// description under a path when it first needs the step, and promises
/// nothing about the answer: whatever comes back is dealt with.
pub trait ConfigSource {
    fn load(&mut self, path: &String) -> Result<SerDeState, LoadError>;
}

/// The sources that a flow may ask, each known by its position, together
/// with the record of what they were asked: which source, and for which
/// path, in the order of asking. The sources are asked through `ask` alone,
/// so the record is complete.
pub struct Sources<S> {
    list: Vec<S>,
    asked: Ghost<Seq<(usize, Seq<char>)>>,
}

impl<S: ConfigSource> Sources<S> {
    /// How many sources there are.
    pub closed spec fn count(&self) -> nat {
        self.list@.len()
    }

    /// The source at `which`.
    pub closed spec fn source(&self, which: int) -> S {
        self.list@[which]
    }

    /// What the sources were asked so far: the position of the source and
    /// the path, one pair for each time.
    pub closed spec fn asked(&self) -> Seq<(usize, Seq<char>)> {
        self.asked@
    }

    /// Everything that `before` records was asked, `self` records too, in the
    /// same places: nothing was asked but after that.
    pub open spec fn continues(&self, before: &Sources<S>) -> bool {
        &&& self.count() == before.count()
        &&& before.asked().len() <= self.asked().len()
        &&& forall|k: int|
            0 <= k < before.asked().len() ==> #[trigger] self.asked()[k] == before.asked()[k]
    }

    /// The first thing that was asked after `before` was the source `which`
    /// for `path`.
    pub open spec fn asked_next(&self, before: &Sources<S>, which: usize, path: Seq<char>) -> bool {
        &&& self.continues(before)
        &&& before.asked().len() < self.asked().len()
        &&& self.asked()[before.asked().len() as int] == (which, path)
    }

    /// These sources, of which nothing was asked yet.
    pub fn new(list: Vec<S>) -> (sources: Sources<S>)
        ensures
            sources.count() == list@.len(),
            sources.asked() == Seq::<(usize, Seq<char>)>::empty(),
    {
        Sources { list, asked: Ghost(Seq::empty()) }
    }

    /// How many sources there are.
    pub fn len(&self) -> (n: usize)
        ensures
            n == self.count(),
    {
        self.list.len()
    }

    /// The source at `which`, to look at.
    pub fn get(&self, which: usize) -> (source: &S)
        requires
            which < self.count(),
        ensures
            *source == self.source(which as int),
    {
        &self.list[which]
    }

    /// Asks the source `which` for the description under `path`, and records
    /// that it was asked. Nothing is known of the answer, nor of the source
    /// afterwards; the other sources are as they were.
    pub fn ask(&mut self, which: usize, path: &String) -> (loaded: Result<SerDeState, LoadError>)
        requires
            which < old(self).count(),
        ensures
            final(self).count() == old(self).count(),
            final(self).asked() == old(self).asked().push((which, path@)),
            final(self).asked_next(old(self), which, path@),
            forall|j: int|
                0 <= j < old(self).count() && j != which ==> #[trigger] final(self).source(j) == old(
                    self,
                ).source(j),
    {
        let loaded = self.list[which].load(path);
        self.asked = Ghost(self.asked@.push((which, path@)));
        loaded
    }
}

} // verus!
