//! The image table: images interned by path, each under a handle that never changes.

use vstd::prelude::*;

verus! {

/// `i` is the first entry of `entries` whose path is `path`.
pub open spec fn first_with_path<I>(entries: Seq<(Seq<char>, I)>, path: Seq<char>, i: int) -> bool {
    &&& 0 <= i < entries.len()
    &&& entries[i].0 == path
    &&& forall|j: int| 0 <= j < i ==> entries[j].0 != path
}

/// No entry of `entries` has the path `path`.
pub open spec fn absent<I>(entries: Seq<(Seq<char>, I)>, path: Seq<char>) -> bool {
    forall|i: int| 0 <= i < entries.len() ==> (#[trigger] entries[i]).0 != path
}

/// No two entries have the same path.
pub open spec fn interned<I>(entries: Seq<(Seq<char>, I)>) -> bool {
    forall|i: int, j: int|
        0 <= i < j < entries.len() ==> #[trigger] entries[i].0 != #[trigger] entries[j].0
}

/// The images loaded so far, each with the path it was loaded from. A handle is the position
/// of an entry; entries are only ever added at the end.
pub struct Resources<I> {
    entries: Vec<(String, I)>,
}

impl<I> View for Resources<I> {
    type V = Seq<(Seq<char>, I)>;

    /// The entries in the order of their handles: path and image.
    closed spec fn view(&self) -> Seq<(Seq<char>, I)> {
        Seq::new(self.entries@.len(), |i: int| (self.entries@[i].0@, self.entries@[i].1))
    }
}

impl<I> Resources<I> {
    /// An empty table.
    pub fn new() -> (r: Self)
        ensures
            r@ == Seq::<(Seq<char>, I)>::empty(),
            interned(r@),
    {
        Resources { entries: Vec::new() }
    }

    /// Number of images in the table: the handles are the numbers below it.
    pub fn len(&self) -> (n: usize)
        ensures
            n == self@.len(),
    {
        self.entries.len()
    }

    /// The handle under which the image of `path` is held, if it has been loaded.
    pub fn lookup(&self, path: &str) -> (handle: Option<usize>)
        ensures
            match handle {
                Some(id) => first_with_path(self@, path@, id as int),
                None => absent(self@, path@),
            },
    {
        let key: String = path.to_owned();
        let mut i: usize = 0;
        while i < self.entries.len()
            invariant
                key@ == path@,
                i <= self.entries@.len(),
                forall|j: int| 0 <= j < i ==> (#[trigger] self@[j]).0 != path@,
            decreases self.entries@.len() - i,
        {
            if self.entries[i].0 == key {
                return Some(i);
            }
            i += 1;
        }
        None
    }

    /// Returns the handle of the image at `path`. A path that the table holds already keeps its
    /// handle and `load` is not called. For a new path `load` is called on it: the image it
    /// returns is added at the end of the table under the next handle, and an error it returns
    /// is passed on with the table unchanged.
    pub fn add_image<E, F: FnOnce(&str) -> Result<I, E>>(&mut self, path: &str, load: F) -> (r:
        Result<usize, E>)
        requires
            call_requires(load, (path,)),
        ensures
            interned(old(self)@) ==> interned(final(self)@),
            match r {
                Ok(id) => {
                    ||| first_with_path(old(self)@, path@, id as int) && final(self)@ == old(
                        self,
                    )@
                    ||| absent(old(self)@, path@) && id == old(self)@.len() && final(self)@ == old(
                        self,
                    )@.push((path@, final(self)@[id as int].1)) && call_ensures(
                        load,
                        (path,),
                        Ok::<I, E>(final(self)@[id as int].1),
                    )
                },
                Err(e) => absent(old(self)@, path@) && final(self)@ == old(self)@ && call_ensures(
                    load,
                    (path,),
                    Err::<I, E>(e),
                ),
            },
    {
        match self.lookup(path) {
            Some(id) => Ok(id),
            None => {
                let image = load(path)?;
                let id: usize = self.entries.len();
                let ghost before = self@;
                self.entries.push((path.to_owned(), image));
                assert(self@ =~= before.push((path@, image)));
                Ok(id)
            },
        }
    }

    /// The image held under `id`.
    pub fn get_image(&self, id: usize) -> (image: &I)
        requires
            id < self@.len(),
        ensures
            *image == self@[id as int].1,
    {
        &self.entries[id].1
    }
}

impl<I> Default for Resources<I> {
    /// An empty table.
    fn default() -> (r: Self)
        ensures
            r@ == Seq::<(Seq<char>, I)>::empty(),
            interned(r@),
    {
        Resources::new()
    }
}

} // verus!
