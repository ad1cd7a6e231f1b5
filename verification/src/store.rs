//! The store as the engine knows it: a root directory, and one file for each
//! reference at the path that its name spells.
use vstd::prelude::*;

verus! {

/// The byte `/`, which separates the segments of a name and of a path.
pub const SEPARATOR: u8 = 0x2f;

/// A store of references below one root directory.
#[derive(Debug, PartialEq, Eq)]
pub struct Store {
    base: Vec<u8>,
}

/// The directories between the root and the file of `name`, the longest
/// first: for each `/` of the name that is not its first byte, what stands
/// before it. Only positions below `upto` count.
pub open spec fn directories(name: Seq<u8>, upto: int) -> Seq<Seq<u8>>
    decreases upto,
{
    if upto <= 1 {
        Seq::empty()
    } else if name[upto - 1] == SEPARATOR {
        seq![name.take(upto - 1)] + directories(name, upto - 1)
    } else {
        directories(name, upto - 1)
    }
}

/// The directories that may be left empty once the reference `name` is
/// removed, the innermost first. The root is not among them.
pub open spec fn parents(name: Seq<u8>) -> Seq<Seq<u8>> {
    directories(name, name.len() as int)
}

/// The view of a list of paths.
pub open spec fn paths(list: Seq<Vec<u8>>) -> Seq<Seq<u8>> {
    list.map_values(|p: Vec<u8>| p@)
}

impl Store {
    /// The root directory of the store.
    pub closed spec fn root(&self) -> Seq<u8> {
        self.base@
    }

    /// A store below the directory `base`.
    pub fn at(base: Vec<u8>) -> (store: Store)
        ensures
            store.root() == base@,
    {
        Store { base }
    }

    /// The root directory of the store.
    pub fn base(&self) -> (base: &Vec<u8>)
        ensures
            base@ == self.root(),
    {
        &self.base
    }

    /// The path of the file of the reference `name`, from the root: the
    /// segments of the name are the segments of the path.
    pub fn ref_path(&self, name: &Vec<u8>) -> (path: Vec<u8>)
        ensures
            path@ == name@,
    {
        name.clone()
    }

    /// The directories that may be left empty once the reference `name` is
    /// removed, the innermost first.
    pub fn parent_directories(&self, name: &Vec<u8>) -> (list: Vec<Vec<u8>>)
        ensures
            paths(list@) == parents(name@),
    {
        let mut list: Vec<Vec<u8>> = Vec::new();
        let mut upto: usize = name.len();
        assert(paths(list@) =~= Seq::empty());
        while upto > 1
            invariant
                upto <= name.len(),
                paths(list@) + directories(name@, upto as int) == parents(name@),
            decreases upto,
        {
            if name[upto - 1] == SEPARATOR {
                let mut dir: Vec<u8> = Vec::new();
                let mut i: usize = 0;
                while i < upto - 1
                    invariant
                        1 < upto <= name.len(),
                        i <= upto - 1,
                        dir@ == name@.take(i as int),
                    decreases upto - i,
                {
                    dir.push(name[i]);
                    assert(name@.take(i + 1) == name@.take(i as int).push(name@[i as int]));
                    i += 1;
                }
                let ghost before = paths(list@);
                list.push(dir);
                assert(paths(list@) =~= before.push(dir@));
                assert(before.push(dir@) + directories(name@, upto - 1) =~= before + (seq![dir@]
                    + directories(name@, upto - 1)));
            }
            upto -= 1;
        }
        assert(paths(list@) + directories(name@, upto as int) =~= paths(list@));
        list
    }
}

} // verus!
