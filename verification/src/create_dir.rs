//! Creating a directory together with the directories above it that are
//! missing, one attempt at a time.
//!
//! [`Iter`] keeps the directories that remain to be created, the one to try
//! next on top. The caller tries to create that directory and tells the
//! iterator how it went; the iterator says what came of it and what is to be
//! tried after that.
use vstd::prelude::*;

verus! {

/// Why a directory could not be created, as far as it matters here.
#[derive(Clone, Copy, Debug, PartialEq, Eq, Hash)]
pub enum ErrorKind {
    /// A directory above the one to create does not exist.
    NotFound,
    /// The directory exists.
    AlreadyExists,
    /// Creating it is not permitted.
    PermissionDenied,
    /// The path cannot name a directory.
    InvalidInput,
    /// The attempt was interrupted.
    Interrupted,
    /// Anything else.
    Other,
}

/// What went wrong on the way.
#[derive(Debug, PartialEq, Eq)]
pub enum Error {
    /// The directory could not be created yet, and another attempt follows.
    Intermediate(ErrorKind),
    /// The directory `dir` cannot be created, and nothing more is tried.
    Permanent { err: ErrorKind, dir: String },
}

/// An error as a value of the model.
pub enum ErrorModel {
    Intermediate(ErrorKind),
    Permanent { err: ErrorKind, dir: Seq<char> },
}

impl View for Error {
    type V = ErrorModel;

    open spec fn view(&self) -> ErrorModel {
        match self {
            Error::Intermediate(kind) => ErrorModel::Intermediate(*kind),
            Error::Permanent { err, dir } => ErrorModel::Permanent { err: *err, dir: dir@ },
        }
    }
}

impl Error {
    /// The kind of the failure where another attempt follows it, and `None`
    /// where the failure is permanent.
    pub fn intermediate(&self) -> (kind: Option<ErrorKind>)
        ensures
            kind == match self@ {
                ErrorModel::Intermediate(kind) => Some(kind),
                ErrorModel::Permanent { .. } => None,
            },
    {
        match self {
            Error::Intermediate(kind) => Some(*kind),
            _ => None,
        }
    }
}

/// What one attempt yields, as a value of the model: the directory that now
/// exists, or what went wrong; `None` where nothing was left to try.
pub type Yield = Option<Result<Seq<char>, ErrorModel>>;

/// The view of what one attempt yields.
pub open spec fn yielded(item: Option<Result<&str, Error>>) -> Yield {
    match item {
        Some(Ok(dir)) => Some(Ok(dir@)),
        Some(Err(error)) => Some(Err(error@)),
        None => None,
    }
}

/// The view of a path that may be absent.
pub open spec fn optional(path: Option<&str>) -> Option<Seq<char>> {
    match path {
        Some(p) => Some(p@),
        None => None,
    }
}

/// Whether `parent` may be the parent of the directory `dir`: it is what
/// stands before some place in `dir`, and shorter.
pub open spec fn is_above(parent: Seq<char>, dir: Seq<char>) -> bool {
    parent.len() < dir.len() && parent == dir.subrange(0, parent.len() as int)
}

/// What becomes of the directories that remain, and what is yielded, when
/// the attempt to create the topmost of them came out as `outcome` and that
/// directory has the parent `parent`.
///
/// A directory that was created or exists is yielded and is done with. Where
/// its parent is missing, the parent is tried next and the directory after
/// it; a directory without a parent cannot be created. Any other failure is
/// permanent: nothing remains to be tried.
pub open spec fn advanced(
    cursors: Seq<Seq<char>>,
    outcome: Result<(), ErrorKind>,
    parent: Option<Seq<char>>,
) -> (Seq<Seq<char>>, Yield) {
    if cursors.len() == 0 {
        (cursors, None)
    } else {
        let cursor = cursors.last();
        match outcome {
            Ok(_) => (cursors.drop_last(), Some(Ok(cursor))),
            Err(ErrorKind::AlreadyExists) => (cursors.drop_last(), Some(Ok(cursor))),
            Err(ErrorKind::NotFound) => match parent {
                Some(above) => (
                    cursors.push(above),
                    Some(Err(ErrorModel::Intermediate(ErrorKind::NotFound))),
                ),
                None => (
                    Seq::empty(),
                    Some(Err(ErrorModel::Permanent { err: ErrorKind::InvalidInput, dir: cursor })),
                ),
            },
            Err(kind) => (
                Seq::empty(),
                Some(Err(ErrorModel::Permanent { err: kind, dir: cursor })),
            ),
        }
    }
}

/// `std::path::Path::parent`: the path without its last component, or `None`
/// where the path ends in a root or is empty. All that is claimed of the
/// result is that it is the beginning of the path, and shorter.
#[verifier::external_body]
fn parent_of<'a>(path: &'a str) -> (parent: Option<&'a str>)
    ensures
        parent matches Some(above) ==> is_above(above@, path@),
{
    match std::path::Path::new(path).parent() {
        Some(above) => above.to_str(),
        None => None,
    }
}

/// The directories that remain to be created, the one to try next on top.
#[derive(Debug)]
pub struct Iter<'a> {
    cursors: Vec<&'a str>,
}

impl<'a> View for Iter<'a> {
    type V = Seq<Seq<char>>;

    closed spec fn view(&self) -> Seq<Seq<char>> {
        self.cursors@.map_values(|path: &str| path@)
    }
}

impl<'a> Iter<'a> {
    /// Sets out to create the directory `target`.
    pub fn new(target: &'a str) -> (iter: Self)
        ensures
            iter@ == seq![target@],
    {
        let mut cursors: Vec<&'a str> = Vec::new();
        cursors.push(target);
        let iter = Iter { cursors };
        assert(iter@ =~= seq![target@]);
        iter
    }

    /// The directory that the caller is to try to create next, if any is left.
    pub fn cursor(&self) -> (cursor: Option<&'a str>)
        ensures
            optional(cursor) == if self@.len() == 0 {
                None
            } else {
                Some(self@.last())
            },
    {
        if self.cursors.len() == 0 {
            None
        } else {
            Some(self.cursors[self.cursors.len() - 1])
        }
    }

    /// Gives up: nothing remains to be tried, and `dir` is reported as the
    /// directory that cannot be created.
    fn fail_permanently(&mut self, dir: &str, err: ErrorKind) -> (item: Option<
        Result<&'a str, Error>,
    >)
        ensures
            final(self)@ == Seq::<Seq<char>>::empty(),
            yielded(item) == Some(
                Err::<Seq<char>, ErrorModel>(ErrorModel::Permanent { err, dir: dir@ }),
            ),
    {
        self.cursors.clear();
        assert(self@ =~= Seq::<Seq<char>>::empty());
        Some(Err(Error::Permanent { err, dir: dir.to_owned() }))
    }

    /// Takes in how the attempt to create the topmost directory came out,
    /// where `parent` is the parent of that directory.
    pub fn advance(&mut self, outcome: Result<(), ErrorKind>, parent: Option<&'a str>) -> (item:
        Option<Result<&'a str, Error>>)
        ensures
            (final(self)@, yielded(item)) == advanced(old(self)@, outcome, optional(parent)),
    {
        let ghost before = self@;
        match self.cursors.pop() {
            Some(cursor) => {
                assert(self@ =~= before.drop_last());
                assert(cursor@ == before.last());
                match outcome {
                    Ok(()) => Some(Ok(cursor)),
                    Err(ErrorKind::AlreadyExists) => Some(Ok(cursor)),
                    Err(ErrorKind::NotFound) => {
                        match parent {
                            None => self.fail_permanently(cursor, ErrorKind::InvalidInput),
                            Some(above) => {
                                self.cursors.push(cursor);
                                self.cursors.push(above);
                                assert(self@ =~= before.push(above@));
                                Some(Err(Error::Intermediate(ErrorKind::NotFound)))
                            },
                        }
                    },
                    Err(kind) => self.fail_permanently(cursor, kind),
                }
            },
            None => {
                assert(self@ =~= before);
                None
            },
        }
    }

    /// Takes in how the attempt to create the topmost directory came out.
    ///
    /// Yields that directory where it now exists, and what went wrong where
    /// it does not; `None` where nothing was left to try. What is yielded and
    /// what remains is as [`advanced`] states for the parent of the
    /// directory, which is looked up here where the outcome calls for it.
    pub fn next(&mut self, outcome: Result<(), ErrorKind>) -> (item: Option<Result<&'a str, Error>>)
        ensures
            exists|parent: Option<Seq<char>>|
                {
                    &&& parent matches Some(above) ==> old(self)@.len() > 0 && is_above(
                        above,
                        old(self)@.last(),
                    )
                    &&& (final(self)@, yielded(item)) == #[trigger] advanced(
                        old(self)@,
                        outcome,
                        parent,
                    )
                },
    {
        let parent = match (self.cursor(), outcome) {
            (Some(cursor), Err(ErrorKind::NotFound)) => parent_of(cursor),
            _ => None,
        };
        let ghost before = self@;
        let item = self.advance(outcome, parent);
        proof {
            assert((self@, yielded(item)) == advanced(before, outcome, optional(parent)));
        }
        item
    }
}

} // verus!
