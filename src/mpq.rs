//! Several archives read as one: a file is taken from the first archive that
//! holds it.
use vstd::prelude::*;

use crate::error::{result_view, Error};
use crate::fs::ReadonlyFileSystem;

verus! {

/// One archive of game data; implemented over the archive format by the caller.
pub trait ReadOnlyMPQArchive {
    /// The contents of the file `name` in this archive.
    fn read_file(&self, name: &str) -> Result<Vec<u8>, Error>;
}

/// A stack of archives, searched in the order they were added.
pub struct UnifiedMPQArchive<A: ReadOnlyMPQArchive> {
    archives: Vec<A>,
}

impl<A: ReadOnlyMPQArchive> View for UnifiedMPQArchive<A> {
    type V = Seq<A>;

    closed spec fn view(&self) -> Seq<A> {
        self.archives@
    }
}

impl<A: ReadOnlyMPQArchive> UnifiedMPQArchive<A> {
    /// A stack with no archive.
    pub fn new() -> (r: UnifiedMPQArchive<A>)
        ensures
            r@ == Seq::<A>::empty(),
    {
        UnifiedMPQArchive { archives: Vec::new() }
    }

    /// A stack of the given archives, first searched first.
    pub fn from_existing(archives: Vec<A>) -> (r: UnifiedMPQArchive<A>)
        ensures
            r@ == archives@,
    {
        UnifiedMPQArchive { archives }
    }

    /// Adds an archive, searched after the others.
    pub fn add(&mut self, archive: A)
        ensures
            final(self)@ == old(self)@.push(archive),
    {
        self.archives.push(archive)
    }

    /// The file `file_name` from the first archive that gives it, asking the
    /// archives in order: `outcomes` are the answers of the archives asked,
    /// the first of them, then the next, until one gives the file. When none
    /// does, every archive has been asked and the result is `FileNotFound`.
    pub fn read_file(&self, file_name: &str) -> (r: Result<Vec<u8>, Error>)
        ensures
            exists|outcomes: Seq<Result<Seq<u8>, Error>>|
                #![trigger first_found(outcomes)]
                asked_in_order(outcomes, self@.len()) && result_view(r) == first_found(outcomes),
    {
        let ghost mut outcomes: Seq<Result<Seq<u8>, Error>> = Seq::empty();
        let mut i: usize = 0;
        while i < self.archives.len()
            invariant
                i <= self@.len(),
                self@ == self.archives@,
                outcomes.len() == i,
                forall|k: int| 0 <= k < i ==> (#[trigger] outcomes[k]) is Err,
            decreases self@.len() - i,
        {
            let outcome = self.archives[i].read_file(file_name);
            proof {
                outcomes = outcomes.push(result_view(outcome));
            }
            match outcome {
                Ok(contents) => {
                    proof {
                        lemma_first_found_after_failures(outcomes);
                        assert(asked_in_order(outcomes, self@.len()));
                    }
                    return Ok(contents);
                },
                Err(_) => {},
            }
            i = i + 1;
        }
        proof {
            lemma_first_found_after_failures(outcomes);
        }
        Err(Error::FileNotFound)
    }
}

/// The first file among `outcomes`, or `FileNotFound` when none gives one.
pub open spec fn first_found(outcomes: Seq<Result<Seq<u8>, Error>>) -> Result<Seq<u8>, Error>
    decreases outcomes.len(),
{
    if outcomes.len() == 0 {
        Err(Error::FileNotFound)
    } else {
        match outcomes[0] {
            Ok(b) => Ok(b),
            Err(_) => first_found(outcomes.drop_first()),
        }
    }
}

/// The answers of a stack of `n` archives asked one after the other: all
/// but the last are failures, and the search stops early only at a success.
pub open spec fn asked_in_order(outcomes: Seq<Result<Seq<u8>, Error>>, n: nat) -> bool {
    &&& outcomes.len() <= n
    &&& forall|k: int| 0 <= k < outcomes.len() - 1 ==> (#[trigger] outcomes[k]) is Err
    &&& outcomes.len() < n ==> outcomes.len() > 0 && outcomes.last() is Ok
}

/// After failures only, the first file is the one of the last outcome, or
/// none.
proof fn lemma_first_found_after_failures(outcomes: Seq<Result<Seq<u8>, Error>>)
    requires
        forall|k: int| 0 <= k < outcomes.len() - 1 ==> (#[trigger] outcomes[k]) is Err,
    ensures
        outcomes.len() > 0 && outcomes.last() is Ok ==> first_found(outcomes) == Ok::<
            Seq<u8>,
            Error,
        >(outcomes.last()->Ok_0),
        outcomes.len() > 0 && outcomes.last() is Err ==> first_found(outcomes) == Err::<
            Seq<u8>,
            Error,
        >(Error::FileNotFound),
        outcomes.len() == 0 ==> first_found(outcomes) == Err::<Seq<u8>, Error>(
            Error::FileNotFound,
        ),
    decreases outcomes.len(),
{
    if outcomes.len() > 1 {
        let rest = outcomes.drop_first();
        assert forall|k: int| 0 <= k < rest.len() - 1 implies (#[trigger] rest[k]) is Err by {
            assert(rest[k] == outcomes[k + 1]);
        }
        lemma_first_found_after_failures(rest);
        assert(rest.last() == outcomes.last());
        assert(outcomes[0] is Err);
    } else if outcomes.len() == 1 {
        assert(outcomes[0] == outcomes.last());
        assert(outcomes.drop_first().len() == 0);
        assert(first_found(outcomes.drop_first()) == Err::<Seq<u8>, Error>(Error::FileNotFound));
    }
}

impl<A: ReadOnlyMPQArchive> ReadonlyFileSystem for UnifiedMPQArchive<A> {
    fn read(&self, file_name: &str) -> Result<Vec<u8>, Error> {
        self.read_file(file_name)
    }
}

} // verus!
