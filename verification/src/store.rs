//! A model of the remote store's contract: files readable by path, and an
//! atomic multi-file commit conditioned on the head observed beforehand.
//! Either the whole batch lands and the head advances, or the commit is
//! rejected and the store is exactly as it was — there is no partially
//! applied batch. The real store is reached over the network; this model
//! is the contract the library depends on, and what failure scenarios are
//! simulated against.

use vstd::prelude::*;

use crate::github::{NewContent, PublishError};

verus! {

/// What a sequence of writes makes of one path: the last write wins.
pub open spec fn lookup_pairs(fs: Seq<(String, Vec<u8>)>, p: Seq<char>) -> Option<Seq<u8>>
    decreases fs.len(),
{
    if fs.len() == 0 {
        None
    } else if fs.last().0@ == p {
        Some(fs.last().1@)
    } else {
        lookup_pairs(fs.drop_last(), p)
    }
}

/// What a batch holds for one path: the last write wins.
pub open spec fn lookup_batch(cs: Seq<NewContent>, p: Seq<char>) -> Option<Seq<u8>>
    decreases cs.len(),
{
    if cs.len() == 0 {
        None
    } else if cs.last().spec_path() == p {
        Some(cs.last().spec_content())
    } else {
        lookup_batch(cs.drop_last(), p)
    }
}

/// A remote store holding files by path, with a head token that advances
/// by one on every commit.
#[derive(Debug)]
pub struct StoreModel {
    files: Vec<(String, Vec<u8>)>,
    head: u64,
}

impl StoreModel {
    /// The head token a commit must name to be accepted.
    pub closed spec fn spec_head(&self) -> u64 {
        self.head
    }

    /// The bytes the store shows at `p`, if any.
    pub closed spec fn spec_file(&self, p: Seq<char>) -> Option<Seq<u8>> {
        lookup_pairs(self.files@, p)
    }

    /// An empty store.
    pub fn new() -> (r: StoreModel)
        ensures
            r.spec_head() == 0,
            forall|p: Seq<char>| r.spec_file(p) is None,
    {
        let r = StoreModel { files: Vec::new(), head: 0 };
        proof {
            assert(forall|p: Seq<char>| r.spec_file(p) is None);
        }
        r
    }

    /// Read the current head token.
    pub fn head(&self) -> (r: u64)
        ensures
            r == self.spec_head(),
    {
        self.head
    }

    /// Read the file at `path`, if the store holds one.
    pub fn read_file(&self, path: &str) -> (r: Option<&Vec<u8>>)
        ensures
            match r {
                Some(b) => self.spec_file(path@) == Some(b@),
                None => self.spec_file(path@) is None,
            },
    {
        let n = self.files.len();
        let mut i: usize = n;
        proof {
            assert(self.files@.take(n as int) =~= self.files@);
        }
        loop
            invariant
                i <= n,
                n == self.files@.len(),
                lookup_pairs(self.files@, path@) == lookup_pairs(
                    self.files@.take(i as int),
                    path@,
                ),
            ensures
                i <= n,
                n == self.files@.len(),
                lookup_pairs(self.files@, path@) == lookup_pairs(
                    self.files@.take(i as int),
                    path@,
                ),
                i > 0 ==> self.files@[i - 1].0@ == path@,
                i == 0 ==> lookup_pairs(self.files@, path@) is None,
            decreases i,
        {
            if i == 0 {
                proof {
                    assert(self.files@.take(0).len() == 0);
                }
                break ;
            }
            let pair = &self.files[i - 1];
            proof {
                assert(self.files@.take(i as int).last() == self.files@[i - 1]);
                assert(self.files@.take(i as int).drop_last() =~= self.files@.take(i - 1));
            }
            if crate::strutil::str_eq(pair.0.as_str(), path) {
                break ;
            }
            i = i - 1;
        }
        if i == 0 {
            None
        } else {
            proof {
                assert(self.files@.take(i as int).last() == self.files@[i - 1]);
            }
            Some(&self.files[i - 1].1)
        }
    }

    /// Commit `batch` as one atomic change, conditioned on
    /// `expected_head`. With the right head every file of the batch lands
    /// and the head advances; with a stale head the commit is rejected
    /// and the store shows exactly what it showed before — never part of
    /// a batch.
    pub fn commit(&mut self, expected_head: u64, batch: &Vec<NewContent>) -> (r: Result<
        (),
        PublishError,
    >)
        requires
            old(self).spec_head() < u64::MAX,
        ensures
            expected_head == old(self).spec_head() ==> r is Ok && final(self).spec_head() == old(
                self,
            ).spec_head() + 1 && forall|p: Seq<char>|
                final(self).spec_file(p) == match lookup_batch(batch@, p) {
                    Some(b) => Some(b),
                    None => old(self).spec_file(p),
                },
            expected_head != old(self).spec_head() ==> r == Result::<(), PublishError>::Err(
                PublishError::Rejected,
            ) && *final(self) == *old(self),
    {
        if expected_head != self.head {
            return Err(PublishError::Rejected);
        }
        let n = batch.len();
        let mut i: usize = 0;
        proof {
            assert(batch@.take(0).len() == 0);
            assert(forall|p: Seq<char>|
                lookup_pairs(self.files@, p) == match lookup_batch(batch@.take(0), p) {
                    Some(b) => Some(b),
                    None => lookup_pairs(old(self).files@, p),
                });
        }
        while i < n
            invariant
                i <= n,
                n == batch@.len(),
                self.head == old(self).head,
                forall|p: Seq<char>|
                    lookup_pairs(self.files@, p) == match lookup_batch(batch@.take(i as int), p) {
                        Some(b) => Some(b),
                        None => lookup_pairs(old(self).files@, p),
                    },
            decreases n - i,
        {
            let c = &batch[i];
            let ghost before = self.files@;
            let path = c.git_path();
            let pair = (path.as_str().to_owned(), c.content_bytes());
            self.files.push(pair);
            proof {
                assert(self.files@.last().0@ == batch@[i as int].spec_path());
                assert(self.files@.last().1@ == batch@[i as int].spec_content());
                assert(self.files@.drop_last() =~= before);
                assert(batch@.take(i + 1).last() == batch@[i as int]);
                assert(batch@.take(i + 1).drop_last() =~= batch@.take(i as int));
                assert forall|p: Seq<char>|
                    lookup_pairs(self.files@, p) == (match lookup_batch(
                        batch@.take(i + 1),
                        p,
                    ) {
                        Some(b) => Some(b),
                        None => lookup_pairs(old(self).files@, p),
                    }) by {
                    if self.files@.last().0@ == p {
                        assert(lookup_pairs(self.files@, p) == Some(self.files@.last().1@));
                        assert(lookup_batch(batch@.take(i + 1), p) == Some(
                            batch@[i as int].spec_content(),
                        ));
                    } else {
                        assert(lookup_pairs(self.files@, p) == lookup_pairs(before, p));
                        assert(lookup_batch(batch@.take(i + 1), p) == lookup_batch(
                            batch@.take(i as int),
                            p,
                        ));
                    }
                }
            }
            i = i + 1;
        }
        proof {
            assert(batch@.take(n as int) =~= batch@);
        }
        self.head = self.head + 1;
        Ok(())
    }
}
} // verus!
