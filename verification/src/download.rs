//! Mirrored media for one entry: an ordered mapping from each media URL to
//! the bytes fetched for it, with an order-preserving transform over the
//! URL side. Fetching itself is I/O and lives outside the library; the
//! mapping it fills and every transformation of it is verified here.

use vstd::prelude::*;

verus! {

/// A media object could not be fetched or stored; `url` names the failing
/// reference.
#[derive(Debug)]
pub struct MediaFetchError {
    pub url: String,
}

/// An ordered map from media URLs to the locally materialized bytes of
/// each, one pair per media reference of one entry, in the entry's order.
#[derive(Debug)]
pub struct LocalMedia {
    urls: Vec<String>,
    contents: Vec<Vec<u8>>,
}

impl LocalMedia {
    /// The URL side, in order.
    pub closed spec fn spec_urls(&self) -> Seq<Seq<char>> {
        self.urls@.map_values(|u: String| u@)
    }

    /// The byte side, in order.
    pub closed spec fn spec_contents(&self) -> Seq<Seq<u8>> {
        self.contents@.map_values(|c: Vec<u8>| c@)
    }

    /// Both sides pair up.
    pub open spec fn wf(&self) -> bool {
        self.spec_urls().len() == self.spec_contents().len()
    }

    /// The number of mapped media references.
    pub fn len(&self) -> (n: usize)
        ensures
            n == self.spec_urls().len(),
    {
        self.urls.len()
    }

    /// An empty map.
    pub fn new() -> (r: LocalMedia)
        ensures
            r.spec_urls() == Seq::<Seq<char>>::empty(),
            r.spec_contents() == Seq::<Seq<u8>>::empty(),
    {
        let r = LocalMedia { urls: Vec::new(), contents: Vec::new() };
        proof {
            assert(r.spec_urls() =~= Seq::<Seq<char>>::empty());
            assert(r.spec_contents() =~= Seq::<Seq<u8>>::empty());
        }
        r
    }

    /// Append one pair at the end.
    pub fn push(&mut self, url: &str, content: Vec<u8>)
        ensures
            final(self).spec_urls() == old(self).spec_urls() + seq![url@],
            final(self).spec_contents() == old(self).spec_contents() + seq![content@],
    {
        self.urls.push(url.to_owned());
        self.contents.push(content);
        proof {
            assert(self.spec_urls() =~= old(self).spec_urls() + seq![url@]);
            assert(self.spec_contents() =~= old(self).spec_contents() + seq![content@]);
        }
    }

    /// The URL at position `i`.
    pub fn url_at(&self, i: usize) -> (r: &String)
        requires
            i < self.spec_urls().len(),
        ensures
            r@ == self.spec_urls()[i as int],
    {
        &self.urls[i]
    }

    /// The bytes at position `i`.
    pub fn content_at(&self, i: usize) -> (r: &Vec<u8>)
        requires
            i < self.spec_contents().len(),
        ensures
            r@ == self.spec_contents()[i as int],
    {
        &self.contents[i]
    }

    /// Apply `f` to every URL, keeping the byte side and the order: the
    /// pure transform that rewrites remote media URLs into site paths.
    /// `g` is the mathematical function `f` computes on views.
    pub fn apply<F: Fn(&str) -> String>(
        &self,
        f: F,
        Ghost(g): Ghost<spec_fn(Seq<char>) -> Seq<char>>,
    ) -> (r: LocalMedia)
        requires
            forall|s: &str| #[trigger] f.requires((s,)),
            forall|s: &str, out: String| #[trigger] f.ensures((s,), out) ==> out@ == g(s@),
        ensures
            r.spec_contents() == self.spec_contents(),
            r.spec_urls() == self.spec_urls().map_values(g),
    {
        let mut new_urls: Vec<String> = Vec::new();
        let n = self.urls.len();
        let mut i: usize = 0;
        while i < n
            invariant
                i <= n,
                n == self.urls@.len(),
                forall|s: &str| #[trigger] f.requires((s,)),
                forall|s: &str, out: String| #[trigger] f.ensures((s,), out) ==> out@ == g(s@),
                new_urls@.map_values(|u: String| u@) =~= self.spec_urls().take(
                    i as int,
                ).map_values(g),
            decreases n - i,
        {
            let u = &self.urls[i];
            let us = u.as_str();
            let nu = f(us);
            let ghost before = new_urls@;
            proof {
                assert(us@ == self.spec_urls()[i as int]);
            }
            new_urls.push(nu);
            proof {
                assert(new_urls@.map_values(|u: String| u@) =~= before.map_values(
                    |u: String| u@,
                ) + seq![g(self.spec_urls()[i as int])]);
                assert(self.spec_urls().take(i + 1).map_values(g) =~= self.spec_urls().take(
                    i as int,
                ).map_values(g) + seq![g(self.spec_urls()[i as int])]);
            }
            i = i + 1;
        }
        let r = LocalMedia { urls: new_urls, contents: clone_contents(&self.contents) };
        proof {
            assert(r.spec_contents() =~= self.spec_contents());
            assert(self.spec_urls().take(n as int) =~= self.spec_urls());
        }
        r
    }
}

/// Copy a byte vector.
pub fn clone_bytes(v: &Vec<u8>) -> (r: Vec<u8>)
    ensures
        r@ == v@,
{
    let mut r: Vec<u8> = Vec::new();
    let n = v.len();
    let mut i: usize = 0;
    while i < n
        invariant
            i <= n,
            n == v@.len(),
            r@ == v@.take(i as int),
        decreases n - i,
    {
        r.push(v[i]);
        proof {
            assert(v@.take(i + 1) =~= v@.take(i as int) + seq![v@[i as int]]);
        }
        i = i + 1;
    }
    proof {
        assert(v@.take(n as int) =~= v@);
    }
    r
}

/// Copy a vector of byte vectors.
fn clone_contents(v: &Vec<Vec<u8>>) -> (r: Vec<Vec<u8>>)
    ensures
        r@.map_values(|c: Vec<u8>| c@) == v@.map_values(|c: Vec<u8>| c@),
{
    let mut r: Vec<Vec<u8>> = Vec::new();
    let n = v.len();
    let mut i: usize = 0;
    while i < n
        invariant
            i <= n,
            n == v@.len(),
            r@.map_values(|c: Vec<u8>| c@) == v@.take(i as int).map_values(|c: Vec<u8>| c@),
        decreases n - i,
    {
        let ghost before = r@;
        r.push(clone_bytes(&v[i]));
        proof {
            assert(r@.map_values(|c: Vec<u8>| c@) =~= before.map_values(|c: Vec<u8>| c@)
                + seq![v@[i as int]@]);
            assert(v@.take(i + 1).map_values(|c: Vec<u8>| c@) =~= v@.take(i as int).map_values(
                |c: Vec<u8>| c@,
            ) + seq![v@[i as int]@]);
        }
        i = i + 1;
    }
    proof {
        assert(v@.take(n as int) =~= v@);
    }
    r
}

} // verus!
