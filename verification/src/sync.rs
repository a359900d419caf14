//! The orchestrator: one sync run as an explicit state machine. The run
//! is fed the feed document and the stored watermark, resolves the
//! backlog of entries still to publish, and then walks it strictly in
//! ascending identifier order — mirroring one entry's media, rendering
//! its document, and handing over one atomic publish batch — advancing
//! the watermark only on a confirmed commit, and failing fast on the
//! first error with the remaining backlog untouched.

use vstd::prelude::*;

use crate::date::{rfc2822_date, DateParseError};
use crate::download::{clone_bytes, LocalMedia, MediaFetchError};
use crate::feed::{contains_str, feed_has_guid, Entry, EntryVal, Feed, MalformedFeed};
use crate::github::NewContent;
use crate::markdown::{spec_markdown, spec_post_filename, spec_truncate, truncate_media_url, post_filename};
use crate::strutil::{lex_lt, spec_final_segment, final_segment};
use vstd::utf8::encode_utf8;

verus! {

/// Where a run stands.
#[derive(Clone, Copy, PartialEq, Eq, Structural, Debug)]
pub enum RunPhase {
    /// Created; nothing read yet.
    Idle,
    /// The feed document and the stored watermark are being read.
    Fetching,
    /// Feed and watermark are in hand; the backlog is not yet resolved.
    Diffing,
    /// Media of the current backlog entry are being mirrored.
    Mirroring,
    /// The current entry's batch is built and awaits the store's answer.
    Publishing,
    /// Every selected entry was published.
    Done,
    /// A failure ended the run; the remaining backlog is untouched.
    Failed,
}

/// One sync run.
pub struct SyncRun {
    instance: String,
    media_path_prefix: String,
    post_path: String,
    watermark_path: String,
    max_posts: usize,
    feed: Option<Feed>,
    watermark: String,
    backlog: Vec<usize>,
    pos: usize,
    media: LocalMedia,
    media_pos: usize,
    phase: RunPhase,
    published: Ghost<Seq<Seq<char>>>,
}

impl SyncRun {
    // -- what the state shows ---------------------------------------------

    pub closed spec fn spec_phase(&self) -> RunPhase {
        self.phase
    }

    pub closed spec fn spec_instance(&self) -> Seq<char> {
        self.instance@
    }

    pub closed spec fn spec_media_path_prefix(&self) -> Seq<char> {
        self.media_path_prefix@
    }

    pub closed spec fn spec_post_path(&self) -> Seq<char> {
        self.post_path@
    }

    pub closed spec fn spec_watermark_path(&self) -> Seq<char> {
        self.watermark_path@
    }

    pub closed spec fn spec_max_posts(&self) -> nat {
        self.max_posts as nat
    }

    pub closed spec fn has_feed(&self) -> bool {
        self.feed is Some
    }

    /// The validated feed entries, once the run holds them.
    pub closed spec fn spec_feed(&self) -> Seq<EntryVal> {
        self.feed->0@
    }

    /// The watermark as the run currently knows it: the identifier of
    /// the most recently published entry.
    pub closed spec fn spec_watermark(&self) -> Seq<char> {
        self.watermark@
    }

    /// How many backlog entries the run selected.
    pub closed spec fn spec_backlog_len(&self) -> nat {
        self.backlog@.len()
    }

    /// The identifiers of the selected backlog entries, in order.
    pub closed spec fn spec_backlog_guids(&self) -> Seq<Seq<char>> {
        Seq::new(self.backlog@.len(), |k: int| self.spec_feed()[self.backlog@[k] as int].guid)
    }

    /// How many backlog entries are already published.
    pub closed spec fn spec_pos(&self) -> nat {
        self.pos as nat
    }

    /// The identifiers published so far, in publication order.
    pub closed spec fn spec_published(&self) -> Seq<Seq<char>> {
        self.published@
    }

    /// The entry the run currently works on.
    pub closed spec fn spec_current(&self) -> EntryVal {
        self.spec_feed()[self.backlog@[self.pos as int] as int]
    }

    /// How many media of the current entry are mirrored.
    pub closed spec fn spec_media_pos(&self) -> nat {
        self.media_pos as nat
    }

    /// The bytes mirrored so far for the current entry, in media order.
    pub closed spec fn spec_media_contents(&self) -> Seq<Seq<u8>> {
        self.media.spec_contents()
    }

    // -- invariants --------------------------------------------------------

    /// The published identifiers are strictly ascending.
    pub open spec fn published_ascending(&self) -> bool {
        forall|i: int, j: int|
            0 <= i < j < self.spec_published().len() ==> lex_lt(
                #[trigger] self.spec_published()[i],
                #[trigger] self.spec_published()[j],
            )
    }

    /// The backlog is a selection of valid feed indices whose identifiers
    /// ascend strictly, every unpublished one beyond the watermark, with
    /// the published prefix recorded in order.
    pub closed spec fn backlog_wf(&self) -> bool {
        &&& self.feed is Some
        &&& forall|k: int|
            0 <= k < self.backlog@.len() ==> (#[trigger] self.backlog@[k] as int)
                < self.spec_feed().len()
        &&& forall|i: int, j: int|
            0 <= i < j < self.backlog@.len() ==> lex_lt(
                #[trigger] self.spec_backlog_guids()[i],
                #[trigger] self.spec_backlog_guids()[j],
            )
        &&& self.backlog@.len() <= self.max_posts
        &&& self.pos <= self.backlog@.len()
        &&& self.published@ == self.spec_backlog_guids().take(self.pos as int)
        &&& forall|k: int|
            self.pos <= k < self.backlog@.len() ==> lex_lt(
                self.spec_watermark(),
                #[trigger] self.spec_backlog_guids()[k],
            )
    }

    /// The media map holds one pair per already-mirrored reference of the
    /// current entry, in the entry's order, URL side matching.
    pub closed spec fn media_wf(&self) -> bool {
        &&& self.media.wf()
        &&& self.media_pos <= self.spec_current().medias.len()
        &&& self.media.spec_urls() == Seq::new(
            self.media_pos as nat,
            |j: int| self.spec_current().medias[j].url,
        )
    }

    /// The state invariant every reachable run satisfies.
    pub open spec fn wf(&self) -> bool {
        &&& self.published_ascending()
        &&& match self.spec_phase() {
            RunPhase::Idle | RunPhase::Fetching => !self.has_feed() && self.spec_pos() == 0
                && self.spec_backlog_len() == 0 && self.spec_published().len() == 0,
            RunPhase::Diffing => self.has_feed() && self.spec_pos() == 0
                && self.spec_backlog_len() == 0 && self.spec_published().len() == 0,
            RunPhase::Mirroring => self.backlog_wf() && self.spec_pos() < self.spec_backlog_len()
                && self.media_wf(),
            RunPhase::Publishing => self.backlog_wf() && self.spec_pos()
                < self.spec_backlog_len() && self.media_wf() && self.spec_media_pos()
                == self.spec_current().medias.len(),
            RunPhase::Done => self.backlog_wf() && self.spec_pos() == self.spec_backlog_len(),
            RunPhase::Failed => true,
        }
    }

    /// The run's configuration and read-only inputs are unchanged.
    pub open spec fn same_config(a: SyncRun, b: SyncRun) -> bool {
        &&& a.spec_instance() == b.spec_instance()
        &&& a.spec_media_path_prefix() == b.spec_media_path_prefix()
        &&& a.spec_post_path() == b.spec_post_path()
        &&& a.spec_watermark_path() == b.spec_watermark_path()
        &&& a.spec_max_posts() == b.spec_max_posts()
    }

    // -- construction and the fetch phase ---------------------------------

    /// A fresh run with its configuration: the instance label, the path
    /// prefix media are published under, the path prefix documents are
    /// published under, the store path of the watermark file, and the
    /// greatest number of entries one run may publish.
    pub fn new(
        instance: &str,
        media_path_prefix: &str,
        post_path: &str,
        watermark_path: &str,
        max_posts: usize,
    ) -> (r: SyncRun)
        ensures
            r.wf(),
            r.spec_phase() == RunPhase::Idle,
            r.spec_instance() == instance@,
            r.spec_media_path_prefix() == media_path_prefix@,
            r.spec_post_path() == post_path@,
            r.spec_watermark_path() == watermark_path@,
            r.spec_max_posts() == max_posts as nat,
    {
        SyncRun {
            instance: instance.to_owned(),
            media_path_prefix: media_path_prefix.to_owned(),
            post_path: post_path.to_owned(),
            watermark_path: watermark_path.to_owned(),
            max_posts,
            feed: None,
            watermark: String::new(),
            backlog: Vec::new(),
            pos: 0,
            media: LocalMedia::new(),
            media_pos: 0,
            phase: RunPhase::Idle,
            published: Ghost(Seq::empty()),
        }
    }

    /// Mark the feed document and the watermark as being read.
    pub fn begin_fetch(&mut self)
        requires
            old(self).wf(),
            old(self).spec_phase() == RunPhase::Idle,
        ensures
            final(self).wf(),
            final(self).spec_phase() == RunPhase::Fetching,
            Self::same_config(*old(self), *final(self)),
    {
        self.phase = RunPhase::Fetching;
    }

    /// Hand the run the validated feed and the stored watermark.
    pub fn begin(&mut self, feed: Feed, watermark: &str)
        requires
            old(self).wf(),
            old(self).spec_phase() == RunPhase::Fetching,
        ensures
            final(self).wf(),
            final(self).spec_phase() == RunPhase::Diffing,
            final(self).spec_feed() == feed@,
            final(self).spec_watermark() == watermark@,
            Self::same_config(*old(self), *final(self)),
    {
        self.feed = Some(feed);
        self.watermark = watermark.to_owned();
        self.phase = RunPhase::Diffing;
    }

    /// The run failed before its inputs were complete: the feed document
    /// did not parse.
    pub fn fetch_failed(&mut self) -> (e: MalformedFeed)
        requires
            old(self).wf(),
            old(self).spec_phase() == RunPhase::Idle || old(self).spec_phase()
                == RunPhase::Fetching,
        ensures
            final(self).wf(),
            final(self).spec_phase() == RunPhase::Failed,
    {
        self.phase = RunPhase::Failed;
        MalformedFeed
    }

    // -- the watermark resolver --------------------------------------------

    /// Resolve the backlog: the entries whose identifiers lie strictly
    /// beyond the watermark, in ascending identifier order, truncated to
    /// the first `max_posts`. An empty backlog is terminal, not an
    /// error: the run ends in `Done` without any commit.
    pub fn compute_backlog(&mut self)
        requires
            old(self).wf(),
            old(self).spec_phase() == RunPhase::Diffing,
        ensures
            final(self).wf(),
            Self::same_config(*old(self), *final(self)),
            final(self).spec_feed() == old(self).spec_feed(),
            final(self).spec_watermark() == old(self).spec_watermark(),
            final(self).spec_pos() == 0,
            final(self).spec_backlog_len() <= final(self).spec_max_posts(),
            final(self).spec_backlog_guids().len() == final(self).spec_backlog_len(),
            final(self).spec_phase() == RunPhase::Mirroring ==> final(self).spec_current().guid
                == final(self).spec_backlog_guids()[final(self).spec_pos() as int],
            // every selected identifier lies beyond the watermark, in the feed
            forall|k: int|
                0 <= k < final(self).spec_backlog_len() ==> lex_lt(
                    final(self).spec_watermark(),
                    #[trigger] final(self).spec_backlog_guids()[k],
                ) && feed_has_guid(final(self).spec_feed(), final(self).spec_backlog_guids()[k]),
            // ascending and duplicate-free
            forall|i: int, j: int|
                0 <= i < j < final(self).spec_backlog_len() ==> lex_lt(
                    #[trigger] final(self).spec_backlog_guids()[i],
                    #[trigger] final(self).spec_backlog_guids()[j],
                ),
            // nothing beyond the watermark is passed over, short of the bound
            forall|k: int|
                0 <= k < final(self).spec_feed().len() && lex_lt(
                    final(self).spec_watermark(),
                    #[trigger] final(self).spec_feed()[k].guid,
                ) ==> final(self).backlog_guids_account_for(final(self).spec_feed()[k].guid),
            // the selected indices are the first match of each identifier
            forall|k: int|
                0 <= k < final(self).spec_backlog_len()
                    ==> final(self).backlog_index_first_match(k),
            final(self).spec_phase() == (if final(self).spec_backlog_len() == 0 {
                RunPhase::Done
            } else {
                RunPhase::Mirroring
            }),
    {
        let guids = match &self.feed {
            Some(f) => f.find_next_guids(self.watermark.as_str()),
            None => {
                proof {
                    assert(false);
                }
                Vec::new()
            },
        };
        let mut backlog: Vec<usize> = Vec::new();
        let mut k: usize = 0;
        while k < guids.len() && k < self.max_posts
            invariant
                self.feed is Some,
                k <= guids@.len(),
                k <= self.max_posts,
                backlog@.len() == k,
                crate::feed::sorted_strict(guids@),
                forall|p: int|
                    0 <= p < guids@.len() ==> lex_lt(
                        self.spec_watermark(),
                        #[trigger] guids@[p]@,
                    ) && feed_has_guid(self.spec_feed(), guids@[p]@),
                forall|p: int|
                    0 <= p < k ==> (#[trigger] backlog@[p] as int) < self.spec_feed().len(),
                forall|p: int|
                    0 <= p < k ==> self.spec_feed()[#[trigger] backlog@[p] as int].guid
                        == guids@[p]@,
                forall|p: int|
                    0 <= p < k ==> forall|q: int|
                        0 <= q < backlog@[p] as int ==> self.spec_feed()[q].guid != #[trigger] (
                        guids@[p]@),
            decreases guids@.len() - k,
        {
            let g = &guids[k];
            let idx = match &self.feed {
                Some(f) => find_index_by_guid(f, g.as_str()),
                None => None,
            };
            match idx {
                Some(i) => {
                    backlog.push(i);
                },
                None => {
                    proof {
                        assert(feed_has_guid(self.spec_feed(), g@));
                        assert(false);
                    }
                },
            }
            k = k + 1;
        }
        let ghost old_self = *self;
        let ghost gs = guids@;
        let ghost bl = backlog@;
        let empty = backlog.len() == 0;
        self.backlog = backlog;
        self.pos = 0;
        self.media = LocalMedia::new();
        self.media_pos = 0;
        self.published = Ghost(Seq::empty());
        self.phase = if empty {
            RunPhase::Done
        } else {
            RunPhase::Mirroring
        };
        proof {
            assert(self.spec_backlog_guids().take(0) =~= Seq::<Seq<char>>::empty());
            assert(self.published@ =~= self.spec_backlog_guids().take(0));
            assert(self.spec_feed() == old_self.spec_feed());
            assert forall|i: int| 0 <= i < self.backlog@.len() implies #[trigger] self
                .spec_backlog_guids()[i] == gs[i]@ by {
                assert(self.backlog@[i] == bl[i]);
            }
            assert forall|i: int, j: int| 0 <= i < j < self.backlog@.len() implies lex_lt(
                #[trigger] self.spec_backlog_guids()[i],
                #[trigger] self.spec_backlog_guids()[j],
            ) by {
                assert(self.spec_backlog_guids()[i] == gs[i]@);
                assert(self.spec_backlog_guids()[j] == gs[j]@);
                assert(lex_lt(gs[i]@, gs[j]@));
            }
            assert forall|k2: int| 0 <= k2 < self.backlog@.len() implies lex_lt(
                self.spec_watermark(),
                #[trigger] self.spec_backlog_guids()[k2],
            ) && feed_has_guid(self.spec_feed(), self.spec_backlog_guids()[k2]) by {
                assert(self.spec_backlog_guids()[k2] == gs[k2]@);
                assert(lex_lt(self.spec_watermark(), gs[k2]@));
            }
            if self.phase == RunPhase::Mirroring {
                assert(self.media.spec_urls() =~= Seq::new(
                    0,
                    |j: int| self.spec_current().medias[j].url,
                ));
            }
            // completeness against the feed
            assert forall|k2: int|
                0 <= k2 < self.spec_feed().len() && lex_lt(
                    self.spec_watermark(),
                    #[trigger] self.spec_feed()[k2].guid,
                ) implies self.backlog_guids_account_for(self.spec_feed()[k2].guid) by {
                let g = self.spec_feed()[k2].guid;
                assert(contains_str(gs, g));
                let i = choose|i: int| 0 <= i < gs.len() && gs[i]@ == g;
                if i < self.backlog@.len() {
                    assert(self.spec_backlog_guids()[i] == g);
                } else {
                    // the loop stopped at the bound
                    assert(self.backlog@.len() == self.max_posts);
                    if self.backlog@.len() > 0 {
                        let last = self.backlog@.len() - 1;
                        assert(lex_lt(gs[last]@, gs[i]@));
                        assert(self.spec_backlog_guids()[last] == gs[last]@);
                    }
                }
            }
        }
    }

    /// `g` is either selected, or the backlog is full and ends strictly
    /// below `g`.
    pub open spec fn backlog_guids_account_for(&self, g: Seq<char>) -> bool {
        ||| exists|i: int|
            0 <= i < self.spec_backlog_guids().len() && #[trigger] self.spec_backlog_guids()[i]
                == g
        ||| (self.spec_backlog_len() == self.spec_max_posts() && (self.spec_backlog_len() == 0
            || lex_lt(self.spec_backlog_guids().last(), g)))
    }

    /// The backlog's `k`-th index points at the first feed entry carrying
    /// its identifier.
    pub closed spec fn backlog_index_first_match(&self, k: int) -> bool {
        &&& (self.backlog@[k] as int) < self.spec_feed().len()
        &&& self.spec_feed()[self.backlog@[k] as int].guid == self.spec_backlog_guids()[k]
        &&& forall|q: int|
            0 <= q < self.backlog@[k] as int ==> (#[trigger] self.spec_feed()[q].guid)
                != self.spec_backlog_guids()[k]
    }

    // -- mirroring ---------------------------------------------------------

    /// The URL of the next media reference to fetch for the current
    /// entry, or `None` once every reference is mirrored.
    pub fn next_media_url(&self) -> (r: Option<&String>)
        requires
            self.wf(),
            self.spec_phase() == RunPhase::Mirroring,
        ensures
            match r {
                Some(u) => self.spec_media_pos() < self.spec_current().medias.len() && u@
                    == self.spec_current().medias[self.spec_media_pos() as int].url,
                None => self.spec_media_pos() == self.spec_current().medias.len(),
            },
    {
        let f = match &self.feed {
            Some(f) => f,
            None => {
                proof {
                    assert(false);
                }
                return None;
            },
        };
        let e = &f.entries[self.backlog[self.pos]];
        proof {
            assert(e@ == self.spec_current());
        }
        if self.media_pos < e.medias.len() {
            proof {
                assert(e.medias@[self.media_pos as int]@ == self.spec_current().medias[
                    self.media_pos as int]);
            }
            Some(&e.medias[self.media_pos].url)
        } else {
            None
        }
    }

    /// One media reference was fetched: record its bytes, in order.
    pub fn media_fetched(&mut self, bytes: Vec<u8>)
        requires
            old(self).wf(),
            old(self).spec_phase() == RunPhase::Mirroring,
            old(self).spec_media_pos() < old(self).spec_current().medias.len(),
        ensures
            final(self).wf(),
            final(self).spec_phase() == RunPhase::Mirroring,
            Self::same_config(*old(self), *final(self)),
            final(self).spec_feed() == old(self).spec_feed(),
            final(self).spec_watermark() == old(self).spec_watermark(),
            final(self).spec_backlog_guids() == old(self).spec_backlog_guids(),
            final(self).spec_pos() == old(self).spec_pos(),
            final(self).spec_published() == old(self).spec_published(),
            final(self).spec_media_pos() == old(self).spec_media_pos() + 1,
            final(self).spec_media_contents() == old(self).spec_media_contents() + seq![bytes@],
    {
        let f = match &self.feed {
            Some(f) => f,
            None => {
                proof {
                    assert(false);
                }
                return ;
            },
        };
        let e = &f.entries[self.backlog[self.pos]];
        proof {
            assert(e@ == self.spec_current());
            assert(e.medias@[self.media_pos as int]@ == self.spec_current().medias[
                self.media_pos as int]);
        }
        let n_media = e.medias.len();
        let url = clone_url(&e.medias[self.media_pos].url);
        self.media.push(url.as_str(), bytes);
        proof {
            assert(self.media_pos < n_media);
        }
        self.media_pos = self.media_pos + 1;
        proof {
            assert(self.media.spec_urls() =~= Seq::new(
                self.media_pos as nat,
                |j: int| self.spec_current().medias[j].url,
            ));
        }
    }

    /// One media reference could not be fetched: the whole mirror fails,
    /// the run fails with it, and nothing of this entry is ever
    /// committed — no document, no media, no watermark update.
    pub fn media_failed(&mut self) -> (e: MediaFetchError)
        requires
            old(self).wf(),
            old(self).spec_phase() == RunPhase::Mirroring,
            old(self).spec_media_pos() < old(self).spec_current().medias.len(),
        ensures
            final(self).wf(),
            final(self).spec_phase() == RunPhase::Failed,
            final(self).spec_published() == old(self).spec_published(),
            e.url@ == old(self).spec_current().medias[old(self).spec_media_pos() as int].url,
    {
        let f = match &self.feed {
            Some(f) => f,
            None => {
                proof {
                    assert(false);
                }
                return MediaFetchError { url: String::new() };
            },
        };
        let e = &f.entries[self.backlog[self.pos]];
        proof {
            assert(e@ == self.spec_current());
            assert(e.medias@[self.media_pos as int]@ == self.spec_current().medias[
                self.media_pos as int]);
        }
        let url = clone_url(&e.medias[self.media_pos].url);
        self.phase = RunPhase::Failed;
        MediaFetchError { url }
    }

    // -- rendering and publishing ------------------------------------------

    /// Render the current entry and assemble its atomic publish batch:
    /// every mirrored media object at its deployment path, the rendered
    /// document, and the watermark update — all in one batch, so that
    /// "document published" and "watermark advanced" are never seen
    /// apart. Fails exactly when the entry's publish timestamp does not
    /// parse; the run then fails with nothing committed.
    pub fn prepare_publish(&mut self) -> (r: Result<(String, Vec<NewContent>), DateParseError>)
        requires
            old(self).wf(),
            old(self).spec_phase() == RunPhase::Mirroring,
            old(self).spec_media_pos() == old(self).spec_current().medias.len(),
        ensures
            Self::same_config(*old(self), *final(self)),
            final(self).wf(),
            final(self).spec_published() == old(self).spec_published(),
            match rfc2822_date(old(self).spec_current().pub_date) {
                Some(d) => {
                    let e = old(self).spec_current();
                    let fname = spec_post_filename(d, spec_final_segment(e.link));
                    let paths = Seq::new(e.medias.len(), |j: int| spec_truncate(e.medias[j].url));
                    &&& final(self).spec_phase() == RunPhase::Publishing
                    &&& final(self).spec_current() == e
                    &&& final(self).spec_watermark() == old(self).spec_watermark()
                    &&& r matches Ok(p) && {
                        let (msg, batch) = p;
                        &&& msg@ == "add "@ + fname
                        &&& batch@.len() == e.medias.len() + 2
                        &&& forall|j: int|
                            0 <= j < e.medias.len() ==> (#[trigger] batch@[j].spec_path())
                                == old(self).spec_media_path_prefix() + spec_truncate(
                                e.medias[j].url,
                            ) && batch@[j].spec_content() == old(self).spec_media_contents()[j]
                        &&& batch@[e.medias.len() as int].spec_path() == old(
                            self,
                        ).spec_post_path() + "/"@ + fname
                        &&& batch@[e.medias.len() as int].spec_content() == encode_utf8(
                            spec_markdown(e, paths, old(self).spec_instance(), d),
                        )
                        &&& batch@[e.medias.len() as int + 1].spec_path() == old(
                            self,
                        ).spec_watermark_path()
                        &&& batch@[e.medias.len() as int + 1].spec_content() == encode_utf8(
                            e.guid,
                        )
                    }
                },
                None => r is Err && final(self).spec_phase() == RunPhase::Failed,
            },
    {
        let f = match &self.feed {
            Some(f) => f,
            None => {
                proof {
                    assert(false);
                }
                return Err(DateParseError);
            },
        };
        let e = &f.entries[self.backlog[self.pos]];
        proof {
            assert(e@ == self.spec_current());
        }
        // site-relative media paths, in media order, for the renderer
        let mut doc_paths: Vec<String> = Vec::new();
        let n_media = e.medias.len();
        let mut j: usize = 0;
        while j < n_media
            invariant
                j <= n_media,
                n_media == e.medias@.len(),
                doc_paths@.len() == j,
                forall|q: int|
                    0 <= q < j ==> (#[trigger] doc_paths@[q]@) == spec_truncate(
                        e.medias@[q]@.url,
                    ),
            decreases n_media - j,
        {
            doc_paths.push(truncate_media_url(e.medias[j].url.as_str()));
            j = j + 1;
        }
        proof {
            assert(doc_paths@.map_values(|p: String| p@) =~= Seq::new(
                e@.medias.len(),
                |q: int| spec_truncate(e@.medias[q].url),
            ));
        }
        // render the document
        let md = match e.as_markdown(&doc_paths, self.instance.as_str()) {
            Ok(md) => md,
            Err(err) => {
                self.phase = RunPhase::Failed;
                return Err(err);
            },
        };
        // the document's file name
        let id = final_segment(e.link.as_str());
        let fname = match post_filename(e.pub_date.as_str(), id.as_str()) {
            Ok(fname) => fname,
            Err(err) => {
                proof {
                    assert(false);
                }
                self.phase = RunPhase::Failed;
                return Err(err);
            },
        };
        let mut doc_path = clone_url(&self.post_path);
        doc_path.append("/");
        doc_path.append(fname.as_str());
        // the batch: media at their deployment paths, document, watermark
        let mut batch: Vec<NewContent> = Vec::new();
        let mut q: usize = 0;
        while q < n_media
            invariant
                q <= n_media,
                n_media == e.medias@.len(),
                self.media.spec_contents().len() == n_media,
                self.media.spec_urls() == Seq::new(
                    n_media as nat,
                    |j: int| e@.medias[j].url,
                ),
                e@.medias.len() == n_media,
                batch@.len() == q,
                forall|p: int|
                    0 <= p < q ==> (#[trigger] batch@[p].spec_path())
                        == self.media_path_prefix@ + spec_truncate(e@.medias[p].url) && batch@[
                        p].spec_content() == self.media.spec_contents()[p],
            decreases n_media - q,
        {
            let mut repo_path = clone_url(&self.media_path_prefix);
            let site_path = truncate_media_url(e.medias[q].url.as_str());
            repo_path.append(site_path.as_str());
            proof {
                assert(self.media.spec_urls()[q as int] == e@.medias[q as int].url);
            }
            let content = clone_bytes(self.media.content_at(q));
            batch.push(NewContent::path(repo_path.as_str(), content));
            q = q + 1;
        }
        batch.push(NewContent::text(doc_path.as_str(), md.as_str()));
        batch.push(NewContent::text(self.watermark_path.as_str(), e.guid.as_str()));
        let mut msg = String::new();
        msg.append("add ");
        msg.append(fname.as_str());
        self.phase = RunPhase::Publishing;
        Ok((msg, batch))
    }

    /// The store confirmed the commit: the watermark advances to the
    /// published identifier — strictly upward — and the run moves to the
    /// next backlog entry, or to `Done` after the last.
    pub fn published(&mut self)
        requires
            old(self).wf(),
            old(self).spec_phase() == RunPhase::Publishing,
        ensures
            final(self).wf(),
            Self::same_config(*old(self), *final(self)),
            final(self).spec_feed() == old(self).spec_feed(),
            final(self).spec_backlog_guids() == old(self).spec_backlog_guids(),
            final(self).spec_pos() == old(self).spec_pos() + 1,
            final(self).spec_watermark() == old(self).spec_current().guid,
            lex_lt(old(self).spec_watermark(), final(self).spec_watermark()),
            final(self).spec_published() == old(self).spec_published().push(
                old(self).spec_current().guid,
            ),
            final(self).spec_phase() == (if final(self).spec_pos()
                == final(self).spec_backlog_len() {
                RunPhase::Done
            } else {
                RunPhase::Mirroring
            }),
    {
        let f = match &self.feed {
            Some(f) => f,
            None => {
                proof {
                    assert(false);
                }
                return ;
            },
        };
        let e = &f.entries[self.backlog[self.pos]];
        let ghost cur = self.spec_current();
        proof {
            assert(e@ == cur);
            assert(self.spec_backlog_guids()[self.pos as int] == cur.guid);
        }
        let new_watermark = clone_url(&e.guid);
        self.watermark = new_watermark;
        self.pos = self.pos + 1;
        self.media = LocalMedia::new();
        self.media_pos = 0;
        self.published = Ghost(self.published@.push(cur.guid));
        self.phase = if self.pos == self.backlog.len() {
            RunPhase::Done
        } else {
            RunPhase::Mirroring
        };
        proof {
            assert(self.spec_published() =~= self.spec_backlog_guids().take(self.pos as int));
            if self.phase == RunPhase::Mirroring {
                assert(self.media.spec_urls() =~= Seq::new(
                    0,
                    |j: int| self.spec_current().medias[j].url,
                ));
            }
        }
    }

    /// The store rejected the commit (or answered malformed): the run
    /// fails, the watermark stays where it was, and the whole run is
    /// safely retried later.
    pub fn publish_failed(&mut self)
        requires
            old(self).wf(),
            old(self).spec_phase() == RunPhase::Publishing,
        ensures
            final(self).wf(),
            final(self).spec_phase() == RunPhase::Failed,
            final(self).spec_published() == old(self).spec_published(),
            final(self).spec_watermark() == old(self).spec_watermark(),
    {
        self.phase = RunPhase::Failed;
    }

    /// Where the run stands.
    pub fn phase(&self) -> (r: RunPhase)
        ensures
            r == self.spec_phase(),
    {
        self.phase
    }

    /// The run's current watermark.
    pub fn watermark(&self) -> (r: &String)
        ensures
            r@ == self.spec_watermark(),
    {
        &self.watermark
    }

    /// How many entries the run has published.
    pub fn published_count(&self) -> (r: usize)
        ensures
            r == self.spec_pos(),
    {
        self.pos
    }

    /// How many backlog entries the run selected.
    pub fn backlog_len(&self) -> (r: usize)
        ensures
            r == self.spec_backlog_len(),
    {
        self.backlog.len()
    }

    /// The identifier of the entry the run currently works on.
    pub fn current_guid(&self) -> (r: &String)
        requires
            self.wf(),
            self.spec_phase() == RunPhase::Mirroring || self.spec_phase() == RunPhase::Publishing,
        ensures
            r@ == self.spec_current().guid,
    {
        let f = match &self.feed {
            Some(f) => f,
            None => {
                proof {
                    assert(false);
                }
                unreached()
            },
        };
        let e = &f.entries[self.backlog[self.pos]];
        proof {
            assert(e@ == self.spec_current());
        }
        &e.guid
    }
}

/// In a mirroring or publishing state the run works on exactly the
/// backlog entry at its position: the identifier sequence is as long as
/// the backlog, and the current entry carries the identifier recorded
/// there.
pub proof fn lemma_current_is_backlog_at_pos(r: SyncRun)
    requires
        r.wf(),
        r.spec_phase() == RunPhase::Mirroring || r.spec_phase() == RunPhase::Publishing,
    ensures
        r.spec_backlog_guids().len() == r.spec_backlog_len(),
        r.spec_pos() < r.spec_backlog_len(),
        r.spec_current().guid == r.spec_backlog_guids()[r.spec_pos() as int],
{
}

/// Publication order: in every reachable run state the identifiers
/// already published are strictly ascending — of two backlog entries
/// `A < B`, `B`'s commit is never observed before `A`'s.
pub proof fn lemma_publish_order(r: SyncRun, i: int, j: int)
    requires
        r.wf(),
        0 <= i < j < r.spec_published().len(),
    ensures
        lex_lt(r.spec_published()[i], r.spec_published()[j]),
{
}

/// The first feed index carrying `guid`, if any.
fn find_index_by_guid(f: &Feed, guid: &str) -> (r: Option<usize>)
    ensures
        match r {
            Some(i) => (i as int) < f@.len() && f@[i as int].guid == guid@ && forall|q: int|
                0 <= q < i ==> (#[trigger] f@[q].guid) != guid@,
            None => !feed_has_guid(f@, guid@),
        },
{
    let n = f.entries.len();
    let mut i: usize = 0;
    while i < n
        invariant
            i <= n,
            n == f.entries@.len(),
            forall|q: int| 0 <= q < i ==> (#[trigger] f@[q].guid) != guid@,
        decreases n - i,
    {
        let e = &f.entries[i];
        proof {
            assert(f@[i as int] == e@);
        }
        if crate::strutil::str_eq(e.guid.as_str(), guid) {
            return Some(i);
        }
        i = i + 1;
    }
    proof {
        assert forall|k: int| 0 <= k < f@.len() implies (#[trigger] f@[k].guid) != guid@ by {}
    }
    None
}

/// Copy a string.
fn clone_url(s: &String) -> (r: String)
    ensures
        r@ == s@,
{
    s.as_str().to_owned()
}

} // verus!
