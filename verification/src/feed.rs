//! The feed model. A syndication document is parsed (by the `rss` crate,
//! behind trusted wrappers) into raw entries of plain optional values; a
//! verified validation pass keeps exactly the entries that carry everything
//! publication needs, and the diffing functions compute which entries lie
//! beyond a watermark.

use vstd::prelude::*;

use crate::strutil::{
    lemma_lex_lt_connex, lemma_lex_lt_irrefl, lemma_lex_lt_trans, lex_lt, str_eq, str_lt,
};

verus! {

/// The feed document could not be parsed as the expected syndication
/// format.
#[derive(Clone, Copy, PartialEq, Eq, Structural, Debug)]
pub struct MalformedFeed;

// ---------------------------------------------------------------------------
// Model types
// ---------------------------------------------------------------------------

/// One media reference of an entry: source URL, mime type, and the textual
/// description (empty where the feed carries none).
#[derive(Debug)]
pub struct MediaRef {
    pub url: String,
    pub mime_type: String,
    pub description: String,
}

/// The abstract value of a [`MediaRef`].
pub struct MediaVal {
    pub url: Seq<char>,
    pub mime_type: Seq<char>,
    pub description: Seq<char>,
}

impl View for MediaRef {
    type V = MediaVal;

    open spec fn view(&self) -> MediaVal {
        MediaVal { url: self.url@, mime_type: self.mime_type@, description: self.description@ }
    }
}

/// One feed entry with every attribute publication needs.
#[derive(Debug)]
pub struct Entry {
    /// Unique identifier, totally ordered by string comparison.
    pub guid: String,
    /// Publish timestamp, as RFC 2822 text.
    pub pub_date: String,
    /// Permalink of the entry.
    pub link: String,
    /// Body text, possibly with embedded markup.
    pub description: String,
    /// Attached media, in feed order.
    pub medias: Vec<MediaRef>,
}

/// The abstract value of an [`Entry`].
pub struct EntryVal {
    pub guid: Seq<char>,
    pub pub_date: Seq<char>,
    pub link: Seq<char>,
    pub description: Seq<char>,
    pub medias: Seq<MediaVal>,
}

impl View for Entry {
    type V = EntryVal;

    open spec fn view(&self) -> EntryVal {
        EntryVal {
            guid: self.guid@,
            pub_date: self.pub_date@,
            link: self.link@,
            description: self.description@,
            medias: self.medias@.map_values(|m: MediaRef| m@),
        }
    }
}

/// An ordered collection of validated feed entries.
#[derive(Debug)]
pub struct Feed {
    pub entries: Vec<Entry>,
}

impl View for Feed {
    type V = Seq<EntryVal>;

    open spec fn view(&self) -> Seq<EntryVal> {
        self.entries@.map_values(|e: Entry| e@)
    }
}

// ---------------------------------------------------------------------------
// Raw entries, as the parser hands them over
// ---------------------------------------------------------------------------

/// A media reference as parsed, before validation.
#[derive(Debug)]
pub struct RawMedia {
    pub url: Option<String>,
    pub mime_type: Option<String>,
    pub description: Option<String>,
}

/// An entry as parsed, before validation.
#[derive(Debug)]
pub struct RawEntry {
    pub guid: Option<String>,
    pub pub_date: Option<String>,
    pub link: Option<String>,
    pub description: Option<String>,
    pub medias: Vec<RawMedia>,
}

/// A raw media reference that carries both attributes publication reads.
pub open spec fn media_ok(m: RawMedia) -> bool {
    m.url is Some && m.mime_type is Some
}

/// A raw entry that carries every attribute publication reads. An entry
/// that fails this is not an error: it is silently excluded as
/// not-yet-safe-to-publish.
pub open spec fn entry_ok(e: RawEntry) -> bool {
    &&& e.guid is Some
    &&& e.pub_date is Some
    &&& e.link is Some
    &&& e.description is Some
    &&& forall|i: int| 0 <= i < e.medias@.len() ==> media_ok(#[trigger] e.medias@[i])
}

/// The abstract value a valid raw media reference validates to.
pub open spec fn raw_media_val(m: RawMedia) -> MediaVal {
    MediaVal {
        url: m.url->0@,
        mime_type: m.mime_type->0@,
        description: match m.description {
            Some(d) => d@,
            None => Seq::empty(),
        },
    }
}

/// The abstract value a valid raw entry validates to.
pub open spec fn raw_entry_val(e: RawEntry) -> EntryVal {
    EntryVal {
        guid: e.guid->0@,
        pub_date: e.pub_date->0@,
        link: e.link->0@,
        description: e.description->0@,
        medias: e.medias@.map_values(|m: RawMedia| raw_media_val(m)),
    }
}

/// The subsequence of valid raw entries, in order, as abstract values.
pub open spec fn spec_valid_entries(raw: Seq<RawEntry>) -> Seq<EntryVal>
    decreases raw.len(),
{
    if raw.len() == 0 {
        Seq::empty()
    } else if entry_ok(raw[0]) {
        seq![raw_entry_val(raw[0])] + spec_valid_entries(raw.skip(1))
    } else {
        spec_valid_entries(raw.skip(1))
    }
}

// ---------------------------------------------------------------------------
// Trusted wrappers over the rss crate
// ---------------------------------------------------------------------------

#[verifier::external_type_specification]
#[verifier::external_body]
pub struct ExItem(rss::Item);

#[verifier::external_type_specification]
#[verifier::external_body]
pub struct ExExtension(rss::extension::Extension);

/// The raw entries the rss parser yields for a document, in document
/// order, or `None` where the document is not the expected syndication
/// format. Parsing depends on the text alone.
pub uninterp spec fn rss_raw_entries(doc: Seq<char>) -> Option<Seq<RawEntry>>;

/// Relies on `rss::Channel::read_from` and `rss::Channel::items`: parses
/// a syndication document, rejecting text that is not one, and reads one
/// raw entry per item, in document order. The result is a function of
/// the document alone.
#[verifier::external_body]
fn parse_raw(doc: &str) -> (r: Result<Vec<RawEntry>, MalformedFeed>)
    ensures
        match rss_raw_entries(doc@) {
            Some(raws) => r matches Ok(v) && v@ == raws,
            None => r is Err,
        },
{
    let ch = match rss::Channel::read_from(doc.as_bytes()) {
        Ok(ch) => ch,
        Err(_) => return Err(MalformedFeed),
    };
    Ok(ch.items().iter().map(raw_entry_of).collect())
}

/// Relies on `rss::Item::guid`: the item's guid value, if any.
#[verifier::external_body]
fn item_guid(item: &rss::Item) -> (r: Option<String>)
{
    item.guid().map(|g| g.value.clone())
}

/// Relies on `rss::Item::pub_date`: the item's publish date text, if any.
#[verifier::external_body]
fn item_pub_date(item: &rss::Item) -> (r: Option<String>)
{
    item.pub_date().map(|s| s.to_owned())
}

/// Relies on `rss::Item::link`: the item's permalink, if any.
#[verifier::external_body]
fn item_link(item: &rss::Item) -> (r: Option<String>)
{
    item.link().map(|s| s.to_owned())
}

/// Relies on `rss::Item::description`: the item's body text, if any.
#[verifier::external_body]
fn item_description(item: &rss::Item) -> (r: Option<String>)
{
    item.description().map(|s| s.to_owned())
}

/// Relies on `rss::Item::extensions`: the extension elements filed under
/// namespace `ns` and element name `elem` (empty where there are none).
#[verifier::external_body]
fn item_extension_elements(item: &rss::Item, ns: &str, elem: &str) -> (r: Vec<
    rss::extension::Extension,
>)
{
    match item.extensions().get(ns) {
        Some(by_name) => match by_name.get(elem) {
            Some(elems) => elems.clone(),
            None => Vec::new(),
        },
        None => Vec::new(),
    }
}

/// Relies on `rss::extension::Extension::attrs`: the value of attribute
/// `key`, if present.
#[verifier::external_body]
fn extension_attr(ext: &rss::extension::Extension, key: &str) -> (r: Option<String>)
{
    ext.attrs().get(key).cloned()
}

/// Relies on `rss::extension::Extension::children`: the text content of the
/// first child element named `key`, if present.
#[verifier::external_body]
fn extension_first_child_value(ext: &rss::extension::Extension, key: &str) -> (r: Option<String>)
{
    ext.children().get(key).and_then(|v| v.first()).and_then(|c| c.value.clone())
}

// ---------------------------------------------------------------------------
// Parsing
// ---------------------------------------------------------------------------

/// Read one raw media reference from a media extension element.
fn raw_media_of(ext: &rss::extension::Extension) -> RawMedia {
    RawMedia {
        url: extension_attr(ext, "url"),
        mime_type: extension_attr(ext, "type"),
        description: extension_first_child_value(ext, "description"),
    }
}

/// Read one raw entry from a feed item, with its media extension elements
/// in document order.
fn raw_entry_of(item: &rss::Item) -> RawEntry {
    let exts = item_extension_elements(item, "media", "content");
    let mut medias: Vec<RawMedia> = Vec::new();
    let mut i: usize = 0;
    while i < exts.len()
        decreases exts.len() - i,
    {
        medias.push(raw_media_of(&exts[i]));
        i = i + 1;
    }
    RawEntry {
        guid: item_guid(item),
        pub_date: item_pub_date(item),
        link: item_link(item),
        description: item_description(item),
        medias,
    }
}

/// Parse a feed document into raw entries, in document order: exactly
/// the entries the rss parser yields, failing exactly where the document
/// is not the expected format. The verified validation pass below
/// handles every possible value of them.
pub fn parse_items(doc: &str) -> (r: Result<Vec<RawEntry>, MalformedFeed>)
    ensures
        match rss_raw_entries(doc@) {
            Some(raws) => r matches Ok(v) && v@ == raws,
            None => r is Err,
        },
{
    parse_raw(doc)
}

impl Feed {
    /// Parse a feed document into its publishable entries: succeeds if
    /// and only if the document parses as the expected syndication
    /// format, and then holds exactly the raw entries the parser
    /// yields, validated in order.
    pub fn parse(doc: &str) -> (r: Result<Feed, MalformedFeed>)
        ensures
            match rss_raw_entries(doc@) {
                Some(raws) => r matches Ok(f) && f@ == spec_valid_entries(raws),
                None => r is Err,
            },
    {
        match parse_items(doc) {
            Ok(raw) => Ok(Feed::from_raw(raw)),
            Err(e) => Err(e),
        }
    }

    /// Keep exactly the raw entries that carry everything publication
    /// needs, in order.
    pub fn from_raw(raw: Vec<RawEntry>) -> (f: Feed)
        ensures
            f@ == spec_valid_entries(raw@),
    {
        let mut entries: Vec<Entry> = Vec::new();
        let n = raw.len();
        let ghost all = raw@;
        let mut it = raw;
        let mut i: usize = 0;
        proof {
            assert(all.skip(0) =~= all);
        }
        while i < n
            invariant
                i <= n,
                n == all.len(),
                it@ == all,
                spec_valid_entries(all) =~= entries@.map_values(|e: Entry| e@)
                    + spec_valid_entries(all.skip(i as int)),
            decreases n - i,
        {
            let ghost before = entries@;
            let e = &it[i];
            let valid = match (&e.guid, &e.pub_date, &e.link, &e.description) {
                (Some(_), Some(_), Some(_), Some(_)) => {
                    let mut ok = true;
                    let mut j: usize = 0;
                    while j < e.medias.len()
                        invariant
                            j <= e.medias@.len(),
                            ok == forall|k: int|
                                0 <= k < j ==> media_ok(#[trigger] e.medias@[k]),
                        decreases e.medias@.len() - j,
                    {
                        let m = &e.medias[j];
                        if m.url.is_none() || m.mime_type.is_none() {
                            ok = false;
                        }
                        j = j + 1;
                    }
                    ok
                },
                _ => false,
            };
            proof {
                assert(valid == entry_ok(all[i as int]));
            }
            if valid {
                let raw_e = extract_entry(&it[i]);
                proof {
                    assert(raw_e@ == raw_entry_val(all[i as int]));
                }
                entries.push(raw_e);
                proof {
                    assert(entries@.map_values(|e: Entry| e@) =~= before.map_values(
                        |e: Entry| e@,
                    ) + seq![raw_entry_val(all[i as int])]);
                }
            }
            proof {
                assert(all.skip(i as int)[0] == all[i as int]);
                assert(all.skip(i as int).skip(1) =~= all.skip(i + 1));
            }
            i = i + 1;
        }
        proof {
            assert(all.skip(n as int).len() == 0);
            assert(spec_valid_entries(all.skip(n as int)) =~= Seq::<EntryVal>::empty());
        }
        Feed { entries }
    }
}

/// Copy a valid raw entry into an owned [`Entry`].
fn extract_entry(e: &RawEntry) -> (r: Entry)
    requires
        entry_ok(*e),
    ensures
        r@ == raw_entry_val(*e),
{
    let guid = match &e.guid {
        Some(g) => clone_string(g),
        None => String::new(),
    };
    let pub_date = match &e.pub_date {
        Some(d) => clone_string(d),
        None => String::new(),
    };
    let link = match &e.link {
        Some(l) => clone_string(l),
        None => String::new(),
    };
    let description = match &e.description {
        Some(d) => clone_string(d),
        None => String::new(),
    };
    let mut medias: Vec<MediaRef> = Vec::new();
    let mut i: usize = 0;
    while i < e.medias.len()
        invariant
            entry_ok(*e),
            i <= e.medias@.len(),
            medias@.map_values(|m: MediaRef| m@) =~= e.medias@.take(i as int).map_values(
                |m: RawMedia| raw_media_val(m),
            ),
        decreases e.medias@.len() - i,
    {
        let ghost before = medias@;
        let m = &e.medias[i];
        let url = match &m.url {
            Some(u) => clone_string(u),
            None => String::new(),
        };
        let mime_type = match &m.mime_type {
            Some(t) => clone_string(t),
            None => String::new(),
        };
        let description = match &m.description {
            Some(d) => clone_string(d),
            None => String::new(),
        };
        medias.push(MediaRef { url, mime_type, description });
        proof {
            assert(medias@.map_values(|m: MediaRef| m@) =~= before.map_values(|m: MediaRef| m@)
                + seq![raw_media_val(e.medias@[i as int])]);
            assert(e.medias@.take(i + 1).map_values(|m: RawMedia| raw_media_val(m))
                =~= e.medias@.take(i as int).map_values(|m: RawMedia| raw_media_val(m))
                + seq![raw_media_val(e.medias@[i as int])]);
        }
        i = i + 1;
    }
    proof {
        assert(e.medias@.take(e.medias@.len() as int) =~= e.medias@);
    }
    Entry { guid, pub_date, link, description, medias }
}

/// Copy a string.
fn clone_string(s: &String) -> (r: String)
    ensures
        r@ == s@,
{
    s.as_str().to_owned()
}

// ---------------------------------------------------------------------------
// Diffing against a watermark
// ---------------------------------------------------------------------------

/// Some entry of `s` carries the identifier `g`.
pub open spec fn feed_has_guid(s: Seq<EntryVal>, g: Seq<char>) -> bool {
    exists|k: int| 0 <= k < s.len() && #[trigger] s[k].guid == g
}

/// Some string of `r` reads `g`.
pub open spec fn contains_str(r: Seq<String>, g: Seq<char>) -> bool {
    exists|i: int| 0 <= i < r.len() && #[trigger] r[i]@ == g
}

/// The strings of `r` are strictly ascending under `lex_lt` (which also
/// means no string occurs twice).
pub open spec fn sorted_strict(r: Seq<String>) -> bool {
    forall|i: int, j: int| 0 <= i < j < r.len() ==> lex_lt(#[trigger] r[i]@, #[trigger] r[j]@)
}

/// The first entry of `s` carrying identifier `g`, if any.
pub open spec fn spec_find_guid(s: Seq<EntryVal>, g: Seq<char>) -> Option<EntryVal>
    decreases s.len(),
{
    if s.len() == 0 {
        None
    } else if s[0].guid == g {
        Some(s[0])
    } else {
        spec_find_guid(s.skip(1), g)
    }
}

/// Insert `g` into the strictly sorted `v`, keeping it strictly sorted;
/// a string already present is left alone.
fn insert_sorted(v: &mut Vec<String>, g: String)
    requires
        sorted_strict(old(v)@),
    ensures
        sorted_strict(final(v)@),
        forall|x: Seq<char>| contains_str(final(v)@, x) <==> contains_str(old(v)@, x) || x == g@,
{
    let mut idx: usize = 0;
    loop
        invariant
            idx <= v@.len(),
            v@ == old(v)@,
            forall|k: int| 0 <= k < idx ==> lex_lt(#[trigger] v@[k]@, g@),
        ensures
            idx <= v@.len(),
            v@ == old(v)@,
            forall|k: int| 0 <= k < idx ==> lex_lt(#[trigger] v@[k]@, g@),
            idx < v@.len() ==> !lex_lt(v@[idx as int]@, g@),
        decreases v@.len() - idx,
    {
        if idx >= v.len() {
            break ;
        }
        let cur = &v[idx];
        if !str_lt(cur.as_str(), g.as_str()) {
            break ;
        }
        idx = idx + 1;
    }
    if idx < v.len() {
        let cur = &v[idx];
        if str_eq(cur.as_str(), g.as_str()) {
            proof {
                assert(contains_str(v@, g@)) by {
                    assert(v@[idx as int]@ == g@);
                }
                assert(forall|x: Seq<char>|
                    contains_str(v@, x) <==> contains_str(old(v)@, x) || x == g@);
            }
            return ;
        }
        proof {
            assert(!lex_lt(v@[idx as int]@, g@));
            assert(v@[idx as int]@ != g@);
            lemma_lex_lt_connex_or(g@, v@[idx as int]@);
        }
    }
    let ghost before = v@;
    let ghost gs = g@;
    v.insert(idx, g);
    proof {
        let after = v@;
        assert(after == before.insert(idx as int, g));
        // strict sortedness of the result
        assert forall|i: int, j: int| 0 <= i < j < after.len() implies lex_lt(
            after[i]@,
            after[j]@,
        ) by {
            let iv = if i < idx {
                before[i]
            } else if i == idx {
                g
            } else {
                before[i - 1]
            };
            assert(after[i] == iv);
            let jv = if j < idx {
                before[j]
            } else if j == idx {
                g
            } else {
                before[j - 1]
            };
            assert(after[j] == jv);
            if i < idx && j == idx {
                assert(lex_lt(before[i]@, gs));
            } else if i == idx {
                assert(j > idx);
                if idx < before.len() {
                    assert(lex_lt(gs, before[idx as int]@));
                    if j - 1 > idx {
                        lemma_lex_lt_trans(gs, before[idx as int]@, before[j - 1]@);
                    }
                }
            } else if i < idx && j > idx {
                assert(lex_lt(before[i]@, before[j - 1]@));
            }
        }
        // membership of the result
        assert forall|x: Seq<char>| contains_str(after, x) implies contains_str(before, x) || x
            == gs by {
            let i = choose|i: int| 0 <= i < after.len() && after[i]@ == x;
            if i < idx {
                assert(before[i]@ == x);
            } else if i > idx {
                assert(before[i - 1]@ == x);
            }
        }
        assert forall|x: Seq<char>| contains_str(before, x) || x == gs implies contains_str(
            after,
            x,
        ) by {
            if x == gs {
                assert(after[idx as int]@ == x);
            } else {
                let i = choose|i: int| 0 <= i < before.len() && before[i]@ == x;
                if i < idx {
                    assert(after[i]@ == x);
                } else {
                    assert(after[i + 1]@ == x);
                }
            }
        }
    }
}

/// Where neither string is below the other, they are equal; so two unequal
/// strings compare strictly one way.
proof fn lemma_lex_lt_connex_or(a: Seq<char>, b: Seq<char>)
    requires
        a != b,
    ensures
        lex_lt(a, b) || lex_lt(b, a),
{
    if !lex_lt(a, b) && !lex_lt(b, a) {
        lemma_lex_lt_connex(a, b);
    }
}

impl Feed {
    /// All identifiers in the feed lexically greater than `from`, sorted
    /// ascending, without duplicates.
    pub fn find_next_guids(&self, from: &str) -> (r: Vec<String>)
        ensures
            sorted_strict(r@),
            forall|i: int, j: int|
                0 <= i < r@.len() && 0 <= j < r@.len() && i != j ==> #[trigger] r@[i]@
                    != #[trigger] r@[j]@,
            forall|i: int|
                0 <= i < r@.len() ==> lex_lt(from@, #[trigger] r@[i]@) && feed_has_guid(
                    self@,
                    r@[i]@,
                ),
            forall|k: int|
                0 <= k < self@.len() && lex_lt(from@, #[trigger] self@[k].guid) ==> contains_str(
                    r@,
                    self@[k].guid,
                ),
    {
        let mut r: Vec<String> = Vec::new();
        let n = self.entries.len();
        let mut i: usize = 0;
        while i < n
            invariant
                i <= n,
                n == self.entries@.len(),
                sorted_strict(r@),
                forall|p: int|
                    0 <= p < r@.len() ==> lex_lt(from@, #[trigger] r@[p]@) && feed_has_guid(
                        self@,
                        r@[p]@,
                    ),
                forall|k: int|
                    0 <= k < i && lex_lt(from@, #[trigger] self@[k].guid) ==> contains_str(
                        r@,
                        self@[k].guid,
                    ),
            decreases n - i,
        {
            let e = &self.entries[i];
            proof {
                assert(self@[i as int] == e@);
            }
            if str_lt(from, e.guid.as_str()) {
                let g = clone_string(&e.guid);
                proof {
                    assert(feed_has_guid(self@, g@)) by {
                        assert(self@[i as int].guid == g@);
                    }
                }
                let ghost prev = r@;
                insert_sorted(&mut r, g);
                proof {
                    assert forall|p: int| 0 <= p < r@.len() implies lex_lt(
                        from@,
                        #[trigger] r@[p]@,
                    ) && feed_has_guid(self@, r@[p]@) by {
                        let x = r@[p]@;
                        assert(contains_str(r@, x)) by {
                            assert(r@[p]@ == x);
                        }
                        if contains_str(prev, x) {
                            let q = choose|q: int| 0 <= q < prev.len() && prev[q]@ == x;
                            assert(lex_lt(from@, prev[q]@) && feed_has_guid(self@, prev[q]@));
                        }
                    }
                }
            }
            i = i + 1;
        }
        proof {
            assert forall|p: int, q: int|
                0 <= p < r@.len() && 0 <= q < r@.len() && p != q implies #[trigger] r@[p]@
                != #[trigger] r@[q]@ by {
                if r@[p]@ == r@[q]@ {
                    lemma_lex_lt_irrefl(r@[p]@);
                    if p < q {
                        assert(lex_lt(r@[p]@, r@[q]@));
                    } else {
                        assert(lex_lt(r@[q]@, r@[p]@));
                    }
                }
            }
        }
        r
    }

    /// The first identifier in the feed lexically greater than `from`, if
    /// any: the least such identifier.
    pub fn find_next_guid(&self, from: &str) -> (r: Option<String>)
        ensures
            match r {
                Some(g) => {
                    &&& lex_lt(from@, g@)
                    &&& feed_has_guid(self@, g@)
                    &&& forall|k: int|
                        0 <= k < self@.len() && lex_lt(from@, #[trigger] self@[k].guid) ==> self@[
                            k
                        ].guid == g@ || lex_lt(g@, self@[k].guid)
                },
                None => forall|k: int|
                    0 <= k < self@.len() ==> !lex_lt(from@, #[trigger] self@[k].guid),
            },
    {
        let mut next = self.find_next_guids(from);
        if next.len() == 0 {
            proof {
                assert forall|k: int|
                    0 <= k < self@.len() implies !lex_lt(from@, #[trigger] self@[k].guid) by {
                    if lex_lt(from@, self@[k].guid) {
                        assert(contains_str(next@, self@[k].guid));
                    }
                }
            }
            return None;
        }
        let ghost all = next@;
        let mut rest = next.split_off(1);
        let g = match next.pop() {
            Some(g) => g,
            None => {
                proof {
                    assert(false);
                }
                String::new()
            },
        };
        proof {
            assert(g@ == all[0]@);
            assert forall|k: int|
                0 <= k < self@.len() && lex_lt(from@, #[trigger] self@[k].guid) implies self@[
                k
            ].guid == g@ || lex_lt(g@, self@[k].guid) by {
                assert(contains_str(all, self@[k].guid));
                let i = choose|i: int| 0 <= i < all.len() && all[i]@ == self@[k].guid;
                if i > 0 {
                    assert(lex_lt(all[0]@, all[i]@));
                }
            }
        }
        Some(g)
    }

    /// The first entry carrying `guid`, if any.
    pub fn find_by_guid(&self, guid: &str) -> (r: Option<&Entry>)
        ensures
            match r {
                Some(e) => spec_find_guid(self@, guid@) == Some(e@),
                None => spec_find_guid(self@, guid@) is None,
            },
    {
        let n = self.entries.len();
        let mut i: usize = 0;
        proof {
            assert(self@.skip(0) =~= self@);
        }
        while i < n
            invariant
                i <= n,
                n == self.entries@.len(),
                spec_find_guid(self@, guid@) == spec_find_guid(self@.skip(i as int), guid@),
            decreases n - i,
        {
            let e = &self.entries[i];
            proof {
                assert(self@.skip(i as int)[0] == self@[i as int]);
                assert(self@.skip(i as int).skip(1) =~= self@.skip(i + 1));
            }
            if str_eq(e.guid.as_str(), guid) {
                proof {
                    assert(self@[i as int] == e@);
                }
                return Some(e);
            }
            i = i + 1;
        }
        proof {
            assert(self@.skip(n as int).len() == 0);
        }
        None
    }
}

} // verus!
