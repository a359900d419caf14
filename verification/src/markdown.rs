//! Deterministic rendering of one entry into a markdown document: a
//! header block of literal fields, the body text unmodified, then one
//! rendering per media reference in original order. Same entry, same
//! media paths, same instance label — byte-identical output.

use vstd::prelude::*;

use crate::date::{
    parse_rfc2822, rfc2822_date, spec_filename_date, spec_formal_date, spec_title_date, Date,
    DateParseError, format_formal_date, format_title_date, format_filename_date,
};
use crate::download::LocalMedia;
use crate::feed::{Entry, EntryVal, MediaRef, MediaVal};
use crate::strutil::{spec_replace, spec_starts_with, replace_all, str_starts_with};

verus! {

// ---------------------------------------------------------------------------
// Media URL rewriting
// ---------------------------------------------------------------------------

/// A remote media URL rewritten to a site-relative path.
pub open spec fn spec_truncate(u: Seq<char>) -> Seq<char> {
    spec_replace(u, "https://files."@, "/"@)
}

/// Rewrite a remote media URL into a site-relative path by truncating the
/// file-host prefix, wherever it occurs.
pub fn truncate_media_url(url: &str) -> (r: String)
    ensures
        r@ == spec_truncate(url@),
{
    proof {
        reveal_strlit("https://files.");
    }
    replace_all(url, "https://files.", "/")
}

impl LocalMedia {
    /// The URL side rewritten to site-relative paths, byte side kept.
    pub fn apply_truncate(&self) -> (r: LocalMedia)
        ensures
            r.spec_contents() == self.spec_contents(),
            r.spec_urls() == self.spec_urls().map_values(|u: Seq<char>| spec_truncate(u)),
    {
        self.apply(truncate_media_url, Ghost(|u: Seq<char>| spec_truncate(u)))
    }

    /// Every URL prefixed with a deployment path prefix, byte side kept.
    pub fn apply_prefix(&self, prefix: &str) -> (r: LocalMedia)
        ensures
            r.spec_contents() == self.spec_contents(),
            r.spec_urls() == self.spec_urls().map_values(|u: Seq<char>| prefix@ + u),
    {
        let f = |u: &str| -> (out: String)
            ensures
                out@ == prefix@ + u@,
            {
                let mut s = prefix.to_owned();
                s.append(u);
                s
            };
        self.apply(f, Ghost(|u: Seq<char>| prefix@ + u))
    }
}

// ---------------------------------------------------------------------------
// Rendering one media reference
// ---------------------------------------------------------------------------

/// The rendering of one media reference at its resolved path: an embedded
/// player for video mime types, an image line otherwise.
pub open spec fn spec_media_markdown(m: MediaVal, path: Seq<char>) -> Seq<char> {
    if spec_starts_with(m.mime_type, "video/"@) {
        "<video height='720' controls=''><source src='"@ + path + "' type='"@ + m.mime_type
            + "'><p>"@ + m.description + "</p></video>"@
    } else {
        "!["@ + m.description + "]("@ + path + ")\n"@
    }
}

fn to_markdown_media(media: &MediaRef, path: &str) -> (r: String)
    ensures
        r@ == spec_media_markdown(media@, path@),
{
    let mut out = String::new();
    if str_starts_with(media.mime_type.as_str(), "video/") {
        out.append("<video height='720' controls=''><source src='");
        out.append(path);
        out.append("' type='");
        out.append(media.mime_type.as_str());
        out.append("'><p>");
        out.append(media.description.as_str());
        out.append("</p></video>");
    } else {
        out.append("![");
        out.append(media.description.as_str());
        out.append("](");
        out.append(path);
        out.append(")\n");
    }
    proof {
        assert(out@ =~= spec_media_markdown(media@, path@));
    }
    out
}

// ---------------------------------------------------------------------------
// Rendering the media section
// ---------------------------------------------------------------------------

/// The renderings of all media references, in order, joined by newlines.
pub open spec fn spec_media_section(ms: Seq<MediaVal>, ps: Seq<Seq<char>>) -> Seq<char>
    decreases ms.len(),
{
    if ms.len() == 0 {
        Seq::empty()
    } else if ms.len() == 1 {
        spec_media_markdown(ms[0], ps[0])
    } else {
        spec_media_markdown(ms[0], ps[0]) + "\n"@ + spec_media_section(ms.skip(1), ps.skip(1))
    }
}

proof fn lemma_media_section_push(ms: Seq<MediaVal>, ps: Seq<Seq<char>>, m: MediaVal, p: Seq<char>)
    requires
        ms.len() == ps.len(),
    ensures
        spec_media_section(ms.push(m), ps.push(p)) == spec_media_section(ms, ps) + (if ms.len()
            == 0 {
            Seq::<char>::empty()
        } else {
            "\n"@
        }) + spec_media_markdown(m, p),
    decreases ms.len(),
{
    if ms.len() == 0 {
        assert(ms.push(m)[0] == m);
        assert(ps.push(p)[0] == p);
        assert(spec_media_section(ms.push(m), ps.push(p)) =~= spec_media_section(ms, ps)
            + Seq::<char>::empty() + spec_media_markdown(m, p));
    } else {
        assert(ms.push(m)[0] == ms[0]);
        assert(ps.push(p)[0] == ps[0]);
        assert(ms.push(m).skip(1) =~= ms.skip(1).push(m));
        assert(ps.push(p).skip(1) =~= ps.skip(1).push(p));
        lemma_media_section_push(ms.skip(1), ps.skip(1), m, p);
        if ms.len() == 1 {
            assert(ms.skip(1).len() == 0);
            assert(spec_media_section(ms.push(m), ps.push(p)) =~= spec_media_section(ms, ps)
                + "\n"@ + spec_media_markdown(m, p));
        } else {
            assert(spec_media_section(ms.push(m), ps.push(p)) =~= spec_media_section(ms, ps)
                + "\n"@ + spec_media_markdown(m, p));
        }
    }
}

// ---------------------------------------------------------------------------
// Rendering the whole document
// ---------------------------------------------------------------------------

/// The whole rendered document for entry `e` whose publish timestamp
/// parsed to `d`, with resolved media paths `paths` and instance label
/// `instance`.
pub open spec fn spec_markdown(
    e: EntryVal,
    paths: Seq<Seq<char>>,
    instance: Seq<char>,
    d: Date,
) -> Seq<char> {
    "--\ntitle: "@ + spec_title_date(d) + "\ninstance: "@ + instance + "\ntoot_url: "@ + e.link
        + "\ndate: "@ + spec_formal_date(d) + "\n--\n\n"@ + e.description + "\n\n"@
        + spec_media_section(e.medias, paths)
}

/// Rendering is deterministic: any two renderings of one entry with the
/// same media paths and the same instance label are byte-identical.
pub proof fn lemma_render_deterministic(
    e: EntryVal,
    paths: Seq<Seq<char>>,
    instance: Seq<char>,
    d: Date,
    r1: Seq<char>,
    r2: Seq<char>,
)
    requires
        r1 == spec_markdown(e, paths, instance, d),
        r2 == spec_markdown(e, paths, instance, d),
    ensures
        r1 == r2,
{
}

impl Entry {
    /// Render this entry as a markdown document. `media_paths` resolves
    /// each media reference, in order, to the path written into the
    /// document. Fails exactly when the publish timestamp does not parse.
    pub fn as_markdown(&self, media_paths: &Vec<String>, instance: &str) -> (r: Result<
        String,
        DateParseError,
    >)
        requires
            media_paths@.len() == self@.medias.len(),
        ensures
            match rfc2822_date(self@.pub_date) {
                Some(d) => r matches Ok(s) && s@ == spec_markdown(
                    self@,
                    media_paths@.map_values(|p: String| p@),
                    instance@,
                    d,
                ),
                None => r is Err,
            },
    {
        let d = match parse_rfc2822(self.pub_date.as_str()) {
            Ok(d) => d,
            Err(e) => {
                return Err(e);
            },
        };
        let ghost ms = self@.medias;
        let ghost ps = media_paths@.map_values(|p: String| p@);
        let mut images = String::new();
        let n = self.medias.len();
        let mut i: usize = 0;
        proof {
            assert(ms.take(0) =~= Seq::<MediaVal>::empty());
            assert(ps.take(0) =~= Seq::<Seq<char>>::empty());
        }
        while i < n
            invariant
                i <= n,
                n == self.medias@.len(),
                ms.len() == n,
                ps.len() == n,
                ms == self@.medias,
                ps == media_paths@.map_values(|p: String| p@),
                media_paths@.len() == n,
                images@ == spec_media_section(ms.take(i as int), ps.take(i as int)),
            decreases n - i,
        {
            if i > 0 {
                images.append("\n");
            }
            let piece = to_markdown_media(&self.medias[i], media_paths[i].as_str());
            images.append(piece.as_str());
            proof {
                assert(ms[i as int] == self.medias@[i as int]@);
                assert(ps[i as int] == media_paths@[i as int]@);
                assert(ms.take(i + 1) =~= ms.take(i as int).push(ms[i as int]));
                assert(ps.take(i + 1) =~= ps.take(i as int).push(ps[i as int]));
                lemma_media_section_push(ms.take(i as int), ps.take(i as int), ms[i as int],
                    ps[i as int]);
            }
            i = i + 1;
        }
        proof {
            assert(ms.take(n as int) =~= ms);
            assert(ps.take(n as int) =~= ps);
        }
        let mut out = String::new();
        out.append("--\ntitle: ");
        let title = format_title_date(&d);
        out.append(title.as_str());
        out.append("\ninstance: ");
        out.append(instance);
        out.append("\ntoot_url: ");
        out.append(self.link.as_str());
        out.append("\ndate: ");
        let formal = format_formal_date(&d);
        out.append(formal.as_str());
        out.append("\n--\n\n");
        out.append(self.description.as_str());
        out.append("\n\n");
        out.append(images.as_str());
        proof {
            assert(out@ =~= spec_markdown(self@, ps, instance@, d));
        }
        Ok(out)
    }
}

/// Render a publish timestamp as the document's human-readable title.
/// Fails exactly when the timestamp does not parse.
pub fn title_date(pub_date: &str) -> (r: Result<String, DateParseError>)
    ensures
        match rfc2822_date(pub_date@) {
            Some(d) => r matches Ok(s) && s@ == spec_title_date(d),
            None => r is Err,
        },
{
    match parse_rfc2822(pub_date) {
        Ok(d) => Ok(format_title_date(&d)),
        Err(e) => Err(e),
    }
}

/// Render a publish timestamp in extended ISO 8601 form with UTC offset,
/// as the document header's `date` field carries it. Fails exactly when
/// the timestamp does not parse.
pub fn formal_date(pub_date: &str) -> (r: Result<String, DateParseError>)
    ensures
        match rfc2822_date(pub_date@) {
            Some(d) => r matches Ok(s) && s@ == spec_formal_date(d),
            None => r is Err,
        },
{
    match parse_rfc2822(pub_date) {
        Ok(d) => Ok(format_formal_date(&d)),
        Err(e) => Err(e),
    }
}

// ---------------------------------------------------------------------------
// Document file name
// ---------------------------------------------------------------------------

/// The file name a rendered document is published under: the publish date
/// as `YYYY-MM-DD`, then `-toot-`, the entry's short identifier, and the
/// markdown suffix.
pub open spec fn spec_post_filename(d: Date, id: Seq<char>) -> Seq<char> {
    spec_filename_date(d) + "-toot-"@ + id + ".md"@
}

/// Derive the document file name from a publish timestamp and a short
/// identifier. Fails exactly when the timestamp does not parse.
pub fn post_filename(pub_date: &str, id: &str) -> (r: Result<String, DateParseError>)
    ensures
        match rfc2822_date(pub_date@) {
            Some(d) => r matches Ok(s) && s@ == spec_post_filename(d, id@),
            None => r is Err,
        },
{
    let d = match parse_rfc2822(pub_date) {
        Ok(d) => d,
        Err(e) => {
            return Err(e);
        },
    };
    let mut out = format_filename_date(&d);
    out.append("-toot-");
    out.append(id);
    out.append(".md");
    proof {
        assert(out@ =~= spec_post_filename(d, id@));
    }
    Ok(out)
}

} // verus!
