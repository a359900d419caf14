//! The publisher's side of the remote store protocol: the exact request
//! payloads for reading the watermark blob, resolving the head commit and
//! committing a batch, and the extraction of what the store's responses
//! carry. Payloads are built by verified code — JSON escaping and base64
//! included in their specification — while the HTTP exchange itself lives
//! outside the library.

use vstd::prelude::*;

use crate::strutil::{digit_char, spec_final_segment, final_segment, push_char};
use vstd::utf8::encode_utf8;

use base64::Engine;

verus! {

/// The remote store rejected a request or answered in an unexpected
/// shape. A rejected commit applies nothing: the store never holds part
/// of a batch.
#[derive(Clone, Copy, PartialEq, Eq, Structural, Debug)]
pub enum PublishError {
    /// A response could not be read as the expected JSON shape.
    MalformedResponse,
    /// The store rejected the commit: a stale head or a refused file.
    Rejected,
}

// ---------------------------------------------------------------------------
// JSON string escaping
// ---------------------------------------------------------------------------

/// The lowercase hex digit for `v % 16`.
pub open spec fn hex_char(v: nat) -> char {
    if v % 16 < 10 {
        digit_char(v % 16)
    } else {
        ((87 + (v % 16)) as u8) as char
    }
}

/// How one character reads inside a JSON string literal: quote, backslash
/// and control characters are escaped (the common ones by letter, the
/// rest as `\u00XX` with lowercase hex), everything else stands as is.
pub open spec fn spec_esc_char(c: char) -> Seq<char> {
    if c == '"' {
        "\\\""@
    } else if c == '\\' {
        "\\\\"@
    } else if c == '\n' {
        "\\n"@
    } else if c == '\r' {
        "\\r"@
    } else if c == '\t' {
        "\\t"@
    } else if c == '\u{8}' {
        "\\b"@
    } else if c == '\u{c}' {
        "\\f"@
    } else if (c as u32) < 32 {
        "\\u00"@ + seq![hex_char(((c as u32) / 16) as nat), hex_char((c as u32) as nat)]
    } else {
        seq![c]
    }
}

/// A whole string as it reads inside a JSON string literal.
pub open spec fn spec_json_escape(s: Seq<char>) -> Seq<char>
    decreases s.len(),
{
    if s.len() == 0 {
        Seq::empty()
    } else {
        spec_json_escape(s.drop_last()) + spec_esc_char(s.last())
    }
}

/// The lowercase hex digit for `v < 16`.
fn hex_of(v: u32) -> (c: char)
    requires
        v < 16,
    ensures
        c == hex_char(v as nat),
{
    if v < 10 {
        ((48 + v) as u8) as char
    } else {
        ((87 + v) as u8) as char
    }
}

/// Append the JSON escape of one character.
fn push_escaped(out: &mut String, c: char)
    ensures
        final(out)@ == old(out)@ + spec_esc_char(c),
{
    if c == '"' {
        out.append("\\\"");
    } else if c == '\\' {
        out.append("\\\\");
    } else if c == '\n' {
        out.append("\\n");
    } else if c == '\r' {
        out.append("\\r");
    } else if c == '\t' {
        out.append("\\t");
    } else if c == '\u{8}' {
        out.append("\\b");
    } else if c == '\u{c}' {
        out.append("\\f");
    } else if (c as u32) < 32 {
        out.append("\\u00");
        let v = c as u32;
        push_char(out, hex_of(v / 16));
        push_char(out, hex_of(v % 16));
        proof {
            assert(final(out)@ =~= old(out)@ + spec_esc_char(c));
        }
    } else {
        push_char(out, c);
    }
}

/// Escape `s` for inclusion in a JSON string literal.
pub fn json_escape(s: &str) -> (r: String)
    ensures
        r@ == spec_json_escape(s@),
{
    let mut out = String::new();
    let len = s.unicode_len();
    let mut i: usize = 0;
    proof {
        assert(s@.take(0) =~= Seq::<char>::empty());
    }
    while i < len
        invariant
            i <= len,
            len == s@.len(),
            out@ == spec_json_escape(s@.take(i as int)),
        decreases len - i,
    {
        let c = s.get_char(i);
        push_escaped(&mut out, c);
        proof {
            assert(s@.take(i + 1).drop_last() =~= s@.take(i as int));
            assert(s@.take(i + 1).last() == s@[i as int]);
        }
        i = i + 1;
    }
    proof {
        assert(s@.take(len as int) =~= s@);
    }
    out
}

// ---------------------------------------------------------------------------
// Base64
// ---------------------------------------------------------------------------

/// The standard base64 alphabet.
pub open spec fn b64_alphabet() -> Seq<char> {
    "ABCDEFGHIJKLMNOPQRSTUVWXYZabcdefghijklmnopqrstuvwxyz0123456789+/"@
}

/// The alphabet character for the six-bit value `v % 64`.
pub open spec fn b64_char(v: nat) -> char {
    b64_alphabet()[(v % 64) as int]
}

/// Standard base64 with `=` padding: three input bytes become four
/// alphabet characters; a final one or two bytes pad to a full quad.
pub open spec fn spec_base64(bytes: Seq<u8>) -> Seq<char>
    decreases bytes.len(),
{
    if bytes.len() == 0 {
        Seq::empty()
    } else if bytes.len() == 1 {
        let b0 = bytes[0] as nat;
        seq![b64_char(b0 / 4), b64_char((b0 % 4) * 16), '=', '=']
    } else if bytes.len() == 2 {
        let b0 = bytes[0] as nat;
        let b1 = bytes[1] as nat;
        seq![b64_char(b0 / 4), b64_char((b0 % 4) * 16 + b1 / 16), b64_char((b1 % 16) * 4), '=']
    } else {
        let b0 = bytes[0] as nat;
        let b1 = bytes[1] as nat;
        let b2 = bytes[2] as nat;
        seq![
            b64_char(b0 / 4),
            b64_char((b0 % 4) * 16 + b1 / 16),
            b64_char((b1 % 16) * 4 + b2 / 64),
            b64_char(b2 % 64),
        ] + spec_base64(bytes.skip(3))
    }
}

/// An input size the encoder accepts without its buffer-size computation
/// overflowing.
pub open spec fn b64_encodable(n: nat) -> bool {
    n < 0x1000000000000000
}

/// Relies on the `base64` crate's `STANDARD` engine: RFC 4648 base64
/// with the standard alphabet and `=` padding.
#[verifier::external_body]
fn base64_encode(data: &[u8]) -> (r: String)
    requires
        b64_encodable(data@.len()),
    ensures
        r@ == spec_base64(data@),
{
    base64::engine::general_purpose::STANDARD.encode(data)
}

// ---------------------------------------------------------------------------
// Content handed to the store
// ---------------------------------------------------------------------------

/// The content of one file is either text rendered in memory or the
/// bytes of a mirrored media object.
#[derive(Debug)]
enum Content {
    Text(String),
    Bytes(Vec<u8>),
}

/// One file of a publish batch: the path inside the repository and the
/// content to store there.
#[derive(Debug)]
pub struct NewContent {
    git_path: String,
    content: Content,
}

impl NewContent {
    /// The repository path the content lands at.
    pub closed spec fn spec_path(&self) -> Seq<char> {
        self.git_path@
    }

    /// The content, as the bytes the store will hold.
    pub closed spec fn spec_content(&self) -> Seq<u8> {
        match self.content {
            Content::Text(s) => encode_utf8(s@),
            Content::Bytes(b) => b@,
        }
    }

    /// Content given directly as bytes: a mirrored media object.
    pub fn path(git_path: &str, data: Vec<u8>) -> (r: NewContent)
        ensures
            r.spec_path() == git_path@,
            r.spec_content() == data@,
    {
        NewContent { git_path: git_path.to_owned(), content: Content::Bytes(data) }
    }

    /// Content given as text: a rendered document or the watermark.
    pub fn text(git_path: &str, s: &str) -> (r: NewContent)
        ensures
            r.spec_path() == git_path@,
            r.spec_content() == encode_utf8(s@),
    {
        NewContent { git_path: git_path.to_owned(), content: Content::Text(s.to_owned()) }
    }

    /// The repository path, for the caller performing the exchange.
    pub fn git_path(&self) -> (r: &String)
        ensures
            r@ == self.spec_path(),
    {
        &self.git_path
    }

    /// The content, as the bytes the store will hold.
    pub fn content_bytes(&self) -> (r: Vec<u8>)
        ensures
            r@ == self.spec_content(),
    {
        match &self.content {
            Content::Text(s) => s.as_str().as_bytes_vec(),
            Content::Bytes(b) => crate::download::clone_bytes(b),
        }
    }

    /// The content's byte count, for the caller checking encoder limits.
    pub fn content_len(&self) -> (r: usize)
        ensures
            r == self.spec_content().len() as usize,
    {
        match &self.content {
            Content::Text(s) => s.as_str().len(),
            Content::Bytes(b) => b.len(),
        }
    }
}

// ---------------------------------------------------------------------------
// Request payloads
// ---------------------------------------------------------------------------

/// The GraphQL query that reads a blob's text at `branch:path` of a
/// repository.
pub open spec fn spec_blob_query() -> Seq<char> {
    "query ($name: String!, $expr: String!) { viewer { repository(name: $name) { object(expression: $expr) { ... on Blob { text } } } } }"@
}

/// The request body that asks for the watermark blob: the blob query with
/// the repository's short name and the `branch:path` expression.
pub open spec fn spec_last_guid_query(
    name: Seq<char>,
    branch: Seq<char>,
    path: Seq<char>,
) -> Seq<char> {
    "{\"query\":\""@ + spec_blob_query() + "\",\"variables\":{\"expr\":\""@ + spec_json_escape(
        branch + ":"@ + path,
    ) + "\",\"name\":\""@ + spec_json_escape(name) + "\"}}"@
}

/// Build the watermark-read request body.
pub fn last_guid_query(name: &str, branch: &str, path: &str) -> (r: String)
    ensures
        r@ == spec_last_guid_query(name@, branch@, path@),
{
    let mut expr = branch.to_owned();
    expr.append(":");
    expr.append(path);
    let mut out = String::new();
    out.append("{\"query\":\"");
    out.append(
        "query ($name: String!, $expr: String!) { viewer { repository(name: $name) { object(expression: $expr) { ... on Blob { text } } } } }",
    );
    out.append("\",\"variables\":{\"expr\":\"");
    let expr_esc = json_escape(expr.as_str());
    out.append(expr_esc.as_str());
    out.append("\",\"name\":\"");
    let name_esc = json_escape(name);
    out.append(name_esc.as_str());
    out.append("\"}}");
    proof {
        assert(out@ =~= spec_last_guid_query(name@, branch@, path@));
    }
    out
}

/// One file of the batch as the commit mutation carries it: its escaped
/// path and its base64-encoded content.
pub open spec fn spec_addition(c: NewContent) -> Seq<char> {
    "{\"path\":\""@ + spec_json_escape(c.spec_path()) + "\",\"contents\":\""@ + spec_base64(
        c.spec_content(),
    ) + "\"}"@
}

/// All files of the batch, in order, joined by commas.
pub open spec fn spec_additions(cs: Seq<NewContent>) -> Seq<char>
    decreases cs.len(),
{
    if cs.len() == 0 {
        Seq::empty()
    } else if cs.len() == 1 {
        spec_addition(cs[0])
    } else {
        spec_addition(cs[0]) + ","@ + spec_additions(cs.skip(1))
    }
}

/// The request body of the atomic commit: one mutation carrying the
/// branch, the commit message, every file of the batch, and the head the
/// commit is conditioned on.
pub open spec fn spec_mutation_payload(
    repo: Seq<char>,
    branch: Seq<char>,
    oid: Seq<char>,
    msg: Seq<char>,
    cs: Seq<NewContent>,
) -> Seq<char> {
    "{\"query\":\"mutation ($input: CreateCommitOnBranchInput!) { createCommitOnBranch(input: $input) { commit { url } } }\",\"variables\":{\"input\":{\"branch\":{\"repositoryNameWithOwner\":\""@
        + spec_json_escape(repo) + "\",\"branchName\":\""@ + spec_json_escape(branch)
        + "\"},\"message\":{\"headline\":\""@ + spec_json_escape(msg)
        + "\"},\"fileChanges\":{\"additions\":["@ + spec_additions(cs)
        + "]},\"expectedHeadOid\":\""@ + spec_json_escape(oid) + "\"}}}"@
}

/// Every content of the batch is small enough to encode.
pub open spec fn batch_encodable(cs: Seq<NewContent>) -> bool {
    forall|i: int| 0 <= i < cs.len() ==> b64_encodable(#[trigger] cs[i].spec_content().len())
}

proof fn lemma_additions_push(cs: Seq<NewContent>, c: NewContent)
    ensures
        spec_additions(cs.push(c)) == spec_additions(cs) + (if cs.len() == 0 {
            Seq::<char>::empty()
        } else {
            ","@
        }) + spec_addition(c),
    decreases cs.len(),
{
    if cs.len() == 0 {
        assert(cs.push(c)[0] == c);
        assert(spec_additions(cs.push(c)) =~= spec_additions(cs) + Seq::<char>::empty()
            + spec_addition(c));
    } else {
        assert(cs.push(c)[0] == cs[0]);
        assert(cs.push(c).skip(1) =~= cs.skip(1).push(c));
        lemma_additions_push(cs.skip(1), c);
        assert(spec_additions(cs.push(c)) =~= spec_additions(cs) + ","@ + spec_addition(c));
    }
}

/// Append the mutation's rendering of one file.
fn push_addition(out: &mut String, c: &NewContent)
    requires
        b64_encodable(c.spec_content().len()),
    ensures
        final(out)@ == old(out)@ + spec_addition(*c),
{
    out.append("{\"path\":\"");
    let path_esc = json_escape(c.git_path.as_str());
    out.append(path_esc.as_str());
    out.append("\",\"contents\":\"");
    let b64 = match &c.content {
        Content::Text(s) => base64_encode(s.as_str().as_bytes()),
        Content::Bytes(b) => base64_encode(b.as_slice()),
    };
    out.append(b64.as_str());
    out.append("\"}");
    proof {
        assert(final(out)@ =~= old(out)@ + spec_addition(*c));
    }
}

/// Build the atomic commit request body for `cs`, conditioned on `oid`.
pub fn mutation_json(
    repo: &str,
    branch: &str,
    oid: &str,
    commit_msg: &str,
    cs: &Vec<NewContent>,
) -> (r: String)
    requires
        batch_encodable(cs@),
    ensures
        r@ == spec_mutation_payload(repo@, branch@, oid@, commit_msg@, cs@),
{
    let mut additions = String::new();
    let n = cs.len();
    let mut i: usize = 0;
    proof {
        assert(cs@.take(0) =~= Seq::<NewContent>::empty());
    }
    while i < n
        invariant
            i <= n,
            n == cs@.len(),
            batch_encodable(cs@),
            additions@ == spec_additions(cs@.take(i as int)),
        decreases n - i,
    {
        if i > 0 {
            additions.append(",");
        }
        push_addition(&mut additions, &cs[i]);
        proof {
            assert(cs@.take(i + 1) =~= cs@.take(i as int).push(cs@[i as int]));
            lemma_additions_push(cs@.take(i as int), cs@[i as int]);
        }
        i = i + 1;
    }
    proof {
        assert(cs@.take(n as int) =~= cs@);
    }
    let mut out = String::new();
    out.append(
        "{\"query\":\"mutation ($input: CreateCommitOnBranchInput!) { createCommitOnBranch(input: $input) { commit { url } } }\",\"variables\":{\"input\":{\"branch\":{\"repositoryNameWithOwner\":\"",
    );
    let repo_esc = json_escape(repo);
    out.append(repo_esc.as_str());
    out.append("\",\"branchName\":\"");
    let branch_esc = json_escape(branch);
    out.append(branch_esc.as_str());
    out.append("\"},\"message\":{\"headline\":\"");
    let msg_esc = json_escape(commit_msg);
    out.append(msg_esc.as_str());
    out.append("\"},\"fileChanges\":{\"additions\":[");
    out.append(additions.as_str());
    out.append("]},\"expectedHeadOid\":\"");
    let oid_esc = json_escape(oid);
    out.append(oid_esc.as_str());
    out.append("\"}}}");
    proof {
        assert(out@ =~= spec_mutation_payload(repo@, branch@, oid@, commit_msg@, cs@));
    }
    out
}

// ---------------------------------------------------------------------------
// Responses
// ---------------------------------------------------------------------------

/// The string value at a JSON Pointer path of a JSON text, or `None`
/// where the text is not JSON, the path names nothing, or the value
/// there is not a string. A function of the text and the path alone.
pub uninterp spec fn json_text_at(doc: Seq<char>, pointer: Seq<char>) -> Option<Seq<char>>;

/// Whether parsed JSON has a member at a JSON Pointer path, or `None`
/// where the text is not JSON. A function of the text and the path
/// alone.
pub uninterp spec fn json_member_at(doc: Seq<char>, pointer: Seq<char>) -> Option<bool>;

/// Relies on serde_json's `from_str::<Value>`, `Value::pointer` and
/// `Value::as_str`: the string at JSON Pointer `pointer` of `doc`.
#[verifier::external_body]
fn json_string_at(doc: &str, pointer: &str) -> (r: Option<String>)
    ensures
        match json_text_at(doc@, pointer@) {
            Some(t) => r matches Some(s) && s@ == t,
            None => r is None,
        },
{
    let v: serde_json::Value = match serde_json::from_str(doc) {
        Ok(v) => v,
        Err(_) => return None,
    };
    v.pointer(pointer).and_then(|x| x.as_str()).map(|s| s.to_owned())
}

/// Relies on serde_json's `from_str::<Value>` and `Value::pointer`:
/// whether the parsed JSON has a member at `pointer`.
#[verifier::external_body]
fn json_member_present(doc: &str, pointer: &str) -> (r: Option<bool>)
    ensures
        r == json_member_at(doc@, pointer@),
{
    match serde_json::from_str::<serde_json::Value>(doc) {
        Ok(v) => Some(v.pointer(pointer).is_some()),
        Err(_) => None,
    }
}

/// Read the watermark text out of the store's blob response, as the blob
/// query shapes it: the text of the blob, verbatim. An answer without
/// that text is a malformed response.
pub fn watermark_from_blob_response(resp: &str) -> (r: Result<String, PublishError>)
    ensures
        match json_text_at(resp@, "/data/viewer/repository/object/text"@) {
            Some(t) => r matches Ok(w) && w@ == t,
            None => r == Result::<String, PublishError>::Err(PublishError::MalformedResponse),
        },
{
    match json_string_at(resp, "/data/viewer/repository/object/text") {
        Some(text) => Ok(text),
        None => Err(PublishError::MalformedResponse),
    }
}

/// Read the head commit id out of the store's ref response: the `sha` of
/// the ref object, verbatim. An answer without it is a malformed
/// response.
pub fn oid_from_ref_response(resp: &str) -> (r: Result<String, PublishError>)
    ensures
        match json_text_at(resp@, "/object/sha"@) {
            Some(t) => r matches Ok(oid) && oid@ == t,
            None => r == Result::<String, PublishError>::Err(PublishError::MalformedResponse),
        },
{
    match json_string_at(resp, "/object/sha") {
        Some(sha) => Ok(sha),
        None => Err(PublishError::MalformedResponse),
    }
}

/// Judge the store's answer to a commit: success exactly where the
/// answer parses and carries no `errors` member; an answer carrying one
/// is a rejection — the store applied nothing — and an unparsable
/// answer is malformed.
pub fn commit_response_ok(resp: &str) -> (r: Result<(), PublishError>)
    ensures
        match json_member_at(resp@, "/errors"@) {
            Some(false) => r == Result::<(), PublishError>::Ok(()),
            Some(true) => r == Result::<(), PublishError>::Err(PublishError::Rejected),
            None => r == Result::<(), PublishError>::Err(PublishError::MalformedResponse),
        },
{
    match json_member_present(resp, "/errors") {
        Some(true) => Err(PublishError::Rejected),
        Some(false) => Ok(()),
        None => Err(PublishError::MalformedResponse),
    }
}

// ---------------------------------------------------------------------------
// The store handle
// ---------------------------------------------------------------------------

/// A handle on the remote store: the repository, the branch published
/// to, and the bearer token the exchange authenticates with.
#[derive(Debug)]
pub struct Github {
    token: String,
    repo: String,
    branch: String,
}

impl Github {
    pub closed spec fn spec_token(&self) -> Seq<char> {
        self.token@
    }

    pub closed spec fn spec_repo(&self) -> Seq<char> {
        self.repo@
    }

    pub closed spec fn spec_branch(&self) -> Seq<char> {
        self.branch@
    }

    /// A handle for `repo` (in `user/repo` form) at `branch`.
    pub fn new(token: &str, repo: &str, branch: &str) -> (r: Github)
        ensures
            r.spec_token() == token@,
            r.spec_repo() == repo@,
            r.spec_branch() == branch@,
    {
        Github { token: token.to_owned(), repo: repo.to_owned(), branch: branch.to_owned() }
    }

    /// The bearer token, for the caller performing the exchange.
    pub fn token(&self) -> (r: &String)
        ensures
            r@ == self.spec_token(),
    {
        &self.token
    }

    /// The `user/repo` name, for the caller performing the exchange.
    pub fn repo(&self) -> (r: &String)
        ensures
            r@ == self.spec_repo(),
    {
        &self.repo
    }

    /// The branch name, for the caller performing the exchange.
    pub fn branch(&self) -> (r: &String)
        ensures
            r@ == self.spec_branch(),
    {
        &self.branch
    }

    /// The repository name without its owner: what the blob query's
    /// `name` variable takes.
    pub fn short_name(&self) -> (r: String)
        ensures
            r@ == spec_final_segment(self.spec_repo()),
    {
        final_segment(self.repo.as_str())
    }

    /// The URL the head of the published branch is resolved at.
    pub open spec fn spec_ref_url(&self) -> Seq<char> {
        "https://api.github.com/repos/"@ + self.spec_repo() + "/git/ref/heads/"@
            + self.spec_branch()
    }

    /// Build the URL the head of the published branch is resolved at.
    pub fn ref_url(&self) -> (r: String)
        ensures
            r@ == self.spec_ref_url(),
    {
        let mut out = String::new();
        out.append("https://api.github.com/repos/");
        out.append(self.repo.as_str());
        out.append("/git/ref/heads/");
        out.append(self.branch.as_str());
        proof {
            assert(out@ =~= self.spec_ref_url());
        }
        out
    }

    /// The watermark-read request body for this handle, for the blob at
    /// `path`.
    pub fn last_guid_query_body(&self, path: &str) -> (r: String)
        ensures
            r@ == spec_last_guid_query(
                spec_final_segment(self.spec_repo()),
                self.spec_branch(),
                path@,
            ),
    {
        let name = self.short_name();
        last_guid_query(name.as_str(), self.branch.as_str(), path)
    }

    /// The atomic commit request body for this handle.
    pub fn commit_body(&self, oid: &str, commit_msg: &str, cs: &Vec<NewContent>) -> (r: String)
        requires
            batch_encodable(cs@),
        ensures
            r@ == spec_mutation_payload(
                self.spec_repo(),
                self.spec_branch(),
                oid@,
                commit_msg@,
                cs@,
            ),
    {
        mutation_json(self.repo.as_str(), self.branch.as_str(), oid, commit_msg, cs)
    }
}

} // verus!
