//! The resource proxy: an art reference is a local file path, a remote
//! URL, or a shape this bridge does not implement.  The proxy decides the
//! outgoing headers — exact content length and a best-effort content type
//! for a local file, the upstream's own headers forwarded verbatim for a
//! remote fetch — and accounts for the streamed bytes so that a declared
//! length is honoured exactly.

use vstd::prelude::*;

use crate::text::dec_seq;
use crate::text::is_prefix;
use crate::text::push_decimal;

verus! {

/// One art reference, already classified by shape.
pub enum ArtReference {
    /// A local filesystem path, with the scheme already stripped.
    LocalPath(String),
    /// A remote URL, kept whole.
    RemoteUrl(String),
    /// Any other shape: explicitly not implemented.
    Unsupported(String),
}

fn has_prefix(s: &str, p: &str) -> (r: bool)
    ensures
        r == is_prefix(p@, s@),
{
    let np: usize = p.unicode_len();
    let ns: usize = s.unicode_len();
    if np > ns {
        return false;
    }
    let mut i: usize = 0;
    while i < np
        invariant
            0 <= i <= np,
            np == p@.len(),
            ns == s@.len(),
            np <= ns,
            forall|k: int| 0 <= k < i ==> s@[k] == p@[k],
        decreases np - i,
    {
        if s.get_char(i) != p.get_char(i) {
            assert(s@.subrange(0, np as int)[i as int] != p@[i as int]);
            return false;
        }
        i = i + 1;
    }
    proof {
        assert(s@.subrange(0, np as int) =~= p@);
    }
    true
}

/// Classifies a present art reference: a `file://` reference is a local
/// path with the scheme stripped, anything that starts with `http` is a
/// remote URL, and every other shape is unsupported.
pub fn classify_art_url(url: &str) -> (r: ArtReference)
    ensures
        is_prefix("file://"@, url@) ==> (r matches ArtReference::LocalPath(p) && p@
            == url@.subrange("file://"@.len() as int, url@.len() as int)),
        !is_prefix("file://"@, url@) && is_prefix("http"@, url@) ==> (r
            matches ArtReference::RemoteUrl(u) && u@ == url@),
        !is_prefix("file://"@, url@) && !is_prefix("http"@, url@) ==> (r
            matches ArtReference::Unsupported(u) && u@ == url@),
{
    let scheme = "file://";
    if has_prefix(url, scheme) {
        let rest = url.substring_char(scheme.unicode_len(), url.unicode_len());
        ArtReference::LocalPath(rest.to_owned())
    } else if has_prefix(url, "http") {
        ArtReference::RemoteUrl(url.to_owned())
    } else {
        ArtReference::Unsupported(url.to_owned())
    }
}

/// The content type the extension of `path` suggests, by the mapping the
/// mime-guessing library ships; `image/*` where it knows none.
pub uninterp spec fn mime_for(path: Seq<char>) -> Seq<char>;

/// Relies on `mime_guess::MimeGuess::from_path` and `first_or`: the guess
/// is a pure lookup of the path's extension in a fixed table, with
/// `image/*` as the fallback, so the result is a function of the path
/// alone.
#[verifier::external_body]
fn guess_mime_type(path: &str) -> (r: String)
    ensures
        r@ == mime_for(path@),
{
    mime_guess::MimeGuess::from_path(std::path::Path::new(path))
        .first_or(mime::IMAGE_STAR)
        .as_ref()
        .to_owned()
}

/// The outgoing headers of one art response; an absent entry means the
/// header is omitted, never fabricated.
pub struct FetchHeaders {
    pub content_length: Option<String>,
    pub content_type: Option<String>,
}

/// The headers for a local file of known size: the exact decimal length,
/// and the content type its path suggests.
pub fn local_fetch_headers(path: &str, size: u64) -> (h: FetchHeaders)
    ensures
        h.content_length matches Some(l) && l@ == dec_seq(size as nat),
        h.content_type matches Some(t) && t@ == mime_for(path@),
{
    let mut length = String::new();
    push_decimal(&mut length, size);
    let mime_name = guess_mime_type(path);
    FetchHeaders { content_length: Some(length), content_type: Some(mime_name) }
}

/// The headers for a remote fetch: whatever the upstream sent, forwarded
/// verbatim; a header the upstream omitted stays omitted.
pub fn remote_fetch_headers(upstream_length: Option<String>, upstream_type: Option<String>) -> (h:
    FetchHeaders)
    ensures
        h.content_length == upstream_length,
        h.content_type == upstream_type,
        upstream_type is None ==> h.content_type is None,
        upstream_length is None ==> h.content_length is None,
{
    FetchHeaders { content_length: upstream_length, content_type: upstream_type }
}

/// The total of a sequence of chunk sizes.
pub open spec fn total_of(chunks: Seq<u64>) -> int
    decreases chunks.len(),
{
    if chunks.len() == 0 {
        0
    } else {
        total_of(chunks.drop_last()) + chunks.last()
    }
}

pub proof fn lemma_total_take_step(chunks: Seq<u64>, i: int)
    requires
        0 <= i < chunks.len(),
    ensures
        total_of(chunks.take(i + 1)) == total_of(chunks.take(i)) + chunks[i],
{
    assert(chunks.take(i + 1).drop_last() =~= chunks.take(i));
    assert(chunks.take(i + 1).last() == chunks[i]);
}

pub proof fn lemma_total_take_le(chunks: Seq<u64>, j: int)
    requires
        0 <= j <= chunks.len(),
    ensures
        total_of(chunks.take(j)) <= total_of(chunks),
    decreases chunks.len() - j,
{
    if j == chunks.len() {
        assert(chunks.take(j) =~= chunks);
    } else {
        lemma_total_take_step(chunks, j);
        lemma_total_take_le(chunks, j + 1);
    }
}

/// Byte accounting for one streamed response with a declared length: the
/// stream may deliver its bytes in any chunking, but can neither overrun
/// the declared length nor be reported complete before reaching it.
pub struct StreamProgress {
    expected: u64,
    sent: u64,
}

impl StreamProgress {
    /// The declared length.
    pub closed spec fn expected_spec(&self) -> u64 {
        self.expected
    }

    /// The bytes accounted so far.
    pub closed spec fn sent_spec(&self) -> u64 {
        self.sent
    }

    /// Fresh accounting for a response that declared `expected` bytes.
    pub fn make(expected: u64) -> (r: StreamProgress)
        ensures
            r.expected_spec() == expected,
            r.sent_spec() == 0,
    {
        StreamProgress { expected, sent: 0 }
    }

    /// Accounts one chunk; refuses, leaving the count unchanged, exactly
    /// when the chunk would overrun the declared length.
    pub fn accept_chunk(&mut self, n: u64) -> (ok: bool)
        ensures
            ok <==> old(self).sent_spec() + n <= old(self).expected_spec(),
            final(self).expected_spec() == old(self).expected_spec(),
            ok ==> final(self).sent_spec() == old(self).sent_spec() + n,
            !ok ==> final(self).sent_spec() == old(self).sent_spec(),
    {
        if n <= self.expected && self.sent <= self.expected - n {
            self.sent = self.sent + n;
            true
        } else {
            false
        }
    }

    /// Whether the stream has delivered exactly the declared length.
    pub fn completed(&self) -> (r: bool)
        ensures
            r == (self.sent_spec() == self.expected_spec()),
    {
        self.sent == self.expected
    }

    /// Accounts a whole sequence of chunks: it is accepted exactly when
    /// its total fits the declared length, and then the count advances by
    /// exactly that total — a fetched resource of size `S`, streamed in
    /// any chunking that totals `S`, is accounted as exactly `S` bytes.
    pub fn accept_all(&mut self, chunks: &Vec<u64>) -> (ok: bool)
        requires
            old(self).sent_spec() <= old(self).expected_spec(),
        ensures
            final(self).expected_spec() == old(self).expected_spec(),
            ok <==> old(self).sent_spec() + total_of(chunks@) <= old(self).expected_spec(),
            ok ==> final(self).sent_spec() == old(self).sent_spec() + total_of(chunks@),
    {
        let ghost init = *self;
        let ghost all = chunks@;
        let n = chunks.len();
        let mut i: usize = 0;
        #[verifier::loop_isolation(false)]
        while i < n
            invariant
                0 <= i <= n,
                n == all.len(),
                chunks@ == all,
                self.expected_spec() == init.expected_spec(),
                self.sent_spec() == init.sent_spec() + total_of(all.take(i as int)),
                init.sent_spec() + total_of(all.take(i as int)) <= init.expected_spec(),
            decreases n - i,
        {
            proof {
                lemma_total_take_step(all, i as int);
            }
            let c = chunks[i];
            let ok = self.accept_chunk(c);
            if !ok {
                proof {
                    lemma_total_take_le(all, i + 1);
                }
                return false;
            }
            i = i + 1;
        }
        proof {
            assert(all.take(n as int) =~= all);
        }
        true
    }
}

} // verus!
