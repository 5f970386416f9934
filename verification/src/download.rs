//! Model download bookkeeping: the `.part` file, HTTP Range answers, progress samples,
//! and the sha256 check that decides whether a download is kept.
//!
//! Layout: a download writes to `<file>.part`, resumes from its current size, and only
//! on a passing digest check is the part renamed to `<file>`. The caller performs the
//! file and network work; the decisions and the digest are made here.
use vstd::prelude::*;
use crate::error::{AppError, is_engine_error};
use crate::text::{hex, hex_bytes, owned, parse_u64, parsed_u64, trim, trimmed};
use crate::types::{PullProgress, PullProgressView, percent_tenths, pct};

verus! {

// ------------------------------------------------------------------------------------
// sha256
// ------------------------------------------------------------------------------------
/// A running sha256 computation (`sha2::Sha256`).
#[verifier::external_body]
pub struct Sha256Stream {
    inner: sha2::Sha256,
}

/// The bytes fed to a running sha256 computation so far.
pub uninterp spec fn sha256_input(h: Sha256Stream) -> Seq<u8>;

/// The sha256 digest of `bytes`.
pub uninterp spec fn sha256_digest(bytes: Seq<u8>) -> Seq<u8>;

/// `<sha2::Sha256 as Digest>::new`: nothing fed yet.
#[verifier::external_body]
fn sha256_new() -> (h: Sha256Stream)
    ensures
        sha256_input(h) == Seq::<u8>::empty(),
{
    Sha256Stream { inner: <sha2::Sha256 as sha2::Digest>::new() }
}

/// `<sha2::Sha256 as Digest>::update`: `data` is fed after what came before.
#[verifier::external_body]
fn sha256_update(h: &mut Sha256Stream, data: &[u8])
    ensures
        sha256_input(*final(h)) == sha256_input(*old(h)) + data@,
{
    sha2::Digest::update(&mut h.inner, data);
}

/// `<sha2::Sha256 as Digest>::finalize`: the 32-byte digest of everything fed.
#[verifier::external_body]
fn sha256_finalize(h: Sha256Stream) -> (r: Vec<u8>)
    ensures
        r@ == sha256_digest(sha256_input(h)),
        r@.len() == 32,
{
    sha2::Digest::finalize(h.inner).to_vec()
}

/// The lower-case hex sha256 digest of `bytes`.
pub open spec fn sha256_hex(bytes: Seq<u8>) -> Seq<char> {
    hex_bytes(sha256_digest(bytes))
}

/// The hex sha256 digest of `data` in one go.
pub fn sha256_hex_of(data: &[u8]) -> (r: String)
    ensures
        r@ == sha256_hex(data@),
{
    let mut h = sha256_new();
    sha256_update(&mut h, data);
    assert(Seq::<u8>::empty() + data@ =~= data@);
    hex(sha256_finalize(h).as_slice())
}

/// A digest computed chunk by chunk, for a file read in pieces.
pub struct DigestStream {
    hasher: Sha256Stream,
}

impl DigestStream {
    /// The bytes fed so far.
    pub closed spec fn fed(&self) -> Seq<u8> {
        sha256_input(self.hasher)
    }

    pub fn new() -> (r: Self)
        ensures
            r.fed() == Seq::<u8>::empty(),
    {
        DigestStream { hasher: sha256_new() }
    }

    /// Feed the next piece.
    pub fn update(&mut self, data: &[u8])
        ensures
            final(self).fed() == old(self).fed() + data@,
    {
        sha256_update(&mut self.hasher, data);
    }

    /// The lower-case hex digest of everything fed.
    pub fn finish_hex(self) -> (r: String)
        ensures
            r@ == sha256_hex(self.fed()),
    {
        hex(sha256_finalize(self.hasher).as_slice())
    }
}

/// Feeding pieces one after another: by `DigestStream::update`'s contract, a stream fed the
/// pieces in order from nothing has been fed `pieces.flatten_alt()` (each piece appended
/// after the ones before). This lemma shows those bytes are the pieces joined in order,
/// `pieces.flatten()`, so the stream's finished hex digest is the one `sha256_hex_of` gives
/// for the joined bytes.
pub proof fn lemma_digest_in_pieces(pieces: Seq<Seq<u8>>)
    ensures
        sha256_hex(pieces.flatten_alt()) == sha256_hex(pieces.flatten()),
{
    pieces.lemma_flatten_and_flatten_alt_are_equivalent();
}

// ------------------------------------------------------------------------------------
// Paths and headers
// ------------------------------------------------------------------------------------
/// The partial download's path: the destination with `.part` appended.
pub fn part_path(dest: &str) -> (r: String)
    ensures
        r@ == dest@ + ".part"@,
{
    owned(dest).concat(".part")
}

/// The index just past the last `/` of `s`, or 0 when it has none.
pub open spec fn after_last_slash(s: Seq<char>) -> int
    decreases s.len(),
{
    if s.len() == 0 {
        0
    } else if s.last() == '/' {
        s.len() as int
    } else {
        after_last_slash(s.drop_last())
    }
}

pub proof fn lemma_after_last_slash(s: Seq<char>)
    ensures
        0 <= after_last_slash(s) <= s.len(),
    decreases s.len(),
{
    if s.len() > 0 && s.last() != '/' {
        lemma_after_last_slash(s.drop_last());
    }
}

/// The total size a `Content-Range: bytes <start>-<end>/<total>` value gives: the number
/// after its last `/`.
pub open spec fn range_total(v: Seq<char>) -> Option<u64> {
    parsed_u64(trimmed(v.skip(after_last_slash(v))))
}

/// Parse `Content-Range: bytes <start>-<end>/<total>` into its total.
pub fn content_range_total(value: &str) -> (r: Option<u64>)
    ensures
        r == range_total(value@),
{
    let n = value.unicode_len();
    let mut j: usize = n;
    proof {
        lemma_after_last_slash(value@);
        assert(value@.subrange(0, n as int) =~= value@);
    }
    while j > 0 && value.get_char(j - 1) != '/'
        invariant
            n == value@.len(),
            j <= n,
            after_last_slash(value@) == after_last_slash(value@.subrange(0, j as int)),
        decreases j,
    {
        assert(value@.subrange(0, j as int).drop_last() =~= value@.subrange(0, j - 1));
        j = j - 1;
    }
    assert(after_last_slash(value@) == j as int);
    assert(value@.skip(j as int) =~= value@.subrange(j as int, n as int));
    let total = trim(value.substring_char(j, n));
    parse_u64(total.as_str())
}

// ------------------------------------------------------------------------------------
// Decisions
// ------------------------------------------------------------------------------------
/// The error for a destination file that is present but does not verify.
pub open spec fn existing_mismatch(dest: Seq<char>) -> Seq<char> {
    "existing model failed verification ("@ + dest + "); delete it and retry"@
}

/// A file already at the destination: its digest must match, and then the download is a
/// success without any request.
pub fn verify_existing(digest: &str, expected: &str, len: u64, dest: &str) -> (r: Result<
    PullProgress,
    AppError,
>)
    ensures
        digest@ == expected@ ==> r is Ok && r->Ok_0@ == (PullProgressView {
            status: "success"@,
            completed: len,
            total: len,
            percent_tenths: 1000,
        }),
        digest@ != expected@ ==> r is Err && is_engine_error(r->Err_0, existing_mismatch(dest@)),
{
    if owned(digest) == owned(expected) {
        Ok(PullProgress { status: owned("success"), completed: len, total: len, percent_tenths: 1000 })
    } else {
        Err(
            AppError::Engine(
                owned("existing model failed verification (").concat(dest).concat(
                    "); delete it and retry",
                ),
            ),
        )
    }
}

/// What to do with the answer to a (ranged) download request.
#[derive(Debug, PartialEq, Eq)]
pub enum RangeDecision {
    /// Read the body; the full file has `total` bytes.
    Proceed { total: u64 },
    /// Remove the part file and start from zero; if `give_up` holds a message, fail with
    /// it once the part is removed.
    Restart { give_up: Option<String> },
    /// Fail with this message.
    Fail(String),
}

/// How far a download has come before the body is read: bytes already in the part file,
/// and how many restarts the server has forced.
pub struct RangeState {
    pub offset: u64,
    pub attempts: u32,
}

/// The decision for an answer with status code `status` (its text `status_text`, such as
/// `"404 Not Found"`), given the state before it, and the state after.
pub open spec fn range_decision(
    status: u16,
    status_text: Seq<char>,
    offset: u64,
    attempts: u32,
    content_range: Option<Seq<char>>,
    content_length: Option<u64>,
) -> (Result<u64, Option<Seq<char>>>, Seq<char>, u64, int) {
    // (Ok(total) to proceed | Err(None) to restart | Err(Some(m)) restart-then-fail,
    //  failure message for a plain failure (empty when none), offset after, attempts after)
    if status == 206 {
        match content_range {
            Some(v) => match range_total(v) {
                Some(t) => (Ok(t), seq![], offset, attempts as int),
                None => (Err(None), "download: missing Content-Range"@, offset, attempts as int),
            },
            None => (Err(None), "download: missing Content-Range"@, offset, attempts as int),
        }
    } else if status == 200 && offset > 0 {
        (
            Err(
                if attempts + 1 > 1 {
                    Some("download: server kept ignoring Range"@)
                } else {
                    None
                },
            ),
            seq![],
            0,
            attempts + 1,
        )
    } else if status == 200 {
        match content_length {
            Some(t) => (Ok(t), seq![], offset, attempts as int),
            None => (Err(None), "download: no Content-Length"@, offset, attempts as int),
        }
    } else if status == 416 {
        (
            Err(
                if attempts + 1 > 1 {
                    Some("download: unsatisfiable Range"@)
                } else {
                    None
                },
            ),
            seq![],
            0,
            attempts + 1,
        )
    } else {
        (Err(None), "download http "@ + status_text, offset, attempts as int)
    }
}

pub open spec fn decision_matches(
    d: RangeDecision,
    spec: (Result<u64, Option<Seq<char>>>, Seq<char>, u64, int),
) -> bool {
    match d {
        RangeDecision::Proceed { total } => spec.0 == Ok::<u64, Option<Seq<char>>>(total),
        RangeDecision::Restart { give_up } => spec.0 is Err && spec.1.len() == 0 && match give_up {
            Some(m) => spec.0 == Err::<u64, Option<Seq<char>>>(Some(m@)),
            None => spec.0 == Err::<u64, Option<Seq<char>>>(None),
        },
        RangeDecision::Fail(m) => spec.0 == Err::<u64, Option<Seq<char>>>(None) && spec.1.len()
            > 0 && m@ == spec.1,
    }
}

/// A download restarts at most once: after one answer restarted it from zero, any later
/// answer that would restart it again gives up instead.
pub proof fn lemma_restart_at_most_once(
    status1: u16,
    text1: Seq<char>,
    offset: u64,
    range1: Option<Seq<char>>,
    length1: Option<u64>,
    status2: u16,
    text2: Seq<char>,
    range2: Option<Seq<char>>,
    length2: Option<u64>,
)
    requires
        range_decision(status1, text1, offset, 0, range1, length1).0 == Err::<
            u64,
            Option<Seq<char>>,
        >(None),
        range_decision(status1, text1, offset, 0, range1, length1).1.len() == 0,
    ensures
        ({
            let d1 = range_decision(status1, text1, offset, 0, range1, length1);
            let d2 = range_decision(status2, text2, d1.2, d1.3 as u32, range2, length2);
            &&& d1.2 == 0 && d1.3 == 1
            &&& (d2.0 is Err && d2.1.len() == 0) ==> d2.0 matches Err(Some(_))
        }),
{
    reveal_strlit("download: missing Content-Range");
    reveal_strlit("download: no Content-Length");
    reveal_strlit("download http ");
}

impl RangeState {
    /// Decide what an answer means. A `206` carries the total in `Content-Range`; a `200`
    /// to a ranged request means the server ignored the range (restart once); a `416`
    /// means the part no longer fits the file (restart once).
    pub fn on_response(
        &mut self,
        status: u16,
        status_text: &str,
        content_range: Option<String>,
        content_length: Option<u64>,
    ) -> (r: RangeDecision)
        requires
            old(self).attempts < u32::MAX,
        ensures
            ({
                let s = range_decision(
                    status,
                    status_text@,
                    old(self).offset,
                    old(self).attempts,
                    match content_range {
                        Some(v) => Some(v@),
                        None => None,
                    },
                    content_length,
                );
                &&& decision_matches(r, s)
                &&& final(self).offset == s.2
                &&& final(self).attempts == s.3
            }),
    {
        proof {
            reveal_strlit("download: missing Content-Range");
            reveal_strlit("download: no Content-Length");
            reveal_strlit("download http ");
        }
        if status == 206 {
            match content_range {
                Some(v) => match content_range_total(v.as_str()) {
                    Some(t) => RangeDecision::Proceed { total: t },
                    None => RangeDecision::Fail(owned("download: missing Content-Range")),
                },
                None => RangeDecision::Fail(owned("download: missing Content-Range")),
            }
        } else if status == 200 && self.offset > 0 {
            self.offset = 0;
            self.attempts = self.attempts + 1;
            if self.attempts > 1 {
                RangeDecision::Restart { give_up: Some(owned("download: server kept ignoring Range")) }
            } else {
                RangeDecision::Restart { give_up: None }
            }
        } else if status == 200 {
            match content_length {
                Some(t) => RangeDecision::Proceed { total: t },
                None => RangeDecision::Fail(owned("download: no Content-Length")),
            }
        } else if status == 416 {
            self.offset = 0;
            self.attempts = self.attempts + 1;
            if self.attempts > 1 {
                RangeDecision::Restart { give_up: Some(owned("download: unsatisfiable Range")) }
            } else {
                RangeDecision::Restart { give_up: None }
            }
        } else {
            RangeDecision::Fail(owned("download http ").concat(status_text))
        }
    }
}

// ------------------------------------------------------------------------------------
// The body
// ------------------------------------------------------------------------------------
/// A download reading its body: bytes written so far (counting a resumed prefix), the
/// expected total, and the digest of the bytes of the file fed so far, with their count.
pub struct DownloadRun {
    digest: DigestStream,
    hashed_count: u64,
    written: u64,
    total: u64,
}

/// A progress sample.
pub open spec fn sample(status: Seq<char>, completed: u64, total: u64, percent: nat) -> PullProgressView {
    PullProgressView { status, completed, total, percent_tenths: percent as u128 }
}

impl DownloadRun {
    /// The bytes of the file fed to the digest so far.
    pub closed spec fn hashed(&self) -> Seq<u8> {
        self.digest.fed()
    }

    pub closed spec fn spec_written(&self) -> u64 {
        self.written
    }

    pub closed spec fn spec_total(&self) -> u64 {
        self.total
    }

    /// The count of hashed bytes is kept, and no more bytes are hashed than written.
    pub closed spec fn wf(&self) -> bool {
        &&& self.hashed_count == self.digest.fed().len()
        &&& self.hashed_count <= self.written
    }

    /// A body of `total` bytes in all, resuming after `offset` bytes already on disk
    /// (the caller feeds those to `hash_existing` first).
    pub fn new(offset: u64, total: u64) -> (r: Self)
        ensures
            r.wf(),
            r.hashed() == Seq::<u8>::empty(),
            r.spec_written() == offset,
            r.spec_total() == total,
    {
        DownloadRun { digest: DigestStream::new(), hashed_count: 0, written: offset, total }
    }

    /// How many bytes have been hashed so far.
    pub fn hashed_len(&self) -> (r: u64)
        requires
            self.wf(),
        ensures
            r == self.hashed().len(),
    {
        self.hashed_count
    }

    /// Bytes written so far.
    pub fn written(&self) -> (r: u64)
        ensures
            r == self.spec_written(),
    {
        self.written
    }

    /// Feed a piece of the resumed prefix (already counted in `written`) to the digest; the
    /// prefix cannot hash more bytes than were written.
    pub fn hash_existing(&mut self, data: &[u8])
        requires
            old(self).wf(),
            old(self).hashed().len() + data@.len() <= old(self).spec_written(),
        ensures
            final(self).wf(),
            final(self).hashed() == old(self).hashed() + data@,
            final(self).spec_written() == old(self).spec_written(),
            final(self).spec_total() == old(self).spec_total(),
    {
        self.digest.update(data);
        self.hashed_count = self.hashed_count + data.len() as u64;
    }

    /// A chunk of the body was written: count it, digest it, and emit a progress sample
    /// when one is due (`emit_due`: a quarter second since the last) or the total is
    /// reached.
    pub fn on_chunk(&mut self, chunk: &[u8], emit_due: bool) -> (r: Option<PullProgress>)
        requires
            old(self).wf(),
            old(self).spec_written() + chunk@.len() <= u64::MAX,
        ensures
            final(self).wf(),
            final(self).hashed() == old(self).hashed() + chunk@,
            final(self).spec_written() == old(self).spec_written() + chunk@.len(),
            final(self).spec_total() == old(self).spec_total(),
            (emit_due || final(self).spec_written() >= final(self).spec_total()) ==> r is Some
                && r->0@ == sample(
                "downloading"@,
                final(self).spec_written(),
                final(self).spec_total(),
                percent_tenths(final(self).spec_written() as nat, final(self).spec_total() as nat),
            ),
            !(emit_due || final(self).spec_written() >= final(self).spec_total()) ==> r is None,
    {
        self.digest.update(chunk);
        self.hashed_count = self.hashed_count + chunk.len() as u64;
        self.written = self.written + chunk.len() as u64;
        if emit_due || self.written >= self.total {
            Some(
                PullProgress {
                    status: owned("downloading"),
                    completed: self.written,
                    total: self.total,
                    percent_tenths: pct(self.written, self.total),
                },
            )
        } else {
            None
        }
    }

    /// The body is complete and every byte written, resumed prefix included, has been
    /// hashed: the `verifying` sample, then either the `success` sample (the digest of the
    /// file's bytes equals `expected`) or the mismatch message.
    pub fn finish(self, expected: &str) -> (r: (PullProgress, Result<PullProgress, String>))
        requires
            self.wf(),
            self.hashed().len() == self.spec_written(),
        ensures
            r.0@ == sample("verifying sha256 digest"@, self.spec_written(), self.spec_total(), 1000),
            sha256_hex(self.hashed()) == expected@ ==> r.1 is Ok && r.1->Ok_0@ == sample(
                "success"@,
                self.spec_written(),
                self.spec_total(),
                1000,
            ),
            sha256_hex(self.hashed()) != expected@ ==> r.1 is Err && r.1->Err_0@ == "sha256 mismatch: got "@
                + sha256_hex(self.hashed()) + ", expected "@ + expected@,
    {
        let written = self.written;
        let total = self.total;
        let digest = self.digest.finish_hex();
        download_verdict(digest.as_str(), expected, written, total)
    }
}

/// The verdict on a complete body of `written` bytes out of `total` whose digest is
/// `digest`: the `verifying` sample, then the `success` sample when the digest is the
/// expected one, else the mismatch message.
pub fn download_verdict(digest: &str, expected: &str, written: u64, total: u64) -> (r: (
    PullProgress,
    Result<PullProgress, String>,
))
    ensures
        r.0@ == sample("verifying sha256 digest"@, written, total, 1000),
        digest@ == expected@ ==> r.1 is Ok && r.1->Ok_0@ == sample("success"@, written, total, 1000),
        digest@ != expected@ ==> r.1 is Err && r.1->Err_0@ == "sha256 mismatch: got "@ + digest@
            + ", expected "@ + expected@,
{
    let verifying = PullProgress {
        status: owned("verifying sha256 digest"),
        completed: written,
        total,
        percent_tenths: 1000,
    };
    if owned(digest) == owned(expected) {
        (
            verifying,
            Ok(PullProgress { status: owned("success"), completed: written, total, percent_tenths: 1000 }),
        )
    } else {
        (
            verifying,
            Err(owned("sha256 mismatch: got ").concat(digest).concat(", expected ").concat(expected)),
        )
    }
}

} // verus!
