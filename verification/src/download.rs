//! Decisions of the resumable model-file download: where the pieces live,
//! which headers a request carries, when a failed request is retried and
//! after how long, how a response is written, when progress is reported and
//! how the finished file is checked.
use vstd::prelude::*;

use crate::huggingface::{decimal, decimal_string};
use crate::paths::{join_path, path_join};
use crate::mesh::sha256;
use crate::registry::RegistryError;
use crate::text::{chars_of, contains, contains_chars, lowercased, str_eq, to_lowercase};
use vstd::arithmetic::power2::pow2;

verus! {

broadcast use vstd::string::group_string_axioms;

/// Where a download is written: the finished file, the partial file being
/// filled, and the metadata kept beside it for resuming.
#[derive(Clone, Debug)]
pub struct DownloadPaths {
    pub final_path: String,
    pub partial_path: String,
    pub meta_path: String,
}

/// The three paths of a download of `filename` into `dest_dir`.
pub fn download_paths(dest_dir: &str, filename: &str) -> (r: DownloadPaths)
    ensures
        r.final_path@ == path_join(dest_dir@, filename@),
        r.partial_path@ == path_join(dest_dir@, filename@ + ".partial"@),
        r.meta_path@ == path_join(dest_dir@, filename@ + ".partial.meta"@),
{
    let final_path = join_path(dest_dir, filename);
    let mut partial_name = filename.to_owned();
    partial_name.append(".partial");
    let partial_path = join_path(dest_dir, partial_name.as_str());
    let mut meta_name = filename.to_owned();
    meta_name.append(".partial.meta");
    let meta_path = join_path(dest_dir, meta_name.as_str());
    DownloadPaths { final_path, partial_path, meta_path }
}

/// Names what `std::path::Path::parent` gives for a path: the path without
/// its last component, or nothing for a root or empty path.
pub uninterp spec fn path_parent(p: Seq<char>) -> Option<Seq<char>>;

/// `Path::new(p).parent()`, as text.
#[verifier::external_body]
fn parent_of(p: &str) -> (r: Option<String>)
    ensures
        match r {
            Some(q) => path_parent(p@) == Some(q@),
            None => path_parent(p@) is None,
        },
{
    match std::path::Path::new(p).parent() {
        Some(q) => Some(q.to_string_lossy().into_owned()),
        None => None,
    }
}

/// The directory to create before a download: the finished file's parent,
/// so that a file name with subdirectories (`Q4_K_M/model.gguf`) lands in
/// them; the destination itself when the path has no parent.
pub fn download_dir_to_create(dest_dir: &str, filename: &str) -> (r: String)
    ensures
        match path_parent(path_join(dest_dir@, filename@)) {
            Some(q) => r@ == q,
            None => r@ == dest_dir@,
        },
{
    let final_path = join_path(dest_dir, filename);
    match parent_of(final_path.as_str()) {
        Some(q) => q,
        None => dest_dir.to_owned(),
    }
}

/// Metadata stored alongside a partial download for resume support.
#[derive(Clone, Debug)]
pub struct PartialMeta {
    pub url: String,
    pub total_bytes: Option<u64>,
    pub sha256_expected: Option<String>,
    pub model_id: String,
    pub filename: String,
    /// When the download started, as an RFC 3339 timestamp.
    pub started_at: String,
}

impl PartialMeta {
    /// The metadata written when a download (re)starts; the total size is not
    /// known yet.
    pub fn new(
        url: &str,
        sha256_expected: Option<&str>,
        model_id: &str,
        filename: &str,
        started_at: String,
    ) -> (r: PartialMeta)
        ensures
            r.url@ == url@,
            r.total_bytes is None,
            match sha256_expected {
                Some(s) => r.sha256_expected matches Some(e) && e@ == s@,
                None => r.sha256_expected is None,
            },
            r.model_id@ == model_id@,
            r.filename@ == filename@,
            r.started_at == started_at,
    {
        let sha = match sha256_expected {
            Some(s) => Some(s.to_owned()),
            None => None,
        };
        PartialMeta {
            url: url.to_owned(),
            total_bytes: None,
            sha256_expected: sha,
            model_id: model_id.to_owned(),
            filename: filename.to_owned(),
            started_at,
        }
    }
}

/// A partial download is thrown away when its metadata could be read and
/// names another URL; unreadable metadata leaves it in place.
pub fn discard_stale_partial(recorded_url: Option<&str>, url: &str) -> (r: bool)
    ensures
        r == (recorded_url matches Some(u) && u@ != url@),
{
    match recorded_url {
        Some(u) => !str_eq(u, url),
        None => false,
    }
}

/// The headers of a download request: a bearer token when one is set and
/// not empty, and a byte range when part of the file is already on disk.
pub open spec fn request_header_spec(token: Option<Seq<char>>, offset: nat) -> Seq<(Seq<char>, Seq<char>)> {
    let auth: Seq<(Seq<char>, Seq<char>)> = match token {
        Some(t) => if t.len() > 0 {
            seq![("Authorization"@, "Bearer "@ + t)]
        } else {
            seq![]
        },
        None => seq![],
    };
    let range: Seq<(Seq<char>, Seq<char>)> = if offset > 0 {
        seq![("Range"@, "bytes="@ + decimal(offset) + "-"@)]
    } else {
        seq![]
    };
    auth + range
}

/// The headers of a download request resuming at byte `offset`.
pub fn request_headers(token: Option<&str>, offset: u64) -> (r: Vec<(String, String)>)
    ensures
        r@.map_values(|h: (String, String)| (h.0@, h.1@)) == request_header_spec(
            match token {
                Some(t) => Some(t@),
                None => None,
            },
            offset as nat,
        ),
{
    let mut r: Vec<(String, String)> = Vec::new();
    let ghost tv: Option<Seq<char>> = match token {
        Some(t) => Some(t@),
        None => None,
    };
    if let Some(t) = token {
        if t.unicode_len() > 0 {
            let mut v = "Bearer ".to_owned();
            v.append(t);
            r.push(("Authorization".to_owned(), v));
        }
    }
    let ghost auth = r@.map_values(|h: (String, String)| (h.0@, h.1@));
    if offset > 0 {
        let mut v = "bytes=".to_owned();
        let n = decimal_string(offset);
        v.append(n.as_str());
        v.append("-");
        r.push(("Range".to_owned(), v));
    }
    proof {
        let spec = request_header_spec(tv, offset as nat);
        assert(r@.map_values(|h: (String, String)| (h.0@, h.1@)) =~= spec);
    }
    r
}

/// Seconds to wait before the retry that follows attempt `attempt`
/// (counting from 0): two seconds, doubled after every retry.
pub open spec fn backoff(attempt: nat) -> nat {
    pow2(attempt + 1)
}

/// The delay before retrying after attempt `attempt`.
pub fn backoff_secs(attempt: u32) -> (r: u64)
    requires
        attempt < 63,
    ensures
        r == backoff(attempt as nat),
{
    let mut d: u64 = 2;
    let mut i: u32 = 0;
    proof {
        vstd::arithmetic::power2::lemma2_to64();
    }
    while i < attempt
        invariant
            i <= attempt < 63,
            d == pow2((i + 1) as nat),
        decreases attempt - i,
    {
        proof {
            vstd::arithmetic::power2::lemma_pow2_unfold((i + 2) as nat);
            vstd::arithmetic::power2::lemma_pow2_strictly_increases((i + 2) as nat, 64);
            vstd::arithmetic::power2::lemma2_to64();
        }
        d = d * 2;
        i = i + 1;
    }
    d
}

/// Each retry waits twice as long as the one before.
pub proof fn backoff_doubles(attempt: nat)
    ensures
        backoff(attempt + 1) == 2 * backoff(attempt),
        backoff(0) == 2,
{
    vstd::arithmetic::power2::lemma_pow2_unfold(attempt + 2);
    vstd::arithmetic::power2::lemma2_to64();
}

/// What came back from one attempt at a download request.
#[derive(Clone, Debug)]
pub enum SendOutcome {
    /// The server answered with this HTTP status code.
    Response(u16),
    /// The request failed before an answer; the text describes the failure.
    NetworkError(String),
}

/// What to do after one attempt.
#[derive(Debug)]
pub enum RetryStep {
    /// The response is usable: stream it.
    Accept,
    /// Wait this many seconds, then try again.
    Retry { delay_secs: u64 },
    /// Give up with this error.
    Fail(RegistryError),
}

/// Names what `http::StatusCode`'s `canonical_reason` gives for a valid
/// status code, or the placeholder text `Display` writes when there is none.
pub uninterp spec fn status_reason(code: u16) -> Seq<char>;

/// How a status code is displayed: its number, a space and its reason.
pub open spec fn status_line(code: u16) -> Seq<char> {
    decimal(code as nat) + " "@ + status_reason(code)
}

/// Displays a valid status code through `http::StatusCode`'s `Display`,
/// which writes the number, a space and the canonical reason phrase.
#[verifier::external_body]
pub(crate) fn status_display(code: u16) -> (r: String)
    requires
        100 <= code <= 999,
    ensures
        r@ == decimal(code as nat) + " "@ + status_reason(code),
{
    match reqwest::StatusCode::from_u16(code) {
        Ok(s) => s.to_string(),
        Err(_) => String::new(),
    }
}

/// The status codes after which a request is tried again: rate limiting
/// and server errors.
pub open spec fn is_transient(code: u16) -> bool {
    code == 429 || (500 <= code < 600)
}

/// The message of a response that cannot be used and is not retried.
pub open spec fn status_failure_message(code: u16, url: Seq<char>) -> Seq<char> {
    if code == 401 || code == 403 {
        "Access denied (HTTP "@ + status_line(code)
            + "). You may need to set HF_TOKEN for gated models."@
    } else if code == 404 {
        "File not found (HTTP 404). The model file may have been moved or renamed."@
    } else if code == 416 {
        "Requested range not satisfiable (HTTP 416)."@
    } else if code == 429 {
        "Rate limited (HTTP 429). Try again in a few minutes, or set HF_TOKEN for higher limits."@
    } else {
        "HTTP "@ + status_line(code) + " for "@ + url
    }
}

/// The message when every attempt failed before the server answered.
pub open spec fn network_failure_message(max_retries: nat, err: Seq<char>) -> Seq<char> {
    "Download failed after "@ + decimal(max_retries + 1) + " attempts: "@ + err
}

/// Whether `r` is the retry policy's answer to `outcome` at attempt
/// `attempt` of at most `max_retries + 1`.
pub open spec fn follows_retry_policy(
    url: Seq<char>,
    attempt: nat,
    max_retries: nat,
    outcome: SendOutcome,
    r: RetryStep,
) -> bool {
    match outcome {
        SendOutcome::Response(code) => if 200 <= code < 300 {
            r is Accept
        } else if is_transient(code) && attempt < max_retries {
            r == (RetryStep::Retry { delay_secs: backoff(attempt) as u64 })
        } else {
            r matches RetryStep::Fail(RegistryError::DownloadError(m)) && m@
                == status_failure_message(code, url)
        },
        SendOutcome::NetworkError(e) => if attempt < max_retries {
            r == (RetryStep::Retry { delay_secs: backoff(attempt) as u64 })
        } else {
            r matches RetryStep::Fail(RegistryError::DownloadError(m)) && m@
                == network_failure_message(max_retries, e@)
        },
    }
}

/// The last allowed attempt is never retried: whatever comes back, the
/// policy then accepts the response or gives up.
pub proof fn last_attempt_is_final(url: Seq<char>, max_retries: nat, outcome: SendOutcome, r: RetryStep)
    requires
        follows_retry_policy(url, max_retries, max_retries, outcome, r),
    ensures
        !(r is Retry),
{
}

/// A success is accepted at every attempt, and only a success is.
pub proof fn accepts_exactly_success(url: Seq<char>, attempt: nat, max_retries: nat, outcome: SendOutcome, r: RetryStep)
    requires
        follows_retry_policy(url, attempt, max_retries, outcome, r),
    ensures
        (r is Accept) <==> (outcome matches SendOutcome::Response(c) && 200 <= c < 300),
{
}

/// Rate limiting (429) and every server error (500 to 599) are retried while
/// attempts remain, after the backoff of the attempt; other failures are
/// never retried.
pub proof fn server_errors_are_retried(
    url: Seq<char>,
    attempt: nat,
    max_retries: nat,
    code: u16,
    r: RetryStep,
)
    requires
        follows_retry_policy(url, attempt, max_retries, SendOutcome::Response(code), r),
    ensures
        (code == 429 || 500 <= code <= 599) && attempt < max_retries ==> r == (RetryStep::Retry {
            delay_secs: backoff(attempt) as u64,
        }),
        !(code == 429 || 500 <= code <= 599) ==> !(r is Retry),
{
}

/// The retry policy: accept a success, retry a transient failure or a network
/// error while attempts remain (with exponential backoff), else fail with a
/// message naming the cause.
pub fn retry_step(url: &str, attempt: u32, max_retries: u32, outcome: &SendOutcome) -> (r:
    RetryStep)
    requires
        attempt <= max_retries,
        attempt < max_retries && match *outcome {
            SendOutcome::Response(c) => is_transient(c),
            SendOutcome::NetworkError(_) => true,
        } ==> attempt < 62,
        outcome matches SendOutcome::Response(c) ==> 100 <= *c <= 999,
    ensures
        follows_retry_policy(url@, attempt as nat, max_retries as nat, *outcome, r),
{
    match outcome {
        SendOutcome::Response(code) => {
            let code = *code;
            if 200 <= code && code < 300 {
                return RetryStep::Accept;
            }
            if (code == 429 || (500 <= code && code < 600)) && attempt < max_retries {
                return RetryStep::Retry { delay_secs: backoff_secs(attempt) };
            }
            let m = if code == 401 || code == 403 {
                let mut m = "Access denied (HTTP ".to_owned();
                let s = status_display(code);
                m.append(s.as_str());
                m.append("). You may need to set HF_TOKEN for gated models.");
                m
            } else if code == 404 {
                "File not found (HTTP 404). The model file may have been moved or renamed.".to_owned()
            } else if code == 416 {
                "Requested range not satisfiable (HTTP 416).".to_owned()
            } else if code == 429 {
                "Rate limited (HTTP 429). Try again in a few minutes, or set HF_TOKEN for higher limits.".to_owned()
            } else {
                let mut m = "HTTP ".to_owned();
                let s = status_display(code);
                m.append(s.as_str());
                m.append(" for ");
                m.append(url);
                m
            };
            RetryStep::Fail(RegistryError::DownloadError(m))
        },
        SendOutcome::NetworkError(e) => {
            if attempt < max_retries {
                return RetryStep::Retry { delay_secs: backoff_secs(attempt) };
            }
            let mut m = "Download failed after ".to_owned();
            let n = decimal_string(max_retries as u64 + 1);
            m.append(n.as_str());
            m.append(" attempts: ");
            m.append(e.as_str());
            RetryStep::Fail(RegistryError::DownloadError(m))
        },
    }
}


/// A failed request is retried once from the start of the file when part of
/// the file was on disk and the failure is a refused range (HTTP 416).
pub fn is_range_failure(message: &str, offset: u64) -> (r: bool)
    ensures
        r == (offset > 0 && contains(message@, "416"@)),
{
    if offset == 0 {
        return false;
    }
    let m = chars_of(message);
    let p = chars_of("416");
    contains_chars(&m, &p)
}

/// How a usable response is written.
#[derive(Clone, Copy, Debug, PartialEq, Eq)]
pub struct ResponsePlan {
    /// Bytes of the file already on disk that the response continues.
    pub offset: u64,
    /// The size of the whole file, when the response announces its length.
    pub total_bytes: Option<u64>,
    /// Append to the partial file (else truncate it first).
    pub append: bool,
}

/// Plan the write of a response with status `status` and announced length
/// `content_length`, requested from byte `offset`: a partial-content answer
/// (206) continues the file; a full answer (200) restarts it from zero.
pub fn plan_response(status: u16, content_length: Option<u64>, offset: u64) -> (r: ResponsePlan)
    requires
        status == 206 ==> (content_length matches Some(cl) ==> cl + offset <= u64::MAX),
    ensures
        r.offset == (if status == 200 { 0 } else { offset }),
        r.total_bytes == (if status == 206 {
            match content_length {
                Some(cl) => Some((cl + offset) as u64),
                None => None,
            }
        } else {
            content_length
        }),
        r.append == (status == 206 && offset > 0),
{
    let is_partial = status == 206;
    let start = if status == 200 { 0 } else { offset };
    let total_bytes = if is_partial {
        match content_length {
            Some(cl) => Some(cl + start),
            None => None,
        }
    } else {
        content_length
    };
    ResponsePlan { offset: start, total_bytes, append: is_partial && start > 0 }
}

/// Progress of one streamed response.
#[derive(Clone, Copy, Debug, PartialEq, Eq)]
pub struct TransferProgress {
    /// Bytes of the file on disk so far.
    pub bytes_downloaded: u64,
    /// Bytes that were on disk when this response started.
    pub bytes_at_start: u64,
    /// The size of the whole file, when known.
    pub total_bytes: Option<u64>,
}

impl TransferProgress {
    /// Progress at the start of the response planned by `plan`.
    pub fn start(plan: ResponsePlan) -> (r: TransferProgress)
        ensures
            r.bytes_downloaded == plan.offset,
            r.bytes_at_start == plan.offset,
            r.total_bytes == plan.total_bytes,
    {
        TransferProgress {
            bytes_downloaded: plan.offset,
            bytes_at_start: plan.offset,
            total_bytes: plan.total_bytes,
        }
    }

    /// Account for a chunk of `len` bytes written to the file.
    pub fn record_chunk(&mut self, len: u64)
        requires
            old(self).bytes_downloaded + len <= u64::MAX,
        ensures
            final(self).bytes_downloaded == old(self).bytes_downloaded + len,
            final(self).bytes_at_start == old(self).bytes_at_start,
            final(self).total_bytes == old(self).total_bytes,
    {
        self.bytes_downloaded = self.bytes_downloaded + len;
    }

    /// The whole file is on disk.
    pub fn is_finished(&self) -> (r: bool)
        ensures
            r == (self.total_bytes matches Some(t) && self.bytes_downloaded >= t),
    {
        match self.total_bytes {
            Some(t) => self.bytes_downloaded >= t,
            None => false,
        }
    }

    /// Bytes received during this response (none if the file shrank).
    pub fn session_bytes(&self) -> (r: u64)
        ensures
            r == (if self.bytes_downloaded >= self.bytes_at_start {
                self.bytes_downloaded - self.bytes_at_start
            } else {
                0
            }),
    {
        self.bytes_downloaded.saturating_sub(self.bytes_at_start)
    }

    /// Progress is reported at most every 100 ms, and always on completion.
    pub fn should_emit(&self, millis_since_last_emit: u128) -> (r: bool)
        ensures
            r == (millis_since_last_emit >= 100 || (self.total_bytes matches Some(t)
                && self.bytes_downloaded >= t)),
    {
        millis_since_last_emit >= 100 || self.is_finished()
    }
}

/// The number of times a broken response stream is resumed before giving up.
pub const STREAM_ATTEMPTS: u32 = 5;

/// After a broken stream with `remaining` attempts left: the attempts left
/// for the next try, or the error once none are.
pub fn after_stream_error(remaining: u32) -> (r: Result<u32, RegistryError>)
    requires
        remaining >= 1,
    ensures
        remaining == 1 ==> (r matches Err(RegistryError::DownloadError(m)) && m@
            == "Max stream retries exceeded"@),
        remaining > 1 ==> r == Ok::<u32, RegistryError>((remaining - 1) as u32),
{
    let left = remaining - 1;
    if left == 0 {
        Err(RegistryError::DownloadError("Max stream retries exceeded".to_owned()))
    } else {
        Ok(left)
    }
}

/// The lower-case hexadecimal digit of a value below 16.
pub open spec fn hex_digit(d: nat) -> char {
    if d < 10 {
        ((d + 48) as u8) as char
    } else {
        ((d + 87) as u8) as char
    }
}

/// Bytes written as lower-case hexadecimal, two digits each.
pub open spec fn lower_hex(bytes: Seq<u8>) -> Seq<char>
    decreases bytes.len(),
{
    if bytes.len() == 0 {
        seq![]
    } else {
        lower_hex(bytes.drop_last()) + seq![
            hex_digit((bytes.last() / 16) as nat),
            hex_digit((bytes.last() % 16) as nat),
        ]
    }
}

/// The lower-case hex digit of `d`.
fn hex_char(d: u8) -> (c: char)
    requires
        d < 16,
    ensures
        c == hex_digit(d as nat),
{
    if d < 10 {
        (d + 48) as char
    } else {
        (d + 87) as char
    }
}

/// A digest written as lower-case hexadecimal, as the `{:x}` format of a
/// digest prints it.
pub fn lower_hex_string(bytes: &[u8]) -> (r: String)
    ensures
        r@ == lower_hex(bytes@),
{
    let mut r = String::new();
    let mut i: usize = 0;
    while i < bytes.len()
        invariant
            i <= bytes@.len(),
            r@ == lower_hex(bytes@.take(i as int)),
        decreases bytes@.len() - i,
    {
        let b = bytes[i];
        r.push(hex_char(b / 16));
        r.push(hex_char(b % 16));
        proof {
            let t = bytes@.take(i as int + 1);
            assert(t.drop_last() == bytes@.take(i as int));
            assert(t.last() == b);
        }
        i = i + 1;
    }
    proof {
        assert(bytes@.take(bytes@.len() as int) == bytes@);
    }
    r
}

/// Check the finished file's digest `actual` (hex) against the expected one,
/// ignoring case; a mismatch is an integrity error naming the partial file
/// and both digests.
pub fn verify_checksum(partial_path: &str, expected: &str, actual: &str) -> (r: Result<
    (),
    RegistryError,
>)
    ensures
        lowercased(actual@) == lowercased(expected@) ==> r is Ok,
        lowercased(actual@) != lowercased(expected@) ==> (r matches Err(
            RegistryError::IntegrityError { path, expected: e, actual: a },
        ) && path@ == partial_path@ && e@ == expected@ && a@ == actual@),
{
    let a = to_lowercase(actual);
    let e = to_lowercase(expected);
    if str_eq(a.as_str(), e.as_str()) {
        Ok(())
    } else {
        Err(
            RegistryError::IntegrityError {
                path: partial_path.to_owned(),
                expected: expected.to_owned(),
                actual: actual.to_owned(),
            },
        )
    }
}

/// An incremental SHA-256 hasher over the bytes of a downloaded file. It
/// holds a `sha2::Sha256`; Verus refuses a declaration of that type (its
/// generic arguments carry bounds of outside traits), so the struct is
/// opaque and `digest_input` names what it has been fed.
#[verifier::external_body]
pub struct FileDigest {
    inner: sha2::Sha256,
}

/// Names the bytes fed so far to a hasher.
pub uninterp spec fn digest_input(h: FileDigest) -> Seq<u8>;

/// `sha2::Sha256::new`: a hasher that has been fed nothing.
#[verifier::external_body]
fn new_file_digest() -> (h: FileDigest)
    ensures
        digest_input(h) == Seq::<u8>::empty(),
{
    FileDigest { inner: <sha2::Sha256 as sha2::Digest>::new() }
}

/// `sha2::Digest::update`: feeds `data` after what the hasher already holds.
#[verifier::external_body]
fn file_digest_update(h: &mut FileDigest, data: &[u8])
    ensures
        digest_input(*final(h)) == digest_input(*old(h)) + data@,
{
    sha2::Digest::update(&mut h.inner, data)
}

/// `sha2::Digest::finalize`: the SHA-256 digest of everything fed, 32 bytes.
#[verifier::external_body]
fn file_digest_finish(h: FileDigest) -> (r: Vec<u8>)
    ensures
        r@ == sha256(digest_input(h)),
        r@.len() == 32,
{
    sha2::Digest::finalize(h.inner).to_vec()
}

/// The hasher for a download's integrity check: one that has been fed
/// nothing when a checksum is expected, none otherwise.
pub fn start_integrity_check(expected_sha256: Option<&str>) -> (r: Option<FileDigest>)
    ensures
        r is Some <==> expected_sha256 is Some,
        r matches Some(h) ==> digest_input(h) == Seq::<u8>::empty(),
{
    match expected_sha256 {
        Some(_) => Some(new_file_digest()),
        None => None,
    }
}

/// Feeds the first `n` bytes of `buffer`, as one read of the partial file
/// filled them, to the hasher; a read of 0 bytes marks the end of the file
/// and the answer is then `true`.
pub fn absorb_read(h: &mut FileDigest, buffer: &[u8], n: usize) -> (done: bool)
    requires
        n <= buffer@.len(),
    ensures
        done == (n == 0),
        digest_input(*final(h)) == digest_input(*old(h)) + buffer@.take(n as int),
{
    if n == 0 {
        proof {
            assert(buffer@.take(0) =~= Seq::<u8>::empty());
            assert(digest_input(*old(h)) + buffer@.take(0) =~= digest_input(*old(h)));
        }
        return true;
    }
    let chunk = slice_prefix(buffer, n);
    file_digest_update(h, chunk.as_slice());
    false
}

/// The first `n` bytes of `buffer`.
fn slice_prefix(buffer: &[u8], n: usize) -> (r: Vec<u8>)
    requires
        n <= buffer@.len(),
    ensures
        r@ == buffer@.take(n as int),
{
    let mut r: Vec<u8> = Vec::new();
    let mut i: usize = 0;
    while i < n
        invariant
            i <= n,
            n <= buffer@.len(),
            r@ == buffer@.take(i as int),
        decreases n - i,
    {
        r.push(buffer[i]);
        proof {
            assert(buffer@.take(i + 1) =~= buffer@.take(i as int).push(buffer@[i as int]));
        }
        i = i + 1;
    }
    r
}

/// Finish the integrity check of a downloaded file: the SHA-256 digest of
/// the bytes fed to `h`, in lower-case hex, must equal `expected` ignoring
/// case; otherwise the error names the partial file, the expected digest and
/// the actual one.
pub fn verify_download(partial_path: &str, expected: &str, h: FileDigest) -> (r: Result<
    (),
    RegistryError,
>)
    ensures
        lowercased(lower_hex(sha256(digest_input(h)))) == lowercased(expected@) ==> r is Ok,
        lowercased(lower_hex(sha256(digest_input(h)))) != lowercased(expected@) ==> (r matches Err(
            RegistryError::IntegrityError { path, expected: e, actual: a },
        ) && path@ == partial_path@ && e@ == expected@ && a@ == lower_hex(
            sha256(digest_input(h)),
        )),
{
    let digest = file_digest_finish(h);
    let actual = lower_hex_string(digest.as_slice());
    verify_checksum(partial_path, expected, actual.as_str())
}

} // verus!
