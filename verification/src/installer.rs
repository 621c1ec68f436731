//! Decisions of the package installer: which URLs to try, what a download
//! response must look like, when progress is reported, the SHA-256 check of
//! a downloaded archive, how an unpacked wrapper directory is recognised and
//! which `php.ini` template a fresh PHP install starts from.

use vstd::prelude::*;
use sha2::Digest;
use crate::text::{chars_of, string_of, append, append_str, lower, lower_of, starts_with, starts_with_str};
use crate::num::{decimal, u64_to_string};
use crate::scanner::DirEntryInfo;
use crate::ssl_cert::string_views;

verus! {

/// One downloadable version of a package.
pub struct PackageVersion {
    pub version: String,
    /// The single URL of older manifests.
    pub url: String,
    /// The mirrors to try in order; when empty, `url` stands alone.
    pub download_urls: Vec<String>,
    pub sha256: Option<String>,
    pub size_mb: Option<u32>,
    /// The executable, relative to the unpacked root.
    pub exe_rel: String,
    pub variant: Option<String>,
}

/// The URLs an install tries, in order.
pub open spec fn spec_candidate_urls(url: Seq<char>, download_urls: Seq<Seq<char>>) -> Seq<Seq<char>> {
    if download_urls.len() > 0 {
        download_urls
    } else if url.len() > 0 {
        seq![url]
    } else {
        Seq::empty()
    }
}

impl PackageVersion {
    /// The candidate download URLs: the mirror list when it is not empty,
    /// else the single URL when that is not empty, else none.
    pub fn candidate_urls(&self) -> (r: Vec<String>)
        ensures
            string_views(r@) == spec_candidate_urls(self.url@, string_views(self.download_urls@)),
    {
        let mut r: Vec<String> = Vec::new();
        if self.download_urls.len() > 0 {
            let mut i: usize = 0;
            while i < self.download_urls.len()
                invariant
                    i <= self.download_urls.len(),
                    string_views(r@) == string_views(self.download_urls@).take(i as int),
                decreases self.download_urls.len() - i,
            {
                let ghost r0 = r@;
                let s = self.download_urls[i].clone();
                r.push(s);
                assert(string_views(r@) =~= string_views(r0).push(s@));
                i += 1;
                assert(string_views(self.download_urls@).take(i as int) =~= string_views(
                    self.download_urls@,
                ).take((i - 1) as int).push(self.download_urls@[i - 1]@));
            }
            assert(string_views(self.download_urls@).take(self.download_urls.len() as int)
                =~= string_views(self.download_urls@));
        } else if chars_of(self.url.as_str()).len() > 0 {
            r.push(self.url.clone());
            assert(string_views(r@) =~= seq![self.url@]);
        } else {
            assert(string_views(r@) =~= Seq::<Seq<char>>::empty());
        }
        r
    }
}

// ------------------------------------------------------------------
// SHA-256 of a downloaded archive
// ------------------------------------------------------------------

/// The SHA-256 digest of `data`.
pub uninterp spec fn sha256_of(data: Seq<u8>) -> Seq<u8>;

/// `sha2::Sha256::digest`: the digest of `data`, 32 bytes long (the output
/// size of `Sha256` is `U32`).
#[verifier::external_body]
fn sha256_digest(data: &[u8]) -> (r: Vec<u8>)
    ensures
        r@ == sha256_of(data@),
        r@.len() == 32,
{
    sha2::Sha256::digest(data).to_vec()
}

/// The lowercase hex digit of `d < 16`.
pub open spec fn hex_digit(d: u8) -> char {
    if d < 10 {
        (('0' as u8) + d) as char
    } else {
        (('a' as u8) + d - 10) as char
    }
}

/// The lowercase hex text of `bytes`: two digits per byte, high nibble first.
pub open spec fn hex_lower(bytes: Seq<u8>) -> Seq<char>
    decreases bytes.len(),
{
    if bytes.len() == 0 {
        Seq::empty()
    } else {
        hex_lower(bytes.drop_last()) + seq![hex_digit(bytes.last() / 16), hex_digit(bytes.last() % 16)]
    }
}

fn hex_digit_exec(d: u8) -> (c: char)
    requires
        d < 16,
    ensures
        c == hex_digit(d),
{
    if d < 10 {
        (48u8 + d) as char
    } else {
        (97u8 + d - 10) as char
    }
}

/// The lowercase hex text of `bytes`.
pub fn to_hex_lower(bytes: &[u8]) -> (r: String)
    ensures
        r@ == hex_lower(bytes@),
{
    let mut out: Vec<char> = Vec::new();
    let mut i: usize = 0;
    while i < bytes.len()
        invariant
            i <= bytes.len(),
            out@ == hex_lower(bytes@.take(i as int)),
        decreases bytes.len() - i,
    {
        let b = bytes[i];
        out.push(hex_digit_exec(b / 16));
        out.push(hex_digit_exec(b % 16));
        i += 1;
        assert(bytes@.take(i as int).drop_last() =~= bytes@.take((i - 1) as int));
    }
    assert(bytes@.take(bytes.len() as int) =~= bytes@);
    string_of(&out)
}

/// ASCII-case-insensitive equality (`str::eq_ignore_ascii_case`).
pub open spec fn eq_ignore_ascii_case(a: Seq<char>, b: Seq<char>) -> bool {
    lower(a) == lower(b)
}

/// The message of a failed digest check.
pub open spec fn sha256_mismatch_message(expected: Seq<char>, got: Seq<char>) -> Seq<char> {
    "SHA256 校验失败: 期望 "@ + expected + ", 实际 "@ + got
}

/// The verdict on a download whose digest is `digest`: `Ok` when its hex
/// text matches `expected` up to ASCII case, else the mismatch message.
pub fn sha256_verdict(digest: &[u8], expected: &str) -> (r: Result<(), String>)
    ensures
        eq_ignore_ascii_case(hex_lower(digest@), expected@) ==> r is Ok,
        !eq_ignore_ascii_case(hex_lower(digest@), expected@) ==> (r matches Err(m)
            && m@ == sha256_mismatch_message(expected@, hex_lower(digest@))),
{
    let got = to_hex_lower(digest);
    let lg = lower_of(&chars_of(got.as_str()));
    let le = lower_of(&chars_of(expected));
    if crate::text::eq(&lg, &le) {
        Ok(())
    } else {
        let mut m: Vec<char> = Vec::new();
        append_str(&mut m, "SHA256 校验失败: 期望 ");
        append_str(&mut m, expected);
        append_str(&mut m, ", 实际 ");
        append_str(&mut m, got.as_str());
        Err(string_of(&m))
    }
}

/// Checks the downloaded archive `data` against the expected SHA-256 hex
/// text.
pub fn verify_sha256(data: &[u8], expected: &str) -> (r: Result<(), String>)
    ensures
        eq_ignore_ascii_case(hex_lower(sha256_of(data@)), expected@) ==> r is Ok,
        !eq_ignore_ascii_case(hex_lower(sha256_of(data@)), expected@) ==> (r matches Err(m)
            && m@ == sha256_mismatch_message(expected@, hex_lower(sha256_of(data@)))),
{
    let digest = sha256_digest(data);
    sha256_verdict(&digest, expected)
}

// ------------------------------------------------------------------
// Download responses and progress
// ------------------------------------------------------------------

/// The content type reported when the response names none.
pub open spec fn unknown_content_type() -> Seq<char> {
    "<unknown>"@
}

/// Why a download response is refused, if it is: a status outside
/// 200..=299, or an HTML body (an interstitial or error page).
pub open spec fn spec_response_error(status: u16, content_type: Seq<char>, url: Seq<char>) -> Option<Seq<char>> {
    if !(200 <= status && status <= 299) {
        Some("HTTP "@ + decimal(status as nat) + ": "@ + url + " (content-type: "@ + content_type + ")"@)
    } else if starts_with(lower(content_type), "text/html"@) {
        Some("下载响应为 HTML（疑似拦截页/错误页），非安装包: "@ + url)
    } else {
        None
    }
}

/// Checks the status and content type of a download response.
pub fn check_download_response(status: u16, content_type: Option<String>, url: &str) -> (r: Result<(), String>)
    ensures
        ({
            let ct = match content_type {
                Some(c) => c@,
                None => unknown_content_type(),
            };
            match spec_response_error(status, ct, url@) {
                None => r is Ok,
                Some(m) => r matches Err(e) && e@ == m,
            }
        }),
{
    let ct: String = match content_type {
        Some(c) => c,
        None => {
            let u = String::from_str("<unknown>");
            proof {
                reveal_strlit("<unknown>");
            }
            u
        },
    };
    if !(200 <= status && status <= 299) {
        let mut m: Vec<char> = Vec::new();
        append_str(&mut m, "HTTP ");
        append_str(&mut m, u64_to_string(status as u64).as_str());
        append_str(&mut m, ": ");
        append_str(&mut m, url);
        append_str(&mut m, " (content-type: ");
        append_str(&mut m, ct.as_str());
        append_str(&mut m, ")");
        return Err(string_of(&m));
    }
    let lct = lower_of(&chars_of(ct.as_str()));
    if starts_with_str(&lct, "text/html") {
        let mut m: Vec<char> = Vec::new();
        append_str(&mut m, "下载响应为 HTML（疑似拦截页/错误页），非安装包: ");
        append_str(&mut m, url);
        return Err(string_of(&m));
    }
    Ok(())
}

/// Bytes downloaded between two progress reports at most.
pub const EMIT_BYTES_THRESHOLD: u64 = 262144;

/// Milliseconds between two progress reports at most.
pub const EMIT_TIME_THRESHOLD_MS: u128 = 300;

/// Whether a progress event is due: 256 KiB more were downloaded, or
/// 300 ms passed, since the last one.
pub fn should_emit_progress(downloaded: u64, last_emit_bytes: u64, elapsed_ms: u128) -> (r: bool)
    requires
        last_emit_bytes <= downloaded,
    ensures
        r == (downloaded - last_emit_bytes >= EMIT_BYTES_THRESHOLD || elapsed_ms >= EMIT_TIME_THRESHOLD_MS),
{
    downloaded - last_emit_bytes >= EMIT_BYTES_THRESHOLD || elapsed_ms >= EMIT_TIME_THRESHOLD_MS
}

// ------------------------------------------------------------------
// Trying the mirrors in order
// ------------------------------------------------------------------

/// What came of one download attempt.
pub enum AttemptOutcome {
    /// The archive arrived and opens as a zip.
    Downloaded,
    /// The archive arrived but is not a zip; the reason given.
    InvalidZip(String),
    /// The download failed; the reason given.
    Failed(String),
}

/// The error an attempt leaves behind, if any.
pub open spec fn attempt_error(o: AttemptOutcome, url: Seq<char>) -> Seq<char> {
    match o {
        AttemptOutcome::Downloaded => Seq::empty(),
        AttemptOutcome::InvalidZip(e) => e@ + "（"@ + url + "）"@,
        AttemptOutcome::Failed(e) => e@,
    }
}

/// The index of the first successful attempt.
pub open spec fn first_downloaded(outcomes: Seq<AttemptOutcome>) -> Option<int>
    decreases outcomes.len(),
{
    if outcomes.len() == 0 {
        None
    } else {
        match first_downloaded(outcomes.drop_last()) {
            Some(i) => Some(i),
            None => if outcomes.last() is Downloaded {
                Some(outcomes.len() - 1)
            } else {
                None
            },
        }
    }
}

/// The message when no URL is known.
pub open spec fn no_url_message() -> Seq<char> {
    "没有可用的下载 URL"@
}

/// The message when every mirror failed, `last` the last attempt's error.
pub open spec fn all_failed_message(last: Seq<char>) -> Seq<char> {
    "所有下载源均失败，最后一次错误: "@ + last
}

/// The verdict of the download phase, given the outcomes of the attempts
/// made in order on `urls` (they stop at the first success): the index of
/// the URL whose archive is kept, or why the install fails.
pub fn download_verdict(urls: &Vec<String>, outcomes: &Vec<AttemptOutcome>) -> (r: Result<usize, String>)
    requires
        outcomes.len() <= urls.len(),
        first_downloaded(outcomes@) is None ==> outcomes.len() == urls.len(),
    ensures
        urls.len() == 0 ==> (r matches Err(m) && m@ == no_url_message()),
        urls.len() > 0 ==> match first_downloaded(outcomes@) {
            Some(i) => r == Ok::<usize, String>(i as usize),
            None => r matches Err(m) && m@ == all_failed_message(attempt_error(
                outcomes@.last(),
                urls@[outcomes.len() - 1]@,
            )),
        },
{
    if urls.len() == 0 {
        let s = String::from_str("没有可用的下载 URL");
        proof {
            reveal_strlit("没有可用的下载 URL");
        }
        return Err(s);
    }
    let mut i: usize = 0;
    while i < outcomes.len()
        invariant
            i <= outcomes.len(),
            outcomes.len() <= urls.len(),
            first_downloaded(outcomes@.take(i as int)) is None,
        decreases outcomes.len() - i,
    {
        assert(outcomes@.take((i + 1) as int).drop_last() =~= outcomes@.take(i as int));
        if let AttemptOutcome::Downloaded = outcomes[i] {
            proof {
                lemma_first_downloaded_prefix(outcomes@, (i + 1) as int);
            }
            return Ok(i);
        }
        i += 1;
    }
    assert(outcomes@.take(outcomes.len() as int) =~= outcomes@);
    let k = outcomes.len() - 1;
    let mut m: Vec<char> = Vec::new();
    append_str(&mut m, "所有下载源均失败，最后一次错误: ");
    match &outcomes[k] {
        AttemptOutcome::Downloaded => {},
        AttemptOutcome::InvalidZip(e) => {
            append_str(&mut m, e.as_str());
            append_str(&mut m, "（");
            append_str(&mut m, urls[k].as_str());
            append_str(&mut m, "）");
        },
        AttemptOutcome::Failed(e) => {
            append_str(&mut m, e.as_str());
        },
    }
    Err(string_of(&m))
}

proof fn lemma_first_downloaded_prefix(o: Seq<AttemptOutcome>, n: int)
    requires
        0 < n <= o.len(),
        first_downloaded(o.take(n)) is Some,
    ensures
        first_downloaded(o) == first_downloaded(o.take(n)),
    decreases o.len() - n,
{
    if n < o.len() {
        assert(o.take(n + 1).drop_last() =~= o.take(n));
        lemma_first_downloaded_prefix(o, n + 1);
    } else {
        assert(o.take(n) =~= o);
    }
}

// ------------------------------------------------------------------
// Unpacked layout
// ------------------------------------------------------------------

/// The single subdirectory that wraps an unpacked archive: `Some` exactly
/// when the directory holds one entry and that entry is a directory.
pub fn unwrap_single_subdir(entries: &Vec<DirEntryInfo>) -> (r: Option<String>)
    ensures
        (entries.len() == 1 && entries@[0].is_dir) ==> r == Some(entries@[0].path),
        !(entries.len() == 1 && entries@[0].is_dir) ==> r is None,
{
    let mut only: Option<usize> = None;
    let mut i: usize = 0;
    while i < entries.len()
        invariant
            i <= entries.len(),
            forall|j: int| 0 <= j < i ==> entries@[j].is_dir,
            i == 0 ==> only is None,
            i == 1 ==> only == Some(0usize),
            i <= 1,
        decreases entries.len() - i,
    {
        if entries[i].is_dir {
            if only.is_some() {
                return None;
            }
            only = Some(i);
        } else {
            return None;
        }
        i += 1;
    }
    match only {
        Some(k) => Some(entries[k].path.clone()),
        None => None,
    }
}

/// The file a fresh PHP install copies to `php.ini`.
pub enum PhpIniTemplate {
    Production,
    Development,
}

/// The template a fresh PHP install's `php.ini` comes from: none when
/// `php.ini` exists, else `php.ini-production` when present, else
/// `php.ini-development` when present.
pub fn php_ini_template(ini_exists: bool, production_exists: bool, development_exists: bool) -> (r: Option<PhpIniTemplate>)
    ensures
        ini_exists ==> r is None,
        !ini_exists && production_exists ==> r matches Some(PhpIniTemplate::Production),
        !ini_exists && !production_exists && development_exists ==> r matches Some(PhpIniTemplate::Development),
        !ini_exists && !production_exists && !development_exists ==> r is None,
{
    if ini_exists {
        None
    } else if production_exists {
        Some(PhpIniTemplate::Production)
    } else if development_exists {
        Some(PhpIniTemplate::Development)
    } else {
        None
    }
}

} // verus!

verus! {

// ------------------------------------------------------------------
// Checking that a download is a zip archive
// ------------------------------------------------------------------

/// `data` is a zip archive that `zip::ZipArchive::new` opens.
pub uninterp spec fn is_zip_archive(data: Seq<u8>) -> bool;

/// `zip::ZipArchive::new` on the bytes: whether they open as a zip
/// archive (its central directory found and read), else the error's text.
#[verifier::external_body]
fn open_zip(data: &[u8]) -> (r: Result<(), String>)
    ensures
        r is Ok <==> is_zip_archive(data@),
{
    zip::ZipArchive::new(std::io::Cursor::new(data)).map(|_| ()).map_err(|e| e.to_string())
}

/// The message when a download is not a zip archive.
pub open spec fn not_zip_message(e: Seq<char>) -> Seq<char> {
    "下载文件不是有效 zip: "@ + e
}

/// Checks that a downloaded file's bytes are a zip archive (an HTML error
/// page from a mirror is not).
pub fn validate_zip(data: &[u8]) -> (r: Result<(), String>)
    ensures
        r is Ok <==> is_zip_archive(data@),
        r matches Err(m) ==> exists|e: Seq<char>| m@ == not_zip_message(e),
{
    match open_zip(data) {
        Ok(()) => Ok(()),
        Err(e) => {
            let mut m = chars_of("下载文件不是有效 zip: ");
            append_str(&mut m, e.as_str());
            assert(m@ == not_zip_message(e@));
            Err(string_of(&m))
        },
    }
}

} // verus!
