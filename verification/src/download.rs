use vstd::prelude::*;

use crate::transaction::PayloadError;
use crate::url::{spec_url_path_segments, url_path_segments};

verus! {

/// The lowercase hexadecimal SHA-256 digest of a text's UTF-8 bytes, as
/// `sha2::Sha256` computes it and `{:x}` prints it.
pub uninterp spec fn spec_sha256_hex(text: Seq<char>) -> Seq<char>;

/// Whether a character is a lowercase hexadecimal digit.
pub open spec fn is_lower_hex(c: char) -> bool {
    ('0' <= c && c <= '9') || ('a' <= c && c <= 'f')
}

/// Hashes a text's UTF-8 bytes with `sha2::Sha256` and prints the digest with
/// `{:x}`: the 32 bytes of the digest become 64 lowercase hexadecimal digits
/// (`generic_array`'s `LowerHex`).
#[verifier::external_body]
fn sha256_hex(text: &str) -> (r: String)
    ensures
        r@ == spec_sha256_hex(text@),
        r@.len() == 64,
        forall|i: int| 0 <= i < 64 ==> is_lower_hex(#[trigger] r@[i]),
{
    let mut sha = <sha2::Sha256 as sha2::Digest>::new();
    sha2::Digest::update(&mut sha, text.as_bytes());
    format!("{:x}", sha2::Digest::finalize(sha))
}

/// The cache directories of a URL, below the cache root: the first two
/// digits of its digest, the next two, and the rest.
pub open spec fn hash_dirs(url: Seq<char>) -> Seq<Seq<char>> {
    let h = spec_sha256_hex(url);
    seq![h.subrange(0, 2), h.subrange(2, 4), h.subrange(4, h.len() as int)]
}

/// The directories, below the cache root, in which the download of a URL is kept.
pub fn download_dirs(url: &str) -> (r: Vec<String>)
    ensures
        r@.len() == 3,
        forall|i: int| 0 <= i < 3 ==> #[trigger] r@[i]@ == hash_dirs(url@)[i],
{
    let hash = sha256_hex(url);
    let h = hash.as_str();
    let mut out: Vec<String> = Vec::new();
    out.push(String::from_str(h.substring_char(0, 2)));
    out.push(String::from_str(h.substring_char(2, 4)));
    out.push(String::from_str(h.substring_char(4, 64)));
    out
}

/// The last path segment of a URL, where it parses and has a path.
pub open spec fn last_segment(url: Seq<char>) -> Option<Seq<char>> {
    match spec_url_path_segments(url) {
        Some(Some(segs)) => Some(segs.last()),
        _ => None,
    }
}

/// The file name a download is saved under: the last path segment of its URL.
pub fn download_file_name(url: &str) -> (r: Result<String, DownloadError>)
    ensures
        match r {
            Ok(name) => last_segment(url@) == Some(name@),
            Err(e) => last_segment(url@) is None && e == DownloadError::InvalidUrl,
        },
{
    match url_path_segments(url) {
        Some(Some(segments)) => {
            let n = segments.len();
            Ok(segments[n - 1].clone())
        },
        _ => Err(DownloadError::InvalidUrl),
    }
}

/// The file name a cached package is kept under: the last path segment of
/// its URL, or the empty name where the URL has no path.
pub fn cached_file_name(url: &str) -> (r: String)
    ensures
        r@ == match last_segment(url@) {
            Some(name) => name,
            None => Seq::empty(),
        },
{
    match download_file_name(url) {
        Ok(name) => name,
        Err(_) => String::new(),
    }
}

/// Why a download failed, where the reason is not an I/O failure.
#[derive(Debug, Clone)]
pub enum DownloadError {
    Payload(PayloadError),
    InvalidUrl,
    UserCancelled,
    LockFailure,
}

/// Whether a progress event is due: the download is complete, or at least
/// 750 milliseconds passed since the last event.
pub open spec fn progress_due(downloaded: u64, total: u64, elapsed_ms: u128) -> bool {
    downloaded == total || elapsed_ms >= 750
}

/// How far a download got: bytes received, and bytes expected (0 when unknown).
#[derive(Debug, Clone, Copy, PartialEq, Eq, Structural)]
pub struct DownloadProgress {
    pub downloaded: u64,
    pub total: u64,
}

impl DownloadProgress {
    /// A download expecting `total` bytes, none received yet.
    pub fn new(total: u64) -> (r: DownloadProgress)
        ensures
            r.downloaded == 0,
            r.total == total,
    {
        DownloadProgress { downloaded: 0, total }
    }

    /// Records a received chunk and tells whether a progress event is due,
    /// given the milliseconds since the last one.
    pub fn record_chunk(&mut self, len: u64, elapsed_ms: u128) -> (emit: bool)
        requires
            old(self).downloaded + len <= u64::MAX,
        ensures
            final(self).downloaded == old(self).downloaded + len,
            final(self).total == old(self).total,
            emit == progress_due(final(self).downloaded, final(self).total, elapsed_ms),
    {
        self.downloaded = self.downloaded + len;
        self.downloaded == self.total || elapsed_ms >= 750
    }
}

/// The value of a string of decimal digits.
pub open spec fn decimal_value(digits: Seq<char>) -> nat
    decreases digits.len(),
{
    if digits.len() == 0 {
        0
    } else {
        decimal_value(digits.drop_last()) * 10 + (digits.last() as nat - '0' as nat) as nat
    }
}

/// Whether every character is a decimal digit.
pub open spec fn all_digits(s: Seq<char>) -> bool {
    forall|i: int| 0 <= i < s.len() ==> '0' <= #[trigger] s[i] && s[i] <= '9'
}

/// The unsigned integer a text reads as, as `u64::from_str` reads it: an
/// optional `+`, then one or more decimal digits, with a value that fits.
pub open spec fn parsed_u64(s: Seq<char>) -> Option<u64> {
    let digits = if s.len() > 0 && s[0] == '+' {
        s.subrange(1, s.len() as int)
    } else {
        s
    };
    if digits.len() > 0 && all_digits(digits) && decimal_value(digits) <= u64::MAX {
        Some(decimal_value(digits) as u64)
    } else {
        None
    }
}

/// A longer string of digits is worth at least as much as its prefix.
proof fn lemma_decimal_prefix(s: Seq<char>, i: int)
    requires
        0 <= i <= s.len(),
        all_digits(s),
    ensures
        decimal_value(s.take(i)) <= decimal_value(s),
    decreases s.len() - i,
{
    if i == s.len() {
        assert(s.take(i) =~= s);
    } else {
        lemma_decimal_prefix(s, i + 1);
        let t = s.take(i + 1);
        assert(t.drop_last() =~= s.take(i));
        assert(t.last() == s[i]);
        assert('0' <= s[i]);
    }
}

/// Reads an unsigned integer as `u64::from_str` does.
pub fn parse_u64(s: &str) -> (r: Option<u64>)
    ensures
        r == parsed_u64(s@),
{
    let n = s.unicode_len();
    let mut start: usize = 0;
    if n > 0 && s.get_char(0) == '+' {
        start = 1;
    }
    let ghost digits = s@.subrange(start as int, n as int);
    proof {
        if start == 0 {
            assert(digits =~= s@);
        }
        assert(digits == if s@.len() > 0 && s@[0] == '+' {
            s@.subrange(1, s@.len() as int)
        } else {
            s@
        });
    }
    if start == n {
        return None;
    }
    let mut value: u64 = 0;
    let mut i: usize = start;
    while i < n
        invariant
            start <= i <= n,
            start < n,
            n == s@.len(),
            digits == s@.subrange(start as int, n as int),
            digits == if s@.len() > 0 && s@[0] == '+' {
                s@.subrange(1, s@.len() as int)
            } else {
                s@
            },
            all_digits(digits.take(i - start)),
            value == decimal_value(digits.take(i - start)),
        decreases n - i,
    {
        let c = s.get_char(i);
        let k = i - start;
        proof {
            assert(digits[k as int] == c);
            assert(digits.take(k + 1).drop_last() =~= digits.take(k as int));
        }
        if c < '0' || c > '9' {
            proof {
                assert(!all_digits(digits));
            }
            return None;
        }
        let d: u64 = (c as u64) - ('0' as u64);
        let times_ten = value.checked_mul(10);
        let next = match times_ten {
            Some(t) => t.checked_add(d),
            None => None,
        };
        match next {
            Some(v) => {
                value = v;
            },
            None => {
                proof {
                    assert(all_digits(digits.take(k + 1)));
                    assert(decimal_value(digits.take(k + 1)) > u64::MAX);
                    if all_digits(digits) {
                        lemma_decimal_prefix(digits, k + 1);
                    }
                }
                return None;
            },
        }
        i = i + 1;
    }
    proof {
        assert(digits.take(n - start) =~= digits);
    }
    Some(value)
}

/// The length a download announces: its `Content-Length` header read as a
/// number, or 0 where the header is missing or unreadable.
pub fn content_length(header: Option<&str>) -> (r: u64)
    ensures
        r == match header {
            Some(h) => match parsed_u64(h@) {
                Some(v) => v,
                None => 0,
            },
            None => 0,
        },
{
    match header {
        Some(h) => match parse_u64(h) {
            Some(v) => v,
            None => 0,
        },
        None => 0,
    }
}

} // verus!
