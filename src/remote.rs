use vstd::prelude::*;

use crate::attrs::Timestamp;

verus! {

/// A failed call to the remote store: network failure, timeout, a status
/// outside 2xx or a body that could not be read.
#[derive(Clone, Copy, Debug, PartialEq, Eq, Structural)]
pub struct RemoteError;

/// One entry of a remote directory listing.
pub struct FileEntry {
    pub name: String,
    pub is_dir: bool,
    pub size: u64,
    pub mtime: Timestamp,
    pub ctime: Timestamp,
    pub mode: u32,
}

/// Metadata of a remote object as its response headers describe it.
#[derive(Clone, Copy, Debug, PartialEq, Eq, Structural)]
pub struct FileInfo {
    pub size: u64,
    pub is_dir: bool,
    pub modified: Timestamp,
}

/// A name and kind in a remote directory.
pub struct DirEntry {
    pub name: String,
    pub is_dir: bool,
}

pub open spec fn is_digit(c: char) -> bool {
    '0' <= c <= '9'
}

/// The value of a string of decimal digits.
pub open spec fn digits_value(s: Seq<char>) -> int
    decreases s.len(),
{
    if s.len() == 0 {
        0
    } else {
        digits_value(s.drop_last()) * 10 + (s.last() as int - '0' as int)
    }
}

/// The digits of an unsigned decimal, without its optional `+` sign.
pub open spec fn unsigned_digits(s: Seq<char>) -> Seq<char> {
    if s.len() > 0 && s[0] == '+' {
        s.drop_first()
    } else {
        s
    }
}

/// The `u64` that `s` writes in decimal: an optional `+` and at least one
/// digit, nothing else, and a value that fits.
pub open spec fn decimal_u64(s: Seq<char>) -> Option<u64> {
    let d = unsigned_digits(s);
    if d.len() > 0 && (forall|i: int| 0 <= i < d.len() ==> is_digit(#[trigger] d[i]))
        && digits_value(d) <= u64::MAX {
        Some(digits_value(d) as u64)
    } else {
        None
    }
}

/// Seconds since the Unix epoch of an HTTP date (IMF-fixdate, RFC 850 or
/// asctime form), if `s` is one.
pub uninterp spec fn http_date_secs(s: Seq<char>) -> Option<u64>;

/// Relies on `u64`'s `FromStr`: an optional `+` followed by decimal digits
/// only, within range; anything else is an error.
#[verifier::external_body]
fn parse_decimal(s: &str) -> (r: Option<u64>)
    ensures
        r == decimal_u64(s@),
{
    s.parse::<u64>().ok()
}

/// Relies on `httpdate::parse_http_date`, which yields whole seconds from a
/// date in the years 1970 to 9999.
#[verifier::external_body]
fn parse_http_date_secs(s: &str) -> (r: Option<u64>)
    ensures
        r == http_date_secs(s@),
        r is Some ==> r.unwrap() < 253402300800,
{
    match httpdate::parse_http_date(s) {
        Ok(t) => match t.duration_since(std::time::UNIX_EPOCH) {
            Ok(d) => Some(d.as_secs()),
            Err(_) => None,
        },
        Err(_) => None,
    }
}

/// The first and last byte of a ranged read of `size` bytes at `offset`, as
/// an HTTP `Range` header names them; `None` for an empty read or one that
/// runs past the last addressable byte.
pub fn byte_range(offset: u64, size: u32) -> (r: Option<(u64, u64)>)
    ensures
        size == 0 || offset + size - 1 > u64::MAX ==> r is None,
        !(size == 0 || offset + size - 1 > u64::MAX) ==> r == Some(
            (offset, (offset + size - 1) as u64),
        ),
{
    if size == 0 || offset > u64::MAX - (size as u64 - 1) {
        None
    } else {
        Some((offset, offset + (size as u64 - 1)))
    }
}

impl FileInfo {
    /// Reads an object's metadata from the values of its `Content-Length`
    /// and `Last-Modified` headers: a missing or unreadable length counts as
    /// zero, a missing or unreadable date as the epoch.
    pub fn from_headers(content_length: Option<&str>, last_modified: Option<&str>) -> (r: FileInfo)
        ensures
            r.is_dir == false,
            r.size == match content_length {
                Some(s) => match decimal_u64(s@) {
                    Some(n) => n,
                    None => 0,
                },
                None => 0,
            },
            r.modified.nanos == 0,
            r.modified.secs == match last_modified {
                Some(s) => match http_date_secs(s@) {
                    Some(n) => n,
                    None => 0,
                },
                None => 0,
            },
    {
        let size = match content_length {
            Some(s) => match parse_decimal(s) {
                Some(n) => n,
                None => 0,
            },
            None => 0,
        };
        let secs = match last_modified {
            Some(s) => match parse_http_date_secs(s) {
                Some(n) => n,
                None => 0,
            },
            None => 0,
        };
        FileInfo { size, is_dir: false, modified: Timestamp { secs, nanos: 0 } }
    }
}

} // verus!
