//! Where session files live and how the API credentials are chosen.
use vstd::prelude::*;
use vstd::string::*;

use crate::text::{int_error, parse_i32_checked, parse_integer, IntErrorKind};

verus! {

/// The application id used when none is configured.
pub const DEFAULT_API_ID: i32 = 9911045;

/// The characters a phone number keeps in a file name: ASCII letters, digits,
/// `-` and `_`, with `+` written as `p`; others are dropped.
pub open spec fn file_char(c: char) -> Option<char> {
    if ('a' <= c <= 'z') || ('A' <= c <= 'Z') || ('0' <= c <= '9') || c == '-' || c == '_' {
        Some(c)
    } else if c == '+' {
        Some('p')
    } else {
        None
    }
}

/// `s` with each character mapped by `file_char`.
pub open spec fn sanitized(s: Seq<char>) -> Seq<char>
    decreases s.len(),
{
    if s.len() == 0 {
        seq![]
    } else {
        match file_char(s.last()) {
            Some(c) => sanitized(s.drop_last()).push(c),
            None => sanitized(s.drop_last()),
        }
    }
}

/// The file name stem for `s`: its sanitized form, or `default` when that is empty.
pub open spec fn file_stem(s: Seq<char>) -> Seq<char> {
    if sanitized(s).len() == 0 {
        "default"@
    } else {
        sanitized(s)
    }
}

/// A file name stem made from `value` that holds only safe characters.
pub fn sanitize_filename(value: &str) -> (r: String)
    ensures
        r@ == file_stem(value@),
{
    let mut out = String::new();
    let ghost s = value@;
    for ch in it: value.chars()
        invariant
            it.seq() == s,
            out@ == sanitized(s.take(it.index() as int)),
    {
        let ghost k = it.index() as int;
        assert(s.take(k + 1).drop_last() == s.take(k));
        assert(s.take(k + 1).last() == ch);
        if ('a' <= ch && ch <= 'z') || ('A' <= ch && ch <= 'Z') || ('0' <= ch && ch <= '9') || ch
            == '-' || ch == '_' {
            out.push(ch);
        } else if ch == '+' {
            out.push('p');
        }
    }
    assert(s.take(s.len() as int) == s);
    if out.as_str().unicode_len() == 0 {
        String::from_str("default")
    } else {
        out
    }
}

/// The directory that holds the session files.
pub fn session_dir() -> (r: &'static str)
    ensures
        r@ == ".tel/sessions"@,
{
    ".tel/sessions"
}

/// The session file of a phone number, inside `session_dir()`.
pub fn session_path_for_phone(phone: &str) -> (r: String)
    ensures
        r@ == ".tel/sessions"@ + "/"@ + file_stem(phone@) + ".sqlite"@,
{
    let stem = sanitize_filename(phone);
    String::from_str(session_dir()).concat("/").concat(stem.as_str()).concat(".sqlite")
}

/// The configured application id is not an `i32`; `kind` says why.
#[derive(Debug, Clone, Copy, PartialEq, Eq, Structural)]
pub struct InvalidApiId {
    pub kind: IntErrorKind,
}

impl InvalidApiId {
    /// The message that reports this error.
    pub fn message(&self) -> (r: String)
        ensures
            r@ == "TG_API_ID must be a valid i32"@,
    {
        String::from_str("TG_API_ID must be a valid i32")
    }
}

/// The application id: the configured value parsed as an `i32`, or the
/// default one when none is configured. A value that does not parse is
/// refused with the reason that `i32`'s parser gives.
pub fn api_id_from(configured: Option<&str>) -> (r: Result<i32, InvalidApiId>)
    ensures
        match configured {
            None => r == Ok::<i32, InvalidApiId>(DEFAULT_API_ID),
            Some(v) => match parse_integer(v@, true, i32::MIN as int, i32::MAX as int) {
                Some(x) => r matches Ok(y) && y as int == x,
                None => r matches Err(e) && Some(e.kind) == int_error(
                    v@,
                    true,
                    i32::MAX as nat,
                    2147483648,
                ),
            },
        },
{
    match configured {
        None => Ok(DEFAULT_API_ID),
        Some(v) => match parse_i32_checked(v) {
            Ok(x) => Ok(x),
            Err(kind) => Err(InvalidApiId { kind }),
        },
    }
}

/// The application hash: the configured one, or the default one.
pub fn api_hash_from(configured: Option<String>) -> (r: String)
    ensures
        match configured {
            Some(h) => r == h,
            None => r@ == "45ae393448c97ddbd6c74d02b31ea024"@,
        },
{
    match configured {
        Some(h) => h,
        None => String::from_str("45ae393448c97ddbd6c74d02b31ea024"),
    }
}

} // verus!
