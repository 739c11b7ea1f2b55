//! HTTP header maps (`actix_http::header::HeaderMap`), header names and
//! header values.
//!
//! A map is seen through its contents: each name, as the `http` crate
//! normalises it (lower case), with its values as raw bytes. `insert` gives
//! a name one value, `remove` drops all of its values, and `get` reads the
//! first.
use vstd::prelude::*;
use vstd::string::*;
use crate::text::opt_view;
use actix_web::http::header::{HeaderMap, HeaderName, HeaderValue};
use std::str::FromStr;

verus! {

/// Header maps of `actix-http`, carried as they are.
#[verifier::external_type_specification]
#[verifier::external_body]
pub struct ExHeaderMap(HeaderMap);

/// What a header map holds: each normalised (lower-case) name with its
/// values, first one first.
pub type HeaderContents = Map<Seq<char>, Seq<Seq<u8>>>;

/// The contents of an `actix_http::header::HeaderMap`.
pub uninterp spec fn header_map_view(m: HeaderMap) -> Map<Seq<char>, Seq<Seq<u8>>>;

/// The first value of `n`, if the map holds `n`.
pub open spec fn first_value(hs: HeaderContents, n: Seq<char>) -> Option<Seq<u8>> {
    if hs.contains_key(n) {
        Some(hs[n][0])
    } else {
        None
    }
}

/// Whether `m` holds `name` (`HeaderMap::contains_key`); a name that
/// `HeaderName::from_str` refuses is never held.
#[verifier::external_body]
pub(crate) fn header_map_contains(m: &HeaderMap, name: &str) -> (r: bool)
    ensures
        r == match header_name_of(name@) {
            Some(n) => header_map_view(*m).contains_key(n),
            None => false,
        },
{
    m.contains_key(name)
}

/// The first value of `name` in `m` (`HeaderMap::get`), as its bytes
/// (`HeaderValue::as_bytes`); `None` when `m` does not hold the name or
/// `HeaderName::from_str` refuses it.
#[verifier::external_body]
pub(crate) fn header_map_get(m: &HeaderMap, name: &str) -> (r: Option<Vec<u8>>)
    ensures
        match header_name_of(name@) {
            Some(n) => match r {
                Some(v) => first_value(header_map_view(*m), n) == Some(v@),
                None => first_value(header_map_view(*m), n) is None,
            },
            None => r is None,
        },
{
    match m.get(name) {
        Some(v) => Some(v.as_bytes().to_vec()),
        None => None,
    }
}

/// `HeaderMap::insert` of `name`, read by `HeaderName::from_str`, and
/// `value`, read by `HeaderValue::from_bytes`: the name then holds that one
/// value and every other name keeps its values. Both parses succeed on the
/// inputs that `requires` admits.
#[verifier::external_body]
pub(crate) fn header_map_insert(m: &mut HeaderMap, name: &str, value: &[u8])
    requires
        header_name_of(name@) is Some,
        value_ok(value@),
    ensures
        header_map_view(*final(m)) == header_map_view(*old(m)).insert(
            header_name_of(name@)->0,
            seq![value@],
        ),
{
    if let (Ok(n), Ok(v)) = (HeaderName::from_str(name), HeaderValue::from_bytes(value)) {
        m.insert(n, v);
    }
}

/// `HeaderMap::remove`: every value of `name` goes, and the other names keep
/// theirs; a name that `HeaderName::from_str` refuses changes nothing.
#[verifier::external_body]
pub(crate) fn header_map_remove(m: &mut HeaderMap, name: &str)
    ensures
        header_map_view(*final(m)) == match header_name_of(name@) {
            Some(n) => header_map_view(*old(m)).remove(n),
            None => header_map_view(*old(m)),
        },
{
    let _ = m.remove(name);
}

/// How `http`'s header-name table reads a byte: token characters stand for
/// themselves, capital letters become small, and every other byte is
/// refused (zero).
pub open spec fn header_char(b: u8) -> u8 {
    if 65 <= b <= 90 {
        (b + 32) as u8
    } else if b == 33 || (34 <= b <= 39) || b == 42 || b == 43 || b == 45 || b == 46 || (48 <= b
        <= 57) || (94 <= b <= 122) || b == 124 || b == 126 {
        b
    } else {
        0
    }
}

/// What `http::HeaderName::from_str` makes of a name: from 1 to 65535
/// bytes, each one the table accepts, read through the table (so in lower
/// case); `None` otherwise.
pub open spec fn header_name_of(name: Seq<char>) -> Option<Seq<char>> {
    let bs = vstd::utf8::encode_utf8(name);
    if 1 <= bs.len() <= 65535 && forall|i: int| 0 <= i < bs.len() ==> header_char(#[trigger] bs[i]) != 0 {
        Some(Seq::new(bs.len(), |i: int| header_char(bs[i]) as char))
    } else {
        None
    }
}

/// Parses `name` with `http::header::HeaderName::from_str` and gives its
/// normalised text (`HeaderName::as_str`); `None` when it is refused, as
/// `header_name_of` states.
#[verifier::external_body]
pub(crate) fn parse_header_name(name: &str) -> (r: Option<String>)
    ensures
        opt_view(r) == header_name_of(name@),
{
    match HeaderName::from_str(name) {
        Ok(n) => Some(n.as_str().to_string()),
        Err(_) => None,
    }
}

/// A byte `http::HeaderValue` accepts: visible ASCII, space, tab, or any
/// byte from 128 up.
pub open spec fn value_byte_ok(b: u8) -> bool {
    (b >= 32 && b != 127) || b == 9
}

/// A byte `http::HeaderValue::to_str` accepts: visible ASCII, space or tab.
pub open spec fn visible_byte(b: u8) -> bool {
    (b >= 32 && b < 127) || b == 9
}

/// Whether `bytes` make a valid header value.
pub open spec fn value_ok(bytes: Seq<u8>) -> bool {
    forall|i: int| 0 <= i < bytes.len() ==> value_byte_ok(#[trigger] bytes[i])
}

/// Whether a header value reads as text.
pub open spec fn value_readable(bytes: Seq<u8>) -> bool {
    forall|i: int| 0 <= i < bytes.len() ==> visible_byte(#[trigger] bytes[i])
}

/// The text of a readable header value: one character per byte.
pub open spec fn value_text(bytes: Seq<u8>) -> Seq<char> {
    bytes.map_values(|b: u8| b as char)
}

/// Whether `bytes` make a valid header value, as `HeaderValue::from_bytes` checks.
pub fn check_value(bytes: &Vec<u8>) -> (r: bool)
    ensures
        r == value_ok(bytes@),
{
    let mut i: usize = 0;
    while i < bytes.len()
        invariant
            i <= bytes.len(),
            forall|j: int| 0 <= j < i ==> value_byte_ok(#[trigger] bytes@[j]),
        decreases bytes.len() - i,
    {
        let b = bytes[i];
        if !((b >= 32 && b != 127) || b == 9) {
            assert(!value_byte_ok(bytes@[i as int]));
            return false;
        }
        i = i + 1;
    }
    true
}

/// The text of a header value when it reads as text, as
/// `HeaderValue::to_str` gives it.
pub fn read_value(bytes: &Vec<u8>) -> (r: Option<String>)
    ensures
        r is Some <==> value_readable(bytes@),
        r matches Some(s) ==> s@ == value_text(bytes@),
{
    let mut s = String::new();
    let mut i: usize = 0;
    while i < bytes.len()
        invariant
            i <= bytes.len(),
            forall|j: int| 0 <= j < i ==> visible_byte(#[trigger] bytes@[j]),
            s@ == value_text(bytes@.take(i as int)),
        decreases bytes.len() - i,
    {
        let b = bytes[i];
        if !((b >= 32 && b < 127) || b == 9) {
            assert(!visible_byte(bytes@[i as int]));
            return None;
        }
        s.push(b as char);
        assert(value_text(bytes@.take(i + 1)) =~= value_text(bytes@.take(i as int)).push(
            b as char,
        ));
        i = i + 1;
    }
    assert(bytes@.take(bytes.len() as int) =~= bytes@);
    Some(s)
}

} // verus!
