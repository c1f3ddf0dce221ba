//! Document identifiers, checked by the URI parser of `lsp_types`.
use vstd::prelude::*;
use vstd::utf8::encode_utf8;

verus! {

/// Whether `lsp_types::Uri::from_str` accepts the characters `s` (an RFC 3986 URI reference).
pub uninterp spec fn uri_parses(s: Seq<char>) -> bool;

/// Trusted: calls `lsp_types::Uri::from_str` (which parses with `fluent_uri::Uri::parse`) and
/// reports whether it succeeded. Claims only that the answer is a function of the characters
/// of `s`; which strings are accepted is left unsaid. The parser panics on input longer than
/// `i32::MAX` bytes, which `requires` leaves out.
#[verifier::external_body]
pub(crate) fn parse_uri(s: &str) -> (r: bool)
    requires
        encode_utf8(s@).len() <= i32::MAX,
    ensures
        r == uri_parses(s@),
{
    <lsp_types::Uri as std::str::FromStr>::from_str(s).is_ok()
}

/// The path component that `lsp_types::Uri` finds in the characters `s`, when they parse.
pub uninterp spec fn uri_path_of(s: Seq<char>) -> Seq<char>;

/// Trusted: parses `s` with `lsp_types::Uri::from_str` and, when that succeeds, copies out the
/// URI's path component (`fluent_uri::Uri::path`, which cannot fail on a parsed URI). Claims
/// that a path comes back exactly when `s` parses, and that it is a function of the characters
/// of `s`; what the path is is left unsaid. Input longer than `i32::MAX` bytes, on which the
/// parser panics, is left out.
#[verifier::external_body]
pub(crate) fn uri_path(s: &str) -> (r: Option<String>)
    requires
        encode_utf8(s@).len() <= i32::MAX,
    ensures
        r is Some <==> uri_parses(s@),
        r matches Some(p) ==> p@ == uri_path_of(s@),
{
    match <lsp_types::Uri as std::str::FromStr>::from_str(s) {
        Ok(u) => Some(u.path().as_str().to_string()),
        Err(_) => None,
    }
}

} // verus!
