use vstd::prelude::*;
use vstd::string::StringExecFns;

verus! {

#[verifier::external_type_specification]
#[verifier::external_body]
pub struct ExUri(http::Uri);

#[verifier::external_type_specification]
#[verifier::external_body]
pub struct ExInvalidUri(http::uri::InvalidUri);

/// What the `http` crate's parse of `text` as a URI gives: the `Uri`, or the
/// reason it refuses the text.
pub uninterp spec fn uri_parse(text: Seq<char>) -> Result<http::Uri, http::uri::InvalidUri>;

/// Whether the `http` crate accepts `text` as a URI.
pub open spec fn uri_accepts(text: Seq<char>) -> bool {
    uri_parse(text) is Ok
}

/// Parses `text` with `http::Uri`'s `FromStr` implementation.
///
/// The contract claims that the result is `uri_parse` of the text: the crate
/// decides and builds the `Uri` from the bytes of the string and nothing
/// else, so equal texts give equal results. What a parsed `Uri` holds, and
/// which texts are accepted, is left to that name.
#[verifier::external_body]
fn parse_uri(text: &str) -> (r: Result<http::Uri, http::uri::InvalidUri>)
    ensures
        r == uri_parse(text@),
{
    text.parse::<http::Uri>()
}

/// Why a mirrored request could not be prepared for sending.
#[derive(Clone, Copy, Debug, PartialEq, Eq, Structural)]
pub enum SendError {
    /// The target and path do not form a valid URI.
    InvalidUri,
}

/// The address a request is mirrored to: plain `http` to the target, with the
/// original path and query.
pub open spec fn mirror_uri_text(authority: Seq<char>, path: Seq<char>) -> Seq<char> {
    "http://"@ + authority + path
}

/// Builds the text of the address that a request with `path` is mirrored to
/// on the target `authority` (such as `127.0.0.1:8080`).
pub fn mirror_uri(authority: &str, path: &str) -> (text: String)
    ensures
        text@ == mirror_uri_text(authority@, path@),
        text@ == "http://"@ + authority@ + path@,
{
    let scheme = "http://".to_owned();
    let with_authority = scheme.concat(authority);
    with_authority.concat(path)
}

/// The parsed `Uri` itself, or the mirror's own error in place of the parse error.
pub open spec fn target_from_parse(parsed: Result<http::Uri, http::uri::InvalidUri>) -> Result<
    http::Uri,
    SendError,
> {
    match parsed {
        Ok(uri) => Ok(uri),
        Err(_) => Err(SendError::InvalidUri),
    }
}

/// Turns the result of parsing a mirror address into the mirror's own error.
pub fn parsed_target(parsed: Result<http::Uri, http::uri::InvalidUri>) -> (r: Result<
    http::Uri,
    SendError,
>)
    ensures
        r == target_from_parse(parsed),
{
    match parsed {
        Ok(uri) => Ok(uri),
        Err(_) => Err(SendError::InvalidUri),
    }
}

/// The URI a request with `path` is mirrored to on the target `authority`:
/// the `http` crate's parse of `http://` followed by the authority and the
/// path; fails exactly when the crate does not accept that text.
pub fn target_uri(authority: &str, path: &str) -> (r: Result<http::Uri, SendError>)
    ensures
        r == target_from_parse(uri_parse(mirror_uri_text(authority@, path@))),
        r is Ok <==> uri_accepts(mirror_uri_text(authority@, path@)),
        r matches Ok(u) ==> uri_parse(mirror_uri_text(authority@, path@)) == Ok::<
            http::Uri,
            http::uri::InvalidUri,
        >(u),
        r is Err ==> r == Err::<http::Uri, SendError>(SendError::InvalidUri),
        r is Ok <==> uri_parse("http://"@ + authority@ + path@) is Ok,
        r matches Ok(u) ==> uri_parse("http://"@ + authority@ + path@) == Ok::<
            http::Uri,
            http::uri::InvalidUri,
        >(u),
{
    let text = mirror_uri(authority, path);
    parsed_target(parse_uri(text.as_str()))
}

/// The mirror address keeps everything it is built from, verbatim and in
/// order: it is exactly seven characters of `http://`, then the whole target
/// authority, then the whole path and query, and nothing else.
pub proof fn lemma_mirror_uri_text_layout(authority: Seq<char>, path: Seq<char>)
    ensures
        mirror_uri_text(authority, path).len() == 7 + authority.len() + path.len(),
        mirror_uri_text(authority, path).subrange(0, 7) == seq!['h', 't', 't', 'p', ':', '/', '/'],
        mirror_uri_text(authority, path).subrange(7, 7 + authority.len() as int) == authority,
        mirror_uri_text(authority, path).subrange(
            7 + authority.len() as int,
            7 + authority.len() as int + path.len() as int,
        ) == path,
{
    reveal_strlit("http://");
    let t = mirror_uri_text(authority, path);
    assert("http://"@.len() == 7);
    assert(t.subrange(0, 7) =~= seq!['h', 't', 't', 'p', ':', '/', '/']);
    assert(t.subrange(7, 7 + authority.len() as int) =~= authority);
    assert(t.subrange(7 + authority.len() as int, 7 + authority.len() as int + path.len() as int) =~= path);
}

/// Two targets get the same mirror address for a path only if they are the
/// same target, and two paths only if they are the same path: no character of
/// either input is dropped or replaced.
pub proof fn lemma_mirror_uri_text_injective(a1: Seq<char>, p1: Seq<char>, a2: Seq<char>, p2: Seq<char>)
    requires
        a1.len() == a2.len(),
        mirror_uri_text(a1, p1) == mirror_uri_text(a2, p2),
    ensures
        a1 == a2,
        p1 == p2,
{
    lemma_mirror_uri_text_layout(a1, p1);
    lemma_mirror_uri_text_layout(a2, p2);
}

} // verus!
