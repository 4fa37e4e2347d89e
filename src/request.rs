use vstd::prelude::*;
use vstd::string::StringSliceAdditionalSpecFns;
use vstd::utf8::encode_utf8;

use crate::text::push_char;

verus! {

/// Everything needed to send one repository search: the address and the
/// values of the request's headers.
pub struct SearchRequest {
    pub url: String,
    pub accept: String,
    pub authorization: String,
    pub user_agent: String,
    pub api_version: String,
}

/// Why a search cannot be set up.
#[derive(PartialEq, Eq, Structural, Debug, Clone, Copy)]
pub enum ConfigError {
    /// No access token was supplied.
    MissingAccessToken,
}

/// A byte that stands for itself in a URL: an ASCII letter or digit, or one
/// of `-`, `.`, `_`, `~`.
pub open spec fn is_unreserved(b: u8) -> bool {
    ||| 0x41 <= b <= 0x5a
    ||| 0x61 <= b <= 0x7a
    ||| 0x30 <= b <= 0x39
    ||| b == 0x2d
    ||| b == 0x2e
    ||| b == 0x5f
    ||| b == 0x7e
}

/// The uppercase hexadecimal digit of a value below 16.
pub open spec fn hex_digit(n: u8) -> char
    recommends
        n < 16,
{
    if n < 10 {
        (0x30 + n) as u8 as char
    } else {
        (0x37 + n) as u8 as char
    }
}

/// How one byte is written in a URL: itself when unreserved, else `%` and
/// two uppercase hexadecimal digits.
pub open spec fn encode_byte(b: u8) -> Seq<char> {
    if is_unreserved(b) {
        seq![b as char]
    } else {
        seq!['%', hex_digit(b / 16), hex_digit(b % 16)]
    }
}

/// The percent-encoding of a sequence of bytes, byte by byte.
pub open spec fn percent_encoded(bytes: Seq<u8>) -> Seq<char>
    decreases bytes.len(),
{
    if bytes.len() == 0 {
        Seq::empty()
    } else {
        percent_encoded(bytes.drop_last()) + encode_byte(bytes.last())
    }
}

/// The search query that scopes a search to one account's repositories.
pub open spec fn query_for(username: Seq<char>) -> Seq<char> {
    "user:"@ + username
}

/// The address of the search for `query`, asking for a page of 100 results.
pub open spec fn url_for(query: Seq<char>) -> Seq<char> {
    "https://api.github.com/search/repositories?q="@ + percent_encoded(encode_utf8(query))
        + "&per_page=100"@
}

fn hex_char(n: u8) -> (c: char)
    requires
        n < 16,
    ensures
        c == hex_digit(n),
{
    if n < 10 {
        (0x30 + n) as char
    } else {
        (0x37 + n) as char
    }
}

/// Percent-encodes the UTF-8 bytes of `s`: every byte but the unreserved
/// ones becomes `%` and two uppercase hexadecimal digits.
pub fn percent_encode(s: &str) -> (r: String)
    ensures
        r@ == percent_encoded(s.spec_bytes()),
{
    let bytes = s.as_bytes();
    let mut out = String::new();
    let mut i: usize = 0;
    while i < bytes.len()
        invariant
            i <= bytes@.len(),
            bytes@ == s.spec_bytes(),
            out@ == percent_encoded(bytes@.subrange(0, i as int)),
        decreases bytes@.len() - i,
    {
        let b = bytes[i];
        let ghost before = out@;
        if (0x41 <= b && b <= 0x5a) || (0x61 <= b && b <= 0x7a) || (0x30 <= b && b <= 0x39) || b
            == 0x2d || b == 0x2e || b == 0x5f || b == 0x7e {
            push_char(&mut out, b as char);
            assert(out@ =~= before + encode_byte(b));
        } else {
            push_char(&mut out, '%');
            push_char(&mut out, hex_char(b / 16));
            push_char(&mut out, hex_char(b % 16));
            assert(out@ =~= before + encode_byte(b));
        }
        assert(bytes@.subrange(0, i + 1).drop_last() =~= bytes@.subrange(0, i as int));
        i = i + 1;
    }
    assert(bytes@.subrange(0, i as int) =~= bytes@);
    out
}

/// The search query `user:<username>`.
pub fn search_query(username: &str) -> (r: String)
    ensures
        r@ == query_for(username@),
{
    let mut q = String::from_str("user:");
    q.append(username);
    q
}

/// The address of the repository search for `query`, with the query
/// percent-encoded and the page size fixed at 100.
pub fn search_url(query: &str) -> (r: String)
    ensures
        r@ == url_for(query@),
{
    let encoded = percent_encode(query);
    let mut url = String::from_str("https://api.github.com/search/repositories?q=");
    url.append(encoded.as_str());
    url.append("&per_page=100");
    url
}

/// The `Authorization` header value that carries a bearer token.
pub fn bearer(token: &str) -> (r: String)
    ensures
        r@ == "Bearer "@ + token@,
{
    let mut h = String::from_str("Bearer ");
    h.append(token);
    h
}

/// The `User-Agent` header value `<tool>/<version>`.
pub fn user_agent(tool: &str, version: &str) -> (r: String)
    ensures
        r@ == tool@ + "/"@ + version@,
{
    let mut a = String::from_str(tool);
    a.append("/");
    a.append(version);
    a
}

/// Sets up the search of `username`'s repositories. Without an access token
/// nothing is set up and the error says so; with one, the request asks for
/// the JSON media type, carries the token as a bearer credential, names the
/// tool and its version, and pins the API version.
pub fn search_request(username: &str, token: Option<&str>, tool: &str, version: &str) -> (r: Result<
    SearchRequest,
    ConfigError,
>)
    ensures
        r is Err <==> token is None,
        r is Err ==> r->Err_0 == ConfigError::MissingAccessToken,
        r is Ok ==> ({
            let req = r->Ok_0;
            &&& req.url@ == url_for(query_for(username@))
            &&& req.accept@ == "application/vnd.github+json"@
            &&& req.authorization@ == "Bearer "@ + token->Some_0@
            &&& req.user_agent@ == tool@ + "/"@ + version@
            &&& req.api_version@ == "2022-11-28"@
        }),
{
    match token {
        None => Err(ConfigError::MissingAccessToken),
        Some(t) => {
            let query = search_query(username);
            Ok(
                SearchRequest {
                    url: search_url(query.as_str()),
                    accept: String::from_str("application/vnd.github+json"),
                    authorization: bearer(t),
                    user_agent: user_agent(tool, version),
                    api_version: String::from_str("2022-11-28"),
                },
            )
        },
    }
}

} // verus!
