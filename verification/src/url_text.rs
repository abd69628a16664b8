//! URLs as texts: parsing, resolving a path, and query strings.

use vstd::prelude::*;
use vstd::utf8::*;

verus! {

/// Why a text is no absolute URL; nothing if it is one.
pub uninterp spec fn url_error(text: Seq<char>) -> Option<Seq<char>>;

/// `Url::parse`: whether it accepts the text, or the `Display` of its error.
#[verifier::external_body]
pub(crate) fn check_url(text: &str) -> (result: Result<(), String>)
    ensures
        match url_error(text@) {
            Some(reason) => result matches Err(told) && told@ == reason,
            None => result is Ok,
        },
{
    url::Url::parse(text).map(|_| ()).map_err(|error| error.to_string())
}

/// The URL that a reference stands for, seen from a base URL; or the text of the error, if there
/// is none.
pub uninterp spec fn resolved_url(base: Seq<char>, reference: Seq<char>) -> Result<
    Seq<char>,
    Seq<char>,
>;

/// `Url::join` on the URL that `Url::parse` makes of `base`: the text of the URL, or the `Display`
/// of the error. Without a base URL there is no result.
#[verifier::external_body]
pub(crate) fn resolve(base: &str, reference: &str) -> (result: Result<String, String>)
    ensures
        match resolved_url(base@, reference@) {
            Ok(url) => result matches Ok(text) && text@ == url,
            Err(reason) => result matches Err(text) && text@ == reason,
        },
        result is Ok ==> url_error(base@) is None,
{
    url::Url::parse(base).and_then(|base| base.join(reference)).map(String::from).map_err(
        |error| error.to_string(),
    )
}

/// The upper case hexadecimal digit for `d`.
pub open spec fn upper_hex_digit(d: int) -> char {
    if d < 10 {
        ('0' as int + d) as char
    } else {
        ('A' as int + d - 10) as char
    }
}

/// A byte that a query string holds as it is.
pub open spec fn plain_in_query(b: u8) -> bool {
    ||| b == 0x2a
    ||| b == 0x2d
    ||| b == 0x2e
    ||| b == 0x5f
    ||| 0x30 <= b <= 0x39
    ||| 0x41 <= b <= 0x5a
    ||| 0x61 <= b <= 0x7a
}

/// A byte as it stands in a query string.
pub open spec fn query_byte(b: u8) -> Seq<char> {
    if plain_in_query(b) {
        seq![b as char]
    } else if b == 0x20 {
        seq!['+']
    } else {
        seq!['%', upper_hex_digit(b as int / 16), upper_hex_digit(b as int % 16)]
    }
}

/// Bytes as they stand in a query string.
pub open spec fn query_bytes(bytes: Seq<u8>) -> Seq<char>
    decreases bytes.len(),
{
    if bytes.len() == 0 {
        seq![]
    } else {
        query_bytes(bytes.drop_last()) + query_byte(bytes.last())
    }
}

/// A name and a value as they stand in a query string.
pub open spec fn query_pair(pair: (Seq<char>, Seq<char>)) -> Seq<char> {
    query_bytes(encode_utf8(pair.0)) + seq!['='] + query_bytes(encode_utf8(pair.1))
}

/// The query string of some pairs.
pub open spec fn query_text(pairs: Seq<(Seq<char>, Seq<char>)>) -> Seq<char>
    decreases pairs.len(),
{
    if pairs.len() == 0 {
        seq![]
    } else if pairs.len() == 1 {
        query_pair(pairs[0])
    } else {
        query_text(pairs.drop_last()) + seq!['&'] + query_pair(pairs.last())
    }
}

/// The texts of some pairs.
pub open spec fn pair_views(pairs: Seq<(String, String)>) -> Seq<(Seq<char>, Seq<char>)> {
    pairs.map_values(|pair: (String, String)| (pair.0@, pair.1@))
}

/// `form_urlencoded::Serializer::extend_pairs`, which appends each pair as `append_pair` does: the
/// pairs stand in their order, with an ampersand between them, and of the bytes of the texts all
/// but letters, digits and `*-._` are escaped.
#[verifier::external_body]
pub(crate) fn write_query(pairs: &Vec<(String, String)>) -> (result: String)
    ensures
        result@ == query_text(pair_views(pairs@)),
{
    url::form_urlencoded::Serializer::new(String::new()).extend_pairs(pairs).finish()
}

} // verus!
