//! Addresses of the web, and the way text is written in them.
use vstd::prelude::*;
use vstd::utf8::encode_utf8;

verus! {

/// The parts of an address that matter here.
#[derive(Debug)]
pub struct UrlParts {
    pub scheme: String,
    pub host: Option<String>,
    /// The port, where it is not the usual one of the scheme.
    pub port: Option<u16>,
    pub path: String,
}

/// What the parts of an address hold.
pub struct UrlView {
    pub scheme: Seq<char>,
    pub host: Option<Seq<char>>,
    pub port: Option<u16>,
    pub path: Seq<char>,
}

impl View for UrlParts {
    type V = UrlView;

    open spec fn view(&self) -> UrlView {
        UrlView {
            scheme: self.scheme@,
            host: match self.host {
                Some(host) => Some(host@),
                None => None,
            },
            port: self.port,
            path: self.path@,
        }
    }
}

/// The parts of the address that `url::Url::parse` makes of a text; `None`
/// where the text is no address.
pub uninterp spec fn url_parts(text: Seq<char>) -> Option<UrlView>;

/// `url::Url::parse`, and of its result the scheme, the host, the port and the
/// path. They depend on the text alone.
#[verifier::external_body]
pub(crate) fn parse_url(text: &str) -> (r: Option<UrlParts>)
    ensures
        match r {
            Some(parts) => url_parts(text@) == Some(parts@),
            None => url_parts(text@) is None,
        },
{
    url::Url::parse(text).ok().map(
        |url| UrlParts {
            scheme: url.scheme().to_string(),
            host: url.host_str().map(str::to_string),
            port: url.port(),
            path: url.path().to_string(),
        },
    )
}

/// The address that `url::Url::join` makes of a reference found at a base;
/// `None` where the base is no address or the two do not go together.
pub uninterp spec fn url_joined(base: Seq<char>, reference: Seq<char>) -> Option<Seq<char>>;

/// `url::Url::join` on the address that the base denotes, written out. The
/// outcome depends on the two texts alone.
#[verifier::external_body]
pub(crate) fn join_url(base: &str, reference: &str) -> (r: Option<String>)
    ensures
        match r {
            Some(url) => url_joined(base@, reference@) == Some(url@),
            None => url_joined(base@, reference@) is None,
        },
{
    url::Url::parse(base).ok()?.join(reference).ok().map(|url| url.to_string())
}

/// Letters and digits of ASCII.
pub open spec fn plain_byte(b: u8) -> bool {
    ||| 48 <= b <= 57
    ||| 65 <= b <= 90
    ||| 97 <= b <= 122
}

/// The hexadecimal digit, with capital letters, for a value below 16.
pub open spec fn capital_hex(n: int) -> char {
    if n < 10 {
        (48 + n) as u32 as char
    } else {
        (55 + n) as u32 as char
    }
}

/// A byte in an address: itself, or `%` and its two hexadecimal digits.
pub open spec fn octet(b: u8) -> Seq<char> {
    if plain_byte(b) {
        seq![b as char]
    } else {
        seq!['%', capital_hex(b as int / 16), capital_hex(b as int % 16)]
    }
}

/// The bytes in an address.
pub open spec fn octets(bytes: Seq<u8>) -> Seq<char>
    decreases bytes.len(),
{
    if bytes.len() == 0 {
        Seq::empty()
    } else {
        octets(bytes.drop_last()) + octet(bytes.last())
    }
}

/// A text in an address: of its UTF-8 bytes, those that are not letters or
/// digits of ASCII are escaped.
pub open spec fn percent_encoded(text: Seq<char>) -> Seq<char> {
    octets(encode_utf8(text))
}

/// `percent_encoding::utf8_percent_encode` with the set `NON_ALPHANUMERIC`
/// escapes every byte of the text but the letters and digits of ASCII.
#[verifier::external_body]
pub(crate) fn percent_encode(text: &str) -> (r: String)
    ensures
        r@ == percent_encoded(text@),
{
    percent_encoding::utf8_percent_encode(text, percent_encoding::NON_ALPHANUMERIC).to_string()
}

/// What `percent_encoding::percent_decode_str` and `decode_utf8_lossy` make of
/// an escaped text.
pub uninterp spec fn percent_decoded(text: Seq<char>) -> Seq<char>;

/// `percent_encoding::percent_decode_str`, read as UTF-8 with
/// `decode_utf8_lossy`. The outcome depends on the text alone, and a text
/// without `%` stays as it is.
#[verifier::external_body]
pub(crate) fn percent_decode(text: &str) -> (r: String)
    ensures
        r@ == percent_decoded(text@),
        !text@.contains('%') ==> r@ == text@,
{
    percent_encoding::percent_decode_str(text).decode_utf8_lossy().to_string()
}

} // verus!
