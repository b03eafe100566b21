//! Telling binary payloads from text: a string that looks like base64 and
//! decodes as such carries bytes.

use vstd::prelude::*;
use vstd::std_specs::iter::IteratorSpec;
use vstd::string::*;

verus! {

/// Whether `c` may occur in base64 text: an ASCII letter or digit, `+`,
/// `/` or the padding `=`.
pub open spec fn is_base64_char(c: char) -> bool {
    'a' <= c <= 'z' || 'A' <= c <= 'Z' || '0' <= c <= '9' || c == '+' || c == '/' || c == '='
}

/// Whether `text` looks like base64: its length is a multiple of four and
/// all its characters may occur in base64 text.
pub open spec fn looks_like_base64(text: Seq<char>) -> bool {
    &&& text.len() % 4 == 0
    &&& forall|i: int| 0 <= i < text.len() ==> is_base64_char(#[trigger] text[i])
}

/// Whether `text` looks like base64.
pub fn is_base64_text(text: &str) -> (looks: bool)
    ensures
        looks == looks_like_base64(text@),
{
    broadcast use vstd::string::group_string_axioms;

    let n: usize = text.unicode_len();
    if n % 4 != 0 {
        return false;
    }
    let mut chars = text.chars();
    let mut i: usize = 0;
    while i < n
        invariant
            n == text@.len(),
            i <= n,
            chars.remaining() == text@.skip(i as int),
            forall|k: int| 0 <= k < i ==> is_base64_char(#[trigger] text@[k]),
        decreases n - i,
    {
        let ghost before = chars;
        let next = chars.next();
        assert(next_post(&before, &chars, next));
        assert(text@.skip(i as int).len() > 0);
        assert(text@.skip(i as int)[0] == text@[i as int]);
        assert(text@.skip(i as int).drop_first() =~= text@.skip(i + 1));
        assert(next == Some(text@[i as int]));
        if let Some(c) = next {
            let allowed = ('a' <= c && c <= 'z') || ('A' <= c && c <= 'Z') || ('0' <= c && c <= '9')
                || c == '+' || c == '/' || c == '=';
            if !allowed {
                return false;
            }
        }
        i += 1;
    }
    true
}

/// The reason for which `base64::decode` refuses a text. The library
/// carries it through and reads nothing from it.
#[verifier::external_type_specification]
#[verifier::external_body]
pub struct ExDecodeError(base64::DecodeError);

/// The bytes that `text` stands for as base64 in the standard alphabet
/// with padding, as `base64::decode` gives them; `None` where it refuses
/// the text.
pub uninterp spec fn base64_decoded(text: Seq<char>) -> Option<Seq<u8>>;

/// The view of the outcome of a decoding: the bytes, if there are any.
pub open spec fn decoded_view(decoded: Result<Vec<u8>, base64::DecodeError>) -> Option<Seq<u8>> {
    match decoded {
        Ok(bytes) => Some(bytes@),
        Err(_) => None,
    }
}

/// `base64::decode`. Trusted: the outcome is the one that the name
/// `base64_decoded` stands for, the same for the same text at every call.
#[verifier::external_body]
#[allow(deprecated)]
fn decode_base64(text: &str) -> (decoded: Result<Vec<u8>, base64::DecodeError>)
    ensures
        decoded_view(decoded) == base64_decoded(text@),
{
    base64::decode(text)
}

/// What a string in a payload carries.
#[derive(Debug, Clone, PartialEq, Eq)]
pub enum TextPayload {
    /// Bytes, which the string held as base64.
    Binary(Vec<u8>),
    /// The string itself.
    Text(String),
}

/// The view of a `TextPayload`.
pub enum TextPayloadView {
    Binary(Seq<u8>),
    Text(Seq<char>),
}

impl View for TextPayload {
    type V = TextPayloadView;

    open spec fn view(&self) -> TextPayloadView {
        match *self {
            TextPayload::Binary(bytes) => TextPayloadView::Binary(bytes@),
            TextPayload::Text(text) => TextPayloadView::Text(text@),
        }
    }
}

/// What `text` carries, if decoding it as base64 gives `decoded`: the
/// decoded bytes where it looks like base64 and decodes, else the text.
pub open spec fn payload_of(text: Seq<char>, decoded: Option<Seq<u8>>) -> TextPayloadView {
    if looks_like_base64(text) {
        match decoded {
            Some(bytes) => TextPayloadView::Binary(bytes),
            None => TextPayloadView::Text(text),
        }
    } else {
        TextPayloadView::Text(text)
    }
}

/// What `text` carries, `decoded` being what decoding it as base64 gave.
pub fn classify(text: String, decoded: Result<Vec<u8>, base64::DecodeError>) -> (payload: TextPayload)
    ensures
        payload@ == payload_of(text@, decoded_view(decoded)),
{
    if is_base64_text(text.as_str()) {
        match decoded {
            Ok(bytes) => TextPayload::Binary(bytes),
            Err(_) => TextPayload::Text(text),
        }
    } else {
        TextPayload::Text(text)
    }
}

/// What `text` carries: bytes where it looks like base64 and decodes as
/// such, else itself.
pub fn text_payload(text: String) -> (payload: TextPayload)
    ensures
        payload@ == payload_of(text@, base64_decoded(text@)),
{
    if is_base64_text(text.as_str()) {
        let decoded = decode_base64(text.as_str());
        classify(text, decoded)
    } else {
        TextPayload::Text(text)
    }
}

} // verus!
