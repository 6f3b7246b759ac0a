//! Text as the codec, the record table and the operator's input need it:
//! bytes read as UTF-8, names folded to one case, addresses put into their
//! canonical form, a value cut into words.

use vstd::prelude::*;
use vstd::string::*;
use vstd::utf8::*;

verus! {

/// What `String::from_utf8_lossy` makes of bytes that are not valid UTF-8:
/// the text in which each malformed sequence is replaced by U+FFFD.
pub uninterp spec fn lossy_text(bytes: Seq<u8>) -> Seq<char>;

/// The text that a run of bytes stands for: the characters they encode where
/// the bytes are valid UTF-8, and the best-effort reading otherwise.
pub open spec fn text_of(bytes: Seq<u8>) -> Seq<char> {
    if valid_utf8(bytes) {
        decode_utf8(bytes)
    } else {
        lossy_text(bytes)
    }
}

/// Reads bytes as text without ever failing.
///
/// Calls `String::from_utf8_lossy`. Trusted: on valid UTF-8 the result is the
/// text that the bytes encode, as the standard library documents; on anything
/// else it is whatever that function substitutes, which `lossy_text` names.
#[verifier::external_body]
pub(crate) fn text_from_bytes(bytes: &[u8]) -> (text: String)
    ensures
        valid_utf8(bytes@) ==> text@ == decode_utf8(bytes@),
        !valid_utf8(bytes@) ==> text@ == lossy_text(bytes@),
{
    String::from_utf8_lossy(bytes).into_owned()
}

/// The lower-case form that `str::to_lowercase` gives a text that holds
/// characters beyond ASCII.
pub uninterp spec fn lowercase_text(text: Seq<char>) -> Seq<char>;

/// A character with the capital letters `A` to `Z` turned into `a` to `z`.
pub open spec fn ascii_lower(c: char) -> char {
    if 'A' <= c && c <= 'Z' {
        ((c as u32) + 32) as char
    } else {
        c
    }
}

/// A text with each of its characters put through `ascii_lower`.
pub open spec fn ascii_lowercase(text: Seq<char>) -> Seq<char> {
    Seq::new(text.len(), |i: int| ascii_lower(text[i]))
}

/// The lower-case form of a text: letter by letter where the text is ASCII,
/// and what the Unicode case mapping gives where it is not.
pub open spec fn lowercase_of(text: Seq<char>) -> Seq<char> {
    if is_ascii_chars(text) {
        ascii_lowercase(text)
    } else {
        lowercase_text(text)
    }
}

/// Folds a name to lower case.
///
/// Calls `str::to_lowercase`. Trusted: on ASCII text the result has `A` to
/// `Z` turned into `a` to `z` and every other character as it was; on any
/// other text it is a function of the text alone, which `lowercase_text`
/// names.
#[verifier::external_body]
pub(crate) fn lowercase(text: &str) -> (folded: String)
    ensures
        is_ascii_chars(text@) ==> folded@ == ascii_lowercase(text@),
        !is_ascii_chars(text@) ==> folded@ == lowercase_text(text@),
{
    text.to_lowercase()
}

/// The text in which `core::net::IpAddr` prints the address that it reads
/// from a text; nothing where the text is no address.
pub uninterp spec fn canonical_address_text(text: Seq<char>) -> Option<Seq<char>>;

/// Puts an address into its canonical text form.
///
/// Calls the `FromStr` of `core::net::IpAddr` and prints what it read with
/// `to_string`. Trusted: whether the text is an address, and the text it is
/// printed as, are functions of the text alone, which
/// `canonical_address_text` names.
#[verifier::external_body]
pub(crate) fn canonical_address(text: &str) -> (canonical: Option<String>)
    ensures
        match canonical {
            Some(printed) => canonical_address_text(text@) == Some(printed@),
            None => canonical_address_text(text@) is None,
        },
{
    match text.parse::<core::net::IpAddr>() {
        Ok(address) => Some(address.to_string()),
        Err(_) => None,
    }
}

/// The upper-case form that `str::to_uppercase` gives a text.
pub uninterp spec fn uppercase_text(text: Seq<char>) -> Seq<char>;

/// Folds a word to upper case.
///
/// Calls `str::to_uppercase`. Trusted: the result is a function of the text
/// alone, which `uppercase_text` names.
#[verifier::external_body]
pub(crate) fn uppercase(text: &str) -> (folded: String)
    ensures
        folded@ == uppercase_text(text@),
{
    text.to_uppercase()
}

/// The words that `str::split_whitespace` finds in a text: its maximal runs
/// of characters that are not white space, in order.
pub uninterp spec fn whitespace_words(text: Seq<char>) -> Seq<Seq<char>>;

/// The texts of a run of strings, in order.
pub open spec fn texts(words: Seq<String>) -> Seq<Seq<char>> {
    words.map_values(|word: String| word@)
}

/// Cuts a text into its words.
///
/// Calls `str::split_whitespace` and copies each word it yields. Trusted: the
/// words are a function of the text alone, which `whitespace_words` names.
#[verifier::external_body]
pub(crate) fn split_words(text: &str) -> (words: Vec<String>)
    ensures
        texts(words@) == whitespace_words(text@),
{
    text.split_whitespace().map(str::to_owned).collect()
}

/// Whether two texts are the same, character by character.
pub fn same_text(a: &str, b: &str) -> (same: bool)
    ensures
        same == (a@ == b@),
{
    let x = a.as_bytes();
    let y = b.as_bytes();
    proof {
        encode_utf8_decode_utf8(a@);
        encode_utf8_decode_utf8(b@);
    }
    if x.len() != y.len() {
        return false;
    }
    let mut i: usize = 0;
    while i < x.len()
        invariant
            i <= x@.len(),
            x@.len() == y@.len(),
            x@ == encode_utf8(a@),
            y@ == encode_utf8(b@),
            forall|j: int| 0 <= j < i ==> x@[j] == y@[j],
        decreases x@.len() - i,
    {
        if x[i] != y[i] {
            return false;
        }
        i += 1;
    }
    assert(x@ =~= y@);
    true
}

} // verus!
