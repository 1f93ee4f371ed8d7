//! The rule of the demonstration server: it turns HTTP away.
use crate::text::to_lossy;
use vstd::prelude::*;
use vstd::slice::slice_to_vec;
use vstd::string::StrSliceExecFns;

verus! {

/// The text looks like the start of an HTTP request.
pub open spec fn looks_like_http(text: Seq<char>) -> bool {
    "GET HTTP/1.1"@.is_prefix_of(text)
}

/// What the server answers to a packet with this text, if it answers.
pub open spec fn answer(text: Seq<char>) -> Option<Seq<u8>> {
    if looks_like_http(text) {
        Some(vstd::utf8::encode_utf8("Nah Nah Nah, HTTP!"@))
    } else {
        None
    }
}

/// Returns whether the text looks like the start of an HTTP request.
pub fn starts_like_http(text: &str) -> (http: bool)
    ensures
        http == looks_like_http(text@),
{
    let prefix = "GET HTTP/1.1";
    let n: usize = prefix.unicode_len();
    if text.unicode_len() < n {
        return false;
    }
    let mut i: usize = 0;
    while i < n
        invariant
            i <= n,
            n == prefix@.len(),
            n <= text@.len(),
            prefix@ == "GET HTTP/1.1"@,
            forall|j: int| 0 <= j < i ==> prefix@[j] == text@[j],
        decreases n - i,
    {
        if text.get_char(i) != prefix.get_char(i) {
            assert(text@.subrange(0, n as int)[i as int] == text@[i as int]);
            return false;
        }
        i = i + 1;
    }
    assert(prefix@ =~= text@.subrange(0, n as int));
    true
}

/// Returns what the server answers to a packet with this text, if it answers.
pub fn answer_text(text: &str) -> (reply: Option<Vec<u8>>)
    ensures
        match reply {
            Some(bytes) => answer(text@) == Some(bytes@),
            None => answer(text@) is None,
        },
{
    if starts_like_http(text) {
        Some(slice_to_vec("Nah Nah Nah, HTTP!".as_bytes()))
    } else {
        None
    }
}

/// Returns what the server answers to a packet with this payload, if it
/// answers.
pub fn answer_packet(data: &[u8]) -> (reply: Option<Vec<u8>>)
    ensures
        match reply {
            Some(bytes) => answer(crate::text::lossy(data@)) == Some(bytes@),
            None => answer(crate::text::lossy(data@)) is None,
        },
{
    answer_text(to_lossy(data).as_str())
}

/// Whatever begins like an HTTP request is turned away, and nothing else is
/// answered.
pub proof fn law_http_is_turned_away(rest: Seq<char>, text: Seq<char>)
    ensures
        answer("GET HTTP/1.1"@ + rest) == Some(vstd::utf8::encode_utf8("Nah Nah Nah, HTTP!"@)),
        answer(text) is Some ==> text == "GET HTTP/1.1"@ + text.skip("GET HTTP/1.1"@.len() as int),
{
    let prefix = "GET HTTP/1.1"@;
    let whole = prefix + rest;
    assert(whole.subrange(0, prefix.len() as int) =~= prefix);
    if answer(text) is Some {
        assert(text.subrange(0, prefix.len() as int) =~= prefix);
        assert(text =~= prefix + text.skip(prefix.len() as int));
    }
}

} // verus!
