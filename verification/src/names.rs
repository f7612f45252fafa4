//! File and module names as the operating system hands them over: a byte
//! buffer holding a NUL-terminated string, to be decoded and then compared
//! without regard to case.

use crate::error::{ErrorView, MemReaderError};
use vstd::prelude::*;
use vstd::utf8::{decode_utf8, valid_utf8};

verus! {

/// `std::str::Utf8Error`, which only ever says that decoding failed.
#[verifier::external_type_specification]
#[verifier::external_body]
pub struct ExUtf8Error(std::str::Utf8Error);

/// `n` is where the C string in `buffer` ends: no byte before `n` is NUL,
/// and `n` is either the place of a NUL or the end of the buffer.
pub open spec fn ends_at(buffer: Seq<u8>, n: int) -> bool {
    &&& 0 <= n <= buffer.len()
    &&& forall|i: int| 0 <= i < n ==> buffer[i] != 0
    &&& n < buffer.len() ==> buffer[n] == 0
}

/// The number of bytes before the first NUL of `buffer`, or the length of
/// `buffer` when it holds no NUL.
pub open spec fn terminator(buffer: Seq<u8>) -> nat
    decreases buffer.len(),
{
    if buffer.len() == 0 || buffer[0] == 0 {
        0
    } else {
        1 + terminator(buffer.drop_first())
    }
}

/// The bytes of the C string that `buffer` holds.
pub open spec fn c_string(buffer: Seq<u8>) -> Seq<u8> {
    buffer.take(terminator(buffer) as int)
}

/// `terminator` is the one index at which the string ends.
pub proof fn lemma_terminator(buffer: Seq<u8>, n: int)
    requires
        ends_at(buffer, n),
    ensures
        terminator(buffer) == n,
    decreases buffer.len(),
{
    if buffer.len() > 0 && buffer[0] != 0 {
        let rest = buffer.drop_first();
        assert forall|i: int| 0 <= i < n - 1 implies rest[i] != 0 by {
            assert(rest[i] == buffer[i + 1]);
        }
        lemma_terminator(rest, n - 1);
    }
}

/// The length of the C string in `buffer`.
pub fn c_string_len(buffer: &[u8]) -> (n: usize)
    ensures
        n == terminator(buffer@),
        ends_at(buffer@, n as int),
{
    let mut n: usize = 0;
    while n < buffer.len() && buffer[n] != 0
        invariant
            n <= buffer.len(),
            forall|i: int| 0 <= i < n ==> buffer@[i] != 0,
        decreases buffer.len() - n,
    {
        n += 1;
    }
    proof {
        lemma_terminator(buffer@, n as int);
    }
    n
}

/// `std::str::from_utf8` succeeds exactly on well-formed UTF-8, and the
/// string it hands back holds the characters that the bytes encode.
pub assume_specification[ core::str::from_utf8 ](v: &[u8]) -> (r: Result<
    &str,
    core::str::Utf8Error,
>)
    ensures
        r is Ok <==> valid_utf8(v@),
        r matches Ok(s) ==> s@ == decode_utf8(v@),
;

/// Decodes the C string in `buffer`: the characters that its bytes encode, or
/// [`MemReaderError::CString`] when they are not UTF-8.
pub fn decode_name(buffer: &[u8]) -> (r: Result<&str, MemReaderError>)
    ensures
        match r {
            Ok(name) => valid_utf8(c_string(buffer@)) && name@ == decode_utf8(c_string(buffer@)),
            Err(e) => !valid_utf8(c_string(buffer@)) && e@ == ErrorView::CString,
        },
{
    let n = c_string_len(buffer);
    let bytes = vstd::slice::slice_subrange(buffer, 0, n);
    match core::str::from_utf8(bytes) {
        Ok(name) => Ok(name),
        Err(_) => Err(MemReaderError::CString),
    }
}

/// What `str::to_lowercase` makes of a text.
pub uninterp spec fn lowercase(text: Seq<char>) -> Seq<char>;

/// `str::to_lowercase`: the lowercase form of a text depends on the text
/// alone.
pub assume_specification[ str::to_lowercase ](text: &str) -> (lowered: String)
    ensures
        lowered@ == lowercase(text@),
;

/// `needle` stands somewhere in `haystack` as one contiguous run.
pub open spec fn occurs_in(needle: Seq<char>, haystack: Seq<char>) -> bool {
    exists|i: int|
        0 <= i && i + needle.len() <= haystack.len() && #[trigger] haystack.subrange(
            i,
            i + needle.len(),
        ) == needle
}

/// `str::contains` with a string as the pattern: whether the pattern is a
/// substring.
#[verifier::external_body]
pub(crate) fn contains(haystack: &str, needle: &str) -> (found: bool)
    ensures
        found == occurs_in(needle@, haystack@),
{
    haystack.contains(needle)
}

} // verus!
