//! The fixed-capacity containers of `heapless` and the UTF-8 check of
//! `core::str`, as the review code uses them. Each function here makes
//! one outside call; its contract is what that crate's code and
//! documentation show, and is trusted, not proved.

use vstd::prelude::*;
use vstd::string::StringSliceAdditionalSpecFns;
use vstd::utf8::*;

verus! {

/// Capacity, in bytes, of the vectors and strings that hold review fields.
pub const MAX_LENGTH: usize = 50;

#[verifier::external_type_specification]
#[verifier::external_body]
#[verifier::reject_recursive_types(T)]
pub struct ExHeaplessVec<T, const N: usize>(heapless::Vec<T, N>);

#[verifier::external_type_specification]
#[verifier::external_body]
pub struct ExHeaplessString<const N: usize>(heapless::String<N>);

#[verifier::external_type_specification]
#[verifier::external_body]
pub struct ExUtf8Error(core::str::Utf8Error);

/// What `heapless::Vec::push` returns: the byte back when there was no room.
pub type PushResult = Result<(), u8>;

/// What `heapless::String::push` returns: an error when there was no room.
pub type UnitResult = Result<(), ()>;

/// The bytes that a `heapless::Vec<u8, 50>` holds, in order.
pub uninterp spec fn vec_bytes(v: heapless::Vec<u8, MAX_LENGTH>) -> Seq<u8>;

/// The UTF-8 bytes that a `heapless::String<50>` holds, in order.
pub uninterp spec fn string_bytes(s: heapless::String<MAX_LENGTH>) -> Seq<u8>;

/// `heapless::Vec::new`: an empty vector.
#[verifier::external_body]
pub(crate) fn vec_new() -> (v: heapless::Vec<u8, MAX_LENGTH>)
    ensures
        vec_bytes(v) == Seq::<u8>::empty(),
{
    heapless::Vec::new()
}

/// `heapless::Vec::push`: appends the byte while the vector holds fewer
/// than its capacity; otherwise leaves it as it was and hands the byte back.
#[verifier::external_body]
pub(crate) fn vec_push(v: &mut heapless::Vec<u8, MAX_LENGTH>, item: u8) -> (res: PushResult)
    ensures
        vec_bytes(*old(v)).len() < MAX_LENGTH ==> res is Ok,
        vec_bytes(*old(v)).len() < MAX_LENGTH ==> vec_bytes(*final(v)) == vec_bytes(*old(v)).push(item),
        vec_bytes(*old(v)).len() >= MAX_LENGTH ==> (res matches Err(back) && back == item),
        vec_bytes(*old(v)).len() >= MAX_LENGTH ==> vec_bytes(*final(v)) == vec_bytes(*old(v)),
{
    v.push(item)
}

/// `heapless::Vec::as_slice`: the held bytes, never more than the capacity.
#[verifier::external_body]
pub(crate) fn vec_as_slice(v: &heapless::Vec<u8, MAX_LENGTH>) -> (res: &[u8])
    ensures
        res@ == vec_bytes(*v),
        res@.len() <= MAX_LENGTH,
{
    v.as_slice()
}

/// `core::str::from_utf8`: succeeds exactly on valid UTF-8, and the string
/// it gives is made of the same bytes.
#[verifier::external_body]
pub(crate) fn str_from_utf8(v: &[u8]) -> (res: Result<&str, core::str::Utf8Error>)
    ensures
        res is Ok <==> valid_utf8(v@),
        res matches Ok(s) ==> s.spec_bytes() == v@,
{
    core::str::from_utf8(v)
}

/// `heapless::String::new`: an empty string.
#[verifier::external_body]
pub(crate) fn string_new() -> (s: heapless::String<MAX_LENGTH>)
    ensures
        string_bytes(s) == Seq::<u8>::empty(),
{
    heapless::String::new()
}

/// `From<&str> for heapless::String`: copies the bytes of `s`. It unwraps
/// `push_str`, and so panics when they do not fit; the precondition rules
/// that out.
#[verifier::external_body]
pub(crate) fn string_from_str(s: &str) -> (res: heapless::String<MAX_LENGTH>)
    requires
        s.spec_bytes().len() <= MAX_LENGTH,
    ensures
        string_bytes(res) == s.spec_bytes(),
{
    heapless::String::from(s)
}

/// `heapless::String::push` of an ASCII character: appends its byte while
/// there is room for it; otherwise leaves the string as it was and fails.
#[verifier::external_body]
pub(crate) fn string_push_ascii(s: &mut heapless::String<MAX_LENGTH>, c: u8) -> (res: UnitResult)
    requires
        c < 128,
    ensures
        string_bytes(*old(s)).len() < MAX_LENGTH ==> res is Ok,
        string_bytes(*old(s)).len() < MAX_LENGTH ==> string_bytes(*final(s)) == string_bytes(
            *old(s),
        ).push(c),
        string_bytes(*old(s)).len() >= MAX_LENGTH ==> res is Err,
        string_bytes(*old(s)).len() >= MAX_LENGTH ==> string_bytes(*final(s)) == string_bytes(
            *old(s),
        ),
{
    s.push(c as char)
}

/// `heapless::String::as_str`: the held bytes as a string slice.
#[verifier::external_body]
pub(crate) fn string_as_str(s: &heapless::String<MAX_LENGTH>) -> (res: &str)
    ensures
        res.spec_bytes() == string_bytes(*s),
{
    s.as_str()
}

} // verus!
