use vstd::prelude::*;

use crate::text::{decimal, push_decimal};

verus! {

/// A machine word of the mimium runtime: every scalar, handle and state
/// cell is stored as one of these.
pub type Word = u64;

/// Tag bit of a function handle (bit 63).
pub const FUNCTION_HANDLE_TAG: Word = 0x8000_0000_0000_0000u64;

/// Tag bit of a closure handle (bit 62).
pub const CLOSURE_HANDLE_TAG: Word = 0x4000_0000_0000_0000u64;

/// Tag bit of a memory handle (bit 61).
pub const MEMORY_HANDLE_TAG: Word = 0x2000_0000_0000_0000u64;

/// Reinterprets the bits of a signed integer as a word.
pub fn i64_to_word(value: i64) -> (w: Word)
    ensures
        w == value as u64,
{
    value as u64
}

/// Reinterprets the bits of a word as a signed integer.
pub fn word_to_i64(value: Word) -> (i: i64)
    ensures
        i == value as i64,
{
    value as i64
}


/// The handle of the function with index `index`.
pub open spec fn function_handle(index: usize) -> Word {
    FUNCTION_HANDLE_TAG | (index as u64)
}

/// The handle of the closure with index `index`.
pub open spec fn closure_handle(index: usize) -> Word {
    CLOSURE_HANDLE_TAG | (index as u64)
}

/// The handle of the memory pointer with (one-based) index `index`.
pub open spec fn memory_handle(index: usize) -> Word {
    MEMORY_HANDLE_TAG | (index as u64)
}

/// What `decode_memory` gives back: the handle without its tag, when the
/// memory tag is set.
pub open spec fn memory_index_of(handle: Word) -> Option<usize> {
    if handle & MEMORY_HANDLE_TAG != 0 {
        Some((handle & !MEMORY_HANDLE_TAG) as usize)
    } else {
        None
    }
}

/// What `decode_function` gives back: the handle without the function
/// tag when it is set, else the raw handle itself.
pub open spec fn function_index_of(handle: Word) -> Option<usize> {
    if handle & FUNCTION_HANDLE_TAG != 0 {
        Some((handle & !FUNCTION_HANDLE_TAG) as usize)
    } else {
        Some(handle as usize)
    }
}

/// What `decode_closure` gives back: nothing for a function handle, the
/// handle without the closure tag when that tag is set, else nothing.
pub open spec fn closure_index_of(handle: Word) -> Option<usize> {
    if handle & FUNCTION_HANDLE_TAG != 0 {
        None
    } else if handle & CLOSURE_HANDLE_TAG != 0 {
        Some((handle & !CLOSURE_HANDLE_TAG) as usize)
    } else {
        None
    }
}

/// Tags `index` as a function handle.
pub fn encode_function(index: usize) -> (w: Word)
    ensures
        w == function_handle(index),
{
    FUNCTION_HANDLE_TAG | index as Word
}

/// Tags `index` as a closure handle.
pub fn encode_closure(index: usize) -> (w: Word)
    ensures
        w == closure_handle(index),
{
    CLOSURE_HANDLE_TAG | index as Word
}

/// Tags `index` as a memory handle.
pub fn encode_memory(index: usize) -> (w: Word)
    ensures
        w == memory_handle(index),
{
    MEMORY_HANDLE_TAG | index as Word
}

/// The index in a memory handle, or `None` when the memory tag is not set.
pub fn decode_memory(handle: Word) -> (r: Option<usize>)
    ensures
        r == memory_index_of(handle),
{
    if handle & MEMORY_HANDLE_TAG != 0 {
        Some((handle & !MEMORY_HANDLE_TAG) as usize)
    } else {
        None
    }
}

/// The function index in a handle: a tagged function handle loses its
/// tag, any other word is taken as a raw index.
pub fn decode_function(handle: Word) -> (r: Option<usize>)
    ensures
        r == function_index_of(handle),
        r is Some,
{
    if handle & FUNCTION_HANDLE_TAG != 0 {
        Some((handle & !FUNCTION_HANDLE_TAG) as usize)
    } else {
        Some(handle as usize)
    }
}

/// The closure index in a handle, or `None` for a function handle or an
/// untagged word.
pub fn decode_closure(handle: Word) -> (r: Option<usize>)
    ensures
        r == closure_index_of(handle),
{
    if handle & FUNCTION_HANDLE_TAG != 0 {
        None
    } else if handle & CLOSURE_HANDLE_TAG != 0 {
        Some((handle & !CLOSURE_HANDLE_TAG) as usize)
    } else {
        None
    }
}

/// The message of a word count that does not fit the expected one.
pub open spec fn word_count_message(expected: nat, got: nat) -> Seq<char> {
    "expected "@ + decimal(expected) + " words, got "@ + decimal(got)
}

/// Copies a slice of exactly `N` words into an array, through std's
/// `TryFrom<&[T]>` for `[T; N]`: the contract claims that it succeeds
/// exactly when the slice has `N` elements, and then copies them in order.
#[verifier::external_body]
fn slice_to_array<const N: usize>(slice: &[Word]) -> (r: Option<[Word; N]>)
    ensures
        r is Some <==> slice@.len() == N,
        r matches Some(a) ==> a@ == slice@,
{
    <[Word; N]>::try_from(slice).ok()
}

/// Copies `N` words out of `slice`, which must hold exactly `N` of them.
pub fn copy_words<const N: usize>(slice: &[Word]) -> (r: Result<[Word; N], String>)
    ensures
        r is Ok <==> slice@.len() == N,
        r matches Ok(a) ==> a@ == slice@,
        r matches Err(e) ==> e@ == word_count_message(N as nat, slice@.len()),
{
    match slice_to_array::<N>(slice) {
        Some(a) => Ok(a),
        None => {
            let mut e = String::from_str("expected ");
            push_decimal(&mut e, N as u64);
            e.append(" words, got ");
            push_decimal(&mut e, slice.len() as u64);
            assert(e@ == word_count_message(N as nat, slice@.len()));
            Err(e)
        },
    }
}

/// Copies the words of `words`, which must hold exactly `N` of them, into
/// an array.
pub fn vec_to_words<const N: usize>(words: Vec<Word>) -> (r: Result<[Word; N], String>)
    ensures
        r is Ok <==> words@.len() == N,
        r matches Ok(a) ==> a@ == words@,
        r matches Err(e) ==> e@ == word_count_message(N as nat, words@.len()),
{
    copy_words::<N>(words.as_slice())
}

/// Whether every character of `s` is an ASCII decimal digit.
pub open spec fn all_digits(s: Seq<char>) -> bool {
    forall|i: int| 0 <= i < s.len() ==> '0' <= #[trigger] s[i] && s[i] <= '9'
}

/// The value of a string of decimal digits, most significant first.
pub open spec fn digits_value(s: Seq<char>) -> nat
    decreases s.len(),
{
    if s.len() == 0 {
        0
    } else {
        digits_value(s.drop_last()) * 10 + ((s.last() as nat) - 48) as nat
    }
}

/// What std's `usize::from_str` accepts: an optional `+`, then one or more
/// ASCII digits whose value fits in a `usize`; it gives that value.
pub open spec fn parsed_usize(s: Seq<char>) -> Option<usize> {
    let body = if s.len() > 0 && s[0] == '+' { s.drop_first() } else { s };
    if body.len() > 0 && all_digits(body) && digits_value(body) <= usize::MAX {
        Some(digits_value(body) as usize)
    } else {
        None
    }
}

/// The element arity named by a builtin's name: the number after `prefix`
/// when the name starts with it (nothing when that is not a number), and
/// `default` when it does not.
pub open spec fn specialized_arity(name: Seq<char>, prefix: Seq<char>, default: usize) -> Option<usize> {
    if prefix.is_prefix_of(name) {
        parsed_usize(name.skip(prefix.len() as int))
    } else {
        Some(default)
    }
}

/// Calls std's `str::strip_prefix`: the contract claims that it gives the
/// rest of `s` after `prefix` exactly when `s` starts with `prefix`.
#[verifier::external_body]
pub(crate) fn strip_prefix<'a>(s: &'a str, prefix: &str) -> (r: Option<&'a str>)
    ensures
        r is Some <==> prefix@.is_prefix_of(s@),
        r matches Some(rest) ==> rest@ == s@.skip(prefix@.len() as int),
{
    s.strip_prefix(prefix)
}

/// Calls std's `usize::from_str` (through `str::parse`), keeping only
/// whether it succeeded: the contract claims the grammar that std
/// documents for unsigned integers (an optional `+` and decimal digits,
/// within range).
#[verifier::external_body]
fn parse_usize(s: &str) -> (r: Option<usize>)
    ensures
        r == parsed_usize(s@),
{
    s.parse::<usize>().ok()
}

/// The element arity of a specialised builtin such as `split_head$arity2`:
/// the number after `prefix`, or `default` when `name` does not start with
/// `prefix`; `None` when the part after the prefix is not a number.
pub fn parse_specialized_arity(name: &str, prefix: &str, default: usize) -> (r: Option<usize>)
    ensures
        r == specialized_arity(name@, prefix@, default),
{
    match strip_prefix(name, prefix) {
        Some(suffix) => parse_usize(suffix),
        None => Some(default),
    }
}

/// Reinterpreting a signed integer as a word and back gives it back.
pub proof fn lemma_i64_word_roundtrip(value: i64)
    ensures
        ((value as u64) as i64) == value,
{
    assert(((value as u64) as i64) == value) by (bit_vector);
}

/// Reinterpreting a word as a signed integer and back gives it back.
pub proof fn lemma_word_i64_roundtrip(w: Word)
    ensures
        ((w as i64) as u64) == w,
{
    assert(((w as i64) as u64) == w) by (bit_vector);
}

/// Decoding a memory handle gives back the index it was made from, for
/// every index below the memory tag bit.
pub proof fn lemma_memory_handle_roundtrip(index: usize)
    requires
        index < 0x2000_0000_0000_0000u64,
    ensures
        memory_index_of(memory_handle(index)) == Some(index),
{
    let i = index as u64;
    assert(i < 0x2000_0000_0000_0000u64 ==> (0x2000_0000_0000_0000u64 | i) & 0x2000_0000_0000_0000u64 != 0
        && ((0x2000_0000_0000_0000u64 | i) & !0x2000_0000_0000_0000u64) == i) by (bit_vector);
}

/// Decoding a closure handle gives back the index it was made from, for
/// every index below the closure tag bit.
pub proof fn lemma_closure_handle_roundtrip(index: usize)
    requires
        index < 0x4000_0000_0000_0000u64,
    ensures
        closure_index_of(closure_handle(index)) == Some(index),
{
    let i = index as u64;
    assert(i < 0x4000_0000_0000_0000u64 ==> (0x4000_0000_0000_0000u64 | i) & 0x8000_0000_0000_0000u64 == 0
        && (0x4000_0000_0000_0000u64 | i) & 0x4000_0000_0000_0000u64 != 0
        && ((0x4000_0000_0000_0000u64 | i) & !0x4000_0000_0000_0000u64) == i) by (bit_vector);
}

/// Decoding a function handle gives back the index it was made from, for
/// every index below the function tag bit.
pub proof fn lemma_function_handle_roundtrip(index: usize)
    requires
        index < 0x8000_0000_0000_0000u64,
    ensures
        function_index_of(function_handle(index)) == Some(index),
{
    let i = index as u64;
    assert(i < 0x8000_0000_0000_0000u64 ==> (0x8000_0000_0000_0000u64 | i) & 0x8000_0000_0000_0000u64 != 0
        && ((0x8000_0000_0000_0000u64 | i) & !0x8000_0000_0000_0000u64) == i) by (bit_vector);
}

/// A function handle is never taken for a closure, and a small memory
/// handle is neither a closure nor a function handle.
pub proof fn lemma_handle_kinds_distinct(index: usize)
    requires
        index < 0x2000_0000_0000_0000u64,
    ensures
        closure_index_of(function_handle(index)) is None,
        closure_index_of(memory_handle(index)) is None,
        memory_index_of(closure_handle(index)) is None,
        memory_index_of(function_handle(index)) is None,
{
    let i = index as u64;
    assert(i < 0x2000_0000_0000_0000u64 ==> {
        &&& (0x8000_0000_0000_0000u64 | i) & 0x8000_0000_0000_0000u64 != 0
        &&& (0x2000_0000_0000_0000u64 | i) & 0x8000_0000_0000_0000u64 == 0
        &&& (0x2000_0000_0000_0000u64 | i) & 0x4000_0000_0000_0000u64 == 0
        &&& (0x4000_0000_0000_0000u64 | i) & 0x2000_0000_0000_0000u64 == 0
        &&& (0x8000_0000_0000_0000u64 | i) & 0x2000_0000_0000_0000u64 == 0
    }) by (bit_vector);
}

} // verus!
