use mimium_transpiler_bench::word::{
    copy_words, decode_closure, decode_function, decode_memory, encode_closure, encode_function,
    encode_memory, i64_to_word, parse_specialized_arity, vec_to_words, word_to_i64,
    CLOSURE_HANDLE_TAG, FUNCTION_HANDLE_TAG, MEMORY_HANDLE_TAG,
};

#[test]
fn signed_words_keep_their_bits() {
    assert_eq!(i64_to_word(-1), u64::MAX);
    assert_eq!(i64_to_word(5), 5);
    assert_eq!(i64_to_word(i64::MIN), 1u64 << 63);
    assert_eq!(word_to_i64(u64::MAX), -1);
    assert_eq!(word_to_i64(1u64 << 63), i64::MIN);
    for v in [0i64, 1, -1, 123456789, -987654321, i64::MAX, i64::MIN] {
        assert_eq!(word_to_i64(i64_to_word(v)), v);
    }
}

#[test]
fn handle_tags_are_distinct_bits() {
    assert_eq!(FUNCTION_HANDLE_TAG, 1u64 << 63);
    assert_eq!(CLOSURE_HANDLE_TAG, 1u64 << 62);
    assert_eq!(MEMORY_HANDLE_TAG, 1u64 << 61);
    assert_eq!(encode_function(3), (1u64 << 63) | 3);
    assert_eq!(encode_closure(4), (1u64 << 62) | 4);
    assert_eq!(encode_memory(5), (1u64 << 61) | 5);
}

#[test]
fn handles_decode_to_their_index() {
    for i in [0usize, 1, 7, 1000] {
        assert_eq!(decode_memory(encode_memory(i)), Some(i));
        assert_eq!(decode_closure(encode_closure(i)), Some(i));
        assert_eq!(decode_function(encode_function(i)), Some(i));
    }
}

#[test]
fn handles_of_other_kinds_do_not_decode() {
    assert_eq!(decode_memory(7), None);
    assert_eq!(decode_memory(encode_closure(2)), None);
    assert_eq!(decode_memory(encode_function(2)), None);
    assert_eq!(decode_closure(encode_function(2)), None);
    assert_eq!(decode_closure(encode_memory(2)), None);
    assert_eq!(decode_closure(9), None);
}

#[test]
fn untagged_words_are_raw_function_indices() {
    assert_eq!(decode_function(42), Some(42));
    assert_eq!(decode_function(0), Some(0));
}

#[test]
fn memory_index_with_tag_bit_loses_it() {
    assert_eq!(decode_memory(encode_memory(1usize << 61)), Some(0));
}

#[test]
fn copy_words_takes_exact_counts() {
    assert_eq!(copy_words::<2>(&[1, 2]), Ok([1, 2]));
    assert_eq!(copy_words::<0>(&[]), Ok([]));
    assert_eq!(copy_words::<3>(&[1, 2]), Err("expected 3 words, got 2".to_string()));
    assert_eq!(copy_words::<1>(&[1, 2, 3]), Err("expected 1 words, got 3".to_string()));
    assert_eq!(vec_to_words::<3>(vec![7, 8, 9]), Ok([7, 8, 9]));
    assert_eq!(vec_to_words::<2>(vec![]), Err("expected 2 words, got 0".to_string()));
}

#[test]
fn arity_suffixes_are_parsed() {
    assert_eq!(parse_specialized_arity("split_head$arity2", "split_head$arity", 1), Some(2));
    assert_eq!(parse_specialized_arity("split_head$arity+3", "split_head$arity", 1), Some(3));
    assert_eq!(parse_specialized_arity("split_head$arity12", "split_head$arity", 1), Some(12));
    assert_eq!(parse_specialized_arity("split_head", "split_head$arity", 1), Some(1));
    assert_eq!(parse_specialized_arity("prepend", "split_head$arity", 7), Some(7));
    assert_eq!(parse_specialized_arity("split_head$arityx", "split_head$arity", 1), None);
    assert_eq!(parse_specialized_arity("split_head$arity", "split_head$arity", 1), None);
    assert_eq!(parse_specialized_arity("split_head$arity-1", "split_head$arity", 1), None);
    assert_eq!(
        parse_specialized_arity("split_head$arity99999999999999999999999", "split_head$arity", 1),
        None
    );
}
