use mimium_transpiler_bench::arrays::ArrayStorage;
use mimium_transpiler_bench::builtins::{classify_ext, probe, ExtBuiltin};

#[test]
fn arrays_are_found_by_handle() {
    let mut a = ArrayStorage::new();
    let h = a.alloc_array(2, 3);
    assert_eq!(h, 1);
    assert_eq!(a.get(1).unwrap().data, vec![0; 6]);
    assert_eq!(a.get(1).unwrap().elem_size_words, 3);
    let h2 = a.alloc_array_with_data(vec![4, 5], 1);
    assert_eq!(h2, 2);
    assert_eq!(a.get(2).unwrap().data, vec![4, 5]);
}

#[test]
fn bad_array_handles_are_refused() {
    let a = ArrayStorage::new();
    assert_eq!(a.get(0).err(), Some("invalid array handle 0".to_string()));
    assert_eq!(a.get(5).err(), Some("invalid array handle 5".to_string()));
}

#[test]
fn array_length_in_words() {
    let mut a = ArrayStorage::new();
    let h = a.alloc_array_with_data(vec![1, 2, 3], 1);
    assert_eq!(a.array_len(&[h]), Ok(3));
    assert_eq!(a.array_len(&[0]), Ok(0));
    assert_eq!(a.array_len(&[]), Err("len expects 1 arg".to_string()));
    assert_eq!(a.array_len(&[9]), Err("invalid array handle 9".to_string()));
}

#[test]
fn split_head_takes_first_element() {
    let mut a = ArrayStorage::new();
    let h = a.alloc_array_with_data(vec![1, 2, 3], 1);
    assert_eq!(a.split_head("split_head", &[h]), Ok(vec![1, 2]));
    assert_eq!(a.get(2).unwrap().data, vec![2, 3]);
    let h2 = a.alloc_array_with_data(vec![1, 2, 3, 4], 2);
    assert_eq!(a.split_head("split_head$arity2", &[h2]), Ok(vec![1, 2, 4]));
    assert_eq!(a.get(4).unwrap().data, vec![3, 4]);
    assert_eq!(a.get(4).unwrap().elem_size_words, 2);
}

#[test]
fn split_head_of_handle_zero_gives_zeros() {
    let mut a = ArrayStorage::new();
    assert_eq!(a.split_head("split_head$arity2", &[0]), Ok(vec![0, 0, 0]));
    assert_eq!(a.split_head("split_head", &[0]), Ok(vec![0, 0]));
}

#[test]
fn split_head_errors() {
    let mut a = ArrayStorage::new();
    let h = a.alloc_array_with_data(vec![1, 2, 3], 1);
    let empty = a.alloc_array_with_data(vec![], 1);
    assert_eq!(
        a.split_head("split_head$arityx", &[h]),
        Err("invalid split_head specialization: split_head$arityx".to_string())
    );
    assert_eq!(a.split_head("split_head", &[]), Err("split_head expects 1 arg".to_string()));
    assert_eq!(
        a.split_head("split_head", &[empty]),
        Err("split_head: array shorter than one element".to_string())
    );
    assert_eq!(
        a.split_head("split_head$arity2", &[h]),
        Err("split_head$arity2: array length 3 is not divisible by elem_words 2".to_string())
    );
    assert_eq!(a.split_head("split_head", &[7]), Err("invalid array handle 7".to_string()));
}

#[test]
fn split_tail_takes_last_element() {
    let mut a = ArrayStorage::new();
    let h = a.alloc_array_with_data(vec![1, 2, 3], 1);
    assert_eq!(a.split_tail("split_tail", &[h]), Ok(vec![2, 3]));
    assert_eq!(a.get(2).unwrap().data, vec![1, 2]);
    assert_eq!(a.split_tail("split_tail$arity2", &[0]), Ok(vec![0, 0, 0]));
    assert_eq!(
        a.split_tail("split_tail$arity2", &[h]),
        Err("split_tail$arity2: array length 3 is not divisible by elem_words 2".to_string())
    );
    assert_eq!(
        a.split_tail("split_tail$arity?", &[h]),
        Err("invalid split_tail specialization: split_tail$arity?".to_string())
    );
}

#[test]
fn prepend_puts_element_first() {
    let mut a = ArrayStorage::new();
    let h = a.alloc_array_with_data(vec![2, 3], 1);
    assert_eq!(a.prepend("prepend", &[1, h]), Ok(vec![2]));
    assert_eq!(a.get(2).unwrap().data, vec![1, 2, 3]);
    assert_eq!(a.prepend("prepend$arity2", &[7, 8, 0]), Ok(vec![3]));
    assert_eq!(a.get(3).unwrap().data, vec![7, 8]);
    assert_eq!(a.get(3).unwrap().elem_size_words, 2);
}

#[test]
fn prepend_errors() {
    let mut a = ArrayStorage::new();
    let h = a.alloc_array_with_data(vec![2, 3], 2);
    assert_eq!(a.prepend("prepend", &[1]), Err("prepend expects element + array args".to_string()));
    assert_eq!(
        a.prepend("prepend", &[1, h]),
        Err("prepend: elem size mismatch, expected 1 got 2".to_string())
    );
    assert_eq!(a.prepend("prepend", &[1, 5]), Err("invalid array handle 5".to_string()));
    assert_eq!(
        a.prepend("prepend$arityz", &[1, h]),
        Err("invalid prepend specialization: prepend$arityz".to_string())
    );
}

#[test]
fn append_puts_element_last() {
    let mut a = ArrayStorage::new();
    let h = a.alloc_array_with_data(vec![1, 2], 1);
    assert_eq!(a.append("append", &[h, 3]), Ok(vec![2]));
    assert_eq!(a.get(2).unwrap().data, vec![1, 2, 3]);
    assert_eq!(a.append("append$arity2", &[0, 5, 6]), Ok(vec![3]));
    assert_eq!(a.get(3).unwrap().data, vec![5, 6]);
}

#[test]
fn append_errors() {
    let mut a = ArrayStorage::new();
    let h = a.alloc_array_with_data(vec![1, 2], 2);
    assert_eq!(a.append("append", &[]), Err("append expects array + element args".to_string()));
    assert_eq!(
        a.append("append", &[h, 3]),
        Err("append: elem size mismatch, expected 1 got 2".to_string())
    );
    assert_eq!(a.append("append", &[4, 3]), Err("invalid array handle 4".to_string()));
    assert_eq!(
        a.append("append$arity", &[h, 3]),
        Err("invalid append specialization: append$arity".to_string())
    );
}

#[test]
fn split_head_undoes_prepend_on_values() {
    let mut a = ArrayStorage::new();
    let h = a.alloc_array_with_data(vec![4, 5, 6], 1);
    let p = a.prepend("prepend", &[3, h]).unwrap();
    let s = a.split_head("split_head", &p).unwrap();
    assert_eq!(s[0], 3);
    assert_eq!(a.get(s[1]).unwrap().data, vec![4, 5, 6]);
}

#[test]
fn split_tail_undoes_append_on_values() {
    let mut a = ArrayStorage::new();
    let p = a.append("append", &[0, 9]).unwrap();
    let s = a.split_tail("split_tail", &p).unwrap();
    assert_eq!(s[1], 9);
    assert_eq!(a.get(s[0]).unwrap().data, Vec::<u64>::new());
}

#[test]
fn split_head_undoes_prepend_for_wider_elements() {
    let mut a = ArrayStorage::new();
    let h = a.alloc_array_with_data(vec![4, 5, 6, 7, 8, 9], 3);
    let p = a.prepend("prepend$arity3", &[1, 2, 3, h]).unwrap();
    assert_eq!(p, vec![2]);
    let s = a.split_head("split_head$arity3", &p).unwrap();
    assert_eq!(s, vec![1, 2, 3, 3]);
    assert_eq!(a.get(s[3]).unwrap().data, vec![4, 5, 6, 7, 8, 9]);
    assert_eq!(a.get(h).unwrap().data, vec![4, 5, 6, 7, 8, 9]);
}

#[test]
fn split_tail_undoes_append_for_wider_elements() {
    let mut a = ArrayStorage::new();
    let h = a.alloc_array_with_data(vec![4, 5], 2);
    let p = a.append("append$arity2", &[h, 6, 7]).unwrap();
    assert_eq!(p, vec![2]);
    let s = a.split_tail("split_tail$arity2", &p).unwrap();
    assert_eq!(s, vec![3, 6, 7]);
    assert_eq!(a.get(s[0]).unwrap().data, vec![4, 5]);
    assert_eq!(a.get(h).unwrap().data, vec![4, 5]);
}

#[test]
fn external_names_are_classified() {
    assert_eq!(classify_ext("min"), ExtBuiltin::Min);
    assert_eq!(classify_ext("max"), ExtBuiltin::Max);
    assert_eq!(classify_ext("probe"), ExtBuiltin::Probe);
    assert_eq!(classify_ext("probeln"), ExtBuiltin::Probeln);
    assert_eq!(classify_ext("len"), ExtBuiltin::Len);
    assert_eq!(classify_ext("split_head"), ExtBuiltin::SplitHead);
    assert_eq!(classify_ext("split_head$arity3"), ExtBuiltin::SplitHead);
    assert_eq!(classify_ext("split_tail"), ExtBuiltin::SplitTail);
    assert_eq!(classify_ext("prepend"), ExtBuiltin::Prepend);
    assert_eq!(classify_ext("append$arity2"), ExtBuiltin::Append);
    assert_eq!(classify_ext("split_headx"), ExtBuiltin::Host);
    assert_eq!(classify_ext("minimum"), ExtBuiltin::Host);
    assert_eq!(classify_ext("_mimium_getnow"), ExtBuiltin::Host);
}

#[test]
fn probe_passes_first_argument() {
    assert_eq!(probe(&[4, 5]), vec![4]);
    assert_eq!(probe(&[]), Vec::<u64>::new());
}

#[test]
fn arrays_can_be_changed_in_place() {
    let mut a = ArrayStorage::new();
    let h = a.alloc_array_with_data(vec![1, 2], 1);
    a.get_mut(h).unwrap().data.push(3);
    assert_eq!(a.get(h).unwrap().data, vec![1, 2, 3]);
    assert_eq!(a.get_mut(0).err(), Some("invalid array handle 0".to_string()));
    assert_eq!(a.get_mut(4).err(), Some("invalid array handle 4".to_string()));
}
