use mimium_transpiler_bench::memory::{MemoryStore, Pointer};
use mimium_transpiler_bench::word::{encode_closure, encode_memory};

#[test]
fn allocation_reads_zero() {
    let mut m = MemoryStore::new();
    let h = m.allocate(3);
    assert_eq!(h, encode_memory(1));
    assert_eq!(m.load(h, 3), Ok(vec![0, 0, 0]));
    assert_eq!(m.load_word(h), Ok(0));
    let h2 = m.allocate(1);
    assert_eq!(h2, encode_memory(2));
    assert_eq!(*m.ptr(h2).unwrap(), Pointer { slot: 1, offset: 0 });
}

#[test]
fn store_is_read_back() {
    let mut m = MemoryStore::new();
    let h = m.allocate(3);
    assert_eq!(m.store(h, &[1, 2, 3, 4], 3), Ok(()));
    assert_eq!(m.load(h, 3), Ok(vec![1, 2, 3]));
    assert_eq!(m.store_word(h, 9), Ok(()));
    assert_eq!(m.load_word(h), Ok(9));
    assert_eq!(m.load(h, 2), Ok(vec![9, 2]));
}

#[test]
fn store_leaves_other_slots() {
    let mut m = MemoryStore::new();
    let a = m.allocate(2);
    let b = m.allocate(2);
    m.store(a, &[5, 6], 2).unwrap();
    m.store(b, &[7, 8], 2).unwrap();
    assert_eq!(m.load(a, 2), Ok(vec![5, 6]));
    assert_eq!(m.load(b, 2), Ok(vec![7, 8]));
}

#[test]
fn element_pointers_address_inside_a_slot() {
    let mut m = MemoryStore::new();
    let h = m.allocate(3);
    m.store(h, &[1, 2, 3], 3).unwrap();
    let e = m.get_element(h, 2).unwrap();
    assert_eq!(e, encode_memory(2));
    assert_eq!(m.load_word(e), Ok(3));
    m.store_word(e, 30).unwrap();
    assert_eq!(m.load(h, 3), Ok(vec![1, 2, 30]));
    let e2 = m.get_element(e, 1).unwrap();
    assert_eq!(*m.ptr(e2).unwrap(), Pointer { slot: 0, offset: 3 });
}

#[test]
fn plain_words_load_as_themselves() {
    let m = MemoryStore::new();
    assert_eq!(m.load_word(5), Ok(5));
    assert_eq!(m.load_word(encode_memory(0)), Ok(encode_memory(0)));
    assert_eq!(m.load(7, 1), Ok(vec![7]));
    assert_eq!(m.load(encode_memory(4), 1), Ok(vec![encode_memory(4)]));
}

#[test]
fn unknown_memory_handles_are_refused() {
    let mut m = MemoryStore::new();
    let bad = encode_memory(9);
    let msg = format!("invalid memory handle {}", bad);
    assert_eq!(m.load_word(bad), Err(msg.clone()));
    assert_eq!(m.load(bad, 2), Err(msg.clone()));
    assert_eq!(m.load(7, 2), Err("invalid memory handle 7".to_string()));
    assert_eq!(m.store_word(bad, 1), Err(msg.clone()));
    assert_eq!(m.store(bad, &[1], 1), Err(msg.clone()));
    assert_eq!(m.get_element(bad, 1), Err(msg.clone()));
    assert_eq!(m.ptr(encode_closure(1)).err(), Some(format!("invalid memory handle {}", encode_closure(1))));
}

#[test]
fn out_of_bounds_accesses_are_refused() {
    let mut m = MemoryStore::new();
    let h = m.allocate(3);
    let past = m.get_element(h, 3).unwrap();
    assert_eq!(m.load_word(past), Err("load out of bounds: offset=3 len=3".to_string()));
    assert_eq!(m.load(h, 4), Err("load out of bounds: offset=0 size=4 len=3".to_string()));
    assert_eq!(m.store_word(past, 1), Err("store out of bounds: offset=3 len=3".to_string()));
    assert_eq!(m.store(h, &[1, 2, 3, 4], 4), Err("store out of bounds: offset=0 size=4 len=3".to_string()));
    assert_eq!(m.load(h, 3), Ok(vec![0, 0, 0]));
}
