use mimium_transpiler_bench::state::StateStorage;

#[test]
fn new_storage_is_zeroed() {
    let s = StateStorage::new(3);
    assert_eq!(s.pos(), 0);
    assert_eq!(s.len(), 3);
    assert_eq!(s.get_state_slice(3), &[0, 0, 0]);
    assert_eq!(s.get_state_word(), 0);
}

#[test]
fn ensure_grows_with_zeros_only_when_short() {
    let mut s = StateStorage::new(2);
    s.push_pos(1);
    s.ensure(4);
    assert_eq!(s.len(), 5);
    s.ensure(2);
    assert_eq!(s.len(), 5);
    s.pop_pos(1);
    assert_eq!(s.get_state_slice(5), &[0, 0, 0, 0, 0]);
}

#[test]
fn ensure_leaves_long_storage_alone() {
    let mut s = StateStorage::new(2);
    s.push_pos(1);
    s.ensure(0);
    assert_eq!(s.len(), 2);
}

#[test]
fn push_then_pop_restores_cursor() {
    let mut s = StateStorage::new(10);
    s.push_pos(4);
    assert_eq!(s.pos(), 4);
    s.push_pos(3);
    assert_eq!(s.pos(), 7);
    s.pop_pos(3);
    s.pop_pos(4);
    assert_eq!(s.pos(), 0);
}

#[test]
fn get_state_copies_and_grows() {
    let mut s = StateStorage::new(2);
    s.set_state(&[5, 6], 2);
    s.push_pos(1);
    let v = s.get_state(3);
    assert_eq!(v, vec![6, 0, 0]);
    assert_eq!(s.len(), 4);
}

#[test]
fn set_state_writes_a_prefix_of_src() {
    let mut s = StateStorage::new(4);
    s.push_pos(1);
    s.set_state(&[7, 8, 9], 2);
    s.pop_pos(1);
    assert_eq!(s.get_state_slice(4), &[0, 7, 8, 0]);
}

#[test]
fn state_word_is_read_back() {
    let mut s = StateStorage::new(2);
    s.push_pos(1);
    s.set_state_word(42);
    assert_eq!(s.get_state_word(), 42);
    s.pop_pos(1);
    assert_eq!(s.get_state_word(), 0);
}

#[test]
fn mem_returns_previous_sample() {
    let mut s = StateStorage::new(1);
    assert_eq!(s.mem(10), 0);
    assert_eq!(s.mem(20), 10);
    assert_eq!(s.mem(30), 20);
    assert_eq!(s.get_state_word(), 30);
}

#[test]
fn delay_returns_input_of_d_calls_ago() {
    let mut s = StateStorage::new(0);
    let mut outputs = Vec::new();
    for x in 1..=6u64 {
        outputs.push(s.delay(x * 10, 2, 4));
    }
    assert_eq!(outputs, vec![0, 0, 10, 20, 30, 40]);
    assert_eq!(s.len(), 6);
}

#[test]
fn delay_of_one_sample() {
    let mut s = StateStorage::new(0);
    assert_eq!(s.delay(5, 1, 3), 0);
    assert_eq!(s.delay(6, 1, 3), 5);
    assert_eq!(s.delay(7, 1, 3), 6);
    assert_eq!(s.delay(8, 1, 3), 7);
}

#[test]
fn delay_zero_reads_oldest_entry() {
    let mut s = StateStorage::new(0);
    let mut outputs = Vec::new();
    for x in 1..=5u64 {
        outputs.push(s.delay(x, 0, 3));
    }
    assert_eq!(outputs, vec![0, 0, 0, 1, 2]);
}

#[test]
fn delay_of_the_full_length_reads_like_zero() {
    let mut s = StateStorage::new(0);
    let mut outputs = Vec::new();
    for x in 1..=5u64 {
        outputs.push(s.delay(x, 3, 3));
    }
    assert_eq!(outputs, vec![0, 0, 0, 1, 2]);
}

#[test]
fn delay_time_fits_up_to_the_line_past_the_write_slot() {
    let mut s = StateStorage::new(0);
    assert!(s.delay_time_fits(3, 3));
    assert!(!s.delay_time_fits(4, 3));
    assert!(s.delay_time_fits(100, 0));
    s.delay(1, 0, 3);
    s.delay(2, 0, 3);
    assert!(s.delay_time_fits(5, 3));
    assert!(!s.delay_time_fits(6, 3));
}

#[test]
fn delay_past_the_line_reads_back_through_the_ring() {
    let mut s = StateStorage::new(0);
    s.delay(1, 0, 3);
    s.delay(2, 0, 3);
    // write slot 2: a delay of 4 reads slot (2 + 3 - 4) % 3 == 1
    assert_eq!(s.delay(3, 4, 3), 2);
}

#[test]
fn delay_counters_after_several_calls() {
    let mut s = StateStorage::new(0);
    for x in 1..=7u64 {
        s.delay(x, 1, 3);
    }
    let cells = s.get_state_slice(2).to_vec();
    // after 7 calls: write counter 7 % 3, read slot (6 + 3 - 1) % 3
    assert_eq!(cells, vec![2, 1]);
}

#[test]
fn delay_of_zero_length_gives_zero() {
    let mut s = StateStorage::new(0);
    assert_eq!(s.delay(5, 1, 0), 0);
    assert_eq!(s.delay(6, 1, 0), 0);
    assert_eq!(s.len(), 2);
}

#[test]
fn delay_keeps_its_bookkeeping_words() {
    let mut s = StateStorage::new(0);
    s.delay(11, 1, 4);
    s.delay(12, 1, 4);
    let cells = s.get_state_slice(6).to_vec();
    assert_eq!(cells[0], 0);
    assert_eq!(cells[1], 2);
    assert_eq!(&cells[2..], &[11, 12, 0, 0]);
}

#[test]
fn delay_lines_at_other_cursors_are_independent() {
    let mut s = StateStorage::new(0);
    s.push_pos(5);
    assert_eq!(s.delay(1, 1, 2), 0);
    assert_eq!(s.delay(2, 1, 2), 1);
    s.pop_pos(5);
    assert_eq!(s.delay(9, 1, 2), 0);
    assert_eq!(s.len(), 9);
}
