use mimium_transpiler_bench::blocks::{output_channel_count, process_ticks, LIBPD_BLOCK_SIZE};
use mimium_transpiler_bench::closures::ClosureStorage;
use mimium_transpiler_bench::faust::{ParamIndex, FAUST_INPUTS, FAUST_OUTPUTS};
use mimium_transpiler_bench::program::{check_dsp_buffer, CallFrame, PanicHost, ProgramState};
use mimium_transpiler_bench::word::{encode_closure, encode_function, encode_memory};

#[test]
fn closures_are_found_by_handle() {
    let mut c = ClosureStorage::new();
    let h = c.allocate(encode_function(3), vec![1, 2], vec![false, true], 4).unwrap();
    assert_eq!(h, encode_closure(0));
    let obj = c.get(h).unwrap();
    assert_eq!(obj.function, encode_function(3));
    assert_eq!(obj.upvalues, vec![1, 2]);
    assert_eq!(obj.indirect, vec![false, true]);
    assert_eq!(obj.state_storage.len(), 4);
    let h2 = c.allocate(encode_function(1), vec![], vec![], 0).unwrap();
    assert_eq!(h2, encode_closure(1));
}

#[test]
fn closure_errors() {
    let mut c = ClosureStorage::new();
    assert_eq!(
        c.allocate(0, vec![1, 2], vec![true], 0),
        Err("closure upvalue metadata mismatch: 2 values, 1 flags".to_string())
    );
    let bad = encode_closure(5);
    assert_eq!(c.get(bad).err(), Some(format!("invalid closure handle {}", bad)));
    let f = encode_function(0);
    assert_eq!(c.get(f).err(), Some(format!("invalid closure handle {}", f)));
    assert_eq!(c.get_mut(3).err(), Some("invalid closure handle 3".to_string()));
}

#[test]
fn new_program_has_one_state_per_function() {
    let p = ProgramState::new(&[0, 1, 11]);
    assert_eq!(p.function_states.len(), 3);
    assert_eq!(p.function_states[2].len(), 11);
    assert_eq!(p.current_function_state, None);
    assert!(!p.current_state_exists());
}

#[test]
fn function_call_uses_function_state() {
    let mut p = ProgramState::new(&[0, 1, 11]);
    let (index, frame) = p.enter_function_handle(encode_function(2));
    assert_eq!(index, 2);
    assert_eq!(frame, CallFrame { previous_function_state: None, pushed_closure: false });
    assert_eq!(p.current_function_state, Some(2));
    assert!(p.current_state_exists());
    p.get_current_statestorage().push_pos(3);
    p.get_current_statestorage().set_state_word(7);
    assert_eq!(p.function_states[2].get_state_slice(1), &[7]);
    p.leave_function_handle(frame);
    assert_eq!(p.current_function_state, None);
    assert_eq!(p.get_current_closure(), None);
}

#[test]
fn raw_function_index_is_called_directly() {
    let mut p = ProgramState::new(&[0, 0]);
    let (index, frame) = p.enter_function_handle(1);
    assert_eq!(index, 1);
    assert!(!frame.pushed_closure);
    p.leave_function_handle(frame);
}

#[test]
fn closure_call_uses_closure_state() {
    let mut p = ProgramState::new(&[0, 2]);
    let h = p.closures.allocate(encode_function(1), vec![], vec![], 5).unwrap();
    p.current_function_state = Some(0);
    let (index, frame) = p.enter_function_handle(h);
    assert_eq!(index, 1);
    assert!(frame.pushed_closure);
    assert_eq!(frame.previous_function_state, Some(0));
    assert_eq!(p.get_current_closure(), Some(h));
    assert_eq!(p.get_current_statestorage().len(), 5);
    p.get_current_statestorage().set_state_word(9);
    assert_eq!(p.closures.get(h).unwrap().state_storage.get_state_word(), 9);
    assert_eq!(p.function_states[1].get_state_slice(2), &[0, 0]);
    p.leave_function_handle(frame);
    assert_eq!(p.get_current_closure(), None);
    assert_eq!(p.current_function_state, Some(0));
}

#[test]
fn upvalues_by_value() {
    let mut p = ProgramState::new(&[0]);
    let h = p.closures.allocate(0, vec![10, 20], vec![false, false], 0).unwrap();
    assert_eq!(p.load_upvalue_word(h, 1), Ok(20));
    assert_eq!(p.load_upvalue(h, 0, 1), Ok(vec![10]));
    assert_eq!(p.store_upvalue_word(h, 0, 11), Ok(()));
    assert_eq!(p.load_upvalue_word(h, 0), Ok(11));
    assert_eq!(p.store_upvalue(h, 1, &[21, 99], 1), Ok(()));
    assert_eq!(p.load_upvalue_word(h, 1), Ok(21));
}

#[test]
fn upvalues_through_memory() {
    let mut p = ProgramState::new(&[0]);
    let cell = p.memory.allocate(2);
    let h = p.closures.allocate(0, vec![cell], vec![true], 0).unwrap();
    assert_eq!(p.load_upvalue(h, 0, 2), Ok(vec![0, 0]));
    assert_eq!(p.store_upvalue(h, 0, &[3, 4], 2), Ok(()));
    assert_eq!(p.load_upvalue(h, 0, 2), Ok(vec![3, 4]));
    assert_eq!(p.store_upvalue_word(h, 0, 8), Ok(()));
    assert_eq!(p.load_upvalue_word(h, 0), Ok(8));
    assert_eq!(p.memory.load(cell, 2), Ok(vec![8, 4]));
    assert_eq!(p.closures.get(h).unwrap().upvalues, vec![cell]);
}

#[test]
fn upvalue_errors() {
    let mut p = ProgramState::new(&[0]);
    let h = p.closures.allocate(0, vec![10, 20], vec![false, false], 0).unwrap();
    assert_eq!(p.load_upvalue_word(h, 2), Err("invalid upvalue index 2".to_string()));
    assert_eq!(p.load_upvalue(h, 5, 1), Err("invalid upvalue index 5".to_string()));
    assert_eq!(
        p.load_upvalue(h, 0, 2),
        Err("direct upvalue 0 does not support 2 words in the initial Rust backend".to_string())
    );
    assert_eq!(
        p.store_upvalue(h, 1, &[1, 2], 2),
        Err("direct upvalue 1 does not support 2 words in the initial Rust backend".to_string())
    );
    assert_eq!(p.store_upvalue_word(h, 4, 1), Err("missing upvalue metadata 4".to_string()));
    p.closures.get_mut(h).unwrap().indirect.pop();
    assert_eq!(p.load_upvalue_word(h, 1), Err("missing upvalue metadata 1".to_string()));
    assert_eq!(p.store_upvalue(h, 1, &[1], 1), Err("missing upvalue metadata 1".to_string()));
    let bad = encode_closure(7);
    assert_eq!(p.load_upvalue_word(bad, 0), Err(format!("invalid closure handle {}", bad)));
    let stale = p.closures.allocate(0, vec![encode_memory(9)], vec![true], 0).unwrap();
    assert_eq!(p.load_upvalue_word(stale, 0), Err(format!("invalid memory handle {}", encode_memory(9))));
    p.closures.get_mut(stale).unwrap().upvalues.clear();
    assert_eq!(p.store_upvalue_word(stale, 0, 1), Err("invalid upvalue index 0".to_string()));
}

#[test]
fn direct_store_of_many_words_is_refused_before_the_index_check() {
    let mut p = ProgramState::new(&[0]);
    let h = p.closures.allocate(0, vec![10, 20], vec![false, false], 0).unwrap();
    p.closures.get_mut(h).unwrap().upvalues.pop();
    assert_eq!(
        p.store_upvalue(h, 1, &[1, 2], 2),
        Err("direct upvalue 1 does not support 2 words in the initial Rust backend".to_string())
    );
    assert_eq!(p.store_upvalue(h, 1, &[1], 1), Err("invalid upvalue index 1".to_string()));
    assert_eq!(p.closures.get(h).unwrap().upvalues, vec![10]);
}

#[test]
fn store_then_load_upvalue_gives_back_the_words() {
    let mut p = ProgramState::new(&[0]);
    let cell = p.memory.allocate(3);
    let h = p.closures.allocate(0, vec![cell, 5], vec![true, false], 0).unwrap();
    assert_eq!(p.store_upvalue(h, 0, &[7, 8, 9, 10], 3), Ok(()));
    assert_eq!(p.load_upvalue(h, 0, 3), Ok(vec![7, 8, 9]));
    assert_eq!(p.store_upvalue(h, 1, &[42, 43], 1), Ok(()));
    assert_eq!(p.load_upvalue(h, 1, 1), Ok(vec![42]));
    assert_eq!(p.load_upvalue_word(h, 1), Ok(42));
}

#[test]
fn strings_get_one_based_handles() {
    let mut p = ProgramState::new(&[]);
    assert_eq!(p.alloc_string("hello"), 1);
    assert_eq!(p.alloc_string("world"), 2);
    assert_eq!(p.strings, vec!["hello".to_string(), "world".to_string()]);
}

#[test]
fn dsp_buffers_are_checked() {
    assert_eq!(check_dsp_buffer(0, 2048, 1024), Ok(()));
    assert_eq!(check_dsp_buffer(0, 0, 0), Ok(()));
    assert_eq!(
        check_dsp_buffer(3, 2048, 1024),
        Err("expected 0 input samples for 1024 dsp frames, got 3".to_string())
    );
    assert_eq!(
        check_dsp_buffer(0, 100, 1024),
        Err("expected 2048 output samples for 1024 dsp frames, got 100".to_string())
    );
    assert_eq!(
        check_dsp_buffer(0, 4, usize::MAX),
        Err(format!("expected {} output samples for {} dsp frames, got 4", usize::MAX, usize::MAX))
    );
}

#[test]
fn panic_host_refuses_every_call() {
    let mut host = PanicHost;
    assert_eq!(
        host.call_ext("foo", &[1, 2], 1),
        Err("external function 'foo' is not available in the generated Rust host".to_string())
    );
}

#[test]
fn libpd_ticks_and_channel_counts() {
    assert_eq!(LIBPD_BLOCK_SIZE, 64);
    assert_eq!(process_ticks(1024), 16);
    assert_eq!(process_ticks(0), 0);
    assert_eq!(process_ticks(100), 1);
    assert_eq!(output_channel_count(None), 2);
    assert_eq!(output_channel_count(Some(1)), 1);
}

#[test]
fn faust_shapes() {
    assert_eq!(ParamIndex(3).0, 3);
    assert_eq!(FAUST_INPUTS, 0);
    assert_eq!(FAUST_OUTPUTS, 1);
}
