use vstd::prelude::*;

use crate::state::{zeros, StateStorage};
use crate::text::{decimal, push_decimal, text_with_number};
use crate::word::{closure_handle, closure_index_of, decode_closure, encode_closure, Word};

verus! {

/// A closure value: the function it runs, its captured upvalues (each
/// either the value itself or, when `indirect`, a memory handle to it), and
/// its own state cells.
#[derive(Clone)]
pub struct ClosureObject {
    pub function: Word,
    pub upvalues: Vec<Word>,
    pub indirect: Vec<bool>,
    pub state_storage: StateStorage,
}

/// The message of upvalue lists whose lengths disagree.
pub open spec fn upvalue_mismatch_msg(values: nat, flags: nat) -> Seq<char> {
    "closure upvalue metadata mismatch: "@ + decimal(values) + " values, "@ + decimal(flags) + " flags"@
}

/// The message of a handle that names no closure.
pub open spec fn invalid_closure_handle_msg(handle: Word) -> Seq<char> {
    "invalid closure handle "@ + decimal(handle as nat)
}

/// Whether `handle` names one of `closures`.
pub open spec fn names_closure(closures: Seq<ClosureObject>, handle: Word) -> bool {
    match closure_index_of(handle) {
        Some(i) => i < closures.len(),
        None => false,
    }
}

/// The closures of a running program; closure handles carry their index.
pub struct ClosureStorage {
    closures: Vec<ClosureObject>,
}

impl View for ClosureStorage {
    type V = Seq<ClosureObject>;

    closed spec fn view(&self) -> Seq<ClosureObject> {
        self.closures@
    }
}

impl ClosureStorage {
    /// An empty storage.
    pub fn new() -> (s: Self)
        ensures
            s@ == Seq::<ClosureObject>::empty(),
    {
        ClosureStorage { closures: Vec::new() }
    }

    /// Adds a closure running `function` over `upvalues` (with their
    /// `indirect` flags, one per upvalue) and `state_size` zero state
    /// words; gives its handle.
    pub fn allocate(&mut self, function: Word, upvalues: Vec<Word>, indirect: Vec<bool>, state_size: usize) -> (r:
        Result<Word, String>)
        ensures
            r is Ok <==> upvalues@.len() == indirect@.len(),
            r matches Ok(h) ==> {
                &&& final(self)@.len() == old(self)@.len() + 1
                &&& final(self)@.take(old(self)@.len() as int) == old(self)@
                &&& final(self)@.last().function == function
                &&& final(self)@.last().upvalues@ == upvalues@
                &&& final(self)@.last().indirect@ == indirect@
                &&& final(self)@.last().state_storage.cursor() == 0
                &&& final(self)@.last().state_storage.cells() == zeros(state_size as nat)
                &&& h == closure_handle(old(self)@.len() as usize)
            },
            r matches Err(e) ==> {
                &&& e@ == upvalue_mismatch_msg(upvalues@.len(), indirect@.len())
                &&& final(self)@ == old(self)@
            },
    {
        if upvalues.len() != indirect.len() {
            let mut e = String::from_str("closure upvalue metadata mismatch: ");
            push_decimal(&mut e, upvalues.len() as u64);
            e.append(" values, ");
            push_decimal(&mut e, indirect.len() as u64);
            e.append(" flags");
            return Err(e);
        }
        let index = self.closures.len();
        self.closures.push(
            ClosureObject { function, upvalues, indirect, state_storage: StateStorage::new(state_size) },
        );
        assert(self@.take(old(self)@.len() as int) =~= old(self)@);
        Ok(encode_closure(index))
    }

    /// The closure that `handle` names.
    pub fn get(&self, handle: Word) -> (r: Result<&ClosureObject, String>)
        ensures
            r is Ok <==> names_closure(self@, handle),
            r matches Ok(c) ==> *c == self@[closure_index_of(handle)->0 as int],
            r matches Err(e) ==> e@ == invalid_closure_handle_msg(handle),
    {
        match decode_closure(handle) {
            Some(index) => if index < self.closures.len() {
                Ok(&self.closures[index])
            } else {
                Err(text_with_number("invalid closure handle ", handle))
            },
            None => Err(text_with_number("invalid closure handle ", handle)),
        }
    }

    /// The closure that `handle` names, to change it.
    pub fn get_mut(&mut self, handle: Word) -> (r: Result<&mut ClosureObject, String>)
        ensures
            r is Ok <==> names_closure(old(self)@, handle),
            r matches Ok(c) ==> {
                &&& *c == old(self)@[closure_index_of(handle)->0 as int]
                &&& final(self)@ == old(self)@.update(closure_index_of(handle)->0 as int, *final(c))
            },
            r matches Err(e) ==> e@ == invalid_closure_handle_msg(handle) && final(self)@ == old(self)@,
    {
        match decode_closure(handle) {
            Some(index) => if index < self.closures.len() {
                Ok(&mut self.closures[index])
            } else {
                Err(text_with_number("invalid closure handle ", handle))
            },
            None => Err(text_with_number("invalid closure handle ", handle)),
        }
    }
}

/// A closure just added is found again through the handle it was given.
pub proof fn lemma_closure_found_after_allocate(closures: Seq<ClosureObject>, c: ClosureObject)
    requires
        closures.len() < 0x4000_0000_0000_0000u64,
        closures.len() <= usize::MAX,
    ensures
        names_closure(closures.push(c), closure_handle(closures.len() as usize)),
        closures.push(c)[closure_index_of(closure_handle(closures.len() as usize))->0 as int] == c,
{
    crate::word::lemma_closure_handle_roundtrip(closures.len() as usize);
}

} // verus!
