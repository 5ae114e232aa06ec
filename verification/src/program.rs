use vstd::prelude::*;

use crate::arrays::ArrayStorage;
use crate::closures::{invalid_closure_handle_msg, names_closure, ClosureObject, ClosureStorage};
use crate::memory::{same_outcome, MemoryStore, MemoryView};
use crate::state::{zeros, StateStorage};
use crate::text::{decimal, push_decimal, text_with_number};
use crate::word::{closure_index_of, decode_closure, decode_function, function_index_of, Word};

verus! {

/// The message of an upvalue index past the closure's upvalues.
pub open spec fn invalid_upvalue_index_msg(index: usize) -> Seq<char> {
    "invalid upvalue index "@ + decimal(index as nat)
}

/// The message of an upvalue index past the closure's indirect flags.
pub open spec fn missing_upvalue_metadata_msg(index: usize) -> Seq<char> {
    "missing upvalue metadata "@ + decimal(index as nat)
}

/// The message of a multi-word access to an upvalue held by value.
pub open spec fn direct_upvalue_msg(index: usize, size: usize) -> Seq<char> {
    "direct upvalue "@ + decimal(index as nat) + " does not support "@ + decimal(size as nat)
        + " words in the initial Rust backend"@
}

/// The upvalue `index` of the closure `handle` names and its indirect
/// flag, or why it cannot be read.
pub open spec fn upvalue_outcome(closures: Seq<ClosureObject>, handle: Word, index: usize) -> Result<(Word, bool), Seq<char>> {
    if !names_closure(closures, handle) {
        Err(invalid_closure_handle_msg(handle))
    } else {
        let c = closures[closure_index_of(handle)->0 as int];
        if index >= c.upvalues@.len() {
            Err(invalid_upvalue_index_msg(index))
        } else if index >= c.indirect@.len() {
            Err(missing_upvalue_metadata_msg(index))
        } else {
            Ok((c.upvalues@[index as int], c.indirect@[index as int]))
        }
    }
}

/// What `load_upvalue` gives: the `size` words of an indirect upvalue, or
/// the one word of an upvalue held by value.
pub open spec fn load_upvalue_outcome(closures: Seq<ClosureObject>, memory: MemoryView, handle: Word, index: usize, size: usize) -> Result<Seq<Word>, Seq<char>> {
    match upvalue_outcome(closures, handle, index) {
        Err(m) => Err(m),
        Ok((v, indirect)) => if indirect {
            memory.load_outcome(v, size)
        } else if size == 1 {
            Ok(seq![v])
        } else {
            Err(direct_upvalue_msg(index, size))
        },
    }
}

/// What `load_upvalue_word` gives: the word of an indirect upvalue, or
/// the upvalue itself.
pub open spec fn load_upvalue_word_outcome(closures: Seq<ClosureObject>, memory: MemoryView, handle: Word, index: usize) -> Result<Word, Seq<char>> {
    match upvalue_outcome(closures, handle, index) {
        Err(m) => Err(m),
        Ok((v, indirect)) => if indirect {
            memory.load_word_outcome(v)
        } else {
            Ok(v)
        },
    }
}

/// What a store of `size` words (`None`: of one word) to upvalue `index`
/// gives. The indirect flag is checked first; the upvalue itself only
/// where it is written (through memory, or in place for one word), so a
/// multi-word store to an upvalue held by value is refused as such.
pub open spec fn store_upvalue_outcome(closures: Seq<ClosureObject>, memory: MemoryView, handle: Word, index: usize, size: Option<usize>) -> Result<(), Seq<char>> {
    if !names_closure(closures, handle) {
        Err(invalid_closure_handle_msg(handle))
    } else {
        let c = closures[closure_index_of(handle)->0 as int];
        if index >= c.indirect@.len() {
            Err(missing_upvalue_metadata_msg(index))
        } else if c.indirect@[index as int] {
            if index >= c.upvalues@.len() {
                Err(invalid_upvalue_index_msg(index))
            } else {
                memory.store_outcome(c.upvalues@[index as int], size)
            }
        } else if size is None || size == Some(1usize) {
            if index >= c.upvalues@.len() {
                Err(invalid_upvalue_index_msg(index))
            } else {
                Ok(())
            }
        } else {
            Err(direct_upvalue_msg(index, size->0))
        }
    }
}

/// The closures after setting upvalue `index` of closure `ci` to `v`.
pub open spec fn upvalue_set(before: Seq<ClosureObject>, after: Seq<ClosureObject>, ci: int, index: int, v: Word) -> bool {
    &&& after.len() == before.len()
    &&& forall|j: int| 0 <= j < before.len() && j != ci ==> #[trigger] after[j] == before[j]
    &&& after[ci].function == before[ci].function
    &&& after[ci].indirect == before[ci].indirect
    &&& after[ci].state_storage == before[ci].state_storage
    &&& after[ci].upvalues@ == before[ci].upvalues@.update(index, v)
}

/// What the runtime records on entering a function through a handle, to
/// undo on leaving it.
#[derive(Clone, Copy, PartialEq, Eq, Debug)]
pub struct CallFrame {
    pub previous_function_state: Option<usize>,
    pub pushed_closure: bool,
}

/// The bookkeeping of a running program: its globals, the state cells of
/// each function, which function's (or closure's) cells are current, and
/// the memory, closure, array and string stores.
pub struct ProgramState {
    pub globals: Vec<Vec<Word>>,
    pub function_states: Vec<StateStorage>,
    pub current_function_state: Option<usize>,
    pub state_storage_stack: Vec<Word>,
    pub memory: MemoryStore,
    pub closures: ClosureStorage,
    pub arrays: ArrayStorage,
    pub strings: Vec<String>,
}

impl ProgramState {
    /// A program with one fresh state storage per function, of the sizes
    /// given, and nothing else yet.
    pub fn new(state_sizes: &[usize]) -> (p: Self)
        ensures
            p.function_states@.len() == state_sizes@.len(),
            forall|i: int|
                0 <= i < state_sizes@.len() ==> {
                    &&& (#[trigger] p.function_states@[i]).cursor() == 0
                    &&& p.function_states@[i].cells() == zeros(state_sizes@[i] as nat)
                },
            p.globals@.len() == 0,
            p.current_function_state is None,
            p.state_storage_stack@.len() == 0,
            p.memory@.slots.len() == 0,
            p.memory@.ptrs.len() == 0,
            p.closures@.len() == 0,
            p.arrays@.len() == 0,
            p.strings@.len() == 0,
    {
        let mut function_states: Vec<StateStorage> = Vec::new();
        let mut i: usize = 0;
        while i < state_sizes.len()
            invariant
                i <= state_sizes@.len(),
                function_states@.len() == i,
                forall|j: int|
                    0 <= j < i ==> {
                        &&& (#[trigger] function_states@[j]).cursor() == 0
                        &&& function_states@[j].cells() == zeros(state_sizes@[j] as nat)
                    },
            decreases state_sizes@.len() - i,
        {
            function_states.push(StateStorage::new(state_sizes[i]));
            i = i + 1;
        }
        ProgramState {
            globals: Vec::new(),
            function_states,
            current_function_state: None,
            state_storage_stack: Vec::new(),
            memory: MemoryStore::new(),
            closures: ClosureStorage::new(),
            arrays: ArrayStorage::new(),
            strings: Vec::new(),
        }
    }

    /// Whether a closure is being run: then the current state cells are
    /// those of the closure on top of the closure stack, else those of the
    /// current function.
    pub open spec fn in_closure(self) -> bool {
        self.state_storage_stack@.len() > 0
    }

    /// The index of the closure on top of the closure stack.
    pub open spec fn current_closure_index(self) -> int {
        closure_index_of(self.state_storage_stack@.last())->0 as int
    }

    /// The index of the current function.
    pub open spec fn current_function_index(self) -> int {
        self.current_function_state->0 as int
    }

    /// Whether the current state cells exist.
    pub open spec fn has_current_state(self) -> bool {
        if self.in_closure() {
            names_closure(self.closures@, self.state_storage_stack@.last())
        } else {
            self.current_function_state matches Some(i) && i < self.function_states@.len()
        }
    }

    /// The current state cells.
    pub open spec fn current_state(self) -> StateStorage
        recommends
            self.has_current_state(),
    {
        if self.in_closure() {
            self.closures@[self.current_closure_index()].state_storage
        } else {
            self.function_states@[self.current_function_index()]
        }
    }

    /// `self` with the current state cells replaced by `s`.
    pub open spec fn with_current_state(self, other: Self, s: StateStorage) -> bool {
        &&& other.globals == self.globals
        &&& other.current_function_state == self.current_function_state
        &&& other.state_storage_stack == self.state_storage_stack
        &&& other.memory == self.memory
        &&& other.arrays == self.arrays
        &&& other.strings == self.strings
        &&& if self.in_closure() {
            let i = self.current_closure_index();
            &&& other.function_states == self.function_states
            &&& other.closures@ == self.closures@.update(i, ClosureObject { state_storage: s, ..self.closures@[i] })
        } else {
            &&& other.closures == self.closures
            &&& other.function_states@ == self.function_states@.update(self.current_function_index(), s)
        }
    }

    /// Whether the current state cells exist.
    pub fn current_state_exists(&self) -> (r: bool)
        ensures
            r == self.has_current_state(),
    {
        let n = self.state_storage_stack.len();
        if n > 0 {
            match self.closures.get(self.state_storage_stack[n - 1]) {
                Ok(_) => true,
                Err(_) => false,
            }
        } else {
            match self.current_function_state {
                Some(i) => i < self.function_states.len(),
                None => false,
            }
        }
    }

    /// The current state cells, to read and change: those of the closure
    /// being run, else those of the current function.
    pub fn get_current_statestorage(&mut self) -> (r: &mut StateStorage)
        requires
            old(self).has_current_state(),
        ensures
            *r == old(self).current_state(),
            old(self).with_current_state(*final(self), *final(r)),
    {
        let n = self.state_storage_stack.len();
        if n > 0 {
            let handle = self.state_storage_stack[n - 1];
            match self.closures.get_mut(handle) {
                Ok(c) => &mut c.state_storage,
                Err(_) => unreached(),
            }
        } else {
            let index = match self.current_function_state {
                Some(i) => i,
                None => unreached(),
            };
            &mut self.function_states[index]
        }
    }

    /// The closure being run, if any.
    pub fn get_current_closure(&self) -> (r: Option<Word>)
        ensures
            r == if self.state_storage_stack@.len() > 0 {
                Some(self.state_storage_stack@.last())
            } else {
                None::<Word>
            },
    {
        let n = self.state_storage_stack.len();
        if n > 0 {
            Some(self.state_storage_stack[n - 1])
        } else {
            None
        }
    }

    /// The function that a call through `handle` runs: a closure handle
    /// runs its closure's function, any other handle is the function
    /// handle itself.
    pub open spec fn dispatch_handle(self, handle: Word) -> Word {
        if closure_index_of(handle) is Some {
            self.closures@[closure_index_of(handle)->0 as int].function
        } else {
            handle
        }
    }

    /// Enters a call through `handle`: a closure is pushed on the closure
    /// stack (its cells become current) and the called function's state
    /// becomes the current function state. Gives the index of the function
    /// to run and what to undo on leaving it.
    pub fn enter_function_handle(&mut self, handle: Word) -> (r: (usize, CallFrame))
        requires
            closure_index_of(handle) is Some ==> names_closure(old(self).closures@, handle),
        ensures
            r.0 == function_index_of(old(self).dispatch_handle(handle))->0,
            r.1.previous_function_state == old(self).current_function_state,
            r.1.pushed_closure == closure_index_of(handle) is Some,
            final(self).current_function_state == Some(r.0),
            final(self).state_storage_stack@ == if r.1.pushed_closure {
                old(self).state_storage_stack@.push(handle)
            } else {
                old(self).state_storage_stack@
            },
            final(self).globals == old(self).globals,
            final(self).function_states == old(self).function_states,
            final(self).memory == old(self).memory,
            final(self).closures == old(self).closures,
            final(self).arrays == old(self).arrays,
            final(self).strings == old(self).strings,
    {
        let previous_function_state = self.current_function_state;
        let is_closure = match decode_closure(handle) {
            Some(_) => true,
            None => false,
        };
        let dispatch = if is_closure {
            let function = match self.closures.get(handle) {
                Ok(c) => c.function,
                Err(_) => unreached(),
            };
            self.state_storage_stack.push(handle);
            function
        } else {
            handle
        };
        let index = match decode_function(dispatch) {
            Some(i) => i,
            None => unreached(),
        };
        self.current_function_state = Some(index);
        (index, CallFrame { previous_function_state, pushed_closure: is_closure })
    }

    /// Leaves a call entered with `frame`: pops the closure it pushed and
    /// restores the function state that was current before it.
    pub fn leave_function_handle(&mut self, frame: CallFrame)
        requires
            frame.pushed_closure ==> old(self).state_storage_stack@.len() > 0,
        ensures
            final(self).current_function_state == frame.previous_function_state,
            final(self).state_storage_stack@ == if frame.pushed_closure {
                old(self).state_storage_stack@.drop_last()
            } else {
                old(self).state_storage_stack@
            },
            final(self).globals == old(self).globals,
            final(self).function_states == old(self).function_states,
            final(self).memory == old(self).memory,
            final(self).closures == old(self).closures,
            final(self).arrays == old(self).arrays,
            final(self).strings == old(self).strings,
    {
        if frame.pushed_closure {
            let _ = self.state_storage_stack.pop();
        }
        self.current_function_state = frame.previous_function_state;
    }

    /// The message of an upvalue index past the closure's upvalues.
    fn invalid_upvalue_index(index: usize) -> (e: String)
        ensures
            e@ == invalid_upvalue_index_msg(index),
    {
        text_with_number("invalid upvalue index ", index as u64)
    }

    /// The message of an upvalue index past the closure's indirect flags.
    fn missing_upvalue_metadata(index: usize) -> (e: String)
        ensures
            e@ == missing_upvalue_metadata_msg(index),
    {
        text_with_number("missing upvalue metadata ", index as u64)
    }

    /// The message of a multi-word access to an upvalue held by value.
    fn direct_upvalue(index: usize, size: usize) -> (e: String)
        ensures
            e@ == direct_upvalue_msg(index, size),
    {
        let mut e = text_with_number("direct upvalue ", index as u64);
        e.append(" does not support ");
        push_decimal(&mut e, size as u64);
        e.append(" words in the initial Rust backend");
        e
    }

    /// The `size` words of upvalue `index` of the closure `closure_handle`
    /// names: read through memory when the upvalue is indirect, else the
    /// upvalue itself (which holds one word only).
    pub fn load_upvalue(&self, closure_handle: Word, index: usize, size: usize) -> (r: Result<Vec<Word>, String>)
        requires
            upvalue_outcome(self.closures@, closure_handle, index) matches Ok((v, indirect)) ==> (indirect
                && self.memory@.has_pointer(v) ==> self.memory@.pointer(v).offset + size <= usize::MAX),
        ensures
            match (r, load_upvalue_outcome(self.closures@, self.memory@, closure_handle, index, size)) {
                (Ok(v), Ok(w)) => v@ == w,
                (Err(e), Err(m)) => e@ == m,
                _ => false,
            },
    {
        let closure = match self.closures.get(closure_handle) {
            Ok(c) => c,
            Err(e) => return Err(e),
        };
        if index >= closure.upvalues.len() {
            return Err(Self::invalid_upvalue_index(index));
        }
        let value = closure.upvalues[index];
        if index >= closure.indirect.len() {
            return Err(Self::missing_upvalue_metadata(index));
        }
        let indirect = closure.indirect[index];
        if indirect {
            self.memory.load(value, size)
        } else if size == 1 {
            let mut v: Vec<Word> = Vec::new();
            v.push(value);
            assert(v@ =~= seq![value]);
            Ok(v)
        } else {
            Err(Self::direct_upvalue(index, size))
        }
    }

    /// The word of upvalue `index` of the closure `closure_handle` names:
    /// read through memory when the upvalue is indirect, else the upvalue.
    pub fn load_upvalue_word(&self, closure_handle: Word, index: usize) -> (r: Result<Word, String>)
        ensures
            same_outcome(r, load_upvalue_word_outcome(self.closures@, self.memory@, closure_handle, index)),
    {
        let closure = match self.closures.get(closure_handle) {
            Ok(c) => c,
            Err(e) => return Err(e),
        };
        if index >= closure.upvalues.len() {
            return Err(Self::invalid_upvalue_index(index));
        }
        let value = closure.upvalues[index];
        if index >= closure.indirect.len() {
            return Err(Self::missing_upvalue_metadata(index));
        }
        if closure.indirect[index] {
            self.memory.load_word(value)
        } else {
            Ok(value)
        }
    }

    /// Writes the first `size` words of `src` to upvalue `index` of the
    /// closure `closure_handle` names: through memory when the upvalue is
    /// indirect, else into the upvalue itself (which holds one word only).
    pub fn store_upvalue(&mut self, closure_handle: Word, index: usize, src: &[Word], size: usize) -> (r: Result<(), String>)
        requires
            ({
                let cs = old(self).closures@;
                let m = old(self).memory@;
                upvalue_outcome(cs, closure_handle, index) matches Ok((v, indirect)) ==> {
                    &&& indirect && m.has_pointer(v) ==> m.pointer(v).offset + size <= usize::MAX
                    &&& indirect && m.store_outcome(v, Some(size)) is Ok ==> size <= src@.len()
                    &&& !indirect && size == 1 ==> src@.len() >= 1
                }
            }),
        ensures
            same_outcome(r, store_upvalue_outcome(old(self).closures@, old(self).memory@, closure_handle, index, Some(size))),
            final(self).globals == old(self).globals,
            final(self).function_states == old(self).function_states,
            final(self).current_function_state == old(self).current_function_state,
            final(self).state_storage_stack == old(self).state_storage_stack,
            final(self).arrays == old(self).arrays,
            final(self).strings == old(self).strings,
            r is Err ==> final(self).memory@ == old(self).memory@ && final(self).closures@ == old(self).closures@,
            r is Ok ==> (upvalue_outcome(old(self).closures@, closure_handle, index) matches Ok((v, indirect)) && if indirect {
                &&& final(self).memory@ == old(self).memory@.stored(v, src@.take(size as int))
                &&& final(self).closures@ == old(self).closures@
            } else {
                &&& final(self).memory@ == old(self).memory@
                &&& upvalue_set(old(self).closures@, final(self).closures@, closure_index_of(closure_handle)->0 as int, index as int, src@[0])
            }),
    {
        let closure = match self.closures.get(closure_handle) {
            Ok(c) => c,
            Err(e) => return Err(e),
        };
        if index >= closure.indirect.len() {
            return Err(Self::missing_upvalue_metadata(index));
        }
        let indirect = closure.indirect[index];
        if indirect {
            if index >= closure.upvalues.len() {
                return Err(Self::invalid_upvalue_index(index));
            }
            let ptr = closure.upvalues[index];
            self.memory.store(ptr, src, size)
        } else if size == 1 {
            if index >= closure.upvalues.len() {
                return Err(Self::invalid_upvalue_index(index));
            }
            let ghost ci = closure_index_of(closure_handle)->0 as int;
            let ghost before = self.closures@;
            match self.closures.get_mut(closure_handle) {
                Ok(c) => {
                    c.upvalues.set(index, src[0]);
                },
                Err(_) => {},
            }
            proof {
                assert forall|j: int| 0 <= j < before.len() && j != ci implies #[trigger] self.closures@[j] == before[j] by {}
            }
            Ok(())
        } else {
            Err(Self::direct_upvalue(index, size))
        }
    }

    /// Writes `src` to upvalue `index` of the closure `closure_handle`
    /// names: through memory when the upvalue is indirect, else into the
    /// upvalue itself.
    pub fn store_upvalue_word(&mut self, closure_handle: Word, index: usize, src: Word) -> (r: Result<(), String>)
        ensures
            same_outcome(r, store_upvalue_outcome(old(self).closures@, old(self).memory@, closure_handle, index, None)),
            final(self).globals == old(self).globals,
            final(self).function_states == old(self).function_states,
            final(self).current_function_state == old(self).current_function_state,
            final(self).state_storage_stack == old(self).state_storage_stack,
            final(self).arrays == old(self).arrays,
            final(self).strings == old(self).strings,
            r is Err ==> final(self).memory@ == old(self).memory@ && final(self).closures@ == old(self).closures@,
            r is Ok ==> (upvalue_outcome(old(self).closures@, closure_handle, index) matches Ok((v, indirect)) && if indirect {
                &&& final(self).memory@ == old(self).memory@.stored(v, seq![src])
                &&& final(self).closures@ == old(self).closures@
            } else {
                &&& final(self).memory@ == old(self).memory@
                &&& upvalue_set(old(self).closures@, final(self).closures@, closure_index_of(closure_handle)->0 as int, index as int, src)
            }),
    {
        let closure = match self.closures.get(closure_handle) {
            Ok(c) => c,
            Err(e) => return Err(e),
        };
        if index >= closure.indirect.len() {
            return Err(Self::missing_upvalue_metadata(index));
        }
        let indirect = closure.indirect[index];
        if index >= closure.upvalues.len() {
            return Err(Self::invalid_upvalue_index(index));
        }
        if indirect {
            let ptr = closure.upvalues[index];
            self.memory.store_word(ptr, src)
        } else {
            let ghost ci = closure_index_of(closure_handle)->0 as int;
            let ghost before = self.closures@;
            match self.closures.get_mut(closure_handle) {
                Ok(c) => {
                    c.upvalues.set(index, src);
                },
                Err(_) => {},
            }
            proof {
                assert forall|j: int| 0 <= j < before.len() && j != ci implies #[trigger] self.closures@[j] == before[j] by {}
            }
            Ok(())
        }
    }

    /// Keeps a copy of `value` and gives its (one-based) string handle.
    pub fn alloc_string(&mut self, value: &str) -> (h: Word)
        requires
            old(self).strings@.len() < usize::MAX,
        ensures
            final(self).strings@.len() == old(self).strings@.len() + 1,
            forall|i: int| 0 <= i < old(self).strings@.len() ==> #[trigger] final(self).strings@[i] == old(self).strings@[i],
            final(self).strings@.last()@ == value@,
            h == final(self).strings@.len(),
            final(self).globals == old(self).globals,
            final(self).function_states == old(self).function_states,
            final(self).current_function_state == old(self).current_function_state,
            final(self).state_storage_stack == old(self).state_storage_stack,
            final(self).memory == old(self).memory,
            final(self).closures == old(self).closures,
            final(self).arrays == old(self).arrays,
    {
        self.strings.push(String::from_str(value));
        self.strings.len() as Word
    }
}


/// The message of input samples given to a program that takes none.
pub open spec fn unexpected_input_msg(frames: usize, got: usize) -> Seq<char> {
    "expected 0 input samples for "@ + decimal(frames as nat) + " dsp frames, got "@ + decimal(got as nat)
}

/// The message of an output buffer of the wrong length.
pub open spec fn output_length_msg(expected: nat, frames: usize, got: usize) -> Seq<char> {
    "expected "@ + decimal(expected) + " output samples for "@ + decimal(frames as nat) + " dsp frames, got "@
        + decimal(got as nat)
}

/// The number of output samples of `frames` stereo frames (saturating).
pub open spec fn stereo_samples(frames: usize) -> nat {
    if frames * 2 <= usize::MAX {
        (frames * 2) as nat
    } else {
        usize::MAX as nat
    }
}

/// Checks the buffers of a block of `frames` frames for a program with no
/// input and two interleaved output channels: no input samples, and
/// exactly two output samples per frame.
pub fn check_dsp_buffer(input_len: usize, output_len: usize, frames: usize) -> (r: Result<(), String>)
    ensures
        r is Ok <==> input_len == 0 && output_len == stereo_samples(frames),
        r matches Err(e) ==> if input_len != 0 {
            e@ == unexpected_input_msg(frames, input_len)
        } else {
            e@ == output_length_msg(stereo_samples(frames), frames, output_len)
        },
{
    if input_len != 0 {
        let mut e = text_with_number("expected 0 input samples for ", frames as u64);
        e.append(" dsp frames, got ");
        push_decimal(&mut e, input_len as u64);
        return Err(e);
    }
    let expected = match frames.checked_mul(2) {
        Some(n) => n,
        None => usize::MAX,
    };
    if output_len != expected {
        let mut e = text_with_number("expected ", expected as u64);
        e.append(" output samples for ");
        push_decimal(&mut e, frames as u64);
        e.append(" dsp frames, got ");
        push_decimal(&mut e, output_len as u64);
        return Err(e);
    }
    Ok(())
}

/// The host of a program that has no external functions of its own: it
/// refuses every call.
#[derive(Clone, Copy, PartialEq, Eq, Debug, Default)]
pub struct PanicHost;

/// The message of an external function that the host does not have.
pub open spec fn unavailable_ext_msg(name: Seq<char>) -> Seq<char> {
    "external function '"@ + name + "' is not available in the generated Rust host"@
}

impl PanicHost {
    /// Refuses the call of the external function `name`.
    pub fn call_ext(&mut self, name: &str, args: &[Word], ret_words: usize) -> (r: Result<Vec<Word>, String>)
        ensures
            r matches Err(e) && e@ == unavailable_ext_msg(name@),
    {
        let mut e = String::from_str("external function '");
        e.append(name);
        e.append("' is not available in the generated Rust host");
        Err(e)
    }
}

/// Entering a call through a handle and leaving it again gives back the
/// current function state and the closure stack as they were: `entered`
/// is `before` after `enter_function_handle(handle)` gave `frame`, and
/// `left` is `entered` after `leave_function_handle(frame)`.
pub proof fn lemma_call_restores_frame(
    before: ProgramState,
    entered: ProgramState,
    left: ProgramState,
    frame: CallFrame,
    handle: Word,
)
    requires
        frame.previous_function_state == before.current_function_state,
        frame.pushed_closure == closure_index_of(handle) is Some,
        entered.state_storage_stack@ == if frame.pushed_closure {
            before.state_storage_stack@.push(handle)
        } else {
            before.state_storage_stack@
        },
        left.current_function_state == frame.previous_function_state,
        left.state_storage_stack@ == if frame.pushed_closure {
            entered.state_storage_stack@.drop_last()
        } else {
            entered.state_storage_stack@
        },
    ensures
        frame.pushed_closure ==> entered.state_storage_stack@.len() > 0,
        left.current_function_state == before.current_function_state,
        left.state_storage_stack@ == before.state_storage_stack@,
{
    if frame.pushed_closure {
        assert(before.state_storage_stack@.push(handle).drop_last() =~= before.state_storage_stack@);
    }
}

/// Calling a closure makes its own state cells current: once a closure
/// handle is pushed on the closure stack, the current state is the
/// closure's storage, and it can be used.
pub proof fn lemma_closure_call_uses_closure_state(before: ProgramState, after: ProgramState, handle: Word)
    requires
        names_closure(before.closures@, handle),
        after.closures@ == before.closures@,
        after.state_storage_stack@ == before.state_storage_stack@.push(handle),
    ensures
        after.has_current_state(),
        after.current_state() == before.closures@[closure_index_of(handle)->0 as int].state_storage,
{
}

/// Calling a plain function outside any closure makes that function's
/// state cells current.
pub proof fn lemma_function_call_uses_function_state(after: ProgramState, index: usize)
    requires
        after.state_storage_stack@.len() == 0,
        after.current_function_state == Some(index),
        index < after.function_states@.len(),
    ensures
        after.has_current_state(),
        after.current_state() == after.function_states@[index as int],
{
}

/// An upvalue reads back what was stored in it: `closures2`/`memory2` are
/// `closures`/`memory` after a successful `store_upvalue(handle, index,
/// src, size)`. Then `load_upvalue(handle, index, size)` gives the first
/// `size` words of `src`, and for one word `load_upvalue_word` gives
/// `src[0]`.
pub proof fn lemma_upvalue_load_after_store(
    closures: Seq<ClosureObject>,
    memory: MemoryView,
    closures2: Seq<ClosureObject>,
    memory2: MemoryView,
    handle: Word,
    index: usize,
    src: Seq<Word>,
    size: usize,
)
    requires
        size <= src.len(),
        store_upvalue_outcome(closures, memory, handle, index, Some(size)) is Ok,
        upvalue_outcome(closures, handle, index) matches Ok((v, indirect)) && if indirect {
            &&& memory2 == memory.stored(v, src.take(size as int))
            &&& closures2 == closures
        } else {
            &&& memory2 == memory
            &&& upvalue_set(closures, closures2, closure_index_of(handle)->0 as int, index as int, src[0])
        },
    ensures
        load_upvalue_outcome(closures2, memory2, handle, index, size) == Ok::<Seq<Word>, Seq<char>>(
            src.take(size as int),
        ),
        size == 1 ==> load_upvalue_word_outcome(closures2, memory2, handle, index) == Ok::<Word, Seq<char>>(
            src[0],
        ),
{
    let ci = closure_index_of(handle)->0 as int;
    let c = closures[ci];
    if c.indirect@[index as int] {
        crate::memory::lemma_load_after_store(memory, c.upvalues@[index as int], src.take(size as int));
        if size == 1 {
            crate::memory::lemma_load_word_after_store_word(memory, c.upvalues@[index as int], src[0]);
            assert(src.take(1) =~= seq![src[0]]);
        }
    } else {
        assert(closures2[ci].upvalues@[index as int] == src[0]);
        assert(src.take(1) =~= seq![src[0]]);
    }
}

} // verus!
