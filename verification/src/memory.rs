use vstd::prelude::*;

use crate::state::zeros;
use crate::text::{decimal, push_decimal, text_with_number};
use crate::word::{decode_memory, encode_memory, memory_handle, memory_index_of, Word};

verus! {

/// A place in the memory store: a slot and a word offset in it.
#[derive(Clone, Copy, PartialEq, Eq, Debug)]
pub struct Pointer {
    pub slot: usize,
    pub offset: usize,
}

/// The message of a handle that names no pointer.
pub open spec fn invalid_memory_handle_msg(handle: Word) -> Seq<char> {
    "invalid memory handle "@ + decimal(handle as nat)
}

/// The message of a pointer into a slot that does not exist.
pub open spec fn invalid_memory_slot_msg(slot: usize) -> Seq<char> {
    "invalid memory slot "@ + decimal(slot as nat)
}

/// The message of an access of `size` words (`None`: of one word) at
/// `offset` past the end of a slot of `len` words, for a load or a store.
pub open spec fn out_of_bounds_msg(is_store: bool, offset: usize, size: Option<usize>, len: nat) -> Seq<char> {
    let head: Seq<char> = if is_store {
        "store out of bounds: offset="@
    } else {
        "load out of bounds: offset="@
    };
    match size {
        Some(n) => head + decimal(offset as nat) + " size="@ + decimal(n as nat) + " len="@ + decimal(len),
        None => head + decimal(offset as nat) + " len="@ + decimal(len),
    }
}

/// A `Result` with a `String` error agrees with an outcome whose error is
/// the text of the message.
pub open spec fn same_outcome<T>(r: Result<T, String>, o: Result<T, Seq<char>>) -> bool {
    match (r, o) {
        (Ok(a), Ok(b)) => a == b,
        (Err(e), Err(m)) => e@ == m,
        _ => false,
    }
}

/// The contents of a memory store: the words of each slot, and the
/// pointers, the pointer of handle `i` standing at index `i - 1`.
pub struct MemoryView {
    pub slots: Seq<Seq<Word>>,
    pub ptrs: Seq<Pointer>,
}

impl MemoryView {
    /// The index in `ptrs` that a handle names, when it is a memory handle
    /// with a non-zero index.
    pub open spec fn pointer_index(handle: Word) -> Option<int> {
        match memory_index_of(handle) {
            Some(i) => if i >= 1 {
                Some(i - 1)
            } else {
                None
            },
            None => None,
        }
    }

    /// Whether `handle` names one of the pointers.
    pub open spec fn has_pointer(self, handle: Word) -> bool {
        match Self::pointer_index(handle) {
            Some(i) => i < self.ptrs.len(),
            None => false,
        }
    }

    /// The pointer that `handle` names.
    pub open spec fn pointer(self, handle: Word) -> Pointer
        recommends
            self.has_pointer(handle),
    {
        self.ptrs[Self::pointer_index(handle)->0]
    }

    /// What `ptr` gives: the pointer, or the message of a bad handle.
    pub open spec fn ptr_outcome(self, handle: Word) -> Result<Pointer, Seq<char>> {
        if self.has_pointer(handle) {
            Ok(self.pointer(handle))
        } else {
            Err(invalid_memory_handle_msg(handle))
        }
    }

    /// What `load_word` gives: a word that is no memory handle (or handle
    /// zero) is itself the value; otherwise the word the pointer points at.
    pub open spec fn load_word_outcome(self, handle: Word) -> Result<Word, Seq<char>> {
        if Self::pointer_index(handle) is None {
            Ok(handle)
        } else if !self.has_pointer(handle) {
            Err(invalid_memory_handle_msg(handle))
        } else {
            let p = self.pointer(handle);
            if p.slot >= self.slots.len() {
                Err(invalid_memory_slot_msg(p.slot))
            } else if p.offset >= self.slots[p.slot as int].len() {
                Err(out_of_bounds_msg(false, p.offset, None, self.slots[p.slot as int].len()))
            } else {
                Ok(self.slots[p.slot as int][p.offset as int])
            }
        }
    }

    /// What `load` gives: a word that names no pointer is itself the value
    /// when one word is asked for; otherwise the `size` words the pointer
    /// points at.
    pub open spec fn load_outcome(self, handle: Word, size: usize) -> Result<Seq<Word>, Seq<char>> {
        if !self.has_pointer(handle) {
            if size == 1 {
                Ok(seq![handle])
            } else {
                Err(invalid_memory_handle_msg(handle))
            }
        } else {
            let p = self.pointer(handle);
            if p.slot >= self.slots.len() {
                Err(invalid_memory_slot_msg(p.slot))
            } else if p.offset + size > self.slots[p.slot as int].len() {
                Err(out_of_bounds_msg(false, p.offset, Some(size), self.slots[p.slot as int].len()))
            } else {
                Ok(self.slots[p.slot as int].subrange(p.offset as int, p.offset + size))
            }
        }
    }

    /// What a store of `size` words (`None`: of one word) through `handle`
    /// gives: nothing, or the message of why it cannot be done.
    pub open spec fn store_outcome(self, handle: Word, size: Option<usize>) -> Result<(), Seq<char>> {
        if !self.has_pointer(handle) {
            Err(invalid_memory_handle_msg(handle))
        } else {
            let p = self.pointer(handle);
            let n: nat = match size {
                Some(k) => k as nat,
                None => 1,
            };
            if p.slot >= self.slots.len() {
                Err(invalid_memory_slot_msg(p.slot))
            } else if p.offset + n > self.slots[p.slot as int].len() {
                Err(out_of_bounds_msg(true, p.offset, size, self.slots[p.slot as int].len()))
            } else {
                Ok(())
            }
        }
    }

    /// The contents after writing `src` where `handle` points.
    pub open spec fn stored(self, handle: Word, src: Seq<Word>) -> MemoryView {
        let p = self.pointer(handle);
        let old_slot = self.slots[p.slot as int];
        MemoryView {
            slots: self.slots.update(
                p.slot as int,
                old_slot.take(p.offset as int) + src + old_slot.skip(p.offset + src.len()),
            ),
            ptrs: self.ptrs,
        }
    }
}

/// The memory of a running program: slots of words, and pointers into
/// them that memory handles name.
pub struct MemoryStore {
    slots: Vec<Vec<Word>>,
    ptrs: Vec<Pointer>,
}

impl View for MemoryStore {
    type V = MemoryView;

    closed spec fn view(&self) -> MemoryView {
        MemoryView { slots: self.slots@.map_values(|v: Vec<Word>| v@), ptrs: self.ptrs@ }
    }
}

impl MemoryStore {
    /// An empty store.
    pub fn new() -> (m: Self)
        ensures
            m@.slots == Seq::<Seq<Word>>::empty(),
            m@.ptrs == Seq::<Pointer>::empty(),
    {
        let m = MemoryStore { slots: Vec::new(), ptrs: Vec::new() };
        assert(m@.slots =~= Seq::<Seq<Word>>::empty());
        m
    }

    /// Allocates a slot of `size` zero words and a pointer to its start;
    /// gives the handle of that pointer.
    pub fn allocate(&mut self, size: usize) -> (h: Word)
        requires
            old(self)@.ptrs.len() < usize::MAX,
        ensures
            final(self)@.slots == old(self)@.slots.push(zeros(size as nat)),
            final(self)@.ptrs == old(self)@.ptrs.push(Pointer { slot: old(self)@.slots.len() as usize, offset: 0 }),
            h == memory_handle(final(self)@.ptrs.len() as usize),
    {
        let slot = self.slots.len();
        let mut cells: Vec<Word> = Vec::new();
        let mut i: usize = 0;
        while i < size
            invariant
                i <= size,
                cells@ == zeros(i as nat),
            decreases size - i,
        {
            cells.push(0);
            i = i + 1;
        }
        self.slots.push(cells);
        self.ptrs.push(Pointer { slot, offset: 0 });
        assert(self@.slots =~= old(self)@.slots.push(zeros(size as nat)));
        encode_memory(self.ptrs.len())
    }

    /// The index of the pointer that `handle` names, if any.
    fn pointer_index(&self, handle: Word) -> (r: Option<usize>)
        ensures
            r is Some <==> self@.has_pointer(handle),
            r matches Some(i) ==> i == MemoryView::pointer_index(handle)->0,
    {
        match decode_memory(handle) {
            Some(i) => if i >= 1 && i - 1 < self.ptrs.len() {
                Some(i - 1)
            } else {
                None
            },
            None => None,
        }
    }

    /// The pointer that `handle` names.
    pub fn ptr(&self, handle: Word) -> (r: Result<&Pointer, String>)
        ensures
            match (r, self@.ptr_outcome(handle)) {
                (Ok(p), Ok(q)) => *p == q,
                (Err(e), Err(m)) => e@ == m,
                _ => false,
            },
    {
        match self.pointer_index(handle) {
            Some(i) => Ok(&self.ptrs[i]),
            None => Err(text_with_number("invalid memory handle ", handle)),
        }
    }

    /// A new pointer `tuple_offset` words past the one `base` names; gives
    /// its handle.
    pub fn get_element(&mut self, base: Word, tuple_offset: usize) -> (r: Result<Word, String>)
        requires
            old(self)@.has_pointer(base) ==> old(self)@.pointer(base).offset + tuple_offset <= usize::MAX,
            old(self)@.ptrs.len() < usize::MAX,
        ensures
            r is Ok <==> old(self)@.has_pointer(base),
            r matches Ok(h) ==> {
                let p = old(self)@.pointer(base);
                &&& final(self)@.ptrs == old(self)@.ptrs.push(
                    Pointer { slot: p.slot, offset: (p.offset + tuple_offset) as usize },
                )
                &&& final(self)@.slots == old(self)@.slots
                &&& h == memory_handle(final(self)@.ptrs.len() as usize)
            },
            r matches Err(e) ==> e@ == invalid_memory_handle_msg(base) && final(self)@ == old(self)@,
    {
        let pointer = match self.ptr(base) {
            Ok(p) => *p,
            Err(e) => return Err(e),
        };
        self.ptrs.push(Pointer { slot: pointer.slot, offset: pointer.offset + tuple_offset });
        Ok(encode_memory(self.ptrs.len()))
    }
    /// The message of an out-of-bounds access.
    fn out_of_bounds(is_store: bool, offset: usize, size: Option<usize>, len: usize) -> (e: String)
        ensures
            e@ == out_of_bounds_msg(is_store, offset, size, len as nat),
    {
        let mut e = if is_store {
            String::from_str("store out of bounds: offset=")
        } else {
            String::from_str("load out of bounds: offset=")
        };
        push_decimal(&mut e, offset as u64);
        match size {
            Some(n) => {
                e.append(" size=");
                push_decimal(&mut e, n as u64);
            },
            None => {},
        }
        e.append(" len=");
        push_decimal(&mut e, len as u64);
        e
    }

    /// The word that `ptr` points at; a word that is no memory handle (or
    /// handle zero) is itself the value.
    pub fn load_word(&self, ptr: Word) -> (r: Result<Word, String>)
        ensures
            same_outcome(r, self@.load_word_outcome(ptr)),
    {
        let index = match decode_memory(ptr) {
            Some(i) => if i >= 1 {
                i - 1
            } else {
                return Ok(ptr);
            },
            None => return Ok(ptr),
        };
        if index >= self.ptrs.len() {
            return Err(text_with_number("invalid memory handle ", ptr));
        }
        let pointer = self.ptrs[index];
        if pointer.slot >= self.slots.len() {
            return Err(text_with_number("invalid memory slot ", pointer.slot as u64));
        }
        let len = self.slots[pointer.slot].len();
        if pointer.offset >= len {
            return Err(Self::out_of_bounds(false, pointer.offset, None, len));
        }
        Ok(self.slots[pointer.slot][pointer.offset])
    }

    /// The `size` words from where `ptr` points; a word that names no
    /// pointer is itself the value when one word is asked for.
    pub fn load(&self, ptr: Word, size: usize) -> (r: Result<Vec<Word>, String>)
        requires
            self@.has_pointer(ptr) ==> self@.pointer(ptr).offset + size <= usize::MAX,
        ensures
            match (r, self@.load_outcome(ptr, size)) {
                (Ok(v), Ok(w)) => v@ == w,
                (Err(e), Err(m)) => e@ == m,
                _ => false,
            },
    {
        let index = match self.pointer_index(ptr) {
            Some(i) => i,
            None => {
                if size == 1 {
                    let mut v: Vec<Word> = Vec::new();
                    v.push(ptr);
                    assert(v@ =~= seq![ptr]);
                    return Ok(v);
                }
                return Err(text_with_number("invalid memory handle ", ptr));
            },
        };
        let pointer = self.ptrs[index];
        if pointer.slot >= self.slots.len() {
            return Err(text_with_number("invalid memory slot ", pointer.slot as u64));
        }
        let slot = &self.slots[pointer.slot];
        let end = pointer.offset + size;
        if end > slot.len() {
            return Err(Self::out_of_bounds(false, pointer.offset, Some(size), slot.len()));
        }
        Ok(vstd::slice::slice_to_vec(vstd::slice::slice_subrange(slot.as_slice(), pointer.offset, end)))
    }

    /// Writes `src` where `ptr` points.
    pub fn store_word(&mut self, ptr: Word, src: Word) -> (r: Result<(), String>)
        ensures
            same_outcome(r, old(self)@.store_outcome(ptr, None)),
            r is Ok ==> final(self)@ == old(self)@.stored(ptr, seq![src]),
            r is Err ==> final(self)@ == old(self)@,
    {
        let pointer = match self.ptr(ptr) {
            Ok(p) => *p,
            Err(e) => return Err(e),
        };
        if pointer.slot >= self.slots.len() {
            return Err(text_with_number("invalid memory slot ", pointer.slot as u64));
        }
        let len = self.slots[pointer.slot].len();
        if pointer.offset >= len {
            return Err(Self::out_of_bounds(true, pointer.offset, None, len));
        }
        let ghost before = self@;
        self.slots[pointer.slot].set(pointer.offset, src);
        proof {
            let o = before.slots[pointer.slot as int];
            assert(self@.slots[pointer.slot as int] =~= o.take(pointer.offset as int) + seq![src] + o.skip(pointer.offset + 1));
            assert(self@.slots =~= before.stored(ptr, seq![src]).slots);
        }
        Ok(())
    }

    /// Writes the first `size` words of `src` from where `ptr` points.
    pub fn store(&mut self, ptr: Word, src: &[Word], size: usize) -> (r: Result<(), String>)
        requires
            old(self)@.has_pointer(ptr) ==> old(self)@.pointer(ptr).offset + size <= usize::MAX,
            old(self)@.store_outcome(ptr, Some(size)) is Ok ==> size <= src@.len(),
        ensures
            same_outcome(r, old(self)@.store_outcome(ptr, Some(size))),
            r is Ok ==> final(self)@ == old(self)@.stored(ptr, src@.take(size as int)),
            r is Err ==> final(self)@ == old(self)@,
    {
        let pointer = match self.ptr(ptr) {
            Ok(p) => *p,
            Err(e) => return Err(e),
        };
        if pointer.slot >= self.slots.len() {
            return Err(text_with_number("invalid memory slot ", pointer.slot as u64));
        }
        let end = pointer.offset + size;
        let len = self.slots[pointer.slot].len();
        if end > len {
            return Err(Self::out_of_bounds(true, pointer.offset, Some(size), len));
        }
        let ghost before = self@;
        let mut i: usize = 0;
        while i < size
            invariant
                i <= size,
                size <= src@.len(),
                pointer.slot < self.slots@.len(),
                pointer.offset + size <= self.slots@[pointer.slot as int]@.len(),
                pointer.offset + size <= usize::MAX,
                self.slots@.len() == before.slots.len(),
                forall|j: int| 0 <= j < self.slots@.len() && j != pointer.slot ==> #[trigger] self.slots@[j]@ == before.slots[j],
                self.slots@[pointer.slot as int]@.len() == before.slots[pointer.slot as int].len(),
                forall|j: int|
                    0 <= j < before.slots[pointer.slot as int].len() ==> #[trigger] self.slots@[pointer.slot as int]@[j]
                        == if pointer.offset <= j < pointer.offset + i {
                        src@[j - pointer.offset]
                    } else {
                        before.slots[pointer.slot as int][j]
                    },
                self.ptrs@ == before.ptrs,
            decreases size - i,
        {
            self.slots[pointer.slot].set(pointer.offset + i, src[i]);
            i = i + 1;
        }
        proof {
            let o = before.slots[pointer.slot as int];
            assert(self@.slots[pointer.slot as int] =~= o.take(pointer.offset as int) + src@.take(size as int) + o.skip(pointer.offset + size));
            assert(self@.slots =~= before.stored(ptr, src@.take(size as int)).slots);
        }
        Ok(())
    }
}


/// A store through a handle is read back by a load through it: after
/// writing `x` where `h` points, `load_word(h)` gives `x`.
pub proof fn lemma_load_word_after_store_word(m: MemoryView, h: Word, x: Word)
    requires
        m.store_outcome(h, None) is Ok,
    ensures
        m.stored(h, seq![x]).load_word_outcome(h) == Ok::<Word, Seq<char>>(x),
{
    let p = m.pointer(h);
    let o = m.slots[p.slot as int];
    let n = o.take(p.offset as int) + seq![x] + o.skip(p.offset + 1);
    assert(n[p.offset as int] == x);
}

/// A store of `size` words is read back by a load of `size` words
/// through the same handle.
pub proof fn lemma_load_after_store(m: MemoryView, h: Word, src: Seq<Word>)
    requires
        src.len() <= usize::MAX,
        m.store_outcome(h, Some(src.len() as usize)) is Ok,
    ensures
        m.stored(h, src).load_outcome(h, src.len() as usize) == Ok::<Seq<Word>, Seq<char>>(src),
{
    let p = m.pointer(h);
    let o = m.slots[p.slot as int];
    let n = o.take(p.offset as int) + src + o.skip(p.offset + src.len());
    assert(n.subrange(p.offset as int, p.offset + src.len()) =~= src);
}

/// A store through one handle leaves the words of every other slot as
/// they were.
pub proof fn lemma_store_keeps_other_slots(m: MemoryView, h: Word, src: Seq<Word>, g: Word)
    requires
        m.store_outcome(h, Some(src.len() as usize)) is Ok,
        m.has_pointer(g),
        m.pointer(g).slot != m.pointer(h).slot,
    ensures
        m.stored(h, src).load_word_outcome(g) == m.load_word_outcome(g),
{
}

/// A fresh allocation of `size` words reads as `size` zeros through the
/// handle it gives (while handles stay below the memory tag bit).
pub proof fn lemma_allocation_reads_zero(m: MemoryView, size: usize)
    requires
        m.ptrs.len() + 1 < 0x2000_0000_0000_0000u64,
        m.ptrs.len() + 1 <= usize::MAX,
        m.slots.len() <= usize::MAX,
    ensures
        ({
            let m2 = MemoryView {
                slots: m.slots.push(zeros(size as nat)),
                ptrs: m.ptrs.push(Pointer { slot: m.slots.len() as usize, offset: 0 }),
            };
            m2.load_outcome(memory_handle((m.ptrs.len() + 1) as usize), size) == Ok::<Seq<Word>, Seq<char>>(
                zeros(size as nat),
            )
        }),
{
    let n = (m.ptrs.len() + 1) as usize;
    crate::word::lemma_memory_handle_roundtrip(n);
    let m2 = MemoryView {
        slots: m.slots.push(zeros(size as nat)),
        ptrs: m.ptrs.push(Pointer { slot: m.slots.len() as usize, offset: 0 }),
    };
    assert(m2.pointer(memory_handle(n)) == Pointer { slot: m.slots.len() as usize, offset: 0 });
    assert(zeros(size as nat).subrange(0, size as int) =~= zeros(size as nat));
}

/// The handle that `get_element` gives reads the word `tuple_offset`
/// words past the one its base points at.
pub proof fn lemma_element_reads_offset(m: MemoryView, base: Word, tuple_offset: usize)
    requires
        m.has_pointer(base),
        m.pointer(base).offset + tuple_offset <= usize::MAX,
        m.ptrs.len() + 1 < 0x2000_0000_0000_0000u64,
        m.ptrs.len() + 1 <= usize::MAX,
    ensures
        ({
            let p = m.pointer(base);
            let m2 = MemoryView {
                slots: m.slots,
                ptrs: m.ptrs.push(Pointer { slot: p.slot, offset: (p.offset + tuple_offset) as usize }),
            };
            let q = Pointer { slot: p.slot, offset: (p.offset + tuple_offset) as usize };
            &&& m2.has_pointer(memory_handle((m.ptrs.len() + 1) as usize))
            &&& m2.pointer(memory_handle((m.ptrs.len() + 1) as usize)) == q
            &&& q.slot < m.slots.len() && q.offset < m.slots[q.slot as int].len() ==> m2.load_word_outcome(
                memory_handle((m.ptrs.len() + 1) as usize),
            ) == Ok::<Word, Seq<char>>(m.slots[q.slot as int][q.offset as int])
        }),
{
    crate::word::lemma_memory_handle_roundtrip((m.ptrs.len() + 1) as usize);
}

} // verus!
