use vstd::prelude::*;

use crate::state::zeros;
use crate::text::{decimal, text_with_number};
use crate::word::Word;

verus! {

/// An array value: the words of its elements, each element taking
/// `elem_size_words` words.
#[derive(Clone)]
pub struct ArrayObject {
    pub elem_size_words: usize,
    pub data: Vec<Word>,
}

/// What an array holds, as plain values.
pub struct ArrayValue {
    pub elem_size_words: usize,
    pub data: Seq<Word>,
}

impl View for ArrayObject {
    type V = ArrayValue;

    open spec fn view(&self) -> ArrayValue {
        ArrayValue { elem_size_words: self.elem_size_words, data: self.data@ }
    }
}

/// `a * b`, or `usize::MAX` when that overflows.
pub open spec fn saturating_product(a: usize, b: usize) -> nat {
    if a * b <= usize::MAX {
        (a * b) as nat
    } else {
        usize::MAX as nat
    }
}

/// The message of an array handle that names no array.
pub open spec fn invalid_array_handle_msg(handle: Word) -> Seq<char> {
    "invalid array handle "@ + decimal(handle as nat)
}

/// The arrays of a running program; array handle `h` names the array at
/// index `h - 1`, and handle zero names none.
pub struct ArrayStorage {
    arrays: Vec<ArrayObject>,
}

impl View for ArrayStorage {
    type V = Seq<ArrayValue>;

    closed spec fn view(&self) -> Seq<ArrayValue> {
        self.arrays@.map_values(|a: ArrayObject| a@)
    }
}

/// The index that an array handle names in the storage: `h - 1` (as a
/// `usize`), for a non-zero handle.
pub open spec fn array_index(handle: Word) -> int {
    ((handle - 1) as u64) as usize as int
}

/// Whether `handle` names an array of `arrays`.
pub open spec fn names_array(arrays: Seq<ArrayValue>, handle: Word) -> bool {
    handle != 0 && array_index(handle) < arrays.len()
}

/// What `get` gives for `handle`: the array, or why there is none.
pub open spec fn array_get_outcome(arrays: Seq<ArrayValue>, handle: Word) -> Result<ArrayValue, Seq<char>> {
    if handle == 0 {
        Err("invalid array handle 0"@)
    } else if array_index(handle) < arrays.len() {
        Ok(arrays[array_index(handle)])
    } else {
        Err(invalid_array_handle_msg(handle))
    }
}

impl ArrayStorage {
    /// An empty storage.
    pub fn new() -> (s: Self)
        ensures
            s@ == Seq::<ArrayValue>::empty(),
    {
        let s = ArrayStorage { arrays: Vec::new() };
        assert(s@ =~= Seq::<ArrayValue>::empty());
        s
    }

    /// Adds an array of `len` zero elements of `elem_size_words` words
    /// each (the word count saturating at `usize::MAX`); gives its handle.
    pub fn alloc_array(&mut self, len: usize, elem_size_words: usize) -> (h: Word)
        requires
            old(self)@.len() < usize::MAX,
        ensures
            final(self)@ == old(self)@.push(
                ArrayValue { elem_size_words, data: zeros(saturating_product(len, elem_size_words)) },
            ),
            h == final(self)@.len(),
    {
        let total = match len.checked_mul(elem_size_words) {
            Some(t) => t,
            None => usize::MAX,
        };
        let mut data: Vec<Word> = Vec::new();
        let mut i: usize = 0;
        while i < total
            invariant
                i <= total,
                data@ == zeros(i as nat),
            decreases total - i,
        {
            data.push(0);
            i = i + 1;
        }
        proof {
            if len * elem_size_words <= usize::MAX {
                assert(total == len * elem_size_words);
            }
        }
        self.alloc_array_with_data(data, elem_size_words)
    }

    /// Adds an array holding `data`; gives its handle.
    pub fn alloc_array_with_data(&mut self, data: Vec<Word>, elem_size_words: usize) -> (h: Word)
        requires
            old(self)@.len() < usize::MAX,
        ensures
            final(self)@ == old(self)@.push(ArrayValue { elem_size_words, data: data@ }),
            h == final(self)@.len(),
    {
        let ghost d = data@;
        self.arrays.push(ArrayObject { elem_size_words, data });
        assert(self@ =~= old(self)@.push(ArrayValue { elem_size_words, data: d }));
        self.arrays.len() as Word
    }

    /// The array that `handle` names.
    pub fn get(&self, handle: Word) -> (r: Result<&ArrayObject, String>)
        ensures
            match (r, array_get_outcome(self@, handle)) {
                (Ok(a), Ok(v)) => a@ == v,
                (Err(e), Err(m)) => e@ == m,
                _ => false,
            },
    {
        if handle == 0 {
            return Err(String::from_str("invalid array handle 0"));
        }
        let index = (handle - 1) as usize;
        if index < self.arrays.len() {
            Ok(&self.arrays[index])
        } else {
            Err(text_with_number("invalid array handle ", handle))
        }
    }

    /// The array that `handle` names, to change it.
    pub fn get_mut(&mut self, handle: Word) -> (r: Result<&mut ArrayObject, String>)
        ensures
            match (r, array_get_outcome(old(self)@, handle)) {
                (Ok(a), Ok(v)) => {
                    &&& a@ == v
                    &&& final(self)@ == old(self)@.update(array_index(handle), final(a)@)
                },
                (Err(e), Err(m)) => e@ == m && final(self)@ == old(self)@,
                _ => false,
            },
    {
        if handle == 0 {
            return Err(String::from_str("invalid array handle 0"));
        }
        let index = (handle - 1) as usize;
        if index < self.arrays.len() {
            Ok(&mut self.arrays[index])
        } else {
            Err(text_with_number("invalid array handle ", handle))
        }
    }
}

/// An array just added is found again through the handle it was given.
pub proof fn lemma_array_found_after_alloc(arrays: Seq<ArrayValue>, a: ArrayValue)
    requires
        arrays.len() + 1 <= usize::MAX,
    ensures
        names_array(arrays.push(a), (arrays.len() + 1) as Word),
        array_get_outcome(arrays.push(a), (arrays.len() + 1) as Word) == Ok::<ArrayValue, Seq<char>>(a),
{
    assert(array_index((arrays.len() + 1) as Word) == arrays.len());
}

} // verus!
