use vstd::prelude::*;

use crate::arrays::{array_get_outcome, ArrayStorage, ArrayValue};
use crate::state::zeros;
use crate::text::{decimal, push_decimal};
use crate::word::{parse_specialized_arity, specialized_arity, strip_prefix, Word};

verus! {

/// The external functions that a program resolves itself; any other
/// name goes to the host.
#[derive(Clone, Copy, PartialEq, Eq, Debug)]
pub enum ExtBuiltin {
    Min,
    Max,
    Probe,
    Probeln,
    Len,
    SplitHead,
    SplitTail,
    Prepend,
    Append,
    Host,
}

/// Whether `name` is `base` or one of its arity specialisations
/// (`base` followed by `$arity`).
pub open spec fn is_builtin_family(name: Seq<char>, base: Seq<char>, specialized: Seq<char>) -> bool {
    name == base || specialized.is_prefix_of(name)
}

/// Which builtin an external function name stands for.
pub open spec fn builtin_of(name: Seq<char>) -> ExtBuiltin {
    if name == "min"@ {
        ExtBuiltin::Min
    } else if name == "max"@ {
        ExtBuiltin::Max
    } else if name == "probe"@ {
        ExtBuiltin::Probe
    } else if name == "probeln"@ {
        ExtBuiltin::Probeln
    } else if name == "len"@ {
        ExtBuiltin::Len
    } else if is_builtin_family(name, "split_head"@, "split_head$arity"@) {
        ExtBuiltin::SplitHead
    } else if is_builtin_family(name, "split_tail"@, "split_tail$arity"@) {
        ExtBuiltin::SplitTail
    } else if is_builtin_family(name, "prepend"@, "prepend$arity"@) {
        ExtBuiltin::Prepend
    } else if is_builtin_family(name, "append"@, "append$arity"@) {
        ExtBuiltin::Append
    } else {
        ExtBuiltin::Host
    }
}

/// Compares two strings with std's `PartialEq` for `str`: the contract
/// claims that they are equal exactly when they hold the same characters.
#[verifier::external_body]
fn str_equals(a: &str, b: &str) -> (r: bool)
    ensures
        r == (a@ == b@),
{
    a == b
}

/// Whether `name` is `base` or starts with `specialized`.
fn in_family(name: &str, base: &str, specialized: &str) -> (r: bool)
    ensures
        r == is_builtin_family(name@, base@, specialized@),
{
    if str_equals(name, base) {
        true
    } else {
        match strip_prefix(name, specialized) {
            Some(_) => true,
            None => false,
        }
    }
}

/// Which builtin the external function `name` stands for.
pub fn classify_ext(name: &str) -> (r: ExtBuiltin)
    ensures
        r == builtin_of(name@),
{
    if str_equals(name, "min") {
        ExtBuiltin::Min
    } else if str_equals(name, "max") {
        ExtBuiltin::Max
    } else if str_equals(name, "probe") {
        ExtBuiltin::Probe
    } else if str_equals(name, "probeln") {
        ExtBuiltin::Probeln
    } else if str_equals(name, "len") {
        ExtBuiltin::Len
    } else if in_family(name, "split_head", "split_head$arity") {
        ExtBuiltin::SplitHead
    } else if in_family(name, "split_tail", "split_tail$arity") {
        ExtBuiltin::SplitTail
    } else if in_family(name, "prepend", "prepend$arity") {
        ExtBuiltin::Prepend
    } else if in_family(name, "append", "append$arity") {
        ExtBuiltin::Append
    } else {
        ExtBuiltin::Host
    }
}

/// What `probe` and `probeln` give: their first argument, if any.
pub open spec fn probe_result(args: Seq<Word>) -> Seq<Word> {
    if args.len() > 0 {
        seq![args[0]]
    } else {
        Seq::empty()
    }
}

/// The result of `probe` and `probeln`: their first argument, passed on.
pub fn probe(args: &[Word]) -> (r: Vec<Word>)
    ensures
        r@ == probe_result(args@),
{
    let mut r: Vec<Word> = Vec::new();
    if args.len() > 0 {
        r.push(args[0]);
    }
    assert(r@ =~= probe_result(args@));
    r
}

/// The message of a builtin whose arity suffix is not a number.
pub open spec fn invalid_specialization_msg(family: Seq<char>, name: Seq<char>) -> Seq<char> {
    "invalid "@ + family + " specialization: "@ + name
}

/// The message of an array not made of whole elements.
pub open spec fn not_divisible_msg(name: Seq<char>, len: nat, elem_words: nat) -> Seq<char> {
    name + ": array length "@ + decimal(len) + " is not divisible by elem_words "@ + decimal(elem_words)
}

/// The message of an array whose elements have another size.
pub open spec fn elem_size_mismatch_msg(name: Seq<char>, expected: nat, got: nat) -> Seq<char> {
    name + ": elem size mismatch, expected "@ + decimal(expected) + " got "@ + decimal(got)
}

/// What `len` gives: the number of words of the array its argument names
/// (zero for handle zero).
pub open spec fn len_outcome(arrays: Seq<ArrayValue>, args: Seq<Word>) -> Result<nat, Seq<char>> {
    if args.len() < 1 {
        Err("len expects 1 arg"@)
    } else if args[0] == 0 {
        Ok(0)
    } else {
        match array_get_outcome(arrays, args[0]) {
            Ok(a) => Ok(a.data.len()),
            Err(m) => Err(m),
        }
    }
}

/// What an array builtin gives: its result words and the array it adds
/// (whose handle is one more than the number of arrays before), or the
/// message of why it fails.
pub type BuiltinOutcome = Result<(Seq<Word>, Option<ArrayValue>), Seq<char>>;

/// The element count of an array split: the arity, and the array that
/// the split argument names checked to be made of whole elements.
pub open spec fn split_source(arrays: Seq<ArrayValue>, name: Seq<char>, k: nat, handle: Word) -> Result<ArrayValue, Seq<char>> {
    match array_get_outcome(arrays, handle) {
        Err(m) => Err(m),
        Ok(a) => if a.data.len() < k {
            Err(name + ": array shorter than one element"@)
        } else if a.data.len() % k != 0 {
            Err(not_divisible_msg(name, a.data.len(), k))
        } else {
            Ok(a)
        },
    }
}

/// What `split_head` gives: the first element of the array and the
/// handle of a new array of the rest; for handle zero, zero words.
pub open spec fn split_head_outcome(arrays: Seq<ArrayValue>, name: Seq<char>, args: Seq<Word>) -> BuiltinOutcome {
    match specialized_arity(name, "split_head$arity"@, 1) {
        None => Err(invalid_specialization_msg("split_head"@, name)),
        Some(k) => if args.len() < 1 {
            Err(name + " expects 1 arg"@)
        } else if args[0] == 0 {
            Ok((zeros(k as nat).push(0), None))
        } else {
            match split_source(arrays, name, k as nat, args[0]) {
                Err(m) => Err(m),
                Ok(a) => Ok((
                    a.data.take(k as int).push((arrays.len() + 1) as Word),
                    Some(ArrayValue { elem_size_words: a.elem_size_words, data: a.data.skip(k as int) }),
                )),
            }
        },
    }
}

/// What `split_tail` gives: the handle of a new array of all but the last
/// element, then that element; for handle zero, zero words.
pub open spec fn split_tail_outcome(arrays: Seq<ArrayValue>, name: Seq<char>, args: Seq<Word>) -> BuiltinOutcome {
    match specialized_arity(name, "split_tail$arity"@, 1) {
        None => Err(invalid_specialization_msg("split_tail"@, name)),
        Some(k) => if args.len() < 1 {
            Err(name + " expects 1 arg"@)
        } else if args[0] == 0 {
            Ok((zeros((k + 1) as nat), None))
        } else {
            match split_source(arrays, name, k as nat, args[0]) {
                Err(m) => Err(m),
                Ok(a) => Ok((
                    seq![(arrays.len() + 1) as Word] + a.data.skip(a.data.len() - k),
                    Some(ArrayValue { elem_size_words: a.elem_size_words, data: a.data.take(a.data.len() - k) }),
                )),
            }
        },
    }
}

/// What `prepend` gives: the handle of a new array of the element (the
/// first arguments) followed by the array the next argument names.
pub open spec fn prepend_outcome(arrays: Seq<ArrayValue>, name: Seq<char>, args: Seq<Word>) -> BuiltinOutcome {
    match specialized_arity(name, "prepend$arity"@, 1) {
        None => Err(invalid_specialization_msg("prepend"@, name)),
        Some(k) => if args.len() <= k {
            Err(name + " expects element + array args"@)
        } else if args[k as int] == 0 {
            Ok((seq![(arrays.len() + 1) as Word], Some(ArrayValue { elem_size_words: k, data: args.take(k as int) })))
        } else {
            match array_get_outcome(arrays, args[k as int]) {
                Err(m) => Err(m),
                Ok(a) => if a.elem_size_words != k {
                    Err(elem_size_mismatch_msg(name, k as nat, a.elem_size_words as nat))
                } else {
                    Ok((
                        seq![(arrays.len() + 1) as Word],
                        Some(ArrayValue { elem_size_words: k, data: args.take(k as int) + a.data }),
                    ))
                },
            }
        },
    }
}

/// What `append` gives: the handle of a new array of the array the first
/// argument names followed by the element (the next arguments).
pub open spec fn append_outcome(arrays: Seq<ArrayValue>, name: Seq<char>, args: Seq<Word>) -> BuiltinOutcome {
    match specialized_arity(name, "append$arity"@, 1) {
        None => Err(invalid_specialization_msg("append"@, name)),
        Some(k) => if args.len() < 1 {
            Err(name + " expects array + element args"@)
        } else if args[0] == 0 {
            Ok((seq![(arrays.len() + 1) as Word], Some(ArrayValue { elem_size_words: k, data: args.subrange(1, 1 + k) })))
        } else {
            match array_get_outcome(arrays, args[0]) {
                Err(m) => Err(m),
                Ok(a) => if a.elem_size_words != k {
                    Err(elem_size_mismatch_msg(name, k as nat, a.elem_size_words as nat))
                } else {
                    Ok((
                        seq![(arrays.len() + 1) as Word],
                        Some(ArrayValue { elem_size_words: k, data: a.data + args.subrange(1, 1 + k) }),
                    ))
                },
            }
        },
    }
}

/// A builtin's result agrees with its outcome: the same words, and the
/// arrays grown by the array it adds; on failure, the same message and
/// the arrays left alone.
pub open spec fn builtin_done(r: Result<Vec<Word>, String>, o: BuiltinOutcome, before: Seq<ArrayValue>, after: Seq<ArrayValue>) -> bool {
    match (r, o) {
        (Ok(v), Ok((w, added))) => v@ == w && after == match added {
            Some(a) => before.push(a),
            None => before,
        },
        (Err(e), Err(m)) => e@ == m && after == before,
        _ => false,
    }
}

/// `name` followed by `tail`.
fn name_message(name: &str, tail: &str) -> (e: String)
    ensures
        e@ == name@ + tail@,
{
    let mut e = String::from_str(name);
    e.append(tail);
    e
}

/// The message of a builtin whose arity suffix is not a number.
fn invalid_specialization(family: &str, name: &str) -> (e: String)
    ensures
        e@ == invalid_specialization_msg(family@, name@),
{
    let mut e = String::from_str("invalid ");
    e.append(family);
    e.append(" specialization: ");
    e.append(name);
    e
}

/// The message of an array whose elements have another size.
fn elem_size_mismatch(name: &str, expected: usize, got: usize) -> (e: String)
    ensures
        e@ == elem_size_mismatch_msg(name@, expected as nat, got as nat),
{
    let mut e = String::from_str(name);
    e.append(": elem size mismatch, expected ");
    push_decimal(&mut e, expected as u64);
    e.append(" got ");
    push_decimal(&mut e, got as u64);
    e
}

/// `n` zero words.
fn zero_words(n: usize) -> (v: Vec<Word>)
    ensures
        v@ == zeros(n as nat),
{
    let mut v: Vec<Word> = Vec::new();
    let mut i: usize = 0;
    while i < n
        invariant
            i <= n,
            v@ == zeros(i as nat),
        decreases n - i,
    {
        v.push(0);
        i = i + 1;
    }
    v
}

impl ArrayStorage {
    /// The array that `handle` names, checked to be made of whole elements
    /// of `k` words; gives copies of its element size and words.
    fn split_source(&self, name: &str, k: usize, handle: Word) -> (r: Result<(usize, Vec<Word>), String>)
        requires
            k == 0 ==> array_get_outcome(self@, handle) is Err,
        ensures
            match (r, split_source(self@, name@, k as nat, handle)) {
                (Ok((e, d)), Ok(a)) => e == a.elem_size_words && d@ == a.data,
                (Err(e), Err(m)) => e@ == m,
                _ => false,
            },
    {
        let array = match self.get(handle) {
            Ok(a) => a,
            Err(e) => return Err(e),
        };
        let len = array.data.len();
        if len < k {
            return Err(name_message(name, ": array shorter than one element"));
        }
        if len % k != 0 {
            let mut e = String::from_str(name);
            e.append(": array length ");
            push_decimal(&mut e, len as u64);
            e.append(" is not divisible by elem_words ");
            push_decimal(&mut e, k as u64);
            return Err(e);
        }
        Ok((array.elem_size_words, vstd::slice::slice_to_vec(array.data.as_slice())))
    }

    /// The `len` builtin: the number of words of the array that the first
    /// argument names, zero for handle zero.
    pub fn array_len(&self, args: &[Word]) -> (r: Result<usize, String>)
        ensures
            match (r, len_outcome(self@, args@)) {
                (Ok(n), Ok(m)) => n == m,
                (Err(e), Err(m)) => e@ == m,
                _ => false,
            },
    {
        if args.len() < 1 {
            return Err(String::from_str("len expects 1 arg"));
        }
        let handle = args[0];
        if handle == 0 {
            return Ok(0);
        }
        match self.get(handle) {
            Ok(a) => Ok(a.data.len()),
            Err(e) => Err(e),
        }
    }

    /// The `split_head` builtin (and its arity specialisations): the first
    /// element of the array, then the handle of a new array of the rest.
    pub fn split_head(&mut self, name: &str, args: &[Word]) -> (r: Result<Vec<Word>, String>)
        requires
            old(self)@.len() < usize::MAX,
            specialized_arity(name@, "split_head$arity"@, 1) == Some(0usize) ==> args@.len() < 1 || args@[0] == 0
                || array_get_outcome(old(self)@, args@[0]) is Err,
        ensures
            builtin_done(r, split_head_outcome(old(self)@, name@, args@), old(self)@, final(self)@),
    {
        let k = match parse_specialized_arity(name, "split_head$arity", 1) {
            Some(n) => n,
            None => return Err(invalid_specialization("split_head", name)),
        };
        if args.len() < 1 {
            return Err(name_message(name, " expects 1 arg"));
        }
        let handle = args[0];
        if handle == 0 {
            let mut result = zero_words(k);
            result.push(0);
            return Ok(result);
        }
        let (elem_size_words, data) = match self.split_source(name, k, handle) {
            Ok(x) => x,
            Err(e) => return Err(e),
        };
        let ghost d = data@;
        let mut result = vstd::slice::slice_to_vec(vstd::slice::slice_subrange(data.as_slice(), 0, k));
        let rest = vstd::slice::slice_to_vec(vstd::slice::slice_subrange(data.as_slice(), k, data.len()));
        let rest_handle = self.alloc_array_with_data(rest, elem_size_words);
        result.push(rest_handle);
        assert(d.subrange(0, k as int) =~= d.take(k as int));
        assert(d.subrange(k as int, d.len() as int) =~= d.skip(k as int));
        Ok(result)
    }

    /// The `split_tail` builtin (and its arity specialisations): the handle
    /// of a new array of all but the last element, then that element.
    pub fn split_tail(&mut self, name: &str, args: &[Word]) -> (r: Result<Vec<Word>, String>)
        requires
            old(self)@.len() < usize::MAX,
            specialized_arity(name@, "split_tail$arity"@, 1) == Some(0usize) ==> args@.len() < 1 || args@[0] == 0
                || array_get_outcome(old(self)@, args@[0]) is Err,
            specialized_arity(name@, "split_tail$arity"@, 1) == Some(usize::MAX) ==> args@.len() < 1 || args@[0] != 0,
        ensures
            builtin_done(r, split_tail_outcome(old(self)@, name@, args@), old(self)@, final(self)@),
    {
        let k = match parse_specialized_arity(name, "split_tail$arity", 1) {
            Some(n) => n,
            None => return Err(invalid_specialization("split_tail", name)),
        };
        if args.len() < 1 {
            return Err(name_message(name, " expects 1 arg"));
        }
        let handle = args[0];
        if handle == 0 {
            return Ok(zero_words(k + 1));
        }
        let (elem_size_words, data) = match self.split_source(name, k, handle) {
            Ok(x) => x,
            Err(e) => return Err(e),
        };
        let ghost d = data@;
        let tail_start = data.len() - k;
        let tail = vstd::slice::slice_subrange(data.as_slice(), tail_start, data.len());
        let rest = vstd::slice::slice_to_vec(vstd::slice::slice_subrange(data.as_slice(), 0, tail_start));
        let rest_handle = self.alloc_array_with_data(rest, elem_size_words);
        let mut result: Vec<Word> = Vec::new();
        result.push(rest_handle);
        result.extend_from_slice(tail);
        assert(d.subrange(0, tail_start as int) =~= d.take(tail_start as int));
        assert(result@ =~= seq![rest_handle] + d.skip(tail_start as int));
        Ok(result)
    }

    /// The `prepend` builtin (and its arity specialisations): the handle of
    /// a new array of the element (the first arguments) followed by the
    /// array that the next argument names.
    pub fn prepend(&mut self, name: &str, args: &[Word]) -> (r: Result<Vec<Word>, String>)
        requires
            old(self)@.len() < usize::MAX,
        ensures
            builtin_done(r, prepend_outcome(old(self)@, name@, args@), old(self)@, final(self)@),
    {
        let k = match parse_specialized_arity(name, "prepend$arity", 1) {
            Some(n) => n,
            None => return Err(invalid_specialization("prepend", name)),
        };
        if args.len() <= k {
            return Err(name_message(name, " expects element + array args"));
        }
        let handle = args[k];
        let mut data = vstd::slice::slice_to_vec(vstd::slice::slice_subrange(args, 0, k));
        let ghost element = data@;
        if handle != 0 {
            let array = match self.get(handle) {
                Ok(a) => a,
                Err(e) => return Err(e),
            };
            if array.elem_size_words != k {
                return Err(elem_size_mismatch(name, k, array.elem_size_words));
            }
            data.extend_from_slice(array.data.as_slice());
            assert(data@ =~= element + array.data@);
        }
        assert(element =~= args@.take(k as int));
        let h = self.alloc_array_with_data(data, k);
        let mut result: Vec<Word> = Vec::new();
        result.push(h);
        assert(result@ =~= seq![h]);
        Ok(result)
    }

    /// The `append` builtin (and its arity specialisations): the handle of
    /// a new array of the array that the first argument names followed by
    /// the element (the next arguments).
    pub fn append(&mut self, name: &str, args: &[Word]) -> (r: Result<Vec<Word>, String>)
        requires
            old(self)@.len() < usize::MAX,
            append_outcome(old(self)@, name@, args@) is Ok ==> specialized_arity(name@, "append$arity"@, 1)->0 + 1
                <= args@.len(),
        ensures
            builtin_done(r, append_outcome(old(self)@, name@, args@), old(self)@, final(self)@),
    {
        let k = match parse_specialized_arity(name, "append$arity", 1) {
            Some(n) => n,
            None => return Err(invalid_specialization("append", name)),
        };
        if args.len() < 1 {
            return Err(name_message(name, " expects array + element args"));
        }
        let handle = args[0];
        let mut data: Vec<Word> = if handle == 0 {
            Vec::new()
        } else {
            let array = match self.get(handle) {
                Ok(a) => a,
                Err(e) => return Err(e),
            };
            if array.elem_size_words != k {
                return Err(elem_size_mismatch(name, k, array.elem_size_words));
            }
            vstd::slice::slice_to_vec(array.data.as_slice())
        };
        let ghost front = data@;
        data.extend_from_slice(vstd::slice::slice_subrange(args, 1, 1 + k));
        assert(data@ =~= front + args@.subrange(1, 1 + k as int));
        let h = self.alloc_array_with_data(data, k);
        let mut result: Vec<Word> = Vec::new();
        result.push(h);
        assert(result@ =~= seq![h]);
        Ok(result)
    }
}

/// The words of the array that `h` names, none for handle zero.
pub open spec fn array_words(arrays: Seq<ArrayValue>, h: Word) -> Seq<Word> {
    if h == 0 {
        Seq::empty()
    } else {
        arrays[crate::arrays::array_index(h)].data
    }
}

/// The plain builtin names carry the default arity of one.
pub proof fn lemma_plain_names_have_arity_one()
    ensures
        specialized_arity("prepend"@, "prepend$arity"@, 1) == Some(1usize),
        specialized_arity("append"@, "append$arity"@, 1) == Some(1usize),
        specialized_arity("split_head"@, "split_head$arity"@, 1) == Some(1usize),
        specialized_arity("split_tail"@, "split_tail$arity"@, 1) == Some(1usize),
{
    reveal_strlit("prepend");
    reveal_strlit("prepend$arity");
    reveal_strlit("append");
    reveal_strlit("append$arity");
    reveal_strlit("split_head");
    reveal_strlit("split_head$arity");
    reveal_strlit("split_tail");
    reveal_strlit("split_tail$arity");
}

/// Whether `h` is handle zero (the empty array) or names an array of
/// whole elements of `e` words.
pub open spec fn holds_elements(arrays: Seq<ArrayValue>, h: Word, e: usize) -> bool {
    h == 0 || {
        &&& crate::arrays::names_array(arrays, h)
        &&& arrays[crate::arrays::array_index(h)].elem_size_words == e
        &&& arrays[crate::arrays::array_index(h)].data.len() % (e as nat) == 0
    }
}

/// `split_head` undoes `prepend`: prepending an element `x` of `e` words
/// to an array of `e`-word elements (or to handle zero, the empty array)
/// and splitting the head off the result gives back `x` and a new array of
/// the same words. `prepend_name` and `split_name` are the builtins' names
/// for arity `e` (the plain names for `e == 1`).
pub proof fn lemma_split_head_undoes_prepend(
    arrays: Seq<ArrayValue>,
    prepend_name: Seq<char>,
    split_name: Seq<char>,
    e: usize,
    x: Seq<Word>,
    h: Word,
)
    requires
        arrays.len() + 2 <= usize::MAX,
        e >= 1,
        x.len() == e,
        specialized_arity(prepend_name, "prepend$arity"@, 1) == Some(e),
        specialized_arity(split_name, "split_head$arity"@, 1) == Some(e),
        holds_elements(arrays, h, e),
    ensures
        ({
            let n = arrays.len();
            let b = ArrayValue { elem_size_words: e, data: x + array_words(arrays, h) };
            &&& prepend_outcome(arrays, prepend_name, x.push(h)) == Ok::<(Seq<Word>, Option<ArrayValue>), Seq<char>>(
                (seq![(n + 1) as Word], Some(b)),
            )
            &&& split_head_outcome(arrays.push(b), split_name, seq![(n + 1) as Word]) == Ok::<
                (Seq<Word>, Option<ArrayValue>),
                Seq<char>,
            >((x.push((n + 2) as Word), Some(ArrayValue { elem_size_words: e, data: array_words(arrays, h) })))
        }),
{
    let n = arrays.len();
    let rest = array_words(arrays, h);
    let b = ArrayValue { elem_size_words: e, data: x + rest };
    let args = x.push(h);
    assert(args.take(e as int) =~= x);
    assert(args[e as int] == h);
    assert(prepend_outcome(arrays, prepend_name, args) == Ok::<(Seq<Word>, Option<ArrayValue>), Seq<char>>(
        (seq![(n + 1) as Word], Some(b)),
    ));
    crate::arrays::lemma_array_found_after_alloc(arrays, b);
    assert(b.data.len() % (e as nat) == 0) by {
        if h == 0 {
            vstd::arithmetic::div_mod::lemma_mod_self_0(e as int);
        } else {
            vstd::arithmetic::div_mod::lemma_mod_add_multiples_vanish(rest.len() as int, e as int);
        }
        assert(b.data.len() == e + rest.len());
    }
    assert(b.data.take(e as int).push((n + 2) as Word) =~= x.push((n + 2) as Word));
    assert(b.data.skip(e as int) =~= rest);
}

/// `split_tail` undoes `append`: appending an element `x` of `e` words to
/// an array of `e`-word elements (or to handle zero, the empty array) and
/// splitting the tail off the result gives back a new array of the same
/// words, then `x`. `append_name` and `split_name` are the builtins' names
/// for arity `e` (the plain names for `e == 1`).
pub proof fn lemma_split_tail_undoes_append(
    arrays: Seq<ArrayValue>,
    append_name: Seq<char>,
    split_name: Seq<char>,
    e: usize,
    h: Word,
    x: Seq<Word>,
)
    requires
        arrays.len() + 2 <= usize::MAX,
        e >= 1,
        x.len() == e,
        specialized_arity(append_name, "append$arity"@, 1) == Some(e),
        specialized_arity(split_name, "split_tail$arity"@, 1) == Some(e),
        holds_elements(arrays, h, e),
    ensures
        ({
            let n = arrays.len();
            let b = ArrayValue { elem_size_words: e, data: array_words(arrays, h) + x };
            &&& append_outcome(arrays, append_name, seq![h] + x) == Ok::<(Seq<Word>, Option<ArrayValue>), Seq<char>>(
                (seq![(n + 1) as Word], Some(b)),
            )
            &&& split_tail_outcome(arrays.push(b), split_name, seq![(n + 1) as Word]) == Ok::<
                (Seq<Word>, Option<ArrayValue>),
                Seq<char>,
            >((seq![(n + 2) as Word] + x, Some(ArrayValue { elem_size_words: e, data: array_words(arrays, h) })))
        }),
{
    let n = arrays.len();
    let front = array_words(arrays, h);
    let b = ArrayValue { elem_size_words: e, data: front + x };
    let args = seq![h] + x;
    assert(args[0] == h);
    assert(args.subrange(1, 1 + e as int) =~= x);
    if h != 0 {
        assert(arrays[crate::arrays::array_index(h)].data + args.subrange(1, 1 + e as int) =~= b.data);
    } else {
        assert(args.subrange(1, 1 + e as int) =~= b.data);
    }
    assert(append_outcome(arrays, append_name, args) == Ok::<(Seq<Word>, Option<ArrayValue>), Seq<char>>(
        (seq![(n + 1) as Word], Some(b)),
    ));
    crate::arrays::lemma_array_found_after_alloc(arrays, b);
    assert(b.data.len() % (e as nat) == 0) by {
        if h == 0 {
            vstd::arithmetic::div_mod::lemma_mod_self_0(e as int);
        } else {
            vstd::arithmetic::div_mod::lemma_mod_add_multiples_vanish(front.len() as int, e as int);
        }
        assert(b.data.len() == e + front.len());
    }
    assert(seq![(n + 2) as Word] + b.data.skip(b.data.len() - e) =~= seq![(n + 2) as Word] + x);
    assert(b.data.take(b.data.len() - e) =~= front);
}

/// `split_head` on any array of whole `k`-word elements succeeds; it gives
/// the array's first `k` words and then a handle equal to the number of
/// arrays after the call, which names the one array it adds: the words
/// after the first element, with the source's element size. The arrays
/// that were there stay as they were.
pub proof fn lemma_split_head_names_the_rest(arrays: Seq<ArrayValue>, name: Seq<char>, args: Seq<Word>, k: usize)
    requires
        arrays.len() < usize::MAX,
        specialized_arity(name, "split_head$arity"@, 1) == Some(k),
        k >= 1,
        args.len() >= 1,
        crate::arrays::names_array(arrays, args[0]),
        k <= arrays[crate::arrays::array_index(args[0])].data.len(),
        arrays[crate::arrays::array_index(args[0])].data.len() % (k as nat) == 0,
    ensures
        ({
            let a = arrays[crate::arrays::array_index(args[0])];
            split_head_outcome(arrays, name, args) matches Ok((r, Some(b))) && {
                let after = arrays.push(b);
                &&& after.len() == arrays.len() + 1
                &&& forall|i: int| 0 <= i < arrays.len() ==> after[i] == arrays[i]
                &&& r.len() == k + 1
                &&& forall|i: int| 0 <= i < k ==> r[i] == a.data[i]
                &&& r[k as int] == after.len()
                &&& crate::arrays::names_array(after, r[k as int])
                &&& array_get_outcome(after, r[k as int]) matches Ok(rest) && {
                    &&& rest.elem_size_words == a.elem_size_words
                    &&& rest.data.len() + k == a.data.len()
                    &&& forall|i: int| 0 <= i < rest.data.len() ==> rest.data[i] == a.data[i + k]
                }
            }
        }),
{
    let a = arrays[crate::arrays::array_index(args[0])];
    let b = ArrayValue { elem_size_words: a.elem_size_words, data: a.data.skip(k as int) };
    crate::arrays::lemma_array_found_after_alloc(arrays, b);
}

/// `split_tail` on any array of whole `k`-word elements succeeds; it gives
/// first a handle equal to the number of arrays after the call, which
/// names the one array it adds (all but the last element, with the
/// source's element size), then the array's last `k` words. The arrays
/// that were there stay as they were.
pub proof fn lemma_split_tail_names_the_rest(arrays: Seq<ArrayValue>, name: Seq<char>, args: Seq<Word>, k: usize)
    requires
        arrays.len() < usize::MAX,
        specialized_arity(name, "split_tail$arity"@, 1) == Some(k),
        k >= 1,
        args.len() >= 1,
        crate::arrays::names_array(arrays, args[0]),
        k <= arrays[crate::arrays::array_index(args[0])].data.len(),
        arrays[crate::arrays::array_index(args[0])].data.len() % (k as nat) == 0,
    ensures
        ({
            let a = arrays[crate::arrays::array_index(args[0])];
            let n = a.data.len() - k;
            split_tail_outcome(arrays, name, args) matches Ok((r, Some(b))) && {
                let after = arrays.push(b);
                &&& after.len() == arrays.len() + 1
                &&& forall|i: int| 0 <= i < arrays.len() ==> after[i] == arrays[i]
                &&& r.len() == k + 1
                &&& r[0] == after.len()
                &&& forall|i: int| 1 <= i <= k ==> #[trigger] r[i] == a.data[n + i - 1]
                &&& crate::arrays::names_array(after, r[0])
                &&& array_get_outcome(after, r[0]) matches Ok(rest) && {
                    &&& rest.elem_size_words == a.elem_size_words
                    &&& rest.data.len() == n
                    &&& forall|i: int| 0 <= i < n ==> rest.data[i] == a.data[i]
                }
            }
        }),
{
    let a = arrays[crate::arrays::array_index(args[0])];
    let n = a.data.len() - k;
    let b = ArrayValue { elem_size_words: a.elem_size_words, data: a.data.take(n) };
    crate::arrays::lemma_array_found_after_alloc(arrays, b);
    let r = seq![(arrays.len() + 1) as Word] + a.data.skip(n);
    assert forall|i: int| 1 <= i <= k implies #[trigger] r[i] == a.data[n + i - 1] by {
        assert(r[i] == a.data.skip(n)[i - 1]);
    }
}

/// `len` of any array is the number of its words, whatever the size of its
/// elements; of handle zero it is zero.
pub proof fn lemma_len_counts_words(arrays: Seq<ArrayValue>, args: Seq<Word>)
    requires
        args.len() >= 1,
        args[0] == 0 || crate::arrays::names_array(arrays, args[0]),
    ensures
        len_outcome(arrays, args) == Ok::<nat, Seq<char>>(
            if args[0] == 0 { 0 } else { arrays[crate::arrays::array_index(args[0])].data.len() },
        ),
{
}

/// `probe` and `probeln` pass their first argument through: given at
/// least one argument they give exactly that one word, and given none they
/// give none.
pub proof fn lemma_probe_passes_first_argument(args: Seq<Word>)
    ensures
        args.len() >= 1 ==> probe_result(args) == seq![args[0]],
        args.len() >= 1 ==> probe_result(args).len() == 1 && probe_result(args)[0] == args[0],
        args.len() == 0 ==> probe_result(args).len() == 0,
{
}

/// Every external name is routed as the original program routes it: the
/// five plain names to their builtins; `split_head`, `split_tail`,
/// `prepend` and `append`, and every name that starts with one of them
/// followed by `$arity`, to that family's builtin; every other name to the
/// host.
pub proof fn lemma_external_names_routed(name: Seq<char>)
    ensures
        name == "min"@ ==> builtin_of(name) == ExtBuiltin::Min,
        name == "max"@ ==> builtin_of(name) == ExtBuiltin::Max,
        name == "probe"@ ==> builtin_of(name) == ExtBuiltin::Probe,
        name == "probeln"@ ==> builtin_of(name) == ExtBuiltin::Probeln,
        name == "len"@ ==> builtin_of(name) == ExtBuiltin::Len,
        name == "split_head"@ || "split_head$arity"@.is_prefix_of(name) ==> builtin_of(name) == ExtBuiltin::SplitHead,
        name == "split_tail"@ || "split_tail$arity"@.is_prefix_of(name) ==> builtin_of(name) == ExtBuiltin::SplitTail,
        name == "prepend"@ || "prepend$arity"@.is_prefix_of(name) ==> builtin_of(name) == ExtBuiltin::Prepend,
        name == "append"@ || "append$arity"@.is_prefix_of(name) ==> builtin_of(name) == ExtBuiltin::Append,
        !(name == "min"@ || name == "max"@ || name == "probe"@ || name == "probeln"@ || name == "len"@
            || name == "split_head"@ || "split_head$arity"@.is_prefix_of(name)
            || name == "split_tail"@ || "split_tail$arity"@.is_prefix_of(name)
            || name == "prepend"@ || "prepend$arity"@.is_prefix_of(name)
            || name == "append"@ || "append$arity"@.is_prefix_of(name)) ==> builtin_of(name) == ExtBuiltin::Host,
{
    reveal_strlit("min");
    reveal_strlit("max");
    reveal_strlit("probe");
    reveal_strlit("probeln");
    reveal_strlit("len");
    reveal_strlit("split_head");
    reveal_strlit("split_head$arity");
    reveal_strlit("split_tail");
    reveal_strlit("split_tail$arity");
    reveal_strlit("prepend");
    reveal_strlit("prepend$arity");
    reveal_strlit("append");
    reveal_strlit("append$arity");
    if name == "max"@ {
        assert(name[1] != "min"@[1]);
    }
    if name == "len"@ {
        assert(name[0] != "min"@[0]);
        assert(name[0] != "max"@[0]);
    }
    if name == "split_tail"@ {
        assert(name[6] != "split_head"@[6]);
    }
    if name == "prepend"@ {
        assert(name[2] != "probeln"@[2]);
    }
    if "split_head$arity"@.is_prefix_of(name) {
        lemma_prefix_char("split_head$arity"@, name, 6);
    }
    if "split_tail$arity"@.is_prefix_of(name) {
        lemma_prefix_char("split_tail$arity"@, name, 6);
        if "split_head$arity"@.is_prefix_of(name) {
            lemma_prefix_char("split_head$arity"@, name, 6);
        }
    }
    if "prepend$arity"@.is_prefix_of(name) {
        lemma_prefix_char("prepend$arity"@, name, 0);
        if "split_head$arity"@.is_prefix_of(name) {
            lemma_prefix_char("split_head$arity"@, name, 0);
        }
        if "split_tail$arity"@.is_prefix_of(name) {
            lemma_prefix_char("split_tail$arity"@, name, 0);
        }
    }
    if "append$arity"@.is_prefix_of(name) {
        lemma_prefix_char("append$arity"@, name, 0);
        if "split_head$arity"@.is_prefix_of(name) {
            lemma_prefix_char("split_head$arity"@, name, 0);
        }
        if "split_tail$arity"@.is_prefix_of(name) {
            lemma_prefix_char("split_tail$arity"@, name, 0);
        }
        if "prepend$arity"@.is_prefix_of(name) {
            lemma_prefix_char("prepend$arity"@, name, 0);
        }
    }
}

/// A name that starts with `prefix` is at least as long and has its
/// characters there.
proof fn lemma_prefix_char(prefix: Seq<char>, name: Seq<char>, i: int)
    requires
        prefix.is_prefix_of(name),
        0 <= i < prefix.len(),
    ensures
        name.len() >= prefix.len(),
        name[i] == prefix[i],
{
    assert(name.subrange(0, prefix.len() as int)[i] == name[i]);
}

} // verus!
