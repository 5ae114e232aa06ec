use vstd::prelude::*;

use crate::word::Word;

verus! {

/// `n` zero words.
pub open spec fn zeros(n: nat) -> Seq<Word> {
    Seq::new(n, |i: int| 0u64)
}

/// `cells` grown with zero words up to length `needed`; left alone when it
/// is already that long.
pub open spec fn grown(cells: Seq<Word>, needed: nat) -> Seq<Word> {
    if cells.len() < needed {
        cells + zeros((needed - cells.len()) as nat)
    } else {
        cells
    }
}

/// `a + b`, or `usize::MAX` when that overflows.
pub open spec fn saturating_sum(a: nat, b: nat) -> nat {
    if a + b <= usize::MAX {
        a + b
    } else {
        usize::MAX as nat
    }
}

/// `cells` with `src` written over it from `start` on.
pub open spec fn overwrite(cells: Seq<Word>, start: int, src: Seq<Word>) -> Seq<Word> {
    cells.take(start) + src + cells.skip(start + src.len())
}

/// The data slot that a delay line of length `m` at cursor `p` writes next:
/// its write counter (the word after the cursor) taken modulo `m`.
pub open spec fn delay_write_index(cells: Seq<Word>, p: nat, m: nat) -> nat {
    ((cells[p + 1int] as usize) as nat) % m
}

/// The data slot read by a delay of `d` samples when `w` is written next.
pub open spec fn delay_read_index(w: nat, m: nat, d: nat) -> nat {
    ((w + m - d) as nat) % m
}

/// The remembered inputs of a delay line of length `m` at cursor `p`, the
/// latest first: entry `k` is the input written `k + 1` calls ago (or
/// whatever the cells held there before).
pub open spec fn delay_history(cells: Seq<Word>, p: nat, m: nat) -> Seq<Word> {
    let w = delay_write_index(cells, p, m);
    Seq::new(m, |k: int| cells[p + 2 + ((w - 1 - k) % (m as int))])
}

/// A history after one more input: `input` comes first and the oldest
/// entry is dropped.
pub open spec fn history_push(h: Seq<Word>, input: Word) -> Seq<Word> {
    seq![input] + h.take(h.len() - 1)
}

/// A history after the inputs `xs`, fed in order.
pub open spec fn history_feed(h: Seq<Word>, xs: Seq<Word>) -> Seq<Word>
    decreases xs.len(),
{
    if xs.len() == 0 {
        h
    } else {
        history_push(history_feed(h, xs.drop_last()), xs.last())
    }
}

/// What a delay of `d` samples reads out of the history `h`: the input of
/// `d` calls ago, or the oldest entry when `d` is zero.
pub open spec fn history_read(h: Seq<Word>, d: nat) -> Word {
    if d == 0 {
        h[h.len() - 1]
    } else {
        h[d - 1]
    }
}

/// The state cells after one call of `delay` on a line of length `m > 0`
/// at cursor `p`, from the cells `s` it found (already grown).
pub open spec fn delay_step(s: Seq<Word>, p: nat, m: nat, d: nat, input: Word) -> Seq<Word> {
    let w = delay_write_index(s, p, m);
    let ri = delay_read_index(w, m, d);
    s.update(p + 2 + w as int, input).update(p as int, ri as u64).update(p + 1int, ((w + 1) % m) as u64)
}

/// The state cells after one call of `delay(x, d, m)` with the cursor at
/// `p`, from the cells `s` before the call: grown to hold the line, then
/// stepped (a zero-length line is only grown).
pub open spec fn delay_call_cells(s: Seq<Word>, p: nat, m: nat, d: nat, x: Word) -> Seq<Word> {
    let g = grown(s, p + m + 2);
    if m == 0 {
        g
    } else {
        delay_step(g, p, m, d, x)
    }
}

/// What one call of `delay(_, d, m)` with the cursor at `p` gives, from
/// the cells `s` before the call: the ring slot `d` places behind the next
/// write slot (zero for a zero-length line).
pub open spec fn delay_call_output(s: Seq<Word>, p: nat, m: nat, d: nat) -> Word {
    let g = grown(s, p + m + 2);
    if m == 0 {
        0
    } else {
        g[(p + 2 + delay_read_index(delay_write_index(g, p, m), m, d)) as int]
    }
}

/// Whether a delay of `d` samples is one that a line of length `m` at
/// cursor `p` can take from the cells `s`: at most the line's length past
/// its next write slot.
pub open spec fn delay_time_in_range(s: Seq<Word>, p: nat, m: nat, d: nat) -> bool {
    m > 0 ==> d <= delay_write_index(grown(s, p + m + 2), p, m) + m
}

/// The state cells after calls of `delay(xs[0], d, m)`, `delay(xs[1], d, m)`,
/// ... in turn, with the cursor at `p`, from the cells `s`.
pub open spec fn delay_cells_after(s: Seq<Word>, p: nat, m: nat, d: nat, xs: Seq<Word>) -> Seq<Word>
    decreases xs.len(),
{
    if xs.len() == 0 {
        s
    } else {
        delay_call_cells(delay_cells_after(s, p, m, d, xs.drop_last()), p, m, d, xs.last())
    }
}

/// What call `n` (from zero) of such a run of delay calls gives.
pub open spec fn delay_output_at(s: Seq<Word>, p: nat, m: nat, d: nat, xs: Seq<Word>, n: int) -> Word {
    delay_call_output(delay_cells_after(s, p, m, d, xs.take(n)), p, m, d)
}

/// Whether the words of a delay line of length `m` at cursor `p` (its two
/// bookkeeping words and its ring) are zero, or not there yet.
pub open spec fn silent_line(s: Seq<Word>, p: nat, m: nat) -> bool {
    forall|j: int| p <= j < p + m + 2 && j < s.len() ==> #[trigger] s[j] == 0
}

/// The state cells of one function or closure: a growable run of words
/// and a cursor into it. Each stateful primitive of a function owns the
/// words from the cursor on, while the cursor is moved over it.
#[derive(Clone)]
pub struct StateStorage {
    pos: usize,
    rawdata: Vec<Word>,
}

impl StateStorage {
    /// Where the cursor stands.
    pub closed spec fn cursor(&self) -> nat {
        self.pos as nat
    }

    /// The state words.
    pub closed spec fn cells(&self) -> Seq<Word> {
        self.rawdata@
    }

    /// A storage of `size` zero words with the cursor at the start.
    pub fn new(size: usize) -> (s: Self)
        ensures
            s.cursor() == 0,
            s.cells() == zeros(size as nat),
    {
        let mut rawdata: Vec<Word> = Vec::new();
        let mut i: usize = 0;
        while i < size
            invariant
                i <= size,
                rawdata@ == zeros(i as nat),
            decreases size - i,
        {
            rawdata.push(0);
            i = i + 1;
        }
        StateStorage { pos: 0, rawdata }
    }

    /// Grows the cells with zeros so that `size` words exist from the
    /// cursor on (the end saturating at `usize::MAX`).
    pub fn ensure(&mut self, size: usize)
        ensures
            final(self).cursor() == old(self).cursor(),
            final(self).cells() == grown(old(self).cells(), saturating_sum(old(self).cursor(), size as nat)),
    {
        let needed = self.pos.saturating_add(size);
        if self.rawdata.len() < needed {
            self.rawdata.resize(needed, 0);
            assert(self.rawdata@ =~= grown(old(self).rawdata@, needed as nat));
        }
    }

    /// Where the cursor stands.
    pub fn pos(&self) -> (p: usize)
        ensures
            p == self.cursor(),
    {
        self.pos
    }

    /// The number of state words.
    pub fn len(&self) -> (n: usize)
        ensures
            n == self.cells().len(),
    {
        self.rawdata.len()
    }

    /// Moves the cursor forward by `offset` words.
    pub fn push_pos(&mut self, offset: usize)
        requires
            old(self).cursor() + offset <= usize::MAX,
        ensures
            final(self).cursor() == old(self).cursor() + offset,
            final(self).cells() == old(self).cells(),
    {
        self.pos = self.pos + offset;
    }

    /// Moves the cursor back by `offset` words.
    pub fn pop_pos(&mut self, offset: usize)
        requires
            offset <= old(self).cursor(),
        ensures
            final(self).cursor() == old(self).cursor() - offset,
            final(self).cells() == old(self).cells(),
    {
        self.pos = self.pos - offset;
    }

    /// A copy of the `size` words from the cursor on, growing the cells
    /// first where they are too short.
    pub fn get_state(&mut self, size: usize) -> (r: Vec<Word>)
        requires
            old(self).cursor() + size <= usize::MAX,
        ensures
            final(self).cursor() == old(self).cursor(),
            final(self).cells() == grown(old(self).cells(), (old(self).cursor() + size) as nat),
            r@ == final(self).cells().subrange(old(self).cursor() as int, old(self).cursor() + size),
    {
        self.ensure(size);
        let end = self.pos + size;
        vstd::slice::slice_to_vec(vstd::slice::slice_subrange(self.rawdata.as_slice(), self.pos, end))
    }

    /// The `size` words from the cursor on, which must exist.
    pub fn get_state_slice(&self, size: usize) -> (r: &[Word])
        requires
            self.cursor() + size <= self.cells().len(),
        ensures
            r@ == self.cells().subrange(self.cursor() as int, self.cursor() + size),
    {
        assert(self.rawdata@.len() == self.rawdata.len());
        vstd::slice::slice_subrange(self.rawdata.as_slice(), self.pos, self.pos + size)
    }

    /// The word under the cursor, which must exist.
    pub fn get_state_word(&self) -> (w: Word)
        requires
            self.cursor() < self.cells().len(),
        ensures
            w == self.cells()[self.cursor() as int],
    {
        self.rawdata[self.pos]
    }

    /// Writes the first `size` words of `src` from the cursor on; they
    /// must fit in the cells.
    pub fn set_state(&mut self, src: &[Word], size: usize)
        requires
            old(self).cursor() + size <= old(self).cells().len(),
            size <= src@.len(),
        ensures
            final(self).cursor() == old(self).cursor(),
            final(self).cells() == overwrite(old(self).cells(), old(self).cursor() as int, src@.take(size as int)),
    {
        let mut i: usize = 0;
        while i < size
            invariant
                i <= size,
                size <= src@.len(),
                self.pos == old(self).pos,
                self.pos + size <= self.rawdata.len(),
                self.rawdata@.len() == old(self).rawdata@.len(),
                forall|j: int|
                    0 <= j < self.rawdata@.len() ==> #[trigger] self.rawdata@[j] == if self.pos <= j < self.pos + i {
                        src@[j - self.pos]
                    } else {
                        old(self).rawdata@[j]
                    },
            decreases size - i,
        {
            let p = self.pos + i;
            self.rawdata.set(p, src[i]);
            i = i + 1;
        }
        assert(self.rawdata@ =~= overwrite(old(self).rawdata@, self.pos as int, src@.take(size as int)));
    }

    /// Writes `src` under the cursor, which must point at a cell.
    pub fn set_state_word(&mut self, src: Word)
        requires
            old(self).cursor() < old(self).cells().len(),
        ensures
            final(self).cursor() == old(self).cursor(),
            final(self).cells() == old(self).cells().update(old(self).cursor() as int, src),
    {
        let p = self.pos;
        self.rawdata.set(p, src);
    }

    /// The one-sample memory: writes `src` under the cursor and gives back
    /// the word that was there.
    pub fn mem(&mut self, src: Word) -> (prev: Word)
        requires
            old(self).cursor() < old(self).cells().len(),
        ensures
            prev == old(self).cells()[old(self).cursor() as int],
            final(self).cursor() == old(self).cursor(),
            final(self).cells() == old(self).cells().update(old(self).cursor() as int, src),
    {
        let p = self.pos;
        let prev = self.rawdata[p];
        self.rawdata.set(p, src);
        prev
    }
    /// Whether `delay(_, delay_samples, max_len)` may be called now: a
    /// delay reaches back at most the line's length past its next write
    /// slot.
    pub fn delay_time_fits(&self, delay_samples: usize, max_len: usize) -> (r: bool)
        requires
            self.cursor() + max_len + 2 <= usize::MAX,
        ensures
            r == delay_time_in_range(self.cells(), self.cursor(), max_len as nat, delay_samples as nat),
    {
        if max_len == 0 {
            return true;
        }
        let write_slot = self.pos + 1;
        let counter: Word = if write_slot < self.rawdata.len() {
            self.rawdata[write_slot]
        } else {
            0
        };
        let write_idx = (counter as usize) % max_len;
        proof {
            let g = grown(self.rawdata@, (self.pos + max_len + 2) as nat);
            assert(g[write_slot as int] == counter);
        }
        delay_samples <= write_idx || delay_samples - write_idx <= max_len
    }

    /// The delay line: a ring of `max_len` words after two bookkeeping
    /// words (the last read slot and the next write slot). Reads the input
    /// of `delay_samples` calls ago (of `max_len` calls ago for a delay of
    /// zero or of `max_len`), then writes `input` in its place in the
    /// ring. A zero-length line gives zero.
    pub fn delay(&mut self, input: Word, delay_samples: usize, max_len: usize) -> (r: Word)
        requires
            old(self).cursor() + max_len + 2 <= usize::MAX,
            delay_time_in_range(old(self).cells(), old(self).cursor(), max_len as nat, delay_samples as nat),
        ensures
            final(self).cursor() == old(self).cursor(),
            final(self).cells() == delay_call_cells(
                old(self).cells(),
                old(self).cursor(),
                max_len as nat,
                delay_samples as nat,
                input,
            ),
            r == delay_call_output(old(self).cells(), old(self).cursor(), max_len as nat, delay_samples as nat),
            max_len > 0 ==> ({
                let p = old(self).cursor();
                let m = max_len as nat;
                let s = grown(old(self).cells(), p + m + 2);
                &&& r == history_read(delay_history(s, p, m), delay_samples as nat % m)
                &&& delay_history(final(self).cells(), p, m) == history_push(delay_history(s, p, m), input)
            }),
    {
        let total_words = max_len.saturating_add(2);
        self.ensure(total_words);
        if max_len == 0 {
            return 0;
        }
        let ghost s = self.rawdata@;
        let read_slot = self.pos;
        let write_slot = self.pos + 1;
        let data_start = self.pos + 2;
        let write_idx = (self.rawdata[write_slot] as usize) % max_len;
        let read_idx = if write_idx >= delay_samples {
            write_idx - delay_samples
        } else if delay_samples <= max_len {
            write_idx + (max_len - delay_samples)
        } else {
            write_idx - (delay_samples - max_len)
        };
        proof {
            lemma_read_index(write_idx as int, max_len as int, delay_samples as int);
            lemma_read_index_mod(write_idx as nat, max_len as nat, delay_samples as nat);
        }
        let result = self.rawdata[data_start + read_idx];
        self.rawdata.set(data_start + write_idx, input);
        self.rawdata.set(read_slot, read_idx as u64);
        self.rawdata.set(write_slot, ((write_idx + 1) % max_len) as u64);
        proof {
            let p = self.pos as nat;
            let m = max_len as nat;
            let d = delay_samples as nat;
            assert(delay_step(s, p, m, d, input) == delay_step(s, p, m, d % m, input));
            lemma_delay_history(s, p, m, d % m, input);
        }
        result
    }
}

/// A history fed with the inputs `xs` holds them latest first, followed
/// by what it held before, cut to its length.
pub proof fn lemma_history_feed(h: Seq<Word>, xs: Seq<Word>)
    requires
        h.len() > 0,
    ensures
        history_feed(h, xs).len() == h.len(),
        forall|k: int|
            0 <= k < h.len() ==> #[trigger] history_feed(h, xs)[k] == if k < xs.len() {
                xs[xs.len() - 1 - k]
            } else {
                h[k - xs.len()]
            },
    decreases xs.len(),
{
    if xs.len() > 0 {
        let ys = xs.drop_last();
        lemma_history_feed(h, ys);
        let prev = history_feed(h, ys);
        assert forall|k: int| 0 <= k < h.len() implies #[trigger] history_feed(h, xs)[k] == if k < xs.len() {
            xs[xs.len() - 1 - k]
        } else {
            h[k - xs.len()]
        } by {
            if k > 0 {
                assert(history_feed(h, xs)[k] == prev[k - 1]);
            }
        }
    }
}

/// A delay line gives back its input of `d` calls ago: after the inputs
/// `xs`, a delay of `d` samples (`1 <= d`, shorter than the line and than
/// the feed) reads `xs[xs.len() - d]`.
pub proof fn lemma_delay_reads_past_input(h: Seq<Word>, xs: Seq<Word>, d: nat)
    requires
        1 <= d < h.len(),
        d <= xs.len(),
    ensures
        history_read(history_feed(h, xs), d) == xs[xs.len() - d],
{
    lemma_history_feed(h, xs);
}

/// The state of a delay line of length `m` at cursor `p` after a run of
/// calls with the inputs `xs`, started on silent cells: the line's history
/// is the inputs fed to a silent one, the write counter has counted the
/// calls modulo `m`, and the read slot is the one the last call read.
proof fn lemma_delay_feed(s: Seq<Word>, p: nat, m: nat, d: nat, xs: Seq<Word>)
    requires
        0 < m,
        p + m + 2 <= usize::MAX,
        d <= m,
        silent_line(s, p, m),
    ensures
        ({
            let c = delay_cells_after(s, p, m, d, xs);
            let g = grown(c, p + m + 2);
            &&& g.len() >= p + m + 2
            &&& xs.len() > 0 ==> c == g
            &&& g[p + 1int] == (xs.len() % m) as u64
            &&& xs.len() > 0 ==> g[p as int] == ((xs.len() - 1 + m - d) % (m as int)) as u64
            &&& delay_history(g, p, m) == history_feed(zeros(m), xs)
        }),
    decreases xs.len(),
{
    let mi = m as int;
    if xs.len() == 0 {
        let g = grown(s, p + m + 2);
        assert forall|j: int| p <= j < p + m + 2 implies g[j] == 0 by {
            if j < s.len() {
                assert(s[j] == 0);
            }
        }
        vstd::arithmetic::div_mod::lemma_small_mod(0, m);
        assert(delay_write_index(g, p, m) == 0);
        assert forall|k: int| 0 <= k < m implies #[trigger] delay_history(g, p, m)[k] == zeros(m)[k] by {
            vstd::arithmetic::div_mod::lemma_mod_bound(0 - 1 - k, mi);
        }
        assert(delay_history(g, p, m) =~= zeros(m));
    } else {
        let ys = xs.drop_last();
        let x = xs.last();
        lemma_delay_feed(s, p, m, d, ys);
        let k = ys.len();
        let c = delay_cells_after(s, p, m, d, ys);
        let g = grown(c, p + m + 2);
        let w = delay_write_index(g, p, m);
        // the write counter read back
        vstd::arithmetic::div_mod::lemma_mod_bound(k as int, mi);
        assert(((k % m) as u64) as usize == k % m);
        vstd::arithmetic::div_mod::lemma_small_mod(k % m, m);
        assert(w == k % m);
        lemma_read_index_mod(w, m, d);
        assert(delay_step(g, p, m, d, x) == delay_step(g, p, m, d % m, x));
        lemma_delay_history(g, p, m, d % m, x);
        let c2 = delay_cells_after(s, p, m, d, xs);
        assert(c2 == delay_step(g, p, m, d, x));
        assert(grown(c2, p + m + 2) == c2);
        // the counters after the call
        vstd::arithmetic::div_mod::lemma_add_mod_noop_right(1, k as int, mi);
        assert(c2[p + 1int] == ((k + 1) % m) as u64);
        vstd::arithmetic::div_mod::lemma_add_mod_noop_right(mi - d, k as int, mi);
        assert(c2[p as int] == ((k + m - d) % mi) as u64);
    }
}

/// A delay line started on silent cells (fresh storage, or words that are
/// still zero) and called with a fixed delay `d` of at most its length `m`
/// gives each input back `D` calls later, where `D` is `d`, or `m` for a
/// delay of zero; before that it gives zero. After `k >= 1` calls its
/// write counter holds `k % m` and its read slot `(k - 1 + m - d) % m`,
/// and the cells hold the whole line.
pub proof fn lemma_delay_line_from_silence(s: Seq<Word>, p: nat, m: nat, d: nat, xs: Seq<Word>)
    requires
        0 < m,
        p + m + 2 <= usize::MAX,
        d <= m,
        silent_line(s, p, m),
    ensures
        forall|n: int|
            0 <= n < xs.len() ==> #[trigger] delay_output_at(s, p, m, d, xs, n) == ({
                let big_d = if d == 0 { m as int } else { d as int };
                if n >= big_d {
                    xs[n - big_d]
                } else {
                    0
                }
            }),
        xs.len() > 0 ==> ({
            let c = delay_cells_after(s, p, m, d, xs);
            &&& c.len() >= p + m + 2
            &&& c[p + 1int] == (xs.len() % m) as u64
            &&& c[p as int] == ((xs.len() - 1 + m - d) % (m as int)) as u64
        }),
{
    lemma_delay_feed(s, p, m, d, xs);
    assert forall|n: int| 0 <= n < xs.len() implies #[trigger] delay_output_at(s, p, m, d, xs, n) == ({
        let big_d = if d == 0 { m as int } else { d as int };
        if n >= big_d {
            xs[n - big_d]
        } else {
            0
        }
    }) by {
        let ys = xs.take(n);
        lemma_delay_feed(s, p, m, d, ys);
        let c = delay_cells_after(s, p, m, d, ys);
        let g = grown(c, p + m + 2);
        let w = delay_write_index(g, p, m);
        assert(w < m) by {
            vstd::arithmetic::div_mod::lemma_mod_bound((g[p + 1int] as usize) as int, m as int);
        }
        lemma_read_index_mod(w, m, d);
        assert(grown(g, p + m + 2) == g);
        lemma_delay_history(g, p, m, d % m, 0);
        assert(delay_output_at(s, p, m, d, xs, n) == history_read(history_feed(zeros(m), ys), d % m));
        lemma_history_feed(zeros(m), ys);
        if d == m {
            vstd::arithmetic::div_mod::lemma_mod_self_0(m as int);
        } else {
            vstd::arithmetic::div_mod::lemma_small_mod(d, m);
        }
    }
}

/// Moving the cursor forward and back by the same amount leaves a storage
/// as it was: `s1` is `s0` after `push_pos(offset)` and `s2` is `s1` after
/// `pop_pos(offset)`.
pub proof fn lemma_push_pop_restores(s0: StateStorage, s1: StateStorage, s2: StateStorage, offset: usize)
    requires
        s1.cursor() == s0.cursor() + offset,
        s1.cells() == s0.cells(),
        s2.cursor() == s1.cursor() - offset,
        s2.cells() == s1.cells(),
    ensures
        s2.cursor() == s0.cursor(),
        s2.cells() == s0.cells(),
{
}

/// The one-sample memory gives back what it was given on the call before:
/// after `mem(x)`, `mem(y)` gives `x`.
pub proof fn lemma_mem_returns_previous(cells: Seq<Word>, p: nat, x: Word, y: Word)
    requires
        p < cells.len(),
    ensures
        cells.update(p as int, x)[p as int] == x,
        cells.update(p as int, x).update(p as int, y) == cells.update(p as int, y),
{
    assert(cells.update(p as int, x).update(p as int, y) =~= cells.update(p as int, y));
}

proof fn lemma_read_index(w: int, m: int, d: int)
    requires
        0 <= w < m,
        0 <= d <= w + m,
    ensures
        (if w >= d {
            w - d
        } else if d <= m {
            w + (m - d)
        } else {
            w - (d - m)
        }) == (w + m - d) % m,
{
    if w >= d {
        assert((w - d) + m == w + m - d);
        vstd::arithmetic::div_mod::lemma_mod_add_multiples_vanish(w - d, m);
        vstd::arithmetic::div_mod::lemma_small_mod((w - d) as nat, m as nat);
    } else {
        vstd::arithmetic::div_mod::lemma_small_mod((w + m - d) as nat, m as nat);
    }
}

/// A delay reads the same slot as the delay taken modulo the line's length.
proof fn lemma_read_index_mod(w: nat, m: nat, d: nat)
    requires
        w < m,
        d <= w + m,
    ensures
        delay_read_index(w, m, d) == delay_read_index(w, m, d % m),
        d % m < m,
{
    let mi = m as int;
    let q = d as int / mi;
    vstd::arithmetic::div_mod::lemma_fundamental_div_mod(d as int, mi);
    vstd::arithmetic::div_mod::lemma_mod_bound(d as int, mi);
    assert(w + m - (d % m) == mi * q + (w + m - d));
    vstd::arithmetic::div_mod::lemma_mod_multiples_vanish(q, (w + m - d) as int, mi);
}

/// One step of a delay line shifts its history by the new input, and
/// what it read is the history entry for its delay.
proof fn lemma_delay_history(s: Seq<Word>, p: nat, m: nat, d: nat, input: Word)
    requires
        0 < m <= usize::MAX,
        d < m,
        p + m + 2 <= s.len(),
    ensures
        s[(p + 2 + delay_read_index(delay_write_index(s, p, m), m, d)) as int] == history_read(delay_history(s, p, m), d),
        delay_history(delay_step(s, p, m, d, input), p, m) == history_push(delay_history(s, p, m), input),
{
    let w = delay_write_index(s, p, m);
    let mi = m as int;
    let h = delay_history(s, p, m);
    let s2 = delay_step(s, p, m, d, input);
    let w2 = ((w + 1) % m) as nat;
    assert(w < m);
    // the write counter after the step
    assert(s2[p + 1int] == ((w + 1) % m) as u64);
    assert(delay_write_index(s2, p, m) == w2) by {
        vstd::arithmetic::div_mod::lemma_mod_bound((w + 1) as int, m as int);
        assert(w2 < m);
        assert((w2 as u64) as usize == w2);
        vstd::arithmetic::div_mod::lemma_small_mod(w2, m);
    }
    // the read
    if d == 0 {
        assert((w - 1 - (mi - 1)) % mi == w as int) by {
            assert(w - 1 - (mi - 1) == w - mi);
            vstd::arithmetic::div_mod::lemma_mod_sub_multiples_vanish(w as int, mi);
            vstd::arithmetic::div_mod::lemma_small_mod(w, m);
        }
        assert(delay_read_index(w, m, d) == w) by {
            vstd::arithmetic::div_mod::lemma_mod_add_multiples_vanish(w as int, mi);
            vstd::arithmetic::div_mod::lemma_small_mod(w, m);
        }
    } else {
        assert((w - 1 - (d - 1)) % mi == delay_read_index(w, m, d)) by {
            assert(w - 1 - (d - 1) + mi == w + m - d);
            vstd::arithmetic::div_mod::lemma_mod_add_multiples_vanish(w - 1 - (d - 1), mi);
        }
    }
    // the shift
    let h2 = delay_history(s2, p, m);
    let hp = history_push(h, input);
    assert forall|k: int| 0 <= k < mi implies h2[k] == hp[k] by {
        let j = (w2 - 1 - k) % mi;
        vstd::arithmetic::div_mod::lemma_mod_bound(w2 - 1 - k, mi);
        if w + 1 < m {
            vstd::arithmetic::div_mod::lemma_small_mod((w + 1) as nat, m);
            assert(w2 == w + 1);
        } else {
            assert(w + 1 == m);
            vstd::arithmetic::div_mod::lemma_mod_self_0(mi);
            assert(w2 == 0);
            assert(w2 - 1 - k + mi == w - k);
            vstd::arithmetic::div_mod::lemma_mod_add_multiples_vanish(w2 - 1 - k, mi);
        }
        assert(j == (w - k) % mi);
        if k == 0 {
            vstd::arithmetic::div_mod::lemma_small_mod(w, m);
            assert(j == w);
        } else {
            assert((w - k) == (w - 1 - (k - 1)));
            assert(j != w) by {
                if w >= k {
                    vstd::arithmetic::div_mod::lemma_small_mod((w - k) as nat, m);
                } else {
                    vstd::arithmetic::div_mod::lemma_mod_add_multiples_vanish(w - k, mi);
                    vstd::arithmetic::div_mod::lemma_small_mod((w - k + mi) as nat, m);
                }
            }
        }
    }
    assert(h2 =~= hp);
}

} // verus!
