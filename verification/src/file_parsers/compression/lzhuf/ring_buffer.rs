//! Ring buffer for LZ type compression windows.
use vstd::prelude::*;

verus! {

/// Euclidean remainder of `a` by a positive `n`, as a value in `0..n`.
pub open spec fn euclid_mod(a: int, n: int) -> int {
    a % n
}

/// A fixed size circular byte window with a current position.
pub struct RingBuffer {
    buf: Vec<u8>,
    pos: usize,
    n: usize,
}

impl RingBuffer {
    /// Well-formedness: the window holds exactly `size` bytes and the position lies inside it.
    pub closed spec fn wf(&self) -> bool {
        &&& self.buf@.len() == self.n
        &&& self.n <= i64::MAX
        &&& (self.n > 0 ==> self.pos < self.n)
        &&& (self.n == 0 ==> self.pos == 0)
    }

    /// The bytes held by the window, indexed by absolute slot.
    pub closed spec fn contents(&self) -> Seq<u8> {
        self.buf@
    }

    /// The current position within the window.
    pub closed spec fn position(&self) -> nat {
        self.pos as nat
    }

    /// The window size.
    pub closed spec fn size(&self) -> nat {
        self.n as nat
    }

    /// What well-formedness gives a caller: the size fits an `i64`, the position lies inside a
    /// non-empty window, and the window holds exactly `size` bytes.
    pub proof fn lemma_wf(&self)
        requires
            self.wf(),
        ensures
            self.size() <= i64::MAX,
            self.size() > 0 ==> self.position() < self.size(),
            self.size() == 0 ==> self.position() == 0,
            self.contents().len() == self.size(),
    {
    }

    /// A read at an offset and a read a whole number of windows further name the same slot,
    /// which lies inside the window: `get(offset) == get(offset + k * size)`.
    pub proof fn lemma_get_periodic(&self, offset: int, k: int)
        requires
            self.wf(),
            self.size() > 0,
        ensures
            euclid_mod(self.position() + offset + k * self.size(), self.size() as int)
                == euclid_mod(self.position() + offset, self.size() as int),
            0 <= euclid_mod(self.position() + offset, self.size() as int) < self.size(),
            self.contents()[euclid_mod(self.position() + offset + k * self.size(), self.size() as int)]
                == self.contents()[euclid_mod(self.position() + offset, self.size() as int)],
    {
        lemma_offset_periodic(self.position() as int, offset, k, self.size() as int);
        vstd::arithmetic::div_mod::lemma_mod_bound(self.position() + offset, self.size() as int);
    }

    /// Create a zero filled window of `n` bytes, positioned at slot 0.
    pub fn create(n: usize) -> (r: Self)
        requires
            n <= i64::MAX,
        ensures
            r.wf(),
            r.size() == n,
            r.position() == 0,
            r.contents() == Seq::new(n as nat, |i: int| 0u8),
    {
        let buf = vec![0u8; n];
        assert(buf@ == Seq::new(n as nat, |i: int| 0u8));
        Self { buf, pos: 0, n }
    }

    /// Slot index of the position `offset` bytes away from the current position,
    /// wrapping around the window in either direction.
    pub fn get_pos(&self, offset: i64) -> (r: usize)
        requires
            self.wf(),
            self.size() > 0,
            i64::MIN <= self.position() + offset <= i64::MAX,
        ensures
            r as int == euclid_mod(self.position() + offset, self.size() as int),
            r < self.size(),
    {
        Self::wrap(self.pos as i64 + offset, self.n as i64)
    }

    /// Euclidean remainder of `a` by `n`.
    fn wrap(a: i64, n: i64) -> (r: usize)
        requires
            n > 0,
            n <= usize::MAX,
        ensures
            r as int == euclid_mod(a as int, n as int),
            r < n,
    {
        if a >= 0 {
            (a as u64 % n as u64) as usize
        } else {
            let k: u64 = (-(a + 1)) as u64;
            let m: u64 = k % (n as u64);
            proof {
                let q = k as int / n as int;
                vstd::arithmetic::div_mod::lemma_fundamental_div_mod(k as int, n as int);
                assert(a as int == (-(q + 1)) * (n as int) + (n - 1 - m)) by (nonlinear_arith)
                    requires k as int == q * (n as int) + m as int, a as int == -(k as int) - 1;
                vstd::arithmetic::div_mod::lemma_fundamental_div_mod_converse(
                    a as int, n as int, -(q + 1), n - 1 - m);
            }
            (n as u64 - 1 - m) as usize
        }
    }

    /// Move the current position to `pos` modulo the window size.
    pub fn set_pos(&mut self, pos: usize)
        requires
            old(self).wf(),
            old(self).size() > 0,
        ensures
            final(self).wf(),
            final(self).position() == (pos as int) % (old(self).size() as int),
            final(self).size() == old(self).size(),
            final(self).contents() == old(self).contents(),
    {
        self.pos = pos % self.n;
    }

    /// Read the byte at an absolute index, taken modulo the window size.
    pub fn get_abs(&self, abs: usize) -> (r: u8)
        requires
            self.wf(),
            self.size() > 0,
        ensures
            r == self.contents()[abs as int % self.size() as int],
    {
        self.buf[abs % self.n]
    }

    /// Write the byte at an absolute index, taken modulo the window size.
    pub fn set_abs(&mut self, abs: usize, val: u8)
        requires
            old(self).wf(),
            old(self).size() > 0,
        ensures
            final(self).wf(),
            final(self).contents() == old(self).contents().update(abs as int % old(self).size() as int, val),
            final(self).position() == old(self).position(),
            final(self).size() == old(self).size(),
    {
        let i = abs % self.n;
        self.buf.set(i, val);
    }

    /// Read the byte `offset` bytes away from the current position.
    pub fn get(&self, offset: i64) -> (r: u8)
        requires
            self.wf(),
            self.size() > 0,
            i64::MIN <= self.position() + offset <= i64::MAX,
        ensures
            r == self.contents()[euclid_mod(self.position() + offset, self.size() as int)],
    {
        let i = Self::wrap(self.pos as i64 + offset, self.n as i64);
        self.buf[i]
    }

    /// Write the byte `offset` bytes away from the current position.
    pub fn set(&mut self, offset: i64, val: u8)
        requires
            old(self).wf(),
            old(self).size() > 0,
            i64::MIN <= old(self).position() + offset <= i64::MAX,
        ensures
            final(self).wf(),
            final(self).contents() == old(self).contents().update(
                euclid_mod(old(self).position() + offset, old(self).size() as int),
                val,
            ),
            final(self).position() == old(self).position(),
            final(self).size() == old(self).size(),
    {
        let i = Self::wrap(self.pos as i64 + offset, self.n as i64);
        self.buf.set(i, val);
    }

    /// Step the current position forward by one slot, wrapping at the end of the window.
    pub fn advance(&mut self)
        requires
            old(self).wf(),
            old(self).size() > 0,
        ensures
            final(self).wf(),
            final(self).position() == ((old(self).position() + 1) as int) % (old(self).size() as int),
            final(self).contents() == old(self).contents(),
            final(self).size() == old(self).size(),
    {
        self.pos = (self.pos + 1) % self.n;
    }

    /// Step the current position back by one slot. The position must not be at slot 0.
    pub fn retreat(&mut self)
        requires
            old(self).wf(),
            old(self).size() > 0,
            old(self).position() > 0,
        ensures
            final(self).wf(),
            final(self).position() == old(self).position() - 1,
            final(self).contents() == old(self).contents(),
            final(self).size() == old(self).size(),
    {
        proof { vstd::arithmetic::div_mod::lemma_small_mod((self.pos - 1) as nat, self.n as nat); }
        self.pos = (self.pos - 1) % self.n;
    }

    /// Distance from `other` forward to the current position, taken around the window.
    pub fn distance_behind(&self, other: usize) -> (r: usize)
        requires
            self.wf(),
            self.size() > 0,
            i64::MIN <= self.position() - (other as i64) <= i64::MAX,
        ensures
            r as int == euclid_mod(self.position() - (other as i64), self.size() as int),
            r < self.size(),
    {
        Self::wrap(self.pos as i64 - other as i64, self.n as i64)
    }
}

/// Offsets that differ by a whole number of windows name the same slot: for a window of
/// `n` slots, `get_pos(offset + k * n) == get_pos(offset)`.
pub proof fn lemma_offset_periodic(pos: int, offset: int, k: int, n: int)
    requires
        n > 0,
    ensures
        euclid_mod(pos + offset + k * n, n) == euclid_mod(pos + offset, n),
{
    vstd::arithmetic::div_mod::lemma_mod_multiples_vanish(k, pos + offset, n);
    assert(n * k + (pos + offset) == pos + offset + k * n) by (nonlinear_arith);
}

/// Measuring the distance back to the slot `d` steps behind the current position gives `d`
/// again, for every `d` smaller than the window: `distance_behind(get_pos(-d)) == d`.
pub proof fn lemma_distance_undoes_offset(pos: int, d: int, n: int)
    requires
        0 <= pos < n,
        0 <= d < n,
    ensures
        euclid_mod(pos - euclid_mod(pos - d, n), n) == d,
{
    if pos - d >= 0 {
        vstd::arithmetic::div_mod::lemma_small_mod((pos - d) as nat, n as nat);
        vstd::arithmetic::div_mod::lemma_small_mod(d as nat, n as nat);
    } else {
        vstd::arithmetic::div_mod::lemma_fundamental_div_mod_converse(pos - d, n, -1, pos - d + n);
        assert(pos - (pos - d + n) == d - n);
        vstd::arithmetic::div_mod::lemma_fundamental_div_mod_converse(d - n, n, -1, d);
    }
}

/// After a write at some offset, a read at the same offset gives the written byte back, and
/// every other slot keeps its byte.
pub proof fn lemma_read_after_write(contents: Seq<u8>, pos: int, offset: int, val: u8, other: int)
    requires
        contents.len() > 0,
        0 <= other < contents.len(),
    ensures
        ({
            let n = contents.len() as int;
            let slot = euclid_mod(pos + offset, n);
            &&& contents.update(slot, val)[slot] == val
            &&& other != slot ==> contents.update(slot, val)[other] == contents[other]
        }),
{
    let n = contents.len() as int;
    vstd::arithmetic::div_mod::lemma_mod_bound(pos + offset, n);
}

} // verus!
