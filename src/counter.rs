//! Counters whose little-endian bytes are never zero.
//!
//! A counter of width `N` bytes is identified with its normalized index
//! `k` in `0..255^N`; byte `i` of the counter is `(k / 255^i) % 255 + 1`.
use vstd::arithmetic::div_mod::{
    lemma_div_denominator, lemma_fundamental_div_mod, lemma_fundamental_div_mod_converse,
};
use vstd::prelude::*;

verus! {

/// The widths a counter may have, in bytes.
pub open spec fn valid_width(width: nat) -> bool {
    width == 1 || width == 2 || width == 4 || width == 8
}

/// `255` to the power `n`: the number of counters of width `n`.
pub open spec fn pow255(n: nat) -> nat
    decreases n,
{
    if n == 0 {
        1
    } else {
        255 * pow255((n - 1) as nat)
    }
}

/// Byte `i` of the counter whose normalized index is `k`.
pub open spec fn digit(k: nat, i: nat) -> u8 {
    ((k / pow255(i)) % 255 + 1) as u8
}

/// The index that follows `k` among counters of width `width`.
pub open spec fn next_index(width: nat, k: nat) -> nat {
    (k + 1) % pow255(width)
}

/// The index that precedes `k` among counters of width `width`.
pub open spec fn prev_index(width: nat, k: nat) -> nat {
    ((k + pow255(width) - 1) % (pow255(width) as int)) as nat
}

/// The number of forward steps from index `a` to index `b`.
pub open spec fn index_distance(width: nat, a: nat, b: nat) -> int {
    (b - a) % (pow255(width) as int)
}

/// The little-endian bytes of the counter of width `width` with index `k`.
pub open spec fn bytes_of_index(width: nat, k: nat) -> Seq<u8> {
    Seq::new(width, |i: int| digit(k, i as nat))
}

/// No byte of `b` is zero.
pub open spec fn all_nonzero(b: Seq<u8>) -> bool {
    forall|i: int| 0 <= i < b.len() ==> b[i] != 0
}

/// The normalized index of little-endian bytes: `sum (b[i] - 1) * 255^i`.
pub open spec fn index_of_bytes(b: Seq<u8>) -> int
    decreases b.len(),
{
    if b.len() == 0 {
        0
    } else {
        (b[0] - 1) + 255 * index_of_bytes(b.drop_first())
    }
}

pub proof fn lemma_pow255_positive(n: nat)
    ensures
        pow255(n) >= 1,
    decreases n,
{
    if n > 0 {
        lemma_pow255_positive((n - 1) as nat);
    }
}

pub proof fn lemma_pow255_monotone(n: nat, m: nat)
    requires
        n <= m,
    ensures
        pow255(n) <= pow255(m),
    decreases m,
{
    if n < m {
        lemma_pow255_monotone(n, (m - 1) as nat);
        lemma_pow255_positive((m - 1) as nat);
    }
}

pub proof fn lemma_pow255_values()
    ensures
        pow255(1) == 255,
        pow255(2) == 65025,
        pow255(4) == 4228250625,
        pow255(8) == 17878103347812890625,
{
    reveal_with_fuel(pow255, 9);
}

/// Dropping the lowest byte divides the index by 255.
proof fn lemma_bytes_of_index_drop(width: nat, k: nat)
    requires
        width >= 1,
    ensures
        bytes_of_index(width, k).drop_first() =~= bytes_of_index((width - 1) as nat, k / 255),
        bytes_of_index(width, k)[0] == (k % 255 + 1) as u8,
{
    assert(pow255(0) == 1);
    assert(k / 1 == k);
    assert forall|i: int| 0 <= i < width - 1 implies #[trigger] digit(k, (i + 1) as nat) == digit(
        k / 255,
        i as nat,
    ) by {
        lemma_pow255_positive(i as nat);
        lemma_div_denominator(k as int, 255, pow255(i as nat) as int);
        assert(pow255((i + 1) as nat) == 255 * pow255(i as nat));
    }
}

/// Encoding an index as bytes and reading it back gives the index.
pub proof fn lemma_index_of_bytes_of_index(width: nat, k: nat)
    requires
        k < pow255(width),
    ensures
        index_of_bytes(bytes_of_index(width, k)) == k,
    decreases width,
{
    if width == 0 {
        assert(pow255(0) == 1);
    } else {
        lemma_bytes_of_index_drop(width, k);
        let q = k / 255;
        assert(q < pow255((width - 1) as nat)) by {
            assert(pow255(width) == 255 * pow255((width - 1) as nat));
        }
        lemma_index_of_bytes_of_index((width - 1) as nat, q);
        assert(k == 255 * q + k % 255);
    }
}

/// The index of nonzero bytes is in range.
pub proof fn lemma_index_of_bytes_bound(b: Seq<u8>)
    requires
        all_nonzero(b),
    ensures
        0 <= index_of_bytes(b) < pow255(b.len()),
    decreases b.len(),
{
    if b.len() > 0 {
        let rest = b.drop_first();
        assert(all_nonzero(rest)) by {
            assert forall|i: int| 0 <= i < rest.len() implies rest[i] != 0 by {
                assert(rest[i] == b[i + 1]);
            }
        }
        lemma_index_of_bytes_bound(rest);
        assert(b[0] != 0);
        let r = index_of_bytes(rest);
        let p = pow255(rest.len());
        assert(r <= p - 1);
        assert(255 * r <= 255 * (p - 1)) by (nonlinear_arith)
            requires
                r <= p - 1,
        ;
    }
}

/// Nonzero bytes are the bytes of their own index.
pub proof fn lemma_bytes_of_index_of_bytes(b: Seq<u8>)
    requires
        all_nonzero(b),
    ensures
        bytes_of_index(b.len(), index_of_bytes(b) as nat) =~= b,
    decreases b.len(),
{
    if b.len() > 0 {
        let rest = b.drop_first();
        assert(all_nonzero(rest)) by {
            assert forall|i: int| 0 <= i < rest.len() implies rest[i] != 0 by {
                assert(rest[i] == b[i + 1]);
            }
        }
        lemma_index_of_bytes_bound(rest);
        lemma_bytes_of_index_of_bytes(rest);
        let k = index_of_bytes(b);
        let r = index_of_bytes(rest);
        assert(b[0] != 0);
        lemma_fundamental_div_mod_converse((k) as int, (255) as int, (r) as int, (b[0] - 1) as int);
        lemma_bytes_of_index_drop(b.len(), k as nat);
        let s = bytes_of_index(b.len(), k as nat);
        assert forall|i: int| 0 <= i < b.len() implies s[i] == b[i] by {
            if i > 0 {
                assert(s[i] == s.drop_first()[i - 1]);
                assert(b[i] == rest[i - 1]);
            }
        }
    }
}

/// `next` applied `j` times to the index `k`.
pub open spec fn next_iter(width: nat, k: nat, j: nat) -> nat
    decreases j,
{
    if j == 0 {
        k
    } else {
        next_index(width, next_iter(width, k, (j - 1) as nat))
    }
}

/// Stepping forward and then back, or back and then forward, returns to the
/// same counter.
pub proof fn lemma_prev_next_inverse(width: nat, k: nat)
    requires
        valid_width(width),
        k < pow255(width),
    ensures
        prev_index(width, next_index(width, k)) == k,
        next_index(width, prev_index(width, k)) == k,
{
    let p = pow255(width);
    lemma_pow255_positive(width);
    if k + 1 == p {
        lemma_fundamental_div_mod_converse((k + 1) as int, p as int, (1) as int, (0) as int);
        lemma_fundamental_div_mod_converse((p - 1) as int, p as int, (0) as int, k as int);
    } else {
        lemma_fundamental_div_mod_converse((k + 1) as int, p as int, (0) as int, (k + 1) as int);
        lemma_fundamental_div_mod_converse((k + p) as int, p as int, (1) as int, k as int);
    }
    if k == 0 {
        lemma_fundamental_div_mod_converse((p - 1) as int, p as int, (0) as int, (p - 1) as int);
        lemma_fundamental_div_mod_converse(p as int, p as int, (1) as int, (0) as int);
    } else {
        lemma_fundamental_div_mod_converse((k + p - 1) as int, p as int, (1) as int, (k - 1) as int);
        lemma_fundamental_div_mod_converse(k as int, p as int, (0) as int, k as int);
    }
}

/// The largest counter is followed by the smallest, and the smallest is
/// preceded by the largest.
pub proof fn lemma_wrap_around(width: nat)
    requires
        valid_width(width),
    ensures
        next_index(width, (pow255(width) - 1) as nat) == 0,
        prev_index(width, 0) == pow255(width) - 1,
{
    let p = pow255(width);
    lemma_pow255_positive(width);
    lemma_fundamental_div_mod_converse(p as int, p as int, (1) as int, (0) as int);
    lemma_fundamental_div_mod_converse((p - 1) as int, p as int, (0) as int, (p - 1) as int);
}

/// Every byte of every counter, and so of the counters before and after it,
/// lies in `0x01..=0xFF`.
pub proof fn lemma_bytes_nonzero(width: nat, k: nat)
    requires
        valid_width(width),
        k < pow255(width),
    ensures
        all_nonzero(bytes_of_index(width, k)),
        all_nonzero(bytes_of_index(width, next_index(width, k))),
        all_nonzero(bytes_of_index(width, prev_index(width, k))),
{
}

/// A counter is one step from its successor, and the largest counter is one
/// step from the smallest.
pub proof fn lemma_distance_to_next(width: nat, k: nat)
    requires
        valid_width(width),
        k < pow255(width),
    ensures
        index_distance(width, k, next_index(width, k)) == 1,
        index_distance(width, (pow255(width) - 1) as nat, 0) == 1,
{
    let p = pow255(width);
    lemma_pow255_values();
    if k + 1 == p {
        lemma_fundamental_div_mod_converse((k + 1) as int, p as int, (1) as int, (0) as int);
        lemma_fundamental_div_mod_converse((0 - k) as int, p as int, (-1) as int, (1) as int);
    } else {
        lemma_fundamental_div_mod_converse((k + 1) as int, p as int, (0) as int, (k + 1) as int);
        lemma_fundamental_div_mod_converse((1) as int, p as int, (0) as int, (1) as int);
    }
    lemma_fundamental_div_mod_converse((1 - p) as int, p as int, (-1) as int, (1) as int);
}

/// `next` applied `j` times adds `j` modulo the number of counters.
pub proof fn lemma_next_iter(width: nat, k: nat, j: nat)
    requires
        valid_width(width),
        k < pow255(width),
    ensures
        next_iter(width, k, j) == (k + j) % pow255(width),
    decreases j,
{
    let p = pow255(width) as int;
    lemma_pow255_positive(width);
    if j > 0 {
        lemma_next_iter(width, k, (j - 1) as nat);
        let prev = (k + j - 1) % p;
        let q = (k + j - 1) / p;
        lemma_fundamental_div_mod((k + j - 1) as int, p);
        if prev + 1 == p {
            assert((q + 1) * p == q * p + p) by (nonlinear_arith);
            lemma_fundamental_div_mod_converse((prev + 1) as int, (p) as int, (1) as int, (0) as int);
            lemma_fundamental_div_mod_converse((k + j) as int, (p) as int, (q + 1) as int, (0) as int);
        } else {
            lemma_fundamental_div_mod_converse((prev + 1) as int, (p) as int, (0) as int, (prev + 1) as int);
            lemma_fundamental_div_mod_converse((k + j) as int, (p) as int, (q) as int, (prev + 1) as int);
        }
    } else {
        lemma_fundamental_div_mod_converse(k as int, p, 0, k as int);
    }
}

/// Starting from any counter, the first `255^N` steps of `next` visit every
/// counter of the width.
pub proof fn lemma_full_cycle(width: nat, k: nat)
    requires
        valid_width(width),
        k < pow255(width),
    ensures
        Set::new(|m: nat| exists|j: nat| j < pow255(width) && m == next_iter(width, k, j))
            =~= Set::new(|m: nat| m < pow255(width)),
{
    let p = pow255(width) as int;
    let visited = Set::new(|m: nat| exists|j: nat| j < pow255(width) && m == next_iter(width, k, j));
    let all = Set::new(|m: nat| m < pow255(width));
    lemma_pow255_positive(width);
    assert forall|m: nat| #[trigger] all.contains(m) implies visited.contains(m) by {
        let j: nat = if m >= k {
            (m - k) as nat
        } else {
            (m + p - k) as nat
        };
        lemma_next_iter(width, k, j);
        if m >= k {
            lemma_fundamental_div_mod_converse((k + j) as int, p, 0, m as int);
        } else {
            lemma_fundamental_div_mod_converse((k + j) as int, p, 1, m as int);
        }
    }
    assert forall|m: nat| #[trigger] visited.contains(m) implies all.contains(m) by {
        let j = choose|j: nat| j < pow255(width) && m == next_iter(width, k, j);
        lemma_next_iter(width, k, j);
    }
}

/// Counters of one width with the same bytes are the same counter.
pub proof fn lemma_bytes_determine_counter(c: Counter, d: Counter)
    requires
        c.wf(),
        d.wf(),
        c.width_spec() == d.width_spec(),
        c.bytes() == d.bytes(),
    ensures
        c == d,
{
    lemma_index_of_bytes_of_index(c.width_spec(), c.index_spec());
    lemma_index_of_bytes_of_index(d.width_spec(), d.index_spec());
}

/// A counter of a fixed width whose little-endian bytes are all nonzero.
///
/// The counter is kept as its normalized index, from which its bytes follow.
#[derive(Clone, Copy, Debug, PartialEq, Eq)]
pub struct Counter {
    width: usize,
    index: u64,
}

/// The number of counters of width `width`, for a valid width.
pub(crate) fn cardinality(width: usize) -> (r: u64)
    requires
        valid_width(width as nat),
    ensures
        r as nat == pow255(width as nat),
{
    proof {
        lemma_pow255_values();
    }
    if width == 1 {
        255
    } else if width == 2 {
        65025
    } else if width == 4 {
        4228250625
    } else {
        17878103347812890625
    }
}

impl Counter {
    /// Width of the counter in bytes.
    pub closed spec fn width_spec(&self) -> nat {
        self.width as nat
    }

    /// The normalized index of the counter.
    pub closed spec fn index_spec(&self) -> nat {
        self.index as nat
    }

    pub open spec fn wf(&self) -> bool {
        valid_width(self.width_spec()) && self.index_spec() < pow255(self.width_spec())
    }

    /// The little-endian bytes of the counter.
    pub open spec fn bytes(&self) -> Seq<u8> {
        bytes_of_index(self.width_spec(), self.index_spec())
    }

    /// Width of the counter in bytes.
    pub fn width(&self) -> (r: usize)
        ensures
            r as nat == self.width_spec(),
    {
        self.width
    }

    /// The normalized index of the counter.
    pub fn index(&self) -> (r: u64)
        ensures
            r as nat == self.index_spec(),
    {
        self.index
    }

    /// The smallest counter, all bytes `0x01`.
    pub fn min_counter(width: usize) -> (r: Counter)
        requires
            valid_width(width as nat),
        ensures
            r.wf(),
            r.width_spec() == width,
            r.index_spec() == 0,
    {
        proof {
            lemma_pow255_positive(width as nat);
        }
        Counter { width, index: 0 }
    }

    /// The largest counter, all bytes `0xFF`.
    pub fn max_counter(width: usize) -> (r: Counter)
        requires
            valid_width(width as nat),
        ensures
            r.wf(),
            r.width_spec() == width,
            r.index_spec() == pow255(width as nat) - 1,
    {
        proof {
            lemma_pow255_positive(width as nat);
        }
        Counter { width, index: cardinality(width) - 1 }
    }

    /// The largest normalized index of width `width`: `255^width - 1`.
    pub fn max_normalized(width: usize) -> (r: u64)
        requires
            valid_width(width as nat),
        ensures
            r == pow255(width as nat) - 1,
    {
        proof {
            lemma_pow255_positive(width as nat);
        }
        cardinality(width) - 1
    }

    /// The counter with normalized index `index`, or `None` when the index is
    /// out of range for the width.
    pub fn from_index(width: usize, index: u64) -> (r: Option<Counter>)
        requires
            valid_width(width as nat),
        ensures
            r is Some <==> index < pow255(width as nat),
            r matches Some(c) ==> c.wf() && c.width_spec() == width && c.index_spec() == index,
    {
        if index < cardinality(width) {
            Some(Counter { width, index })
        } else {
            None
        }
    }

    /// The counter whose little-endian bytes are `bytes`, or `None` when
    /// their number differs from `width` or one of them is zero.
    pub fn from_le_bytes(width: usize, bytes: &[u8]) -> (r: Option<Counter>)
        requires
            valid_width(width as nat),
        ensures
            r is Some <==> bytes@.len() == width && all_nonzero(bytes@),
            r matches Some(c) ==> c.wf() && c.width_spec() == width && c.index_spec()
                == index_of_bytes(bytes@) && c.bytes() == bytes@,
    {
        if bytes.len() != width {
            return None;
        }
        let mut k: u64 = 0;
        let mut i: usize = width;
        while i > 0
            invariant
                i <= width,
                width == bytes@.len(),
                valid_width(width as nat),
                all_nonzero(bytes@.subrange(i as int, width as int)),
                k as int == index_of_bytes(bytes@.subrange(i as int, width as int)),
            decreases i,
        {
            let b = bytes[i - 1];
            if b == 0 {
                return None;
            }
            let ghost tail = bytes@.subrange(i as int, width as int);
            let ghost longer = bytes@.subrange(i - 1, width as int);
            proof {
                assert(longer.drop_first() =~= tail);
                assert(all_nonzero(longer)) by {
                    assert forall|j: int| 0 <= j < longer.len() implies longer[j] != 0 by {
                        if j > 0 {
                            assert(longer[j] == tail[j - 1]);
                        }
                    }
                }
                lemma_index_of_bytes_bound(longer);
                lemma_pow255_monotone(longer.len(), 8);
                lemma_pow255_values();
            }
            k = k * 255 + (b - 1) as u64;
            i = i - 1;
        }
        proof {
            assert(bytes@.subrange(0, width as int) =~= bytes@);
            lemma_index_of_bytes_bound(bytes@);
            lemma_bytes_of_index_of_bytes(bytes@);
        }
        Some(Counter { width, index: k })
    }

    /// The counter after this one; the largest counter is followed by the smallest.
    pub fn next(&self) -> (r: Counter)
        requires
            self.wf(),
        ensures
            r.wf(),
            r.width_spec() == self.width_spec(),
            r.index_spec() == next_index(self.width_spec(), self.index_spec()),
    {
        let card = cardinality(self.width);
        if self.index == card - 1 {
            proof {
                lemma_fundamental_div_mod_converse((self.index + 1) as int, card as int, (1) as int, (0) as int);
            }
            Counter { width: self.width, index: 0 }
        } else {
            proof {
                lemma_fundamental_div_mod_converse((self.index + 1) as int, card as int, (0) as int, (self.index + 1) as int);
            }
            Counter { width: self.width, index: self.index + 1 }
        }
    }

    /// The counter before this one; the smallest counter is preceded by the largest.
    pub fn prev(&self) -> (r: Counter)
        requires
            self.wf(),
        ensures
            r.wf(),
            r.width_spec() == self.width_spec(),
            r.index_spec() == prev_index(self.width_spec(), self.index_spec()),
    {
        let card = cardinality(self.width);
        if self.index == 0 {
            proof {
                lemma_fundamental_div_mod_converse((card - 1) as int, card as int, (0) as int, (card - 1) as int);
            }
            Counter { width: self.width, index: card - 1 }
        } else {
            proof {
                lemma_fundamental_div_mod_converse((self.index + card - 1) as int, card as int, (1) as int, (self.index - 1) as int);
            }
            Counter { width: self.width, index: self.index - 1 }
        }
    }

    /// Advances the counter and returns the value it had before.
    pub fn pop(&mut self) -> (r: Counter)
        requires
            old(self).wf(),
        ensures
            r == *old(self),
            final(self).wf(),
            final(self).width_spec() == old(self).width_spec(),
            final(self).index_spec() == next_index(old(self).width_spec(), old(self).index_spec()),
    {
        let out = *self;
        *self = self.next();
        out
    }

    /// Moves the counter one step back.
    pub fn push(&mut self)
        requires
            old(self).wf(),
        ensures
            final(self).wf(),
            final(self).width_spec() == old(self).width_spec(),
            final(self).index_spec() == prev_index(old(self).width_spec(), old(self).index_spec()),
    {
        *self = self.prev();
    }

    /// The number of `next` steps from this counter to `other`:
    /// `(index(other) - index(self)) mod 255^N`.
    pub fn distance(&self, other: &Counter) -> (r: u64)
        requires
            self.wf(),
            other.wf(),
            self.width_spec() == other.width_spec(),
        ensures
            r as int == index_distance(self.width_spec(), self.index_spec(), other.index_spec()),
    {
        let card = cardinality(self.width);
        if self.index <= other.index {
            proof {
                lemma_fundamental_div_mod_converse((other.index - self.index) as int, card as int, (0) as int, (other.index - self.index) as int);
            }
            other.index - self.index
        } else {
            proof {
                lemma_fundamental_div_mod_converse((other.index - self.index) as int, card as int, (-1) as int, (card - self.index + other.index) as int);
            }
            card - self.index + other.index
        }
    }
}

} // verus!
