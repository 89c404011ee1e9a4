//! Rolling average over a fixed-size circular buffer of frame-interval
//! samples, zero-filled so the average is defined from the first frame.

use vstd::prelude::*;
use vstd::arithmetic::mul::lemma_mul_inequality;
use vstd::arithmetic::div_mod::lemma_div_is_ordered;
use vstd::arithmetic::div_mod::lemma_div_multiples_vanish;

verus! {

/// Sum of a sequence of samples, as an unbounded integer.
pub open spec fn seq_sum(s: Seq<u64>) -> int
    decreases s.len(),
{
    if s.len() == 0 {
        0
    } else {
        s[0] + seq_sum(s.drop_first())
    }
}

/// The last `n` values of `h`, padded at the front with implicit zeros while
/// fewer than `n` values have been added.
pub open spec fn window_of(h: Seq<u64>, n: nat) -> Seq<u64> {
    if h.len() >= n {
        h.subrange(h.len() - n, h.len() as int)
    } else {
        Seq::new((n - h.len()) as nat, |i: int| 0u64) + h
    }
}

/// Ring-buffer slot arithmetic without modulo: the slot `k` positions past
/// the cursor, for `0 <= k < 2 * n`.
pub open spec fn wrap(k: int, n: int) -> int {
    if k < n {
        k
    } else {
        k - n
    }
}

proof fn lemma_seq_sum_push(s: Seq<u64>, v: u64)
    ensures
        seq_sum(s.push(v)) == seq_sum(s) + v,
    decreases s.len(),
{
    if s.len() == 0 {
        assert(s.push(v).drop_first() =~= s);
    } else {
        assert(s.push(v).drop_first() =~= s.drop_first().push(v));
        lemma_seq_sum_push(s.drop_first(), v);
    }
}

proof fn lemma_seq_sum_nonneg(s: Seq<u64>)
    ensures
        0 <= seq_sum(s),
    decreases s.len(),
{
    if s.len() > 0 {
        lemma_seq_sum_nonneg(s.drop_first());
    }
}

/// Pushing one value onto the history shifts the padded window left by one
/// and appends the value.
proof fn lemma_window_shift(h: Seq<u64>, n: nat, v: u64)
    requires
        n >= 1,
    ensures
        forall|j: int| 0 <= j < n - 1 ==> window_of(h.push(v), n)[j] == window_of(h, n)[j + 1],
        window_of(h.push(v), n)[n - 1] == v,
{
    let before = window_of(h, n);
    let after = window_of(h.push(v), n);
    assert forall|j: int| 0 <= j < n - 1 implies after[j] == before[j + 1] by {
        if h.len() >= n {
            assert(after[j] == h.push(v)[h.len() + 1 - n + j]);
            assert(before[j + 1] == h[h.len() - n + j + 1]);
        } else if h.len() + 1 == n {
            assert(after[j] == h.push(v)[j]);
            assert(before[j + 1] == h[j]);
        } else {
            if j < n - h.len() - 1 {
                assert(after[j] == 0u64);
                assert(before[j + 1] == 0u64);
            } else {
                assert(after[j] == h.push(v)[j - (n - h.len() - 1)]);
                assert(before[j + 1] == h[j + 1 - (n - h.len())]);
            }
        }
    }
    assert(after[n - 1] == h.push(v)[h.len() as int]);
}

/// Fixed-capacity ring buffer of the last `N` samples with a write cursor.
pub struct Averager<const N: usize> {
    pub window: Vec<u64>,
    pub index: usize,
    pub history: Ghost<Seq<u64>>,
}

impl<const N: usize> Averager<N> {
    /// Every sample ever added, oldest first.
    pub open spec fn history(self) -> Seq<u64> {
        self.history@
    }

    /// The buffer holds the last `N` samples (zero-padded), oldest at the
    /// cursor, in ring order.
    pub open spec fn wf(self) -> bool {
        &&& N >= 1
        &&& self.window.len() == N
        &&& self.index < N
        &&& forall|j: int|
            0 <= j < N ==> self.window@[wrap(self.index + j, N as int)] == #[trigger] window_of(
                self.history@,
                N as nat,
            )[j]
    }

    /// A zero-filled averager with the write cursor at the first slot: the
    /// average is defined before any add.
    pub fn new() -> (r: Averager<N>)
        requires
            N >= 1,
        ensures
            r.wf(),
            r.history() == Seq::<u64>::empty(),
            r.index == 0,
            r.window@ == Seq::new(N as nat, |i: int| 0u64),
    {
        let mut window: Vec<u64> = Vec::new();
        let mut i: usize = 0;
        while i < N
            invariant
                window.len() == i,
                i <= N,
                forall|j: int| 0 <= j < i ==> window@[j] == 0u64,
            decreases N - i,
        {
            window.push(0);
            i += 1;
        }
        let r = Averager { window, index: 0, history: Ghost(Seq::empty()) };
        proof {
            assert forall|j: int| 0 <= j < N implies r.window@[wrap(0 + j, N as int)]
                == #[trigger] window_of(r.history@, N as nat)[j] by {
                assert(window_of(Seq::<u64>::empty(), N as nat)[j] == 0u64);
            }
        }
        r
    }

    /// Records one sample: writes it at the cursor's slot (evicting the
    /// oldest), leaves every other slot alone, advances the cursor by one
    /// modulo the capacity, and returns the mean (by integer division) of
    /// the last `N` samples added, counting implicit zeros before `N`
    /// samples have been added.
    pub fn add(&mut self, value: u64) -> (r: u64)
        requires
            old(self).wf(),
        ensures
            final(self).wf(),
            final(self).history() == old(self).history().push(value),
            final(self).window@ == old(self).window@.update(old(self).index as int, value),
            final(self).index as int == (old(self).index + 1) % (N as int),
            r == seq_sum(window_of(final(self).history(), N as nat)) / (N as int),
    {
        self.window.set(self.index, value);
        self.index = if self.index + 1 == N {
            0
        } else {
            self.index + 1
        };
        proof {
            self.history@ = self.history@.push(value);
            if old(self).index + 1 == N {
                vstd::arithmetic::div_mod::lemma_mod_self_0(N as int);
            } else {
                vstd::arithmetic::div_mod::lemma_small_mod(
                    (old(self).index + 1) as nat,
                    N as nat,
                );
            }
        }
        let ghost new_window = window_of(self.history@, N as nat);

        proof {
            lemma_window_shift(old(self).history@, N as nat, value);
            assert forall|j: int| 0 <= j < N implies self.window@[wrap(self.index + j, N as int)]
                == new_window[j] by {
                let old_index = old(self).index as int;
                if j < N - 1 {
                    let slot = wrap(self.index + j, N as int);
                    assert(slot == wrap(old_index + (j + 1), N as int));
                    assert(slot != old_index);
                    assert(self.window@[slot] == old(self).window@[slot]);
                    assert(old(self).window@[slot] == window_of(old(self).history@, N as nat)[j
                        + 1]);
                } else {
                    assert(wrap(self.index + j, N as int) == old_index);
                }
            }
        }

        let mut sum: u128 = 0;
        let mut j: usize = 0;
        let mut cursor: usize = self.index;
        while j < N
            invariant
                self.wf(),
                new_window == window_of(self.history@, N as nat),
                0 <= j <= N,
                cursor == wrap(self.index + j, N as int),
                sum == seq_sum(new_window.take(j as int)),
                sum <= (j as int) * (u64::MAX as int),
            decreases N - j,
        {
            let v = self.window[cursor];
            proof {
                assert(new_window.take(j as int + 1) =~= new_window.take(j as int).push(
                    new_window[j as int],
                ));
                lemma_seq_sum_push(new_window.take(j as int), new_window[j as int]);
                lemma_mul_inequality(j as int + 1, N as int, u64::MAX as int);
                lemma_mul_inequality(N as int, u64::MAX as int, u64::MAX as int);
            }
            sum = sum + (v as u128);
            cursor = if cursor + 1 == N {
                0
            } else {
                cursor + 1
            };
            j += 1;
        }
        proof {
            assert(new_window.take(N as int) =~= new_window);
            lemma_seq_sum_nonneg(new_window);
            lemma_div_is_ordered(sum as int, (N as int) * (u64::MAX as int), N as int);
            lemma_div_multiples_vanish(u64::MAX as int, N as int);
        }
        (sum / (N as u128)) as u64
    }
}

} // verus!
