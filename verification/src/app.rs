//! The bounded tempo-change history kept for the dashboard.
//!
//! The history is a FIFO ring of at most `HISTORY_CAP` entries, newest at
//! the back: inserts past the cap evict the oldest entry. The dashboard shows
//! the newest `HISTORY_DISPLAY` entries, newest first.

use std::collections::VecDeque;
use vstd::prelude::*;

verus! {

pub const HISTORY_CAP: usize = 128;

pub const HISTORY_DISPLAY: usize = 5;

/// Bounded FIFO history, oldest first.
pub struct History<T> {
    items: VecDeque<T>,
}

/// The last `n` entries of `s`, newest first.
pub open spec fn newest_first<T>(s: Seq<T>, n: nat) -> Seq<T> {
    Seq::new(n, |k: int| s[s.len() - 1 - k])
}

/// What the history holds after recording `xs` in order from empty: the
/// newest `HISTORY_CAP` of them, oldest first.
pub open spec fn kept<T>(xs: Seq<T>) -> Seq<T> {
    if xs.len() <= HISTORY_CAP {
        xs
    } else {
        xs.skip(xs.len() - HISTORY_CAP)
    }
}

impl<T> View for History<T> {
    type V = Seq<T>;

    closed spec fn view(&self) -> Seq<T> {
        self.items@
    }
}

impl<T> History<T> {
    #[verifier::type_invariant]
    spec fn bounded(self) -> bool {
        self.items@.len() <= HISTORY_CAP
    }
}

impl<T: Copy> History<T> {
    /// An empty history.
    pub fn new() -> (h: Self)
        ensures
            h@ == Seq::<T>::empty(),
    {
        History { items: VecDeque::with_capacity(HISTORY_CAP) }
    }

    /// Number of entries held; never more than `HISTORY_CAP`.
    pub fn len(&self) -> (n: usize)
        ensures
            n == self@.len(),
            n <= HISTORY_CAP,
    {
        proof {
            use_type_invariant(self);
        }
        self.items.len()
    }

    pub fn is_empty(&self) -> (b: bool)
        ensures
            b == (self@.len() == 0),
    {
        self.items.len() == 0
    }

    /// Append `x` as the newest entry, evicting the oldest one when full.
    pub fn push(&mut self, x: T)
        ensures
            final(self)@ == (if old(self)@.len() == HISTORY_CAP {
                old(self)@.skip(1).push(x)
            } else {
                old(self)@.push(x)
            }),
            final(self)@.len() <= HISTORY_CAP,
    {
        proof {
            use_type_invariant(&*self);
        }
        let mut items = VecDeque::new();
        std::mem::swap(&mut items, &mut self.items);
        if items.len() == HISTORY_CAP {
            let _ = items.pop_front();
        }
        items.push_back(x);
        self.items = items;
    }

    /// Oldest entry.
    pub fn front(&self) -> (r: Option<T>)
        ensures
            r == (if self@.len() == 0 {
                None
            } else {
                Some(self@[0])
            }),
    {
        if self.items.len() == 0 {
            None
        } else {
            Some(self.items[0])
        }
    }

    /// Newest entry.
    pub fn back(&self) -> (r: Option<T>)
        ensures
            r == (if self@.len() == 0 {
                None
            } else {
                Some(self@.last())
            }),
    {
        let n = self.items.len();
        if n == 0 {
            None
        } else {
            Some(self.items[n - 1])
        }
    }

    /// Every entry, oldest first.
    pub fn to_vec(&self) -> (v: Vec<T>)
        ensures
            v@ == self@,
    {
        let mut v: Vec<T> = Vec::new();
        let mut i: usize = 0;
        while i < self.items.len()
            invariant
                i <= self.items@.len(),
                v@ == self.items@.take(i as int),
            decreases self.items@.len() - i,
        {
            v.push(self.items[i]);
            assert(self.items@.take(i + 1) == self.items@.take(i as int).push(self.items@[i as int]));
            i = i + 1;
        }
        assert(self.items@.take(self.items@.len() as int) == self.items@);
        v
    }

    /// The newest `HISTORY_DISPLAY` entries (fewer when the history is
    /// shorter), newest first.
    pub fn recent(&self) -> (v: Vec<T>)
        ensures
            v@ == newest_first(
                self@,
                if self@.len() < HISTORY_DISPLAY {
                    self@.len()
                } else {
                    HISTORY_DISPLAY as nat
                },
            ),
    {
        let len = self.items.len();
        let take = if len < HISTORY_DISPLAY {
            len
        } else {
            HISTORY_DISPLAY
        };
        let mut v: Vec<T> = Vec::new();
        let mut k: usize = 0;
        while k < take
            invariant
                k <= take <= len,
                len == self.items@.len(),
                v@ == newest_first(self.items@, k as nat),
            decreases take - k,
        {
            v.push(self.items[len - 1 - k]);
            assert(v@ =~= newest_first(self.items@, (k + 1) as nat));
            k = k + 1;
        }
        v
    }
}

/// Recording one more entry keeps `kept` in step.
pub proof fn lemma_push_keeps_newest<T>(h: Seq<T>, xs: Seq<T>, x: T)
    requires
        h == kept(xs),
    ensures
        (if h.len() == HISTORY_CAP {
            h.skip(1).push(x)
        } else {
            h.push(x)
        }) == kept(xs.push(x)),
{
    let ys = xs.push(x);
    if xs.len() < HISTORY_CAP {
    } else if xs.len() == HISTORY_CAP {
        assert(h.skip(1).push(x) =~= ys.skip(ys.len() - HISTORY_CAP));
    } else {
        assert(h.skip(1).push(x) =~= ys.skip(ys.len() - HISTORY_CAP));
    }
}

/// Whatever was recorded, the history holds exactly the newest
/// `HISTORY_CAP` entries, oldest first, and its newest entry is the last
/// one recorded.
pub proof fn lemma_history_is_fifo<T>(xs: Seq<T>)
    ensures
        kept(xs).len() <= HISTORY_CAP,
        kept(xs).len() == (if xs.len() < HISTORY_CAP {
            xs.len()
        } else {
            HISTORY_CAP as nat
        }),
        forall|i: int| 0 <= i < kept(xs).len() ==> #[trigger] kept(xs)[i] == xs[xs.len() - kept(
            xs,
        ).len() + i],
{
}

} // verus!
