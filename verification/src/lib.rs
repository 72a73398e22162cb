//! A sliding window adapter over a sequence.
//!
//! Given a source sequence and a window size `n`, the adapter produces, on
//! demand, every contiguous run of `n` consecutive elements of the source,
//! advancing by one element per step. Each produced window is an independent
//! snapshot: later pulls never disturb windows handed out earlier. Elements
//! must be copyable by value, so that one element can appear in several
//! overlapping windows.

use std::collections::VecDeque;

use vstd::prelude::*;

verus! {

/// The full sequence of windows of size `n` over `s`: empty when `n` is zero
/// or larger than `s`, and otherwise the `s.len() - n + 1` contiguous runs of
/// `n` consecutive elements, in source order.
pub open spec fn windows_of<T>(s: Seq<T>, n: nat) -> Seq<Seq<T>> {
    if n == 0 || n > s.len() {
        Seq::empty()
    } else {
        Seq::new((s.len() - n + 1) as nat, |i: int| s.subrange(i, i + n))
    }
}

/// A sliding window adapter.
///
/// Created by [`Windows::new`] or by the
/// [`windows`](WindowedIterator::windows) method of [`WindowedIterator`].
/// Each call to [`next`](Windows::next) either produces the next window or
/// signals exhaustion; see that method's contract.
#[must_use]
pub struct Windows<T> {
    /// The adapted source sequence.
    pub source: Vec<T>,
    /// The position of the next source element still to be pulled.
    pub pos: usize,
    /// The window buffer: the most recently pulled elements, oldest first.
    pub window: VecDeque<T>,
    /// The number of elements in each produced window.
    pub window_size: usize,
}

impl<T: Copy> Windows<T> {
    /// Well-formedness: the buffer never exceeds the window size, and always
    /// holds exactly the elements of the source just before the pull
    /// position, in source order.
    pub open spec fn wf(&self) -> bool {
        &&& self.pos <= self.source@.len()
        &&& self.window@.len() <= self.window_size
        &&& self.window@.len() <= self.pos
        &&& self.window@ == self.source@.subrange(
            self.pos - self.window@.len(),
            self.pos as int,
        )
    }

    /// The source index at which the next window to be produced would begin.
    pub open spec fn next_start(&self) -> int {
        if self.window_size > 0 && self.window@.len() == self.window_size {
            self.pos - self.window_size + 1
        } else {
            self.pos - self.window@.len()
        }
    }

    /// The windows this adapter has yet to produce, in order.
    pub open spec fn remaining(&self) -> Seq<Seq<T>> {
        if self.window_size == 0 || self.next_start() + self.window_size > self.source@.len() {
            Seq::empty()
        } else {
            Seq::new(
                (self.source@.len() - self.next_start() - self.window_size + 1) as nat,
                |i: int| self.source@.subrange(
                    self.next_start() + i,
                    self.next_start() + i + self.window_size,
                ),
            )
        }
    }

    /// Create an adapter over `source` that produces every window of
    /// `window_size` consecutive elements. Construction is lazy: no element
    /// is consumed and the buffer starts empty.
    pub fn new(source: Vec<T>, window_size: usize) -> (r: Windows<T>)
        ensures
            r.wf(),
            r.source@ == source@,
            r.window_size == window_size,
            r.pos == 0,
            r.window@.len() == 0,
            r.remaining() == windows_of(source@, window_size as nat),
    {
        let r = Windows { source, pos: 0, window: VecDeque::with_capacity(window_size), window_size };
        proof {
            assert(r.window@ =~= r.source@.subrange(0, 0));
            assert(r.remaining() =~= windows_of(r.source@, window_size as nat));
        }
        r
    }

    /// Pull the next window, or signal exhaustion with `None`.
    ///
    /// A window is produced exactly when any remain: the first of them, a
    /// snapshot of `window_size` consecutive source elements, shifted one
    /// source position past the previous window. Exhaustion is sticky: once
    /// `None` is returned, no windows remain, and every later pull returns
    /// `None` again. Consumption is irreversible and bounded: the cursor
    /// never moves back, one pull consumes at most `window_size` elements,
    /// and a zero-size pull touches nothing at all.
    pub fn next(&mut self) -> (r: Option<VecDeque<T>>)
        requires
            old(self).wf(),
        ensures
            final(self).wf(),
            final(self).source@ == old(self).source@,
            final(self).window_size == old(self).window_size,
            old(self).pos <= final(self).pos <= old(self).pos + old(self).window_size,
            old(self).window_size == 0 ==> *final(self) == *old(self),
            r is Some <==> old(self).remaining().len() > 0,
            r matches Some(w) ==> w@ == old(self).remaining()[0]
                && final(self).remaining() == old(self).remaining().skip(1),
            r is None ==> final(self).remaining() == Seq::<Seq<T>>::empty(),
    {
        if self.window_size == 0 {
            return None;
        }

        if self.window.len() == self.window_size {
            let _ = self.window.pop_front();
            proof {
                assert(self.window@ =~= self.source@.subrange(
                    self.pos - self.window@.len(),
                    self.pos as int,
                ));
            }
        }

        let ghost start = self.pos - self.window@.len();

        while self.window.len() < self.window_size
            invariant
                self.wf(),
                self.window_size == old(self).window_size,
                self.window_size > 0,
                self.source@ == old(self).source@,
                self.pos - self.window@.len() == start,
                start == old(self).next_start(),
                start <= old(self).pos,
                old(self).pos <= self.pos,
            decreases self.window_size - self.window@.len(),
        {
            if self.pos < self.source.len() {
                let elem = self.source[self.pos];
                self.window.push_back(elem);
                self.pos = self.pos + 1;
                proof {
                    assert(self.window@ =~= self.source@.subrange(
                        self.pos - self.window@.len(),
                        self.pos as int,
                    ));
                }
            } else {
                proof {
                    assert(old(self).remaining() =~= Seq::<Seq<T>>::empty());
                    assert(self.remaining() =~= Seq::<Seq<T>>::empty());
                }
                return None;
            }
        }

        proof {
            assert(start + self.window_size <= self.source@.len());
            assert(old(self).remaining().len() > 0);
            assert(self.window@ == old(self).remaining()[0]);
            assert(self.remaining() =~= old(self).remaining().skip(1));
        }

        let mut snap: VecDeque<T> = VecDeque::new();
        let mut i: usize = 0;
        while i < self.window.len()
            invariant
                i <= self.window@.len(),
                snap@ == self.window@.subrange(0, i as int),
            decreases self.window@.len() - i,
        {
            let elem = self.window[i];
            snap.push_back(elem);
            proof {
                assert(snap@ =~= self.window@.subrange(0, i + 1));
            }
            i = i + 1;
        }
        proof {
            assert(snap@ =~= self.window@);
        }
        Some(snap)
    }
}

/// Anything that yields a sequence of copyable elements can be turned into a
/// sliding window adapter through [`windows`](WindowedIterator::windows).
pub trait WindowedIterator<T: Copy>: Sized {
    /// The sequence of elements this source yields, in order.
    spec fn elems(&self) -> Seq<T>;

    /// Return a sliding window adapter that produces every contiguous window
    /// of `window_size` consecutive elements of this source, oldest first,
    /// each shifted one element past the one before. A `window_size` of zero,
    /// or greater than the number of elements, gives an adapter that produces
    /// no windows at all. The adapter is lazy: nothing is consumed and its
    /// buffer is empty until the first window is pulled.
    fn windows(self, window_size: usize) -> (r: Windows<T>)
        ensures
            r.wf(),
            r.source@ == self.elems(),
            r.window_size == window_size,
            r.pos == 0,
            r.window@.len() == 0,
            r.remaining() == windows_of(self.elems(), window_size as nat),
    ;
}

impl<T: Copy> WindowedIterator<T> for Vec<T> {
    open spec fn elems(&self) -> Seq<T> {
        self@
    }

    fn windows(self, window_size: usize) -> (r: Windows<T>) {
        Windows::new(self, window_size)
    }
}

impl<T: Copy> WindowedIterator<T> for VecDeque<T> {
    open spec fn elems(&self) -> Seq<T> {
        self@
    }

    fn windows(self, window_size: usize) -> (r: Windows<T>) {
        let mut source: Vec<T> = Vec::new();
        let mut i: usize = 0;
        while i < self.len()
            invariant
                i <= self@.len(),
                source@ == self@.subrange(0, i as int),
            decreases self@.len() - i,
        {
            let elem = self[i];
            source.push(elem);
            proof {
                assert(source@ =~= self@.subrange(0, i + 1));
            }
            i = i + 1;
        }
        proof {
            assert(source@ =~= self@);
        }
        Windows::new(source, window_size)
    }
}

/// A window size of zero produces no windows, whatever the source.
pub proof fn lemma_zero_size_no_windows<T>(s: Seq<T>)
    ensures
        windows_of(s, 0).len() == 0,
{
}

/// A window size larger than the source produces no windows.
pub proof fn lemma_oversize_no_windows<T>(s: Seq<T>, n: nat)
    requires
        n > s.len(),
    ensures
        windows_of(s, n).len() == 0,
{
}

/// Every produced window has length exactly the window size.
pub proof fn lemma_window_length<T>(s: Seq<T>, n: nat, i: int)
    requires
        0 <= i < windows_of(s, n).len(),
    ensures
        windows_of(s, n)[i].len() == n,
{
}

/// For a positive window size no larger than the source, the number of
/// windows is the source length minus the window size, plus one.
pub proof fn lemma_window_count<T>(s: Seq<T>, n: nat)
    requires
        0 < n <= s.len(),
    ensures
        windows_of(s, n).len() == s.len() - n + 1,
{
}

/// Consecutive windows overlap in all but one element: dropping the first
/// element of a window gives the same sequence as dropping the last element
/// of the window after it.
pub proof fn lemma_window_overlap<T>(s: Seq<T>, n: nat, i: int)
    requires
        0 <= i,
        i + 1 < windows_of(s, n).len(),
    ensures
        windows_of(s, n)[i].skip(1) == windows_of(s, n)[i + 1].take(n - 1),
{
    assert(windows_of(s, n)[i].skip(1) =~= windows_of(s, n)[i + 1].take(n - 1));
}

/// Each window is the one before it shifted forward by one source position:
/// drop its oldest element and append the next source element.
pub proof fn lemma_window_shift<T>(s: Seq<T>, n: nat, i: int)
    requires
        0 < n,
        0 <= i,
        i + 1 < windows_of(s, n).len(),
    ensures
        windows_of(s, n)[i + 1] == windows_of(s, n)[i].skip(1).push(s[i + n]),
{
    assert(windows_of(s, n)[i + 1] =~= windows_of(s, n)[i].skip(1).push(s[i + n]));
}

} // verus!
