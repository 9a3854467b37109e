//! Fixed-capacity circular buffer for time-series chart data.
//!
//! Stores the most recent `capacity` samples; the oldest are dropped when
//! the buffer is full. Values are read in insertion order, oldest first.
use vstd::prelude::*;

verus! {

/// The last `n` elements of `s`, or all of them when it has fewer.
pub open spec fn newest<A>(s: Seq<A>, n: nat) -> Seq<A> {
    if s.len() <= n {
        s
    } else {
        s.skip(s.len() - n)
    }
}

pub struct RingBuffer<T> {
    buf: Vec<T>,
    head: usize,
    cap: usize,
}

impl<T: Copy> RingBuffer<T> {
    /// The samples held, oldest first.
    pub closed spec fn view(&self) -> Seq<T> {
        self.buf@.skip(self.head as int) + self.buf@.take(self.head as int)
    }

    pub closed spec fn spec_capacity(&self) -> nat {
        self.cap as nat
    }

    /// The buffer's internal consistency: the storage grows up to the
    /// capacity, and until it is full the write position is its end.
    pub closed spec fn wf(&self) -> bool {
        &&& self.buf@.len() <= self.cap
        &&& (self.cap == 0 ==> self.head == 0)
        &&& (self.cap > 0 ==> self.head < self.cap)
        &&& (self.buf@.len() < self.cap ==> self.head == self.buf@.len())
    }

    /// Well-formed, empty, and keeping up to `cap` samples.
    pub open spec fn fresh_with(&self, cap: nat) -> bool {
        &&& self.wf()
        &&& self.view() == Seq::<T>::empty()
        &&& self.spec_capacity() == cap
    }

    /// A well-formed buffer never holds more samples than its capacity.
    pub proof fn lemma_within_capacity(&self)
        requires
            self.wf(),
        ensures
            self.view().len() <= self.spec_capacity(),
    {
    }

    /// An empty buffer that keeps up to `capacity` samples.
    pub fn new(capacity: usize) -> (r: Self)
        ensures
            r.wf(),
            r.view() == Seq::<T>::empty(),
            r.spec_capacity() == capacity,
    {
        let r = RingBuffer { buf: Vec::new(), head: 0, cap: capacity };
        assert(r.view() =~= Seq::<T>::empty());
        r
    }

    /// Appends a sample, dropping the oldest when the buffer is full.
    pub fn push(&mut self, value: T)
        requires
            old(self).wf(),
            old(self).spec_capacity() > 0,
        ensures
            final(self).wf(),
            final(self).spec_capacity() == old(self).spec_capacity(),
            final(self).view() == (if old(self).view().len() < old(self).spec_capacity() {
                old(self).view().push(value)
            } else {
                old(self).view().drop_first().push(value)
            }),
            final(self).view() == newest(old(self).view().push(value), old(self).spec_capacity()),
            final(self).view().len() <= final(self).spec_capacity(),
    {
        let ghost old_buf = self.buf@;
        if self.buf.len() < self.cap {
            self.buf.push(value);
            self.head = if self.head + 1 == self.cap {
                0
            } else {
                self.head + 1
            };
            proof {
                if self.buf@.len() < self.cap {
                    assert(self.view() =~= old_buf.push(value));
                } else {
                    assert(self.head == 0);
                    assert(self.view() =~= old_buf.push(value));
                }
            }
        } else {
            let h = self.head;
            self.buf.set(h, value);
            self.head = if h + 1 == self.cap {
                0
            } else {
                h + 1
            };
            proof {
                let ov = old_buf.skip(h as int) + old_buf.take(h as int);
                assert(ov.len() == self.cap);
                if h + 1 < self.cap {
                    assert(self.view() =~= ov.drop_first().push(value));
                } else {
                    assert(self.view() =~= ov.drop_first().push(value));
                }
                let t = ov.push(value);
                assert(ov.drop_first().push(value) =~= t.skip(t.len() - self.cap));
            }
        }
    }

    /// Number of samples held.
    pub fn len(&self) -> (n: usize)
        requires
            self.wf(),
        ensures
            n == self.view().len(),
            n <= self.spec_capacity(),
    {
        self.buf.len()
    }

    /// Maximum number of samples held.
    pub fn capacity(&self) -> (n: usize)
        ensures
            n == self.spec_capacity(),
    {
        self.cap
    }

    pub fn is_empty(&self) -> (b: bool)
        requires
            self.wf(),
        ensures
            b == (self.view().len() == 0),
    {
        self.buf.len() == 0
    }

    /// The most recently pushed sample, if any.
    pub fn latest(&self) -> (r: Option<T>)
        requires
            self.wf(),
        ensures
            self.view().len() == 0 ==> r is None,
            self.view().len() > 0 ==> r == Some(self.view().last()),
    {
        if self.buf.len() == 0 {
            return None;
        }
        let index = if self.head == 0 {
            self.buf.len() - 1
        } else {
            self.head - 1
        };
        proof {
            let v = self.view();
            if self.head == 0 {
                assert(v =~= self.buf@);
            } else {
                assert(v.last() == self.buf@[self.head - 1]);
            }
        }
        Some(self.buf[index])
    }

    /// The samples held, oldest first.
    pub fn values(&self) -> (r: Vec<T>)
        requires
            self.wf(),
        ensures
            r@ == self.view(),
    {
        let mut out: Vec<T> = Vec::new();
        let n = self.buf.len();
        let mut i: usize = self.head;
        while i < n
            invariant
                self.head <= i <= n,
                n == self.buf@.len(),
                self.wf(),
                out@ == self.buf@.subrange(self.head as int, i as int),
            decreases n - i,
        {
            out.push(self.buf[i]);
            i = i + 1;
            assert(out@ =~= self.buf@.subrange(self.head as int, i as int));
        }
        let mut j: usize = 0;
        while j < self.head
            invariant
                j <= self.head <= n,
                n == self.buf@.len(),
                self.wf(),
                out@ == self.buf@.skip(self.head as int) + self.buf@.take(j as int),
            decreases self.head - j,
        {
            out.push(self.buf[j]);
            j = j + 1;
            assert(out@ =~= self.buf@.skip(self.head as int) + self.buf@.take(j as int));
        }
        proof {
            if self.head > n {
                assert(false);
            }
        }
        out
    }
}

/// The push rule, applied sample after sample, keeps exactly the last
/// `cap` samples: pushing `x` onto the last `cap` samples of `s` gives the
/// last `cap` samples of `s` followed by `x`.
pub proof fn push_keeps_last<A>(s: Seq<A>, x: A, cap: nat)
    requires
        cap > 0,
    ensures
        ({
            let kept = if s.len() <= cap {
                s
            } else {
                s.skip(s.len() - cap)
            };
            let after = if kept.len() < cap {
                kept.push(x)
            } else {
                kept.drop_first().push(x)
            };
            let t = s.push(x);
            after == (if t.len() <= cap {
                t
            } else {
                t.skip(t.len() - cap)
            })
        }),
{
    let kept = if s.len() <= cap {
        s
    } else {
        s.skip(s.len() - cap)
    };
    let t = s.push(x);
    if s.len() < cap {
        assert(kept.push(x) =~= t);
    } else {
        assert(kept.drop_first().push(x) =~= t.skip(t.len() - cap));
    }
}

} // verus!
