//! A growable list that lives on the stack while it is small and moves
//! to the heap when it grows past its buffer.

use vstd::prelude::*;

verus! {

use vstd::array::array_fill_for_copy_types;

/// A list backed by a fixed stack buffer of `N` slots, or by a heap
/// vector once it outgrows them.
pub enum LocalStorageVec<T, const N: usize> {
    Stack { buf: [T; N], len: usize },
    Heap(Vec<T>),
}

impl<T, const N: usize> LocalStorageVec<T, N> {
    /// The elements the list holds, in order.
    pub open spec fn seq(&self) -> Seq<T> {
        match self {
            LocalStorageVec::Stack { buf, len } => buf@.take(*len as int),
            LocalStorageVec::Heap(v) => v@,
        }
    }

    /// A stack-backed list's length fits its buffer.
    pub open spec fn wf(&self) -> bool {
        match self {
            LocalStorageVec::Stack { len, .. } => *len <= N,
            LocalStorageVec::Heap(_) => true,
        }
    }

    /// The number of elements.
    pub fn len(&self) -> (r: usize)
        requires
            self.wf(),
        ensures
            r == self.seq().len(),
    {
        match self {
            LocalStorageVec::Stack { len, .. } => *len,
            LocalStorageVec::Heap(v) => v.len(),
        }
    }
}

impl<T: Copy + Default, const N: usize> LocalStorageVec<T, N> {
    /// Builds a list of the slice's elements: on the stack when they
    /// fit, on the heap otherwise.
    pub fn from_elements(value: &[T]) -> (r: Self)
        ensures
            r.wf(),
            r.seq() == value@,
    {
        let n = value.len();
        if n <= N {
            let mut buf: [T; N] = array_fill_for_copy_types(T::default());
            let mut i: usize = 0;
            while i < n
                invariant
                    n == value@.len(),
                    n <= N,
                    i <= n,
                    buf@.len() == N,
                    forall|j: int| 0 <= j < i ==> buf@[j] == value@[j],
                decreases n - i,
            {
                buf[i] = value[i];
                i += 1;
            }
            let r = LocalStorageVec::Stack { buf, len: n };
            proof {
                assert(r.seq() =~= value@);
            }
            r
        } else {
            let v = vstd::slice::slice_to_vec(value);
            LocalStorageVec::Heap(v)
        }
    }

    /// Removes and returns the last element, if any.
    pub fn pop(&mut self) -> (r: Option<T>)
        requires
            old(self).wf(),
        ensures
            final(self).wf(),
            old(self).seq().len() == 0 ==> r is None && final(self).seq() == old(self).seq(),
            old(self).seq().len() > 0 ==> r == Some(old(self).seq().last()) && final(self).seq()
                == old(self).seq().drop_last(),
    {
        match self {
            LocalStorageVec::Stack { buf, len } => {
                if *len == 0 {
                    None
                } else {
                    *len = *len - 1;
                    let x = buf[*len];
                    proof {
                        assert(buf@.take(*len as int) =~= buf@.take(*len as int + 1).drop_last());
                    }
                    Some(x)
                }
            },
            LocalStorageVec::Heap(v) => {
                let r = v.pop();
                proof {
                    if old(self).seq().len() > 0 {
                        assert(v@ =~= old(self).seq().drop_last());
                    }
                }
                r
            },
        }
    }

    /// Inserts `value` at position `idx`, shifting the rest right; a
    /// full stack buffer spills to the heap.
    pub fn insert(&mut self, idx: usize, value: T)
        requires
            old(self).wf(),
            idx <= old(self).seq().len(),
            old(self).seq().len() < usize::MAX,
        ensures
            final(self).wf(),
            final(self).seq() == old(self).seq().insert(idx as int, value),
    {
        let ghost s0 = self.seq();
        match self {
            LocalStorageVec::Stack { buf, len } => {
                let n = *len;
                if n < N {
                    let ghost b0 = buf@;
                    let mut i: usize = n;
                    while i > idx
                        invariant
                            idx <= i <= n,
                            n < N,
                            buf@.len() == N,
                            forall|j: int| 0 <= j <= i ==> buf@[j] == b0[j],
                            forall|j: int| i < j <= n ==> buf@[j] == b0[j - 1],
                        decreases i,
                    {
                        let x = buf[i - 1];
                        buf[i] = x;
                        i -= 1;
                    }
                    buf[idx] = value;
                    *len = n + 1;
                    proof {
                        assert(self.seq() =~= s0.insert(idx as int, value));
                    }
                } else {
                    // The buffer is full: move everything to the heap,
                    // with the new element in place.
                    let mut v: Vec<T> = Vec::new();
                    let mut i: usize = 0;
                    while i < idx
                        invariant
                            idx <= n == N,
                            i <= idx,
                            buf@.len() == N,
                            v@ =~= buf@.take(i as int),
                        decreases idx - i,
                    {
                        v.push(buf[i]);
                        proof {
                            assert(buf@.take(i as int + 1) =~= buf@.take(i as int).push(
                                buf@[i as int],
                            ));
                        }
                        i += 1;
                    }
                    v.push(value);
                    let mut i: usize = idx;
                    while i < n
                        invariant
                            idx <= i <= n == N,
                            buf@.len() == N,
                            v@ =~= buf@.take(idx as int).push(value) + buf@.subrange(
                                idx as int,
                                i as int,
                            ),
                        decreases n - i,
                    {
                        v.push(buf[i]);
                        proof {
                            assert(buf@.subrange(idx as int, i as int + 1) =~= buf@.subrange(
                                idx as int,
                                i as int,
                            ).push(buf@[i as int]));
                        }
                        i += 1;
                    }
                    proof {
                        assert(buf@.take(n as int) =~= buf@);
                        assert(v@ =~= s0.insert(idx as int, value));
                    }
                    *self = LocalStorageVec::Heap(v);
                }
            },
            LocalStorageVec::Heap(v) => {
                v.insert(idx, value);
            },
        }
    }

    /// Removes and returns the element at position `idx`, shifting the
    /// rest left.
    pub fn remove(&mut self, idx: usize) -> (r: T)
        requires
            old(self).wf(),
            idx < old(self).seq().len(),
        ensures
            final(self).wf(),
            r == old(self).seq()[idx as int],
            final(self).seq() == old(self).seq().remove(idx as int),
    {
        let ghost s0 = self.seq();
        match self {
            LocalStorageVec::Stack { buf, len } => {
                let n = *len;
                let x = buf[idx];
                let ghost b0 = buf@;
                let mut i: usize = idx;
                while i + 1 < n
                    invariant
                        idx <= i < n <= N,
                        buf@.len() == N,
                        forall|j: int| 0 <= j < i ==> j < idx ==> buf@[j] == b0[j],
                        forall|j: int| idx <= j < i ==> buf@[j] == b0[j + 1],
                        forall|j: int| i <= j < N ==> buf@[j] == b0[j],
                    decreases n - i,
                {
                    let y = buf[i + 1];
                    buf[i] = y;
                    i += 1;
                }
                *len = n - 1;
                proof {
                    assert(self.seq() =~= s0.remove(idx as int));
                }
                x
            },
            LocalStorageVec::Heap(v) => v.remove(idx),
        }
    }

    /// Reads the elements out into a vector, in order.
    pub fn to_vec(&self) -> (r: Vec<T>)
        requires
            self.wf(),
        ensures
            r@ == self.seq(),
    {
        let mut out: Vec<T> = Vec::new();
        match self {
            LocalStorageVec::Stack { buf, len } => {
                let mut i: usize = 0;
                while i < *len
                    invariant
                        *len <= N,
                        i <= *len,
                        buf@.len() == N,
                        out@ =~= buf@.take(*len as int).take(i as int),
                    decreases *len - i,
                {
                    out.push(buf[i]);
                    proof {
                        assert(buf@.take(*len as int).take(i as int + 1) =~= buf@.take(
                            *len as int,
                        ).take(i as int).push(buf@[i as int]));
                    }
                    i += 1;
                }
                proof {
                    assert(buf@.take(*len as int).take(*len as int) =~= buf@.take(*len as int));
                }
            },
            LocalStorageVec::Heap(v) => {
                let mut i: usize = 0;
                while i < v.len()
                    invariant
                        i <= v@.len(),
                        out@ =~= v@.take(i as int),
                    decreases v@.len() - i,
                {
                    out.push(v[i]);
                    proof {
                        assert(v@.take(i as int + 1) =~= v@.take(i as int).push(v@[i as int]));
                    }
                    i += 1;
                }
                proof {
                    assert(v@.take(v@.len() as int) =~= v@);
                }
            },
        }
        out
    }

    /// Consumes the list, yielding an iterator over its elements.
    pub fn into_iter(self) -> (r: LocalStorageVecIter<T, N>)
        requires
            self.wf(),
        ensures
            r.wf(),
            r.remaining() == self.seq(),
    {
        LocalStorageVecIter { inner: self, pos: 0 }
    }
}

/// Yields a list's elements front to back.
pub struct LocalStorageVecIter<T, const N: usize> {
    pub inner: LocalStorageVec<T, N>,
    pub pos: usize,
}

impl<T: Copy + Default, const N: usize> LocalStorageVecIter<T, N> {
    /// The elements not yet yielded.
    pub open spec fn remaining(&self) -> Seq<T> {
        self.inner.seq().skip(self.pos as int)
    }

    /// The cursor has not run past the elements.
    pub open spec fn wf(&self) -> bool {
        self.inner.wf() && self.pos <= self.inner.seq().len()
    }

    /// Yields the next element, if any.
    pub fn next(&mut self) -> (r: Option<T>)
        requires
            old(self).wf(),
        ensures
            final(self).wf(),
            old(self).remaining().len() == 0 ==> r is None && final(self).remaining()
                == old(self).remaining(),
            old(self).remaining().len() > 0 ==> r == Some(old(self).remaining()[0])
                && final(self).remaining() == old(self).remaining().drop_first(),
    {
        let n = match &self.inner {
            LocalStorageVec::Stack { len, .. } => *len,
            LocalStorageVec::Heap(v) => v.len(),
        };
        if self.pos >= n {
            proof {
                assert(old(self).remaining().len() == 0);
            }
            return None;
        }
        let x = match &self.inner {
            LocalStorageVec::Stack { buf, .. } => buf[self.pos],
            LocalStorageVec::Heap(v) => v[self.pos],
        };
        self.pos = self.pos + 1;
        proof {
            assert(old(self).remaining()[0] == x);
            assert(self.remaining() =~= old(self).remaining().drop_first());
        }
        Some(x)
    }
}

} // verus!
