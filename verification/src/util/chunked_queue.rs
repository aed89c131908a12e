//! A queue that grows by chunks of a fixed capacity, so that pushing never moves
//! the elements already stored.

use vstd::prelude::*;

verus! {

/// The maximum number of elements a chunk can hold.
pub const CHUNK_CAP: usize = 60;

/// A queue held as a list of chunks, each a small buffer of at most `CHUNK_CAP`
/// elements. Every chunk but the last is full; elements are read by their position,
/// which an iterator keeps, so that it also sees what is pushed after it was made.
pub struct ChunkedQueue<T> {
    chunks: Vec<Vec<T>>,
    len: usize,
    elems: Ghost<Seq<T>>,
}

/// The chunk of the element at position `i`.
pub open spec fn chunk_of(i: int) -> int {
    i / (CHUNK_CAP as int)
}

/// The place in its chunk of the element at position `i`.
pub open spec fn offset_of(i: int) -> int {
    i % (CHUNK_CAP as int)
}

impl<T> View for ChunkedQueue<T> {
    type V = Seq<T>;

    closed spec fn view(&self) -> Seq<T> {
        self.elems@
    }
}

proof fn lemma_position(k: int, m: int)
    requires
        k >= 0,
        0 <= m < CHUNK_CAP,
    ensures
        chunk_of(k * (CHUNK_CAP as int) + m) == k,
        offset_of(k * (CHUNK_CAP as int) + m) == m,
{
    vstd::arithmetic::div_mod::lemma_fundamental_div_mod_converse(k * (CHUNK_CAP as int) + m, CHUNK_CAP as int, k, m);
}

impl<T> ChunkedQueue<T> {
    /// The chunks hold the elements in order: all full but the last, which is never
    /// absent.
    pub closed spec fn wf(&self) -> bool {
        &&& self.chunks@.len() >= 1
        &&& self.len == self.elems@.len()
        &&& forall|c: int| 0 <= c < self.chunks@.len() - 1 ==> #[trigger] self.chunks@[c]@.len() == CHUNK_CAP
        &&& self.chunks@.last()@.len() <= CHUNK_CAP
        &&& self.len == (self.chunks@.len() - 1) * (CHUNK_CAP as int) + self.chunks@.last()@.len()
        &&& forall|i: int| 0 <= i < self.len ==> self.chunks@[chunk_of(i)]@[offset_of(i)] == #[trigger] self.elems@[i]
    }

    /// Creates an empty queue.
    pub fn new() -> (r: Self)
        ensures
            r.wf(),
            r@ == Seq::<T>::empty(),
    {
        let mut chunks: Vec<Vec<T>> = Vec::new();
        chunks.push(Vec::new());
        ChunkedQueue { chunks, len: 0, elems: Ghost(Seq::empty()) }
    }

    /// Returns the length of the queue.
    pub fn len(&self) -> (r: usize)
        requires
            self.wf(),
        ensures
            r == self@.len(),
    {
        self.len
    }

    /// Returns `true` if the queue is empty.
    pub fn is_empty(&self) -> (r: bool)
        requires
            self.wf(),
        ensures
            r == (self@.len() == 0),
    {
        self.len == 0
    }

    /// Appends an element to the back of the queue.
    pub fn push(&mut self, elem: T)
        requires
            old(self).wf(),
            old(self)@.len() < usize::MAX,
        ensures
            final(self).wf(),
            final(self)@ == old(self)@.push(elem),
    {
        let ghost old_elems = self.elems@;
        let last = self.chunks.len() - 1;
        if self.chunks[last].len() == CHUNK_CAP {
            self.chunks.push(Vec::new());
            proof {
                assert forall|i: int| 0 <= i < self.len implies self.chunks@[chunk_of(i)]@[offset_of(i)] == #[trigger] old_elems[i] by {
                    assert(old(self).chunks@[chunk_of(i)]@[offset_of(i)] == old_elems[i]);
                    assert(0 <= chunk_of(i) < old(self).chunks@.len()) by {
                        vstd::arithmetic::div_mod::lemma_div_is_ordered(i, self.len as int - 1, CHUNK_CAP as int);
                        lemma_position(old(self).chunks@.len() - 1, CHUNK_CAP - 1);
                    }
                }
            }
        }
        let ghost mid = self.chunks@;
        let k = self.chunks.len() - 1;
        let ghost m = self.chunks@[k as int]@.len();
        let mut tail = self.chunks.pop().unwrap();
        tail.push(elem);
        self.chunks.push(tail);
        self.len = self.len + 1;
        self.elems = Ghost(old_elems.push(elem));
        proof {
            lemma_position(k as int, m as int);
            assert forall|i: int| 0 <= i < self.len implies self.chunks@[chunk_of(i)]@[offset_of(i)] == #[trigger] self.elems@[i] by {
                if i < self.len - 1 {
                    assert(mid[chunk_of(i)]@[offset_of(i)] == old_elems[i]);
                    if chunk_of(i) == k {
                        assert(offset_of(i) < m) by {
                            vstd::arithmetic::div_mod::lemma_fundamental_div_mod(i, CHUNK_CAP as int);
                        }
                    }
                }
            }
        }
    }

    /// A forward iterator over the queue.
    pub fn iter(&self) -> (r: Iter<'_, T>)
        requires
            self.wf(),
        ensures
            r.wf(),
            r.position() == 0,
            r.queue() == self,
    {
        Iter { queue: self, chunk: 0, index: 0 }
    }

    /// Whether position `pos`, held as chunk `chunk` and place `index`, is the
    /// position of an element; moves to the next chunk where `index` is at the end
    /// of a full chunk.
    fn locate(&self, chunk: usize, index: usize) -> (r: Option<(usize, usize)>)
        requires
            self.wf(),
            index <= CHUNK_CAP,
        ensures
            match r {
                Some((c, i)) => {
                    &&& c * (CHUNK_CAP as int) + i == chunk * (CHUNK_CAP as int) + index
                    &&& chunk * (CHUNK_CAP as int) + index < self@.len()
                    &&& c == chunk_of(c * (CHUNK_CAP as int) + i)
                    &&& i == offset_of(c * (CHUNK_CAP as int) + i)
                    &&& c < self.chunks@.len()
                    &&& i < self.chunks@[c as int]@.len()
                },
                None => chunk * (CHUNK_CAP as int) + index >= self@.len(),
            },
    {
        let n = self.chunks.len();
        let (c, i) = if index == CHUNK_CAP {
            if chunk < n - 1 {
                (chunk + 1, 0)
            } else {
                proof {
                    assert(chunk * (CHUNK_CAP as int) + index >= self@.len()) by (nonlinear_arith)
                        requires
                            chunk >= n - 1,
                            index == CHUNK_CAP,
                            self@.len() <= (n - 1) * (CHUNK_CAP as int) + CHUNK_CAP,
                    ;
                }
                return None;
            }
        } else {
            (chunk, index)
        };
        if c < n && i < self.chunks[c].len() {
            proof {
                lemma_position(c as int, i as int);
                if c < n - 1 {
                    assert((c as int) * (CHUNK_CAP as int) + i < self@.len()) by (nonlinear_arith)
                        requires
                            c < n - 1,
                            i < CHUNK_CAP,
                            self@.len() >= (n - 1) * (CHUNK_CAP as int),
                    ;
                }
            }
            Some((c, i))
        } else {
            proof {
                if c < n {
                    if c < n - 1 {
                        assert(self.chunks@[c as int]@.len() == CHUNK_CAP);
                    }
                } else {
                    assert((c as int) * (CHUNK_CAP as int) + i >= self@.len()) by (nonlinear_arith)
                        requires
                            c >= n,
                            i >= 0,
                            self@.len() <= (n - 1) * (CHUNK_CAP as int) + CHUNK_CAP,
                    ;
                }
            }
            None
        }
    }
}

impl<T: Copy> ChunkedQueue<T> {
    /// A forward iterator that copies out the elements and, as it keeps only a
    /// position, also gives those pushed after it was made.
    pub fn iter_copied(&self) -> (r: IterCopied)
        requires
            self.wf(),
        ensures
            r.wf(),
            r.position() == 0,
    {
        IterCopied { chunk: 0, index: 0 }
    }
}

/// A forward iterator over a queue.
pub struct Iter<'a, T> {
    /// The queue.
    queue: &'a ChunkedQueue<T>,
    /// The current chunk.
    chunk: usize,
    /// The index of the next element in the chunk.
    index: usize,
}

impl<'a, T> Iter<'a, T> {
    /// The position of the next element.
    pub closed spec fn position(&self) -> int {
        self.chunk * (CHUNK_CAP as int) + self.index
    }

    /// The queue iterated over.
    pub closed spec fn queue(&self) -> &'a ChunkedQueue<T> {
        self.queue
    }

    pub closed spec fn wf(&self) -> bool {
        self.queue.wf() && self.index <= CHUNK_CAP
    }

    /// The next element of the queue, if there is one.
    pub fn next(&mut self) -> (r: Option<&'a T>)
        requires
            old(self).wf(),
        ensures
            final(self).wf(),
            final(self).queue() == old(self).queue(),
            old(self).position() < old(self).queue()@.len() ==> r == Some(&old(self).queue()@[old(self).position()]) && final(self).position() == old(self).position() + 1,
            old(self).position() >= old(self).queue()@.len() ==> r is None && final(self).position() == old(self).position(),
    {
        match self.queue.locate(self.chunk, self.index) {
            Some((c, i)) => {
                let q: &'a ChunkedQueue<T> = self.queue;
                let e: &'a T = &q.chunks[c][i];
                self.chunk = c;
                self.index = i + 1;
                Some(e)
            },
            None => None,
        }
    }
}

/// A forward iterator that copies the elements out of a queue; it keeps only its
/// position, and is handed the queue at each step.
#[derive(Copy, Clone)]
pub struct IterCopied {
    /// The current chunk.
    chunk: usize,
    /// The index of the next element in the chunk.
    index: usize,
}

impl IterCopied {
    /// The position of the next element.
    pub closed spec fn position(&self) -> int {
        self.chunk * (CHUNK_CAP as int) + self.index
    }

    pub closed spec fn wf(&self) -> bool {
        self.index <= CHUNK_CAP
    }

    /// The element of `queue` at the iterator's position, if there is one.
    pub fn next<T: Copy>(&mut self, queue: &ChunkedQueue<T>) -> (r: Option<T>)
        requires
            old(self).wf(),
            queue.wf(),
        ensures
            final(self).wf(),
            old(self).position() < queue@.len() ==> r == Some(queue@[old(self).position()]) && final(self).position() == old(self).position() + 1,
            old(self).position() >= queue@.len() ==> r is None && final(self).position() == old(self).position(),
    {
        match queue.locate(self.chunk, self.index) {
            Some((c, i)) => {
                let e = queue.chunks[c][i];
                self.chunk = c;
                self.index = i + 1;
                Some(e)
            },
            None => None,
        }
    }
}

} // verus!
