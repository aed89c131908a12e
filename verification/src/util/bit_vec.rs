//! A growable bit-vector set over index types, with a dense representation.

use vstd::prelude::*;

verus! {

/// Represents some newtyped `usize` wrapper.
///
/// Purpose: avoid mixing indexes for different bitvector domains.
pub trait Idx: Copy + Sized {
    /// The index that a value stands for.
    spec fn spec_index(self) -> nat;

    /// The largest index that a value of this type can stand for.
    spec fn max_index() -> nat;

    fn new(idx: usize) -> (r: Self)
        requires
            idx <= Self::max_index(),
        ensures
            r.spec_index() == idx,
    ;

    fn index(self) -> (r: usize)
        ensures
            r == self.spec_index(),
    ;

    /// Distinct values stand for distinct indices.
    proof fn lemma_index_injective(a: Self, b: Self)
        requires
            a.spec_index() == b.spec_index(),
        ensures
            a == b,
    ;

    fn increment_by(&mut self, amount: usize)
        requires
            old(self).spec_index() + amount <= Self::max_index(),
            old(self).spec_index() + amount <= usize::MAX,
        ensures
            final(self).spec_index() == old(self).spec_index() + amount,
    {
        *self = self.plus(amount);
    }

    fn plus(self, amount: usize) -> (r: Self)
        requires
            self.spec_index() + amount <= Self::max_index(),
            self.spec_index() + amount <= usize::MAX,
        ensures
            r.spec_index() == self.spec_index() + amount,
    {
        Self::new(self.index() + amount)
    }
}

impl Idx for usize {
    open spec fn spec_index(self) -> nat {
        self as nat
    }

    open spec fn max_index() -> nat {
        usize::MAX as nat
    }

    fn new(idx: usize) -> (r: Self) {
        idx
    }

    fn index(self) -> (r: usize) {
        self
    }

    proof fn lemma_index_injective(a: Self, b: Self) {
    }
}

impl Idx for u32 {
    open spec fn spec_index(self) -> nat {
        self as nat
    }

    open spec fn max_index() -> nat {
        u32::MAX as nat
    }

    fn new(idx: usize) -> (r: Self) {
        idx as u32
    }

    fn index(self) -> (r: usize) {
        self as usize
    }

    proof fn lemma_index_injective(a: Self, b: Self) {
    }
}


/// The number of bits in a word of a bit vector.
pub const WORD_BITS: usize = 64;

/// Bit `b` of word `w` is set.
pub open spec fn bit_of(w: u64, b: u64) -> bool {
    (w >> b) & 1u64 == 1u64
}

/// Index `i` is held by the words `ws`: its word exists and has the bit set.
pub open spec fn has_bit(ws: Seq<u64>, i: int) -> bool {
    &&& 0 <= i < ws.len() * 64
    &&& bit_of(ws[i / 64], (i % 64) as u64)
}

/// The set of indices that the words `ws` hold.
pub open spec fn bits_of(ws: Seq<u64>) -> Set<int> {
    Set::new(|i: int| has_bit(ws, i))
}

/// The number of set bits among the lowest `n` bits of `w`.
pub open spec fn pop_bits(w: u64, n: nat) -> nat
    decreases n,
{
    if n == 0 {
        0
    } else {
        pop_bits(w, (n - 1) as nat) + (if bit_of(w, (n - 1) as u64) { 1nat } else { 0nat })
    }
}

/// The number of set bits in all words of `ws`.
pub open spec fn pop_words(ws: Seq<u64>) -> nat
    decreases ws.len(),
{
    if ws.len() == 0 {
        0
    } else {
        pop_words(ws.drop_last()) + pop_bits(ws.last(), 64)
    }
}

/// The number of words needed to hold the indices below `capacity`.
pub open spec fn spec_num_words(capacity: nat) -> nat {
    ((capacity + 63) / 64) as nat
}

/// The set of indices that the values of `s` stand for.
pub open spec fn index_set<T: Idx>(s: Seq<T>) -> Set<int> {
    Set::new(|i: int| exists|j: int| 0 <= j < s.len() && s[j].spec_index() == i)
}

pub proof fn lemma_bit_single(k: u64, b: u64)
    requires
        k < 64,
        b < 64,
    ensures
        bit_of(1u64 << k, b) == (b == k),
{
    assert(((1u64 << k) >> b) & 1u64 == 1u64 <==> b == k) by (bit_vector)
        requires
            k < 64,
            b < 64,
    ;
}

pub proof fn lemma_bit_or(x: u64, y: u64, b: u64)
    requires
        b < 64,
    ensures
        bit_of(x | y, b) == (bit_of(x, b) || bit_of(y, b)),
{
    assert(((x | y) >> b) & 1u64 == 1u64 <==> ((x >> b) & 1u64 == 1u64 || (y >> b) & 1u64 == 1u64))
        by (bit_vector)
        requires
            b < 64,
    ;
}

pub proof fn lemma_bit_and(x: u64, y: u64, b: u64)
    requires
        b < 64,
    ensures
        bit_of(x & y, b) == (bit_of(x, b) && bit_of(y, b)),
{
    assert(((x & y) >> b) & 1u64 == 1u64 <==> ((x >> b) & 1u64 == 1u64 && (y >> b) & 1u64 == 1u64))
        by (bit_vector)
        requires
            b < 64,
    ;
}

pub proof fn lemma_bit_and_not(x: u64, y: u64, b: u64)
    requires
        b < 64,
    ensures
        bit_of(x & !y, b) == (bit_of(x, b) && !bit_of(y, b)),
{
    assert(((x & !y) >> b) & 1u64 == 1u64 <==> ((x >> b) & 1u64 == 1u64 && !((y >> b) & 1u64
        == 1u64))) by (bit_vector)
        requires
            b < 64,
    ;
}

pub proof fn lemma_bit_xor(x: u64, y: u64, b: u64)
    requires
        b < 64,
    ensures
        bit_of(x ^ y, b) == (bit_of(x, b) != bit_of(y, b)),
{
    assert(((x ^ y) >> b) & 1u64 == 1u64 <==> ((x >> b) & 1u64 == 1u64) != ((y >> b) & 1u64
        == 1u64)) by (bit_vector)
        requires
            b < 64,
    ;
}

pub proof fn lemma_bit_zero_and_full(b: u64)
    requires
        b < 64,
    ensures
        !bit_of(0u64, b),
        bit_of(!0u64, b),
{
    assert(!((0u64 >> b) & 1u64 == 1u64)) by (bit_vector);
    assert((!0u64 >> b) & 1u64 == 1u64) by (bit_vector)
        requires
            b < 64,
    ;
}

/// A word with the mask of bit `k` in it is nonzero exactly when bit `k` is set.
pub proof fn lemma_mask_test(w: u64, k: u64)
    requires
        k < 64,
    ensures
        ((w & (1u64 << k)) != 0u64) == bit_of(w, k),
{
    assert(((w & (1u64 << k)) != 0u64) <==> ((w >> k) & 1u64 == 1u64)) by (bit_vector)
        requires
            k < 64,
    ;
}

/// A nonzero word has a lowest set bit, and it is the one that `trailing_zeros` counts to.
pub proof fn lemma_lowest_bit(w: u64)
    requires
        w != 0,
    ensures
        vstd::std_specs::bits::u64_trailing_zeros(w) < 64,
        bit_of(w, vstd::std_specs::bits::u64_trailing_zeros(w) as u64),
        forall|b: u64|
            b < vstd::std_specs::bits::u64_trailing_zeros(w) ==> !#[trigger] bit_of(w, b),
{
    vstd::std_specs::bits::axiom_u64_trailing_zeros(w);
    let tz = vstd::std_specs::bits::u64_trailing_zeros(w) as u64;
    assert forall|b: u64| b < tz implies !#[trigger] bit_of(w, b) by {
        assert((w >> b) & 1u64 == 0u64);
    }
}

/// A nonzero word has some set bit.
pub proof fn lemma_nonzero_has_bit(w: u64) -> (b: u64)
    requires
        w != 0,
    ensures
        b < 64,
        bit_of(w, b),
{
    lemma_lowest_bit(w);
    vstd::std_specs::bits::u64_trailing_zeros(w) as u64
}

/// Two words are equal exactly when they agree on every bit.
pub proof fn lemma_word_ext(x: u64, y: u64)
    ensures
        x == y <==> forall|b: u64| b < 64 ==> bit_of(x, b) == bit_of(y, b),
{
    if x != y {
        assert((x ^ y) != 0u64) by (bit_vector)
            requires
                x != y,
        ;
        let b = lemma_nonzero_has_bit(x ^ y);
        lemma_bit_xor(x, y, b);
    }
}


/// The indices `base + b`, `b < n`, whose bit `b` is set in `w`.
pub open spec fn word_set(w: u64, base: int, n: nat) -> Set<int> {
    Set::new(|i: int| base <= i < base + n && bit_of(w, (i - base) as u64))
}

proof fn lemma_word_set_card(w: u64, base: int, n: nat)
    requires
        n <= 64,
    ensures
        word_set(w, base, n).finite(),
        word_set(w, base, n).len() == pop_bits(w, n),
    decreases n,
{
    if n == 0 {
        assert(word_set(w, base, n) =~= Set::<int>::empty());
    } else {
        let m = (n - 1) as nat;
        lemma_word_set_card(w, base, m);
        if bit_of(w, m as u64) {
            assert(word_set(w, base, n) =~= word_set(w, base, m).insert(base + m));
        } else {
            assert(word_set(w, base, n) =~= word_set(w, base, m));
        }
    }
}

/// The number of set bits of all words is the size of the set that the words hold.
pub proof fn lemma_bits_card(ws: Seq<u64>)
    ensures
        bits_of(ws).finite(),
        bits_of(ws).len() == pop_words(ws),
    decreases ws.len(),
{
    broadcast use vstd::set_lib::lemma_set_disjoint_lens;

    if ws.len() == 0 {
        assert(bits_of(ws) =~= Set::<int>::empty());
    } else {
        let d = ws.drop_last();
        let base = (ws.len() - 1) * 64;
        lemma_bits_card(d);
        lemma_word_set_card(ws.last(), base, 64);
        assert(bits_of(ws) =~= bits_of(d) + word_set(ws.last(), base, 64));
        assert(bits_of(d).disjoint(word_set(ws.last(), base, 64)));
    }
}

proof fn lemma_pop_bits_bound(w: u64, n: nat)
    ensures
        pop_bits(w, n) <= n,
    decreases n,
{
    if n > 0 {
        lemma_pop_bits_bound(w, (n - 1) as nat);
    }
}

proof fn lemma_pop_words_bound(ws: Seq<u64>)
    ensures
        pop_words(ws) <= ws.len() * 64,
    decreases ws.len(),
{
    if ws.len() > 0 {
        lemma_pop_words_bound(ws.drop_last());
        lemma_pop_bits_bound(ws.last(), 64);
    }
}


/// A growable bit-vector type with a dense representation.
///
/// `T` is an index type, typically a newtyped `usize` wrapper, but it can also
/// just be `usize`.
pub struct BitVec<T> {
    words: Vec<u64>,
    marker: core::marker::PhantomData<T>,
}

impl<T> View for BitVec<T> {
    type V = Set<int>;

    /// The set of indices that the bit vector holds.
    open spec fn view(&self) -> Set<int> {
        bits_of(self.words_view())
    }
}

impl<T> BitVec<T> {
    /// The words of the bit vector, bit `i % 64` of word `i / 64` standing for index `i`.
    pub closed spec fn words_view(&self) -> Seq<u64> {
        self.words@
    }

    /// Every index that the words can hold fits in a `usize`.
    pub open spec fn wf(&self) -> bool {
        self.words_view().len() * 64 <= usize::MAX
    }

    /// The number of indices that the words can hold.
    pub open spec fn spec_capacity(&self) -> nat {
        self.words_view().len() * 64
    }
}

impl<T> Clone for BitVec<T> {
    fn clone(&self) -> (r: Self)
        ensures
            r.words_view() == self.words_view(),
    {
        let n = self.words.len();
        let mut words: Vec<u64> = Vec::new();
        let mut i: usize = 0;
        while i < n
            invariant
                i <= n,
                n == self.words@.len(),
                words@ == self.words@.subrange(0, i as int),
            decreases n - i,
        {
            words.push(self.words[i]);
            i = i + 1;
        }
        assert(words@ =~= self.words@);
        BitVec { words, marker: core::marker::PhantomData }
    }
}

impl<T: Idx> BitVec<T> {
    /// Creates a new, empty bitvec with 0 elements.
    pub fn new_empty() -> (r: BitVec<T>)
        ensures
            r.wf(),
            r.words_view() == Seq::<u64>::empty(),
            r@ == Set::<int>::empty(),
    {
        let r = BitVec { words: Vec::new(), marker: core::marker::PhantomData };
        assert(r@ =~= Set::<int>::empty());
        r
    }

    /// Creates a new, empty bitvec with a given capacity.
    pub fn with_capacity(capacity: usize) -> (r: BitVec<T>)
        requires
            capacity + 63 <= usize::MAX,
        ensures
            r.wf(),
            r.words_view().len() == spec_num_words(capacity as nat),
            forall|i: int| 0 <= i < r.words_view().len() ==> r.words_view()[i] == 0,
            r@ == Set::<int>::empty(),
    {
        let n = num_words(capacity);
        let mut words: Vec<u64> = Vec::new();
        let mut i: usize = 0;
        while i < n
            invariant
                i <= n,
                n == spec_num_words(capacity as nat),
                capacity + 63 <= usize::MAX,
                words@.len() == i,
                forall|j: int| 0 <= j < i ==> words@[j] == 0,
            decreases n - i,
        {
            words.push(0);
            i = i + 1;
        }
        let r = BitVec { words, marker: core::marker::PhantomData };
        assert forall|i: int| !#[trigger] r@.contains(i) by {
            if 0 <= i < r.words_view().len() * 64 {
                lemma_bit_zero_and_full((i % 64) as u64);
            }
        }
        assert(r@ =~= Set::<int>::empty());
        r
    }

    /// Ensure that the set can hold at least `capacity` elements.
    pub fn ensure(&mut self, capacity: usize)
        requires
            old(self).wf(),
            capacity + 63 <= usize::MAX,
        ensures
            final(self).wf(),
            final(self)@ == old(self)@,
            final(self).words_view().len() == if old(self).words_view().len() < spec_num_words(
                capacity as nat,
            ) {
                spec_num_words(capacity as nat)
            } else {
                old(self).words_view().len()
            },
            forall|i: int|
                0 <= i < old(self).words_view().len() ==> final(self).words_view()[i] == old(self).words_view()[i],
            forall|i: int|
                old(self).words_view().len() <= i < final(self).words_view().len() ==> final(self).words_view()[i] == 0,
    {
        let min_num_words = num_words(capacity);
        let ghost old_words = self.words@;
        if self.words.len() < min_num_words {
            while self.words.len() < min_num_words
                invariant
                    old_words.len() <= self.words@.len() <= min_num_words,
                    min_num_words == spec_num_words(capacity as nat),
                    capacity + 63 <= usize::MAX,
                    forall|i: int| 0 <= i < old_words.len() ==> self.words@[i] == old_words[i],
                    forall|i: int| old_words.len() <= i < self.words@.len() ==> self.words@[i] == 0,
                decreases min_num_words - self.words@.len(),
            {
                self.words.push(0);
            }
        }
        assert forall|i: int| #[trigger] self@.contains(i) == old(self)@.contains(i) by {
            if 0 <= i < self.words@.len() * 64 && i >= old_words.len() * 64 {
                lemma_bit_zero_and_full((i % 64) as u64);
            }
        }
        assert(self@ =~= old(self)@);
    }

    /// Clear all elements.
    pub fn clear(&mut self)
        requires
            old(self).wf(),
        ensures
            final(self).wf(),
            final(self).words_view().len() == old(self).words_view().len(),
            final(self)@ == Set::<int>::empty(),
    {
        let n = self.words.len();
        let mut i: usize = 0;
        while i < n
            invariant
                i <= n,
                n == self.words@.len(),
                forall|j: int| 0 <= j < i ==> self.words@[j] == 0,
            decreases n - i,
        {
            self.words[i] = 0;
            i = i + 1;
        }
        assert forall|i: int| !#[trigger] self@.contains(i) by {
            if 0 <= i < self.words@.len() * 64 {
                lemma_bit_zero_and_full((i % 64) as u64);
            }
        }
        assert(self@ =~= Set::<int>::empty());
    }

    /// Count the number of set bits in the set.
    pub fn count(&self) -> (r: usize)
        requires
            self.wf(),
        ensures
            r == self@.len(),
            self@.finite(),
    {
        let n = self.words.len();
        let mut total: usize = 0;
        let mut i: usize = 0;
        while i < n
            invariant
                i <= n,
                n == self.words@.len(),
                n * 64 <= usize::MAX,
                total == pop_words(self.words@.subrange(0, i as int)),
            decreases n - i,
        {
            let w = self.words[i];
            let mut b: u64 = 0;
            proof {
                lemma_pop_words_bound(self.words@.subrange(0, i as int));
            }
            while b < 64
                invariant
                    b <= 64,
                    i < n,
                    n * 64 <= usize::MAX,
                    total == pop_words(self.words@.subrange(0, i as int)) + pop_bits(w, b as nat),
                    pop_words(self.words@.subrange(0, i as int)) <= i * 64,
                decreases 64 - b,
            {
                proof {
                    lemma_pop_bits_bound(w, b as nat);
                }
                if (w >> b) & 1u64 == 1u64 {
                    total = total + 1;
                }
                b = b + 1;
            }
            assert(self.words@.subrange(0, i + 1).drop_last() =~= self.words@.subrange(0, i as int));
            i = i + 1;
        }
        proof {
            assert(self.words@.subrange(0, n as int) =~= self.words@);
            lemma_bits_card(self.words@);
        }
        total
    }

    /// Returns `true` if `self` contains `elem`.
    pub fn contains(&self, elem: T) -> (r: bool)
        requires
            self.wf(),
        ensures
            r == self@.contains(elem.spec_index() as int),
    {
        if capacity(self.words.as_slice()) <= elem.index() {
            return false;
        }
        let (word_index, mask) = word_index_and_mask(elem);
        proof {
            lemma_mask_test(self.words@[word_index as int], (elem.spec_index() % 64) as u64);
        }
        (self.words[word_index] & mask) != 0
    }

    /// Is the set empty?
    pub fn is_empty(&self) -> (r: bool)
        requires
            self.wf(),
        ensures
            r == (self@ == Set::<int>::empty()),
    {
        let n = self.words.len();
        let mut i: usize = 0;
        while i < n
            invariant
                i <= n,
                n == self.words@.len(),
                n * 64 <= usize::MAX,
                forall|j: int| 0 <= j < i ==> self.words@[j] == 0,
            decreases n - i,
        {
            if self.words[i] != 0 {
                proof {
                    let b = lemma_nonzero_has_bit(self.words@[i as int]);
                    let k = i * 64 + b;
                    assert(k / 64 == i && k % 64 == b);
                    assert(self@.contains(k));
                }
                return false;
            }
            i = i + 1;
        }
        assert forall|i: int| !#[trigger] self@.contains(i) by {
            if 0 <= i < self.words@.len() * 64 {
                lemma_bit_zero_and_full((i % 64) as u64);
            }
        }
        assert(self@ =~= Set::<int>::empty());
        true
    }

    /// Insert `elem`. Returns whether the set has changed.
    pub fn insert(&mut self, elem: T) -> (r: bool)
        requires
            old(self).wf(),
            elem.spec_index() + 64 <= usize::MAX,
        ensures
            final(self).wf(),
            final(self)@ == old(self)@.insert(elem.spec_index() as int),
            r == !old(self)@.contains(elem.spec_index() as int),
            final(self).words_view().len() == if old(self).words_view().len() < spec_num_words(
                elem.spec_index() + 1,
            ) {
                spec_num_words(elem.spec_index() + 1)
            } else {
                old(self).words_view().len()
            },
    {
        self.ensure(elem.index() + 1);
        let ghost mid = self.words@;
        let (word_index, mask) = word_index_and_mask(elem);
        let word = self.words[word_index];
        let new_word = word | mask;
        self.words[word_index] = new_word;
        let ghost e = elem.spec_index() as int;
        let ghost k = (e % 64) as u64;
        proof {
            lemma_bit_or(word, mask, k);
            lemma_bit_single(k, k);
            assert forall|i: int| #[trigger] self@.contains(i) == (mid_has(mid, i) || i == e) by {
                if 0 <= i < self.words@.len() * 64 && i / 64 == word_index {
                    let b = (i % 64) as u64;
                    lemma_bit_or(word, mask, b);
                    lemma_bit_single(k, b);
                }
            }
            assert(self@ =~= old(self)@.insert(e));
            lemma_word_ext(new_word, word);
            if new_word == word {
                assert(bit_of(word, k));
            } else {
                if bit_of(word, k) {
                    assert forall|b: u64| b < 64 implies bit_of(new_word, b) == bit_of(word, b) by {
                        lemma_bit_or(word, mask, b);
                        lemma_bit_single(k, b);
                    }
                }
            }
        }
        new_word != word
    }

    /// Sets all bits to true.
    pub fn insert_all(&mut self)
        requires
            old(self).wf(),
        ensures
            final(self).wf(),
            final(self).words_view().len() == old(self).words_view().len(),
            final(self)@ == Set::new(|i: int| 0 <= i < old(self).spec_capacity()),
    {
        let n = self.words.len();
        let mut i: usize = 0;
        while i < n
            invariant
                i <= n,
                n == self.words@.len(),
                forall|j: int| 0 <= j < i ==> self.words@[j] == !0u64,
            decreases n - i,
        {
            self.words[i] = !0u64;
            i = i + 1;
        }
        assert forall|i: int| #[trigger] self@.contains(i) == (0 <= i < n * 64) by {
            if 0 <= i < n * 64 {
                lemma_bit_zero_and_full((i % 64) as u64);
            }
        }
        assert(self@ =~= Set::new(|i: int| 0 <= i < old(self).spec_capacity()));
    }

    /// Returns `true` if the set has changed.
    pub fn remove(&mut self, elem: T) -> (r: bool)
        requires
            old(self).wf(),
        ensures
            final(self).wf(),
            final(self).words_view().len() == old(self).words_view().len(),
            final(self)@ == old(self)@.remove(elem.spec_index() as int),
            r == old(self)@.contains(elem.spec_index() as int),
    {
        if capacity(self.words.as_slice()) <= elem.index() {
            assert(old(self)@.remove(elem.spec_index() as int) =~= old(self)@);
            return false;
        }
        let ghost mid = self.words@;
        let (word_index, mask) = word_index_and_mask(elem);
        let word = self.words[word_index];
        let new_word = word & !mask;
        self.words[word_index] = new_word;
        let ghost e = elem.spec_index() as int;
        let ghost k = (e % 64) as u64;
        proof {
            lemma_bit_and_not(word, mask, k);
            lemma_bit_single(k, k);
            assert forall|i: int| #[trigger] self@.contains(i) == (mid_has(mid, i) && i != e) by {
                if 0 <= i < self.words@.len() * 64 && i / 64 == word_index {
                    let b = (i % 64) as u64;
                    lemma_bit_and_not(word, mask, b);
                    lemma_bit_single(k, b);
                }
            }
            assert(self@ =~= old(self)@.remove(e));
            lemma_word_ext(new_word, word);
            if new_word == word {
                assert(!bit_of(word, k));
            } else {
                if !bit_of(word, k) {
                    assert forall|b: u64| b < 64 implies bit_of(new_word, b) == bit_of(word, b) by {
                        lemma_bit_and_not(word, mask, b);
                        lemma_bit_single(k, b);
                    }
                }
            }
        }
        new_word != word
    }

    /// Creates a new bit vec from a give vec.
    pub fn from_vec(from: &Vec<T>) -> (r: BitVec<T>)
        requires
            forall|j: int| 0 <= j < from@.len() ==> #[trigger] from@[j].spec_index() + 64 <= usize::MAX,
        ensures
            r.wf(),
            r@ == index_set(from@),
    {
        let mut ret = Self::new_empty();
        let n = from.len();
        let mut i: usize = 0;
        while i < n
            invariant
                i <= n,
                n == from@.len(),
                ret.wf(),
                ret@ == index_set(from@.subrange(0, i as int)),
                forall|j: int| 0 <= j < from@.len() ==> #[trigger] from@[j].spec_index() + 64 <= usize::MAX,
            decreases n - i,
        {
            let elem = from[i];
            ret.insert(elem);
            proof {
                let s0 = from@.subrange(0, i as int);
                let s1 = from@.subrange(0, i + 1);
                assert forall|x: int| #[trigger] index_set(s1).contains(x) == index_set(s0).insert(
                    elem.spec_index() as int,
                ).contains(x) by {
                    if index_set(s1).contains(x) {
                        let j = choose|j: int| 0 <= j < s1.len() && s1[j].spec_index() == x;
                        if j < i {
                            assert(s0[j] == s1[j]);
                        }
                    }
                    if index_set(s0).contains(x) {
                        let j = choose|j: int| 0 <= j < s0.len() && s0[j].spec_index() == x;
                        assert(s1[j] == s0[j]);
                    }
                    if x == elem.spec_index() {
                        assert(s1[i as int] == elem);
                    }
                }
                assert(index_set(s1) =~= index_set(s0).insert(elem.spec_index() as int));
            }
            i = i + 1;
        }
        assert(from@.subrange(0, n as int) =~= from@);
        ret
    }

    /// Is `self` is a (non-strict) superset of `other`?
    pub fn superset(&self, other: &BitVec<T>) -> (r: bool)
        requires
            self.wf(),
            other.wf(),
        ensures
            r == other@.subset_of(self@),
    {
        let n = other.words.len();
        let m = self.words.len();
        let mut i: usize = 0;
        while i < n
            invariant
                i <= n,
                n == other.words@.len(),
                m == self.words@.len(),
                n * 64 <= usize::MAX,
                forall|k: int| 0 <= k < i * 64 && #[trigger] other@.contains(k) ==> self@.contains(k),
            decreases n - i,
        {
            let a: u64 = if i < m {
                self.words[i]
            } else {
                0
            };
            let b = other.words[i];
            if a & b != b {
                proof {
                    lemma_word_ext(a & b, b);
                    let c = choose|c: u64| c < 64 && bit_of(a & b, c) != bit_of(b, c);
                    lemma_bit_and(a, b, c);
                    lemma_bit_zero_and_full(c);
                    let k = i * 64 + c;
                    assert(k / 64 == i && k % 64 == c);
                    assert(other@.contains(k));
                    assert(!self@.contains(k));
                }
                return false;
            }
            proof {
                lemma_word_ext(a & b, b);
                assert forall|k: int| 0 <= k < (i + 1) * 64 && #[trigger] other@.contains(k) implies self@.contains(k) by {
                    if k >= i * 64 {
                        let c = (k % 64) as u64;
                        assert(k / 64 == i);
                        lemma_bit_and(a, b, c);
                        if i >= m {
                            lemma_bit_zero_and_full(c);
                        }
                    }
                }
            }
            i = i + 1;
        }
        true
    }

    pub fn union(&mut self, other: &BitVec<T>) -> (r: bool)
        requires
            old(self).wf(),
            other.wf(),
        ensures
            final(self).wf(),
            final(self)@ == old(self)@.union(other@),
            r == (final(self)@ != old(self)@),
            final(self).words_view().len() == if old(self).words_view().len() < other.words_view().len() {
                other.words_view().len()
            } else {
                old(self).words_view().len()
            },
    {
        proof {
            lemma_capacity_room(other.words@.len());
        }
        self.ensure(capacity(other.words.as_slice()));
        proof {
            assert(spec_num_words(other.words@.len() * 64) == other.words@.len()) by (nonlinear_arith);
        }
        let ghost mid = self.words@;
        let ghost mid_set = self@;
        let changed = bitwise(&mut self.words, other.words.as_slice(), |a: u64, b: u64| -> (c: u64)
            ensures
                c == a | b,
            { a | b });
        proof {
            assert forall|i: int| #[trigger] self@.contains(i) == (mid_set.contains(i) || other@.contains(i)) by {
                if 0 <= i < self.words@.len() * 64 {
                    let c = (i % 64) as u64;
                    let j = i / 64;
                    if j < other.words@.len() {
                        lemma_bit_or(mid[j], other.words@[j], c);
                    }
                }
            }
            assert(self@ =~= old(self)@.union(other@));
            lemma_bits_ext(self.words@, mid);
        }
        changed
    }

    pub fn subtract(&mut self, other: &BitVec<T>) -> (r: bool)
        requires
            old(self).wf(),
            other.wf(),
        ensures
            final(self).wf(),
            final(self).words_view().len() == old(self).words_view().len(),
            final(self)@ == old(self)@.difference(other@),
            r == (final(self)@ != old(self)@),
    {
        let ghost mid = self.words@;
        let changed = bitwise(&mut self.words, other.words.as_slice(), |a: u64, b: u64| -> (c: u64)
            ensures
                c == a & !b,
            { a & !b });
        proof {
            assert forall|i: int| #[trigger] self@.contains(i) == (old(self)@.contains(i) && !other@.contains(i)) by {
                if 0 <= i < self.words@.len() * 64 {
                    let c = (i % 64) as u64;
                    let j = i / 64;
                    if j < other.words@.len() {
                        lemma_bit_and_not(mid[j], other.words@[j], c);
                    }
                }
            }
            assert(self@ =~= old(self)@.difference(other@));
            lemma_bits_ext(self.words@, mid);
        }
        changed
    }

    /// Keeps the indices that `other` holds, and those that lie beyond the
    /// words of `other`; the words of `self` past those of `other` are left as they are.
    pub fn intersect(&mut self, other: &BitVec<T>) -> (r: bool)
        requires
            old(self).wf(),
            other.wf(),
        ensures
            final(self).wf(),
            final(self).words_view().len() == old(self).words_view().len(),
            final(self)@ == Set::new(
                |i: int|
                    old(self)@.contains(i) && (other@.contains(i) || i >= other.spec_capacity()),
            ),
            r == (final(self)@ != old(self)@),
    {
        let ghost mid = self.words@;
        let changed = bitwise(&mut self.words, other.words.as_slice(), |a: u64, b: u64| -> (c: u64)
            ensures
                c == a & b,
            { a & b });
        proof {
            let target = Set::new(
                |i: int|
                    old(self)@.contains(i) && (other@.contains(i) || i >= other.spec_capacity()),
            );
            assert forall|i: int| #[trigger] self@.contains(i) == target.contains(i) by {
                if 0 <= i < self.words@.len() * 64 {
                    let c = (i % 64) as u64;
                    let j = i / 64;
                    if j < other.words@.len() {
                        lemma_bit_and(mid[j], other.words@[j], c);
                    }
                }
            }
            assert(self@ =~= target);
            lemma_bits_ext(self.words@, mid);
        }
        changed
    }

    /// Iterates over the indices of set bits in a sorted order.
    pub fn iter(&self) -> (r: BitIter<'_, T>)
        requires
            self.wf(),
        ensures
            r.wf(),
            r.remaining() == self@,
            r.remaining().finite(),
    {
        let r = BitIter::new(self.words.as_slice());
        proof {
            assert(r.remaining() =~= self@);
            lemma_bits_card(self.words@);
        }
        r
    }

    /// Gets a slice of the underlying words.
    pub fn words(&self) -> (r: &[u64])
        ensures
            r@ == self.words_view(),
    {
        self.words.as_slice()
    }
}

/// Index `i` is held by the words `ws` (a name for `has_bit` that proofs about
/// a word sequence can trigger on).
pub open spec fn mid_has(ws: Seq<u64>, i: int) -> bool {
    has_bit(ws, i)
}

/// The number of indices that `words` can hold.
pub fn capacity(words: &[u64]) -> (r: usize)
    requires
        words@.len() * 64 <= usize::MAX,
    ensures
        r == words@.len() * 64,
{
    words.len() * WORD_BITS
}

/// The number of words needed to hold the indices below `capacity`.
pub fn num_words<T: Idx>(capacity: T) -> (r: usize)
    requires
        capacity.spec_index() + 63 <= usize::MAX,
    ensures
        r == spec_num_words(capacity.spec_index()),
{
    (capacity.index() + (WORD_BITS - 1)) / WORD_BITS
}

/// The word that holds `elem`, and the mask of its bit in that word.
pub fn word_index_and_mask<T: Idx>(elem: T) -> (r: (usize, u64))
    ensures
        r.0 == elem.spec_index() / 64,
        r.1 == 1u64 << ((elem.spec_index() % 64) as u64),
{
    let elem = elem.index();
    let word_index = elem / WORD_BITS;
    let mask: u64 = 1u64 << ((elem % WORD_BITS) as u64);
    (word_index, mask)
}


/// Two word sequences of one length hold the same indices exactly when they are equal.
pub proof fn lemma_bits_ext(a: Seq<u64>, b: Seq<u64>)
    requires
        a.len() == b.len(),
    ensures
        (bits_of(a) == bits_of(b)) == (a == b),
{
    if a != b {
        assert(!(a =~= b));
        let j = choose|j: int| 0 <= j < a.len() && a[j] != b[j];
        lemma_word_ext(a[j], b[j]);
        let c = choose|c: u64| c < 64 && bit_of(a[j], c) != bit_of(b[j], c);
        let k = j * 64 + c;
        assert(k / 64 == j && k % 64 == c);
        assert(bits_of(a).contains(k) != bits_of(b).contains(k));
    }
}

/// A capacity that fits in a `usize` leaves room for rounding up to whole words.
pub proof fn lemma_capacity_room(n: nat)
    requires
        n * 64 <= usize::MAX,
    ensures
        n * 64 + 63 <= usize::MAX,
{
    assert(usize::MAX == 0xffff_ffff || usize::MAX == 0xffff_ffff_ffff_ffff);
    assert(n * 64 + 63 <= usize::MAX) by (nonlinear_arith)
        requires
            n * 64 <= usize::MAX,
            usize::MAX == 0xffff_ffff || usize::MAX == 0xffff_ffff_ffff_ffff,
    ;
}

/// Applies `op` to each pair of words of `out_vec` and `in_vec` at one position,
/// storing the result in `out_vec`; returns whether any word of `out_vec` changed.
pub fn bitwise<Op>(out_vec: &mut Vec<u64>, in_vec: &[u64], op: Op) -> (r: bool) where
    Op: Fn(u64, u64) -> u64,

    requires
        forall|a: u64, b: u64| op.requires((a, b)),
    ensures
        final(out_vec)@.len() == old(out_vec)@.len(),
        forall|i: int|
            0 <= i < old(out_vec)@.len() && i < in_vec@.len() ==> op.ensures(
                (old(out_vec)@[i], in_vec@[i]),
                #[trigger] final(out_vec)@[i],
            ),
        forall|i: int|
            in_vec@.len() <= i < old(out_vec)@.len() ==> #[trigger] final(out_vec)@[i] == old(
                out_vec)@[i],
        r == (final(out_vec)@ != old(out_vec)@),
{
    let n = if out_vec.len() < in_vec.len() {
        out_vec.len()
    } else {
        in_vec.len()
    };
    let ghost orig = out_vec@;
    let mut changed: u64 = 0;
    let mut i: usize = 0;
    while i < n
        invariant
            i <= n,
            n <= orig.len(),
            n <= in_vec@.len(),
            n == orig.len() || n == in_vec@.len(),
            out_vec@.len() == orig.len(),
            forall|a: u64, b: u64| op.requires((a, b)),
            forall|j: int| 0 <= j < i ==> op.ensures((orig[j], in_vec@[j]), #[trigger] out_vec@[j]),
            forall|j: int| i <= j < orig.len() ==> #[trigger] out_vec@[j] == orig[j],
            (changed == 0) == (forall|j: int| 0 <= j < i ==> #[trigger] out_vec@[j] == orig[j]),
        decreases n - i,
    {
        let ghost before = out_vec@;
        let old_val = out_vec[i];
        let new_val = op(old_val, in_vec[i]);
        out_vec[i] = new_val;
        let c = changed;
        changed = changed | (old_val ^ new_val);
        proof {
            assert((c | (old_val ^ new_val)) == 0u64 <==> (c == 0u64 && old_val == new_val)) by (bit_vector);
            if changed == 0 {
                assert forall|j: int| 0 <= j < i + 1 implies #[trigger] out_vec@[j] == orig[j] by {
                    if j < i {
                        assert(out_vec@[j] == out_vec@[j]);
                    }
                }
            } else if c != 0 {
                let j = choose|j: int| 0 <= j < i && !(#[trigger] before[j] == orig[j]);
                assert(out_vec@[j] == before[j]);
                assert(!(out_vec@[j] == orig[j]));
            } else {
                assert(!(out_vec@[i as int] == orig[i as int]));
            }
        }
        i = i + 1;
    }
    proof {
        if changed != 0 {
            let j = choose|j: int| 0 <= j < n && !(#[trigger] out_vec@[j] == orig[j]);
            assert(out_vec@[j] != orig[j]);
        } else {
            assert(out_vec@ =~= orig);
        }
    }
    changed != 0
}


/// An iterator over the indices of the set bits of a sequence of words, in
/// ascending order.
pub struct BitIter<'a, T: Idx> {
    /// A copy of the current word, but with any already-visited bits cleared.
    /// (This lets us use `trailing_zeros()` to find the next set bit.) When it
    /// is reduced to 0, we move onto the next word.
    word: u64,
    /// The offset (measured in bits) of the current word.
    offset: usize,
    /// The words iterated over.
    words: &'a [u64],
    /// The position in `words` of the next word to load.
    next_index: usize,
    marker: core::marker::PhantomData<T>,
}

impl<'a, T: Idx> BitIter<'a, T> {
    /// The indices that the iterator has yet to hand out.
    pub closed spec fn remaining(&self) -> Set<int> {
        word_set(self.word, self.offset as int, 64).union(
            Set::new(|i: int| i >= self.next_index * 64 && has_bit(self.words@, i)),
        )
    }

    pub closed spec fn wf(&self) -> bool {
        &&& self.next_index <= self.words@.len()
        &&& self.words@.len() * 64 <= usize::MAX
        &&& self.next_index == 0 ==> self.word == 0 && self.offset == 0
        &&& self.next_index > 0 ==> self.offset == (self.next_index - 1) * 64
    }

    proof fn lemma_remaining_finite(&self)
        requires
            self.wf(),
        ensures
            self.remaining().finite(),
    {
        lemma_word_set_card(self.word, self.offset as int, 64);
        lemma_bits_card(self.words@);
        let rest = Set::new(|i: int| i >= self.next_index * 64 && has_bit(self.words@, i));
        assert(rest =~= bits_of(self.words@).filter(|i: int| i >= self.next_index * 64));
    }

    fn new(words: &'a [u64]) -> (r: BitIter<'a, T>)
        requires
            words@.len() * 64 <= usize::MAX,
        ensures
            r.wf(),
            r.remaining() == bits_of(words@),
    {
        let r = BitIter { word: 0, offset: 0, words, next_index: 0, marker: core::marker::PhantomData };
        proof {
            assert forall|i: int| !#[trigger] word_set(0, 0, 64).contains(i) by {
                if 0 <= i < 64 {
                    lemma_bit_zero_and_full(i as u64);
                }
            }
            assert(r.remaining() =~= bits_of(words@));
        }
        r
    }

    /// Hands out the least index not yet handed out, or `None` when there is none.
    pub fn next(&mut self) -> (r: Option<T>)
        requires
            old(self).wf(),
            forall|i: int| #[trigger] old(self).remaining().contains(i) ==> i <= T::max_index(),
        ensures
            final(self).wf(),
            final(self).remaining().finite(),
            match r {
                None => old(self).remaining() == Set::<int>::empty() && final(self).remaining()
                    == Set::<int>::empty(),
                Some(x) => {
                    &&& old(self).remaining().contains(x.spec_index() as int)
                    &&& forall|y: int| #[trigger]
                        old(self).remaining().contains(y) ==> x.spec_index() <= y
                    &&& final(self).remaining() == old(self).remaining().remove(
                        x.spec_index() as int,
                    )
                },
            },
    {
        loop
            invariant
                self.wf(),
                self.remaining() == old(self).remaining(),
                forall|i: int| #[trigger] old(self).remaining().contains(i) ==> i <= T::max_index(),
            decreases 2 * (self.words@.len() - self.next_index) + (if self.word != 0 {
                1int
            } else {
                0int
            }),
        {
            if self.word != 0 {
                let w = self.word;
                proof {
                    lemma_lowest_bit(w);
                }
                let bit_pos = w.trailing_zeros() as usize;
                let bit: u64 = 1u64 << (bit_pos as u64);
                self.word = w ^ bit;
                let x = bit_pos + self.offset;
                proof {
                    let tz = bit_pos as u64;
                    let off = self.offset as int;
                    assert(word_set(w, off, 64).contains(x as int));
                    assert(old(self).remaining().contains(x as int));
                    assert forall|y: int| #[trigger] old(self).remaining().contains(y) implies x <= y by {
                        if word_set(w, off, 64).contains(y) && y < x {
                            assert(!bit_of(w, (y - off) as u64));
                        }
                    }
                    assert forall|y: int| #[trigger] self.remaining().contains(y) == (old(self).remaining().contains(y) && y != x) by {
                        if off <= y < off + 64 {
                            let b = (y - off) as u64;
                            lemma_bit_xor(w, bit, b);
                            lemma_bit_single(tz, b);
                        }
                    }
                    assert(self.remaining() =~= old(self).remaining().remove(x as int));
                    self.lemma_remaining_finite();
                }
                return Some(T::new(x));
            }
            if self.next_index >= self.words.len() {
                proof {
                    assert forall|y: int| !#[trigger] self.remaining().contains(y) by {
                        if self.offset <= y < self.offset + 64 {
                            lemma_bit_zero_and_full((y - self.offset) as u64);
                        }
                    }
                    assert(self.remaining() =~= Set::<int>::empty());
                }
                return None;
            }
            let ghost before = self.remaining();
            let ghost old_word = self.word;
            let ghost old_off = self.offset as int;
            let n = self.next_index;
            self.word = self.words[n];
            self.offset = n * 64;
            self.next_index = n + 1;
            proof {
                assert forall|y: int| #[trigger] self.remaining().contains(y) == before.contains(y) by {
                    if old_off <= y < old_off + 64 {
                        lemma_bit_zero_and_full((y - old_off) as u64);
                    }
                    if n * 64 <= y < n * 64 + 64 {
                        assert(y / 64 == n);
                    }
                }
                assert(self.remaining() =~= before);
            }
        }
    }
}


/// `rems[k]` is what an iteration over a bit vector has yet to hand out before its
/// `k`-th step, which hands out `outs[k]`, the least of them, as `BitIter::next`
/// does; the iteration starts from the set `held` and ends with nothing left.
pub open spec fn iteration_run(held: Set<int>, rems: Seq<Set<int>>, outs: Seq<int>) -> bool {
    &&& rems.len() == outs.len() + 1
    &&& rems[0] == held
    &&& rems.last() == Set::<int>::empty()
    &&& forall|k: int| 0 <= k < outs.len() ==> {
        &&& #[trigger] rems[k].contains(outs[k])
        &&& forall|y: int| rems[k].contains(y) ==> outs[k] <= y
        &&& rems[k + 1] == rems[k].remove(outs[k])
    }
}

proof fn lemma_iteration_prefix(held: Set<int>, rems: Seq<Set<int>>, outs: Seq<int>, k: int)
    requires
        iteration_run(held, rems, outs),
        0 <= k <= outs.len(),
    ensures
        forall|j: int| 0 <= j < k ==> !rems[k].contains(#[trigger] outs[j]),
        forall|j: int, y: int| 0 <= j < k && #[trigger] rems[k].contains(y) ==> #[trigger] outs[j] < y,
        forall|i: int, j: int| 0 <= i < j < k ==> #[trigger] outs[i] < #[trigger] outs[j],
        forall|x: int| #[trigger] held.contains(x) <==> (rems[k].contains(x) || exists|j: int| 0 <= j < k && outs[j] == x),
    decreases k,
{
    if k > 0 {
        lemma_iteration_prefix(held, rems, outs, k - 1);
        let m = k - 1;
        assert(rems[m].contains(outs[m]));
        assert(rems[m + 1] == rems[m].remove(outs[m]));
        assert forall|x: int| #[trigger] held.contains(x) <==> (rems[k].contains(x) || exists|j: int| 0 <= j < k && outs[j] == x) by {
            if held.contains(x) && !rems[k].contains(x) {
                if rems[m].contains(x) {
                    assert(x == outs[m]);
                } else {
                    let j = choose|j: int| 0 <= j < m && outs[j] == x;
                    assert(0 <= j < k && outs[j] == x);
                }
            }
            if exists|j: int| 0 <= j < k && outs[j] == x {
                let j = choose|j: int| 0 <= j < k && outs[j] == x;
                if j < m {
                    assert(held.contains(x));
                } else {
                    assert(rems[m].contains(x));
                }
            }
        }
        assert forall|i: int, j: int| 0 <= i < j < k implies #[trigger] outs[i] < #[trigger] outs[j] by {
            if j == m {
                assert(rems[m].contains(outs[m]));
            }
        }
    }
}

/// An iteration over a bit vector hands out each index it holds, once each, in
/// increasing order, and nothing else.
pub proof fn law_iteration_sorted(held: Set<int>, rems: Seq<Set<int>>, outs: Seq<int>)
    requires
        iteration_run(held, rems, outs),
    ensures
        forall|i: int, j: int| 0 <= i < j < outs.len() ==> #[trigger] outs[i] < #[trigger] outs[j],
        forall|x: int| #[trigger] held.contains(x) <==> outs.contains(x),
{
    lemma_iteration_prefix(held, rems, outs, outs.len() as int);
    assert forall|x: int| #[trigger] held.contains(x) <==> outs.contains(x) by {
        if outs.contains(x) {
            let j = choose|j: int| 0 <= j < outs.len() && outs[j] == x;
            assert(exists|j: int| 0 <= j < outs.len() && outs[j] == x);
        }
        if held.contains(x) {
            assert(!rems[outs.len() as int].contains(x));
        }
    }
}

} // verus!
