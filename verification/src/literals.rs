//! A multi-literal search over a byte haystack.
//!
//! The matching engine consults this before falling back to full automaton
//! simulation: the earliest position where any registered literal occurs is
//! the earliest position where a match could possibly start, so everything
//! before it can be skipped.

use vstd::prelude::*;

verus! {

/// Whether `lit` occurs in `hay` starting at position `p`.
pub open spec fn match_at(lit: Seq<u8>, hay: Seq<u8>, p: int) -> bool {
    &&& 0 <= p
    &&& p + lit.len() <= hay.len()
    &&& hay.subrange(p, p + lit.len()) == lit
}

/// Whether any of the literals occurs in `hay` starting at position `p`.
pub open spec fn occurs_at(lits: Seq<Seq<u8>>, hay: Seq<u8>, p: int) -> bool {
    exists|j: int| 0 <= j < lits.len() && match_at(#[trigger] lits[j], hay, p)
}

/// Occurrences in a suffix are occurrences in the whole haystack, shifted by
/// where the suffix starts.
pub proof fn lemma_occurs_at_skip(lits: Seq<Seq<u8>>, hay: Seq<u8>, a: int, p: int)
    requires
        0 <= a <= hay.len(),
        0 <= p,
    ensures
        occurs_at(lits, hay.skip(a), p) <==> occurs_at(lits, hay, a + p),
{
    let suf = hay.skip(a);
    if occurs_at(lits, suf, p) {
        let j = choose|j: int| 0 <= j < lits.len() && match_at(lits[j], suf, p);
        assert(hay.subrange(a + p, a + p + lits[j].len()) =~= suf.subrange(p, p + lits[j].len()));
        assert(match_at(lits[j], hay, a + p));
    }
    if occurs_at(lits, hay, a + p) {
        let j = choose|j: int| 0 <= j < lits.len() && match_at(lits[j], hay, a + p);
        assert(suf.subrange(p, p + lits[j].len()) =~= hay.subrange(a + p, a + p + lits[j].len()));
        assert(match_at(lits[j], suf, p));
    }
}

/// The earliest occurrence in the suffix of `hay` starting at `a` is the
/// earliest occurrence at or after `a` in all of `hay`: a scan that resolves
/// to relative position `p` names the absolute position `a + p`, and no
/// occurrence lies between `a` and that position.
pub proof fn lemma_earliest_in_suffix(lits: Seq<Seq<u8>>, hay: Seq<u8>, a: int, p: int)
    requires
        0 <= a <= hay.len(),
        0 <= p,
        occurs_at(lits, hay.skip(a), p),
        forall|q: int| 0 <= q < p ==> !occurs_at(lits, hay.skip(a), q),
    ensures
        occurs_at(lits, hay, a + p),
        forall|q: int| a <= q < a + p ==> !occurs_at(lits, hay, q),
{
    lemma_occurs_at_skip(lits, hay, a, p);
    assert forall|q: int| a <= q < a + p implies !occurs_at(lits, hay, q) by {
        lemma_occurs_at_skip(lits, hay, a, q - a);
    }
}

/// A set of byte literals, searched for by earliest occurrence. Its view is
/// the sequence of the registered literals.
pub struct LiteralSearcher {
    lits: Vec<Vec<u8>>,
}

impl View for LiteralSearcher {
    type V = Seq<Seq<u8>>;

    closed spec fn view(&self) -> Seq<Seq<u8>> {
        self.lits@.map_values(|l: Vec<u8>| l@)
    }
}

impl LiteralSearcher {
    /// A searcher over the given literals.
    pub fn new(lits: Vec<Vec<u8>>) -> (r: LiteralSearcher)
        ensures
            r@.len() == lits@.len(),
            forall|j: int| 0 <= j < lits@.len() ==> r@[j] == #[trigger] lits@[j]@,
    {
        LiteralSearcher { lits }
    }

    /// A searcher with no literals; it never finds anything.
    pub fn empty() -> (r: LiteralSearcher)
        ensures
            r@.len() == 0,
    {
        LiteralSearcher { lits: Vec::new() }
    }

    /// The number of registered literals.
    pub fn num_literals(&self) -> (r: usize)
        ensures
            r == self@.len(),
    {
        self.lits.len()
    }

    /// Searches `hay` for the earliest occurrence of any registered literal.
    ///
    /// Returns the start and end offsets of that occurrence, or `None` when
    /// no literal occurs anywhere in `hay`.
    pub fn find(&self, hay: &[u8]) -> (r: Option<(usize, usize)>)
        ensures
            ({
                match r {
                    None => forall|p: int| !occurs_at(self@, hay@, p),
                    Some(m) => {
                        &&& m.0 <= m.1 <= hay@.len()
                        &&& exists|j: int|
                            0 <= j < self@.len() && match_at(
                                #[trigger] self@[j],
                                hay@,
                                m.0 as int,
                            ) && m.1 == m.0 + self@[j].len()
                        &&& forall|q: int| 0 <= q < m.0 ==> !occurs_at(self@, hay@, q)
                    },
                }
            }),
    {
        // an empty literal occurs at every position, the start included
        let mut j: usize = 0;
        while j < self.lits.len()
            invariant
                j <= self.lits@.len(),
                self@.len() == self.lits@.len(),
                forall|k: int| 0 <= k < self.lits@.len() ==> self@[k] == #[trigger] self.lits@[k]@,
                forall|k: int| 0 <= k < j ==> #[trigger] self@[k].len() > 0,
            decreases self.lits@.len() - j,
        {
            if self.lits[j].len() == 0 {
                assert(hay@.subrange(0, 0) =~= self@[j as int]);
                return Some((0, 0));
            }
            j += 1;
        }
        let n = hay.len();
        let mut p: usize = 0;
        while p < n
            invariant
                p <= n,
                n == hay@.len(),
                self@.len() == self.lits@.len(),
                forall|k: int| 0 <= k < self.lits@.len() ==> self@[k] == #[trigger] self.lits@[k]@,
                forall|k: int| 0 <= k < self@.len() ==> #[trigger] self@[k].len() > 0,
                forall|q: int| 0 <= q < p ==> !occurs_at(self@, hay@, q),
            decreases n - p,
        {
            let mut j: usize = 0;
            while j < self.lits.len()
                invariant
                    j <= self.lits@.len(),
                    p < n,
                    n == hay@.len(),
                    self@.len() == self.lits@.len(),
                    forall|k: int|
                        0 <= k < self.lits@.len() ==> self@[k] == #[trigger] self.lits@[k]@,
                    forall|k: int| 0 <= k < j ==> !match_at(#[trigger] self@[k], hay@, p as int),
                    forall|q: int| 0 <= q < p ==> !occurs_at(self@, hay@, q),
                decreases self.lits@.len() - j,
            {
                if Self::match_here(&self.lits[j], hay, p) {
                    return Some((p, p + self.lits[j].len()));
                }
                j += 1;
            }
            assert(!occurs_at(self@, hay@, p as int));
            p += 1;
        }
        proof {
            assert forall|q: int| !occurs_at(self@, hay@, q) by {
                if 0 <= q < n {
                    assert(!occurs_at(self@, hay@, q));
                }
            }
        }
        None
    }

    /// Whether `lit` occurs in `hay` starting exactly at `p`.
    fn match_here(lit: &Vec<u8>, hay: &[u8], p: usize) -> (r: bool)
        requires
            p <= hay@.len(),
        ensures
            r == match_at(lit@, hay@, p as int),
    {
        let hn = hay.len();
        if lit.len() > hn - p {
            return false;
        }
        let mut k: usize = 0;
        while k < lit.len()
            invariant
                k <= lit@.len(),
                hn == hay@.len(),
                p + lit@.len() <= hn,
                forall|m: int| 0 <= m < k ==> hay@[p + m] == #[trigger] lit@[m],
            decreases lit@.len() - k,
        {
            if hay[p + k] != lit[k] {
                assert(hay@.subrange(p as int, p + lit@.len())[k as int] == hay@[p + k]);
                return false;
            }
            k += 1;
        }
        assert(hay@.subrange(p as int, p + lit@.len()) =~= lit@);
        true
    }
}

} // verus!
