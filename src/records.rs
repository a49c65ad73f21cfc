//! An in-memory record store, for running queries without a database.

use crate::lookup::{cap_of, Lookup};
use crate::query::Product;
use vstd::prelude::*;

verus! {

/// What `str::to_lowercase` returns for a text.
pub uninterp spec fn lower_of(s: Seq<char>) -> Seq<char>;

/// Relies on `str::to_lowercase`: the lower-case form of a text, which
/// depends on its characters alone.
#[verifier::external_body]
fn lowercase(s: &str) -> (r: String)
    ensures
        r@ == lower_of(s@),
{
    s.to_lowercase()
}

/// Whether `n` occurs in `h` starting at position `i`.
pub open spec fn occurs_at(h: Seq<char>, n: Seq<char>, i: int) -> bool {
    0 <= i && i + n.len() <= h.len() && h.subrange(i, i + n.len()) == n
}

/// Whether `n` occurs in `h`.
pub open spec fn occurs_in(h: Seq<char>, n: Seq<char>) -> bool {
    exists|i: int| occurs_at(h, n, i)
}

/// Whether a record answers a lookup: the same identifier, or a display
/// name that holds the fragment, ignoring case.
pub open spec fn answers(l: Lookup, p: Product) -> bool {
    match l {
        Lookup::ById { product_id } => p.product_id@ == product_id@,
        Lookup::ByName { fragment, .. } => occurs_in(
            lower_of(p.product_display_name@),
            lower_of(fragment@),
        ),
    }
}

/// The records of `s` that answer `l`, in order.
pub open spec fn answering(l: Lookup, s: Seq<Product>) -> Seq<Product>
    decreases s.len(),
{
    if s.len() == 0 {
        Seq::empty()
    } else if answers(l, s.last()) {
        answering(l, s.drop_last()).push(s.last())
    } else {
        answering(l, s.drop_last())
    }
}

/// What a lookup returns from `s`: the first records that answer it, up to
/// its cap.
pub open spec fn lookup_result(l: Lookup, s: Seq<Product>) -> Seq<Product> {
    let m = answering(l, s);
    if m.len() <= cap_of(l) {
        m
    } else {
        m.take(cap_of(l) as int)
    }
}

/// Lookups that every record answers alike, with one cap, return alike.
pub proof fn lemma_alike_lookups(l1: Lookup, l2: Lookup, s: Seq<Product>)
    requires
        forall|x: Product| answers(l1, x) == answers(l2, x),
        cap_of(l1) == cap_of(l2),
    ensures
        lookup_result(l1, s) == lookup_result(l2, s),
{
    lemma_alike_answering(l1, l2, s);
}

proof fn lemma_alike_answering(l1: Lookup, l2: Lookup, s: Seq<Product>)
    requires
        forall|x: Product| answers(l1, x) == answers(l2, x),
    ensures
        answering(l1, s) == answering(l2, s),
    decreases s.len(),
{
    if s.len() > 0 {
        lemma_alike_answering(l1, l2, s.drop_last());
    }
}

proof fn lemma_answering_split(l: Lookup, s: Seq<Product>, i: int)
    requires
        0 <= i <= s.len(),
    ensures
        answering(l, s) == answering(l, s.take(i)) + answering(l, s.subrange(i, s.len() as int)),
    decreases s.len(),
{
    if i == s.len() {
        assert(s.take(i) =~= s);
        assert(s.subrange(i, s.len() as int) =~= Seq::<Product>::empty());
        assert(answering(l, s.take(i)) + Seq::<Product>::empty() =~= answering(l, s.take(i)));
    } else {
        let t = s.drop_last();
        lemma_answering_split(l, t, i);
        assert(t.take(i) =~= s.take(i));
        let rest = s.subrange(i, s.len() as int);
        assert(rest.drop_last() =~= t.subrange(i, t.len() as int));
        assert(rest.last() == s.last());
        if answers(l, s.last()) {
            assert(answering(l, s) =~= answering(l, s.take(i)) + answering(l, rest));
        } else {
            assert(answering(l, s) =~= answering(l, s.take(i)) + answering(l, rest));
        }
    }
}

/// Whether `n` occurs in `h` at `i`, for a position where it fits.
fn occurs_at_exec(h: &str, n: &str, i: usize, hl: usize, nl: usize) -> (r: bool)
    requires
        hl == h@.len(),
        nl == n@.len(),
        i + nl <= hl,
    ensures
        r == occurs_at(h@, n@, i as int),
{
    let mut j: usize = 0;
    while j < nl
        invariant
            hl == h@.len(),
            nl == n@.len(),
            i + nl <= hl,
            j <= nl,
            forall|k: int| 0 <= k < j ==> h@[i + k] == n@[k],
        decreases nl - j,
    {
        if h.get_char(i + j) != n.get_char(j) {
            assert(h@.subrange(i as int, i + nl)[j as int] != n@[j as int]);
            return false;
        }
        j = j + 1;
    }
    assert(h@.subrange(i as int, i + nl) =~= n@);
    true
}

/// Whether `n` occurs in `h`.
pub fn contains_text(h: &str, n: &str) -> (r: bool)
    ensures
        r == occurs_in(h@, n@),
{
    let hl = h.unicode_len();
    let nl = n.unicode_len();
    if nl > hl {
        return false;
    }
    let mut i: usize = 0;
    loop
        invariant
            hl == h@.len(),
            nl == n@.len(),
            nl <= hl,
            i <= hl - nl,
            forall|k: int| 0 <= k < i ==> !occurs_at(h@, n@, k),
        decreases hl - nl - i,
    {
        if occurs_at_exec(h, n, i, hl, nl) {
            return true;
        }
        if i == hl - nl {
            return false;
        }
        i = i + 1;
    }
}

/// Records held in memory, with a count of the lookups run on them.
pub struct MemoryRecords {
    pub products: Vec<Product>,
    pub lookups: u64,
}

impl MemoryRecords {
    pub fn new(products: Vec<Product>) -> (r: Self)
        ensures
            r.products == products,
            r.lookups == 0,
    {
        MemoryRecords { products, lookups: 0 }
    }

    fn answers_exec(lookup: &Lookup, p: &Product) -> (r: bool)
        ensures
            r == answers(*lookup, *p),
    {
        match lookup {
            Lookup::ById { product_id } => p.product_id.eq(product_id),
            Lookup::ByName { fragment, .. } => {
                let name = lowercase(p.product_display_name.as_str());
                let frag = lowercase(fragment.as_str());
                contains_text(name.as_str(), frag.as_str())
            },
        }
    }

    /// Runs a lookup: the first records, in store order, that answer it, up
    /// to its cap. The count of lookups goes up by one, and stops at its
    /// largest value.
    pub fn find(&mut self, lookup: &Lookup) -> (r: Vec<Product>)
        ensures
            r@ == lookup_result(*lookup, old(self).products@),
            final(self).products == old(self).products,
            final(self).lookups == if old(self).lookups < u64::MAX {
                old(self).lookups + 1
            } else {
                old(self).lookups as int
            },
    {
        if self.lookups < u64::MAX {
            self.lookups = self.lookups + 1;
        }
        let cap: usize = match lookup {
            Lookup::ById { .. } => 1,
            Lookup::ByName { limit, .. } => *limit,
        };
        let n = self.products.len();
        let mut out: Vec<Product> = Vec::new();
        let mut i: usize = 0;
        while i < n && out.len() < cap
            invariant
                n == self.products@.len(),
                cap == cap_of(*lookup),
                i <= n,
                out@ == answering(*lookup, self.products@.take(i as int)),
                out@.len() <= cap,
            decreases n - i,
        {
            let p = &self.products[i];
            let hit = Self::answers_exec(lookup, p);
            proof {
                let t = self.products@.take(i as int + 1);
                assert(t.drop_last() =~= self.products@.take(i as int));
                assert(t.last() == self.products@[i as int]);
            }
            if hit {
                out.push(p.clone());
            }
            i = i + 1;
        }
        proof {
            let s = self.products@;
            lemma_answering_split(*lookup, s, i as int);
            let m = answering(*lookup, s);
            if i == n {
                assert(s.take(i as int) =~= s);
                assert(s.subrange(i as int, s.len() as int) =~= Seq::<Product>::empty());
                assert(m =~= out@);
            } else {
                assert(out@.len() == cap);
                assert(m.take(cap as int) =~= out@);
            }
        }
        out
    }
}

} // verus!
