//! An ordered set of strings: distinct entries kept in lexicographic order of
//! their characters (the order of `String`'s `Ord`, since UTF-8 preserves code
//! point order).
//!
//! A `BTreeSet<String>` would give the same contents, but vstd's specification
//! of its `insert` and `contains` holds only for key types known to obey the
//! `Ord` specification, which `String` is not, and leaves the order of its
//! iteration unspecified; a sorted `Vec` lets both be proved.
use crate::text::{chars_of, views};
use vstd::prelude::*;

verus! {

/// Lexicographic strict order on character sequences.
pub open spec fn seq_lt(a: Seq<char>, b: Seq<char>) -> bool
    decreases a.len(),
{
    if a.len() == 0 {
        b.len() > 0
    } else if b.len() == 0 {
        false
    } else if a[0] != b[0] {
        a[0] < b[0]
    } else {
        seq_lt(a.drop_first(), b.drop_first())
    }
}

/// `seq_lt` is irreflexive.
pub proof fn lemma_lt_irreflexive(a: Seq<char>)
    ensures
        !seq_lt(a, a),
    decreases a.len(),
{
    if a.len() > 0 {
        lemma_lt_irreflexive(a.drop_first());
    }
}

/// Two sequences that are not ordered either way are equal.
pub proof fn lemma_lt_total(a: Seq<char>, b: Seq<char>)
    ensures
        seq_lt(a, b) || seq_lt(b, a) || a == b,
    decreases a.len(),
{
    if a.len() > 0 && b.len() > 0 {
        if a[0] == b[0] {
            lemma_lt_total(a.drop_first(), b.drop_first());
            if a.drop_first() == b.drop_first() {
                assert(a =~= seq![a[0]] + a.drop_first());
                assert(b =~= seq![b[0]] + b.drop_first());
            }
        }
    } else if a.len() == 0 && b.len() == 0 {
        assert(a =~= b);
    }
}

/// `seq_lt` is transitive.
pub proof fn lemma_lt_transitive(a: Seq<char>, b: Seq<char>, c: Seq<char>)
    requires
        seq_lt(a, b),
        seq_lt(b, c),
    ensures
        seq_lt(a, c),
    decreases a.len(),
{
    if a.len() > 0 && b.len() > 0 && c.len() > 0 {
        if a[0] == b[0] && b[0] == c[0] {
            lemma_lt_transitive(a.drop_first(), b.drop_first(), c.drop_first());
        }
    }
}

/// Whether a sequence is strictly increasing.
pub open spec fn strictly_sorted(s: Seq<Seq<char>>) -> bool {
    forall|i: int, j: int| 0 <= i < j < s.len() ==> seq_lt(#[trigger] s[i], #[trigger] s[j])
}

/// The sorted sequence after adding `x` (unchanged when already present).
pub open spec fn sorted_insert(s: Seq<Seq<char>>, x: Seq<char>) -> Seq<Seq<char>> {
    if s.contains(x) {
        s
    } else {
        let p = s.filter(|e: Seq<char>| seq_lt(e, x)).len() as int;
        s.insert(p, x)
    }
}

/// Executable lexicographic comparison.
pub fn str_lt(a: &str, b: &str) -> (lt: bool)
    ensures
        lt == seq_lt(a@, b@),
{
    let x = chars_of(a);
    let y = chars_of(b);
    let mut i: usize = 0;
    assert(x@.skip(0) =~= x@);
    assert(y@.skip(0) =~= y@);
    while i < x.len() && i < y.len() && x[i] == y[i]
        invariant
            i <= x.len(),
            i <= y.len(),
            seq_lt(x@, y@) == seq_lt(x@.skip(i as int), y@.skip(i as int)),
        decreases x.len() - i,
    {
        proof {
            let xs = x@.skip(i as int);
            let ys = y@.skip(i as int);
            assert(xs.drop_first() =~= x@.skip(i + 1));
            assert(ys.drop_first() =~= y@.skip(i + 1));
        }
        i = i + 1;
    }
    proof {
        let xs = x@.skip(i as int);
        let ys = y@.skip(i as int);
        if i < x.len() && i < y.len() {
            assert(xs[0] == x@[i as int]);
            assert(ys[0] == y@[i as int]);
        }
    }
    if i == x.len() {
        i < y.len()
    } else if i == y.len() {
        false
    } else {
        x[i] < y[i]
    }
}

/// A set of distinct strings kept in increasing order.
#[derive(Debug, Default)]
pub struct SortedStrings {
    items: Vec<String>,
}

impl View for SortedStrings {
    type V = Seq<Seq<char>>;

    closed spec fn view(&self) -> Seq<Seq<char>> {
        views(self.items@)
    }
}

impl SortedStrings {
    /// Whether the entries are strictly increasing.
    pub closed spec fn wf(&self) -> bool {
        strictly_sorted(self@)
    }

    /// An empty set.
    pub fn new() -> (s: Self)
        ensures
            s.wf(),
            s@ == Seq::<Seq<char>>::empty(),
    {
        let s = SortedStrings { items: Vec::new() };
        assert(s@ =~= Seq::<Seq<char>>::empty());
        s
    }

    /// Number of entries.
    pub fn len(&self) -> (n: usize)
        ensures
            n == self@.len(),
    {
        self.items.len()
    }

    /// Adds `value`, keeping the entries sorted and distinct.
    pub fn insert(&mut self, value: String)
        requires
            old(self).wf(),
        ensures
            final(self).wf(),
            final(self)@ == sorted_insert(old(self)@, value@),
    {
        let ghost s = self@;
        let ghost x = value@;
        let mut p: usize = 0;
        loop
            invariant
                p <= self.items.len(),
                s == self@,
                strictly_sorted(s),
                x == value@,
                forall|i: int| 0 <= i < p ==> seq_lt(#[trigger] s[i], x),
            ensures
                p <= self.items.len(),
                forall|i: int| 0 <= i < p ==> seq_lt(#[trigger] s[i], x),
                p < self.items.len() ==> !seq_lt(s[p as int], x),
            decreases self.items.len() - p,
        {
            if p == self.items.len() {
                break;
            }
            assert(s[p as int] == self.items@[p as int]@);
            if !str_lt(self.items[p].as_str(), value.as_str()) {
                break;
            }
            p = p + 1;
        }
        proof {
            if p < s.len() {
                assert(s[p as int] == self.items@[p as int]@);
            }
            // Every entry at or after `p` is not below `x`.
            assert forall|j: int| p <= j < s.len() implies !seq_lt(#[trigger] s[j], x) by {
                if j > p {
                    assert(!seq_lt(s[p as int], x));
                    lemma_lt_total(s[p as int], x);
                    assert(seq_lt(s[p as int], s[j]));
                    if seq_lt(s[j], x) {
                        if s[p as int] == x {
                            lemma_lt_transitive(x, s[j], x);
                            lemma_lt_irreflexive(x);
                        } else {
                            lemma_lt_transitive(x, s[p as int], s[j]);
                            lemma_lt_transitive(x, s[j], x);
                            lemma_lt_irreflexive(x);
                        }
                    }
                }
            }
            lemma_filter_prefix(s, x, p as int);
        }
        if p < self.items.len() && !str_lt(value.as_str(), self.items[p].as_str()) {
            proof {
                assert(s[p as int] == self.items@[p as int]@);
                lemma_lt_total(x, s[p as int]);
                assert(s.contains(x));
            }
            return;
        }
        proof {
            assert forall|j: int| 0 <= j < s.len() implies s[j] != x by {
                if j < p {
                    lemma_lt_irreflexive(x);
                } else if j == p {
                    assert(s[p as int] == self.items@[p as int]@);
                    lemma_lt_irreflexive(x);
                } else {
                    assert(s[p as int] == self.items@[p as int]@);
                    lemma_lt_transitive(x, s[p as int], s[j]);
                    lemma_lt_irreflexive(x);
                }
            }
        }
        let ghost before = self.items@;
        self.items.insert(p, value);
        proof {
            assert(self@ =~= s.insert(p as int, x));
            let t = self@;
            assert forall|i: int, j: int| 0 <= i < j < t.len() implies seq_lt(#[trigger] t[i], #[trigger] t[j]) by {
                if i < p {
                    assert(t[i] == s[i]);
                }
                if j < p {
                    assert(t[j] == s[j]);
                }
                if i == p || j == p {
                    assert(t[p as int] == x);
                }
                if j < p {
                } else if i < p && j == p {
                } else if i < p && j > p {
                    assert(t[j] == s[j - 1]);
                    lemma_lt_transitive(t[i], x, s[p as int]);
                    if j - 1 > p {
                        lemma_lt_transitive(t[i], s[p as int], s[j - 1]);
                    }
                } else if i == p {
                    assert(t[j] == s[j - 1]);
                    if j - 1 > p {
                        lemma_lt_transitive(x, s[p as int], s[j - 1]);
                    }
                } else {
                    assert(t[i] == s[i - 1]);
                    assert(t[j] == s[j - 1]);
                }
            }
        }
    }

    /// The entries, in increasing order, borrowed.
    pub fn items(&self) -> (v: &Vec<String>)
        ensures
            views(v@) == self@,
    {
        &self.items
    }

    /// The entries, in increasing order.
    pub fn into_vec(self) -> (v: Vec<String>)
        ensures
            views(v@) == self@,
    {
        self.items
    }
}

/// In a sorted sequence whose first `p` entries lie below `x` and whose other
/// entries do not, exactly `p` entries lie below `x`.
proof fn lemma_filter_prefix(s: Seq<Seq<char>>, x: Seq<char>, p: int)
    requires
        0 <= p <= s.len(),
        forall|i: int| 0 <= i < p ==> seq_lt(#[trigger] s[i], x),
        forall|j: int| p <= j < s.len() ==> !seq_lt(#[trigger] s[j], x),
    ensures
        s.filter(|e: Seq<char>| seq_lt(e, x)).len() == p,
    decreases s.len(),
{
    reveal(Seq::filter);
    if s.len() > 0 {
        let t = s.drop_last();
        if p == s.len() {
            lemma_filter_prefix(t, x, p - 1);
            assert(seq_lt(s.last(), x));
        } else {
            lemma_filter_prefix(t, x, p);
            assert(!seq_lt(s.last(), x));
        }
    }
}

} // verus!
