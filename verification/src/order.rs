//! Orders used to sort reports: lexicographic order on text (the order of
//! `str`/`String` comparison) and a stable insertion sort over any type with
//! a proved total preorder.
use vstd::prelude::*;
use crate::text::chars_of;
use vstd::multiset::Multiset;

verus! {

/// Three-way comparison result.
#[derive(Clone, Copy, Debug, PartialEq, Eq, Structural)]
pub enum Order3 {
    Less,
    Equal,
    Greater,
}

/// Strict lexicographic order on character sequences (code point order, which
/// is also the byte order of their UTF-8 encodings).
pub open spec fn chars_lt(a: Seq<char>, b: Seq<char>) -> bool
    decreases a.len(),
{
    if a.len() == 0 {
        b.len() > 0
    } else if b.len() == 0 {
        false
    } else if a[0] < b[0] {
        true
    } else if a[0] == b[0] {
        chars_lt(a.drop_first(), b.drop_first())
    } else {
        false
    }
}

pub proof fn lemma_chars_lt_irrefl(a: Seq<char>)
    ensures
        !chars_lt(a, a),
    decreases a.len(),
{
    if a.len() > 0 {
        lemma_chars_lt_irrefl(a.drop_first());
    }
}

pub proof fn lemma_chars_lt_trans(a: Seq<char>, b: Seq<char>, c: Seq<char>)
    requires
        chars_lt(a, b),
        chars_lt(b, c),
    ensures
        chars_lt(a, c),
    decreases a.len(),
{
    if a.len() > 0 && b.len() > 0 && c.len() > 0 && a[0] == b[0] && b[0] == c[0] {
        lemma_chars_lt_trans(a.drop_first(), b.drop_first(), c.drop_first());
    }
}

pub proof fn lemma_chars_lt_total(a: Seq<char>, b: Seq<char>)
    ensures
        chars_lt(a, b) || chars_lt(b, a) || a == b,
    decreases a.len(),
{
    if a.len() > 0 && b.len() > 0 {
        if a[0] == b[0] {
            lemma_chars_lt_total(a.drop_first(), b.drop_first());
            if a.drop_first() == b.drop_first() {
                assert(a =~= seq![a[0]] + a.drop_first());
                assert(b =~= seq![b[0]] + b.drop_first());
            }
        }
    } else if a.len() == 0 && b.len() == 0 {
        assert(a =~= b);
    }
}

pub proof fn lemma_chars_lt_asym(a: Seq<char>, b: Seq<char>)
    requires
        chars_lt(a, b),
    ensures
        !chars_lt(b, a),
{
    if chars_lt(b, a) {
        lemma_chars_lt_trans(a, b, a);
        lemma_chars_lt_irrefl(a);
    }
}

/// The three-way comparison `chars_lt` induces.
pub open spec fn chars_order(a: Seq<char>, b: Seq<char>) -> Order3 {
    if chars_lt(a, b) {
        Order3::Less
    } else if a == b {
        Order3::Equal
    } else {
        Order3::Greater
    }
}

/// Compares two character slices lexicographically.
pub fn compare_chars(a: &[char], b: &[char]) -> (r: Order3)
    ensures
        r == chars_order(a@, b@),
        r == Order3::Greater ==> chars_lt(b@, a@),
{
    let mut i: usize = 0;
    assert(a@.skip(0) =~= a@);
    assert(b@.skip(0) =~= b@);
    while i < a.len() && i < b.len()
        invariant
            i <= a@.len(),
            i <= b@.len(),
            a@.take(i as int) == b@.take(i as int),
            chars_lt(a@, b@) == chars_lt(a@.skip(i as int), b@.skip(i as int)),
            chars_lt(b@, a@) == chars_lt(b@.skip(i as int), a@.skip(i as int)),
        decreases a.len() - i,
    {
        let x = a[i];
        let y = b[i];
        proof {
            assert(a@.skip(i as int)[0] == x);
            assert(b@.skip(i as int)[0] == y);
            assert(a@.skip(i as int).drop_first() =~= a@.skip(i + 1));
            assert(b@.skip(i as int).drop_first() =~= b@.skip(i + 1));
        }
        if x < y {
            proof {
                lemma_chars_lt_asym(a@, b@);
            }
            return Order3::Less;
        }
        if x != y {
            proof {
                assert(y < x);
                lemma_chars_lt_asym(b@, a@);
                if a@ == b@ {
                    lemma_chars_lt_irrefl(a@);
                }
            }
            return Order3::Greater;
        }
        assert(a@.take(i + 1) =~= a@.take(i as int).push(x));
        assert(b@.take(i + 1) =~= b@.take(i as int).push(y));
        i += 1;
    }
    proof {
        assert(a@.take(i as int) == b@.take(i as int));
    }
    if a.len() == b.len() {
        proof {
            assert(a@ =~= a@.take(i as int));
            assert(b@ =~= b@.take(i as int));
            lemma_chars_lt_irrefl(a@);
        }
        Order3::Equal
    } else if a.len() < b.len() {
        proof {
            assert(a@.skip(i as int).len() == 0);
            lemma_chars_lt_asym(a@, b@);
            if a@ == b@ {
            }
        }
        Order3::Less
    } else {
        proof {
            assert(b@.skip(i as int).len() == 0);
            lemma_chars_lt_asym(b@, a@);
        }
        Order3::Greater
    }
}

/// Compares two strings in `String` order.
pub fn compare_strings(a: &String, b: &String) -> (r: Order3)
    ensures
        r == chars_order(a@, b@),
        r == Order3::Greater ==> chars_lt(b@, a@),
{
    let x = chars_of(a.as_str());
    let y = chars_of(b.as_str());
    compare_chars(x.as_slice(), y.as_slice())
}

/// A total preorder on values, proved by each implementation.
pub trait Preorder: Sized {
    /// `self` sorts strictly before `other`.
    spec fn before(&self, other: &Self) -> bool;

    proof fn before_irrefl(a: &Self)
        ensures
            !a.before(a),
    ;

    proof fn before_trans(a: &Self, b: &Self, c: &Self)
        requires
            a.before(b),
            b.before(c),
        ensures
            a.before(c),
    ;

    /// Not-before is transitive too (ties are an equivalence).
    proof fn not_before_trans(a: &Self, b: &Self, c: &Self)
        requires
            !b.before(a),
            !c.before(b),
        ensures
            !c.before(a),
    ;

    fn is_before(&self, other: &Self) -> (r: bool)
        ensures
            r == self.before(other),
    ;
}

/// No element sorts strictly before an element on its left.
pub open spec fn sorted_by_before<T: Preorder>(s: Seq<T>) -> bool {
    forall|i: int, j: int| 0 <= i < j < s.len() ==> !s[j].before(&s[i])
}

/// Inserts `x` after every element that `x` does not sort before.
fn insert_sorted<T: Preorder>(v: &mut Vec<T>, x: T)
    requires
        sorted_by_before(old(v)@),
    ensures
        sorted_by_before(final(v)@),
        final(v)@.to_multiset() == old(v)@.to_multiset().insert(x),
        final(v)@.len() == old(v)@.len() + 1,
{
    let mut p: usize = v.len();
    let mut i: usize = 0;
    while i < v.len()
        invariant
            i <= v@.len(),
            sorted_by_before(v@),
            forall|k: int| 0 <= k < i ==> !x.before(&v@[k]),
            v@ == old(v)@,
        ensures
            i <= v@.len(),
            forall|k: int| 0 <= k < i ==> !x.before(&v@[k]),
            i < v@.len() ==> x.before(&v@[i as int]),
            v@ == old(v)@,
        decreases v.len() - i,
    {
        if x.is_before(&v[i]) {
            break;
        }
        i += 1;
    }
    p = i;
    let ghost s = v@;
    proof {
        assert forall|k: int| p <= k < s.len() implies !s[k].before(&x) by {
            if p < s.len() {
                assert(x.before(&s[p as int]));
                if s[k].before(&x) {
                    T::before_trans(&s[k], &x, &s[p as int]);
                    if k == p {
                        T::before_irrefl(&s[k]);
                    }
                }
            }
        }
        s.insert_ensures(p as int, x);
        s.to_multiset_ensures();
    }
    v.insert(p, x);
    proof {
        let r = v@;
        assert(r == s.insert(p as int, x));
        assert forall|a: int, b: int| 0 <= a < b < r.len() implies !r[b].before(&r[a]) by {
            if a < p && b < p {
            } else if a < p && b == p {
            } else if a < p && b > p {
                assert(r[b] == s[b - 1]);
                assert(r[a] == s[a]);
            } else if a == p {
                assert(r[b] == s[b - 1]);
            } else {
                assert(r[b] == s[b - 1]);
                assert(r[a] == s[a - 1]);
            }
        }
        lemma_insert_multiset(s, p as int, x);
    }
}

proof fn lemma_insert_multiset<T>(s: Seq<T>, p: int, x: T)
    requires
        0 <= p <= s.len(),
    ensures
        s.insert(p, x).to_multiset() == s.to_multiset().insert(x),
{
    assert(s.insert(p, x) =~= s.take(p).push(x) + s.skip(p));
    assert(s =~= s.take(p) + s.skip(p));
    vstd::seq_lib::lemma_multiset_commutative(s.take(p).push(x), s.skip(p));
    vstd::seq_lib::lemma_multiset_commutative(s.take(p), s.skip(p));
    s.take(p).to_multiset_ensures();
}

/// Sorts `v` stably by `before`: the result is sorted and holds the same
/// elements.
pub fn sort_by_before<T: Preorder>(v: Vec<T>) -> (r: Vec<T>)
    ensures
        sorted_by_before(r@),
        r@.to_multiset() == v@.to_multiset(),
        r@.len() == v@.len(),
{
    let mut v = v;
    let ghost orig = v@;
    let mut out: Vec<T> = Vec::new();
    proof {
        orig.to_multiset_ensures();
        out@.to_multiset_ensures();
    }
    let mut rest: Vec<T> = Vec::new();
    // Move the elements out in reverse so that popping yields them in order.
    while v.len() > 0
        invariant
            rest@ + v@.reverse() == orig.reverse(),
        decreases v.len(),
    {
        let x = v.pop().unwrap();
        proof {
            assert(v@.push(x).reverse() =~= seq![x] + v@.reverse());
        }
        rest.push(x);
        assert(rest@ + v@.reverse() =~= orig.reverse());
    }
    proof {
        assert(rest@ =~= orig.reverse());
        orig.lemma_reverse_to_multiset();
        out@.to_multiset_ensures();
        assert(out@.to_multiset() =~= Multiset::empty());
        assert(out@.to_multiset().add(rest@.to_multiset()) =~= orig.to_multiset());
    }
    while rest.len() > 0
        invariant
            sorted_by_before(out@),
            out@.to_multiset().add(rest@.to_multiset()) == orig.to_multiset(),
            out@.len() + rest@.len() == orig.len(),
        decreases rest.len(),
    {
        let ghost before_rest = rest@;
        let x = rest.pop().unwrap();
        proof {
            assert(before_rest =~= rest@.push(x));
            before_rest.to_multiset_ensures();
            rest@.to_multiset_ensures();
        }
        insert_sorted(&mut out, x);
        proof {
            assert(out@.to_multiset().add(rest@.to_multiset()) =~= orig.to_multiset());
        }
    }
    proof {
        rest@.to_multiset_ensures();
        assert(rest@.to_multiset() =~= Multiset::empty());
        assert(out@.to_multiset() =~= orig.to_multiset());
    }
    out
}

} // verus!
