//! The order of strings (that of Rust's `String`, which compares by code
//! point) and sorted, duplicate-free collections of strings.

use vstd::prelude::*;
use crate::text::range_string;

verus! {

/// `a` comes strictly before `b`: the lexicographic order of code points,
/// which is the order `Ord for String` uses.
pub open spec fn seq_lt(a: Seq<char>, b: Seq<char>) -> bool
    decreases a.len(),
{
    if a.len() == 0 {
        b.len() > 0
    } else if b.len() == 0 {
        false
    } else if a[0] != b[0] {
        (a[0] as int) < (b[0] as int)
    } else {
        seq_lt(a.drop_first(), b.drop_first())
    }
}

/// No string comes before itself.
pub proof fn lemma_lt_irreflexive(a: Seq<char>)
    ensures
        !seq_lt(a, a),
    decreases a.len(),
{
    if a.len() > 0 {
        lemma_lt_irreflexive(a.drop_first());
    }
}

/// The order is transitive.
pub proof fn lemma_lt_transitive(a: Seq<char>, b: Seq<char>, c: Seq<char>)
    requires
        seq_lt(a, b),
        seq_lt(b, c),
    ensures
        seq_lt(a, c),
    decreases a.len(),
{
    if a.len() > 0 && b.len() > 0 && c.len() > 0 && a[0] == b[0] && b[0] == c[0] {
        lemma_lt_transitive(a.drop_first(), b.drop_first(), c.drop_first());
    }
}

/// Two different strings are ordered one way or the other.
pub proof fn lemma_lt_total(a: Seq<char>, b: Seq<char>)
    requires
        a != b,
    ensures
        seq_lt(a, b) || seq_lt(b, a),
    decreases a.len(),
{
    if a.len() > 0 && b.len() > 0 && a[0] == b[0] {
        if a.drop_first() == b.drop_first() {
            assert(a =~= seq![a[0]] + a.drop_first());
            assert(b =~= seq![b[0]] + b.drop_first());
        }
        lemma_lt_total(a.drop_first(), b.drop_first());
    } else if a.len() == 0 && b.len() == 0 {
        assert(a =~= b);
    } else if a.len() > 0 && b.len() > 0 {
        assert(a[0] != b[0]);
        assert((a[0] as int) != (b[0] as int));
    }
}

/// No two strings come before each other.
pub proof fn lemma_lt_asymmetric(a: Seq<char>, b: Seq<char>)
    ensures
        !(seq_lt(a, b) && seq_lt(b, a)),
{
    if seq_lt(a, b) && seq_lt(b, a) {
        lemma_lt_transitive(a, b, a);
        lemma_lt_irreflexive(a);
    }
}

proof fn char_code(c: char)
    ensures
        (c as u32) as int == c as int,
        0 <= c as int <= 0x10FFFF,
{
}

/// Decides `seq_lt(a@, b@)`.
pub fn less(a: &Vec<char>, b: &Vec<char>) -> (r: bool)
    ensures
        r == seq_lt(a@, b@),
{
    let mut i: usize = 0;
    assert(a@.skip(0) =~= a@);
    assert(b@.skip(0) =~= b@);
    loop
        invariant
            i <= a.len(),
            i <= b.len(),
            seq_lt(a@, b@) == seq_lt(a@.skip(i as int), b@.skip(i as int)),
        decreases a.len() - i,
    {
        if i == a.len() {
            return i < b.len();
        }
        if i == b.len() {
            return false;
        }
        if a[i] != b[i] {
            proof {
                char_code(a@[i as int]);
                char_code(b@[i as int]);
            }
            return (a[i] as u32) < (b[i] as u32);
        }
        assert(a@.skip(i as int).drop_first() =~= a@.skip(i + 1));
        assert(b@.skip(i as int).drop_first() =~= b@.skip(i + 1));
        i += 1;
    }
}

/// The character sequences that the vectors hold.
pub open spec fn char_seqs(v: Seq<Vec<char>>) -> Seq<Seq<char>> {
    Seq::new(v.len(), |i: int| v[i]@)
}

/// The character sequences that the strings hold.
pub open spec fn strs(v: Seq<String>) -> Seq<Seq<char>> {
    Seq::new(v.len(), |i: int| v[i]@)
}

/// Strictly increasing: sorted, with no element twice.
pub open spec fn sorted_strict(s: Seq<Seq<char>>) -> bool {
    forall|i: int, j: int| 0 <= i < j < s.len() ==> seq_lt(#[trigger] s[i], #[trigger] s[j])
}

/// `a` and `b` hold the same elements, each any number of times.
pub open spec fn same_elements(a: Seq<Seq<char>>, b: Seq<Seq<char>>) -> bool {
    forall|x: Seq<char>| a.contains(x) <==> b.contains(x)
}

/// The elements of `s` in increasing order, each once: what collecting `s`
/// into a `BTreeSet` and walking it yields.
pub open spec fn sorted_set(s: Seq<Seq<char>>) -> Seq<Seq<char>> {
    choose|r: Seq<Seq<char>>| sorted_strict(r) && same_elements(r, s)
}

/// Two strictly increasing sequences with the same elements are equal.
pub proof fn lemma_sorted_unique(a: Seq<Seq<char>>, b: Seq<Seq<char>>)
    requires
        sorted_strict(a),
        sorted_strict(b),
        same_elements(a, b),
    ensures
        a == b,
    decreases a.len(),
{
    if a.len() == 0 {
        if b.len() > 0 {
            assert(b.contains(b[0]));
            assert(a.contains(b[0]));
            assert(false);
        }
        assert(a =~= b);
    } else {
        assert(a.contains(a[0]));
        assert(b.contains(a[0]));
        let j = choose|j: int| 0 <= j < b.len() && b[j] == a[0];
        assert(b.contains(b[0]));
        let i = choose|i: int| 0 <= i < a.len() && a[i] == b[0];
        if j > 0 {
            if i > 0 {
                lemma_lt_asymmetric(a[0], a[i]);
            } else {
                lemma_lt_irreflexive(b[0]);
            }
        }
        assert(a[0] == b[0]);
        let a1 = a.drop_first();
        let b1 = b.drop_first();
        assert forall|x: Seq<char>| a1.contains(x) implies b1.contains(x) by {
            let k = choose|k: int| 0 <= k < a1.len() && a1[k] == x;
            assert(a.contains(x));
            assert(a[k + 1] == x);
            lemma_lt_irreflexive(x);
            assert(x != a[0]);
            let m = choose|m: int| 0 <= m < b.len() && b[m] == x;
            assert(m != 0);
            assert(b1[m - 1] == x);
        }
        assert forall|x: Seq<char>| b1.contains(x) implies a1.contains(x) by {
            let k = choose|k: int| 0 <= k < b1.len() && b1[k] == x;
            assert(b.contains(x));
            assert(b[k + 1] == x);
            lemma_lt_irreflexive(x);
            assert(x != b[0]);
            let m = choose|m: int| 0 <= m < a.len() && a[m] == x;
            assert(m != 0);
            assert(a1[m - 1] == x);
        }
        lemma_sorted_unique(a1, b1);
        assert(a =~= seq![a[0]] + a1);
        assert(b =~= seq![b[0]] + b1);
    }
}

/// A strictly increasing sequence with the elements of `s` is `sorted_set(s)`.
pub proof fn lemma_is_sorted_set(r: Seq<Seq<char>>, s: Seq<Seq<char>>)
    requires
        sorted_strict(r),
        same_elements(r, s),
    ensures
        r == sorted_set(s),
{
    let c = sorted_set(s);
    assert(sorted_strict(c) && same_elements(c, s));
    assert(same_elements(r, c));
    lemma_sorted_unique(r, c);
}

/// Inserts `x` into a strictly increasing vector, unless it is there already.
pub fn insert_sorted(v: &mut Vec<Vec<char>>, x: Vec<char>)
    requires
        sorted_strict(char_seqs(old(v)@)),
    ensures
        sorted_strict(char_seqs(final(v)@)),
        forall|y: Seq<char>|
            char_seqs(final(v)@).contains(y) <==> (char_seqs(old(v)@).contains(y) || y == x@),
{
    let ghost old_s = char_seqs(v@);
    let mut i: usize = 0;
    while i < v.len() && less(&v[i], &x)
        invariant
            i <= v.len(),
            v@ == old(v)@,
            old_s == char_seqs(v@),
            forall|k: int| 0 <= k < i ==> seq_lt(#[trigger] v@[k]@, x@),
        decreases v.len() - i,
    {
        i += 1;
    }
    if i < v.len() && !less(&x, &v[i]) {
        proof {
            if v@[i as int]@ != x@ {
                lemma_lt_total(v@[i as int]@, x@);
            }
            assert(old_s[i as int] == x@);
            assert forall|y: Seq<char>|
                char_seqs(v@).contains(y) <==> (old_s.contains(y) || y == x@) by {
                if y == x@ {
                    assert(old_s.contains(y));
                }
            }
        }
        return;
    }
    let ghost xv = x@;
    v.insert(i, x);
    proof {
        let s = char_seqs(v@);
        assert(s =~= old_s.insert(i as int, xv));
        assert forall|a: int, b: int| 0 <= a < b < s.len() implies seq_lt(
            #[trigger] s[a],
            #[trigger] s[b],
        ) by {
            if b < i {
                assert(s[a] == old_s[a] && s[b] == old_s[b]);
            } else if b == i {
                assert(s[a] == old_s[a]);
            } else if a < i {
                assert(s[a] == old_s[a] && s[b] == old_s[b - 1]);
                assert(seq_lt(old_s[a], xv));
                if b - 1 > i {
                    assert(seq_lt(old_s[i as int], old_s[b - 1]));
                }
                lemma_lt_total(old_s[i as int], xv);
                lemma_lt_transitive(old_s[a], xv, old_s[i as int]);
                if b - 1 > i {
                    lemma_lt_transitive(old_s[a], old_s[i as int], old_s[b - 1]);
                }
            } else if a == i {
                assert(s[b] == old_s[b - 1]);
                lemma_lt_total(old_s[i as int], xv);
                if b - 1 > i {
                    assert(seq_lt(old_s[i as int], old_s[b - 1]));
                    lemma_lt_transitive(xv, old_s[i as int], old_s[b - 1]);
                }
            } else {
                assert(s[a] == old_s[a - 1] && s[b] == old_s[b - 1]);
            }
        }
        assert forall|y: Seq<char>| s.contains(y) <==> (old_s.contains(y) || y == xv) by {
            if s.contains(y) {
                let k = choose|k: int| 0 <= k < s.len() && s[k] == y;
                if k < i {
                    assert(old_s[k] == y);
                } else if k > i {
                    assert(old_s[k - 1] == y);
                }
            }
            if old_s.contains(y) {
                let k = choose|k: int| 0 <= k < old_s.len() && old_s[k] == y;
                if k < i {
                    assert(s[k] == y);
                } else {
                    assert(s[k + 1] == y);
                }
            }
            if y == xv {
                assert(s[i as int] == y);
            }
        }
    }
}

/// Converts each character vector into a string.
pub fn into_strings(v: &Vec<Vec<char>>) -> (r: Vec<String>)
    ensures
        strs(r@) == char_seqs(v@),
{
    let mut r: Vec<String> = Vec::new();
    let mut i: usize = 0;
    while i < v.len()
        invariant
            i <= v.len(),
            r.len() == i,
            forall|k: int| 0 <= k < i ==> (#[trigger] r@[k])@ == v@[k]@,
        decreases v.len() - i,
    {
        let s = range_string(&v[i], 0, v[i].len());
        assert(v@[i as int]@.subrange(0, v@[i as int]@.len() as int) =~= v@[i as int]@);
        r.push(s);
        i += 1;
    }
    assert(strs(r@) =~= char_seqs(v@));
    r
}

/// Adding one element to a collection keeps it in step with a sequence
/// that gains the same element.
pub proof fn lemma_same_elements_push(
    before: Seq<Seq<char>>,
    after: Seq<Seq<char>>,
    s: Seq<Seq<char>>,
    x: Seq<char>,
)
    requires
        same_elements(before, s),
        forall|y: Seq<char>| after.contains(y) <==> (before.contains(y) || y == x),
    ensures
        same_elements(after, s.push(x)),
{
    assert forall|y: Seq<char>| after.contains(y) <==> s.push(x).contains(y) by {
        if s.push(x).contains(y) {
            let k = choose|k: int| 0 <= k < s.push(x).len() && s.push(x)[k] == y;
            if k < s.len() {
                assert(s[k] == y);
            }
        }
        if s.contains(y) {
            let k = choose|k: int| 0 <= k < s.len() && s[k] == y;
            assert(s.push(x)[k] == y);
        }
        if y == x {
            assert(s.push(x)[s.len() as int] == y);
        }
    }
}

/// A collection with the same elements as a sequence is empty exactly when
/// the sequence is.
pub proof fn lemma_same_elements_empty(a: Seq<Seq<char>>, s: Seq<Seq<char>>)
    requires
        same_elements(a, s),
    ensures
        (a.len() == 0) == (s.len() == 0),
{
    if a.len() > 0 {
        assert(a.contains(a[0]));
        assert(s.contains(a[0]));
    }
    if s.len() > 0 {
        assert(s.contains(s[0]));
        assert(a.contains(s[0]));
    }
}

/// The number of leading elements of `r` that come before `x`.
pub open spec fn position_of(r: Seq<Seq<char>>, x: Seq<char>) -> nat
    decreases r.len(),
{
    if r.len() > 0 && seq_lt(r[0], x) {
        1 + position_of(r.drop_first(), x)
    } else {
        0
    }
}

/// In a strictly increasing sequence, the elements before `position_of`
/// come before `x` and the others do not.
pub proof fn lemma_position_of(r: Seq<Seq<char>>, x: Seq<char>)
    requires
        sorted_strict(r),
    ensures
        position_of(r, x) <= r.len(),
        forall|k: int| 0 <= k < position_of(r, x) ==> seq_lt(#[trigger] r[k], x),
        forall|k: int| position_of(r, x) <= k < r.len() ==> !seq_lt(#[trigger] r[k], x),
    decreases r.len(),
{
    if r.len() > 0 {
        let t = r.drop_first();
        assert(sorted_strict(t)) by {
            assert forall|i: int, j: int| 0 <= i < j < t.len() implies seq_lt(
                #[trigger] t[i],
                #[trigger] t[j],
            ) by {
                assert(t[i] == r[i + 1] && t[j] == r[j + 1]);
            }
        }
        lemma_position_of(t, x);
        let p = position_of(r, x);
        if seq_lt(r[0], x) {
            assert forall|k: int| 0 <= k < p implies seq_lt(#[trigger] r[k], x) by {
                if k > 0 {
                    assert(r[k] == t[k - 1]);
                }
            }
            assert forall|k: int| p <= k < r.len() implies !seq_lt(#[trigger] r[k], x) by {
                assert(r[k] == t[k - 1]);
            }
        } else {
            assert forall|k: int| p <= k < r.len() implies !seq_lt(#[trigger] r[k], x) by {
                if k > 0 && seq_lt(r[k], x) {
                    assert(seq_lt(r[0], r[k]));
                    lemma_lt_transitive(r[0], r[k], x);
                }
            }
        }
    }
}

/// `x` inserted into a strictly increasing sequence where it belongs, unless
/// it is there already.
pub open spec fn insert_in_order(r: Seq<Seq<char>>, x: Seq<char>) -> Seq<Seq<char>> {
    if r.contains(x) {
        r
    } else {
        let p = position_of(r, x) as int;
        r.take(p) + seq![x] + r.skip(p)
    }
}

/// Inserting in order keeps a sequence strictly increasing and adds exactly `x`.
pub proof fn lemma_insert_in_order(r: Seq<Seq<char>>, x: Seq<char>)
    requires
        sorted_strict(r),
    ensures
        sorted_strict(insert_in_order(r, x)),
        forall|y: Seq<char>| insert_in_order(r, x).contains(y) <==> (r.contains(y) || y == x),
{
    if !r.contains(x) {
        lemma_position_of(r, x);
        let p = position_of(r, x) as int;
        let s = insert_in_order(r, x);
        assert(s.len() == r.len() + 1);
        assert forall|k: int| 0 <= k < s.len() implies #[trigger] s[k] == (if k < p {
            r[k]
        } else if k == p {
            x
        } else {
            r[k - 1]
        }) by {}
        assert forall|k: int| p <= k < r.len() implies seq_lt(x, #[trigger] r[k]) by {
            assert(!seq_lt(r[k], x));
            if r[k] == x {
                assert(r.contains(x));
            }
            lemma_lt_total(r[k], x);
        }
        assert forall|a: int, b: int| 0 <= a < b < s.len() implies seq_lt(
            #[trigger] s[a],
            #[trigger] s[b],
        ) by {
            if b < p {
                assert(seq_lt(r[a], r[b]));
            } else if b == p {
            } else if a < p {
                assert(seq_lt(r[a], x));
                assert(seq_lt(x, r[b - 1]));
                lemma_lt_transitive(r[a], x, r[b - 1]);
            } else if a == p {
            } else {
                assert(seq_lt(r[a - 1], r[b - 1]));
            }
        }
        assert forall|y: Seq<char>| s.contains(y) <==> (r.contains(y) || y == x) by {
            if s.contains(y) {
                let k = choose|k: int| 0 <= k < s.len() && s[k] == y;
                if k < p {
                    assert(r[k] == y);
                } else if k > p {
                    assert(r[k - 1] == y);
                }
            }
            if r.contains(y) {
                let k = choose|k: int| 0 <= k < r.len() && r[k] == y;
                if k < p {
                    assert(s[k] == y);
                } else {
                    assert(s[k + 1] == y);
                }
            }
            if y == x {
                assert(s[p] == y);
            }
        }
    }
}

/// Every sequence has a strictly increasing sequence with its elements, so
/// `sorted_set(s)` is one.
pub proof fn lemma_sorted_set(s: Seq<Seq<char>>)
    ensures
        sorted_strict(sorted_set(s)),
        same_elements(sorted_set(s), s),
    decreases s.len(),
{
    if s.len() == 0 {
        let e = Seq::<Seq<char>>::empty();
        assert(same_elements(e, s));
        assert(sorted_strict(e));
    } else {
        let init = s.drop_last();
        lemma_sorted_set(init);
        let r = insert_in_order(sorted_set(init), s.last());
        lemma_insert_in_order(sorted_set(init), s.last());
        lemma_same_elements_push(sorted_set(init), r, init, s.last());
        assert(init.push(s.last()) =~= s);
        assert(sorted_strict(r) && same_elements(r, s));
    }
}

/// The sorted set of a strictly increasing sequence is the sequence itself.
pub proof fn lemma_sorted_set_of_sorted(s: Seq<Seq<char>>)
    requires
        sorted_strict(s),
    ensures
        sorted_set(s) == s,
{
    lemma_is_sorted_set(s, s);
}

/// The order compares strings at their first difference: the string with
/// the smaller code point there comes first.
pub proof fn lemma_lt_first_difference(a: Seq<char>, b: Seq<char>, k: int)
    requires
        0 <= k < a.len(),
        k < b.len(),
        a.take(k) == b.take(k),
        (a[k] as int) < (b[k] as int),
    ensures
        seq_lt(a, b),
        !seq_lt(b, a),
    decreases k,
{
    if k > 0 {
        assert(a.take(k)[0] == a[0] && b.take(k)[0] == b[0]);
        assert(a.drop_first().take(k - 1) =~= a.take(k).drop_first());
        assert(b.drop_first().take(k - 1) =~= b.take(k).drop_first());
        lemma_lt_first_difference(a.drop_first(), b.drop_first(), k - 1);
    }
}

/// A proper prefix comes before the strings it starts.
pub proof fn lemma_prefix_first(a: Seq<char>, b: Seq<char>)
    requires
        b.len() > 0,
    ensures
        seq_lt(a, a + b),
        !seq_lt(a + b, a),
    decreases a.len(),
{
    if a.len() > 0 {
        assert((a + b).drop_first() =~= a.drop_first() + b);
        lemma_prefix_first(a.drop_first(), b);
    }
}

} // verus!
