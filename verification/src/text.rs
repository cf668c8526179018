//! Character-level text processing with specifications over `Seq<char>`:
//! whitespace, trimming, line and field splitting, and string ordering.

use vstd::prelude::*;

verus! {

// ---------------------------------------------------------------------
// Character classes
// ---------------------------------------------------------------------

/// `c` has the Unicode `White_Space` property, which is what
/// `char::is_whitespace` reports.
pub open spec fn is_space(c: char) -> bool {
    let n = c as u32;
    ||| 0x09 <= n <= 0x0D
    ||| n == 0x20
    ||| n == 0x85
    ||| n == 0xA0
    ||| n == 0x1680
    ||| 0x2000 <= n <= 0x200A
    ||| n == 0x2028
    ||| n == 0x2029
    ||| n == 0x202F
    ||| n == 0x205F
    ||| n == 0x3000
}

/// The characters removed by a trim: whitespace, or the double quote when
/// `quotes` is set.
pub open spec fn is_trimmed(c: char, quotes: bool) -> bool {
    if quotes {
        c == '"'
    } else {
        is_space(c)
    }
}

/// Decides [`is_space`].
pub fn is_space_char(c: char) -> (b: bool)
    ensures
        b == is_space(c),
{
    let n = c as u32;
    (0x09 <= n && n <= 0x0D) || n == 0x20 || n == 0x85 || n == 0xA0 || n == 0x1680 || (0x2000
        <= n && n <= 0x200A) || n == 0x2028 || n == 0x2029 || n == 0x202F || n == 0x205F || n
        == 0x3000
}

fn is_trimmed_char(c: char, quotes: bool) -> (b: bool)
    ensures
        b == is_trimmed(c, quotes),
{
    if quotes {
        c == '"'
    } else {
        is_space_char(c)
    }
}

// ---------------------------------------------------------------------
// Conversions between strings and characters
// ---------------------------------------------------------------------

/// Returns the characters of `s`.
pub fn to_chars(s: &str) -> (v: Vec<char>)
    ensures
        v@ == s@,
{
    let mut v: Vec<char> = Vec::new();
    for c in it: s.chars()
        invariant
            it.seq() == s@,
            v@ == s@.take(it.index() as int),
    {
        v.push(c);
    }
    v
}

/// Calls std's `String::push`. Trusted: the contract claims that afterwards
/// the string holds its former characters followed by `c`, as the method's
/// documentation says.
#[verifier::external_body]
fn push_char(s: &mut String, c: char)
    ensures
        final(s)@ == old(s)@.push(c),
{
    s.push(c);
}

/// Appends `cs[lo..hi]` to `out`.
pub fn push_range(out: &mut String, cs: &Vec<char>, lo: usize, hi: usize)
    requires
        lo <= hi <= cs.len(),
    ensures
        final(out)@ == old(out)@ + cs@.subrange(lo as int, hi as int),
{
    let mut i = lo;
    while i < hi
        invariant
            lo <= i <= hi <= cs.len(),
            out@ == old(out)@ + cs@.subrange(lo as int, i as int),
        decreases hi - i,
    {
        push_char(out, cs[i]);
        i += 1;
        assert(out@ =~= old(out)@ + cs@.subrange(lo as int, i as int));
    }
}

/// Returns `cs[lo..hi]` as a string.
pub fn range_string(cs: &Vec<char>, lo: usize, hi: usize) -> (s: String)
    requires
        lo <= hi <= cs.len(),
    ensures
        s@ == cs@.subrange(lo as int, hi as int),
{
    let mut s = String::new();
    push_range(&mut s, cs, lo, hi);
    assert(s@ =~= cs@.subrange(lo as int, hi as int));
    s
}

/// Returns `cs[lo..hi]`.
pub fn slice_chars(cs: &Vec<char>, lo: usize, hi: usize) -> (v: Vec<char>)
    requires
        lo <= hi <= cs.len(),
    ensures
        v@ == cs@.subrange(lo as int, hi as int),
{
    let mut v: Vec<char> = Vec::new();
    let mut i = lo;
    while i < hi
        invariant
            lo <= i <= hi <= cs.len(),
            v@ == cs@.subrange(lo as int, i as int),
        decreases hi - i,
    {
        v.push(cs[i]);
        i += 1;
        assert(v@ =~= cs@.subrange(lo as int, i as int));
    }
    v
}

/// Returns `a` followed by `b`.
pub fn concat(a: &str, b: &str) -> (s: String)
    ensures
        s@ == a@ + b@,
{
    let mut s = a.to_owned();
    s.append(b);
    s
}

/// Decides whether two strings hold the same characters.
pub fn str_eq(a: &str, b: &str) -> (r: bool)
    ensures
        r == (a@ == b@),
{
    let x = to_chars(a);
    let y = to_chars(b);
    assert(x@.subrange(0, x@.len() as int) =~= x@);
    chars_eq(&x, 0, x.len(), &y)
}

/// Decides whether `cs[lo..hi]` equals `t`.
pub fn chars_eq(cs: &Vec<char>, lo: usize, hi: usize, t: &Vec<char>) -> (r: bool)
    requires
        lo <= hi <= cs.len(),
    ensures
        r == (cs@.subrange(lo as int, hi as int) == t@),
{
    if hi - lo != t.len() {
        return false;
    }
    let mut i: usize = 0;
    while i < t.len()
        invariant
            lo <= hi <= cs.len(),
            hi - lo == t.len(),
            0 <= i <= t.len(),
            forall|k: int| 0 <= k < i ==> cs@[lo + k] == t@[k],
        decreases t.len() - i,
    {
        if cs[lo + i] != t[i] {
            assert(cs@.subrange(lo as int, hi as int)[i as int] != t@[i as int]);
            return false;
        }
        i += 1;
    }
    assert(cs@.subrange(lo as int, hi as int) =~= t@);
    true
}

/// Decides whether `s` starts with `prefix`.
pub fn starts_with(s: &str, prefix: &str) -> (r: bool)
    ensures
        r == (prefix@.len() <= s@.len() && s@.take(prefix@.len() as int) == prefix@),
{
    let cs = to_chars(s);
    let p = to_chars(prefix);
    if p.len() > cs.len() {
        return false;
    }
    chars_eq(&cs, 0, p.len(), &p)
}

// ---------------------------------------------------------------------
// Trimming
// ---------------------------------------------------------------------

/// Removes the leading characters of the class.
pub open spec fn trim_start_in(s: Seq<char>, quotes: bool) -> Seq<char>
    decreases s.len(),
{
    if s.len() > 0 && is_trimmed(s[0], quotes) {
        trim_start_in(s.drop_first(), quotes)
    } else {
        s
    }
}

/// Removes the trailing characters of the class.
pub open spec fn trim_end_in(s: Seq<char>, quotes: bool) -> Seq<char>
    decreases s.len(),
{
    if s.len() > 0 && is_trimmed(s.last(), quotes) {
        trim_end_in(s.drop_last(), quotes)
    } else {
        s
    }
}

/// `str::trim`: `s` without leading and trailing whitespace.
pub open spec fn trim(s: Seq<char>) -> Seq<char> {
    trim_end_in(trim_start_in(s, false), false)
}

/// `str::trim_matches('"')`: `s` without leading and trailing double quotes.
pub open spec fn strip_quotes(s: Seq<char>) -> Seq<char> {
    trim_end_in(trim_start_in(s, true), true)
}

/// The part of `s` that a trim of the class keeps.
pub open spec fn trim_in(s: Seq<char>, quotes: bool) -> Seq<char> {
    trim_end_in(trim_start_in(s, quotes), quotes)
}

/// Start of the part of `cs[lo..hi]` that is left when the leading
/// characters of the class are removed.
pub fn skip_trimmed(cs: &Vec<char>, lo: usize, hi: usize, quotes: bool) -> (a: usize)
    requires
        lo <= hi <= cs.len(),
    ensures
        lo <= a <= hi,
        cs@.subrange(a as int, hi as int) == trim_start_in(cs@.subrange(lo as int, hi as int), quotes),
{
    let mut a = lo;
    while a < hi && is_trimmed_char(cs[a], quotes)
        invariant
            lo <= a <= hi <= cs.len(),
            trim_start_in(cs@.subrange(lo as int, hi as int), quotes) == trim_start_in(
                cs@.subrange(a as int, hi as int),
                quotes,
            ),
        decreases hi - a,
    {
        assert(cs@.subrange(a as int, hi as int).drop_first() =~= cs@.subrange(
            a + 1,
            hi as int,
        ));
        a += 1;
    }
    a
}

/// Bounds of the trimmed part of `cs[lo..hi]`.
pub fn trim_bounds(cs: &Vec<char>, lo: usize, hi: usize, quotes: bool) -> (r: (usize, usize))
    requires
        lo <= hi <= cs.len(),
    ensures
        lo <= r.0 <= r.1 <= hi,
        cs@.subrange(r.0 as int, r.1 as int) == trim_in(cs@.subrange(lo as int, hi as int), quotes),
{
    let a = skip_trimmed(cs, lo, hi, quotes);
    let mut b = hi;
    while b > a && is_trimmed_char(cs[b - 1], quotes)
        invariant
            lo <= a <= b <= hi <= cs.len(),
            trim_end_in(cs@.subrange(a as int, hi as int), quotes) == trim_end_in(
                cs@.subrange(a as int, b as int),
                quotes,
            ),
        decreases b - a,
    {
        assert(cs@.subrange(a as int, b as int).drop_last() =~= cs@.subrange(
            a as int,
            b - 1,
        ));
        b -= 1;
    }
    (a, b)
}

/// The trimmed pieces that are not empty, in order.
pub open spec fn trimmed_entries(ls: Seq<Seq<char>>) -> Seq<Seq<char>>
    decreases ls.len(),
{
    if ls.len() == 0 {
        seq![]
    } else {
        let t = trim(ls.last());
        trimmed_entries(ls.drop_last()) + if t.len() > 0 {
            seq![t]
        } else {
            seq![]
        }
    }
}

// ---------------------------------------------------------------------
// Searching and splitting
// ---------------------------------------------------------------------

/// Index of the first `c` in `s`, or `s.len()` where there is none.
pub open spec fn index_of(s: Seq<char>, c: char) -> nat
    decreases s.len(),
{
    if s.len() == 0 {
        0
    } else if s[0] == c {
        0
    } else {
        1 + index_of(s.drop_first(), c)
    }
}

/// Index of the first whitespace character of `s`, or `s.len()`.
pub open spec fn index_of_space(s: Seq<char>) -> nat
    decreases s.len(),
{
    if s.len() == 0 {
        0
    } else if is_space(s[0]) {
        0
    } else {
        1 + index_of_space(s.drop_first())
    }
}

/// `index_of` is the first position that holds `c`.
pub proof fn lemma_index_of(s: Seq<char>, c: char, k: int)
    requires
        0 <= k <= s.len(),
        forall|i: int| 0 <= i < k ==> s[i] != c,
        k == s.len() || s[k] == c,
    ensures
        index_of(s, c) == k,
    decreases k,
{
    if k > 0 {
        lemma_index_of(s.drop_first(), c, k - 1);
    }
}

/// `index_of_space` is the first whitespace position.
pub proof fn lemma_index_of_space(s: Seq<char>, k: int)
    requires
        0 <= k <= s.len(),
        forall|i: int| 0 <= i < k ==> !is_space(s[i]),
        k == s.len() || is_space(s[k]),
    ensures
        index_of_space(s) == k,
    decreases k,
{
    if k > 0 {
        lemma_index_of_space(s.drop_first(), k - 1);
    }
}

/// `index_of` is at most the length.
pub proof fn lemma_index_of_bound(s: Seq<char>, c: char)
    ensures
        index_of(s, c) <= s.len(),
        index_of(s, c) < s.len() ==> s[index_of(s, c) as int] == c,
        forall|i: int| 0 <= i < index_of(s, c) ==> s[i] != c,
    decreases s.len(),
{
    if s.len() > 0 && s[0] != c {
        lemma_index_of_bound(s.drop_first(), c);
        assert forall|i: int| 0 <= i < index_of(s, c) implies s[i] != c by {
            if i > 0 {
                assert(s[i] == s.drop_first()[i - 1]);
            }
        }
    }
}

/// Finds the first `c` in `cs[lo..hi]`, returning `hi` where there is none.
pub fn find_char(cs: &Vec<char>, lo: usize, hi: usize, c: char) -> (j: usize)
    requires
        lo <= hi <= cs.len(),
    ensures
        lo <= j <= hi,
        j - lo == index_of(cs@.subrange(lo as int, hi as int), c),
{
    let mut j = lo;
    while j < hi && cs[j] != c
        invariant
            lo <= j <= hi <= cs.len(),
            forall|i: int| lo <= i < j ==> cs@[i] != c,
        decreases hi - j,
    {
        j += 1;
    }
    proof {
        let t = cs@.subrange(lo as int, hi as int);
        assert forall|i: int| 0 <= i < j - lo implies t[i] != c by {
            assert(t[i] == cs@[lo + i]);
        }
        lemma_index_of(t, c, j - lo);
    }
    j
}

/// Finds the first whitespace character in `cs[lo..hi]`, or `hi`.
pub fn find_space(cs: &Vec<char>, lo: usize, hi: usize) -> (j: usize)
    requires
        lo <= hi <= cs.len(),
    ensures
        lo <= j <= hi,
        j - lo == index_of_space(cs@.subrange(lo as int, hi as int)),
{
    let mut j = lo;
    while j < hi && !is_space_char(cs[j])
        invariant
            lo <= j <= hi <= cs.len(),
            forall|i: int| lo <= i < j ==> !is_space(cs@[i]),
        decreases hi - j,
    {
        j += 1;
    }
    proof {
        let t = cs@.subrange(lo as int, hi as int);
        assert forall|i: int| 0 <= i < j - lo implies !is_space(t[i]) by {
            assert(t[i] == cs@[lo + i]);
        }
        lemma_index_of_space(t, j - lo);
    }
    j
}

/// The pieces of `s` between occurrences of `c`, as `str::split(c)` yields them.
pub open spec fn split(s: Seq<char>, c: char) -> Seq<Seq<char>>
    decreases s.len(),
{
    let k = index_of(s, c);
    if k >= s.len() {
        seq![s]
    } else {
        seq![s.take(k as int)] + split(s.skip(k as int + 1), c)
    }
}

/// `s` without one trailing carriage return.
pub open spec fn strip_cr(s: Seq<char>) -> Seq<char> {
    if s.len() > 0 && s.last() == '\r' {
        s.drop_last()
    } else {
        s
    }
}

/// The lines of `s`, as `str::lines` yields them: split at `\n`, a `\r`
/// before the `\n` removed, and no final empty line.
pub open spec fn lines(s: Seq<char>) -> Seq<Seq<char>>
    decreases s.len(),
{
    if s.len() == 0 {
        seq![]
    } else {
        let k = index_of(s, '\n');
        if k >= s.len() {
            seq![s]
        } else {
            seq![strip_cr(s.take(k as int))] + lines(s.skip(k as int + 1))
        }
    }
}

/// The pieces of `s` that the bounds `r` delimit.
pub open spec fn pieces(s: Seq<char>, r: Seq<(usize, usize)>) -> Seq<Seq<char>> {
    Seq::new(r.len(), |i: int| s.subrange(r[i].0 as int, r[i].1 as int))
}

/// Every bound pair lies within `0..n`.
pub open spec fn bounds_within(r: Seq<(usize, usize)>, n: int) -> bool {
    forall|i: int| 0 <= i < r.len() ==> (#[trigger] r[i]).0 <= r[i].1 <= n
}

/// Bounds of the lines of `cs`.
pub fn line_bounds(cs: &Vec<char>) -> (r: Vec<(usize, usize)>)
    ensures
        bounds_within(r@, cs.len() as int),
        pieces(cs@, r@) == lines(cs@),
{
    let n = cs.len();
    let mut r: Vec<(usize, usize)> = Vec::new();
    let mut start: usize = 0;
    assert(cs@.skip(0) =~= cs@);
    assert(pieces(cs@, r@) + lines(cs@.skip(0)) =~= lines(cs@));
    while start < n
        invariant
            n == cs.len(),
            start <= n,
            bounds_within(r@, n as int),
            pieces(cs@, r@) + lines(cs@.skip(start as int)) == lines(cs@),
        decreases n - start,
    {
        let ghost rest = cs@.skip(start as int);
        let j = find_char(cs, start, n, '\n');
        assert(cs@.subrange(start as int, n as int) =~= rest);
        let ghost old_r = r@;
        if j == n {
            r.push((start, n));
            assert(lines(rest) == seq![rest]);
            assert(cs@.skip(n as int) =~= Seq::<char>::empty());
            assert(pieces(cs@, r@) =~= pieces(cs@, old_r).push(rest));
            assert(pieces(cs@, r@) + lines(cs@.skip(n as int)) =~= pieces(cs@, old_r) + lines(
                rest,
            ));
            start = n;
        } else {
            let e = if j > start && cs[j - 1] == '\r' {
                j - 1
            } else {
                j
            };
            r.push((start, e));
            let ghost k = (j - start) as int;
            assert(rest.take(k) =~= cs@.subrange(start as int, j as int));
            assert(strip_cr(rest.take(k)) =~= cs@.subrange(start as int, e as int));
            assert(rest.skip(k + 1) =~= cs@.skip(j + 1));
            assert(pieces(cs@, r@) =~= pieces(cs@, old_r).push(strip_cr(rest.take(k))));
            assert(lines(rest) == seq![strip_cr(rest.take(k))] + lines(rest.skip(k + 1)));
            assert(pieces(cs@, r@) + lines(cs@.skip(j + 1)) =~= pieces(cs@, old_r) + lines(
                rest,
            ));
            start = j + 1;
        }
    }
    assert(cs@.skip(n as int) =~= Seq::<char>::empty());
    assert(pieces(cs@, r@) =~= lines(cs@));
    r
}

/// Bounds of the pieces of `cs[lo..hi]` between occurrences of `c`.
pub fn split_bounds(cs: &Vec<char>, lo: usize, hi: usize, c: char) -> (r: Vec<(usize, usize)>)
    requires
        lo <= hi <= cs.len(),
    ensures
        bounds_within(r@, hi as int),
        pieces(cs@, r@) == split(cs@.subrange(lo as int, hi as int), c),
{
    let mut r: Vec<(usize, usize)> = Vec::new();
    let mut start: usize = lo;
    assert(pieces(cs@, r@) + split(cs@.subrange(lo as int, hi as int), c) =~= split(
        cs@.subrange(lo as int, hi as int),
        c,
    ));
    loop
        invariant
            lo <= start <= hi <= cs.len(),
            bounds_within(r@, hi as int),
            pieces(cs@, r@) + split(cs@.subrange(start as int, hi as int), c) == split(
                cs@.subrange(lo as int, hi as int),
                c,
            ),
        decreases hi - start,
    {
        let ghost rest = cs@.subrange(start as int, hi as int);
        let ghost old_r = r@;
        let j = find_char(cs, start, hi, c);
        if j == hi {
            r.push((start, hi));
            assert(split(rest, c) == seq![rest]);
            assert(pieces(cs@, r@) =~= pieces(cs@, old_r).push(rest));
            assert(pieces(cs@, r@) =~= pieces(cs@, old_r) + split(rest, c));
            return r;
        }
        r.push((start, j));
        let ghost k = (j - start) as int;
        assert(rest.take(k) =~= cs@.subrange(start as int, j as int));
        assert(rest.skip(k + 1) =~= cs@.subrange(j + 1, hi as int));
        assert(pieces(cs@, r@) =~= pieces(cs@, old_r).push(rest.take(k)));
        assert(split(rest, c) == seq![rest.take(k)] + split(rest.skip(k + 1), c));
        assert(pieces(cs@, r@) + split(cs@.subrange(j + 1, hi as int), c) =~= pieces(
            cs@,
            old_r,
        ) + split(rest, c));
        start = j + 1;
    }
}

// ---------------------------------------------------------------------
// Replacing
// ---------------------------------------------------------------------

/// `s` with each occurrence of `pat`, left to right and not overlapping,
/// replaced by `rep`: `str::replace` for a non-empty pattern.
pub open spec fn replace_all(s: Seq<char>, pat: Seq<char>, rep: Seq<char>) -> Seq<char>
    decreases s.len(),
{
    if pat.len() == 0 || s.len() < pat.len() {
        s
    } else if s.take(pat.len() as int) == pat {
        rep + replace_all(s.skip(pat.len() as int), pat, rep)
    } else {
        seq![s[0]] + replace_all(s.drop_first(), pat, rep)
    }
}

/// Appends `cs` with each occurrence of `pat` replaced by `rep` to `out`.
pub fn push_replaced(out: &mut String, cs: &Vec<char>, pat: &Vec<char>, rep: &str)
    requires
        pat.len() > 0,
    ensures
        final(out)@ == old(out)@ + replace_all(cs@, pat@, rep@),
{
    let n = cs.len();
    let m = pat.len();
    let mut i: usize = 0;
    assert(cs@.skip(0) =~= cs@);
    while i < n
        invariant
            n == cs.len(),
            m == pat.len(),
            m > 0,
            i <= n,
            out@ + replace_all(cs@.skip(i as int), pat@, rep@) == old(out)@ + replace_all(
                cs@,
                pat@,
                rep@,
            ),
        decreases n - i,
    {
        let ghost rest = cs@.skip(i as int);
        let ghost before = out@;
        if m <= n - i && chars_eq(cs, i, i + m, pat) {
            assert(rest.take(m as int) =~= cs@.subrange(i as int, (i + m) as int));
            assert(rest.skip(m as int) =~= cs@.skip((i + m) as int));
            out.append(rep);
            assert(out@ + replace_all(cs@.skip((i + m) as int), pat@, rep@) =~= before
                + replace_all(rest, pat@, rep@));
            i += m;
        } else {
            if m <= n - i {
                assert(rest.take(m as int) =~= cs@.subrange(i as int, (i + m) as int));
            }
            assert(rest.drop_first() =~= cs@.skip(i + 1));
            push_char(out, cs[i]);
            proof {
                if rest.len() < m {
                    assert(replace_all(rest, pat@, rep@) == rest);
                    assert(replace_all(rest.drop_first(), pat@, rep@) == rest.drop_first());
                    assert(rest =~= seq![rest[0]] + rest.drop_first());
                }
            }
            assert(out@ + replace_all(cs@.skip(i + 1), pat@, rep@) =~= before + replace_all(
                rest,
                pat@,
                rep@,
            ));
            i += 1;
        }
    }
    assert(cs@.skip(n as int) =~= Seq::<char>::empty());
    assert(out@ =~= out@ + replace_all(cs@.skip(n as int), pat@, rep@));
}

/// `pat` occurs in `s` starting at `i`.
pub open spec fn occurs_at(s: Seq<char>, pat: Seq<char>, i: int) -> bool {
    0 <= i && i + pat.len() <= s.len() && s.subrange(i, i + pat.len()) == pat
}

/// Replacing a pattern that does not occur changes nothing.
pub proof fn lemma_replace_all_absent(s: Seq<char>, pat: Seq<char>, rep: Seq<char>)
    requires
        forall|i: int| !occurs_at(s, pat, i),
    ensures
        replace_all(s, pat, rep) == s,
    decreases s.len(),
{
    if pat.len() > 0 && s.len() >= pat.len() {
        assert(s.take(pat.len() as int) =~= s.subrange(0, pat.len() as int));
        assert(!occurs_at(s, pat, 0));
        let t = s.drop_first();
        assert forall|i: int| !occurs_at(t, pat, i) by {
            if occurs_at(t, pat, i) {
                assert(t.subrange(i, i + pat.len()) =~= s.subrange(i + 1, i + 1 + pat.len()));
                assert(occurs_at(s, pat, i + 1));
            }
        }
        lemma_replace_all_absent(t, pat, rep);
        assert(seq![s[0]] + t =~= s);
    }
}

/// The characters that count as whitespace, and some that do not.
pub proof fn lemma_whitespace_table()
    ensures
        is_space('\t'),
        is_space('\n'),
        is_space('\u{0B}'),
        is_space('\u{0C}'),
        is_space('\r'),
        is_space(' '),
        is_space('\u{85}'),
        is_space('\u{A0}'),
        is_space('\u{1680}'),
        is_space('\u{2000}'),
        is_space('\u{2001}'),
        is_space('\u{2002}'),
        is_space('\u{2003}'),
        is_space('\u{2004}'),
        is_space('\u{2005}'),
        is_space('\u{2006}'),
        is_space('\u{2007}'),
        is_space('\u{2008}'),
        is_space('\u{2009}'),
        is_space('\u{200A}'),
        is_space('\u{2028}'),
        is_space('\u{2029}'),
        is_space('\u{202F}'),
        is_space('\u{205F}'),
        is_space('\u{3000}'),
        !is_space('\u{200B}'),
        !is_space('\u{180E}'),
        !is_space('\u{FEFF}'),
        !is_space('a'),
        !is_space('0'),
        !is_space('_'),
        !is_space('\u{1F}'),
        !is_space('!'),
        !is_space('\u{84}'),
        !is_space('\u{86}'),
        !is_space('\u{9F}'),
        !is_space('\u{2027}'),
        !is_space('\u{202A}'),
{
}

/// Leading characters of a class, counted.
pub proof fn lemma_trim_start_shape(s: Seq<char>, quotes: bool) -> (a: int)
    ensures
        0 <= a <= s.len(),
        trim_start_in(s, quotes) == s.skip(a),
        forall|i: int| 0 <= i < a ==> is_trimmed(#[trigger] s[i], quotes),
        a < s.len() ==> !is_trimmed(s[a], quotes),
    decreases s.len(),
{
    if s.len() > 0 && is_trimmed(s[0], quotes) {
        let a1 = lemma_trim_start_shape(s.drop_first(), quotes);
        assert(s.drop_first().skip(a1) =~= s.skip(a1 + 1));
        assert forall|i: int| 0 <= i < a1 + 1 implies is_trimmed(#[trigger] s[i], quotes) by {
            if i > 0 {
                assert(s[i] == s.drop_first()[i - 1]);
            }
        }
        if a1 + 1 < s.len() {
            assert(s[a1 + 1] == s.drop_first()[a1]);
        }
        a1 + 1
    } else {
        assert(s.skip(0) =~= s);
        0
    }
}

/// Trailing characters of a class, counted from the end.
proof fn lemma_trim_end_shape(s: Seq<char>, quotes: bool) -> (b: int)
    ensures
        0 <= b <= s.len(),
        trim_end_in(s, quotes) == s.take(b),
        forall|i: int| b <= i < s.len() ==> is_trimmed(#[trigger] s[i], quotes),
        b > 0 ==> !is_trimmed(s[b - 1], quotes),
    decreases s.len(),
{
    if s.len() > 0 && is_trimmed(s.last(), quotes) {
        let b1 = lemma_trim_end_shape(s.drop_last(), quotes);
        assert(s.drop_last().take(b1) =~= s.take(b1));
        assert forall|i: int| b1 <= i < s.len() implies is_trimmed(#[trigger] s[i], quotes) by {
            if i < s.len() - 1 {
                assert(s[i] == s.drop_last()[i]);
            }
        }
        if b1 > 0 {
            assert(s[b1 - 1] == s.drop_last()[b1 - 1]);
        }
        b1
    } else {
        assert(s.take(s.len() as int) =~= s);
        s.len() as int
    }
}

/// A trim of a class keeps the middle of `s`: it removes exactly the
/// leading and the trailing characters of the class.
proof fn lemma_trim_in_shape(s: Seq<char>, quotes: bool)
    ensures
        exists|a: int, b: int|
            0 <= a <= b <= s.len() && trim_in(s, quotes) == s.subrange(a, b) && (forall|i: int|
                0 <= i < a ==> is_trimmed(#[trigger] s[i], quotes)) && (forall|i: int|
                b <= i < s.len() ==> is_trimmed(#[trigger] s[i], quotes)) && (a < b ==> (
            !is_trimmed(s[a], quotes) && !is_trimmed(s[b - 1], quotes))),
{
    let a = lemma_trim_start_shape(s, quotes);
    let t = s.skip(a);
    let b1 = lemma_trim_end_shape(t, quotes);
    let b = a + b1;
    assert(t.take(b1) =~= s.subrange(a, b));
    assert forall|i: int| b <= i < s.len() implies is_trimmed(#[trigger] s[i], quotes) by {
        assert(s[i] == t[i - a]);
    }
    if a < b {
        assert(s[a] == t[0]);
        assert(s[b - 1] == t[b1 - 1]);
    }
}

/// `str::trim` removes exactly the leading and the trailing whitespace:
/// what it keeps is a middle part of `s` that, unless empty, starts and
/// ends with a character that is not whitespace.
pub proof fn lemma_trim_shape(s: Seq<char>)
    ensures
        exists|a: int, b: int|
            0 <= a <= b <= s.len() && trim(s) == s.subrange(a, b) && (forall|i: int|
                0 <= i < a ==> is_space(#[trigger] s[i])) && (forall|i: int|
                b <= i < s.len() ==> is_space(#[trigger] s[i])) && (a < b ==> (!is_space(s[a])
                && !is_space(s[b - 1]))),
{
    lemma_trim_in_shape(s, false);
}

/// Removing surrounding double quotes removes exactly the leading and the
/// trailing double quotes.
pub proof fn lemma_strip_quotes_shape(s: Seq<char>)
    ensures
        exists|a: int, b: int|
            0 <= a <= b <= s.len() && strip_quotes(s) == s.subrange(a, b) && (forall|i: int|
                0 <= i < a ==> #[trigger] s[i] == '"') && (forall|i: int|
                b <= i < s.len() ==> #[trigger] s[i] == '"') && (a < b ==> (s[a] != '"' && s[b
                - 1] != '"')),
{
    lemma_trim_in_shape(s, true);
}

/// Lines written back, each followed by a newline.
pub open spec fn join_lines(ls: Seq<Seq<char>>) -> Seq<char>
    decreases ls.len(),
{
    if ls.len() == 0 {
        seq![]
    } else {
        ls[0] + seq!['\n'] + join_lines(ls.drop_first())
    }
}

/// The lines of a text hold no newline, and, where the text has no carriage
/// return and ends with a newline (or is empty), writing each line back
/// followed by a newline gives the text again.
pub proof fn lemma_lines_split_text(s: Seq<char>)
    ensures
        forall|i: int, j: int|
            0 <= i < lines(s).len() && 0 <= j < lines(s)[i].len() ==> #[trigger] lines(s)[i][j]
                != '\n',
        (forall|i: int| 0 <= i < s.len() ==> s[i] != '\r') && (s.len() == 0 || s.last() == '\n')
            ==> join_lines(lines(s)) == s,
    decreases s.len(),
{
    if s.len() > 0 {
        lemma_index_of_bound(s, '\n');
        let k = index_of(s, '\n') as int;
        if k < s.len() {
            let rest = s.skip(k + 1);
            lemma_lines_split_text(rest);
            let line = strip_cr(s.take(k));
            assert(lines(s) == seq![line] + lines(rest));
            assert forall|i: int, j: int|
                0 <= i < lines(s).len() && 0 <= j < lines(s)[i].len() implies #[trigger] lines(
                s,
            )[i][j] != '\n' by {
                if i == 0 {
                    assert(lines(s)[0] == line);
                    assert(line[j] == s[j]);
                } else {
                    assert(lines(s)[i] == lines(rest)[i - 1]);
                }
            }
            if (forall|i: int| 0 <= i < s.len() ==> s[i] != '\r') && (s.last() == '\n') {
                assert forall|i: int| 0 <= i < rest.len() implies rest[i] != '\r' by {
                    assert(rest[i] == s[i + k + 1]);
                }
                if rest.len() > 0 {
                    assert(rest.last() == s.last());
                }
                if k > 0 {
                    assert(s.take(k).last() == s[k - 1]);
                }
                assert(line == s.take(k));
                assert((seq![line] + lines(rest)).drop_first() =~= lines(rest));
                assert(join_lines(lines(s)) == line + seq!['\n'] + join_lines(lines(rest)));
                assert(s.take(k) + seq!['\n'] + rest =~= s);
            }
        } else {
            assert(lines(s) == seq![s]);
            assert forall|i: int, j: int|
                0 <= i < lines(s).len() && 0 <= j < lines(s)[i].len() implies #[trigger] lines(
                s,
            )[i][j] != '\n' by {
                assert(lines(s)[0] == s);
            }
        }
    }
}

/// `index_of_space` is at most the length, and the characters before it are
/// not whitespace.
pub proof fn lemma_index_of_space_bound(s: Seq<char>)
    ensures
        index_of_space(s) <= s.len(),
        index_of_space(s) < s.len() ==> is_space(s[index_of_space(s) as int]),
        forall|i: int| 0 <= i < index_of_space(s) ==> !is_space(#[trigger] s[i]),
    decreases s.len(),
{
    if s.len() > 0 && !is_space(s[0]) {
        lemma_index_of_space_bound(s.drop_first());
        assert forall|i: int| 0 <= i < index_of_space(s) implies !is_space(#[trigger] s[i]) by {
            if i > 0 {
                assert(s[i] == s.drop_first()[i - 1]);
            }
        }
    }
}

/// A line ended by `\n` is the text before it, and one ended by `\r\n` the
/// text before the `\r`; a last line without a newline is kept whole.
pub proof fn lemma_line_endings(a: Seq<char>, rest: Seq<char>)
    requires
        forall|i: int| 0 <= i < a.len() ==> a[i] != '\n',
    ensures
        (a.len() == 0 || a.last() != '\r') ==> lines(a + seq!['\n'] + rest) == seq![a] + lines(
            rest,
        ),
        lines(a + seq!['\r', '\n'] + rest) == seq![a] + lines(rest),
        a.len() > 0 ==> lines(a) == seq![a],
{
    let s1 = a + seq!['\n'] + rest;
    assert forall|i: int| 0 <= i < a.len() implies s1[i] != '\n' by {
        assert(s1[i] == a[i]);
    }
    lemma_index_of(s1, '\n', a.len() as int);
    assert(s1.take(a.len() as int) =~= a);
    assert(s1.skip(a.len() as int + 1) =~= rest);
    let s2 = a + seq!['\r', '\n'] + rest;
    assert forall|i: int| 0 <= i < a.len() + 1 implies s2[i] != '\n' by {
        if i < a.len() {
            assert(s2[i] == a[i]);
        }
    }
    lemma_index_of(s2, '\n', a.len() as int + 1);
    assert(s2.take(a.len() as int + 1) =~= a + seq!['\r']);
    assert((a + seq!['\r']).drop_last() =~= a);
    assert(s2.skip(a.len() as int + 2) =~= rest);
    if a.len() > 0 {
        lemma_index_of(a, '\n', a.len() as int);
    }
}

} // verus!
