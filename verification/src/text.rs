//! Character-level text utilities shared by the codec, the scanner and the
//! indexer: whitespace trimming, first/last occurrence of a character, and
//! lexicographic comparison of strings.

use vstd::prelude::*;

verus! {

/// The whitespace characters recognized when a line, key or value is trimmed.
pub open spec fn is_space(c: char) -> bool {
    c == ' ' || c == '\t' || c == '\r' || c == '\n'
}

/// `s` with leading whitespace removed.
pub open spec fn trim_front(s: Seq<char>) -> Seq<char>
    decreases s.len(),
{
    if s.len() > 0 && is_space(s[0]) {
        trim_front(s.drop_first())
    } else {
        s
    }
}

/// `s` with trailing whitespace removed.
pub open spec fn trim_back(s: Seq<char>) -> Seq<char>
    decreases s.len(),
{
    if s.len() > 0 && is_space(s.last()) {
        trim_back(s.drop_last())
    } else {
        s
    }
}

/// `s` with surrounding whitespace removed.
pub open spec fn trimmed(s: Seq<char>) -> Seq<char> {
    trim_back(trim_front(s))
}

/// No occurrence of `c` anywhere in `s`.
pub open spec fn free_of(s: Seq<char>, c: char) -> bool {
    forall|i: int| 0 <= i < s.len() ==> s[i] != c
}

/// The position of the first occurrence of `c` in `s`.
pub open spec fn first_pos(s: Seq<char>, c: char) -> Option<int>
    decreases s.len(),
{
    if s.len() == 0 {
        None
    } else if s[0] == c {
        Some(0)
    } else {
        match first_pos(s.drop_first(), c) {
            None => None,
            Some(i) => Some(i + 1),
        }
    }
}

/// The position of the last occurrence of `c` in `s`.
pub open spec fn last_pos(s: Seq<char>, c: char) -> Option<int>
    decreases s.len(),
{
    if s.len() == 0 {
        None
    } else if s.last() == c {
        Some(s.len() - 1)
    } else {
        last_pos(s.drop_last(), c)
    }
}

pub proof fn lemma_first_pos_properties(s: Seq<char>, c: char)
    ensures
        match first_pos(s, c) {
            Some(i) => 0 <= i < s.len() && s[i] == c && (forall|j: int| 0 <= j < i ==> s[j] != c),
            None => free_of(s, c),
        },
    decreases s.len(),
{
    if s.len() > 0 && s[0] != c {
        lemma_first_pos_properties(s.drop_first(), c);
        match first_pos(s.drop_first(), c) {
            None => {
                assert forall|i: int| 0 <= i < s.len() implies s[i] != c by {
                    if i > 0 {
                        assert(s.drop_first()[i - 1] == s[i]);
                    }
                }
            },
            Some(i0) => {
                assert(s.drop_first()[i0] == s[i0 + 1]);
                assert forall|j: int| 0 <= j < i0 + 1 implies s[j] != c by {
                    if j > 0 {
                        assert(s.drop_first()[j - 1] == s[j]);
                    }
                }
            },
        }
    }
}

pub proof fn lemma_first_pos_of_witness(s: Seq<char>, c: char, i: int)
    requires
        0 <= i < s.len(),
        s[i] == c,
        forall|j: int| 0 <= j < i ==> s[j] != c,
    ensures
        first_pos(s, c) == Some(i),
    decreases s.len(),
{
    if s[0] != c {
        assert(forall|j: int| 0 <= j < s.len() - 1 ==> s.drop_first()[j] == s[j + 1]);
        lemma_first_pos_of_witness(s.drop_first(), c, i - 1);
    }
}

pub proof fn lemma_first_pos_absent(s: Seq<char>, c: char)
    requires
        free_of(s, c),
    ensures
        first_pos(s, c) is None,
    decreases s.len(),
{
    if s.len() > 0 {
        assert(forall|j: int| 0 <= j < s.len() - 1 ==> s.drop_first()[j] == s[j + 1]);
        lemma_first_pos_absent(s.drop_first(), c);
    }
}

pub proof fn lemma_last_pos_of_witness(s: Seq<char>, c: char, i: int)
    requires
        0 <= i < s.len(),
        s[i] == c,
        forall|j: int| i < j < s.len() ==> s[j] != c,
    ensures
        last_pos(s, c) == Some(i),
    decreases s.len(),
{
    if s.last() != c {
        assert(forall|j: int| 0 <= j < s.len() - 1 ==> s.drop_last()[j] == s[j]);
        lemma_last_pos_of_witness(s.drop_last(), c, i);
    }
}

pub proof fn lemma_last_pos_absent(s: Seq<char>, c: char)
    requires
        free_of(s, c),
    ensures
        last_pos(s, c) is None,
    decreases s.len(),
{
    if s.len() > 0 {
        assert(forall|j: int| 0 <= j < s.len() - 1 ==> s.drop_last()[j] == s[j]);
        lemma_last_pos_absent(s.drop_last(), c);
    }
}

/// A sequence whose ends hold no whitespace is unchanged by trimming.
pub proof fn lemma_trim_noop(s: Seq<char>)
    requires
        s.len() == 0 || (!is_space(s[0]) && !is_space(s.last())),
    ensures
        trimmed(s) == s,
{
}

proof fn lemma_trim_front_skip(s: Seq<char>, k: int)
    requires
        0 <= k <= s.len(),
        forall|j: int| 0 <= j < k ==> is_space(s[j]),
    ensures
        trim_front(s) == trim_front(s.skip(k)),
    decreases k,
{
    if k > 0 {
        assert(s.drop_first() =~= s.skip(1));
        lemma_trim_front_skip(s.skip(1), k - 1);
        assert(s.skip(1).skip(k - 1) =~= s.skip(k));
    } else {
        assert(s.skip(0) =~= s);
    }
}

proof fn lemma_trim_back_skip(s: Seq<char>, k: int)
    requires
        0 <= k <= s.len(),
        forall|j: int| k <= j < s.len() ==> is_space(s[j]),
    ensures
        trim_back(s) == trim_back(s.take(k)),
    decreases s.len() - k,
{
    if k < s.len() {
        assert(s.drop_last() =~= s.take(s.len() - 1));
        lemma_trim_back_skip(s.take(s.len() - 1), k);
        assert(s.take(s.len() - 1).take(k) =~= s.take(k));
    } else {
        assert(s.take(s.len() as int) =~= s);
    }
}

/// Find the sub-range of `v[from..to]` left after trimming whitespace.
pub fn trim_range(v: &Vec<char>, from: usize, to: usize) -> (r: (usize, usize))
    requires
        from <= to <= v@.len(),
    ensures
        from <= r.0 <= r.1 <= to,
        v@.subrange(r.0 as int, r.1 as int) == trimmed(v@.subrange(from as int, to as int)),
        r.0 < r.1 ==> !is_space(v@[r.0 as int]) && !is_space(v@[r.1 - 1]),
{
    let ghost s = v@.subrange(from as int, to as int);
    let mut lo = from;
    while lo < to && is_space_char(v[lo])
        invariant
            from <= lo <= to <= v@.len(),
            s == v@.subrange(from as int, to as int),
            forall|j: int| from <= j < lo ==> is_space(v@[j]),
        decreases to - lo,
    {
        lo = lo + 1;
    }
    proof {
        lemma_trim_front_skip(s, lo - from);
        assert(s.skip(lo - from) =~= v@.subrange(lo as int, to as int));
        if lo < to {
            assert(trim_front(s) == v@.subrange(lo as int, to as int));
        }
    }
    let ghost f = v@.subrange(lo as int, to as int);
    proof {
        assert(trim_front(s) == f);
    }
    let mut hi = to;
    while hi > lo && is_space_char(v[hi - 1])
        invariant
            from <= lo <= hi <= to <= v@.len(),
            f == v@.subrange(lo as int, to as int),
            forall|j: int| hi <= j < to ==> is_space(v@[j]),
        decreases hi,
    {
        hi = hi - 1;
    }
    proof {
        lemma_trim_back_skip(f, hi - lo);
        assert(f.take(hi - lo) =~= v@.subrange(lo as int, hi as int));
        assert(trimmed(s) == trim_back(f));
        assert(trim_back(f) == trim_back(v@.subrange(lo as int, hi as int)));
        if hi > lo {
            assert(v@.subrange(lo as int, hi as int).last() == v@[hi - 1]);
            assert(trim_back(v@.subrange(lo as int, hi as int)) == v@.subrange(
                lo as int,
                hi as int,
            ));
        }
    }
    (lo, hi)
}

/// Whether `c` is one of the whitespace characters the codec trims.
pub fn is_space_char(c: char) -> (r: bool)
    ensures
        r == is_space(c),
{
    c == ' ' || c == '\t' || c == '\r' || c == '\n'
}

/// The characters of `s`, in order, as a vector.
pub fn str_chars(s: &str) -> (v: Vec<char>)
    ensures
        v@ == s@,
{
    let n = s.unicode_len();
    let mut v: Vec<char> = Vec::new();
    let mut i: usize = 0;
    while i < n
        invariant
            i <= n,
            n == s@.len(),
            v@ == s@.subrange(0, i as int),
        decreases n - i,
    {
        v.push(s.get_char(i));
        proof {
            assert(s@.subrange(0, i as int).push(s@[i as int]) =~= s@.subrange(0, i + 1));
        }
        i = i + 1;
    }
    proof {
        assert(s@.subrange(0, n as int) =~= s@);
    }
    v
}

/// Whether `v[from..to]` spells exactly the string `w`.
pub fn range_matches(v: &Vec<char>, from: usize, to: usize, w: &str) -> (r: bool)
    requires
        from <= to <= v@.len(),
    ensures
        r == (v@.subrange(from as int, to as int) == w@),
{
    let n = w.unicode_len();
    if to - from != n {
        proof {
            assert(v@.subrange(from as int, to as int).len() != w@.len());
        }
        return false;
    }
    let mut i: usize = 0;
    while i < n
        invariant
            i <= n,
            n == w@.len(),
            from + n <= to <= v@.len(),
            to - from == n,
            forall|j: int| 0 <= j < i ==> v@[from + j] == w@[j],
        decreases n - i,
    {
        if v[from + i] != w.get_char(i) {
            proof {
                assert(v@.subrange(from as int, to as int)[i as int] != w@[i as int]);
            }
            return false;
        }
        i = i + 1;
    }
    proof {
        assert(v@.subrange(from as int, to as int) =~= w@);
    }
    true
}

/// Whether the strings `a` and `b` hold the same characters.
pub fn str_matches(a: &str, b: &str) -> (r: bool)
    ensures
        r == (a@ == b@),
{
    let n = a.unicode_len();
    if b.unicode_len() != n {
        proof {
            assert(a@.len() != b@.len());
        }
        return false;
    }
    let mut i: usize = 0;
    while i < n
        invariant
            i <= n,
            n == a@.len() == b@.len(),
            forall|j: int| 0 <= j < i ==> a@[j] == b@[j],
        decreases n - i,
    {
        if a.get_char(i) != b.get_char(i) {
            return false;
        }
        i = i + 1;
    }
    proof {
        assert(a@ =~= b@);
    }
    true
}

/// Strict lexicographic order on character sequences, by scalar value.
pub open spec fn seq_char_lt(a: Seq<char>, b: Seq<char>) -> bool
    decreases a.len(),
{
    if b.len() == 0 {
        false
    } else if a.len() == 0 {
        true
    } else if a[0] != b[0] {
        a[0] < b[0]
    } else {
        seq_char_lt(a.drop_first(), b.drop_first())
    }
}

pub proof fn lemma_seq_char_lt_irreflexive(a: Seq<char>)
    ensures
        !seq_char_lt(a, a),
    decreases a.len(),
{
    if a.len() > 0 {
        lemma_seq_char_lt_irreflexive(a.drop_first());
    }
}

pub proof fn lemma_seq_char_lt_connected(a: Seq<char>, b: Seq<char>)
    ensures
        seq_char_lt(a, b) || seq_char_lt(b, a) || a == b,
    decreases a.len(),
{
    if a.len() == 0 && b.len() == 0 {
        assert(a =~= b);
    } else if a.len() == 0 {
        assert(seq_char_lt(a, b));
    } else if b.len() == 0 {
        assert(seq_char_lt(b, a));
    } else {
        if a[0] != b[0] {
            assert(seq_char_lt(a, b) || seq_char_lt(b, a));
        }
        if a[0] == b[0] {
            lemma_seq_char_lt_connected(a.drop_first(), b.drop_first());
            if !seq_char_lt(a, b) && !seq_char_lt(b, a) {
                assert(a.drop_first() == b.drop_first());
                assert(a =~= b) by {
                    assert(forall|j: int| 1 <= j < a.len() ==> a[j] == a.drop_first()[j - 1]
                        && b[j] == b.drop_first()[j - 1]);
                }
            }
        }
    }
}

pub proof fn lemma_seq_char_lt_asymmetric(a: Seq<char>, b: Seq<char>)
    requires
        seq_char_lt(a, b),
    ensures
        !seq_char_lt(b, a),
        a != b,
    decreases a.len(),
{
    if a.len() > 0 && b.len() > 0 && a[0] == b[0] {
        lemma_seq_char_lt_asymmetric(a.drop_first(), b.drop_first());
    }
    lemma_seq_char_lt_irreflexive(a);
}

pub proof fn lemma_seq_char_lt_transitive(a: Seq<char>, b: Seq<char>, c: Seq<char>)
    requires
        seq_char_lt(a, b),
        seq_char_lt(b, c),
    ensures
        seq_char_lt(a, c),
    decreases a.len(),
{
    if a.len() > 0 && b.len() > 0 && c.len() > 0 {
        if a[0] == b[0] && b[0] == c[0] {
            lemma_seq_char_lt_transitive(a.drop_first(), b.drop_first(), c.drop_first());
        }
    }
}

/// Whether `a` comes strictly before `b` in lexicographic order.
pub fn str_lt(a: &str, b: &str) -> (r: bool)
    ensures
        r == seq_char_lt(a@, b@),
{
    let na = a.unicode_len();
    let nb = b.unicode_len();
    proof {
        assert(a@.subrange(0, na as int) =~= a@);
        assert(b@.subrange(0, nb as int) =~= b@);
    }
    let mut i: usize = 0;
    loop
        invariant
            i <= na,
            i <= nb,
            na == a@.len(),
            nb == b@.len(),
            forall|j: int| 0 <= j < i ==> a@[j] == b@[j],
            seq_char_lt(a@, b@) == seq_char_lt(
                a@.subrange(i as int, na as int),
                b@.subrange(i as int, nb as int),
            ),
        decreases na - i,
    {
        proof {
            lemma_seq_char_lt_step(a@, b@, i as int);
        }
        if i >= nb {
            return false;
        }
        if i >= na {
            return true;
        }
        let ca = a.get_char(i);
        let cb = b.get_char(i);
        if ca != cb {
            return ca < cb;
        }
        i = i + 1;
    }
}

proof fn lemma_seq_char_lt_step(a: Seq<char>, b: Seq<char>, i: int)
    requires
        0 <= i <= a.len(),
        0 <= i <= b.len(),
    ensures
        ({
            let ra = a.subrange(i, a.len() as int);
            let rb = b.subrange(i, b.len() as int);
            &&& (i == b.len() ==> !seq_char_lt(ra, rb))
            &&& (i < b.len() && i == a.len() ==> seq_char_lt(ra, rb))
            &&& (i < a.len() && i < b.len() && a[i] != b[i] ==> seq_char_lt(ra, rb) == (a[i] < b[i]))
            &&& (i < a.len() && i < b.len() && a[i] == b[i] ==> seq_char_lt(ra, rb)
                == seq_char_lt(
                a.subrange(i + 1, a.len() as int),
                b.subrange(i + 1, b.len() as int),
            ))
        }),
{
    let ra = a.subrange(i, a.len() as int);
    let rb = b.subrange(i, b.len() as int);
    if i < a.len() && i < b.len() {
        assert(ra[0] == a[i]);
        assert(rb[0] == b[i]);
        if a[i] == b[i] {
            assert(ra.drop_first() =~= a.subrange(i + 1, a.len() as int));
            assert(rb.drop_first() =~= b.subrange(i + 1, b.len() as int));
        }
    }
}

} // verus!
