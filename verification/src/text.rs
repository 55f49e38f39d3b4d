//! Byte-level text primitives shared by the line classifier and the
//! environment checker: whitespace trimming and first-occurrence search.

use vstd::prelude::*;

verus! {

/// ASCII whitespace: space, tab, line feed, vertical tab, form feed,
/// carriage return.
pub open spec fn is_space_byte(b: u8) -> bool {
    b == 32 || (9 <= b && b <= 13)
}

/// Index of the first occurrence of `b` in `s` at or after `from`,
/// or `s.len()` when there is none.
pub open spec fn find_byte(s: Seq<u8>, from: int, b: u8) -> int
    decreases s.len() - from,
{
    if from < 0 || from >= s.len() {
        s.len() as int
    } else if s[from] == b {
        from
    } else {
        find_byte(s, from + 1, b)
    }
}

/// `find_byte` lands between `from` and `s.len()`, lands on `b` unless it
/// reaches the end, and skips no earlier occurrence.
pub proof fn lemma_find_byte(s: Seq<u8>, from: int, b: u8)
    requires
        0 <= from <= s.len(),
    ensures
        from <= find_byte(s, from, b) <= s.len(),
        find_byte(s, from, b) < s.len() ==> s[find_byte(s, from, b)] == b,
        forall|k: int| from <= k < find_byte(s, from, b) ==> s[k] != b,
    decreases s.len() - from,
{
    if from < s.len() && s[from] != b {
        lemma_find_byte(s, from + 1, b);
    }
}

/// First position of `b` in `v` at or after `from`, or `v.len()`.
pub fn find_byte_from(v: &[u8], from: usize, b: u8) -> (r: usize)
    requires
        from <= v@.len(),
    ensures
        r == find_byte(v@, from as int, b),
{
    let n = v.len();
    let mut i = from;
    while i < n
        invariant
            from <= i <= n,
            n == v@.len(),
            find_byte(v@, from as int, b) == find_byte(v@, i as int, b),
        decreases n - i,
    {
        if v[i] == b {
            assert(find_byte(v@, i as int, b) == i as int);
            return i;
        }
        assert(find_byte(v@, i as int, b) == find_byte(v@, i + 1, b));
        i = i + 1;
    }
    assert(find_byte(v@, i as int, b) == i as int);
    i
}

/// `l` with its leading whitespace removed.
pub open spec fn spec_trim_start(l: Seq<u8>) -> Seq<u8>
    decreases l.len(),
{
    if l.len() > 0 && is_space_byte(l[0]) {
        spec_trim_start(l.drop_first())
    } else {
        l
    }
}

/// `l` with its trailing whitespace removed.
pub open spec fn spec_trim_end(l: Seq<u8>) -> Seq<u8>
    decreases l.len(),
{
    if l.len() > 0 && is_space_byte(l[l.len() - 1]) {
        spec_trim_end(l.drop_last())
    } else {
        l
    }
}

/// `l` with leading and trailing whitespace removed.
pub open spec fn spec_trim(l: Seq<u8>) -> Seq<u8> {
    spec_trim_end(spec_trim_start(l))
}

proof fn lemma_trim_start_step(s: Seq<u8>, i: int, e: int)
    requires
        0 <= i < e <= s.len(),
        is_space_byte(s[i]),
    ensures
        spec_trim_start(s.subrange(i, e)) == spec_trim_start(s.subrange(i + 1, e)),
{
    assert(s.subrange(i, e).drop_first() =~= s.subrange(i + 1, e));
}

proof fn lemma_trim_end_step(s: Seq<u8>, i: int, e: int)
    requires
        0 <= i < e <= s.len(),
        is_space_byte(s[e - 1]),
    ensures
        spec_trim_end(s.subrange(i, e)) == spec_trim_end(s.subrange(i, e - 1)),
{
    assert(s.subrange(i, e).drop_last() =~= s.subrange(i, e - 1));
}

/// Whether the byte of `v` at `i` is ASCII whitespace.
fn space_at(v: &[u8], i: usize) -> (r: bool)
    requires
        i < v@.len(),
    ensures
        r == is_space_byte(v@[i as int]),
{
    let c = v[i];
    c == 32 || (9 <= c && c <= 13)
}

/// Trim whitespace from the range `[from, to)` of `v`: the returned pair
/// `(ts, te)` bounds the subrange that `spec_trim` keeps.
pub fn trim_range(v: &[u8], from: usize, to: usize) -> (r: (usize, usize))
    requires
        from <= to <= v@.len(),
    ensures
        from <= r.0 <= r.1 <= to,
        v@.subrange(r.0 as int, r.1 as int) == spec_trim(
            v@.subrange(from as int, to as int),
        ),
{
    let mut ts = from;
    while ts < to && space_at(v, ts)
        invariant
            from <= ts <= to <= v@.len(),
            spec_trim_start(v@.subrange(from as int, to as int)) == spec_trim_start(
                v@.subrange(ts as int, to as int),
            ),
        decreases to - ts,
    {
        proof {
            lemma_trim_start_step(v@, ts as int, to as int);
        }
        ts = ts + 1;
    }
    assert(spec_trim_start(v@.subrange(ts as int, to as int)) == v@.subrange(
        ts as int,
        to as int,
    ));
    let mut te = to;
    while te > ts && space_at(v, te - 1)
        invariant
            from <= ts <= te <= to <= v@.len(),
            spec_trim_end(v@.subrange(ts as int, to as int)) == spec_trim_end(
                v@.subrange(ts as int, te as int),
            ),
        decreases te,
    {
        proof {
            lemma_trim_end_step(v@, ts as int, te as int);
        }
        te = te - 1;
    }
    assert(spec_trim_end(v@.subrange(ts as int, te as int)) == v@.subrange(
        ts as int,
        te as int,
    ));
    (ts, te)
}

} // verus!
