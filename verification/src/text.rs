//! Character-level text helpers: Unicode whitespace and trimming, as `str::trim` does it.
use vstd::prelude::*;
use vstd::string::StrSliceExecFns;

verus! {

broadcast use vstd::string::group_string_axioms;

/// `c` has the Unicode `White_Space` property, the property that `char::is_whitespace` tests.
pub open spec fn is_whitespace(c: char) -> bool {
    let v = c as u32;
    ||| 0x9 <= v <= 0xD
    ||| v == 0x20
    ||| v == 0x85
    ||| v == 0xA0
    ||| v == 0x1680
    ||| 0x2000 <= v <= 0x200A
    ||| v == 0x2028
    ||| v == 0x2029
    ||| v == 0x202F
    ||| v == 0x205F
    ||| v == 0x3000
}

/// `s` without its leading whitespace.
pub open spec fn trim_start(s: Seq<char>) -> Seq<char>
    decreases s.len(),
{
    if s.len() > 0 && is_whitespace(s[0]) {
        trim_start(s.drop_first())
    } else {
        s
    }
}

/// `s` without its trailing whitespace.
pub open spec fn trim_end(s: Seq<char>) -> Seq<char>
    decreases s.len(),
{
    if s.len() > 0 && is_whitespace(s.last()) {
        trim_end(s.drop_last())
    } else {
        s
    }
}

/// `s` without leading and trailing whitespace.
pub open spec fn trim(s: Seq<char>) -> Seq<char> {
    trim_end(trim_start(s))
}

/// Every character of `s` is whitespace.
pub open spec fn all_whitespace(s: Seq<char>) -> bool {
    forall|i: int| 0 <= i < s.len() ==> is_whitespace(#[trigger] s[i])
}

/// Trimming the start drops exactly the whitespace before the first other character.
pub proof fn lemma_trim_start_skip(s: Seq<char>, k: int)
    requires
        0 <= k <= s.len(),
        all_whitespace(s.take(k)),
        k == s.len() || !is_whitespace(s[k]),
    ensures
        trim_start(s) == s.skip(k),
    decreases k,
{
    if k == 0 {
        assert(s.skip(0) =~= s);
    } else {
        assert(s.take(k)[0] == s[0]);
        let t = s.drop_first();
        assert forall|i: int| 0 <= i < t.take(k - 1).len() implies is_whitespace(
            #[trigger] t.take(k - 1)[i],
        ) by {
            assert(s.take(k)[i + 1] == s[i + 1]);
        }
        lemma_trim_start_skip(t, k - 1);
        assert(t.skip(k - 1) =~= s.skip(k));
    }
}

/// Trimming the end drops exactly the whitespace after the last other character.
pub proof fn lemma_trim_end_take(s: Seq<char>, e: int)
    requires
        0 <= e <= s.len(),
        all_whitespace(s.skip(e)),
        e == 0 || !is_whitespace(s[e - 1]),
    ensures
        trim_end(s) == s.take(e),
    decreases s.len() - e,
{
    if e == s.len() {
        assert(s.take(e) =~= s);
        if s.len() > 0 {
            assert(s.last() == s[e - 1]);
        }
    } else {
        assert(s.skip(e)[s.len() - 1 - e] == s.last());
        let t = s.drop_last();
        assert forall|i: int| 0 <= i < t.skip(e).len() implies is_whitespace(
            #[trigger] t.skip(e)[i],
        ) by {
            assert(s.skip(e)[i] == t.skip(e)[i]);
        }
        if e > 0 {
            assert(t[e - 1] == s[e - 1]);
        }
        lemma_trim_end_take(t, e);
        assert(t.take(e) =~= s.take(e));
    }
}

/// Whether `c` is Unicode whitespace.
pub fn is_whitespace_char(c: char) -> (b: bool)
    ensures
        b == is_whitespace(c),
{
    let v = c as u32;
    (0x9 <= v && v <= 0xD) || v == 0x20 || v == 0x85 || v == 0xA0 || v == 0x1680 || (0x2000 <= v
        && v <= 0x200A) || v == 0x2028 || v == 0x2029 || v == 0x202F || v == 0x205F || v == 0x3000
}

/// The characters of `s`, in order.
pub fn chars_of(s: &str) -> (cs: Vec<char>)
    ensures
        cs@ == s@,
{
    let mut cs: Vec<char> = Vec::new();
    for c in it: s.chars()
        invariant
            cs@ == it.seq().take(it.index() as int),
    {
        cs.push(c);
    }
    cs
}

/// The first index in `from..to` whose character is not whitespace, or `to`.
pub fn skip_whitespace(cs: &[char], from: usize, to: usize) -> (k: usize)
    requires
        from <= to <= cs@.len(),
    ensures
        from <= k <= to,
        all_whitespace(cs@.subrange(from as int, k as int)),
        k == to || !is_whitespace(cs@[k as int]),
{
    let mut k = from;
    while k < to && is_whitespace_char(cs[k])
        invariant
            from <= k <= to <= cs@.len(),
            all_whitespace(cs@.subrange(from as int, k as int)),
        decreases to - k,
    {
        proof {
            assert forall|i: int| 0 <= i < k + 1 - from implies is_whitespace(
                #[trigger] cs@.subrange(from as int, k + 1)[i],
            ) by {
                if i < k - from {
                    assert(cs@.subrange(from as int, k as int)[i] == cs@[from + i]);
                }
            }
        }
        k = k + 1;
    }
    k
}

/// The end of `from..to` once trailing whitespace is dropped.
pub fn skip_whitespace_back(cs: &[char], from: usize, to: usize) -> (e: usize)
    requires
        from <= to <= cs@.len(),
    ensures
        from <= e <= to,
        all_whitespace(cs@.subrange(e as int, to as int)),
        e == from || !is_whitespace(cs@[e - 1]),
{
    let mut e = to;
    while e > from && is_whitespace_char(cs[e - 1])
        invariant
            from <= e <= to <= cs@.len(),
            all_whitespace(cs@.subrange(e as int, to as int)),
        decreases e - from,
    {
        proof {
            assert forall|i: int| 0 <= i < to - (e - 1) implies is_whitespace(
                #[trigger] cs@.subrange(e - 1, to as int)[i],
            ) by {
                if i > 0 {
                    assert(cs@.subrange(e as int, to as int)[i - 1] == cs@[e - 1 + i]);
                }
            }
        }
        e = e - 1;
    }
    e
}

/// Trimming a range of `cs` leaves the range between the indices found above.
pub proof fn lemma_trim_range(cs: Seq<char>, from: int, k: int, e: int, to: int)
    requires
        0 <= from <= k <= to <= cs.len(),
        all_whitespace(cs.subrange(from, k)),
        k == to || !is_whitespace(cs[k]),
        k <= e <= to,
        all_whitespace(cs.subrange(e, to)),
        e == k || !is_whitespace(cs[e - 1]),
    ensures
        trim_start(cs.subrange(from, to)) == cs.subrange(k, to),
        trim(cs.subrange(from, to)) == cs.subrange(k, e),
{
    let s = cs.subrange(from, to);
    assert(s.take(k - from) =~= cs.subrange(from, k));
    if k < to {
        assert(s[k - from] == cs[k]);
    }
    lemma_trim_start_skip(s, k - from);
    assert(s.skip(k - from) =~= cs.subrange(k, to));
    let t = cs.subrange(k, to);
    assert(t.skip(e - k) =~= cs.subrange(e, to));
    if e > k {
        assert(t[e - k - 1] == cs[e - 1]);
    }
    lemma_trim_end_take(t, e - k);
    assert(t.take(e - k) =~= cs.subrange(k, e));
}

/// Whether two strings hold the same characters.
pub fn str_eq(a: &str, b: &str) -> (same: bool)
    ensures
        same == (a@ == b@),
{
    let x = chars_of(a);
    let y = chars_of(b);
    if x.len() != y.len() {
        return false;
    }
    let mut i: usize = 0;
    while i < x.len()
        invariant
            x@ == a@,
            y@ == b@,
            x.len() == y.len(),
            0 <= i <= x.len(),
            forall|j: int| 0 <= j < i ==> x@[j] == y@[j],
        decreases x.len() - i,
    {
        if x[i] != y[i] {
            return false;
        }
        i = i + 1;
    }
    proof {
        assert(x@ =~= y@);
    }
    true
}

/// `s` without leading and trailing whitespace, as `str::trim` gives it.
pub fn trim_str(s: &str) -> (t: String)
    ensures
        t@ == trim(s@),
{
    let cs = chars_of(s);
    let n = cs.len();
    let k = skip_whitespace(cs.as_slice(), 0, n);
    let e = skip_whitespace_back(cs.as_slice(), k, n);
    proof {
        assert(cs@.subrange(0, n as int) =~= s@);
        lemma_trim_range(cs@, 0, k as int, e as int, n as int);
        assert(s@.subrange(k as int, e as int) =~= cs@.subrange(k as int, e as int));
    }
    s.substring_char(k, e).to_owned()
}

} // verus!

