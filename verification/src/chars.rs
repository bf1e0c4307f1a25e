//! Searching and trimming text, over its characters.

use vstd::prelude::*;
use vstd::std_specs::iter::IteratorSpec;

verus! {

/// The characters of `s`.
pub fn chars_of(s: &str) -> (chars: Vec<char>)
    ensures
        chars@ == s@,
{
    let mut chars: Vec<char> = Vec::new();
    let mut rest = s.chars();
    loop
        invariant
            chars@.len() <= s@.len(),
            chars@ == s@.take(chars@.len() as int),
            rest.remaining() == s@.skip(chars@.len() as int),
        decreases s@.len() - chars@.len(),
    {
        let ghost n = chars@.len() as int;
        match rest.next() {
            Some(c) => {
                chars.push(c);
                proof {
                    assert(c == s@[n]);
                    assert(s@.take(n + 1) =~= s@.take(n).push(c));
                    assert(s@.skip(n + 1) =~= s@.skip(n).drop_first());
                }
            },
            None => {
                assert(s@.take(n) =~= s@);
                return chars;
            },
        }
    }
}

/// Whether `needle` stands in `hay` at position `at`.
pub open spec fn occurs_at(hay: Seq<char>, needle: Seq<char>, at: int) -> bool {
    &&& 0 <= at
    &&& at + needle.len() <= hay.len()
    &&& hay.subrange(at, at + needle.len()) == needle
}

/// The first position at or after `from` at which `needle` stands in `hay`, if there is one.
pub open spec fn first_occurrence(hay: Seq<char>, needle: Seq<char>, from: int) -> Option<int>
    decreases hay.len() - from + 1,
{
    if from < 0 || from + needle.len() > hay.len() {
        None
    } else if occurs_at(hay, needle, from) {
        Some(from)
    } else {
        first_occurrence(hay, needle, from + 1)
    }
}

/// What `first_occurrence` finds is an occurrence, and there is none before it.
pub proof fn lemma_first_occurrence(hay: Seq<char>, needle: Seq<char>, from: int)
    requires
        0 <= from,
    ensures
        match first_occurrence(hay, needle, from) {
            Some(at) => from <= at && occurs_at(hay, needle, at) && forall|k: int|
                from <= k < at ==> !occurs_at(hay, needle, k),
            None => forall|k: int| from <= k ==> !occurs_at(hay, needle, k),
        },
    decreases hay.len() - from + 1,
{
    if from + needle.len() <= hay.len() && !occurs_at(hay, needle, from) {
        lemma_first_occurrence(hay, needle, from + 1);
    }
}

/// Whether `needle` stands in `hay` at position `at`.
pub fn stands_at(hay: &Vec<char>, needle: &Vec<char>, at: usize) -> (r: bool)
    ensures
        r == occurs_at(hay@, needle@, at as int),
{
    if at > hay.len() || needle.len() > hay.len() - at {
        return false;
    }
    let mut k: usize = 0;
    while k < needle.len()
        invariant
            at + needle@.len() <= hay@.len() <= usize::MAX,
            0 <= k <= needle@.len(),
            forall|j: int| 0 <= j < k ==> hay@[at + j] == needle@[j],
        decreases needle@.len() - k,
    {
        if hay[at + k] != needle[k] {
            proof {
                let part = hay@.subrange(at as int, at + needle@.len());
                assert(part[k as int] == hay@[at + k]);
            }
            return false;
        }
        k = k + 1;
    }
    assert(hay@.subrange(at as int, at + needle@.len()) =~= needle@);
    true
}

/// The first position at or after `from` at which `needle` stands in `hay`.
pub fn find_from(hay: &Vec<char>, needle: &Vec<char>, from: usize) -> (r: Option<usize>)
    ensures
        match r {
            Some(at) => first_occurrence(hay@, needle@, from as int) == Some(at as int),
            None => first_occurrence(hay@, needle@, from as int) is None,
        },
{
    if from > hay.len() || needle.len() > hay.len() - from {
        return None;
    }
    let last = hay.len() - needle.len();
    let mut at: usize = from;
    loop
        invariant
            needle@.len() <= hay@.len() <= usize::MAX,
            last == hay@.len() - needle@.len(),
            from <= at <= last,
            first_occurrence(hay@, needle@, from as int) == first_occurrence(
                hay@,
                needle@,
                at as int,
            ),
        decreases last - at,
    {
        if stands_at(hay, needle, at) {
            return Some(at);
        }
        if at == last {
            assert(first_occurrence(hay@, needle@, at + 1) is None);
            return None;
        }
        at = at + 1;
    }
}

/// What is left of `s` once every `prefix` at its start is taken away.
pub open spec fn strip_all(s: Seq<char>, prefix: Seq<char>) -> Seq<char>
    decreases s.len(),
{
    if prefix.len() > 0 && occurs_at(s, prefix, 0) {
        strip_all(s.skip(prefix.len() as int), prefix)
    } else {
        s
    }
}

/// The position in `hay` at which what `strip_all` leaves of `hay` from `from` on begins.
pub fn skip_all(hay: &Vec<char>, prefix: &Vec<char>, from: usize) -> (at: usize)
    requires
        from <= hay@.len(),
    ensures
        from <= at <= hay@.len(),
        hay@.skip(at as int) == strip_all(hay@.skip(from as int), prefix@),
{
    let mut at: usize = from;
    if prefix.len() == 0 || at > hay.len() {
        return at;
    }
    while stands_at(hay, prefix, at)
        invariant
            prefix@.len() > 0,
            from <= at <= hay@.len() <= usize::MAX,
            strip_all(hay@.skip(at as int), prefix@) == strip_all(hay@.skip(from as int), prefix@),
        decreases hay@.len() - at,
    {
        proof {
            lemma_occurs_in_skip(hay@, prefix@, at as int);
            assert(hay@.skip(at as int).skip(prefix@.len() as int) =~= hay@.skip(
                at + prefix@.len(),
            ));
        }
        at = at + prefix.len();
    }
    proof {
        lemma_occurs_in_skip(hay@, prefix@, at as int);
    }
    at
}

/// `needle` stands at the start of what follows position `at` just when it stands at `at`.
pub proof fn lemma_occurs_in_skip(hay: Seq<char>, needle: Seq<char>, at: int)
    requires
        0 <= at <= hay.len(),
    ensures
        occurs_at(hay.skip(at), needle, 0) == occurs_at(hay, needle, at),
{
    if at + needle.len() <= hay.len() {
        assert(hay.skip(at).subrange(0, needle.len() as int) =~= hay.subrange(
            at,
            at + needle.len(),
        ));
    }
}

/// Whether `c` is white space: a character with the Unicode property `White_Space`.
pub open spec fn is_whitespace(c: char) -> bool {
    let u = c as u32;
    ||| 0x09 <= u <= 0x0D
    ||| u == 0x20
    ||| u == 0x85
    ||| u == 0xA0
    ||| u == 0x1680
    ||| 0x2000 <= u <= 0x200A
    ||| u == 0x2028
    ||| u == 0x2029
    ||| u == 0x202F
    ||| u == 0x205F
    ||| u == 0x3000
}

/// Whether `c` is white space.
pub fn is_space(c: char) -> (r: bool)
    ensures
        r == is_whitespace(c),
{
    let u: u32 = c as u32;
    (0x09 <= u && u <= 0x0D) || u == 0x20 || u == 0x85 || u == 0xA0 || u == 0x1680 || (0x2000 <= u
        && u <= 0x200A) || u == 0x2028 || u == 0x2029 || u == 0x202F || u == 0x205F || u
        == 0x3000
}

/// `s` without the white space at its start.
pub open spec fn trim_start(s: Seq<char>) -> Seq<char>
    decreases s.len(),
{
    if s.len() > 0 && is_whitespace(s[0]) {
        trim_start(s.drop_first())
    } else {
        s
    }
}

/// `s` without the white space at its end.
pub open spec fn trim_end(s: Seq<char>) -> Seq<char>
    decreases s.len(),
{
    if s.len() > 0 && is_whitespace(s.last()) {
        trim_end(s.drop_last())
    } else {
        s
    }
}

/// `s` without the white space at its start and at its end.
pub open spec fn trim(s: Seq<char>) -> Seq<char> {
    trim_end(trim_start(s))
}

/// Where the part of `chars` between `from` and `to` begins and ends once it is trimmed.
pub fn trim_bounds(chars: &Vec<char>, from: usize, to: usize) -> (r: (usize, usize))
    requires
        from <= to <= chars@.len(),
    ensures
        from <= r.0 <= r.1 <= to,
        chars@.subrange(r.0 as int, r.1 as int) == trim(chars@.subrange(from as int, to as int)),
{
    let mut lo: usize = from;
    while lo < to && is_space(chars[lo])
        invariant
            from <= lo <= to <= chars@.len(),
            trim_start(chars@.subrange(lo as int, to as int)) == trim_start(
                chars@.subrange(from as int, to as int),
            ),
        decreases to - lo,
    {
        assert(chars@.subrange(lo as int, to as int).drop_first() =~= chars@.subrange(
            lo + 1,
            to as int,
        ));
        lo = lo + 1;
    }
    let mut hi: usize = to;
    while hi > lo && is_space(chars[hi - 1])
        invariant
            lo <= hi <= to <= chars@.len(),
            trim_end(chars@.subrange(lo as int, hi as int)) == trim_end(
                chars@.subrange(lo as int, to as int),
            ),
        decreases hi - lo,
    {
        assert(chars@.subrange(lo as int, hi as int).drop_last() =~= chars@.subrange(
            lo as int,
            hi - 1,
        ));
        hi = hi - 1;
    }
    (lo, hi)
}

} // verus!
