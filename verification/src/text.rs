//! Ordering and formatting of strings, over their views as sequences of characters.

use vstd::prelude::*;
use vstd::std_specs::iter::IteratorSpec;

verus! {

/// Whether `a` comes strictly before `b` in lexicographic order of code points.
///
/// `k` is the length of the longest common prefix: either `a` ends there and `b` goes on, or
/// both go on and `a` has the smaller character.
pub open spec fn lex_lt(a: Seq<char>, b: Seq<char>) -> bool {
    exists|k: int| #[trigger] lex_lt_at(a, b, k)
}

/// `a` and `b` agree on their first `k` characters and `a` is the smaller one right after.
pub open spec fn lex_lt_at(a: Seq<char>, b: Seq<char>, k: int) -> bool {
    &&& 0 <= k <= a.len()
    &&& k <= b.len()
    &&& a.take(k) == b.take(k)
    &&& (k == a.len() && k < b.len()) || (k < a.len() && k < b.len() && (a[k] as u32) < (b[k] as u32))
}

/// Where two strings first differ decides their order: no other position can.
pub proof fn lemma_lex_lt_decided_at(a: Seq<char>, b: Seq<char>, k: int)
    requires
        0 <= k <= a.len(),
        k <= b.len(),
        a.take(k) == b.take(k),
        k == a.len() || k == b.len() || a[k] != b[k],
    ensures
        lex_lt(a, b) == lex_lt_at(a, b, k),
{
    if lex_lt(a, b) {
        let j = choose|j: int| #[trigger] lex_lt_at(a, b, j);
        if j < k {
            assert(j < a.len() && j < b.len());
            assert(a.take(k)[j] == a[j]);
            assert(b.take(k)[j] == b[j]);
            assert(false);
        } else if j > k {
            assert(k < a.len() && k < b.len());
            assert(a.take(j)[k] == a[k]);
            assert(b.take(j)[k] == b[k]);
            assert(false);
        }
        assert(j == k);
    }
}

/// No string comes before itself.
pub proof fn lemma_lex_lt_irreflexive(a: Seq<char>)
    ensures
        !lex_lt(a, a),
{
    lemma_lex_lt_decided_at(a, a, a.len() as int);
}

/// The order is transitive.
pub proof fn lemma_lex_lt_transitive(a: Seq<char>, b: Seq<char>, c: Seq<char>)
    requires
        lex_lt(a, b),
        lex_lt(b, c),
    ensures
        lex_lt(a, c),
{
    let j = choose|j: int| #[trigger] lex_lt_at(a, b, j);
    let k = choose|k: int| #[trigger] lex_lt_at(b, c, k);
    let m = if j <= k { j } else { k };
    assert(a.take(m) =~= c.take(m)) by {
        assert forall|i: int| 0 <= i < m implies a[i] == c[i] by {
            assert(a.take(j)[i] == a[i]);
            assert(b.take(j)[i] == b[i]);
            assert(b.take(k)[i] == b[i]);
            assert(c.take(k)[i] == c[i]);
        }
    }
    if j < k {
        assert(b.take(k)[j] == b[j]);
        assert(c.take(k)[j] == c[j]);
    } else if k < j {
        assert(a.take(j)[k] == a[k]);
        assert(b.take(j)[k] == b[k]);
    }
    assert(lex_lt_at(a, c, m));
}

/// Two different strings are ordered one way or the other.
pub proof fn lemma_lex_lt_total(a: Seq<char>, b: Seq<char>)
    requires
        a != b,
    ensures
        lex_lt(a, b) || lex_lt(b, a),
{
    assert(a.take(0) =~= b.take(0));
    lemma_lex_lt_total_from(a, b, 0);
}

proof fn lemma_lex_lt_total_from(a: Seq<char>, b: Seq<char>, k: int)
    requires
        a != b,
        0 <= k <= a.len(),
        k <= b.len(),
        a.take(k) == b.take(k),
    ensures
        lex_lt(a, b) || lex_lt(b, a),
    decreases a.len() - k,
{
    if k == a.len() && k == b.len() {
        assert(a.take(k) =~= a);
        assert(b.take(k) =~= b);
    } else if k == a.len() {
        assert(lex_lt_at(a, b, k));
    } else if k == b.len() {
        assert(lex_lt_at(b, a, k));
    } else if a[k] == b[k] {
        assert(a.take(k + 1) =~= a.take(k).push(a[k]));
        assert(b.take(k + 1) =~= b.take(k).push(b[k]));
        lemma_lex_lt_total_from(a, b, k + 1);
    } else {
        vstd::utf8::char_u32_cast(a[k], a[k] as u32);
        vstd::utf8::char_u32_cast(b[k], b[k] as u32);
        assert((a[k] as u32) != (b[k] as u32));
        if (a[k] as u32) < (b[k] as u32) {
            assert(lex_lt_at(a, b, k));
        } else {
            assert(lex_lt_at(b, a, k));
        }
    }
}

/// Compares two strings in lexicographic order of code points.
pub fn str_lt(a: &str, b: &str) -> (r: bool)
    ensures
        r == lex_lt(a@, b@),
{
    let mut ia = a.chars();
    let mut ib = b.chars();
    let ghost mut k: int = 0;
    loop
        invariant
            0 <= k <= a@.len(),
            k <= b@.len(),
            a@.take(k) == b@.take(k),
            ia.remaining() == a@.skip(k),
            ib.remaining() == b@.skip(k),
        decreases a@.len() - k,
    {
        let ca = ia.next();
        let cb = ib.next();
        match (ca, cb) {
            (None, None) => {
                proof {
                    lemma_lex_lt_decided_at(a@, b@, k);
                }
                return false;
            },
            (None, Some(_)) => {
                proof {
                    lemma_lex_lt_decided_at(a@, b@, k);
                }
                return true;
            },
            (Some(_), None) => {
                proof {
                    lemma_lex_lt_decided_at(a@, b@, k);
                }
                return false;
            },
            (Some(x), Some(y)) => {
                assert(x == a@[k] && y == b@[k]);
                if x != y {
                    proof {
                        lemma_lex_lt_decided_at(a@, b@, k);
                    }
                    return (x as u32) < (y as u32);
                }
                proof {
                    assert(a@.take(k + 1) =~= a@.take(k).push(x));
                    assert(b@.take(k + 1) =~= b@.take(k).push(y));
                    assert(a@.skip(k + 1) =~= a@.skip(k).drop_first());
                    assert(b@.skip(k + 1) =~= b@.skip(k).drop_first());
                    k = k + 1;
                }
            },
        }
    }
}

/// Whether two strings hold the same characters.
pub fn str_eq(a: &str, b: &str) -> (r: bool)
    ensures
        r == (a@ == b@),
{
    let mut ia = a.chars();
    let mut ib = b.chars();
    let ghost mut k: int = 0;
    loop
        invariant
            0 <= k <= a@.len(),
            k <= b@.len(),
            a@.take(k) == b@.take(k),
            ia.remaining() == a@.skip(k),
            ib.remaining() == b@.skip(k),
        decreases a@.len() - k,
    {
        let ca = ia.next();
        let cb = ib.next();
        match (ca, cb) {
            (None, None) => {
                assert(a@ =~= a@.take(k));
                assert(b@ =~= b@.take(k));
                return true;
            },
            (Some(x), Some(y)) => {
                assert(x == a@[k] && y == b@[k]);
                if x != y {
                    return false;
                }
                proof {
                    assert(a@.take(k + 1) =~= a@.take(k).push(x));
                    assert(b@.take(k + 1) =~= b@.take(k).push(y));
                    assert(a@.skip(k + 1) =~= a@.skip(k).drop_first());
                    assert(b@.skip(k + 1) =~= b@.skip(k).drop_first());
                    k = k + 1;
                }
            },
            _ => {
                return false;
            },
        }
    }
}

/// The character that stands for the digit `d`.
pub open spec fn digit_char(d: nat) -> char {
    if d == 0 {
        '0'
    } else if d == 1 {
        '1'
    } else if d == 2 {
        '2'
    } else if d == 3 {
        '3'
    } else if d == 4 {
        '4'
    } else if d == 5 {
        '5'
    } else if d == 6 {
        '6'
    } else if d == 7 {
        '7'
    } else if d == 8 {
        '8'
    } else {
        '9'
    }
}

/// The decimal representation of `n`, without leading zeros.
pub open spec fn decimal(n: nat) -> Seq<char>
    decreases n,
{
    if n < 10 {
        seq![digit_char(n)]
    } else {
        decimal(n / 10).push(digit_char(n % 10))
    }
}

fn digit_str(d: u64) -> (s: &'static str)
    requires
        d < 10,
    ensures
        s@ == seq![digit_char(d as nat)],
{
    proof {
        reveal_strlit("0");
        reveal_strlit("1");
        reveal_strlit("2");
        reveal_strlit("3");
        reveal_strlit("4");
        reveal_strlit("5");
        reveal_strlit("6");
        reveal_strlit("7");
        reveal_strlit("8");
        reveal_strlit("9");
    }
    let s = if d == 0 {
        "0"
    } else if d == 1 {
        "1"
    } else if d == 2 {
        "2"
    } else if d == 3 {
        "3"
    } else if d == 4 {
        "4"
    } else if d == 5 {
        "5"
    } else if d == 6 {
        "6"
    } else if d == 7 {
        "7"
    } else if d == 8 {
        "8"
    } else {
        "9"
    };
    assert(s@ =~= seq![digit_char(d as nat)]);
    s
}

/// Writes `n` in decimal.
pub fn decimal_string(n: u64) -> (s: String)
    ensures
        s@ == decimal(n as nat),
    decreases n,
{
    if n < 10 {
        String::from_str(digit_str(n))
    } else {
        let mut s = decimal_string(n / 10);
        s.append(digit_str(n % 10));
        assert(s@ =~= decimal((n / 10) as nat).push(digit_char((n % 10) as nat)));
        s
    }
}

} // verus!
