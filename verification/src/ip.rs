//! IPv4 addresses as plain values, and parsing of dotted-quad literals.
//!
//! A literal is accepted exactly when it is four decimal octets separated by
//! dots, each octet at most 255, written without leading zeros. A statically
//! configured address that fails this parse is recoverable: the caller falls
//! back to dynamic acquisition.

use vstd::prelude::*;
use vstd::string::StrSliceExecFns;

verus! {

#[derive(Clone, Copy, Debug, PartialEq, Eq, Structural)]
pub struct Ipv4 {
    pub a: u8,
    pub b: u8,
    pub c: u8,
    pub d: u8,
}

impl Ipv4 {
    /// The all-zero address, which never counts as an assigned address.
    pub open spec fn is_unspecified(self) -> bool {
        self == (Ipv4 { a: 0, b: 0, c: 0, d: 0 })
    }
}

/// A decimal digit character.
pub open spec fn is_digit_char(c: char) -> bool {
    48 <= c as int && c as int <= 57
}

pub open spec fn digit_val(c: char) -> int {
    c as int - 48
}

pub open spec fn all_digits(t: Seq<char>) -> bool {
    forall|p: int| 0 <= p < t.len() ==> is_digit_char(#[trigger] t[p])
}

/// The value of a digit sequence read as a decimal number.
pub open spec fn octet_val(t: Seq<char>) -> int
    decreases t.len(),
{
    if t.len() == 0 {
        0
    } else {
        octet_val(t.drop_last()) * 10 + digit_val(t.last())
    }
}

/// A canonical decimal octet: one to three digits, no leading zero, at most 255.
pub open spec fn valid_octet(t: Seq<char>) -> bool {
    &&& 1 <= t.len() <= 3
    &&& all_digits(t)
    &&& (t.len() > 1 ==> t[0] != '0')
    &&& octet_val(t) <= 255
}

/// `i < j < k` are dot positions splitting `s` into four valid octets.
pub open spec fn ipv4_split(s: Seq<char>, i: int, j: int, k: int) -> bool {
    &&& 0 <= i < j < k < s.len()
    &&& s[i] == '.' && s[j] == '.' && s[k] == '.'
    &&& valid_octet(s.subrange(0, i))
    &&& valid_octet(s.subrange(i + 1, j))
    &&& valid_octet(s.subrange(j + 1, k))
    &&& valid_octet(s.subrange(k + 1, s.len() as int))
}

pub open spec fn split_value(s: Seq<char>, i: int, j: int, k: int) -> Ipv4 {
    Ipv4 {
        a: octet_val(s.subrange(0, i)) as u8,
        b: octet_val(s.subrange(i + 1, j)) as u8,
        c: octet_val(s.subrange(j + 1, k)) as u8,
        d: octet_val(s.subrange(k + 1, s.len() as int)) as u8,
    }
}

pub open spec fn valid_ipv4_literal(s: Seq<char>) -> bool {
    exists|i: int, j: int, k: int| ipv4_split(s, i, j, k)
}

/// The address a character sequence denotes, if it is a valid dotted-quad
/// literal; `None` otherwise.
pub open spec fn ipv4_of(s: Seq<char>) -> Option<Ipv4> {
    if valid_ipv4_literal(s) {
        let (i, j, k) = choose|i: int, j: int, k: int| ipv4_split(s, i, j, k);
        Some(split_value(s, i, j, k))
    } else {
        None
    }
}

/// In a split, every character away from the three separators sits inside an
/// octet and so is a digit: the separators are exactly the dots of `s`.
pub proof fn lemma_split_dots_exact(s: Seq<char>, i: int, j: int, k: int)
    requires
        ipv4_split(s, i, j, k),
    ensures
        forall|p: int|
            0 <= p < s.len() ==> (((#[trigger] s[p]) == '.') <==> (p == i || p == j || p == k)),
{
    assert forall|p: int| 0 <= p < s.len() && !(p == i || p == j || p == k) implies s[p]
        != '.' by {
        if p < i {
            assert(s.subrange(0, i)[p] == s[p]);
            assert(is_digit_char(s.subrange(0, i)[p]));
        } else if p < j {
            assert(s.subrange(i + 1, j)[p - (i + 1)] == s[p]);
            assert(is_digit_char(s.subrange(i + 1, j)[p - (i + 1)]));
        } else if p < k {
            assert(s.subrange(j + 1, k)[p - (j + 1)] == s[p]);
            assert(is_digit_char(s.subrange(j + 1, k)[p - (j + 1)]));
        } else {
            assert(s.subrange(k + 1, s.len() as int)[p - (k + 1)] == s[p]);
            assert(is_digit_char(s.subrange(k + 1, s.len() as int)[p - (k + 1)]));
        }
    }
}

/// A character sequence splits into four octets in at most one way.
pub proof fn lemma_ipv4_split_unique(s: Seq<char>, i: int, j: int, k: int, x: int, y: int, z: int)
    requires
        ipv4_split(s, i, j, k),
        ipv4_split(s, x, y, z),
    ensures
        i == x && j == y && k == z,
{
    lemma_split_dots_exact(s, i, j, k);
    lemma_split_dots_exact(s, x, y, z);
    assert(s[x] == '.' && s[y] == '.' && s[z] == '.');
    assert(s[i] == '.' && s[j] == '.' && s[k] == '.');
}

/// Splits being unique, `ipv4_of` returns precisely the value read off any
/// split a caller exhibits.
pub proof fn lemma_ipv4_of_split(s: Seq<char>, i: int, j: int, k: int)
    requires
        ipv4_split(s, i, j, k),
    ensures
        ipv4_of(s) == Some(split_value(s, i, j, k)),
{
    assert(valid_ipv4_literal(s));
    let (x, y, z) = choose|x: int, y: int, z: int| ipv4_split(s, x, y, z);
    lemma_ipv4_split_unique(s, i, j, k, x, y, z);
}

proof fn lemma_octet_val_bounds(t: Seq<char>)
    requires
        all_digits(t),
    ensures
        0 <= octet_val(t),
        t.len() <= 1 ==> octet_val(t) <= 9,
        t.len() <= 2 ==> octet_val(t) <= 99,
        t.len() <= 3 ==> octet_val(t) <= 999,
    decreases t.len(),
{
    if t.len() == 0 {
    } else {
        assert forall|p: int| 0 <= p < t.drop_last().len() implies is_digit_char(
            #[trigger] t.drop_last()[p],
        ) by {
            assert(t.drop_last()[p] == t[p]);
        }
        lemma_octet_val_bounds(t.drop_last());
        assert(is_digit_char(t[t.len() - 1]));
        assert(t.last() == t[t.len() - 1]);
    }
}

/// The digit a character denotes, if any.
fn char_digit(c: char) -> (r: Option<u8>)
    ensures
        r matches Some(v) ==> is_digit_char(c) && digit_val(c) == v as int,
        r is None ==> !is_digit_char(c),
{
    match c {
        '0' => Some(0),
        '1' => Some(1),
        '2' => Some(2),
        '3' => Some(3),
        '4' => Some(4),
        '5' => Some(5),
        '6' => Some(6),
        '7' => Some(7),
        '8' => Some(8),
        '9' => Some(9),
        _ => None,
    }
}

/// Parse `s[lo..hi]` as one canonical decimal octet.
fn parse_octet(s: &str, lo: usize, hi: usize) -> (r: Option<u8>)
    requires
        lo <= hi <= s@.len(),
    ensures
        r matches Some(v) ==> valid_octet(s@.subrange(lo as int, hi as int)) && octet_val(
            s@.subrange(lo as int, hi as int),
        ) == v as int,
        r is None ==> !valid_octet(s@.subrange(lo as int, hi as int)),
{
    let len = hi - lo;
    if len == 0 || len > 3 {
        return None;
    }
    let c0 = s.get_char(lo);
    if len > 1 && c0 == '0' {
        assert(s@.subrange(lo as int, hi as int)[0] == s@[lo as int]);
        return None;
    }
    let mut acc: u16 = 0;
    let mut idx = lo;
    while idx < hi
        invariant
            lo <= idx <= hi <= s@.len(),
            hi - lo <= 3,
            all_digits(s@.subrange(lo as int, idx as int)),
            acc as int == octet_val(s@.subrange(lo as int, idx as int)),
        decreases hi - idx,
    {
        let c = s.get_char(idx);
        match char_digit(c) {
            None => {
                assert(s@.subrange(lo as int, hi as int)[idx - lo] == s@[idx as int]);
                return None;
            },
            Some(d) => {
                proof {
                    lemma_octet_val_bounds(s@.subrange(lo as int, idx as int));
                }
                acc = acc * 10 + d as u16;
                idx = idx + 1;
                proof {
                    let prev = s@.subrange(lo as int, idx - 1);
                    let cur = s@.subrange(lo as int, idx as int);
                    assert(cur.drop_last() =~= prev);
                    assert(cur.last() == s@[idx - 1]);
                    assert forall|p: int| 0 <= p < cur.len() implies is_digit_char(
                        #[trigger] cur[p],
                    ) by {
                        if p < prev.len() {
                            assert(cur[p] == prev[p]);
                        } else {
                            assert(cur[p] == s@[idx - 1]);
                        }
                    }
                }
            },
        }
    }
    assert(s@.subrange(lo as int, idx as int) =~= s@.subrange(lo as int, hi as int));
    if acc > 255 {
        return None;
    }
    assert(s@.subrange(lo as int, hi as int)[0] == s@[lo as int]);
    Some(acc as u8)
}

/// Parse a dotted-quad IPv4 literal; accepts exactly the sequences that
/// `ipv4_of` accepts, and returns the address they denote.
pub fn parse_ipv4(s: &str) -> (r: Option<Ipv4>)
    ensures
        r == ipv4_of(s@),
{
    let n = s.unicode_len();
    let mut i: usize = 0;
    let mut count: usize = 0;
    let mut d1: usize = 0;
    let mut d2: usize = 0;
    let mut d3: usize = 0;
    while i < n
        invariant
            i <= n,
            n == s@.len(),
            count <= 3,
            count >= 1 ==> 0 <= d1 < i,
            count >= 2 ==> d1 < d2 < i,
            count >= 3 ==> d2 < d3 < i,
            forall|p: int|
                0 <= p < i ==> (((#[trigger] s@[p]) == '.') <==> ((count >= 1 && p == d1) || (
                count >= 2 && p == d2) || (count >= 3 && p == d3))),
        decreases n - i,
    {
        let c = s.get_char(i);
        if c == '.' {
            if count == 0 {
                d1 = i;
            } else if count == 1 {
                d2 = i;
            } else if count == 2 {
                d3 = i;
            } else {
                // a fourth dot: no split can account for it
                proof {
                    assert forall|x: int, y: int, z: int| !ipv4_split(s@, x, y, z) by {
                        if ipv4_split(s@, x, y, z) {
                            lemma_split_dots_exact(s@, x, y, z);
                            assert(s@[d1 as int] == '.');
                            assert(s@[d2 as int] == '.');
                            assert(s@[d3 as int] == '.');
                            assert(s@[i as int] == '.');
                            assert(false);
                        }
                    }
                }
                return None;
            }
            count = count + 1;
        }
        i = i + 1;
    }
    if count != 3 {
        // fewer than three dots: every split needs exactly three
        proof {
            assert forall|x: int, y: int, z: int| !ipv4_split(s@, x, y, z) by {
                if ipv4_split(s@, x, y, z) {
                    lemma_split_dots_exact(s@, x, y, z);
                    assert(s@[x] == '.');
                    assert(s@[y] == '.');
                    assert(s@[z] == '.');
                    assert(false);
                }
            }
        }
        return None;
    }
    assert(s@[d1 as int] == '.');
    let oa = parse_octet(s, 0, d1);
    let ob = parse_octet(s, d1 + 1, d2);
    let oc = parse_octet(s, d2 + 1, d3);
    let od = parse_octet(s, d3 + 1, n);
    match (oa, ob, oc, od) {
        (Some(va), Some(vb), Some(vc), Some(vd)) => {
            let ip = Ipv4 { a: va, b: vb, c: vc, d: vd };
            proof {
                assert(ipv4_split(s@, d1 as int, d2 as int, d3 as int));
                let (x, y, z) = choose|x: int, y: int, z: int| ipv4_split(s@, x, y, z);
                lemma_ipv4_split_unique(s@, d1 as int, d2 as int, d3 as int, x, y, z);
            }
            Some(ip)
        },
        _ => {
            // one of the four fields is not a canonical octet, and the dots
            // leave no other way to split
            proof {
                assert forall|x: int, y: int, z: int| !ipv4_split(s@, x, y, z) by {
                    if ipv4_split(s@, x, y, z) {
                        lemma_split_dots_exact(s@, x, y, z);
                        assert(s@[x] == '.');
                        assert(s@[y] == '.');
                        assert(s@[z] == '.');
                        assert(x == d1 && y == d2 && z == d3);
                        assert(false);
                    }
                }
            }
            None
        },
    }
}

} // verus!
