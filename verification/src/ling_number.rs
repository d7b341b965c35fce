//! Decoder for positional numeral strings: digit characters combined with
//! magnitude-unit characters (ten, hundred, thousand, ten-thousand).
use vstd::prelude::*;

verus! {

/// Face value of a digit character, if `c` is one.
pub open spec fn digit_val(c: char) -> Option<int> {
    if c == '零' || c == '〇' {
        Some(0int)
    } else if c == '一' {
        Some(1int)
    } else if c == '二' {
        Some(2int)
    } else if c == '三' {
        Some(3int)
    } else if c == '四' {
        Some(4int)
    } else if c == '五' {
        Some(5int)
    } else if c == '六' {
        Some(6int)
    } else if c == '七' {
        Some(7int)
    } else if c == '八' {
        Some(8int)
    } else if c == '九' {
        Some(9int)
    } else {
        None
    }
}

/// Base value of a magnitude-unit character, if `c` is one.
pub open spec fn unit_val(c: char) -> Option<int> {
    if c == '十' {
        Some(10int)
    } else if c == '百' {
        Some(100int)
    } else if c == '千' {
        Some(1000int)
    } else if c == '万' {
        Some(10000int)
    } else {
        None
    }
}

/// One step of the left-to-right scan. The state is the pair
/// (result accumulated across ten-thousand groups, value of the group
/// being built). A digit overwrites the pending group value; a unit
/// combines with it (an implicit leading one when none is pending);
/// any other character is skipped.
pub open spec fn scan_step(result: int, current: int, c: char) -> (int, int) {
    if digit_val(c) is Some {
        (result, digit_val(c)->Some_0)
    } else if unit_val(c) is Some {
        let u = unit_val(c)->Some_0;
        let cur = if current == 0 { 1int } else { current };
        if u >= 10000 {
            ((result + cur) * u, 0int)
        } else {
            (result + cur * u, 0int)
        }
    } else {
        (result, current)
    }
}

/// State of the scan after reading all of `s`, starting from (0, 0).
pub open spec fn scan(s: Seq<char>) -> (int, int)
    decreases s.len(),
{
    if s.len() == 0 {
        (0int, 0int)
    } else {
        let p = scan(s.drop_last());
        scan_step(p.0, p.1, s.last())
    }
}

/// The integer a numeral string denotes: the scanned result plus a
/// trailing bare digit group.
pub open spec fn numeral_value(s: Seq<char>) -> int {
    scan(s).0 + scan(s).1
}

pub open spec fn in_i64(x: int) -> bool {
    i64::MIN <= x <= i64::MAX
}

/// Whether the intermediate values of one scan step stay within `i64`.
pub open spec fn scan_step_in_bounds(result: int, current: int, c: char) -> bool {
    if digit_val(c) is None && unit_val(c) is Some {
        let u = unit_val(c)->Some_0;
        let cur = if current == 0 { 1int } else { current };
        if u >= 10000 {
            in_i64(result + cur) && in_i64((result + cur) * u)
        } else {
            in_i64(cur * u) && in_i64(result + cur * u)
        }
    } else {
        true
    }
}

/// Whether every step of the scan of `s` stays within `i64`.
pub open spec fn scan_in_bounds(s: Seq<char>) -> bool
    decreases s.len(),
{
    if s.len() == 0 {
        true
    } else {
        let p = scan(s.drop_last());
        scan_in_bounds(s.drop_last()) && scan_step_in_bounds(p.0, p.1, s.last())
    }
}

/// Whether the whole decoding of `s`, final addition included, stays
/// within `i64`.
pub open spec fn decode_in_bounds(s: Seq<char>) -> bool {
    scan_in_bounds(s) && in_i64(numeral_value(s))
}

proof fn lemma_scan_in_bounds_prefix(s: Seq<char>, k: int)
    requires
        0 <= k <= s.len(),
        scan_in_bounds(s),
    ensures
        scan_in_bounds(s.subrange(0, k)),
    decreases s.len(),
{
    if k == s.len() {
        assert(s.subrange(0, k) =~= s);
    } else {
        assert(s.drop_last() =~= s.subrange(0, s.len() - 1));
        assert(s.subrange(0, s.len() - 1).subrange(0, k) =~= s.subrange(0, k));
        lemma_scan_in_bounds_prefix(s.drop_last(), k);
    }
}

fn digit_of(c: char) -> (r: Option<i64>)
    ensures
        match r {
            Some(v) => digit_val(c) == Some(v as int),
            None => digit_val(c) is None,
        },
{
    if c == '零' || c == '〇' {
        Some(0)
    } else if c == '一' {
        Some(1)
    } else if c == '二' {
        Some(2)
    } else if c == '三' {
        Some(3)
    } else if c == '四' {
        Some(4)
    } else if c == '五' {
        Some(5)
    } else if c == '六' {
        Some(6)
    } else if c == '七' {
        Some(7)
    } else if c == '八' {
        Some(8)
    } else if c == '九' {
        Some(9)
    } else {
        None
    }
}

fn unit_of(c: char) -> (r: Option<i64>)
    ensures
        match r {
            Some(v) => unit_val(c) == Some(v as int),
            None => unit_val(c) is None,
        },
{
    if c == '十' {
        Some(10)
    } else if c == '百' {
        Some(100)
    } else if c == '千' {
        Some(1000)
    } else if c == '万' {
        Some(10000)
    } else {
        None
    }
}

/// Decodes a numeral string in a single left-to-right pass. Characters
/// outside the digit/unit alphabet are skipped. Returns `None` exactly
/// when some intermediate value would leave the `i64` range; on every
/// other input the decoded value is returned.
pub fn chinese_to_number(s: &str) -> (r: Option<i64>)
    ensures
        match r {
            Some(v) => decode_in_bounds(s@) && v as int == numeral_value(s@),
            None => !decode_in_bounds(s@),
        },
{
    let n: usize = s.unicode_len();

    // A single digit or unit character denotes its face or base value
    // directly.
    if n == 1 {
        let c = s.get_char(0);
        proof {
            assert(s@.drop_last() =~= Seq::<char>::empty());
            assert(s@.last() == s@[0]);
            assert(scan(s@.drop_last()) == (0int, 0int));
            assert(scan_in_bounds(s@.drop_last()));
            assert(scan(s@) == scan_step(0int, 0int, c));
            assert(scan_in_bounds(s@) == scan_step_in_bounds(0int, 0int, c));
        }
        if let Some(v) = digit_of(c) {
            return Some(v);
        }
        if let Some(v) = unit_of(c) {
            return Some(v);
        }
    }

    let mut result: i64 = 0;
    let mut current: i64 = 0;
    let mut i: usize = 0;

    while i < n
        invariant
            n == s@.len(),
            0 <= i <= n,
            scan_in_bounds(s@.subrange(0, i as int)),
            (result as int, current as int) == scan(s@.subrange(0, i as int)),
        decreases n - i,
    {
        let c = s.get_char(i);
        proof {
            assert(s@.subrange(0, i + 1).drop_last() =~= s@.subrange(0, i as int));
            assert(s@.subrange(0, i + 1).last() == s@[i as int]);
        }
        if let Some(d) = digit_of(c) {
            current = d;
        } else if let Some(u) = unit_of(c) {
            let cur: i64 = if current == 0 { 1 } else { current };
            if u >= 10000 {
                let sum = match result.checked_add(cur) {
                    Some(x) => x,
                    None => {
                        proof {
                            out_of_bounds_is_final(s@, i as int);
                        }
                        return None;
                    },
                };
                result = match sum.checked_mul(u) {
                    Some(x) => x,
                    None => {
                        proof {
                            out_of_bounds_is_final(s@, i as int);
                        }
                        return None;
                    },
                };
                current = 0;
            } else {
                let prod = match cur.checked_mul(u) {
                    Some(x) => x,
                    None => {
                        proof {
                            out_of_bounds_is_final(s@, i as int);
                        }
                        return None;
                    },
                };
                result = match result.checked_add(prod) {
                    Some(x) => x,
                    None => {
                        proof {
                            out_of_bounds_is_final(s@, i as int);
                        }
                        return None;
                    },
                };
                current = 0;
            }
        }
        i = i + 1;
    }

    proof {
        assert(s@.subrange(0, n as int) =~= s@);
    }
    match result.checked_add(current) {
        Some(v) => Some(v),
        None => None,
    }
}

/// A scan step that leaves the `i64` range at position `i` makes the
/// whole decoding out of bounds.
proof fn out_of_bounds_is_final(s: Seq<char>, i: int)
    requires
        0 <= i < s.len(),
        !scan_step_in_bounds(scan(s.subrange(0, i)).0, scan(s.subrange(0, i)).1, s[i]),
    ensures
        !decode_in_bounds(s),
{
    assert(s.subrange(0, i + 1).drop_last() =~= s.subrange(0, i));
    assert(s.subrange(0, i + 1).last() == s[i]);
    if scan_in_bounds(s) {
        lemma_scan_in_bounds_prefix(s, i + 1);
    }
}

} // verus!
