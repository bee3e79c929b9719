//! The grammar of a batch-delete id list.
//!
//! Delete takes one comma-separated string of record ids. A list is
//! well formed when every comma-separated segment parses as one id: an
//! optional leading plus sign, then one or more decimal digits, with a
//! value that fits the id type. Validation stops at the first bad
//! segment, before any row can be touched; no partial processing of a
//! malformed list.

use vstd::prelude::*;

verus! {

/// One decimal digit.
pub open spec fn is_ascii_digit(c: char) -> bool {
    48 <= c as int <= 57
}

/// The numeric weight of one character: its decimal digit value, and
/// zero for anything that is no digit (such a character already makes
/// the segment invalid on its own).
pub open spec fn digit_val(c: char) -> nat {
    if is_ascii_digit(c) {
        (c as int - 48) as nat
    } else {
        0
    }
}

/// Every character is a decimal digit.
pub open spec fn spec_all_digits(s: Seq<char>) -> bool {
    forall|i: int| 0 <= i < s.len() ==> is_ascii_digit(s[i])
}

/// The value of a digit string read in base ten.
pub open spec fn spec_digits_value(s: Seq<char>) -> nat
    decreases s.len(),
{
    if s.len() == 0 {
        0
    } else {
        spec_digits_value(s.drop_last()) * 10 + digit_val(s.last())
    }
}

/// One well-formed id: an optional leading plus sign, then one or more
/// decimal digits whose value fits in the id type.
pub open spec fn spec_valid_id(s: Seq<char>) -> bool {
    let digits = if s.len() > 0 && s[0] == '+' {
        s.skip(1)
    } else {
        s
    };
    digits.len() > 0 && spec_all_digits(digits) && spec_digits_value(digits) <= u64::MAX
}

/// The position of the first comma, or the length when there is none.
pub open spec fn first_comma(s: Seq<char>) -> nat
    decreases s.len(),
{
    if s.len() == 0 {
        0
    } else if s[0] == ',' {
        0
    } else {
        1 + first_comma(s.skip(1))
    }
}

/// A well-formed id list: one or more comma-separated well-formed ids.
/// The empty string is not well formed (its single segment is empty),
/// and neither is a list with a trailing comma.
pub open spec fn spec_valid_id_list(s: Seq<char>) -> bool
    decreases s.len(),
{
    let k = first_comma(s);
    if k >= s.len() {
        spec_valid_id(s)
    } else {
        spec_valid_id(s.take(k as int)) && spec_valid_id_list(s.skip(k as int + 1))
    }
}

/// Reading more digits never shrinks the value.
proof fn lemma_digits_value_prefix(s: Seq<char>, k: int)
    requires
        0 <= k <= s.len(),
    ensures
        spec_digits_value(s.take(k)) <= spec_digits_value(s),
    decreases s.len() - k,
{
    if k == s.len() {
        assert(s.take(k) =~= s);
    } else {
        assert(s.take(k + 1).drop_last() =~= s.take(k));
        assert(s.take(k + 1).last() == s[k]);
        assert(spec_digits_value(s.take(k)) <= spec_digits_value(s.take(k)) * 10 + digit_val(
            s[k],
        ));
        lemma_digits_value_prefix(s, k + 1);
    }
}

/// The first comma is where no comma stands before a comma or the end.
proof fn lemma_first_comma_is(s: Seq<char>, k: int)
    requires
        0 <= k <= s.len(),
        forall|i: int| 0 <= i < k ==> s[i] != ',',
        k < s.len() ==> s[k] == ',',
    ensures
        first_comma(s) == k,
    decreases s.len(),
{
    if s.len() == 0 {
    } else if k == 0 {
    } else {
        assert(s[0] != ',');
        assert forall|i: int| 0 <= i < k - 1 implies s.skip(1)[i] != ',' by {
            assert(s.skip(1)[i] == s[i + 1]);
        }
        assert(k - 1 < s.skip(1).len() ==> s.skip(1)[k - 1] == s[k]);
        lemma_first_comma_is(s.skip(1), k - 1);
    }
}

/// Whether the characters from `start` (inclusive) to `end` (exclusive)
/// form one well-formed id, the way the standard unsigned parse reads
/// them: optional plus sign, digits, no overflow.
#[verifier::loop_isolation(false)]
fn check_id(s: &str, start: usize, end: usize) -> (b: bool)
    requires
        start <= end <= s@.len(),
    ensures
        b == spec_valid_id(s@.subrange(start as int, end as int)),
{
    let ghost seg = s@.subrange(start as int, end as int);
    if start == end {
        return false;
    }
    let c0 = s.get_char(start);
    let sign: usize = if c0 == '+' {
        1
    } else {
        0
    };
    let ghost dg = s@.subrange(start as int + sign as int, end as int);
    proof {
        if seg[0] == '+' {
            assert(seg.skip(1) =~= dg);
        } else {
            assert(seg =~= dg);
        }
    }
    if start + sign == end {
        return false;
    }
    let mut acc: u64 = 0;
    let mut i: usize = start + sign;
    proof {
        assert(dg.take(0) =~= Seq::<char>::empty());
    }
    while i < end
        invariant
            start + sign <= i <= end <= s@.len(),
            dg == s@.subrange(start as int + sign as int, end as int),
            acc == spec_digits_value(dg.take(i - start - sign)),
            spec_all_digits(dg.take(i - start - sign)),
        decreases end - i,
    {
        let ghost j = i - start - sign;
        let c = s.get_char(i);
        proof {
            assert(dg[j] == s@[i as int]);
        }
        let cv = c as u32;
        if cv < 48 || cv > 57 {
            proof {
                assert(c as int == cv as int);
                assert(!is_ascii_digit(dg[j]));
                assert(!spec_all_digits(dg));
                assert(!spec_valid_id(seg));
            }
            return false;
        }
        let d = (cv - 48) as u64;
        proof {
            assert(dg.take(j + 1).drop_last() =~= dg.take(j));
            assert(dg.take(j + 1).last() == dg[j]);
            assert(digit_val(dg[j]) == d);
        }
        let next = match acc.checked_mul(10) {
            Option::Some(m) => {
                match m.checked_add(d) {
                    Option::Some(w) => w,
                    Option::None => {
                        proof {
                            assert(spec_digits_value(dg.take(j + 1)) > u64::MAX);
                            lemma_digits_value_prefix(dg, j + 1);
                            assert(spec_digits_value(dg) > u64::MAX);
                            assert(!spec_valid_id(seg));
                        }
                        return false;
                    },
                }
            },
            Option::None => {
                proof {
                    assert(spec_digits_value(dg.take(j + 1)) > u64::MAX);
                    lemma_digits_value_prefix(dg, j + 1);
                    assert(spec_digits_value(dg) > u64::MAX);
                    assert(!spec_valid_id(seg));
                }
                return false;
            },
        };
        acc = next;
        i += 1;
    }
    proof {
        assert(dg.take(end - start - sign) =~= dg);
    }
    true
}

/// Whether the whole string is a well-formed id list. The scan stops at
/// the first segment that fails to parse.
pub fn check_id_list(s: &str) -> (b: bool)
    ensures
        b == spec_valid_id_list(s@),
{
    let n = s.unicode_len();
    let mut start: usize = 0;
    proof {
        assert(s@.skip(0) =~= s@);
    }
    loop
        invariant
            start <= n,
            n == s@.len(),
            spec_valid_id_list(s@) <==> spec_valid_id_list(s@.skip(start as int)),
        decreases n - start,
    {
        let mut j: usize = start;
        while j < n && s.get_char(j) != ','
            invariant
                start <= j <= n,
                n == s@.len(),
                forall|m: int| start <= m < j ==> s@[m] != ',',
            decreases n - j,
        {
            j += 1;
        }
        let ghost rest = s@.skip(start as int);
        proof {
            assert forall|m: int| 0 <= m < j - start implies rest[m] != ',' by {
                assert(rest[m] == s@[start + m]);
            }
            if j < n {
                assert(rest[j - start] == s@[j as int]);
            }
            lemma_first_comma_is(rest, j - start);
            assert(rest.take(j - start) =~= s@.subrange(start as int, j as int));
        }
        let ok = check_id(s, start, j);
        if !ok {
            return false;
        }
        if j == n {
            proof {
                assert(rest =~= s@.subrange(start as int, j as int));
            }
            return true;
        }
        proof {
            assert(rest.skip(j - start + 1) =~= s@.skip(j as int + 1));
        }
        start = j + 1;
    }
}

} // verus!
