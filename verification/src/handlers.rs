pub mod label;
pub mod todo;

use vstd::prelude::*;
use vstd::string::StrSliceExecFns;

verus! {

pub const STATUS_OK: u16 = 200;

pub const STATUS_CREATED: u16 = 201;

pub const STATUS_NO_CONTENT: u16 = 204;

pub const STATUS_BAD_REQUEST: u16 = 400;

pub const STATUS_NOT_FOUND: u16 = 404;

pub const STATUS_INTERNAL_SERVER_ERROR: u16 = 500;

/// GET / — the static greeting, unrelated to entity state.
pub fn root() -> (r: &'static str)
    ensures
        r@ == "Hello, world!"@,
{
    "Hello, world!"
}

/// A decimal digit.
pub open spec fn is_digit(c: char) -> bool {
    '0' <= c && c <= '9'
}

/// Numeric value of one digit.
pub open spec fn digit_val(c: char) -> int {
    c as u32 - '0' as u32
}

/// Every character of the sequence is a digit.
pub open spec fn all_digits(s: Seq<char>) -> bool {
    forall|i: int| 0 <= i < s.len() ==> is_digit(#[trigger] s[i])
}

/// The number a digit sequence denotes in base ten.
pub open spec fn dec_value(s: Seq<char>) -> int
    decreases s.len(),
{
    if s.len() == 0 {
        0
    } else {
        dec_value(s.drop_last()) * 10 + digit_val(s.last())
    }
}

/// The integer an id path parameter denotes: an optional minus sign, then
/// digits.
pub open spec fn id_str_value(s: Seq<char>) -> int {
    if s.len() > 0 && s[0] == '-' {
        -dec_value(s.skip(1))
    } else {
        dec_value(s)
    }
}

/// A well-formed id path parameter: an optional minus sign, then at least one
/// digit, denoting a value that a 32-bit id can hold.
pub open spec fn valid_id_str(s: Seq<char>) -> bool {
    if s.len() > 0 && s[0] == '-' {
        &&& s.len() >= 2
        &&& all_digits(s.skip(1))
        &&& -dec_value(s.skip(1)) >= i32::MIN
    } else {
        &&& s.len() >= 1
        &&& all_digits(s)
        &&& dec_value(s) <= i32::MAX
    }
}

/// A digit sequence denotes a non-negative number.
proof fn lemma_dec_value_nonneg(s: Seq<char>)
    requires
        all_digits(s),
    ensures
        dec_value(s) >= 0,
    decreases s.len(),
{
    if s.len() > 0 {
        assert(all_digits(s.drop_last()));
        lemma_dec_value_nonneg(s.drop_last());
    }
}

/// Reading further digits never shrinks the denoted number.
proof fn lemma_dec_value_prefix(s: Seq<char>, i: int)
    requires
        all_digits(s),
        0 <= i <= s.len(),
    ensures
        dec_value(s.take(i)) <= dec_value(s),
    decreases s.len() - i,
{
    if i == s.len() {
        assert(s.take(i) =~= s);
    } else {
        assert(all_digits(s.take(i))) by {
            assert(forall|k: int| 0 <= k < i ==> s.take(i)[k] == s[k]);
        }
        lemma_dec_value_nonneg(s.take(i));
        assert(s.take(i + 1).drop_last() =~= s.take(i));
        assert(dec_value(s.take(i + 1)) == dec_value(s.take(i)) * 10 + digit_val(s[i]));
        lemma_dec_value_prefix(s, i + 1);
    }
}

/// Decode an id path parameter, as the route layer must before touching a
/// store: `None` exactly on a malformed (non-numeric or out-of-range) string,
/// which the HTTP layer answers with 400.
pub fn parse_id(s: &str) -> (r: Option<i32>)
    ensures
        r is Some <==> valid_id_str(s@),
        r matches Some(id) ==> id as int == id_str_value(s@),
{
    let n = s.unicode_len();
    if n == 0 {
        return None;
    }
    let neg = s.get_char(0) == '-';
    let start: usize = if neg { 1 } else { 0 };
    if neg && n == 1 {
        return None;
    }
    let limit: u64 = if neg { 2147483648 } else { 2147483647 };
    let ghost digits = if neg { s@.skip(1) } else { s@ };
    let mut acc: u64 = 0;
    let mut j: usize = start;
    while j < n
        invariant
            s@.len() == n,
            start <= j <= n,
            start == 0 || start == 1,
            neg ==> start == 1 && s@[0] == '-' && n >= 2,
            !neg ==> start == 0 && (n > 0 ==> s@[0] != '-'),
            digits == (if neg { s@.skip(1) } else { s@ }),
            limit == (if neg { 2147483648u64 } else { 2147483647u64 }),
            acc <= limit,
            forall|k: int| 0 <= k < j - start ==> is_digit(#[trigger] digits[k]),
            acc == dec_value(digits.take(j - start)),
        decreases n - j,
    {
        let c = s.get_char(j);
        let u = c as u32;
        if u < 48 || u > 57 {
            proof {
                assert(digits[j - start] == s@[j as int]);
                assert(!is_digit(s@[j as int]));
            }
            return None;
        }
        let d = (u - 48) as u64;
        let next = acc * 10 + d;
        proof {
            assert(digits.take(j + 1 - start).drop_last() =~= digits.take(j - start));
            assert(digits[j - start] == s@[j as int]);
            assert(dec_value(digits.take(j + 1 - start)) == acc * 10 + d);
        }
        if next > limit {
            proof {
                assert(all_digits(digits.take(j + 1 - start))) by {
                    assert(forall|k: int|
                        0 <= k < j + 1 - start ==> digits.take(j + 1 - start)[k] == digits[k]);
                }
                if valid_id_str(s@) {
                    assert(all_digits(digits));
                    lemma_dec_value_prefix(digits, j + 1 - start);
                    assert(dec_value(digits) >= next);
                }
            }
            return None;
        }
        acc = next;
        j += 1;
    }
    proof {
        assert(digits.take(n - start) =~= digits);
        assert(all_digits(digits));
    }
    if neg {
        if acc == 2147483648 {
            return Some(i32::MIN);
        }
        let v = acc as i32;
        Some(-v)
    } else {
        Some(acc as i32)
    }
}

} // verus!
