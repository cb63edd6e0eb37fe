use vstd::prelude::*;
use vstd::string::StrSliceExecFns;
use vstd::string::StringExecFns;

verus! {

/// A console line with leading and trailing whitespace removed. Which
/// characters count as whitespace is Unicode's table, so the result of
/// trimming only gets this name.
pub uninterp spec fn trimmed_of(s: Seq<char>) -> Seq<char>;

/// Relies on str::trim: removes leading and trailing whitespace, with a
/// result that depends on the characters alone.
#[verifier::external_body]
fn trim_str(s: &str) -> (r: String)
    ensures
        r@ == trimmed_of(s@),
{
    s.trim().to_string()
}

/// Is `c` one of the decimal digits `0` through `9`?
pub open spec fn is_digit_char(c: char) -> bool {
    48 <= c as int && c as int <= 57
}

/// The value of one decimal digit.
pub open spec fn digit_val(c: char) -> int {
    c as int - 48
}

pub open spec fn all_digits(s: Seq<char>) -> bool {
    forall|i: int| 0 <= i < s.len() ==> is_digit_char(s[i])
}

/// The number a digit string denotes, most significant digit first.
pub open spec fn digits_int(s: Seq<char>) -> int
    decreases s.len(),
{
    if s.len() == 0 {
        0
    } else {
        digits_int(s.drop_last()) * 10 + digit_val(s.last())
    }
}

/// The digits of a numeral once an optional leading `+` sign is gone.
pub open spec fn digits_part(s: Seq<char>) -> Seq<char> {
    if s.len() > 0 && s[0] == '+' {
        s.drop_first()
    } else {
        s
    }
}

/// What `str::parse::<u64>` accepts: an optional leading `+`, then one or
/// more decimal digits, denoting a value that fits in 64 bits. Anything
/// else — an empty string, a sign other than `+`, a stray character, or a
/// value past `u64::MAX` — denotes nothing.
pub open spec fn spec_parse_u64(s: Seq<char>) -> Option<u64> {
    let t = digits_part(s);
    if t.len() > 0 && all_digits(t) && digits_int(t) <= u64::MAX {
        Some(digits_int(t) as u64)
    } else {
        None
    }
}

proof fn lemma_digits_int_nonneg(s: Seq<char>)
    requires
        all_digits(s),
    ensures
        digits_int(s) >= 0,
    decreases s.len(),
{
    if s.len() > 0 {
        assert(all_digits(s.drop_last()));
        lemma_digits_int_nonneg(s.drop_last());
    }
}

/// A digit string denotes at least as much as any of its prefixes.
proof fn lemma_digits_prefix_le(s: Seq<char>, k: int)
    requires
        all_digits(s),
        0 <= k <= s.len(),
    ensures
        digits_int(s.take(k)) <= digits_int(s),
    decreases s.len() - k,
{
    if k < s.len() {
        lemma_digits_prefix_le(s, k + 1);
        assert(s.take(k + 1).drop_last() =~= s.take(k));
        assert(s.take(k + 1).last() == s[k]);
        assert(all_digits(s.take(k)));
        lemma_digits_int_nonneg(s.take(k));
        assert(digits_int(s.take(k + 1)) == digits_int(s.take(k)) * 10 + digit_val(s[k]));
    } else {
        assert(s.take(k) =~= s);
    }
}

/// The decimal reading of a whole string, as `spec_parse_u64` states it.
pub fn parse_u64_decimal(s: &str) -> (r: Option<u64>)
    ensures
        r == spec_parse_u64(s@),
{
    let n = s.unicode_len();
    let mut start: usize = 0;
    if n > 0 && s.get_char(0) == '+' {
        start = 1;
    }
    let ghost t = digits_part(s@);
    proof {
        if start == 1 {
            assert(s@.drop_first() =~= s@.skip(1));
        } else {
            assert(s@.skip(0) =~= s@);
        }
        assert(t == s@.skip(start as int));
    }
    if start == n {
        return None;
    }
    let mut acc: u64 = 0;
    let mut i: usize = start;
    while i < n
        invariant
            n == s@.len(),
            start <= i <= n,
            start < n,
            t == digits_part(s@),
            t == s@.skip(start as int),
            all_digits(t.take(i - start)),
            acc == digits_int(t.take(i - start)),
        decreases n - i,
    {
        let c = s.get_char(i);
        let u = c as u32;
        proof {
            assert(t[i - start] == s@[i as int]);
        }
        if u < 48 || u > 57 {
            proof {
                assert(!is_digit_char(s@[i as int]));
                assert(!all_digits(t));
            }
            return None;
        }
        let d = ((u - 48) as u64);
        proof {
            assert(t.take(i - start + 1).drop_last() =~= t.take(i - start));
            assert(t.take(i - start + 1).last() == t[i - start]);
            assert(digits_int(t.take(i - start + 1)) == acc * 10 + d);
        }
        if acc > u64::MAX / 10 || (acc == u64::MAX / 10 && d > u64::MAX % 10) {
            proof {
                if all_digits(t) {
                    lemma_digits_prefix_le(t, i - start + 1);
                    assert(digits_int(t) > u64::MAX);
                }
            }
            return None;
        }
        proof {
            assert(acc * 10 + d <= u64::MAX);
            assert(all_digits(t.take(i - start + 1)));
        }
        acc = acc * 10 + d;
        i = i + 1;
    }
    proof {
        assert(t.take(n - start) =~= t);
        assert(t.len() > 0);
    }
    Some(acc)
}

/// The identifier a console line denotes: the line is trimmed of leading
/// and trailing whitespace, then must read as an unsigned 64-bit decimal.
/// `None` asks the operator for another try.
pub fn parse_user_id(input: &str) -> (r: Option<u64>)
    ensures
        r == spec_parse_u64(trimmed_of(input@)),
{
    let trimmed = trim_str(input);
    parse_u64_decimal(trimmed.as_str())
}

} // verus!
