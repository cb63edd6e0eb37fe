use vstd::prelude::*;
use vstd::string::StringExecFns;

verus! {

/// The digit character for one value below ten.
pub open spec fn digit_char_of(d: int) -> char {
    if d == 0 {
        '0'
    } else if d == 1 {
        '1'
    } else if d == 2 {
        '2'
    } else if d == 3 {
        '3'
    } else if d == 4 {
        '4'
    } else if d == 5 {
        '5'
    } else if d == 6 {
        '6'
    } else if d == 7 {
        '7'
    } else if d == 8 {
        '8'
    } else {
        '9'
    }
}

/// The decimal numeral of a number, most significant digit first, without
/// a sign and without leading zeroes (a lone zero for zero itself).
pub open spec fn decimal_of(n: int) -> Seq<char>
    decreases n,
{
    if n < 10 {
        seq![digit_char_of(n)]
    } else {
        decimal_of(n / 10).push(digit_char_of(n % 10))
    }
}

fn digit_str(d: u64) -> (r: &'static str)
    requires
        d < 10,
    ensures
        r@ == seq![digit_char_of(d as int)],
{
    proof {
        reveal_strlit("0");
        reveal_strlit("1");
        reveal_strlit("2");
        reveal_strlit("3");
        reveal_strlit("4");
        reveal_strlit("5");
        reveal_strlit("6");
        reveal_strlit("7");
        reveal_strlit("8");
        reveal_strlit("9");
    }
    let r = if d == 0 {
        "0"
    } else if d == 1 {
        "1"
    } else if d == 2 {
        "2"
    } else if d == 3 {
        "3"
    } else if d == 4 {
        "4"
    } else if d == 5 {
        "5"
    } else if d == 6 {
        "6"
    } else if d == 7 {
        "7"
    } else if d == 8 {
        "8"
    } else {
        "9"
    };
    proof {
        assert(r@ =~= seq![digit_char_of(d as int)]);
    }
    r
}

/// Appends the decimal numeral of `n` to `out`.
fn push_decimal(out: &mut String, n: u64)
    ensures
        final(out)@ == old(out)@ + decimal_of(n as int),
    decreases n,
{
    if n >= 10 {
        push_decimal(out, n / 10);
        out.append(digit_str(n % 10));
        proof {
            assert(old(out)@ + decimal_of((n / 10) as int) + seq![digit_char_of((n % 10) as int)]
                =~= old(out)@ + decimal_of(n as int));
        }
    } else {
        out.append(digit_str(n));
    }
}

/// The request URL for one identifier's username history.
pub open spec fn spec_endpoint(user_id: u64) -> Seq<char> {
    "https://users.roblox.com/v1/users/"@ + decimal_of(user_id as int) + "/username-history"@
}

/// The exact URL the fetch is asked to issue one GET against.
pub fn build_endpoint(user_id: u64) -> (r: String)
    ensures
        r@ == spec_endpoint(user_id),
{
    let mut url = String::from_str("https://users.roblox.com/v1/users/");
    push_decimal(&mut url, user_id);
    url.append("/username-history");
    url
}

} // verus!
