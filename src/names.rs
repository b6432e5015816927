use vstd::prelude::*;
use vstd::string::StringExecFns;

verus! {

pub open spec fn digit_char(d: nat) -> char {
    if d == 0 {
        '0'
    } else if d == 1 {
        '1'
    } else if d == 2 {
        '2'
    } else if d == 3 {
        '3'
    } else if d == 4 {
        '4'
    } else if d == 5 {
        '5'
    } else if d == 6 {
        '6'
    } else if d == 7 {
        '7'
    } else if d == 8 {
        '8'
    } else {
        '9'
    }
}

/// The decimal digits of `n`.
pub open spec fn decimal(n: nat) -> Seq<char>
    decreases n,
{
    if n < 10 {
        seq![digit_char(n)]
    } else {
        decimal(n / 10).push(digit_char(n % 10))
    }
}

fn digit_str(d: usize) -> (r: &'static str)
    requires
        d < 10,
    ensures
        r@ == seq![digit_char(d as nat)],
{
    proof {
        reveal_strlit("0");
        reveal_strlit("1");
        reveal_strlit("2");
        reveal_strlit("3");
        reveal_strlit("4");
        reveal_strlit("5");
        reveal_strlit("6");
        reveal_strlit("7");
        reveal_strlit("8");
        reveal_strlit("9");
    }
    let r = if d == 0 {
        "0"
    } else if d == 1 {
        "1"
    } else if d == 2 {
        "2"
    } else if d == 3 {
        "3"
    } else if d == 4 {
        "4"
    } else if d == 5 {
        "5"
    } else if d == 6 {
        "6"
    } else if d == 7 {
        "7"
    } else if d == 8 {
        "8"
    } else {
        "9"
    };
    assert(r@ =~= seq![digit_char(d as nat)]);
    r
}

/// Appends the decimal digits of `n` to `s`.
pub fn push_decimal(s: String, n: usize) -> (r: String)
    ensures
        r@ == s@ + decimal(n as nat),
    decreases n,
{
    if n < 10 {
        s.concat(digit_str(n))
    } else {
        let t = push_decimal(s, n / 10);
        let r = t.concat(digit_str(n % 10));
        assert(r@ =~= s@ + decimal(n as nat));
        r
    }
}

/// The name of the duplicate of the `j`-th accumulated result in a pattern.
pub open spec fn res_name(j: nat) -> Seq<char> {
    "_cps_res"@ + decimal(j)
}

/// The name of the duplicate of the result of the `j`-th binding.
pub open spec fn arg_name(j: nat) -> Seq<char> {
    "_cps_arg"@ + decimal(j)
}

pub fn res_name_exec(j: usize) -> (r: String)
    ensures
        r@ == res_name(j as nat),
{
    push_decimal(String::from_str("_cps_res"), j)
}

pub fn arg_name_exec(j: usize) -> (r: String)
    ensures
        r@ == arg_name(j as nat),
{
    push_decimal(String::from_str("_cps_arg"), j)
}

} // verus!
