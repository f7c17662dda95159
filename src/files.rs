use vstd::prelude::*;

verus! {

/// The pattern that the names of the clients' stored runs match.
pub const CLIENT_DATA_FILE_PATTERN: &'static str = r"^client_(\d+)_data\.json$";

/// The decimal digit for a value below ten.
pub open spec fn digit_char(d: nat) -> char {
    if d == 0 { '0' }
    else if d == 1 { '1' }
    else if d == 2 { '2' }
    else if d == 3 { '3' }
    else if d == 4 { '4' }
    else if d == 5 { '5' }
    else if d == 6 { '6' }
    else if d == 7 { '7' }
    else if d == 8 { '8' }
    else { '9' }
}

/// The decimal text of a number, without leading zeros.
pub open spec fn decimal_of(n: nat) -> Seq<char>
    decreases n,
{
    if n < 10 {
        seq![digit_char(n)]
    } else {
        decimal_of(n / 10).push(digit_char(n % 10))
    }
}

/// The name under which client `client_id` stores its run.
pub open spec fn client_data_file_name_of(client_id: nat) -> Seq<char> {
    "client_"@ + decimal_of(client_id) + "_data.json"@
}

/// The one-character text of a decimal digit.
fn digit_text(d: u64) -> (r: &'static str)
    requires
        d < 10,
    ensures
        r@ == seq![digit_char(d as nat)],
{
    proof {
        reveal_strlit("0");
        reveal_strlit("1");
        reveal_strlit("2");
        reveal_strlit("3");
        reveal_strlit("4");
        reveal_strlit("5");
        reveal_strlit("6");
        reveal_strlit("7");
        reveal_strlit("8");
        reveal_strlit("9");
    }
    let r = if d == 0 {
        "0"
    } else if d == 1 {
        "1"
    } else if d == 2 {
        "2"
    } else if d == 3 {
        "3"
    } else if d == 4 {
        "4"
    } else if d == 5 {
        "5"
    } else if d == 6 {
        "6"
    } else if d == 7 {
        "7"
    } else if d == 8 {
        "8"
    } else {
        "9"
    };
    assert(r@ =~= seq![digit_char(d as nat)]);
    r
}

/// The decimal text of `n`, without sign or leading zeros.
pub fn decimal_text(n: u64) -> (r: String)
    ensures
        r@ == decimal_of(n as nat),
{
    let mut m: u64 = n;
    let mut acc = String::new();
    loop
        invariant
            decimal_of(n as nat) == decimal_of(m as nat) + acc@,
        decreases m,
    {
        let d = digit_text(m % 10);
        let next = String::from_str(d).concat(acc.as_str());
        if m < 10 {
            assert(next@ =~= decimal_of(m as nat) + acc@);
            return next;
        }
        proof {
            assert(decimal_of(m as nat) == decimal_of((m / 10) as nat).push(digit_char((m % 10) as nat)));
            assert(decimal_of(m as nat) + acc@ =~= decimal_of((m / 10) as nat) + next@);
        }
        acc = next;
        m = m / 10;
    }
}

/// The name under which client `client_id` stores its run:
/// `client_<client_id>_data.json`.
pub fn client_data_file_name(client_id: u64) -> (r: String)
    ensures
        r@ == client_data_file_name_of(client_id as nat),
{
    let digits = decimal_text(client_id);
    let mut name = String::from_str("client_");
    name.append(digits.as_str());
    name.append("_data.json");
    name
}

} // verus!
