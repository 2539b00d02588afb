use vstd::prelude::*;

verus! {

/// Whether `c` is one of the ASCII digits `0` to `9`.
pub open spec fn is_digit(c: char) -> bool {
    48 <= c as u32 <= 57
}

/// The value of an ASCII digit.
pub open spec fn digit_value(c: char) -> nat {
    (c as u32 - 48) as nat
}

/// The ASCII digit for a value below ten.
pub open spec fn digit_char(d: nat) -> char {
    if d == 0 {
        '0'
    } else if d == 1 {
        '1'
    } else if d == 2 {
        '2'
    } else if d == 3 {
        '3'
    } else if d == 4 {
        '4'
    } else if d == 5 {
        '5'
    } else if d == 6 {
        '6'
    } else if d == 7 {
        '7'
    } else if d == 8 {
        '8'
    } else {
        '9'
    }
}

/// The decimal text of `n`: no sign, no leading zeros, `0` for zero.
pub open spec fn decimal(n: nat) -> Seq<char>
    decreases n,
{
    if n < 10 {
        seq![digit_char(n)]
    } else {
        decimal(n / 10).push(digit_char(n % 10))
    }
}

/// Whether every character of `s` is an ASCII digit.
pub open spec fn all_digits(s: Seq<char>) -> bool {
    forall|i: int| 0 <= i < s.len() ==> is_digit(#[trigger] s[i])
}

/// The number that a run of digits denotes, most significant first.
pub open spec fn digits_value(s: Seq<char>) -> nat
    decreases s.len(),
{
    if s.len() == 0 {
        0
    } else {
        digits_value(s.drop_last()) * 10 + digit_value(s.last())
    }
}

/// The port that the text `v` denotes: an optional sign, then one or more
/// digits, for a value in `0..=65535`. A minus sign is taken only before a
/// value of zero.
pub open spec fn port_of(v: Seq<char>) -> Option<u16> {
    let signed = v.len() > 0 && (v[0] == '+' || v[0] == '-');
    let negative = v.len() > 0 && v[0] == '-';
    let body = if signed {
        v.skip(1)
    } else {
        v
    };
    if body.len() > 0 && all_digits(body) && digits_value(body) <= 65535 && (!negative
        || digits_value(body) == 0) {
        Some(digits_value(body) as u16)
    } else {
        None
    }
}

/// Text of one character for each digit value.
fn digit_text(d: u32) -> (r: &'static str)
    requires
        d < 10,
    ensures
        r@ == seq![digit_char(d as nat)],
{
    if d == 0 {
        proof {
            reveal_strlit("0");
        }
        "0"
    } else if d == 1 {
        proof {
            reveal_strlit("1");
        }
        "1"
    } else if d == 2 {
        proof {
            reveal_strlit("2");
        }
        "2"
    } else if d == 3 {
        proof {
            reveal_strlit("3");
        }
        "3"
    } else if d == 4 {
        proof {
            reveal_strlit("4");
        }
        "4"
    } else if d == 5 {
        proof {
            reveal_strlit("5");
        }
        "5"
    } else if d == 6 {
        proof {
            reveal_strlit("6");
        }
        "6"
    } else if d == 7 {
        proof {
            reveal_strlit("7");
        }
        "7"
    } else if d == 8 {
        proof {
            reveal_strlit("8");
        }
        "8"
    } else {
        proof {
            reveal_strlit("9");
        }
        "9"
    }
}

/// Writes `n` in decimal.
pub fn format_decimal(n: u32) -> (r: String)
    ensures
        r@ == decimal(n as nat),
    decreases n,
{
    if n < 10 {
        String::from_str(digit_text(n))
    } else {
        let mut s = format_decimal(n / 10);
        s.append(digit_text(n % 10));
        s
    }
}

/// The characters of `s`, in order.
pub fn to_chars(s: &str) -> (r: Vec<char>)
    ensures
        r@ == s@,
{
    let n = s.unicode_len();
    let mut r: Vec<char> = Vec::new();
    let mut i: usize = 0;
    while i < n
        invariant
            n == s@.len(),
            i <= n,
            r@ == s@.subrange(0, i as int),
        decreases n - i,
    {
        r.push(s.get_char(i));
        i += 1;
    }
    assert(r@ =~= s@);
    r
}

/// Reads the port that `v[start..]` denotes, as `port_of` states.
pub fn port_from(v: &Vec<char>, start: usize) -> (r: Option<u16>)
    requires
        start <= v@.len(),
    ensures
        r == port_of(v@.skip(start as int)),
{
    let ghost text = v@.skip(start as int);
    let n = v.len();
    let mut b = start;
    let mut negative = false;
    if start < n && (v[start] == '+' || v[start] == '-') {
        negative = v[start] == '-';
        b = start + 1;
    }
    let ghost body = if text.len() > 0 && (text[0] == '+' || text[0] == '-') {
        text.skip(1)
    } else {
        text
    };
    assert(v@.subrange(b as int, n as int) =~= body);
    if b == n {
        return None;
    }
    let mut acc: u32 = 0;
    let mut i = b;
    while i < n
        invariant
            b <= i <= n,
            n == v@.len(),
            text == v@.skip(start as int),
            body == v@.subrange(b as int, n as int),
            body == if text.len() > 0 && (text[0] == '+' || text[0] == '-') {
                text.skip(1)
            } else {
                text
            },
            negative == (text.len() > 0 && text[0] == '-'),
            all_digits(v@.subrange(b as int, i as int)),
            acc as nat == if digits_value(v@.subrange(b as int, i as int)) > 65536 {
                65536
            } else {
                digits_value(v@.subrange(b as int, i as int))
            },
        decreases n - i,
    {
        let c = v[i];
        let code = c as u32;
        if code < 48 || code > 57 {
            assert(v@.subrange(b as int, n as int)[i - b] == c);
            assert(!is_digit(c));
            assert(!all_digits(v@.subrange(b as int, n as int)));
            return None;
        }
        let ghost before = v@.subrange(b as int, i as int);
        let ghost after = v@.subrange(b as int, i + 1);
        assert(after.drop_last() =~= before);
        assert(all_digits(after)) by {
            assert forall|k: int| 0 <= k < after.len() implies is_digit(#[trigger] after[k]) by {
                if k < before.len() {
                    assert(after[k] == before[k]);
                }
            }
        }
        let next = acc * 10 + (code - 48);
        acc = if next > 65536 {
            65536
        } else {
            next
        };
        i += 1;
    }
    if acc > 65535 || (negative && acc != 0) {
        None
    } else {
        Some(acc as u16)
    }
}

/// The decimal text of `n` is a nonempty run of digits that denotes `n`.
proof fn decimal_is_digits(n: nat)
    ensures
        decimal(n).len() > 0,
        all_digits(decimal(n)),
        digits_value(decimal(n)) == n,
    decreases n,
{
    let d = digit_char(n % 10);
    assert(is_digit(d) && digit_value(d) == n % 10);
    if n >= 10 {
        decimal_is_digits(n / 10);
        let s = decimal(n);
        assert(s.drop_last() =~= decimal(n / 10));
        assert(s.last() == d);
        assert(digits_value(s) == (n / 10) * 10 + n % 10);
        assert forall|i: int| 0 <= i < s.len() implies is_digit(#[trigger] s[i]) by {
            if i < s.len() - 1 {
                assert(s[i] == decimal(n / 10)[i]);
            }
        }
    } else {
        assert(decimal(n).drop_last() =~= Seq::<char>::empty());
        assert(digits_value(Seq::<char>::empty()) == 0);
        assert(decimal(n).last() == d);
    }
}

/// A port written in decimal reads back as the same port.
pub proof fn port_round_trip(p: u16)
    ensures
        port_of(decimal(p as nat)) == Some(p),
{
    decimal_is_digits(p as nat);
    let s = decimal(p as nat);
    assert(is_digit(s[0]));
}

} // verus!
