//! Verified decimal rendering and parsing: the decimal form of an
//! unsigned number, and the semantics of reading a signed 32-bit value
//! from text (an optional sign, then decimal digits, rejected when out
//! of range), as chart fields are read.

use vstd::prelude::*;
use vstd::string::*;

verus! {

pub open spec fn is_digit(c: char) -> bool {
    0x30 <= c as u32 && c as u32 <= 0x39
}

pub open spec fn digit_val(c: char) -> int {
    c as u32 - 0x30
}

pub open spec fn digit_char(d: int) -> char {
    if d == 0 {
        '0'
    } else if d == 1 {
        '1'
    } else if d == 2 {
        '2'
    } else if d == 3 {
        '3'
    } else if d == 4 {
        '4'
    } else if d == 5 {
        '5'
    } else if d == 6 {
        '6'
    } else if d == 7 {
        '7'
    } else if d == 8 {
        '8'
    } else {
        '9'
    }
}

/// The decimal form of `n`, most significant digit first.
pub open spec fn dec_nat(n: nat) -> Seq<char>
    decreases n,
{
    if n < 10 {
        seq![digit_char(n as int)]
    } else {
        dec_nat(n / 10) + seq![digit_char((n % 10) as int)]
    }
}

/// The decimal form of a number consists of digit characters alone.
pub proof fn lemma_dec_nat_digits(n: nat)
    ensures
        forall|i: int| 0 <= i < dec_nat(n).len() ==> is_digit(#[trigger] dec_nat(n)[i]),
    decreases n,
{
    if n < 10 {
    } else {
        lemma_dec_nat_digits(n / 10);
        assert forall|i: int| 0 <= i < dec_nat(n).len() implies is_digit(
            #[trigger] dec_nat(n)[i],
        ) by {
            if i < dec_nat(n / 10).len() {
                assert(dec_nat(n)[i] == dec_nat(n / 10)[i]);
            } else {
                assert(dec_nat(n)[i] == digit_char((n % 10) as int));
            }
        }
    }
}

pub fn is_digit_exec(c: char) -> (r: bool)
    ensures
        r == is_digit(c),
{
    0x30 <= c as u32 && c as u32 <= 0x39
}

fn digit_str(d: u32) -> (r: &'static str)
    requires
        d < 10,
    ensures
        r@ == seq![digit_char(d as int)],
{
    proof {
        reveal_strlit("0");
        reveal_strlit("1");
        reveal_strlit("2");
        reveal_strlit("3");
        reveal_strlit("4");
        reveal_strlit("5");
        reveal_strlit("6");
        reveal_strlit("7");
        reveal_strlit("8");
        reveal_strlit("9");
    }
    match d {
        0 => "0",
        1 => "1",
        2 => "2",
        3 => "3",
        4 => "4",
        5 => "5",
        6 => "6",
        7 => "7",
        8 => "8",
        _ => "9",
    }
}

pub fn u32_to_string(n: u32) -> (r: String)
    ensures
        r@ == dec_nat(n as nat),
    decreases n,
{
    if n < 10 {
        digit_str(n).to_owned()
    } else {
        let mut s = u32_to_string(n / 10);
        s.append(digit_str(n % 10));
        s
    }
}

pub open spec fn all_digits(s: Seq<char>) -> bool {
    forall|i: int| 0 <= i < s.len() ==> is_digit(s[i])
}

/// The value of a digit string, most significant digit first.
pub open spec fn digits_val(s: Seq<char>) -> int
    decreases s.len(),
{
    if s.len() == 0 {
        0
    } else {
        digits_val(s.drop_last()) * 10 + digit_val(s[s.len() - 1])
    }
}

/// `s` with a single leading `+` or `-` sign removed.
pub open spec fn sign_stripped(s: Seq<char>) -> Seq<char> {
    if s.len() > 0 && (s[0] == '+' || s[0] == '-') {
        s.subrange(1, s.len() as int)
    } else {
        s
    }
}

/// What `str::parse::<i32>` yields on `s`: an optional `+` or `-`
/// sign, then one or more decimal digits, rejected when the value does
/// not fit in 32 bits.
pub open spec fn parse_i32_opt(s: Seq<char>) -> Option<int> {
    let ds = sign_stripped(s);
    if ds.len() > 0 && all_digits(ds) {
        let v = if s.len() > 0 && s[0] == '-' {
            -digits_val(ds)
        } else {
            digits_val(ds)
        };
        if -0x8000_0000 <= v && v <= 0x7fff_ffff {
            Some(v)
        } else {
            None
        }
    } else {
        None
    }
}

/// The parsed value, with unparsable or out-of-range text read as 0.
pub open spec fn parse_i32_or_zero(s: Seq<char>) -> int {
    match parse_i32_opt(s) {
        Some(v) => v,
        None => 0,
    }
}

proof fn lemma_digits_val_nonneg(s: Seq<char>)
    requires
        all_digits(s),
    ensures
        digits_val(s) >= 0,
    decreases s.len(),
{
    if s.len() > 0 {
        lemma_digits_val_nonneg(s.drop_last());
    }
}

pub fn parse_i32_str(s: &str) -> (r: Option<i32>)
    ensures
        (match r {
            Some(v) => parse_i32_opt(s@) == Some(v as int),
            None => parse_i32_opt(s@) is None,
        }),
{
    let n = s.unicode_len();
    let mut i: usize = 0;
    let mut neg = false;
    if n > 0 {
        let c0 = s.get_char(0);
        if c0 == '+' || c0 == '-' {
            i = 1;
            neg = c0 == '-';
        }
    }
    let ghost ds = sign_stripped(s@);
    proof {
        assert(ds =~= s@.subrange(i as int, n as int));
    }
    if i >= n {
        return None;
    }
    let mut acc: i64 = 0;
    let mut j = i;
    while j < n
        invariant
            i <= j <= n,
            n == s@.len(),
            ds == sign_stripped(s@),
            ds =~= s@.subrange(i as int, n as int),
            forall|k: int| i <= k < j ==> is_digit(s@[k]),
            0 <= acc,
            (acc <= 0x8000_0000 && acc == digits_val(s@.subrange(i as int, j as int))) || (acc
                == 0x8000_0001 && digits_val(s@.subrange(i as int, j as int)) > 0x8000_0000),
        decreases n - j,
    {
        let c = s.get_char(j);
        if !is_digit_exec(c) {
            proof {
                assert(ds[j - i] == s@[j as int]);
                assert(!is_digit(ds[j - i]));
                assert(!all_digits(ds));
            }
            return None;
        }
        proof {
            let p1 = s@.subrange(i as int, j + 1);
            assert(p1.drop_last() =~= s@.subrange(i as int, j as int));
            assert(p1[p1.len() - 1] == s@[j as int]);
            assert(forall|k: int| 0 <= k < s@.subrange(i as int, j as int).len() ==> is_digit(
                #[trigger] s@.subrange(i as int, j as int)[k],
            ));
            lemma_digits_val_nonneg(s@.subrange(i as int, j as int));
        }
        let d = (c as u32 - 0x30) as i64;
        if acc <= 0x8000_0000 {
            let t = acc * 10 + d;
            if t > 0x8000_0000 {
                acc = 0x8000_0001;
            } else {
                acc = t;
            }
        }
        j += 1;
    }
    proof {
        assert(s@.subrange(i as int, n as int) =~= ds);
        assert(forall|k: int| 0 <= k < ds.len() ==> is_digit(#[trigger] ds[k]));
    }
    if acc > 0x7fff_ffff {
        if neg && acc == 0x8000_0000 {
            return Some(i32::MIN);
        }
        return None;
    }
    if neg {
        let v: i64 = -acc;
        return Some(v as i32);
    }
    Some(acc as i32)
}

/// Whether `v` is odd, as testing the low bit of a signed value does.
pub fn is_odd_i32(v: i32) -> (r: bool)
    ensures
        r == (v as int % 2 == 1),
{
    if v >= 0 {
        v % 2 == 1
    } else if v == i32::MIN {
        false
    } else {
        (-v) % 2 == 1
    }
}

/// The parsed value with unparsable text read as 0, as
/// `parse::<i32>().unwrap_or(0)` yields it.
pub fn parse_i32_or_zero_str(s: &str) -> (r: i32)
    ensures
        r as int == parse_i32_or_zero(s@),
{
    match parse_i32_str(s) {
        Some(v) => v,
        None => 0,
    }
}

} // verus!
