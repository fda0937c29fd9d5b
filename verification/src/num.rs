//! Decimal and hexadecimal rendering and parsing of integers.
use vstd::prelude::*;

verus! {

/// The decimal digit character for `d < 10`.
pub open spec fn digit_char(d: nat) -> char {
    (48 + d) as char
}

/// The decimal representation of `n`, as `u64::to_string` renders it.
pub open spec fn dec_seq(n: nat) -> Seq<char>
    decreases n,
{
    if n < 10 {
        seq![digit_char(n)]
    } else {
        dec_seq(n / 10).push(digit_char(n % 10))
    }
}

/// The decimal representation of a signed integer, as `i64::to_string`
/// renders it.
pub open spec fn signed_dec_seq(n: int) -> Seq<char> {
    if n < 0 {
        seq!['-'] + dec_seq((-n) as nat)
    } else {
        dec_seq(n as nat)
    }
}

fn digit_exec(d: u64) -> (res: char)
    requires
        d < 10,
    ensures
        res == digit_char(d as nat),
{
    let b: u8 = (48 + d) as u8;
    b as char
}

/// `u64::to_string`, as characters.
pub fn dec_chars(n: u64) -> (res: Vec<char>)
    ensures
        res@ == dec_seq(n as nat),
    decreases n,
{
    if n < 10 {
        let mut v: Vec<char> = Vec::new();
        v.push(digit_exec(n));
        assert(v@ =~= seq![digit_char(n as nat)]);
        v
    } else {
        let mut v = dec_chars(n / 10);
        v.push(digit_exec(n % 10));
        v
    }
}

/// `u64::to_string`.
pub fn u64_to_string(n: u64) -> (res: String)
    ensures
        res@ == dec_seq(n as nat),
{
    let v = dec_chars(n);
    crate::text::string_of(&v)
}

/// `i64::to_string`.
pub fn i64_to_string(n: i64) -> (res: String)
    ensures
        res@ == signed_dec_seq(n as int),
{
    if n < 0 {
        let m: i128 = 0i128 - (n as i128);
        let mag: u64 = m as u64;
        let v = dec_chars(mag);
        let mut out = String::new();
        out.push('-');
        crate::text::push_chars(&mut out, &v);
        assert(out@ =~= seq!['-'] + dec_seq((-n) as nat));
        out
    } else {
        u64_to_string(n as u64)
    }
}

/// Whether every character is an ASCII decimal digit.
pub open spec fn all_digits(s: Seq<char>) -> bool {
    forall|i: int| 0 <= i < s.len() ==> '0' <= #[trigger] s[i] && s[i] <= '9'
}

/// The value of a string of decimal digits.
pub open spec fn digits_value(s: Seq<char>) -> nat
    decreases s.len(),
{
    if s.len() == 0 {
        0
    } else {
        digits_value(s.drop_last()) * 10 + ((s.last() as u32) - 48) as nat
    }
}

/// `u64::from_str`: an optional `+`, then at least one decimal digit, with a
/// value that fits in 64 bits.
pub open spec fn parse_u64_seq(s: Seq<char>) -> Option<u64> {
    let d = if s.len() > 0 && s[0] == '+' {
        s.drop_first()
    } else {
        s
    };
    if d.len() > 0 && all_digits(d) && digits_value(d) <= u64::MAX {
        Some(digits_value(d) as u64)
    } else {
        None
    }
}

proof fn lemma_digits_value_take(s: Seq<char>, i: int)
    requires
        0 <= i < s.len(),
    ensures
        digits_value(s.take(i + 1)) == digits_value(s.take(i)) * 10 + ((s[i] as u32) - 48) as nat,
{
    assert(s.take(i + 1).drop_last() =~= s.take(i));
}

proof fn lemma_digits_value_monotone(s: Seq<char>, i: int)
    requires
        0 <= i <= s.len(),
        all_digits(s),
    ensures
        digits_value(s.take(i)) <= digits_value(s),
    decreases s.len() - i,
{
    if i < s.len() {
        lemma_digits_value_monotone(s, i + 1);
        lemma_digits_value_take(s, i);
    } else {
        assert(s.take(i) =~= s);
    }
}

/// `u64::from_str` on characters.
pub fn parse_u64_chars(s: &[char]) -> (res: Option<u64>)
    ensures
        res == parse_u64_seq(s@),
{
    let start: usize = if s.len() > 0 && s[0] == '+' {
        1
    } else {
        0
    };
    let ghost d = if s@.len() > 0 && s@[0] == '+' {
        s@.drop_first()
    } else {
        s@
    };
    assert(d =~= s@.skip(start as int));
    if start >= s.len() {
        return None;
    }
    let mut value: u64 = 0;
    let mut i: usize = start;
    while i < s.len()
        invariant
            start <= i <= s.len(),
            d == s@.skip(start as int),
            d == (if s@.len() > 0 && s@[0] == '+' {
                s@.drop_first()
            } else {
                s@
            }),
            d.len() > 0,
            all_digits(d.take(i - start)),
            value as nat == digits_value(d.take(i - start)),
        decreases s.len() - i,
    {
        let c = s[i];
        if c < '0' || c > '9' {
            assert(d[i - start] == c);
            assert(!all_digits(d));
            return None;
        }
        proof {
            lemma_digits_value_take(d, i - start);
            assert(all_digits(d.take(i - start + 1)));
        }
        let dv: u64 = ((c as u32) - 48) as u64;
        if value > (u64::MAX - dv) / 10 {
            proof {
                assert(digits_value(d.take(i - start + 1)) > u64::MAX) by (nonlinear_arith)
                    requires
                        value > (u64::MAX - dv) / 10,
                        digits_value(d.take(i - start + 1)) == value * 10 + dv,
                        dv <= 9,
                ;
                if all_digits(d) {
                    lemma_digits_value_monotone(d, i - start + 1);
                }
            }
            return None;
        }
        assert(value * 10 + dv <= u64::MAX) by (nonlinear_arith)
            requires
                value <= (u64::MAX - dv) / 10,
                dv <= 9,
        ;
        value = value * 10 + dv;
        i = i + 1;
    }
    assert(d.take(s.len() - start) =~= d);
    Some(value)
}

/// `u64::from_str`.
pub fn parse_u64(s: &str) -> (res: Option<u64>)
    ensures
        res == parse_u64_seq(s@),
{
    let v = crate::text::chars_of(s);
    parse_u64_chars(&v)
}

/// The lowercase hexadecimal digit for `d < 16`.
pub open spec fn hex_lower(d: nat) -> char {
    if d < 10 {
        (48 + d) as char
    } else {
        (87 + d) as char
    }
}

/// The uppercase hexadecimal digit for `d < 16`.
pub open spec fn hex_upper(d: nat) -> char {
    if d < 10 {
        (48 + d) as char
    } else {
        (55 + d) as char
    }
}

/// The last `k` hexadecimal digits of `n`, most significant first, in
/// lowercase (`format!("{n:0k$x}")` when `n < 16^k`).
pub open spec fn hex_lower_seq(n: nat, k: nat) -> Seq<char>
    decreases k,
{
    if k == 0 {
        Seq::empty()
    } else {
        hex_lower_seq(n / 16, (k - 1) as nat).push(hex_lower(n % 16))
    }
}

fn hex_lower_exec(d: u64) -> (res: char)
    requires
        d < 16,
    ensures
        res == hex_lower(d as nat),
{
    let b: u8 = if d < 10 {
        (48 + d) as u8
    } else {
        (87 + d) as u8
    };
    b as char
}

/// The last `k` lowercase hexadecimal digits of `n`.
pub fn hex_lower_chars(n: u64, k: u64) -> (res: Vec<char>)
    ensures
        res@ == hex_lower_seq(n as nat, k as nat),
    decreases k,
{
    if k == 0 {
        Vec::new()
    } else {
        let mut v = hex_lower_chars(n / 16, k - 1);
        v.push(hex_lower_exec(n % 16));
        v
    }
}

/// A byte as two uppercase hexadecimal digits (`format!("{b:02X}")`).
pub open spec fn hex_byte_upper(b: u8) -> Seq<char> {
    seq![hex_upper((b / 16) as nat), hex_upper((b % 16) as nat)]
}

fn hex_upper_exec(d: u8) -> (res: char)
    requires
        d < 16,
    ensures
        res == hex_upper(d as nat),
{
    let b: u8 = if d < 10 {
        48 + d
    } else {
        55 + d
    };
    b as char
}

/// A byte as two uppercase hexadecimal digits.
pub fn hex_byte_upper_chars(b: u8) -> (res: Vec<char>)
    ensures
        res@ == hex_byte_upper(b),
{
    let mut v: Vec<char> = Vec::new();
    v.push(hex_upper_exec(b / 16));
    v.push(hex_upper_exec(b % 16));
    assert(v@ =~= hex_byte_upper(b));
    v
}

/// The length of a decimal representation: one digit below 10, more from 10.
pub proof fn lemma_dec_len(n: nat)
    ensures
        n < 10 ==> dec_seq(n).len() == 1,
        n >= 10 ==> dec_seq(n).len() >= 2,
    decreases n,
{
    if n >= 10 {
        lemma_dec_len(n / 10);
    }
}

/// Different numbers have different decimal representations.
pub proof fn lemma_dec_injective(a: nat, b: nat)
    requires
        dec_seq(a) == dec_seq(b),
    ensures
        a == b,
    decreases a,
{
    lemma_dec_len(a);
    lemma_dec_len(b);
    if a < 10 && b < 10 {
        assert(dec_seq(a)[0] == digit_char(a));
        assert(dec_seq(b)[0] == digit_char(b));
        assert(digit_char(a) as int == 48 + a);
        assert(digit_char(b) as int == 48 + b);
    } else if a >= 10 && b >= 10 {
        assert(dec_seq(a).last() == digit_char(a % 10));
        assert(dec_seq(b).last() == digit_char(b % 10));
        assert(digit_char(a % 10) as int == 48 + a % 10);
        assert(digit_char(b % 10) as int == 48 + b % 10);
        assert(dec_seq(a).drop_last() == dec_seq(a / 10));
        assert(dec_seq(b).drop_last() == dec_seq(b / 10));
        lemma_dec_injective(a / 10, b / 10);
    }
}


/// A decimal representation is a string of digits whose value is the number.
pub proof fn lemma_dec_digits(n: nat)
    ensures
        dec_seq(n).len() > 0,
        all_digits(dec_seq(n)),
        digits_value(dec_seq(n)) == n,
        '0' <= dec_seq(n).last() && dec_seq(n).last() <= '9',
    decreases n,
{
    if n < 10 {
        assert(digit_char(n) as u32 == 48 + n);
        assert(dec_seq(n).drop_last() =~= Seq::<char>::empty());
        assert(digits_value(dec_seq(n)) == digits_value(Seq::<char>::empty()) * 10 + ((
        digit_char(n) as u32) - 48) as nat);
    } else {
        lemma_dec_digits(n / 10);
        let d = n % 10;
        assert(digit_char(d) as u32 == 48 + d);
        assert(dec_seq(n).drop_last() =~= dec_seq(n / 10));
        assert(dec_seq(n).last() == digit_char(d));
        assert(digits_value(dec_seq(n)) == digits_value(dec_seq(n / 10)) * 10 + d);
        assert(n == (n / 10) * 10 + d);
    }
}

/// `u64::from_str` reads back what `u64::to_string` wrote.
pub proof fn lemma_parse_dec(n: u64)
    ensures
        parse_u64_seq(dec_seq(n as nat)) == Some(n),
{
    lemma_dec_digits(n as nat);
}

} // verus!
