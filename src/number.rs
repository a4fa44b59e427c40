//! Integer literals: reading them (through `parse_int`) and writing them.
use vstd::prelude::*;

use crate::text::{chars_of, is_space, string_of, trim, trim_bounds};

verus! {

/// The value of `c` as a digit in bases up to 36 (`0-9`, then `a-z` or `A-Z`);
/// 36 for a character that is no digit.
pub open spec fn digit_value(c: char) -> nat {
    let u = c as u32;
    if 48 <= u <= 57 {
        (u - 48) as nat
    } else if 97 <= u <= 122 {
        (u - 97 + 10) as nat
    } else if 65 <= u <= 90 {
        (u - 65 + 10) as nat
    } else {
        36
    }
}

/// Every character of `s` is a digit of base `radix`.
pub open spec fn all_digits(s: Seq<char>, radix: nat) -> bool {
    forall|i: int| 0 <= i < s.len() ==> #[trigger] digit_value(s[i]) < radix
}

/// The number that the digits `s` write in base `radix`.
pub open spec fn digits_value(s: Seq<char>, radix: nat) -> nat
    decreases s.len(),
{
    if s.len() == 0 {
        0
    } else {
        digits_value(s.drop_last(), radix) * radix + digit_value(s.last())
    }
}

/// What `u64::from_str_radix(s, radix)` accepts: an optional `+`, then one or more digits
/// of the base, whose value fits in 64 bits.
pub open spec fn u64_from_radix(s: Seq<char>, radix: nat) -> Option<nat> {
    let digits = if s.len() > 0 && s[0] == '+' {
        s.drop_first()
    } else {
        s
    };
    if digits.len() > 0 && all_digits(digits, radix) && digits_value(digits, radix)
        <= u64::MAX {
        Some(digits_value(digits, radix))
    } else {
        None
    }
}

/// The base that a literal's prefix selects (`0x`, `0b`, `0o`, in either case; else ten)
/// and the text after the prefix.
pub open spec fn radix_and_digits(s: Seq<char>) -> (nat, Seq<char>) {
    if s.len() >= 2 && s[0] == '0' && (s[1] == 'x' || s[1] == 'X') {
        (16, s.skip(2))
    } else if s.len() >= 2 && s[0] == '0' && (s[1] == 'b' || s[1] == 'B') {
        (2, s.skip(2))
    } else if s.len() >= 2 && s[0] == '0' && (s[1] == 'o' || s[1] == 'O') {
        (8, s.skip(2))
    } else {
        (10, s)
    }
}

/// Whether `s`, once trimmed, begins with a minus sign.
pub open spec fn begins_negative(s: Seq<char>) -> bool {
    trim(s).len() > 0 && trim(s)[0] == '-'
}

/// The value of an unsigned literal as `parse_int` reads it: surrounding whitespace is
/// ignored, an optional base prefix is followed by digits among which underscores may
/// stand (but not first), and the value must fit in 64 bits.
pub open spec fn unsigned_literal(s: Seq<char>) -> Option<nat> {
    let t = trim(s);
    if t.len() > 0 && t[0] == '_' {
        None
    } else {
        let (radix, digits) = radix_and_digits(t);
        u64_from_radix(digits.filter(|c: char| c != '_'), radix)
    }
}

/// The value of a signed literal: a leading `-` negates the unsigned literal after it,
/// which must not begin with a second `-`.
pub open spec fn signed_literal(s: Seq<char>) -> Option<int> {
    if s.len() > 0 && s[0] == '-' {
        let magnitude = s.drop_first();
        if begins_negative(magnitude) {
            None
        } else {
            match unsigned_literal(magnitude) {
                Some(m) => Some(-m),
                None => None,
            }
        }
    } else {
        match unsigned_literal(s) {
            Some(m) => Some(m as int),
            None => None,
        }
    }
}

/// The value of a literal that must fit in 32 signed bits.
pub open spec fn i32_literal(s: Seq<char>) -> Option<i32> {
    match signed_literal(s) {
        Some(v) => if i32::MIN <= v <= i32::MAX {
            Some(v as i32)
        } else {
            None
        },
        None => None,
    }
}

/// Text that begins with a minus sign once trimmed is no unsigned literal.
pub proof fn lemma_negative_not_unsigned(s: Seq<char>)
    requires
        begins_negative(s),
    ensures
        unsigned_literal(s) is None,
{
    let t = trim(s);
    let pred = |c: char| c != '_';
    let (radix, digits) = radix_and_digits(t);
    assert(digits == t);
    t.lemma_filter_contains(pred, 0);
    let f = t.filter(pred);
    let k = choose|k: int| 0 <= k < f.len() && f[k] == '-';
    let d = if f.len() > 0 && f[0] == '+' {
        f.drop_first()
    } else {
        f
    };
    if f.len() > 0 && f[0] == '+' {
        assert(d[k - 1] == '-');
        assert(digit_value(d[k - 1]) >= radix);
    } else {
        assert(d[k] == '-');
        assert(digit_value(d[k]) >= radix);
    }
}

/// Relies on `parse_int::parse::<u64>`: it trims `s`, refuses a leading underscore, takes a
/// `0x`, `0b` or `0o` prefix (in either case) as the base, drops the other underscores and
/// hands the digits to `u64::from_str_radix`. Text that begins with `-` is left out: there
/// it negates an unsigned value, which panics.
#[verifier::external_body]
fn parse_u64(s: &str) -> (r: Option<u64>)
    requires
        !begins_negative(s@),
    ensures
        match r {
            Some(v) => unsigned_literal(s@) == Some(v as nat),
            None => unsigned_literal(s@) is None,
        },
{
    parse_int::parse::<u64>(s).ok()
}

/// Whether `s`, once trimmed, begins with a minus sign.
pub fn starts_negative(s: &str) -> (r: bool)
    ensures
        r == begins_negative(s@),
{
    let cs = chars_of(s);
    let (a, b) = trim_bounds(&cs, 0, cs.len());
    proof {
        assert(cs@.subrange(0, cs@.len() as int) =~= cs@);
    }
    a < b && cs[a] == '-'
}

/// Reads an unsigned literal (decimal, or with a `0x`, `0b` or `0o` prefix).
pub fn parse_unsigned(s: &str) -> (r: Option<u64>)
    ensures
        match r {
            Some(v) => unsigned_literal(s@) == Some(v as nat),
            None => begins_negative(s@) || unsigned_literal(s@) is None,
        },
{
    if starts_negative(s) {
        None
    } else {
        parse_u64(s)
    }
}

/// Reads a literal that must fit in 32 signed bits; a leading `-` negates the magnitude
/// that follows it.
pub fn parse_i32(s: &str) -> (r: Option<i32>)
    ensures
        r == i32_literal(s@),
{
    let cs = chars_of(s);
    if cs.len() > 0 && cs[0] == '-' {
        let magnitude = string_of(&cs, 1, cs.len());
        proof {
            assert(cs@.subrange(1, cs@.len() as int) =~= s@.drop_first());
        }
        if starts_negative(magnitude.as_str()) {
            return None;
        }
        match parse_u64(magnitude.as_str()) {
            Some(m) => {
                if m <= 0x8000_0000 {
                    Some((0 - (m as i64)) as i32)
                } else {
                    None
                }
            },
            None => None,
        }
    } else {
        if starts_negative(s) {
            proof {
                lemma_negative_not_unsigned(s@);
            }
            return None;
        }
        match parse_u64(s) {
            Some(m) => {
                if m <= 0x7fff_ffff {
                    Some(m as i32)
                } else {
                    None
                }
            },
            None => None,
        }
    }
}

/// The character for digit `d` (below 16): `0-9`, then `a-f`.
pub open spec fn digit_char(d: nat) -> char {
    if d < 10 {
        (48 + d) as char
    } else {
        (97 + d - 10) as char
    }
}

/// `n` written in base `radix` without leading zeros (`0` for zero).
pub open spec fn digits_text(n: nat, radix: nat) -> Seq<char>
    decreases n,
    via digits_text_decreases
{
    if radix < 2 || n < radix {
        seq![digit_char(n)]
    } else {
        digits_text(n / radix, radix).push(digit_char(n % radix))
    }
}

#[via_fn]
proof fn digits_text_decreases(n: nat, radix: nat) {
    if !(radix < 2 || n < radix) {
        assert(n / radix < n) by (nonlinear_arith)
            requires
                radix >= 2,
                n >= radix,
        ;
    }
}

/// `n` written in hexadecimal after a `0x` prefix.
pub open spec fn hex_literal(n: u32) -> Seq<char> {
    seq!['0', 'x'] + digits_text(n as nat, 16)
}

/// `n` written in decimal.
pub open spec fn decimal_literal(n: u32) -> Seq<char> {
    digits_text(n as nat, 10)
}

fn digit_of(d: u32) -> (c: char)
    requires
        d < 16,
    ensures
        c == digit_char(d as nat),
{
    let code: u8 = if d < 10 {
        (48 + d) as u8
    } else {
        (97 + d - 10) as u8
    };
    code as char
}

/// `n` written in base `radix` without leading zeros.
pub fn write_digits(n: u32, radix: u32) -> (r: String)
    requires
        2 <= radix <= 16,
    ensures
        r@ == digits_text(n as nat, radix as nat),
{
    let mut acc: Vec<char> = Vec::new();
    let mut cur: u32 = n;
    while cur >= radix
        invariant
            2 <= radix <= 16,
            digits_text(n as nat, radix as nat) == digits_text(cur as nat, radix as nat) + acc@,
        decreases cur,
    {
        let c = digit_of(cur % radix);
        proof {
            let head = digits_text((cur / radix) as nat, radix as nat);
            assert(head.push(c) + acc@ =~= head + seq![c].add(acc@));
        }
        acc.insert(0, c);
        proof {
            assert(acc@ =~= seq![c].add(acc@.drop_first()));
        }
        cur = cur / radix;
    }
    let c = digit_of(cur);
    acc.insert(0, c);
    proof {
        assert(acc@ =~= seq![c] + acc@.drop_first());
    }
    string_of(&acc, 0, acc.len())
}

/// Digits written by `digits_text` are digits of their base, neither sign, underscore
/// nor whitespace, and read back as the number they write.
pub proof fn lemma_digits_round_trip(n: nat, radix: nat)
    requires
        2 <= radix <= 16,
    ensures
        digits_text(n, radix).len() >= 1,
        all_digits(digits_text(n, radix), radix),
        digits_value(digits_text(n, radix), radix) == n,
        forall|i: int|
            0 <= i < digits_text(n, radix).len() ==> {
                let c = #[trigger] digits_text(n, radix)[i];
                48 <= c as u32 <= 57 || 97 <= c as u32 <= 102
            },
    decreases n,
{
    let s = digits_text(n, radix);
    if n < radix {
        lemma_digit_char(n);
        assert(digits_value(s, radix) == digits_value(s.drop_last(), radix) * radix + digit_value(
            s.last(),
        ));
        assert(s.drop_last() =~= Seq::<char>::empty());
        assert(digits_value(s.drop_last(), radix) == 0);
        assert(0 * radix == 0);
    } else {
        let q = n / radix;
        let m = n % radix;
        assert(q < n && m < radix && n == q * radix + m) by (nonlinear_arith)
            requires
                radix >= 2,
                n >= radix,
                q == n / radix,
                m == n % radix,
        ;
        lemma_digits_round_trip(q, radix);
        lemma_digit_char(m);
        let p = digits_text(q, radix);
        assert(s == p.push(digit_char(m)));
        assert(s.drop_last() =~= p);
        assert(digits_value(s, radix) == digits_value(p, radix) * radix + digit_value(s.last()));
        assert(digits_value(s, radix) == n);
        assert forall|i: int| 0 <= i < s.len() implies #[trigger] digit_value(s[i]) < radix by {
            if i < p.len() {
                assert(s[i] == p[i]);
            }
        }
        assert forall|i: int| 0 <= i < s.len() implies {
            let c = #[trigger] s[i];
            48 <= c as u32 <= 57 || 97 <= c as u32 <= 102
        } by {
            if i < p.len() {
                assert(s[i] == p[i]);
            }
        }
    }
}

proof fn lemma_digit_char(d: nat)
    requires
        d < 16,
    ensures
        digit_value(digit_char(d)) == d,
        48 <= digit_char(d) as u32 <= 57 || 97 <= digit_char(d) as u32 <= 102,
        d < 10 ==> 48 <= digit_char(d) as u32 <= 57,
{
}

/// Text without underscores is left as it is by dropping underscores.
proof fn lemma_no_underscores(s: Seq<char>)
    requires
        forall|i: int| 0 <= i < s.len() ==> #[trigger] s[i] != '_',
    ensures
        s.filter(|c: char| c != '_') == s,
    decreases s.len(),
{
    if s.len() > 0 {
        let p = s.drop_last();
        assert forall|i: int| 0 <= i < p.len() implies #[trigger] p[i] != '_' by {
            assert(p[i] == s[i]);
        }
        lemma_no_underscores(p);
        p.lemma_filter_push(s.last(), |c: char| c != '_');
        assert(p.push(s.last()) =~= s);
    }
}

/// Text that begins and ends with no whitespace is its own trimmed form.
proof fn lemma_trim_plain(s: Seq<char>)
    requires
        s.len() > 0,
        !is_space(s[0]),
        !is_space(s.last()),
    ensures
        trim(s) == s,
{
}

/// `parse_int` reads the hexadecimal literal of `n` back as `n`.
pub proof fn lemma_hex_literal(n: u32)
    ensures
        unsigned_literal(hex_literal(n)) == Some(n as nat),
{
    let d = digits_text(n as nat, 16);
    let t = hex_literal(n);
    lemma_digits_round_trip(n as nat, 16);
    assert(t.last() == d.last());
    assert(!is_space(d.last()));
    lemma_trim_plain(t);
    assert(t.skip(2) =~= d);
    assert forall|i: int| 0 <= i < d.len() implies #[trigger] d[i] != '_' by {}
    lemma_no_underscores(d);
    assert(!is_space(d[0]));
}

/// `parse_int` reads the decimal literal of `n` back as `n`.
pub proof fn lemma_decimal_literal(n: u32)
    ensures
        unsigned_literal(decimal_literal(n)) == Some(n as nat),
{
    let d = digits_text(n as nat, 10);
    lemma_digits_round_trip(n as nat, 10);
    assert(48 <= d[0] as u32 <= 57 || 97 <= d[0] as u32 <= 102);
    assert(digit_value(d[0]) < 10);
    lemma_trim_plain(d);
    assert forall|i: int| 0 <= i < d.len() implies #[trigger] d[i] != '_' by {}
    lemma_no_underscores(d);
    if d.len() >= 2 {
        assert(digit_value(d[1]) < 10);
    }
}

} // verus!
