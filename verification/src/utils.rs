//! Integer literals as they appear in specification files: `0x` hexadecimal, `0b` binary,
//! or decimal, with an optional `+` sign, as `u64::from_str_radix` reads them.
use vstd::prelude::*;
use crate::text::{chars_of, spec_digits, digit_char};

verus! {

/// The value of one digit in `radix`, if `c` is a digit of that radix
/// (`0`-`9`, then letters of either case).
pub open spec fn digit_value(c: char, radix: nat) -> Option<nat> {
    let d: int = if '0' <= c && c <= '9' {
        c as int - 48
    } else if 'a' <= c && c <= 'z' {
        c as int - 87
    } else if 'A' <= c && c <= 'Z' {
        c as int - 55
    } else {
        36
    };
    if d < radix {
        Some(d as nat)
    } else {
        None
    }
}

/// The value of a digit string read most significant first; `None` if any character is not
/// a digit of `radix`. The empty string has value zero.
pub open spec fn spec_radix_value(ds: Seq<char>, radix: nat) -> Option<nat>
    decreases ds.len(),
{
    if ds.len() == 0 {
        Some(0)
    } else {
        match (spec_radix_value(ds.drop_last(), radix), digit_value(ds.last(), radix)) {
            (Some(v), Some(d)) => Some(v * radix + d),
            _ => None,
        }
    }
}

/// What `u64::from_str_radix(s, radix)` yields: an optional `+`, then at least one digit,
/// and a value that fits in 64 bits.
pub open spec fn spec_from_str_radix(s: Seq<char>, radix: nat) -> Option<u64> {
    let ds = if s.len() > 0 && s[0] == '+' {
        s.drop_first()
    } else {
        s
    };
    if ds.len() == 0 {
        None
    } else {
        match spec_radix_value(ds, radix) {
            Some(v) => if v <= u64::MAX {
                Some(v as u64)
            } else {
                None
            },
            None => None,
        }
    }
}

/// The value of an integer literal: `0x` and `0b` prefixes select hexadecimal and binary,
/// anything else is decimal.
pub open spec fn spec_parse_int(s: Seq<char>) -> Option<u64> {
    if s.len() >= 2 && s[0] == '0' && s[1] == 'x' {
        spec_from_str_radix(s.skip(2), 16)
    } else if s.len() >= 2 && s[0] == '0' && s[1] == 'b' {
        spec_from_str_radix(s.skip(2), 2)
    } else {
        spec_from_str_radix(s, 10)
    }
}

/// A valid digit string never has a prefix of larger value.
pub proof fn lemma_radix_value_prefix(ds: Seq<char>, radix: nat, k: int)
    requires
        radix >= 1,
        0 <= k <= ds.len(),
        spec_radix_value(ds, radix) is Some,
    ensures
        spec_radix_value(ds.take(k), radix) is Some,
        spec_radix_value(ds.take(k), radix)->0 <= spec_radix_value(ds, radix)->0,
    decreases ds.len(),
{
    if k == ds.len() {
        assert(ds.take(k) =~= ds);
    } else {
        let p = ds.drop_last();
        lemma_radix_value_prefix(p, radix, k);
        assert(p.take(k) =~= ds.take(k));
        let v = spec_radix_value(p, radix)->0;
        let d = digit_value(ds.last(), radix)->0;
        assert(v <= v * radix + d) by (nonlinear_arith)
            requires
                radix >= 1,
        ;
    }
}

/// Digits written by `spec_digits` read back as the number they were written from.
pub proof fn lemma_digits_value(n: nat, radix: nat)
    requires
        2 <= radix <= 16,
    ensures
        spec_radix_value(spec_digits(n, radix), radix) == Some(n),
        spec_digits(n, radix).len() > 0,
        spec_digits(n, radix)[0] != '+',
    decreases n,
{
    let ds = spec_digits(n, radix);
    if n < radix {
        let c = digit_char(n as int);
        assert(ds.drop_last() =~= Seq::<char>::empty());
        assert(digit_value(c, radix) == Some(n));
        assert(ds.last() == c);
        assert(spec_radix_value(ds.drop_last(), radix) == Some(0nat));
        assert(0 * radix + n == n);
    } else {
        let q = n / radix;
        let r = n % radix;
        assert(q < n && 0 <= r < radix && q * radix + r == n) by (nonlinear_arith)
            requires
                radix >= 2,
                n >= radix,
                q == n / radix,
                r == n % radix,
        ;
        lemma_digits_value(q, radix);
        assert(ds.drop_last() =~= spec_digits(q, radix));
        let c = digit_char(r as int);
        assert(digit_value(c, radix) == Some(r));
        assert(ds.last() == c);
    }
}

/// Every character of a digit string that has a value is a digit.
pub proof fn lemma_value_all_digits(ds: Seq<char>, radix: nat)
    requires
        spec_radix_value(ds, radix) is Some,
    ensures
        forall|k: int| 0 <= k < ds.len() ==> #[trigger] digit_value(ds[k], radix) is Some,
    decreases ds.len(),
{
    if ds.len() > 0 {
        lemma_value_all_digits(ds.drop_last(), radix);
        assert forall|k: int| 0 <= k < ds.len() implies #[trigger] digit_value(ds[k], radix) is Some by {
            if k < ds.len() - 1 {
                assert(ds.drop_last()[k] == ds[k]);
            }
        }
    }
}

fn digit_of_char(c: char, radix: u64) -> (r: Option<u64>)
    requires
        2 <= radix <= 36,
    ensures
        match digit_value(c, radix as nat) {
            Some(d) => r == Some(d as u64),
            None => r is None,
        },
{
    let d: u64 = if '0' <= c && c <= '9' {
        (c as u64) - 48
    } else if 'a' <= c && c <= 'z' {
        (c as u64) - 87
    } else if 'A' <= c && c <= 'Z' {
        (c as u64) - 55
    } else {
        36
    };
    if d < radix {
        Some(d)
    } else {
        None
    }
}

/// `u64::from_str_radix` on the characters `s[start..]`.
pub fn from_str_radix_chars(s: &[char], start: usize, radix: u64) -> (r: Option<u64>)
    requires
        start <= s@.len(),
        2 <= radix <= 36,
    ensures
        r == spec_from_str_radix(s@.skip(start as int), radix as nat),
{
    let ghost t = s@.skip(start as int);
    let mut i = start;
    if i < s.len() && s[i] == '+' {
        i = i + 1;
    }
    let ghost ds = if t.len() > 0 && t[0] == '+' {
        t.drop_first()
    } else {
        t
    };
    assert(ds =~= s@.skip(i as int));
    if i == s.len() {
        return None;
    }
    let first = i;
    let mut acc: u64 = 0;
    while i < s.len()
        invariant
            first <= i <= s@.len(),
            ds =~= s@.skip(first as int),
            t == s@.skip(start as int),
            ds == (if t.len() > 0 && t[0] == '+' { t.drop_first() } else { t }),
            2 <= radix <= 36,
            spec_radix_value(ds.take(i - first), radix as nat) == Some(acc as nat),
        decreases s@.len() - i,
    {
        let ghost pre = ds.take(i - first);
        let ghost pre1 = ds.take(i - first + 1);
        assert(pre1.drop_last() =~= pre);
        assert(pre1.last() == s@[i as int]);
        match digit_of_char(s[i], radix) {
            None => {
                proof {
                    assert(spec_radix_value(pre1, radix as nat) is None);
                    assert(ds.len() > 0);
                    if spec_radix_value(ds, radix as nat) is Some {
                        lemma_radix_value_prefix(ds, radix as nat, i - first + 1);
                    }
                }
                return None;
            },
            Some(d) => {
                let lim = (u64::MAX - d) / radix;
                if acc > lim {
                    proof {
                        assert(acc * radix + d > u64::MAX) by (nonlinear_arith)
                            requires
                                acc > lim,
                                lim as int == (u64::MAX - d) as int / radix as int,
                                radix >= 2,
                                d < radix,
                        ;
                        assert(spec_radix_value(pre1, radix as nat) == Some((acc * radix + d) as nat));
                        assert(ds.len() > 0);
                        if spec_radix_value(ds, radix as nat) is Some {
                            lemma_radix_value_prefix(ds, radix as nat, i - first + 1);
                        }
                    }
                    return None;
                }
                assert(acc * radix + d <= u64::MAX) by (nonlinear_arith)
                    requires
                        acc <= lim,
                        lim as int == (u64::MAX - d) as int / radix as int,
                        radix >= 2,
                        d < radix,
                ;
                acc = acc * radix + d;
            },
        }
        i = i + 1;
    }
    assert(ds.take(ds.len() as int) =~= ds);
    Some(acc)
}

/// The value of an integer literal, or `None` where the literal is malformed or does not
/// fit in 64 bits.
pub fn try_parse_int(input: &str) -> (r: Option<u64>)
    ensures
        r == spec_parse_int(input@),
{
    let s = chars_of(input);
    if s.len() >= 2 && s[0] == '0' && s[1] == 'x' {
        from_str_radix_chars(s.as_slice(), 2, 16)
    } else if s.len() >= 2 && s[0] == '0' && s[1] == 'b' {
        from_str_radix_chars(s.as_slice(), 2, 2)
    } else {
        assert(s@.skip(0) =~= s@);
        from_str_radix_chars(s.as_slice(), 0, 10)
    }
}

/// The value of an integer literal (`0x` hexadecimal, `0b` binary, else decimal).
pub fn parse_int(input: &str) -> (r: u64)
    requires
        spec_parse_int(input@) is Some,
    ensures
        r == spec_parse_int(input@)->0,
{
    match try_parse_int(input) {
        Some(v) => v,
        None => 0,
    }
}

/// What `u64::from_str_radix(&s[2..], 16)` yields for a text whose first two characters are
/// one byte each (the prefix, usually `0x`, is skipped unread).
pub open spec fn spec_hex_text(s: Seq<char>) -> Option<u64> {
    if s.len() >= 2 && (s[0] as u32) < 128 && (s[1] as u32) < 128 {
        spec_from_str_radix(s.skip(2), 16)
    } else {
        None
    }
}

/// A hexadecimal number after a two-character prefix, if the text is one.
pub fn try_u64hex(s: &str) -> (r: Option<u64>)
    ensures
        r == spec_hex_text(s@),
{
    let v = chars_of(s);
    if v.len() >= 2 && (v[0] as u32) < 128 && (v[1] as u32) < 128 {
        from_str_radix_chars(v.as_slice(), 2, 16)
    } else {
        None
    }
}

/// A decimal number, if the text is one.
pub fn try_u64dec(s: &str) -> (r: Option<u64>)
    ensures
        r == spec_from_str_radix(s@, 10),
{
    let v = chars_of(s);
    assert(v@.skip(0) =~= v@);
    from_str_radix_chars(v.as_slice(), 0, 10)
}

/// The hexadecimal number after a two-character prefix (`0x1f` is 31).
pub fn u64hex(s: &str) -> (r: u64)
    requires
        spec_hex_text(s@) is Some,
    ensures
        r == spec_hex_text(s@)->0,
{
    match try_u64hex(s) {
        Some(v) => v,
        None => 0,
    }
}

/// The hexadecimal number after a two-character prefix, which must fit 32 bits.
pub fn u32hex(s: &str) -> (r: u32)
    requires
        spec_hex_text(s@) is Some,
        spec_hex_text(s@)->0 <= u32::MAX,
    ensures
        r == spec_hex_text(s@)->0,
{
    u64hex(s) as u32
}

/// The decimal number a text spells.
pub fn u64dec(s: &str) -> (r: u64)
    requires
        spec_from_str_radix(s@, 10) is Some,
    ensures
        r == spec_from_str_radix(s@, 10)->0,
{
    match try_u64dec(s) {
        Some(v) => v,
        None => 0,
    }
}

/// The decimal number a text spells, which must fit 32 bits.
pub fn u32dec(s: &str) -> (r: u32)
    requires
        spec_from_str_radix(s@, 10) is Some,
        spec_from_str_radix(s@, 10)->0 <= u32::MAX,
    ensures
        r == spec_from_str_radix(s@, 10)->0,
{
    u64dec(s) as u32
}

/// Reads a command-line address: a hexadecimal number after a two-character prefix.
pub fn parse_hex(s: &str) -> (r: Result<u64, String>)
    requires
        spec_hex_text(s@) is Some,
    ensures
        r == Ok::<u64, String>(spec_hex_text(s@)->0),
{
    Ok(u64hex(s))
}

/// What `i64::from_str_radix(s, 10)` yields, with `half` = 2^63 (and what the `i32` one
/// yields, with `half` = 2^31): an optional sign, then at least one digit, and a value in
/// `-half..half`.
pub open spec fn spec_signed_dec(s: Seq<char>, half: nat) -> Option<int> {
    if s.len() > 0 && s[0] == '-' {
        let ds = s.drop_first();
        if ds.len() == 0 {
            None
        } else {
            match spec_radix_value(ds, 10) {
                Some(v) => if v <= half {
                    Some(-v)
                } else {
                    None
                },
                None => None,
            }
        }
    } else {
        match spec_from_str_radix(s, 10) {
            Some(v) => if v < half {
                Some(v as int)
            } else {
                None
            },
            None => None,
        }
    }
}

proof fn lemma_radix_value_first(ds: Seq<char>, radix: nat)
    requires
        ds.len() > 0,
        digit_value(ds[0], radix) is None,
    ensures
        spec_radix_value(ds, radix) is None,
    decreases ds.len(),
{
    if ds.len() > 1 {
        assert(ds.drop_last()[0] == ds[0]);
        lemma_radix_value_first(ds.drop_last(), radix);
    }
}

/// The signed decimal number a text spells, in `-half..half` (see `spec_signed_dec`).
pub fn try_signed_dec(s: &str, half: u64) -> (r: Option<i64>)
    requires
        1 <= half <= 0x8000000000000000u64,
    ensures
        match spec_signed_dec(s@, half as nat) {
            Some(v) => r == Some(v as i64) && -(half as int) <= v < half,
            None => r is None,
        },
{
    let v = chars_of(s);
    if v.len() > 0 && v[0] == '-' {
        let ghost ds = v@.drop_first();
        if v.len() == 1 {
            return None;
        }
        if v[1] == '+' {
            proof {
                assert(ds[0] == '+');
                lemma_radix_value_first(ds, 10);
            }
            return None;
        }
        assert(v@.skip(1) =~= ds);
        match from_str_radix_chars(v.as_slice(), 1, 10) {
            Some(x) => {
                if x <= half {
                    let neg: i128 = 0i128 - (x as i128);
                    Some(neg as i64)
                } else {
                    None
                }
            },
            None => None,
        }
    } else {
        assert(v@.skip(0) =~= v@);
        match from_str_radix_chars(v.as_slice(), 0, 10) {
            Some(x) => {
                if x < half {
                    Some(x as i64)
                } else {
                    None
                }
            },
            None => None,
        }
    }
}

} // verus!
