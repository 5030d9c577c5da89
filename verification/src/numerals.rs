//! Decimal and hexadecimal numerals: digit classification, the value of a
//! digit run, and printing an unsigned 32-bit value back as decimal digits.

use vstd::prelude::*;

verus! {

/// Is `c` a decimal digit?
pub open spec fn is_dec_digit(c: char) -> bool {
    48 <= c as u32 <= 57
}

/// Is `c` a hexadecimal digit?
pub open spec fn is_hex_digit(c: char) -> bool {
    48 <= c as u32 <= 57 || 65 <= c as u32 <= 70 || 97 <= c as u32 <= 102
}

/// The numeric value of a decimal digit.
pub open spec fn dec_digit_val(c: char) -> nat {
    (c as u32 - 48) as nat
}

/// The numeric value of a hexadecimal digit.
pub open spec fn hex_digit_val(c: char) -> nat {
    if 48 <= c as u32 <= 57 {
        (c as u32 - 48) as nat
    } else if 65 <= c as u32 <= 70 {
        (c as u32 - 55) as nat
    } else {
        (c as u32 - 87) as nat
    }
}

/// Every character of `s` is a decimal digit.
pub open spec fn all_dec_digits(s: Seq<char>) -> bool {
    forall|i: int| 0 <= i < s.len() ==> is_dec_digit(#[trigger] s[i])
}

/// Every character of `s` is a hexadecimal digit.
pub open spec fn all_hex_digits(s: Seq<char>) -> bool {
    forall|i: int| 0 <= i < s.len() ==> is_hex_digit(#[trigger] s[i])
}

/// The value of a run of decimal digits, most significant first.
pub open spec fn dec_val(s: Seq<char>) -> nat
    decreases s.len(),
{
    if s.len() == 0 {
        0
    } else {
        dec_val(s.drop_last()) * 10 + dec_digit_val(s.last())
    }
}

/// The value of a run of hexadecimal digits, most significant first.
pub open spec fn hex_val(s: Seq<char>) -> nat
    decreases s.len(),
{
    if s.len() == 0 {
        0
    } else {
        hex_val(s.drop_last()) * 16 + hex_digit_val(s.last())
    }
}

/// The decimal digit character for a value below ten.
pub open spec fn dec_digit_char(d: nat) -> char {
    if d == 0 {
        '0'
    } else if d == 1 {
        '1'
    } else if d == 2 {
        '2'
    } else if d == 3 {
        '3'
    } else if d == 4 {
        '4'
    } else if d == 5 {
        '5'
    } else if d == 6 {
        '6'
    } else if d == 7 {
        '7'
    } else if d == 8 {
        '8'
    } else {
        '9'
    }
}

/// The canonical decimal numeral of a value: no leading zeros, except that
/// zero itself prints as a single `0`.
pub open spec fn dec_seq_of(v: nat) -> Seq<char>
    decreases v,
{
    if v < 10 {
        seq![dec_digit_char(v)]
    } else {
        dec_seq_of(v / 10).push(dec_digit_char(v % 10))
    }
}

/// A canonical numeral has no leading zero, except the numeral of zero
/// itself.
pub proof fn lemma_dec_seq_of_no_leading_zero(v: nat)
    requires
        v > 0,
    ensures
        dec_seq_of(v)[0] != '0',
    decreases v,
{
    if v >= 10 {
        lemma_dec_seq_of_no_leading_zero(v / 10);
        lemma_dec_seq_of_val(v / 10);
        assert(dec_seq_of(v)[0] == dec_seq_of(v / 10)[0]);
    }
}

/// A prefix of a digit run never evaluates to more than the whole run.
pub proof fn lemma_dec_val_take_le(s: Seq<char>, j: int)
    requires
        0 <= j <= s.len(),
    ensures
        dec_val(s.take(j)) <= dec_val(s),
    decreases s.len() - j,
{
    if j < s.len() {
        assert(s.take(j + 1).drop_last() =~= s.take(j));
        assert(s.take(j + 1).last() == s[j]);
        assert(dec_val(s.take(j + 1)) == dec_val(s.take(j)) * 10 + dec_digit_val(s[j]));
        lemma_dec_val_take_le(s, j + 1);
        assert(s.take(s.len() as int) =~= s);
    } else {
        assert(s.take(j) =~= s);
    }
}

/// A prefix of a hexadecimal digit run never evaluates to more than the
/// whole run.
pub proof fn lemma_hex_val_take_le(s: Seq<char>, j: int)
    requires
        0 <= j <= s.len(),
    ensures
        hex_val(s.take(j)) <= hex_val(s),
    decreases s.len() - j,
{
    if j < s.len() {
        assert(s.take(j + 1).drop_last() =~= s.take(j));
        assert(s.take(j + 1).last() == s[j]);
        assert(hex_val(s.take(j + 1)) == hex_val(s.take(j)) * 16 + hex_digit_val(s[j]));
        lemma_hex_val_take_le(s, j + 1);
        assert(s.take(s.len() as int) =~= s);
    } else {
        assert(s.take(j) =~= s);
    }
}

/// Read an unsigned 32-bit value from a run of decimal digits.  Succeeds
/// exactly when the run is nonempty, all digits, and the value fits.
pub fn u32_from_dec(src: &str) -> (r: Option<u32>)
    ensures
        match r {
            Some(v) => src@.len() > 0 && all_dec_digits(src@) && dec_val(src@) <= u32::MAX && v
                == dec_val(src@),
            None => src@.len() == 0 || !all_dec_digits(src@) || dec_val(src@) > u32::MAX,
        },
{
    let ghost s = src@;
    let n = src.unicode_len();
    if n == 0 {
        return None;
    }
    let mut val: u64 = 0;
    let mut k: usize = 0;
    while k < n
        invariant
            s == src@,
            n == s.len(),
            0 <= k <= n,
            val == dec_val(s.take(k as int)),
            val <= u32::MAX,
            forall|j: int| 0 <= j < k ==> is_dec_digit(#[trigger] s[j]),
        decreases n - k,
    {
        let c = src.get_char(k);
        let u = c as u32;
        if !(48 <= u && u <= 57) {
            return None;
        }
        let d = (u - 48) as u64;
        let next: u64 = val * 10 + d;
        proof {
            assert(s.take(k as int + 1).drop_last() =~= s.take(k as int));
            assert(s.take(k as int + 1).last() == s[k as int]);
            assert(dec_val(s.take(k as int + 1)) == dec_val(s.take(k as int)) * 10
                + dec_digit_val(s[k as int]));
        }
        if next > 0xffff_ffffu64 {
            proof {
                lemma_dec_val_take_le(s, k as int + 1);
            }
            return None;
        }
        val = next;
        k = k + 1;
    }
    proof {
        assert(s.take(n as int) =~= s);
    }
    Some(val as u32)
}

/// Read an unsigned 32-bit value from a run of hexadecimal digits.
/// Succeeds exactly when the run is nonempty, all hexadecimal digits, and
/// the value fits.
pub fn u32_from_hex(src: &str) -> (r: Option<u32>)
    ensures
        match r {
            Some(v) => src@.len() > 0 && all_hex_digits(src@) && hex_val(src@) <= u32::MAX && v
                == hex_val(src@),
            None => src@.len() == 0 || !all_hex_digits(src@) || hex_val(src@) > u32::MAX,
        },
{
    let ghost s = src@;
    let n = src.unicode_len();
    if n == 0 {
        return None;
    }
    let mut val: u64 = 0;
    let mut k: usize = 0;
    while k < n
        invariant
            s == src@,
            n == s.len(),
            0 <= k <= n,
            val == hex_val(s.take(k as int)),
            val <= u32::MAX,
            forall|j: int| 0 <= j < k ==> is_hex_digit(#[trigger] s[j]),
        decreases n - k,
    {
        let c = src.get_char(k);
        let u = c as u32;
        let d: u64 = if 48 <= u && u <= 57 {
            (u - 48) as u64
        } else if 65 <= u && u <= 70 {
            (u - 55) as u64
        } else if 97 <= u && u <= 102 {
            (u - 87) as u64
        } else {
            return None;
        };
        let next: u64 = val * 16 + d;
        proof {
            assert(s.take(k as int + 1).drop_last() =~= s.take(k as int));
            assert(s.take(k as int + 1).last() == s[k as int]);
            assert(hex_val(s.take(k as int + 1)) == hex_val(s.take(k as int)) * 16
                + hex_digit_val(s[k as int]));
        }
        if next > 0xffff_ffffu64 {
            proof {
                lemma_hex_val_take_le(s, k as int + 1);
            }
            return None;
        }
        val = next;
        k = k + 1;
    }
    proof {
        assert(s.take(n as int) =~= s);
    }
    Some(val as u32)
}

/// The one-character string for a decimal digit value.
fn digit_str(d: u32) -> (r: &'static str)
    requires
        d < 10,
    ensures
        r@ == seq![dec_digit_char(d as nat)],
{
    proof {
        reveal_strlit("0");
        reveal_strlit("1");
        reveal_strlit("2");
        reveal_strlit("3");
        reveal_strlit("4");
        reveal_strlit("5");
        reveal_strlit("6");
        reveal_strlit("7");
        reveal_strlit("8");
        reveal_strlit("9");
    }
    let r = if d == 0 {
        "0"
    } else if d == 1 {
        "1"
    } else if d == 2 {
        "2"
    } else if d == 3 {
        "3"
    } else if d == 4 {
        "4"
    } else if d == 5 {
        "5"
    } else if d == 6 {
        "6"
    } else if d == 7 {
        "7"
    } else if d == 8 {
        "8"
    } else {
        "9"
    };
    proof {
        assert(r@ =~= seq![dec_digit_char(d as nat)]);
    }
    r
}

/// Print a value as its canonical decimal numeral.
pub fn u32_to_string(v: u32) -> (r: String)
    ensures
        r@ == dec_seq_of(v as nat),
    decreases v,
{
    if v < 10 {
        let mut s = String::new();
        s.append(digit_str(v));
        proof {
            assert(s@ =~= seq![dec_digit_char(v as nat)]);
        }
        s
    } else {
        let mut s = u32_to_string(v / 10);
        s.append(digit_str(v % 10));
        proof {
            assert(s@ =~= dec_seq_of((v / 10) as nat).push(dec_digit_char((v % 10) as nat)));
        }
        s
    }
}

/// A digit character carries its own value.
pub proof fn lemma_dec_digit_char_val(d: nat)
    requires
        d < 10,
    ensures
        is_dec_digit(dec_digit_char(d)),
        dec_digit_val(dec_digit_char(d)) == d,
{
}

/// The canonical numeral of `v` is made of digits and evaluates back to `v`.
pub proof fn lemma_dec_seq_of_val(v: nat)
    ensures
        dec_seq_of(v).len() >= 1,
        all_dec_digits(dec_seq_of(v)),
        dec_val(dec_seq_of(v)) == v,
    decreases v,
{
    if v < 10 {
        lemma_dec_digit_char_val(v);
        let s = dec_seq_of(v);
        assert(s.drop_last() =~= Seq::<char>::empty());
        assert(dec_val(Seq::<char>::empty()) == 0);
        assert(s.last() == dec_digit_char(v));
        assert(dec_val(s) == 0 * 10 + dec_digit_val(dec_digit_char(v)));
    } else {
        lemma_dec_seq_of_val(v / 10);
        lemma_dec_digit_char_val(v % 10);
        let s = dec_seq_of(v);
        assert(s.drop_last() =~= dec_seq_of(v / 10));
        assert(s.last() == dec_digit_char(v % 10));
        assert(dec_val(s) == dec_val(dec_seq_of(v / 10)) * 10 + dec_digit_val(dec_digit_char(v % 10)));
        assert(v == 10 * ((v as int) / 10) + ((v as int) % 10)) by {
            vstd::arithmetic::div_mod::lemma_fundamental_div_mod(v as int, 10);
        }
        assert(dec_val(s) == v);
        assert(forall|i: int|
            0 <= i < s.len() ==> is_dec_digit(#[trigger] s[i])) by {
            assert(forall|i: int|
                0 <= i < s.len() - 1 ==> #[trigger] s[i] == dec_seq_of(v / 10)[i]);
        }
    }
}

} // verus!
