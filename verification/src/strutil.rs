//! Small verified string builders, and the one `String` primitive that vstd
//! leaves unspecified.

use vstd::prelude::*;
use vstd::string::StringExecFns;

verus! {

/// Relies on `String::push`: appends exactly the one character.
#[verifier::external_body]
pub(crate) fn push_char(s: &mut String, c: char)
    ensures
        final(s)@ == old(s)@ + seq![c],
{
    s.push(c);
}

/// Copies a string slice into an owned `String`.
pub fn str_to_string(s: &str) -> (r: String)
    ensures
        r@ == s@,
{
    String::from_str(s)
}

/// True exactly when the owned string holds the characters of `b`.
pub fn string_eq_str(a: &String, b: &str) -> (r: bool)
    ensures
        r == (a@ == b@),
{
    let bs = String::from_str(b);
    *a == bs
}

/// The character sequences of a list of owned strings.
pub open spec fn str_views(v: Seq<String>) -> Seq<Seq<char>> {
    v.map_values(|s: String| s@)
}

/// The lowercase hexadecimal digit for a value below 16.
pub open spec fn hex_digit(d: int) -> char {
    if d < 10 {
        (('0' as u8) + d) as u8 as char
    } else {
        (('a' as u8) + (d - 10)) as u8 as char
    }
}

/// Hexadecimal digits of `n`, most significant first; empty for zero.
pub open spec fn hex_digits(n: nat) -> Seq<char>
    decreases n,
{
    if n == 0 {
        Seq::empty()
    } else {
        hex_digits(n / 16).push(hex_digit((n % 16) as int))
    }
}

/// `n` in lowercase hexadecimal without leading zeros; zero is `"0"`.
pub open spec fn hex_str(n: nat) -> Seq<char> {
    if n == 0 {
        seq!['0']
    } else {
        hex_digits(n)
    }
}

/// The decimal digit character for a value below 10.
pub open spec fn dec_digit(d: int) -> char {
    (('0' as u8) + d) as u8 as char
}

/// Decimal digits of `n`, most significant first; empty for zero.
pub open spec fn dec_digits(n: nat) -> Seq<char>
    decreases n,
{
    if n == 0 {
        Seq::empty()
    } else {
        dec_digits(n / 10).push(dec_digit((n % 10) as int))
    }
}

/// `n` in decimal without leading zeros; zero is `"0"`.
pub open spec fn dec_str(n: nat) -> Seq<char> {
    if n == 0 {
        seq!['0']
    } else {
        dec_digits(n)
    }
}

/// The base-36 digit character: `a..z` stand for 0..25, `0..9` for 26..35.
pub open spec fn base36_digit(d: int) -> char {
    if d < 26 {
        (('a' as u8) + d) as u8 as char
    } else {
        (('0' as u8) + (d - 26)) as u8 as char
    }
}

/// Base-36 digits of `n`, most significant first; empty for zero.
pub open spec fn base36_digits(n: nat) -> Seq<char>
    decreases n,
{
    if n == 0 {
        Seq::empty()
    } else {
        base36_digits(n / 36).push(base36_digit((n % 36) as int))
    }
}

/// `n` in base 36; zero is rendered as the fixed-length `"aaaaaa"`.
pub open spec fn base36_str(n: nat) -> Seq<char> {
    if n == 0 {
        seq!['a', 'a', 'a', 'a', 'a', 'a']
    } else {
        base36_digits(n)
    }
}

/// A string holding the given characters, least significant digit last.
fn rev_chars_to_string(digits: &Vec<char>) -> (r: String)
    ensures
        r@ == digits@.reverse(),
{
    let mut s = String::new();
    let mut i: usize = digits.len();
    while i > 0
        invariant
            i <= digits@.len(),
            s@ == digits@.reverse().take(digits@.len() - i),
        decreases i,
    {
        i -= 1;
        let ghost t = digits@.len() - i - 1;
        proof {
            assert(digits@.reverse()[t] == digits@[i as int]);
            assert(digits@.reverse().take(t + 1) =~= digits@.reverse().take(t).push(
                digits@.reverse()[t],
            ));
        }
        push_char(&mut s, digits[i]);
    }
    proof {
        assert(digits@.reverse().take(digits@.len() as int) =~= digits@.reverse());
    }
    s
}

/// Renders `n` in lowercase hexadecimal, as `"{:x}"` would.
pub fn u64_to_hex(n: u64) -> (r: String)
    ensures
        r@ == hex_str(n as nat),
{
    if n == 0 {
        let mut s = String::new();
        push_char(&mut s, '0');
        return s;
    }
    let mut digits: Vec<char> = Vec::new();
    let mut cur: u64 = n;
    while cur > 0
        invariant
            hex_digits(n as nat) == hex_digits(cur as nat) + digits@.reverse(),
        decreases cur,
    {
        let d: u64 = cur % 16;
        let c: char = if d < 10 {
            (('0' as u8) + d as u8) as char
        } else {
            (('a' as u8) + (d as u8 - 10)) as char
        };
        proof {
            assert(c == hex_digit(d as int));
            assert(digits@.push(c).reverse() =~= seq![c] + digits@.reverse());
            assert(hex_digits((cur / 16) as nat).push(c) + digits@.reverse() =~= hex_digits(
                (cur / 16) as nat,
            ) + (seq![c] + digits@.reverse()));
            assert(hex_digits(cur as nat) == hex_digits((cur / 16) as nat).push(c));
        }
        digits.push(c);
        cur = cur / 16;
    }
    proof {
        assert(hex_digits(0nat) + digits@.reverse() =~= digits@.reverse());
    }
    rev_chars_to_string(&digits)
}

/// Renders `n` in decimal, as `"{}"` would.
pub fn u64_to_dec(n: u64) -> (r: String)
    ensures
        r@ == dec_str(n as nat),
{
    if n == 0 {
        let mut s = String::new();
        push_char(&mut s, '0');
        return s;
    }
    let mut digits: Vec<char> = Vec::new();
    let mut cur: u64 = n;
    while cur > 0
        invariant
            dec_digits(n as nat) == dec_digits(cur as nat) + digits@.reverse(),
        decreases cur,
    {
        let d: u64 = cur % 10;
        let c: char = (('0' as u8) + d as u8) as char;
        proof {
            assert(c == dec_digit(d as int));
            assert(digits@.push(c).reverse() =~= seq![c] + digits@.reverse());
            assert(dec_digits((cur / 10) as nat).push(c) + digits@.reverse() =~= dec_digits(
                (cur / 10) as nat,
            ) + (seq![c] + digits@.reverse()));
            assert(dec_digits(cur as nat) == dec_digits((cur / 10) as nat).push(c));
        }
        digits.push(c);
        cur = cur / 10;
    }
    proof {
        assert(dec_digits(0nat) + digits@.reverse() =~= digits@.reverse());
    }
    rev_chars_to_string(&digits)
}

/// Encodes `n` in base 36 over the alphabet `a..z0..9`; zero becomes the
/// fixed-length `"aaaaaa"`.
pub fn encode_base36(n: u64) -> (r: String)
    ensures
        r@ == base36_str(n as nat),
{
    if n == 0 {
        let mut s = String::new();
        push_char(&mut s, 'a');
        push_char(&mut s, 'a');
        push_char(&mut s, 'a');
        push_char(&mut s, 'a');
        push_char(&mut s, 'a');
        push_char(&mut s, 'a');
        proof {
            assert(s@ =~= base36_str(0));
        }
        return s;
    }
    let mut digits: Vec<char> = Vec::new();
    let mut cur: u64 = n;
    while cur > 0
        invariant
            base36_digits(n as nat) == base36_digits(cur as nat) + digits@.reverse(),
        decreases cur,
    {
        let d: u64 = cur % 36;
        let c: char = if d < 26 {
            (('a' as u8) + d as u8) as char
        } else {
            (('0' as u8) + (d as u8 - 26)) as char
        };
        proof {
            assert(c == base36_digit(d as int));
            assert(digits@.push(c).reverse() =~= seq![c] + digits@.reverse());
            assert(base36_digits((cur / 36) as nat).push(c) + digits@.reverse() =~= base36_digits(
                (cur / 36) as nat,
            ) + (seq![c] + digits@.reverse()));
            assert(base36_digits(cur as nat) == base36_digits((cur / 36) as nat).push(c));
        }
        digits.push(c);
        cur = cur / 36;
    }
    proof {
        assert(base36_digits(0nat) + digits@.reverse() =~= digits@.reverse());
    }
    rev_chars_to_string(&digits)
}

/// Sequence of `k` copies of `'a'`, the zero digit of the id alphabet.
pub open spec fn pad_a(k: int) -> Seq<char> {
    Seq::new(k as nat, |i: int| 'a')
}

/// The short id derived from `n`: the base-36 rendering trimmed or padded
/// with `'a'` to exactly five characters.
pub open spec fn spec_generate_id(n: u64) -> Seq<char> {
    let e = base36_str(n as nat);
    if e.len() == 5 {
        e
    } else if e.len() > 5 {
        e.skip(e.len() - 5)
    } else {
        pad_a(5 - e.len()) + e
    }
}

/// Generates a short cluster-style id for use in resource names: five base-36
/// characters, stable for the same input.
pub fn generate_id(n: u64) -> (r: String)
    ensures
        r@ == spec_generate_id(n),
{
    let e = encode_base36(n);
    let len = e.as_str().unicode_len();
    if len == 5 {
        e
    } else if len > 5 {
        let tail = e.as_str().substring_char(len - 5, len);
        str_to_string(tail)
    } else {
        let mut s = String::new();
        let mut i: usize = 0;
        while i < 5 - len
            invariant
                len < 5,
                len == base36_str(n as nat).len(),
                i <= 5 - len,
                s@ == pad_a(i as int),
            decreases 5 - len - i,
        {
            push_char(&mut s, 'a');
            proof {
                assert(pad_a(i as int).push('a') =~= pad_a(i + 1));
            }
            i += 1;
        }
        s.append(e.as_str());
        s
    }
}

} // verus!
