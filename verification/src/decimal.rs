//! Decimal rendering, and parsing of integer-literal tokens, for the
//! range-expansion engine.
//!
//! Rendering produces the plain base-ten text spliced into tokens.
//! Parsing accepts what an integer literal may look like in source: an
//! optional leading minus, a `0x` / `0o` / `0b` radix prefix, digits with
//! ignorable underscores, and a trailing identifier suffix (which does
//! not affect the value). A form that would be a floating-point literal
//! (a decimal point, or an exponent with digits) is not an integer
//! literal. Suffixes are read as ASCII identifiers; a non-ASCII suffix
//! is rejected.

use vstd::prelude::*;
use vstd::string::StrSliceExecFns;
use vstd::string::StringExecFns;

verus! {

/// The character for one decimal digit.
pub open spec fn digit_char(d: int) -> char
    recommends
        0 <= d <= 9,
{
    if d == 0 {
        '0'
    } else if d == 1 {
        '1'
    } else if d == 2 {
        '2'
    } else if d == 3 {
        '3'
    } else if d == 4 {
        '4'
    } else if d == 5 {
        '5'
    } else if d == 6 {
        '6'
    } else if d == 7 {
        '7'
    } else if d == 8 {
        '8'
    } else {
        '9'
    }
}

/// The decimal digits of a nonnegative integer, most significant first.
pub open spec fn dec_digits(n: nat) -> Seq<char>
    decreases n,
{
    if n < 10 {
        seq![digit_char(n as int)]
    } else {
        dec_digits(n / 10) + seq![digit_char((n % 10) as int)]
    }
}

/// The decimal rendering of a signed integer: a leading minus sign for a
/// negative value, plain digits otherwise.
pub open spec fn int_digits(n: int) -> Seq<char> {
    if n < 0 {
        seq!['-'] + dec_digits((-n) as nat)
    } else {
        dec_digits(n as nat)
    }
}

/// Is this character a decimal digit?
pub open spec fn is_digit(c: char) -> bool {
    '0' as int <= c as int <= '9' as int
}

/// The numeric value of one digit character.
pub open spec fn digit_val(c: char) -> int
    recommends
        is_digit(c),
{
    c as int - '0' as int
}

/// Is this character a hexadecimal digit letter?
pub open spec fn is_hex_letter(c: char) -> bool {
    ('a' as int <= c as int <= 'f' as int) || ('A' as int <= c as int <= 'F' as int)
}

/// The numeric value of one hexadecimal digit letter.
pub open spec fn hex_letter_val(c: char) -> int
    recommends
        is_hex_letter(c),
{
    if 'a' as int <= c as int <= 'f' as int {
        c as int - 'a' as int + 10
    } else {
        c as int - 'A' as int + 10
    }
}

/// May this character open an ASCII identifier suffix?
pub open spec fn ascii_ident_start(c: char) -> bool {
    c == '_' || ('a' as int <= c as int <= 'z' as int) || ('A' as int <= c as int
        <= 'Z' as int)
}

/// May this character continue an ASCII identifier suffix?
pub open spec fn ascii_ident_continue(c: char) -> bool {
    ascii_ident_start(c) || is_digit(c)
}

/// Is the text from `i` on empty or an ASCII identifier?
pub open spec fn suffix_ok(s: Seq<char>, i: int) -> bool {
    i >= s.len() || (ascii_ident_start(s[i]) && forall|j: int|
        i < j < s.len() ==> ascii_ident_continue(#[trigger] s[j]))
}

/// After an exponent marker: does a digit follow once underscores are
/// skipped? If so the text is a floating-point literal.
pub open spec fn exp_digit_follows(s: Seq<char>, j: int) -> bool
    decreases s.len() - j,
{
    if j < 0 || j >= s.len() {
        false
    } else if s[j] == '_' {
        exp_digit_follows(s, j + 1)
    } else {
        is_digit(s[j])
    }
}

/// The outcome of scanning a literal's digit part: the accumulated value
/// and the index where the suffix starts, or a rejected form.
pub ghost enum LitScan {
    ScanOk(int, int),
    ScanBad,
}

/// Scans the digit part of a literal body from index `i` in the given
/// base, accumulating `value`: underscores are ignored, a digit beyond
/// the base rejects, a decimal point or a digit-bearing exponent marker
/// rejects the form as floating point, and the first other character
/// starts the suffix.
pub open spec fn scan_digits(s: Seq<char>, i: int, base: int, value: int) -> LitScan
    decreases s.len() - i,
{
    if i < 0 || i >= s.len() {
        LitScan::ScanOk(value, i)
    } else {
        let c = s[i];
        if c == '_' {
            scan_digits(s, i + 1, base, value)
        } else if is_digit(c) {
            if digit_val(c) >= base {
                LitScan::ScanBad
            } else {
                scan_digits(s, i + 1, base, value * base + digit_val(c))
            }
        } else if base == 16 && is_hex_letter(c) {
            scan_digits(s, i + 1, base, value * 16 + hex_letter_val(c))
        } else if base == 10 && c == '.' {
            LitScan::ScanBad
        } else if base == 10 && (c == 'e' || c == 'E') {
            if exp_digit_follows(s, i + 1) {
                LitScan::ScanBad
            } else {
                LitScan::ScanOk(value, i)
            }
        } else {
            LitScan::ScanOk(value, i)
        }
    }
}

/// The base of a literal body, by its radix prefix.
pub open spec fn lit_base(s: Seq<char>) -> int {
    if s.len() >= 2 && s[0] == '0' && s[1] == 'x' {
        16
    } else if s.len() >= 2 && s[0] == '0' && s[1] == 'o' {
        8
    } else if s.len() >= 2 && s[0] == '0' && s[1] == 'b' {
        2
    } else {
        10
    }
}

/// The magnitude of an unsigned integer-literal body: radix prefix,
/// digits with underscores, then an optional identifier suffix that does
/// not affect the value.
pub open spec fn int_lit_mag(s: Seq<char>) -> Option<int> {
    if s.len() == 0 {
        None
    } else {
        let base = lit_base(s);
        let start: int = if base == 10 {
            0
        } else {
            2
        };
        if base == 10 && !is_digit(s[0]) {
            None
        } else {
            match scan_digits(s, start, base, 0) {
                LitScan::ScanBad => None,
                LitScan::ScanOk(value, rest) => if suffix_ok(s, rest) {
                    Some(value)
                } else {
                    None
                },
            }
        }
    }
}

/// The value of an integer-literal text, with an optional leading minus.
pub open spec fn int_lit_value(s: Seq<char>) -> Option<int> {
    if s.len() > 0 && s[0] == '-' {
        match int_lit_mag(s.drop_first()) {
            Some(m) => Some(-m),
            None => None,
        }
    } else {
        int_lit_mag(s)
    }
}

/// Does the text denote an integer that fits the signed 64-bit range?
pub open spec fn lit_fits_i64(s: Seq<char>) -> bool {
    match int_lit_value(s) {
        Some(v) => i64::MIN <= v <= i64::MAX,
        None => false,
    }
}

/// The one-character string for one decimal digit.
fn digit_str(d: u64) -> (r: &'static str)
    requires
        d < 10,
    ensures
        r@ == seq![digit_char(d as int)],
{
    proof {
        reveal_strlit("0");
        reveal_strlit("1");
        reveal_strlit("2");
        reveal_strlit("3");
        reveal_strlit("4");
        reveal_strlit("5");
        reveal_strlit("6");
        reveal_strlit("7");
        reveal_strlit("8");
        reveal_strlit("9");
    }
    let r = match d {
        0u64 => "0",
        1u64 => "1",
        2u64 => "2",
        3u64 => "3",
        4u64 => "4",
        5u64 => "5",
        6u64 => "6",
        7u64 => "7",
        8u64 => "8",
        _ => "9",
    };
    proof {
        assert(r@ =~= seq![digit_char(d as int)]);
    }
    r
}

/// Renders a nonnegative integer in decimal.
pub fn u64_to_string(n: u64) -> (s: String)
    ensures
        s@ == dec_digits(n as nat),
    decreases n,
{
    if n < 10 {
        digit_str(n).to_owned()
    } else {
        let mut s = u64_to_string(n / 10);
        s.append(digit_str(n % 10));
        s
    }
}

/// Renders a signed integer in decimal, with a minus sign when negative.
pub fn i64_to_string(n: i64) -> (s: String)
    ensures
        s@ == int_digits(n as int),
{
    if n < 0 {
        let wide: i128 = n as i128;
        let mag: u64 = (-wide) as u64;
        let mut s: String = "-".to_owned();
        s.append(u64_to_string(mag).as_str());
        proof {
            reveal_strlit("-");
            assert(s@ =~= int_digits(n as int));
        }
        s
    } else {
        u64_to_string(n as u64)
    }
}

/// Reads the decimal value of one character, hexadecimal letters
/// included.
fn char_class(c: char) -> (r: (bool, bool, u64))
    ensures
        r.0 == is_digit(c),
        r.1 == is_hex_letter(c),
        is_digit(c) ==> r.2 as int == digit_val(c),
        !is_digit(c) && is_hex_letter(c) ==> r.2 as int == hex_letter_val(c),
{
    let u: u32 = c as u32;
    if u >= 48 && u <= 57 {
        (true, false, (u - 48) as u64)
    } else if u >= 97 && u <= 102 {
        (false, true, (u - 97 + 10) as u64)
    } else if u >= 65 && u <= 70 {
        (false, true, (u - 65 + 10) as u64)
    } else {
        (false, false, 0)
    }
}

/// Does an exponent digit follow at `j`, once underscores are skipped?
fn exp_digit_scan(text: &str, j: usize) -> (r: bool)
    requires
        j <= text@.len(),
    ensures
        r == exp_digit_follows(text@, j as int),
    decreases text@.len() - j,
{
    let len = text.unicode_len();
    if j >= len {
        return false;
    }
    let c = text.get_char(j);
    if c == '_' {
        exp_digit_scan(text, j + 1)
    } else {
        let (dig, _, _) = char_class(c);
        dig
    }
}


/// A value beyond the range stays beyond it after one more digit.
proof fn lemma_acc_grow(v: int, base: int, d: int, bound: int)
    requires
        v > bound,
        0 <= bound,
        2 <= base <= 16,
        0 <= d,
    ensures
        v * base + d > bound,
{
    assert(v * base >= v * 2) by (nonlinear_arith)
        requires
            v > 0,
            base >= 2,
    ;
    assert(v * 2 > bound) by (nonlinear_arith)
        requires
            v > bound,
            bound >= 0,
    ;
}

/// Skipping a fixed offset does not change what follows an exponent
/// marker.
proof fn lemma_exp_digit_shift(s: Seq<char>, off: int, j: int)
    requires
        0 <= off <= j,
        off <= s.len(),
    ensures
        exp_digit_follows(s.skip(off), j - off) == exp_digit_follows(s, j),
    decreases s.len() - j,
{
    assert(s.skip(off).len() == s.len() - off);
    if j < s.len() {
        assert(s.skip(off)[j - off] == s[j]);
        if s[j] == '_' {
            lemma_exp_digit_shift(s, off, j + 1);
            assert(exp_digit_follows(s, j) == exp_digit_follows(s, j + 1));
            assert(exp_digit_follows(s.skip(off), j - off) == exp_digit_follows(
                s.skip(off),
                j + 1 - off,
            ));
        } else {
            assert(exp_digit_follows(s, j) == is_digit(s[j]));
            assert(exp_digit_follows(s.skip(off), j - off) == is_digit(s.skip(off)[j - off]));
        }
    } else {
        assert(!exp_digit_follows(s, j));
        assert(!exp_digit_follows(s.skip(off), j - off));
    }
}

/// Lifts a missing magnitude through the optional leading minus.
proof fn lemma_value_none(text: Seq<char>, off: int)
    requires
        0 <= off <= 1,
        off < text.len(),
        (off == 1) == (text[0] == '-'),
        int_lit_mag(text.skip(off)) is None,
    ensures
        int_lit_value(text) is None,
{
    if text[0] == '-' {
        assert(text.drop_first() =~= text.skip(1));
    } else {
        assert(text.skip(0) =~= text);
    }
}

/// Lifts a parsed magnitude through the optional leading minus.
proof fn lemma_value_some(text: Seq<char>, off: int, m: int)
    requires
        0 <= off <= 1,
        off < text.len(),
        (off == 1) == (text[0] == '-'),
        int_lit_mag(text.skip(off)) == Some(m),
    ensures
        int_lit_value(text) == Some(
            if text[0] == '-' {
                -m
            } else {
                m
            },
        ),
{
    if text[0] == '-' {
        assert(text.drop_first() =~= text.skip(1));
    } else {
        assert(text.skip(0) =~= text);
    }
}

/// Parses an integer-literal text into the signed 64-bit range: the
/// value of a well-formed literal when it fits, nothing when the text is
/// no integer literal or its value is out of range.
pub fn parse_int_lit(text: &str) -> (r: Option<i64>)
    ensures
        match r {
            Some(v) => int_lit_value(text@) == Some(v as int),
            None => !lit_fits_i64(text@),
        },
{
    let len = text.unicode_len();
    if len == 0 {
        return None;
    }
    let neg = text.get_char(0) == '-';
    let off: usize = if neg {
        1
    } else {
        0
    };
    let ghost body = text@.skip(off as int);
    proof {
        if neg {
            assert(body =~= text@.drop_first());
        } else {
            assert(body =~= text@);
        }
    }
    if off >= len {
        return None;
    }
    let blen = len - off;
    let c0 = text.get_char(off);
    let c1 = if blen >= 2 {
        text.get_char(off + 1)
    } else {
        '0'
    };
    proof {
        assert(body.len() == blen);
        assert(body[0] == text@[off as int]);
        if blen >= 2 {
            assert(body[1] == text@[off as int + 1]);
        }
    }
    let base: u64 = if blen >= 2 && c0 == '0' && c1 == 'x' {
        16
    } else if blen >= 2 && c0 == '0' && c1 == 'o' {
        8
    } else if blen >= 2 && c0 == '0' && c1 == 'b' {
        2
    } else {
        10
    };
    proof {
        assert(base as int == lit_base(body));
    }
    let start: usize = if base == 10 {
        0
    } else {
        2
    };
    if base == 10 {
        let (dig0, _, _) = char_class(c0);
        if !dig0 {
            proof {
                assert(int_lit_mag(body) is None);
                lemma_value_none(text@, off as int);
            }
            return None;
        }
    }
    let mut i: usize = off + start;
    let mut acc: u64 = 0;
    let mut over = false;
    let mut rest: usize = 0;
    let ghost mut v: int = 0;
    proof {
        assert(scan_digits(body, start as int, base as int, 0) == scan_digits(
            body,
            i as int - off as int,
            base as int,
            v,
        ));
    }
    loop
        invariant
            off + start <= i <= len,
            len == text@.len(),
            off <= 1,
            off < len,
            body == text@.skip(off as int),
            body.len() == len - off,
            neg == (text@[0] == '-'),
            off as int == if neg { 1int } else { 0int },
            base == 10 || base == 16 || base == 8 || base == 2,
            base as int == lit_base(body),
            base == 10 ==> is_digit(body[0]),
            start as int == if base == 10 { 0int } else { 2int },
            0 <= v,
            !over ==> v == acc as int,
            over ==> v > u64::MAX as int,
            scan_digits(body, start as int, base as int, 0) == scan_digits(
                body,
                i as int - off as int,
                base as int,
                v,
            ),
        ensures
            off <= rest <= len,
            len == text@.len(),
            off < len,
            body == text@.skip(off as int),
            0 <= v,
            !over ==> v == acc as int,
            over ==> v > u64::MAX as int,
            scan_digits(body, start as int, base as int, 0) == LitScan::ScanOk(
                v,
                rest as int - off as int,
            ),
        decreases len - i,
    {
        proof {
            if i < len {
                assert(body[i as int - off as int] == text@[i as int]);
            }
        }
        if i >= len {
            rest = i;
            break;
        }
        let c = text.get_char(i);
        if c == '_' {
            i = i + 1;
            continue;
        }
        let (dig, hexl, d) = char_class(c);
        if dig || (base == 16 && hexl) {
            if dig && d >= base {
                proof {
                    assert(scan_digits(body, i as int - off as int, base as int, v)
                        == LitScan::ScanBad);
                    assert(int_lit_mag(body) is None);
                lemma_value_none(text@, off as int);
                }
                return None;
            }
            let ghost v_old = v;
            proof {
                v = v * (base as int) + d as int;
            }
            if over {
                proof {
                    lemma_acc_grow(v_old, base as int, d as int, u64::MAX as int);
                }
            } else {
                match acc.checked_mul(base) {
                    Some(p) => match p.checked_add(d) {
                        Some(s2) => {
                            acc = s2;
                        },
                        None => {
                            over = true;
                        },
                    },
                    None => {
                        over = true;
                    },
                }
            }
            i = i + 1;
            continue;
        }
        if base == 10 && c == '.' {
            proof {
                assert(scan_digits(body, i as int - off as int, base as int, v)
                    == LitScan::ScanBad);
                assert(int_lit_mag(body) is None);
                lemma_value_none(text@, off as int);
            }
            return None;
        }
        if base == 10 && (c == 'e' || c == 'E') {
            proof {
                lemma_exp_digit_shift(text@, off as int, i as int + 1);
            }
            if exp_digit_scan(text, i + 1) {
                proof {
                    assert(scan_digits(body, i as int - off as int, base as int, v)
                        == LitScan::ScanBad);
                    assert(int_lit_mag(body) is None);
                lemma_value_none(text@, off as int);
                }
                return None;
            }
            rest = i;
            break;
        }
        rest = i;
        break;
    }
    let mut j: usize = rest;
    while j < len
        invariant
            rest <= j <= len,
            off <= rest <= len,
            len == text@.len(),
            off < len,
            body == text@.skip(off as int),
            body.len() == len - off,
            neg == (text@[0] == '-'),
            off as int == if neg { 1int } else { 0int },
            base == 10 || base == 16 || base == 8 || base == 2,
            base as int == lit_base(body),
            base == 10 ==> is_digit(body[0]),
            start as int == if base == 10 { 0int } else { 2int },
            scan_digits(body, start as int, base as int, 0) == LitScan::ScanOk(
                v,
                rest as int - off as int,
            ),
            j > rest ==> ascii_ident_start(body[rest as int - off as int]),
            forall|k: int|
                rest as int - off < k < j - off ==> ascii_ident_continue(#[trigger] body[k]),
        decreases len - j,
    {
        proof {
            assert(body[j as int - off as int] == text@[j as int]);
        }
        let c = text.get_char(j);
        let u: u32 = c as u32;
        let is_start = u == 95 || (u >= 97 && u <= 122) || (u >= 65 && u <= 90);
        if j == rest {
            if !is_start {
                proof {
                    assert(!ascii_ident_start(body[rest as int - off as int]));
                    assert(!suffix_ok(body, rest as int - off as int));
                    assert(int_lit_mag(body) is None);
                lemma_value_none(text@, off as int);
                }
                return None;
            }
        } else {
            let (dig, _, _) = char_class(c);
            if !(is_start || dig) {
                proof {
                    assert(!ascii_ident_continue(body[j as int - off as int]));
                    assert(!suffix_ok(body, rest as int - off as int));
                    assert(int_lit_mag(body) is None);
                lemma_value_none(text@, off as int);
                }
                return None;
            }
        }
        j = j + 1;
    }
    proof {
        assert(suffix_ok(body, rest as int - off as int));
        assert(int_lit_mag(body) == Some(v));
        lemma_value_some(text@, off as int, v);
        if neg {
            assert(int_lit_value(text@) == Some(-v));
        } else {
            assert(int_lit_value(text@) == Some(v));
        }
    }
    if over {
        return None;
    }
    if neg {
        if acc > 9223372036854775808u64 {
            return None;
        }
        if acc == 9223372036854775808u64 {
            Some(i64::MIN)
        } else {
            Some(-(acc as i64))
        }
    } else {
        if acc > i64::MAX as u64 {
            return None;
        }
        Some(acc as i64)
    }
}

} // verus!
