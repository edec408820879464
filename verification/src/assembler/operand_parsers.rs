use vstd::prelude::*;
use vstd::string::StrSliceExecFns;
use vstd::string::StringSliceAdditionalSpecFns;

use crate::assembler::Token;
use crate::assembler::TokenV;

verus! {

/// Whitespace inside a line: space, tab, carriage return.
pub open spec fn is_space(b: u8) -> bool {
    b == 32 || b == 9 || b == 13
}

/// An ASCII letter.
pub open spec fn is_alpha(b: u8) -> bool {
    (65 <= b && b <= 90) || (97 <= b && b <= 122)
}

/// An ASCII decimal digit.
pub open spec fn is_digit(b: u8) -> bool {
    48 <= b && b <= 57
}

/// A byte that may continue an identifier: letter, digit or underscore.
pub open spec fn is_ident_rest(b: u8) -> bool {
    is_alpha(b) || is_digit(b) || b == 95
}

/// The first position in `[i, e)` holding a non-whitespace byte, or `e`.
pub open spec fn spec_skip_ws(s: Seq<u8>, i: int, e: int) -> int
    decreases e - i,
{
    if i < e && 0 <= i < s.len() && is_space(s[i]) {
        spec_skip_ws(s, i + 1, e)
    } else {
        i
    }
}

/// The first position in `[i, e)` where an identifier ends.
pub open spec fn spec_scan_ident_end(s: Seq<u8>, i: int, e: int) -> int
    decreases e - i,
{
    if i < e && 0 <= i < s.len() && is_ident_rest(s[i]) {
        spec_scan_ident_end(s, i + 1, e)
    } else {
        i
    }
}

pub proof fn lemma_scan_ident_end(s: Seq<u8>, i: int, e: int)
    requires
        0 <= i <= e <= s.len(),
    ensures
        i <= spec_scan_ident_end(s, i, e) <= e,
    decreases e - i,
{
    if i < e && is_ident_rest(s[i]) {
        lemma_scan_ident_end(s, i + 1, e);
    }
}

/// The first position in `[i, e)` holding a non-digit byte, or `e`.
pub open spec fn spec_scan_digits_end(s: Seq<u8>, i: int, e: int) -> int
    decreases e - i,
{
    if i < e && 0 <= i < s.len() && is_digit(s[i]) {
        spec_scan_digits_end(s, i + 1, e)
    } else {
        i
    }
}

pub proof fn lemma_scan_digits_end(s: Seq<u8>, i: int, e: int)
    requires
        0 <= i <= e <= s.len(),
    ensures
        i <= spec_scan_digits_end(s, i, e) <= e,
        forall|k: int| #![trigger s[k]] i <= k < spec_scan_digits_end(s, i, e) ==> is_digit(s[k]),
    decreases e - i,
{
    if i < e && is_digit(s[i]) {
        lemma_scan_digits_end(s, i + 1, e);
    }
}

/// The decimal value of the digits in `[i, e)`.
pub open spec fn spec_digits_val(s: Seq<u8>, i: int, e: int) -> int
    decreases e - i,
{
    if i < e {
        spec_digits_val(s, i, e - 1) * 10 + (s[e - 1] - 48)
    } else {
        0
    }
}

/// Whether every byte in `[i, e)` is a digit within bounds.
pub open spec fn all_digits(s: Seq<u8>, i: int, e: int) -> bool
    decreases e - i,
{
    if i < e {
        0 <= e - 1 < s.len() && is_digit(s[e - 1]) && all_digits(s, i, e - 1)
    } else {
        true
    }
}

pub proof fn lemma_all_digits_prefix(s: Seq<u8>, i: int, e: int, m: int)
    requires
        all_digits(s, i, e),
        i <= m <= e,
    ensures
        all_digits(s, i, m),
    decreases e - m,
{
    if m < e {
        lemma_all_digits_prefix(s, i, e - 1, m);
    }
}

pub proof fn lemma_all_digits_at(s: Seq<u8>, i: int, e: int, k: int)
    requires
        all_digits(s, i, e),
        i <= k < e,
    ensures
        0 <= k < s.len(),
        is_digit(s[k]),
    decreases e - k,
{
    if k < e - 1 {
        lemma_all_digits_at(s, i, e - 1, k);
    }
}

pub proof fn lemma_all_digits_widen(s: Seq<u8>, i: int, m: int)
    requires
        0 <= i < s.len(),
        is_digit(s[i]),
        i + 1 <= m,
        all_digits(s, i + 1, m),
    ensures
        all_digits(s, i, m),
    decreases m - i,
{
    if m > i + 1 {
        assert(all_digits(s, i + 1, m - 1));
        lemma_all_digits_widen(s, i, m - 1);
    } else {
        assert(all_digits(s, i, i));
    }
}

/// Everything a scan for digits passes over is a digit.
pub proof fn lemma_scan_digits_all(s: Seq<u8>, i: int, e: int)
    requires
        0 <= i <= e <= s.len(),
    ensures
        all_digits(s, i, spec_scan_digits_end(s, i, e)),
    decreases e - i,
{
    if i < e && is_digit(s[i]) {
        lemma_scan_digits_all(s, i + 1, e);
        lemma_scan_digits_end(s, i + 1, e);
        lemma_all_digits_widen(s, i, spec_scan_digits_end(s, i + 1, e));
    } else {
        assert(all_digits(s, i, i));
    }
}

pub proof fn lemma_digits_val_nonneg(s: Seq<u8>, i: int, e: int)
    requires
        all_digits(s, i, e),
    ensures
        spec_digits_val(s, i, e) >= 0,
    decreases e - i,
{
    if i < e {
        lemma_digits_val_nonneg(s, i, e - 1);
    }
}

/// An identifier: a letter followed by letters, digits and underscores.
/// Yields the identifier's bytes and the position after it.
pub open spec fn spec_parse_ident(s: Seq<u8>, i: int, e: int) -> Option<(Seq<u8>, int)> {
    if i < e && 0 <= i < s.len() && is_alpha(s[i]) {
        let end = spec_scan_ident_end(s, i + 1, e);
        Some((s.subrange(i, end), end))
    } else {
        None
    }
}

/// An integer operand: `#`, an optional minus sign, then digits, with a
/// value that fits a signed 32-bit integer.
pub open spec fn spec_parse_integer(s: Seq<u8>, i: int, e: int) -> Option<(i32, int)> {
    if i < e && 0 <= i < s.len() && s[i] == 35 {
        let neg = i + 1 < e && s[i + 1] == 45;
        let j = if neg {
            i + 2
        } else {
            i + 1
        };
        let d_end = spec_scan_digits_end(s, j, e);
        if d_end == j {
            None
        } else {
            let v = spec_digits_val(s, j, d_end);
            if neg {
                if v <= 0x8000_0000 {
                    Some(((-v) as i32, d_end))
                } else {
                    None
                }
            } else {
                if v <= 0x7FFF_FFFF {
                    Some((v as i32, d_end))
                } else {
                    None
                }
            }
        }
    } else {
        None
    }
}

/// A register operand: `$` then digits, in the range 0 to 31.
pub open spec fn spec_parse_register(s: Seq<u8>, i: int, e: int) -> Option<(u8, int)> {
    if i < e && 0 <= i < s.len() && s[i] == 36 {
        let d_end = spec_scan_digits_end(s, i + 1, e);
        if d_end == i + 1 {
            None
        } else {
            let v = spec_digits_val(s, i + 1, d_end);
            if v <= 31 {
                Some((v as u8, d_end))
            } else {
                None
            }
        }
    } else {
        None
    }
}

/// The position of the first apostrophe in `[i, e)`, or `e`.
pub open spec fn spec_find_quote(s: Seq<u8>, i: int, e: int) -> int
    decreases e - i,
{
    if i < e && 0 <= i < s.len() && s[i] != 39 {
        spec_find_quote(s, i + 1, e)
    } else {
        i
    }
}

pub proof fn lemma_find_quote(s: Seq<u8>, i: int, e: int)
    requires
        0 <= i <= e <= s.len(),
    ensures
        i <= spec_find_quote(s, i, e) <= e,
    decreases e - i,
{
    if i < e && s[i] != 39 {
        lemma_find_quote(s, i + 1, e);
    }
}

/// A string operand: an apostrophe, any bytes other than an apostrophe, and
/// a closing apostrophe.
pub open spec fn spec_parse_irstring(s: Seq<u8>, i: int, e: int) -> Option<(Seq<u8>, int)> {
    if i < e && 0 <= i < s.len() && s[i] == 39 {
        let q = spec_find_quote(s, i + 1, e);
        if q < e {
            Some((s.subrange(i + 1, q), q + 1))
        } else {
            None
        }
    } else {
        None
    }
}

/// An operand token, recognised by its leading byte: `#` integer, `$`
/// register, `@` label usage, `'` string.
pub open spec fn spec_parse_operand(s: Seq<u8>, i: int, e: int) -> Option<(TokenV, int)> {
    if i < e && 0 <= i < s.len() {
        if s[i] == 35 {
            match spec_parse_integer(s, i, e) {
                Some((v, p)) => Some((TokenV::IntegerOperand { value: v }, p)),
                None => None,
            }
        } else if s[i] == 36 {
            match spec_parse_register(s, i, e) {
                Some((v, p)) => Some((TokenV::Register { reg_num: v }, p)),
                None => None,
            }
        } else if s[i] == 64 {
            match spec_parse_ident(s, i + 1, e) {
                Some((name, p)) => Some((TokenV::LabelUsage { name }, p)),
                None => None,
            }
        } else if s[i] == 39 {
            match spec_parse_irstring(s, i, e) {
                Some((name, p)) => Some((TokenV::IrString { name }, p)),
                None => None,
            }
        } else {
            None
        }
    } else {
        None
    }
}

/// Whether an executable token-and-position result matches a specification
/// one.
pub open spec fn token_step_matches(r: Option<(Token, usize)>, sr: Option<(TokenV, int)>) -> bool {
    match (r, sr) {
        (Some(rp), Some(sp)) => rp.0@ == sp.0 && rp.1 as int == sp.1,
        (None, None) => true,
        _ => false,
    }
}

/// Like `token_step_matches`, with the position bounded by `e`.
pub open spec fn token_step_matches_to(
    r: Option<(Token, usize)>,
    sr: Option<(TokenV, int)>,
    e: int,
) -> bool {
    token_step_matches(r, sr) && (r is Some ==> r.unwrap().1 <= e)
}

/// Copies the bytes in `[a, b)` out of a buffer.
pub fn subvec(s: &Vec<u8>, a: usize, b: usize) -> (r: Vec<u8>)
    requires
        a <= b <= s@.len(),
    ensures
        r@ == s@.subrange(a as int, b as int),
{
    let sl = vstd::slice::slice_subrange(s.as_slice(), a, b);
    vstd::slice::slice_to_vec(sl)
}

/// Executable form of `is_space`.
pub fn space_byte(b: u8) -> (r: bool)
    ensures
        r == is_space(b),
{
    b == 32 || b == 9 || b == 13
}

/// Executable form of `is_alpha`.
pub fn alpha_byte(b: u8) -> (r: bool)
    ensures
        r == is_alpha(b),
{
    (65 <= b && b <= 90) || (97 <= b && b <= 122)
}

/// Executable form of `is_digit`.
pub fn digit_byte(b: u8) -> (r: bool)
    ensures
        r == is_digit(b),
{
    48 <= b && b <= 57
}

/// Executable form of `is_ident_rest`.
pub fn ident_rest_byte(b: u8) -> (r: bool)
    ensures
        r == is_ident_rest(b),
{
    alpha_byte(b) || digit_byte(b) || b == 95
}

/// Advances past whitespace within `[i, e)`.
pub fn skip_ws(s: &Vec<u8>, i: usize, e: usize) -> (r: usize)
    requires
        i <= e <= s@.len(),
    ensures
        r == spec_skip_ws(s@, i as int, e as int),
        i <= r <= e,
    {
    let mut p = i;
    while p < e && space_byte(s[p])
        invariant
            i <= p <= e <= s@.len(),
            spec_skip_ws(s@, i as int, e as int) == spec_skip_ws(s@, p as int, e as int),
        decreases e - p,
    {
        p = p + 1;
    }
    p
}

/// Advances to the end of an identifier within `[i, e)`.
pub fn scan_ident_end(s: &Vec<u8>, i: usize, e: usize) -> (r: usize)
    requires
        i <= e <= s@.len(),
    ensures
        r == spec_scan_ident_end(s@, i as int, e as int),
        i <= r <= e,
{
    let mut p = i;
    while p < e && ident_rest_byte(s[p])
        invariant
            i <= p <= e <= s@.len(),
            spec_scan_ident_end(s@, i as int, e as int) == spec_scan_ident_end(
                s@,
                p as int,
                e as int,
            ),
        decreases e - p,
    {
        p = p + 1;
    }
    p
}

/// Advances to the end of a run of digits within `[i, e)`.
pub fn scan_digits_end(s: &Vec<u8>, i: usize, e: usize) -> (r: usize)
    requires
        i <= e <= s@.len(),
    ensures
        r == spec_scan_digits_end(s@, i as int, e as int),
        i <= r <= e,
{
    let mut p = i;
    while p < e && digit_byte(s[p])
        invariant
            i <= p <= e <= s@.len(),
            spec_scan_digits_end(s@, i as int, e as int) == spec_scan_digits_end(
                s@,
                p as int,
                e as int,
            ),
        decreases e - p,
    {
        p = p + 1;
    }
    p
}

/// The value of the digits in `[i, e)`, exact up to `0x1_0000_0000` and
/// reported as larger otherwise.
fn digits_val_capped(s: &Vec<u8>, i: usize, e: usize) -> (r: u64)
    requires
        i <= e <= s@.len(),
        all_digits(s@, i as int, e as int),
    ensures
        spec_digits_val(s@, i as int, e as int) <= 0x1_0000_0000 ==> r == spec_digits_val(
            s@,
            i as int,
            e as int,
        ),
        spec_digits_val(s@, i as int, e as int) > 0x1_0000_0000 ==> r > 0x1_0000_0000,
{
    let mut p = i;
    let mut acc: u64 = 0;
    while p < e
        invariant
            i <= p <= e <= s@.len(),
            all_digits(s@, i as int, e as int),
            acc <= 0x28_0000_0009,
            spec_digits_val(s@, i as int, p as int) <= 0x1_0000_0000 ==> acc == spec_digits_val(
                s@,
                i as int,
                p as int,
            ),
            spec_digits_val(s@, i as int, p as int) > 0x1_0000_0000 ==> acc > 0x1_0000_0000,
        decreases e - p,
    {
        proof {
            lemma_all_digits_at(s@, i as int, e as int, p as int);
            lemma_all_digits_prefix(s@, i as int, e as int, p as int);
            lemma_digits_val_nonneg(s@, i as int, p as int);
            assert(spec_digits_val(s@, i as int, p + 1) == spec_digits_val(s@, i as int, p as int)
                * 10 + (s@[p as int] - 48));
        }
        let d = s[p] - 48;
        if acc <= 0x1_0000_0000 {
            acc = acc * 10 + (d as u64);
        }
        p = p + 1;
    }
    acc
}

/// Parses an integer operand at `i`; see `spec_parse_integer`.
pub fn parse_integer(s: &Vec<u8>, i: usize, e: usize) -> (r: Option<(i32, usize)>)
    requires
        i <= e <= s@.len(),
    ensures
        match (r, spec_parse_integer(s@, i as int, e as int)) {
            (Some(rp), Some(sp)) => rp.0 == sp.0 && rp.1 as int == sp.1 && rp.1 <= e,
            (None, None) => true,
            _ => false,
        },
{
    if i < e && s[i] == 35 {
        let neg = i + 1 < e && s[i + 1] == 45;
        let j = if neg {
            i + 2
        } else {
            i + 1
        };
        let d_end = scan_digits_end(s, j, e);
        if d_end == j {
            return None;
        }
        proof {
            lemma_scan_digits_end(s@, j as int, e as int);
            lemma_scan_digits_all(s@, j as int, e as int);
            lemma_digits_val_nonneg(s@, j as int, d_end as int);
        }
        let v = digits_val_capped(s, j, d_end);
        if neg {
            if v <= 0x8000_0000 {
                Some(((-(v as i64)) as i32, d_end))
            } else {
                None
            }
        } else {
            if v <= 0x7FFF_FFFF {
                Some((v as i32, d_end))
            } else {
                None
            }
        }
    } else {
        None
    }
}

/// Parses a register operand at `i`; see `spec_parse_register`.
pub fn parse_register(s: &Vec<u8>, i: usize, e: usize) -> (r: Option<(u8, usize)>)
    requires
        i <= e <= s@.len(),
    ensures
        match (r, spec_parse_register(s@, i as int, e as int)) {
            (Some(rp), Some(sp)) => rp.0 == sp.0 && rp.1 as int == sp.1 && rp.1 <= e,
            (None, None) => true,
            _ => false,
        },
{
    if i < e && s[i] == 36 {
        let d_end = scan_digits_end(s, i + 1, e);
        if d_end == i + 1 {
            return None;
        }
        proof {
            lemma_scan_digits_end(s@, i + 1, e as int);
            lemma_scan_digits_all(s@, i + 1, e as int);
            lemma_digits_val_nonneg(s@, i + 1, d_end as int);
        }
        let v = digits_val_capped(s, i + 1, d_end);
        if v <= 31 {
            Some((v as u8, d_end))
        } else {
            None
        }
    } else {
        None
    }
}

/// Parses an identifier at `i`, copying its bytes out.
pub fn parse_ident(s: &Vec<u8>, i: usize, e: usize) -> (r: Option<(Vec<u8>, usize)>)
    requires
        i <= e <= s@.len(),
    ensures
        match (r, spec_parse_ident(s@, i as int, e as int)) {
            (Some(rp), Some(sp)) => rp.0@ == sp.0 && rp.1 as int == sp.1 && i < rp.1 <= e,
            (None, None) => true,
            _ => false,
        },
{
    if i < e && alpha_byte(s[i]) {
        let end = scan_ident_end(s, i + 1, e);
        Some((subvec(s, i, end), end))
    } else {
        None
    }
}

/// Parses a string operand at `i`; see `spec_parse_irstring`.
pub fn parse_irstring(s: &Vec<u8>, i: usize, e: usize) -> (r: Option<(Vec<u8>, usize)>)
    requires
        i <= e <= s@.len(),
    ensures
        match (r, spec_parse_irstring(s@, i as int, e as int)) {
            (Some(rp), Some(sp)) => rp.0@ == sp.0 && rp.1 as int == sp.1 && rp.1 <= e,
            (None, None) => true,
            _ => false,
        },
{
    if i < e && s[i] == 39 {
        let mut q = i + 1;
        while q < e && s[q] != 39
            invariant
                i + 1 <= q <= e <= s@.len(),
                spec_find_quote(s@, i + 1, e as int) == spec_find_quote(s@, q as int, e as int),
            decreases e - q,
        {
            q = q + 1;
        }
        if q < e {
            Some((subvec(s, i + 1, q), q + 1))
        } else {
            None
        }
    } else {
        None
    }
}

/// Parses any operand at `i`; see `spec_parse_operand`.
pub fn parse_operand(s: &Vec<u8>, i: usize, e: usize) -> (r: Option<(Token, usize)>)
    requires
        i <= e <= s@.len(),
    ensures
        token_step_matches_to(r, spec_parse_operand(s@, i as int, e as int), e as int),
{
    if i < e {
        let b = s[i];
        if b == 35 {
            match parse_integer(s, i, e) {
                Some((v, p)) => Some((Token::IntegerOperand { value: v }, p)),
                None => None,
            }
        } else if b == 36 {
            match parse_register(s, i, e) {
                Some((v, p)) => Some((Token::Register { reg_num: v }, p)),
                None => None,
            }
        } else if b == 64 {
            match parse_ident(s, i + 1, e) {
                Some((name, p)) => Some((Token::LabelUsage { name }, p)),
                None => None,
            }
        } else if b == 39 {
            match parse_irstring(s, i, e) {
                Some((name, p)) => Some((Token::IrString { name }, p)),
                None => None,
            }
        } else {
            None
        }
    } else {
        None
    }
}

/// Parses one integer operand from source text, with surrounding
/// whitespace allowed; yields the token and the position after it.
pub fn integer_operand(s: &str) -> (r: Option<(Token, usize)>)
    ensures
        ({
            let bs = s.spec_bytes();
            let i0 = spec_skip_ws(bs, 0, bs.len() as int);
            match spec_parse_integer(bs, i0, bs.len() as int) {
                Some(sp) => r is Some && r.unwrap().0@ == (TokenV::IntegerOperand {
                    value: sp.0,
                }) && r.unwrap().1 as int == spec_skip_ws(bs, sp.1, bs.len() as int),
                None => r is None,
            }
        }),
{
    let bytes = s.as_bytes_vec();
    let e = bytes.len();
    let i0 = skip_ws(&bytes, 0, e);
    match parse_integer(&bytes, i0, e) {
        Some((v, p)) => Some((Token::IntegerOperand { value: v }, skip_ws(&bytes, p, e))),
        None => None,
    }
}

} // verus!
