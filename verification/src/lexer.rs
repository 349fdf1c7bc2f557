//! Byte-level lexing of the line-oriented mesh and material descriptions:
//! newline splitting, whitespace tokenization, and decimal scalar and
//! index parsing, each exec routine proved against a positional spec.

use vstd::prelude::*;
use crate::fixed::COORD_MAX;
use crate::fixed::FX_ONE;

verus! {

/// Token separators: space, tab, and carriage return (so descriptions
/// with either line-end convention lex the same).
pub open spec fn is_space(b: u8) -> bool {
    b == 32 || b == 9 || b == 13
}

pub open spec fn is_digit(b: u8) -> bool {
    48 <= b <= 57
}

/// First position at or after `i` holding byte `b`, or the length.
pub open spec fn first_byte_from(s: Seq<u8>, i: int, b: u8) -> int
    decreases s.len() - i,
{
    if i < 0 || i >= s.len() {
        s.len() as int
    } else if s[i] == b {
        i
    } else {
        first_byte_from(s, i + 1, b)
    }
}

pub proof fn lemma_first_byte_from(s: Seq<u8>, i: int, b: u8)
    requires
        0 <= i <= s.len(),
    ensures
        i <= first_byte_from(s, i, b) <= s.len(),
        forall|k: int| i <= k < first_byte_from(s, i, b) ==> s[k] != b,
        first_byte_from(s, i, b) < s.len() ==> s[first_byte_from(s, i, b)] == b,
    decreases s.len() - i,
{
    if i < s.len() && s[i] != b {
        lemma_first_byte_from(s, i + 1, b);
    }
}

/// A scan that saw no `b` in `i..j` and stopped at `j` (the end, or a `b`)
/// found exactly the first occurrence.
pub proof fn lemma_first_byte_at(s: Seq<u8>, i: int, j: int, b: u8)
    requires
        0 <= i <= j <= s.len(),
        forall|k: int| i <= k < j ==> s[k] != b,
        j < s.len() ==> s[j] == b,
    ensures
        first_byte_from(s, i, b) == j,
    decreases j - i,
{
    if i < j {
        lemma_first_byte_at(s, i + 1, j, b);
    }
}

/// First position at or after `i` holding a token separator, or the
/// length.
pub open spec fn first_space_from(s: Seq<u8>, i: int) -> int
    decreases s.len() - i,
{
    if i < 0 || i >= s.len() {
        s.len() as int
    } else if is_space(s[i]) {
        i
    } else {
        first_space_from(s, i + 1)
    }
}

pub proof fn lemma_first_space_from(s: Seq<u8>, i: int)
    requires
        0 <= i <= s.len(),
    ensures
        i <= first_space_from(s, i) <= s.len(),
        forall|k: int| i <= k < first_space_from(s, i) ==> !is_space(s[k]),
        first_space_from(s, i) < s.len() ==> is_space(s[first_space_from(s, i)]),
    decreases s.len() - i,
{
    if i < s.len() && !is_space(s[i]) {
        lemma_first_space_from(s, i + 1);
    }
}

pub proof fn lemma_first_space_at(s: Seq<u8>, i: int, j: int)
    requires
        0 <= i <= j <= s.len(),
        forall|k: int| i <= k < j ==> !is_space(s[k]),
        j < s.len() ==> is_space(s[j]),
    ensures
        first_space_from(s, i) == j,
    decreases j - i,
{
    if i < j {
        lemma_first_space_at(s, i + 1, j);
    }
}

/// The lines of the text from position `i` on: newline-separated, the
/// separator not kept, no line after a trailing newline.
pub open spec fn spec_lines_from(s: Seq<u8>, i: int) -> Seq<Seq<u8>>
    decreases s.len() - i,
    when 0 <= i
    via spec_lines_from_dec
{
    if i >= s.len() {
        Seq::empty()
    } else {
        let j = first_byte_from(s, i, 10);
        if j >= s.len() {
            seq![s.subrange(i, s.len() as int)]
        } else {
            seq![s.subrange(i, j)] + spec_lines_from(s, j + 1)
        }
    }
}

#[via_fn]
proof fn spec_lines_from_dec(s: Seq<u8>, i: int) {
    if i < s.len() {
        lemma_first_byte_from(s, i, 10);
    }
}

/// All lines of a byte text.
pub open spec fn spec_split_lines(s: Seq<u8>) -> Seq<Seq<u8>> {
    spec_lines_from(s, 0)
}

/// The whitespace-separated tokens of the line from position `i` on.
pub open spec fn spec_tokens_from(s: Seq<u8>, i: int) -> Seq<Seq<u8>>
    decreases s.len() - i,
    when 0 <= i
    via spec_tokens_from_dec
{
    if i >= s.len() {
        Seq::empty()
    } else if is_space(s[i]) {
        spec_tokens_from(s, i + 1)
    } else {
        let j = first_space_from(s, i);
        seq![s.subrange(i, j)] + spec_tokens_from(s, j)
    }
}

#[via_fn]
proof fn spec_tokens_from_dec(s: Seq<u8>, i: int) {
    if i < s.len() && !is_space(s[i]) {
        lemma_first_space_from(s, i);
    }
}

/// All tokens of a line.
pub open spec fn spec_tokens(s: Seq<u8>) -> Seq<Seq<u8>> {
    spec_tokens_from(s, 0)
}

/// The value of the decimal digits `s[a..b]`, most significant first.
pub open spec fn digits_val_range(s: Seq<u8>, a: int, b: int) -> int
    decreases b - a,
{
    if a >= b {
        0
    } else {
        digits_val_range(s, a, b - 1) * 10 + (s[b - 1] as int - 48)
    }
}

pub open spec fn all_digits_range(s: Seq<u8>, a: int, b: int) -> bool {
    forall|k: int| a <= k < b ==> is_digit(#[trigger] s[k])
}

/// The digit at `k`, or zero past the end.
pub open spec fn digit_at(s: Seq<u8>, k: int) -> int {
    if 0 <= k < s.len() {
        s[k] as int - 48
    } else {
        0
    }
}

/// The digit at `k` if it lies before `cut`, else zero.
pub open spec fn digit_at_before(s: Seq<u8>, k: int, cut: int) -> int {
    if k < cut {
        digit_at(s, k)
    } else {
        0
    }
}

/// The first four fraction digits starting at `a`, read as ten-thousandths.
pub open spec fn frac4_val_from(s: Seq<u8>, a: int) -> int {
    digit_at(s, a) * 1000 + digit_at(s, a + 1) * 100 + digit_at(s, a + 2) * 10 + digit_at(s, a + 3)
}

/// As `frac4_val_from`, but only digits before `cut` contribute.
pub open spec fn frac4_val_upto(s: Seq<u8>, a: int, cut: int) -> int {
    digit_at_before(s, a, cut) * 1000 + digit_at_before(s, a + 1, cut) * 100 + digit_at_before(
        s,
        a + 2,
        cut,
    ) * 10 + digit_at_before(s, a + 3, cut)
}

/// The fixed-point value of a scalar token: an optional sign, decimal
/// integer digits, and an optional fraction after one dot, of which the
/// first four digits count. A token with no digit, a stray byte, or a
/// magnitude beyond the representable coordinate range has no value.
pub open spec fn spec_parse_scalar(t: Seq<u8>) -> Option<int> {
    let start: int = if t.len() > 0 && (t[0] == 43 || t[0] == 45) {
        1
    } else {
        0
    };
    let neg = t.len() > 0 && t[0] == 45;
    let dot = first_byte_from(t, start, 46);
    let ok = all_digits_range(t, start, dot) && (dot >= t.len() || all_digits_range(
        t,
        dot + 1,
        t.len() as int,
    )) && (dot > start || dot + 1 < t.len());
    if !ok {
        None
    } else {
        let m = digits_val_range(t, start, dot) * (FX_ONE as int) + frac4_val_from(t, dot + 1);
        if m > COORD_MAX as int {
            None
        } else if neg {
            Some(-m)
        } else {
            Some(m)
        }
    }
}

/// The zero-based face index of a face token: the decimal digits before
/// the first slash, one-based in the source, which must fit a `u32` and
/// not be zero; sub-indices after the slash are not consumed.
pub open spec fn spec_parse_index(t: Seq<u8>) -> Option<int> {
    let sl = first_byte_from(t, 0, 47);
    if sl == 0 || !all_digits_range(t, 0, sl) {
        None
    } else {
        let v = digits_val_range(t, 0, sl);
        if 1 <= v <= 0xFFFF_FFFFint {
            Some(v - 1)
        } else {
            None
        }
    }
}

/// Copies `v[a..b]` out.
pub fn copy_range(v: &Vec<u8>, a: usize, b: usize) -> (r: Vec<u8>)
    requires
        a <= b <= v@.len(),
    ensures
        r@ == v@.subrange(a as int, b as int),
{
    let mut r: Vec<u8> = Vec::new();
    let mut i: usize = a;
    while i < b
        invariant
            a <= i <= b <= v@.len(),
            r@ == v@.subrange(a as int, i as int),
        decreases b - i,
    {
        r.push(v[i]);
        proof {
            assert(v@.subrange(a as int, i as int + 1) =~= v@.subrange(a as int, i as int).push(
                v@[i as int],
            ));
        }
        i = i + 1;
    }
    r
}

/// Splits a byte text into its lines.
pub fn split_lines(text: &Vec<u8>) -> (r: Vec<Vec<u8>>)
    ensures
        r@.map_values(|l: Vec<u8>| l@) == spec_split_lines(text@),
{
    let n: usize = text.len();
    let mut r: Vec<Vec<u8>> = Vec::new();
    let mut i: usize = 0;
    while i < n
        invariant
            0 <= i <= n,
            n == text@.len(),
            spec_split_lines(text@) == r@.map_values(|l: Vec<u8>| l@) + spec_lines_from(
                text@,
                i as int,
            ),
        decreases n - i,
    {
        let ghost i0 = i as int;
        let mut j: usize = i;
        while j < n && text[j] != 10u8
            invariant
                i0 <= j <= n,
                n == text@.len(),
                forall|k: int| i0 <= k < j ==> text@[k] != 10u8,
            decreases n - j,
        {
            j = j + 1;
        }
        proof {
            lemma_first_byte_at(text@, i0, j as int, 10u8);
        }
        let line: Vec<u8> = copy_range(text, i, j);
        r.push(line);
        proof {
            assert(r@.map_values(|l: Vec<u8>| l@) =~= r@.drop_last().map_values(|l: Vec<u8>| l@)
                + seq![line@]);
            if j as int >= n as int {
                assert(line@ =~= text@.subrange(i0, n as int));
            }
        }
        if j < n {
            i = j + 1;
        } else {
            i = n;
            proof {
                assert(spec_lines_from(text@, n as int) =~= Seq::<Seq<u8>>::empty());
            }
        }
        proof {
            assert(spec_split_lines(text@) == r@.map_values(|l: Vec<u8>| l@) + spec_lines_from(
                text@,
                i as int,
            ));
        }
    }
    proof {
        assert(spec_split_lines(text@) =~= r@.map_values(|l: Vec<u8>| l@));
    }
    r
}

/// Splits a line into its whitespace-separated tokens.
pub fn tokenize(line: &Vec<u8>) -> (r: Vec<Vec<u8>>)
    ensures
        r@.map_values(|t: Vec<u8>| t@) == spec_tokens(line@),
{
    let n: usize = line.len();
    let mut r: Vec<Vec<u8>> = Vec::new();
    let mut i: usize = 0;
    while i < n
        invariant
            0 <= i <= n,
            n == line@.len(),
            spec_tokens(line@) == r@.map_values(|t: Vec<u8>| t@) + spec_tokens_from(
                line@,
                i as int,
            ),
        decreases n - i,
    {
        let b: u8 = line[i];
        if b == 32u8 || b == 9u8 || b == 13u8 {
            i = i + 1;
        } else {
            let ghost i0 = i as int;
            let mut j: usize = i;
            while j < n && line[j] != 32u8 && line[j] != 9u8 && line[j] != 13u8
                invariant
                    i0 <= j <= n,
                    n == line@.len(),
                    forall|k: int| i0 <= k < j ==> !is_space(line@[k]),
                decreases n - j,
            {
                j = j + 1;
            }
            proof {
                lemma_first_space_at(line@, i0, j as int);
            }
            let tok: Vec<u8> = copy_range(line, i, j);
            r.push(tok);
            proof {
                assert(r@.map_values(|t: Vec<u8>| t@) =~= r@.drop_last().map_values(
                    |t: Vec<u8>| t@,
                ) + seq![tok@]);
            }
            i = j;
        }
    }
    proof {
        assert(spec_tokens_from(line@, n as int) =~= Seq::<Seq<u8>>::empty());
        assert(spec_tokens(line@) =~= r@.map_values(|t: Vec<u8>| t@));
    }
    r
}

/// Parses a scalar token to its fixed-point value, or nothing when the
/// token is not a plain decimal number in range.
#[verifier::loop_isolation(false)]
pub fn parse_scalar(t: &Vec<u8>) -> (r: Option<i64>)
    ensures
        r is Some <==> spec_parse_scalar(t@) is Some,
        spec_parse_scalar(t@) matches Some(v) ==> r == Some(v as i64) && -COORD_MAX <= v
            <= COORD_MAX,
{
    let n: usize = t.len();
    if n == 0 {
        return None;
    }
    let b0: u8 = t[0];
    let neg: bool = b0 == 45u8;
    let start: usize = if b0 == 43u8 || b0 == 45u8 {
        1
    } else {
        0
    };
    let mut i: usize = start;
    let mut iv: i64 = 0;
    while i < n && t[i] != 46u8
        invariant
            start <= i <= n,
            n == t@.len(),
            forall|k: int| start as int <= k < i as int ==> t@[k] != 46u8,
            all_digits_range(t@, start as int, i as int),
            0 <= iv <= 1001,
            digits_val_range(t@, start as int, i as int) <= 1000 ==> iv == digits_val_range(
                t@,
                start as int,
                i as int,
            ),
            digits_val_range(t@, start as int, i as int) > 1000 ==> iv == 1001,
        decreases n - i,
    {
        let d: u8 = t[i];
        if d < 48u8 || d > 57u8 {
            proof {
                lemma_first_byte_from(t@, start as int, 46u8);
                let fb = first_byte_from(t@, start as int, 46u8);
                if fb <= i as int {
                    assert(t@[fb] == 46u8);
                    assert(false);
                }
                assert(!is_digit(t@[i as int]));
                assert(!all_digits_range(t@, start as int, fb));
            }
            return None;
        }
        let nv: i64 = iv * 10 + (d - 48u8) as i64;
        iv = if nv > 1000 {
            1001
        } else {
            nv
        };
        proof {
            let dv0 = digits_val_range(t@, start as int, i as int);
            let dv1 = digits_val_range(t@, start as int, i as int + 1);
            assert(dv1 == dv0 * 10 + (t@[i as int] as int - 48));
            if dv0 > 1000 {
                assert(dv0 * 10 >= 1001 * 10) by (nonlinear_arith)
                    requires
                        dv0 >= 1001,
                ;
            }
            assert(all_digits_range(t@, start as int, i as int + 1));
        }
        i = i + 1;
    }
    let dot: usize = i;
    proof {
        lemma_first_byte_at(t@, start as int, dot as int, 46u8);
    }
    let mut f4: i64 = 0;
    if dot < n {
        let mut k: usize = dot + 1;
        while k < n
            invariant
                dot as int + 1 <= k as int <= n as int,
                n == t@.len(),
                dot < n,
                all_digits_range(t@, dot as int + 1, k as int),
                0 <= f4 <= 9999,
                f4 == frac4_val_upto(t@, dot as int + 1, k as int),
            decreases n - k,
        {
            let d: u8 = t[k];
            if d < 48u8 || d > 57u8 {
                proof {
                    assert(!is_digit(t@[k as int]));
                }
                return None;
            }
            if k == dot + 1 {
                f4 = f4 + (d - 48u8) as i64 * 1000;
            } else if k == dot + 2 {
                f4 = f4 + (d - 48u8) as i64 * 100;
            } else if k == dot + 3 {
                f4 = f4 + (d - 48u8) as i64 * 10;
            } else if k == dot + 4 {
                f4 = f4 + (d - 48u8) as i64;
            }
            proof {
                assert(all_digits_range(t@, dot as int + 1, k as int + 1));
                assert(f4 == frac4_val_upto(t@, dot as int + 1, k as int + 1));
            }
            k = k + 1;
        }
        proof {
            assert(f4 == frac4_val_from(t@, dot as int + 1));
        }
    } else {
        proof {
            assert(f4 == frac4_val_from(t@, dot as int + 1));
        }
    }
    if !(dot > start || dot + 1 < n) {
        return None;
    }
    let m: i64 = iv * 10000 + f4;
    proof {
        let dv = digits_val_range(t@, start as int, dot as int);
        let ms = dv * (FX_ONE as int) + frac4_val_from(t@, dot as int + 1);
        if dv > 1000 {
            assert(dv * 10000 >= 1001 * 10000) by (nonlinear_arith)
                requires
                    dv >= 1001,
            ;
        }
        assert(m > COORD_MAX <==> ms > COORD_MAX as int);
        assert(m <= COORD_MAX ==> m == ms);
    }
    if m > COORD_MAX {
        return None;
    }
    if neg {
        Some(-m)
    } else {
        Some(m)
    }
}

/// Parses a face token to its zero-based position index, or nothing when
/// the part before the first slash is not a one-based index fitting a
/// `u32`.
#[verifier::loop_isolation(false)]
pub fn parse_index(t: &Vec<u8>) -> (r: Option<u32>)
    ensures
        r is Some <==> spec_parse_index(t@) is Some,
        spec_parse_index(t@) matches Some(v) ==> r == Some(v as u32) && 0 <= v < 0xFFFF_FFFFint,
{
    let n: usize = t.len();
    let mut i: usize = 0;
    let mut acc: u64 = 0;
    while i < n && t[i] != 47u8
        invariant
            0 <= i <= n,
            n == t@.len(),
            forall|k: int| 0 <= k < i as int ==> t@[k] != 47u8,
            all_digits_range(t@, 0, i as int),
            0 <= acc <= 0x1_0000_0000u64,
            digits_val_range(t@, 0, i as int) <= 0xFFFF_FFFFint ==> acc as int == digits_val_range(
                t@,
                0,
                i as int,
            ),
            digits_val_range(t@, 0, i as int) > 0xFFFF_FFFFint ==> acc == 0x1_0000_0000u64,
        decreases n - i,
    {
        let d: u8 = t[i];
        if d < 48u8 || d > 57u8 {
            proof {
                lemma_first_byte_from(t@, 0, 47u8);
                let fb = first_byte_from(t@, 0, 47u8);
                if fb <= i as int {
                    assert(t@[fb] == 47u8);
                    assert(false);
                }
                assert(!is_digit(t@[i as int]));
                assert(!all_digits_range(t@, 0, fb));
            }
            return None;
        }
        let nv: u64 = acc * 10 + (d - 48u8) as u64;
        acc = if nv > 0xFFFF_FFFFu64 {
            0x1_0000_0000u64
        } else {
            nv
        };
        proof {
            let dv0 = digits_val_range(t@, 0, i as int);
            let dv1 = digits_val_range(t@, 0, i as int + 1);
            assert(dv1 == dv0 * 10 + (t@[i as int] as int - 48));
            if dv0 > 0xFFFF_FFFFint {
                assert(dv0 * 10 >= 0x1_0000_0000int * 10) by (nonlinear_arith)
                    requires
                        dv0 >= 0x1_0000_0000int,
                ;
            }
            assert(all_digits_range(t@, 0, i as int + 1));
        }
        i = i + 1;
    }
    proof {
        lemma_first_byte_at(t@, 0, i as int, 47u8);
    }
    if i == 0 {
        return None;
    }
    if acc == 0 || acc > 0xFFFF_FFFFu64 {
        return None;
    }
    Some((acc - 1) as u32)
}

} // verus!
