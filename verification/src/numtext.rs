//! Decimal texts: the JSON number grammar, and integer fields.
//!
//! A numeric field of the canvas document is stored as its JSON number
//! text. Integer fields (grid size, canvas width and height, font size)
//! are parsed to an `i32` and printed back in the canonical decimal form;
//! fractional fields keep their full number text as the document's value.

use vstd::prelude::*;

verus! {

/// Is `c` a decimal digit?
pub open spec fn is_digit(c: char) -> bool {
    48 <= (c as u32) && (c as u32) <= 57
}

/// The value of a decimal digit.
pub open spec fn digit_val(c: char) -> int {
    (c as u32) - 48
}

/// The digit character of a value in `0 ..= 9`.
pub open spec fn digit_char(d: int) -> char {
    if d == 0 {
        '0'
    } else if d == 1 {
        '1'
    } else if d == 2 {
        '2'
    } else if d == 3 {
        '3'
    } else if d == 4 {
        '4'
    } else if d == 5 {
        '5'
    } else if d == 6 {
        '6'
    } else if d == 7 {
        '7'
    } else if d == 8 {
        '8'
    } else {
        '9'
    }
}

/// A character that can occur in a JSON number text.
pub open spec fn is_num_char(c: char) -> bool {
    is_digit(c) || c == '-' || c == '+' || c == '.' || c == 'e' || c == 'E'
}

/// The first position at or after `i` that does not hold a number character.
pub open spec fn num_end(s: Seq<char>, i: int) -> int
    decreases s.len() - i,
{
    if 0 <= i && i < s.len() && is_num_char(s[i]) {
        num_end(s, i + 1)
    } else {
        i
    }
}

/// The first position at or after `i` that does not hold a digit.
pub open spec fn digits_end(s: Seq<char>, i: int) -> int
    decreases s.len() - i,
{
    if 0 <= i && i < s.len() && is_digit(s[i]) {
        digits_end(s, i + 1)
    } else {
        i
    }
}

/// End of the integer part of a number starting at `i`: a single `0`,
/// or a nonzero digit followed by more digits.
pub open spec fn gr_int_end(s: Seq<char>, i: int) -> Option<int> {
    if 0 <= i && i < s.len() && s[i] == '0' {
        Some(i + 1)
    } else if 0 <= i && i < s.len() && is_digit(s[i]) {
        Some(digits_end(s, i))
    } else {
        None
    }
}

/// End of the optional fraction part starting at `i`.
pub open spec fn gr_frac_end(s: Seq<char>, i: int) -> Option<int> {
    if 0 <= i && i < s.len() && s[i] == '.' {
        if i + 1 < s.len() && is_digit(s[i + 1]) {
            Some(digits_end(s, i + 1))
        } else {
            None
        }
    } else {
        Some(i)
    }
}

/// End of the optional exponent part starting at `i`.
pub open spec fn gr_exp_end(s: Seq<char>, i: int) -> Option<int> {
    if 0 <= i && i < s.len() && (s[i] == 'e' || s[i] == 'E') {
        let k: int = if i + 1 < s.len() && (s[i + 1] == '+' || s[i + 1] == '-') {
            i + 2
        } else {
            i + 1
        };
        if k < s.len() && is_digit(s[k]) {
            Some(digits_end(s, k))
        } else {
            None
        }
    } else {
        Some(i)
    }
}

/// Does `s` match the JSON number grammar
/// `-? (0 | [1-9][0-9]*) (. [0-9]+)? ([eE] [+-]? [0-9]+)?` exactly?
pub open spec fn is_number_text(s: Seq<char>) -> bool {
    let st: int = if s.len() > 0 && s[0] == '-' {
        1
    } else {
        0
    };
    match gr_int_end(s, st) {
        None => false,
        Some(a) => match gr_frac_end(s, a) {
            None => false,
            Some(b) => match gr_exp_end(s, b) {
                None => false,
                Some(c) => c == s.len(),
            },
        },
    }
}

/// The canonical decimal digits of a nonnegative value.
pub open spec fn sp_udec(n: int) -> Seq<char>
    decreases n,
{
    if n <= 9 {
        seq![digit_char(n)]
    } else {
        sp_udec(n / 10) + seq![digit_char(n % 10)]
    }
}

/// The canonical decimal text of an integer.
pub open spec fn sp_int(n: int) -> Seq<char> {
    if n < 0 {
        seq!['-'] + sp_udec(-n)
    } else {
        sp_udec(n)
    }
}

/// The value of a sequence of decimal digits.
pub open spec fn dec_val(s: Seq<char>) -> int
    decreases s.len(),
{
    if s.len() == 0 {
        0
    } else {
        dec_val(s.drop_last()) * 10 + digit_val(s.last())
    }
}

/// Are all characters of `s` decimal digits?
pub open spec fn all_digits(s: Seq<char>) -> bool {
    forall|k: int| 0 <= k < s.len() ==> is_digit(s[k])
}

/// A canonical unsigned decimal text: nonempty digits, no leading zero.
pub open spec fn is_udec_text(s: Seq<char>) -> bool {
    s.len() > 0 && all_digits(s) && (s.len() > 1 ==> s[0] != '0')
}

/// A canonical integer text: an optional minus sign (never before a
/// plain zero) and a canonical unsigned decimal text.
pub open spec fn is_int_text(s: Seq<char>) -> bool {
    if s.len() > 0 && s[0] == '-' {
        is_udec_text(s.skip(1)) && s != seq!['-', '0']
    } else {
        is_udec_text(s)
    }
}

/// The value of a canonical integer text.
pub open spec fn int_text_val(s: Seq<char>) -> int {
    if s.len() > 0 && s[0] == '-' {
        -dec_val(s.skip(1))
    } else {
        dec_val(s)
    }
}

/// Reading an integer field at position `i`: take the maximal run of
/// number characters; it must be a canonical integer text whose value
/// fits a 32-bit signed integer.
pub open spec fn sp_parse_i32(s: Seq<char>, i: int) -> Option<(int, int)> {
    let j = num_end(s, i);
    let t = s.subrange(i, j);
    if is_int_text(t) && -2147483648 <= int_text_val(t) && int_text_val(t) <= 2147483647 {
        Some((int_text_val(t), j))
    } else {
        None
    }
}

/// Reading a fractional number field at position `i`: take the maximal
/// run of number characters; it must match the JSON number grammar.
pub open spec fn sp_parse_num(s: Seq<char>, i: int) -> Option<(Seq<char>, int)> {
    let j = num_end(s, i);
    let t = s.subrange(i, j);
    if is_number_text(t) {
        Some((t, j))
    } else {
        None
    }
}

/// The maximal run of number characters ends exactly where the number
/// characters stop.
pub proof fn lemma_num_end_of_segment(s: Seq<char>, i: int, m: int)
    requires
        0 <= i <= m <= s.len(),
        forall|k: int| i <= k < m ==> is_num_char(s[k]),
        m == s.len() || !is_num_char(s[m]),
    ensures
        num_end(s, i) == m,
    decreases m - i,
{
    if i < m {
        lemma_num_end_of_segment(s, i + 1, m);
    }
}

pub proof fn lemma_digits_end_bounds(s: Seq<char>, i: int)
    requires
        0 <= i <= s.len(),
    ensures
        i <= digits_end(s, i) <= s.len(),
        forall|k: int| i <= k < digits_end(s, i) ==> is_digit(s[k]),
        digits_end(s, i) < s.len() ==> !is_digit(s[digits_end(s, i)]),
    decreases s.len() - i,
{
    if i < s.len() && is_digit(s[i]) {
        lemma_digits_end_bounds(s, i + 1);
    }
}

/// Every character of a JSON number text is a number character.
pub proof fn lemma_number_text_num_chars(s: Seq<char>)
    requires
        is_number_text(s),
    ensures
        forall|k: int| 0 <= k < s.len() ==> is_num_char(#[trigger] s[k]),
{
    let st: int = if s.len() > 0 && s[0] == '-' {
        1
    } else {
        0
    };
    let a = gr_int_end(s, st)->0;
    let b = gr_frac_end(s, a)->0;
    let c = gr_exp_end(s, b)->0;
    if s[st] == '0' {
    } else {
        lemma_digits_end_bounds(s, st);
    }
    assert(st <= a <= s.len());
    assert(forall|k: int| st <= k < a ==> is_digit(s[k])) by {
        if s[st] == '0' {
        } else {
            lemma_digits_end_bounds(s, st);
        }
    }
    if a < s.len() && s[a] == '.' {
        lemma_digits_end_bounds(s, a + 1);
    }
    assert(a <= b <= s.len());
    assert(forall|k: int| a <= k < b ==> is_num_char(s[k])) by {
        if a < s.len() && s[a] == '.' {
            lemma_digits_end_bounds(s, a + 1);
        }
    }
    if b < s.len() && (s[b] == 'e' || s[b] == 'E') {
        let k: int = if b + 1 < s.len() && (s[b + 1] == '+' || s[b + 1] == '-') {
            b + 2
        } else {
            b + 1
        };
        lemma_digits_end_bounds(s, k);
    }
    assert(forall|k: int| b <= k < c ==> is_num_char(s[k])) by {
        if b < s.len() && (s[b] == 'e' || s[b] == 'E') {
            let k: int = if b + 1 < s.len() && (s[b + 1] == '+' || s[b + 1] == '-') {
                b + 2
            } else {
                b + 1
            };
            lemma_digits_end_bounds(s, k);
        }
    }
}

/// The canonical digits of a nonnegative value: well formed, and their
/// value is the value printed.
pub proof fn lemma_udec_text(n: int)
    requires
        n >= 0,
    ensures
        is_udec_text(sp_udec(n)),
        dec_val(sp_udec(n)) == n,
        n > 0 ==> sp_udec(n)[0] != '0',
        n == 0 ==> sp_udec(n) == seq!['0'],
    decreases n,
{
    if n <= 9 {
        let w = seq![digit_char(n)];
        assert(sp_udec(n) == w);
        assert(w.drop_last() =~= Seq::<char>::empty());
        assert(dec_val(w) == dec_val(w.drop_last()) * 10 + digit_val(w.last()));
        assert(digit_val(digit_char(n)) == n);
    } else {
        lemma_udec_text(n / 10);
        let u = sp_udec(n / 10);
        let w = sp_udec(n);
        assert(w == u + seq![digit_char(n % 10)]);
        assert(w.drop_last() =~= u);
        assert(w.last() == digit_char(n % 10));
        assert(digit_val(digit_char(n % 10)) == n % 10);
        assert(dec_val(w) == dec_val(u) * 10 + n % 10);
    }
}

/// The canonical integer text of a value: well formed, and it reads
/// back as the same value.
pub proof fn lemma_int_text(n: int)
    ensures
        is_int_text(sp_int(n)),
        int_text_val(sp_int(n)) == n,
        sp_int(n).len() > 0,
        is_num_char(sp_int(n)[0]),
        forall|k: int| 0 <= k < sp_int(n).len() ==> is_num_char(#[trigger] sp_int(n)[k]),
{
    if n < 0 {
        lemma_udec_text(-n);
        let u = sp_udec(-n);
        let w = sp_int(n);
        assert(w == seq!['-'] + u);
        assert(w.skip(1) =~= u);
        assert(w[0] == '-');
        assert(u[0] != '0');
        assert(w != seq!['-', '0']) by {
            if w =~= seq!['-', '0'] {
                assert(u[0] == w[1]);
            }
        }
    } else {
        lemma_udec_text(n);
        let w = sp_int(n);
        assert(w[0] != '-') by {
            assert(is_digit(w[0]));
        }
    }
}

/// The value of a digit sequence never shrinks as digits are appended.
pub proof fn lemma_dec_val_nonneg(s: Seq<char>)
    requires
        all_digits(s),
    ensures
        dec_val(s) >= 0,
    decreases s.len(),
{
    if s.len() > 0 {
        assert(all_digits(s.drop_last()));
        lemma_dec_val_nonneg(s.drop_last());
    }
}

pub proof fn lemma_dec_val_prefix(s: Seq<char>, k: int)
    requires
        all_digits(s),
        0 <= k <= s.len(),
    ensures
        dec_val(s) >= dec_val(s.take(k)),
    decreases s.len() - k,
{
    if k < s.len() {
        lemma_dec_val_prefix(s, k + 1);
        assert(s.take(k + 1).drop_last() =~= s.take(k));
        assert(all_digits(s.take(k)));
        lemma_dec_val_nonneg(s.take(k));
        assert(dec_val(s.take(k + 1)) == dec_val(s.take(k)) * 10 + digit_val(s.take(k + 1).last()));
    } else {
        assert(s.take(k) =~= s);
    }
}

/// The digit character of a digit value in executable code.
pub fn digit_char_of(d: u32) -> (c: char)
    requires
        d <= 9,
    ensures
        c == digit_char(d as int),
{
    match d {
        0 => '0',
        1 => '1',
        2 => '2',
        3 => '3',
        4 => '4',
        5 => '5',
        6 => '6',
        7 => '7',
        8 => '8',
        _ => '9',
    }
}

/// Is `c` a decimal digit, in executable code?
pub fn is_digit_char(c: char) -> (b: bool)
    ensures
        b == is_digit(c),
{
    let u = c as u32;
    48 <= u && u <= 57
}

/// Is `c` a number character, in executable code?
pub fn is_num_char_exec(c: char) -> (b: bool)
    ensures
        b == is_num_char(c),
{
    is_digit_char(c) || c == '-' || c == '+' || c == '.' || c == 'e' || c == 'E'
}

/// The end of the maximal run of number characters from `i`.
pub fn scan_num_end(s: &Vec<char>, i: usize) -> (j: usize)
    requires
        i <= s@.len(),
    ensures
        j as int == num_end(s@, i as int),
        i <= j <= s@.len(),
{
    let mut k = i;
    while k < s.len() && is_num_char_exec(s[k])
        invariant
            i <= k <= s@.len(),
            num_end(s@, i as int) == num_end(s@, k as int),
        decreases s@.len() - k,
    {
        k += 1;
    }
    k
}

/// The end of the maximal run of digits from `i`.
pub fn scan_digits_end(s: &Vec<char>, i: usize) -> (j: usize)
    requires
        i <= s@.len(),
    ensures
        j as int == digits_end(s@, i as int),
        i <= j <= s@.len(),
{
    let mut k = i;
    while k < s.len() && is_digit_char(s[k])
        invariant
            i <= k <= s@.len(),
            digits_end(s@, i as int) == digits_end(s@, k as int),
        decreases s@.len() - k,
    {
        k += 1;
    }
    k
}

/// Does the whole character vector match the JSON number grammar?
pub fn check_number_text(s: &Vec<char>) -> (b: bool)
    ensures
        b == is_number_text(s@),
{
    let n = s.len();
    let st: usize = if n > 0 && s[0] == '-' {
        1
    } else {
        0
    };
    let a: usize = if st < n && s[st] == '0' {
        st + 1
    } else if st < n && is_digit_char(s[st]) {
        scan_digits_end(s, st)
    } else {
        return false;
    };
    proof {
        lemma_digits_end_bounds(s@, st as int);
        assert(gr_int_end(s@, st as int) == Some(a as int));
    }
    let b2: usize = if a < n && s[a] == '.' {
        if a + 1 < n && is_digit_char(s[a + 1]) {
            scan_digits_end(s, a + 1)
        } else {
            return false;
        }
    } else {
        a
    };
    proof {
        assert(gr_frac_end(s@, a as int) == Some(b2 as int));
    }
    let c2: usize = if b2 < n && (s[b2] == 'e' || s[b2] == 'E') {
        let k: usize = if b2 + 1 < n && (s[b2 + 1] == '+' || s[b2 + 1] == '-') {
            b2 + 2
        } else {
            b2 + 1
        };
        if k < n && is_digit_char(s[k]) {
            scan_digits_end(s, k)
        } else {
            return false;
        }
    } else {
        b2
    };
    proof {
        assert(gr_exp_end(s@, b2 as int) == Some(c2 as int));
    }
    c2 == n
}

/// Reads an integer field at position `i`: the maximal run of number
/// characters must be a canonical integer text in the 32-bit range.
pub fn parse_i32(s: &Vec<char>, i: usize) -> (r: Option<(i32, usize)>)
    requires
        i <= s@.len(),
    ensures
        match r {
            Some(x) => sp_parse_i32(s@, i as int) == Some((x.0 as int, x.1 as int)) && i <= x.1
                <= s@.len(),
            None => sp_parse_i32(s@, i as int) is None,
        },
{
    let j = scan_num_end(s, i);
    let ghost t = s@.subrange(i as int, j as int);
    if j == i {
        return None;
    }
    let neg = s[i] == '-';
    let d0: usize = if neg {
        i + 1
    } else {
        i
    };
    proof {
        assert(t[0] == s@[i as int]);
    }
    if d0 == j {
        proof {
            assert(t.skip(1) =~= Seq::<char>::empty());
            assert(t =~= seq!['-']);
            assert(!is_int_text(t));
        }
        return None;
    }
    let ghost u = s@.subrange(d0 as int, j as int);
    proof {
        if neg {
            assert(t.skip(1) =~= u);
        } else {
            assert(t =~= u);
        }
    }
    let mut k = d0;
    while k < j
        invariant
            i <= d0 <= k <= j <= s@.len(),
            i < j,
            j as int == num_end(s@, i as int),
            t == s@.subrange(i as int, j as int),
            u == s@.subrange(d0 as int, j as int),
            t[0] == s@[i as int],
            neg <==> t[0] == '-',
            neg ==> d0 == i + 1 && t.skip(1) == u,
            !neg ==> d0 == i && t == u,
            forall|m: int| d0 <= m < k ==> is_digit(s@[m]),
        decreases j - k,
    {
        if !is_digit_char(s[k]) {
            proof {
                assert(u[k - d0] == s@[k as int]);
                assert(!all_digits(u));
                assert(!is_int_text(t));
            }
            return None;
        }
        k += 1;
    }
    proof {
        assert(all_digits(u)) by {
            assert(forall|m: int| 0 <= m < u.len() ==> u[m] == s@[d0 + m] && is_digit(s@[d0 + m]));
        }
    }
    if j - d0 > 1 && s[d0] == '0' {
        proof {
            assert(u[0] == s@[d0 as int]);
            assert(!is_udec_text(u));
            assert(!is_int_text(t));
        }
        return None;
    }
    if neg && j - d0 == 1 && s[d0] == '0' {
        proof {
            assert(u[0] == s@[d0 as int]);
            assert(t =~= seq!['-', '0']);
            assert(!is_int_text(t));
        }
        return None;
    }
    proof {
        assert(is_udec_text(u)) by {
            assert(u[0] == s@[d0 as int]);
        }
        assert(is_int_text(t)) by {
            if neg {
                assert(t[1] == s@[d0 as int]);
                if t =~= seq!['-', '0'] {
                    assert(u[0] == '0');
                }
            }
        }
    }
    let cap: u64 = if neg {
        2147483648
    } else {
        2147483647
    };
    let mut acc: u64 = 0;
    let mut k2 = d0;
    while k2 < j
        invariant
            i <= d0 <= k2 <= j <= s@.len(),
            i < j,
            j as int == num_end(s@, i as int),
            t == s@.subrange(i as int, j as int),
            u == s@.subrange(d0 as int, j as int),
            all_digits(u),
            is_int_text(t),
            neg ==> cap == 2147483648 && int_text_val(t) == -dec_val(u),
            !neg ==> cap == 2147483647 && int_text_val(t) == dec_val(u),
            acc <= cap,
            acc as int == dec_val(u.take(k2 - d0)),
        decreases j - k2,
    {
        proof {
            assert(u[k2 - d0] == s@[k2 as int]);
            assert(is_digit(s@[k2 as int]));
            assert(u.take(k2 - d0 + 1).drop_last() =~= u.take(k2 - d0));
            assert(u.take(k2 - d0 + 1).last() == u[k2 - d0]);
            assert(dec_val(u.take(k2 - d0 + 1)) == dec_val(u.take(k2 - d0)) * 10 + digit_val(
                s@[k2 as int],
            ));
        }
        let d: u32 = (s[k2] as u32) - 48;
        acc = acc * 10 + d as u64;
        if acc > cap {
            proof {
                lemma_dec_val_prefix(u, k2 - d0 + 1);
                assert(dec_val(u) >= acc);
                if neg {
                    assert(int_text_val(t) < -2147483648);
                } else {
                    assert(int_text_val(t) > 2147483647);
                }
            }
            return None;
        }
        k2 += 1;
    }
    proof {
        assert(u.take(j - d0) =~= u);
        assert(acc as int == dec_val(u));
        lemma_dec_val_nonneg(u);
    }
    let v: i32 = if neg {
        (-(acc as i64)) as i32
    } else {
        acc as i32
    };
    proof {
        if neg {
            assert(int_text_val(t) == -dec_val(u));
        } else {
            assert(int_text_val(t) == dec_val(u));
        }
        assert(v as int == int_text_val(t));
    }
    Some((v, j))
}

/// Appends the canonical decimal digits of `u` to `out`.
pub fn format_udec(u: u32, out: &mut String)
    ensures
        final(out)@ == old(out)@ + sp_udec(u as int),
    decreases u,
{
    if u <= 9 {
        crate::jtext::push_char(out, digit_char_of(u));
    } else {
        format_udec(u / 10, out);
        crate::jtext::push_char(out, digit_char_of(u % 10));
        proof {
            assert(out@ =~= old(out)@ + sp_udec(u as int));
        }
    }
}

/// Appends the canonical decimal text of `n` to `out`.
pub fn format_i32(n: i32, out: &mut String)
    ensures
        final(out)@ == old(out)@ + sp_int(n as int),
{
    if n < 0 {
        crate::jtext::push_char(out, '-');
        let mag: u32 = (-(n as i64)) as u32;
        format_udec(mag, out);
        proof {
            assert(out@ =~= old(out)@ + sp_int(n as int));
        }
    } else {
        format_udec(n as u32, out);
    }
}

} // verus!
